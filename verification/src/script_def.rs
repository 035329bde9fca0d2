//! The script objects of the dialogue scene: their tables, the members the
//! tables start with, and what their methods write into them.
use vstd::prelude::*;
use crate::args::{ArgError, arg_error_text, parse_arg, parse_required_arg, parse_required_member};
use crate::script::context::value_text;
use crate::script::table::{Table, TableStore};
use crate::script::context::{ScriptContext, onces_view};
use crate::script::value::{Decimal, ScriptValue, ValueV, value_number};

verus! {

// ---------------------------------------------------------------------------
// The list of layers

/// The global table that lists the dynamic layers by name.
pub struct VLayerLs;

/// The name of a layer table, if it has one.
pub open spec fn layer_name(layer: Map<Seq<char>, ValueV>) -> Option<Seq<char>> {
    if layer.contains_key("name"@) {
        match layer["name"@] {
            ValueV::Str(s) => Some(s),
            _ => None,
        }
    } else {
        None
    }
}

/// Whether the `name` member of a layer table, if present, is a string.
pub open spec fn name_is_text(layer: Map<Seq<char>, ValueV>) -> bool {
    layer.contains_key("name"@) ==> layer["name"@] is Str
}

fn name_of(layer: &Table) -> (r: Result<String, String>)
    requires
        name_is_text(layer@),
    ensures
        match r {
            Ok(n) => layer_name(layer@) == Some(n@),
            Err(e) => layer_name(layer@) is None && e@ == "layer should has name filed"@,
        },
{
    match layer.get_field("name") {
        Some(ScriptValue::String(s)) => Ok(s),
        _ => Err(String::from_str("layer should has name filed")),
    }
}

impl VLayerLs {
    /// Lists `layer` in `ls` under its name, as a handle to it; an error
    /// when the layer has no name.
    pub fn add_layer_ref(ls: &mut Table, layer: &Table) -> (r: Result<(), String>)
        requires
            name_is_text(layer@),
        ensures
            final(ls).id() == old(ls).id(),
            match layer_name(layer@) {
                Some(n) => r is Ok && final(ls)@ == old(ls)@.insert(n, ValueV::TableHandle(layer.id())),
                None => r matches Err(e) && e@ == "layer should has name filed"@ && final(ls)@ == old(ls)@,
            },
    {
        match name_of(layer) {
            Ok(key) => {
                ls.set(key, ScriptValue::TableHandle(layer.tuid()));
                Ok(())
            },
            Err(e) => Err(e),
        }
    }

    /// Removes `layer` from `ls` by its name; an error when the layer has no
    /// name.
    pub fn del_layer_ref(ls: &mut Table, layer: &Table) -> (r: Result<(), String>)
        requires
            name_is_text(layer@),
        ensures
            final(ls).id() == old(ls).id(),
            match layer_name(layer@) {
                Some(n) => r is Ok && final(ls)@ == old(ls)@.remove(n),
                None => r matches Err(e) && e@ == "layer should has name filed"@ && final(ls)@ == old(ls)@,
            },
    {
        match name_of(layer) {
            Ok(key) => {
                ls.remove(key.as_str());
                Ok(())
            },
            Err(e) => Err(e),
        }
    }
}

// ---------------------------------------------------------------------------
// Text objects

/// A piece of text at a position.
pub struct TextObj {
    pub content: String,
    pub pos: (i32, i32),
}

/// `v` when it fits an `i32`, 0 otherwise.
pub open spec fn i32_or_zero(v: i64) -> i32 {
    if i32::MIN <= v <= i32::MAX { v as i32 } else { 0 }
}

fn to_i32_or_zero(v: i64) -> (r: i32)
    ensures
        r == i32_or_zero(v),
{
    if v >= -2147483648 && v <= 2147483647 {
        v as i32
    } else {
        0
    }
}

/// Whether the argument at `i` of `args` is an integer.
pub open spec fn arg_is_int(args: Seq<ScriptValue>, i: int) -> bool {
    i < args.len() && args[i]@ is Int
}

/// Whether the argument at `i` of `args` is a string.
pub open spec fn arg_is_text(args: Seq<ScriptValue>, i: int) -> bool {
    i < args.len() && args[i]@ is Str
}

/// The error for the first of the three arguments of a text object that
/// is missing or of the wrong kind.
pub open spec fn text_obj_error(args: Seq<ScriptValue>, e: ArgError) -> bool {
    if !arg_is_text(args, 0) {
        if args.len() == 0 {
            e == ArgError::MissingArg { index: 0 }
        } else {
            e matches ArgError::InvalidArg { index: i, raw } && i == 0 && raw@ == args[0]@
        }
    } else if !arg_is_int(args, 1) {
        if args.len() <= 1 {
            e == ArgError::MissingArg { index: 1 }
        } else {
            e matches ArgError::InvalidArg { index: i, raw } && i == 1 && raw@ == args[1]@
        }
    } else {
        if args.len() <= 2 {
            e == ArgError::MissingArg { index: 2 }
        } else {
            e matches ArgError::InvalidArg { index: i, raw } && i == 2 && raw@ == args[2]@
        }
    }
}

fn arg_as_string(v: &ScriptValue) -> (r: Option<String>)
    ensures
        match v@ {
            ValueV::Str(s) => r is Some && r->0@ == s,
            _ => r is None,
        },
{
    v.as_string()
}

fn arg_as_int(v: &ScriptValue) -> (r: Option<i64>)
    ensures
        r == (match v@ {
            ValueV::Int(i) => Some(i),
            _ => None,
        }),
{
    v.as_int()
}

impl TextObj {
    /// A text object from the arguments of a script call: the text, then
    /// the integer coordinates (each 0 when it does not fit an `i32`); an
    /// error for the first argument that is missing or of the wrong kind.
    pub fn from_script_command(args: &[ScriptValue]) -> (r: Result<TextObj, ArgError>)
        ensures
            match r {
                Ok(t) => arg_is_text(args@, 0) && arg_is_int(args@, 1) && arg_is_int(args@, 2)
                    && ValueV::Str(t.content@) == args@[0]@
                    && t.pos.0 == i32_or_zero(args@[1]@->Int_0)
                    && t.pos.1 == i32_or_zero(args@[2]@->Int_0),
                Err(e) => !(arg_is_text(args@, 0) && arg_is_int(args@, 1) && arg_is_int(args@, 2))
                    && text_obj_error(args@, e),
            },
    {
        let content = match parse_required_arg(args, 0, arg_as_string) {
            Ok(c) => c,
            Err(e) => {
                return Err(e);
            },
        };
        let x = match parse_required_arg(args, 1, arg_as_int) {
            Ok(x) => x,
            Err(e) => {
                return Err(e);
            },
        };
        let y = match parse_required_arg(args, 2, arg_as_int) {
            Ok(y) => y,
            Err(e) => {
                return Err(e);
            },
        };
        Ok(TextObj { content, pos: (to_i32_or_zero(x), to_i32_or_zero(y)) })
    }

    /// The table of the text object, with a fresh id from `ctx`: its
    /// `content`, `xpos` and `ypos`.
    pub fn into_data_table(self, ctx: &mut TableStore) -> (r: Table)
        requires
            old(ctx).next_id() < u64::MAX,
        ensures
            r.id() == old(ctx).next_id(),
            final(ctx).next_id() == old(ctx).next_id() + 1,
            final(ctx)@ == old(ctx)@,
            r@ == Map::<Seq<char>, ValueV>::empty().insert("content"@, ValueV::Str(self.content@)).insert(
                "xpos"@,
                ValueV::Int(self.pos.0 as i64),
            ).insert("ypos"@, ValueV::Int(self.pos.1 as i64)),
    {
        let tuid = ctx.alloc_table_id();
        let mut table = Table::with_tuid(tuid);
        table.set(String::from_str("content"), ScriptValue::String(self.content));
        table.set(String::from_str("xpos"), ScriptValue::Int(self.pos.0 as i64));
        table.set(String::from_str("ypos"), ScriptValue::Int(self.pos.1 as i64));
        table
    }
}


// ---------------------------------------------------------------------------
// Layers

/// A dynamic layer that scripts create: an image or an effect drawn at a
/// depth.
pub struct Layer {}

/// The text argument at `i`, or `default`.
pub open spec fn text_arg_or(args: Seq<ScriptValue>, i: int, default: Seq<char>) -> Seq<char> {
    if arg_is_text(args, i) { args[i]@->Str_0 } else { default }
}

/// The integer argument at `i`, or `default`.
pub open spec fn int_arg_or(args: Seq<ScriptValue>, i: int, default: i64) -> i64 {
    if arg_is_int(args, i) { args[i]@->Int_0 } else { default }
}

/// The members of a new layer made from `args` on a screen of size
/// `resolution`: name, kind, depth, data and placement, each from its
/// argument or its default, and hidden.
pub open spec fn layer_members(args: Seq<ScriptValue>, resolution: (u16, u16)) -> Map<Seq<char>, ValueV> {
    Map::<Seq<char>, ValueV>::empty()
        .insert("name"@, ValueV::Str(text_arg_or(args, 0, "NONAME"@)))
        .insert("m_visible"@, ValueV::Bool(false))
        .insert("z_deep"@, ValueV::Int(int_arg_or(args, 2, 200)))
        .insert("layer_type"@, ValueV::Str(text_arg_or(args, 1, "image"@)))
        .insert("data"@, ValueV::Str(text_arg_or(args, 3, ""@)))
        .insert("x"@, ValueV::Int(int_arg_or(args, 4, 0)))
        .insert("y"@, ValueV::Int(int_arg_or(args, 5, 0)))
        .insert("w"@, ValueV::Int(int_arg_or(args, 6, resolution.0 as i64)))
        .insert("h"@, ValueV::Int(int_arg_or(args, 7, resolution.1 as i64)))
}

fn text_arg(args: &[ScriptValue], i: usize, default: &str) -> (r: String)
    ensures
        r@ == text_arg_or(args@, i as int, default@),
{
    parse_arg(args, i, String::from_str(default), arg_as_string)
}

fn int_arg(args: &[ScriptValue], i: usize, default: i64) -> (r: i64)
    ensures
        r == int_arg_or(args@, i as int, default),
{
    parse_arg(args, i, default, arg_as_int)
}

impl Layer {
    /// The table of a new layer made from `args` (name, kind, depth, data,
    /// x, y, width, height), with a fresh id from `ctx`; the layer is
    /// listed in `layer_ls` under its name.
    pub fn create_class_table(
        ctx: &mut TableStore,
        layer_ls: &mut Table,
        args: &[ScriptValue],
        resolution: (u16, u16),
    ) -> (r: Table)
        requires
            old(ctx).next_id() < u64::MAX,
        ensures
            r.id() == old(ctx).next_id(),
            r@ == layer_members(args@, resolution),
            final(ctx).next_id() == old(ctx).next_id() + 1,
            final(ctx)@ == old(ctx)@,
            final(layer_ls).id() == old(layer_ls).id(),
            final(layer_ls)@ == old(layer_ls)@.insert(
                text_arg_or(args@, 0, "NONAME"@),
                ValueV::TableHandle(r.id()),
            ),
    {
        let name = text_arg(args, 0, "NONAME");
        let layer_type = text_arg(args, 1, "image");
        let z_deep = int_arg(args, 2, 200);
        let data = text_arg(args, 3, "");
        let x = int_arg(args, 4, 0);
        let y = int_arg(args, 5, 0);
        let w = int_arg(args, 6, resolution.0 as i64);
        let h = int_arg(args, 7, resolution.1 as i64);
        let tuid = ctx.alloc_table_id();
        let mut table = Table::with_tuid(tuid);
        table.set(String::from_str("name"), ScriptValue::String(name));
        table.set(String::from_str("m_visible"), ScriptValue::Bool(false));
        table.set(String::from_str("z_deep"), ScriptValue::Int(z_deep));
        table.set(String::from_str("layer_type"), ScriptValue::String(layer_type));
        table.set(String::from_str("data"), ScriptValue::String(data));
        table.set(String::from_str("x"), ScriptValue::Int(x));
        table.set(String::from_str("y"), ScriptValue::Int(y));
        table.set(String::from_str("w"), ScriptValue::Int(w));
        table.set(String::from_str("h"), ScriptValue::Int(h));
        proof {
            assert(table@ =~= layer_members(args@, resolution));
            reveal_strlit("name");
            reveal_strlit("m_visible");
            reveal_strlit("z_deep");
            reveal_strlit("layer_type");
            reveal_strlit("data");
            reveal_strlit("x");
            reveal_strlit("y");
            reveal_strlit("w");
            reveal_strlit("h");
            assert("name"@[0] != "data"@[0]);
            assert("name"@ != "m_visible"@ && "name"@ != "z_deep"@ && "name"@ != "layer_type"@
                && "name"@ != "data"@ && "name"@ != "x"@ && "name"@ != "y"@ && "name"@ != "w"@
                && "name"@ != "h"@);
            assert(layer_name(table@) == Some(text_arg_or(args@, 0, "NONAME"@)));
        }
        let _ = VLayerLs::add_layer_ref(layer_ls, &table);
        table
    }

    /// Shows or hides the layer: its `m_visible` becomes `visible`.
    pub fn set_visible(table: &mut Table, visible: bool)
        ensures
            final(table).id() == old(table).id(),
            final(table)@ == old(table)@.insert("m_visible"@, ValueV::Bool(visible)),
    {
        table.set(String::from_str("m_visible"), ScriptValue::Bool(visible));
    }

    /// Sets the layer's `data` to the text argument, or to the empty text.
    pub fn set(table: &mut Table, args: &[ScriptValue])
        ensures
            final(table).id() == old(table).id(),
            final(table)@ == old(table)@.insert("data"@, ValueV::Str(text_arg_or(args@, 0, ""@))),
    {
        let data = text_arg(args, 0, "");
        table.set(String::from_str("data"), ScriptValue::String(data));
    }
}


// ---------------------------------------------------------------------------
// The dialogue frame

/// The global table of the dialogue frame.
pub struct VFrame;

fn value_as_bool(v: &ScriptValue) -> (r: Option<bool>)
    ensures
        r == (match v@ {
            ValueV::Bool(b) => Some(b),
            _ => None,
        }),
{
    v.as_bool()
}

impl VFrame {
    /// Gives the frame its first members: visible, in the `normal` mode,
    /// with no speaker and the plain style.
    pub fn init_members(frame: &mut Table)
        ensures
            final(frame).id() == old(frame).id(),
            final(frame)@ == old(frame)@.insert("visible"@, ValueV::Bool(true)).insert(
                "mode"@,
                ValueV::Str("normal"@),
            ).insert("speaker"@, ValueV::Str(""@)).insert("m_rev_style"@, ValueV::Bool(false)),
    {
        frame.set(String::from_str("visible"), ScriptValue::Bool(true));
        frame.set(String::from_str("mode"), ScriptValue::String(String::from_str("normal")));
        frame.set(String::from_str("speaker"), ScriptValue::String(String::from_str("")));
        frame.set(String::from_str("m_rev_style"), ScriptValue::Bool(false));
    }

    /// Shows or hides the frame: its `visible` becomes `visible`.
    pub fn set_visible(frame: &mut Table, visible: bool)
        ensures
            final(frame).id() == old(frame).id(),
            final(frame)@ == old(frame)@.insert("visible"@, ValueV::Bool(visible)),
    {
        frame.set(String::from_str("visible"), ScriptValue::Bool(visible));
    }

    /// Flips the frame's style: `m_rev_style` becomes the negation of its
    /// boolean value; an error when it is missing or not a boolean.
    pub fn rev_style(frame: &mut Table) -> (r: Result<(), ArgError>)
        ensures
            final(frame).id() == old(frame).id(),
            match r {
                Ok(_) => old(frame)@.contains_key("m_rev_style"@) && (old(frame)@["m_rev_style"@] matches ValueV::Bool(
                    b,
                ) && final(frame)@ == old(frame)@.insert("m_rev_style"@, ValueV::Bool(!b))),
                Err(e) => final(frame)@ == old(frame)@ && if old(frame)@.contains_key("m_rev_style"@) {
                    !(old(frame)@["m_rev_style"@] is Bool) && (e matches ArgError::InvalidMember { key: k, raw }
                        && k@ == "m_rev_style"@ && raw@ == old(frame)@["m_rev_style"@])
                } else {
                    e matches ArgError::MissingMember { key: k } && k@ == "m_rev_style"@
                },
            },
    {
        let m = match parse_required_member(&*frame, "m_rev_style", value_as_bool) {
            Ok(m) => m,
            Err(e) => {
                return Err(e);
            },
        };
        frame.set(String::from_str("m_rev_style"), ScriptValue::Bool(!m));
        Ok(())
    }

    /// Sets the frame's `mode` to the text argument; an error when it is
    /// missing or not a string.
    pub fn set_mode(frame: &mut Table, args: &[ScriptValue]) -> (r: Result<(), ArgError>)
        ensures
            final(frame).id() == old(frame).id(),
            match r {
                Ok(_) => arg_is_text(args@, 0) && final(frame)@ == old(frame)@.insert("mode"@, args@[0]@),
                Err(e) => !arg_is_text(args@, 0) && final(frame)@ == old(frame)@ && if args@.len() == 0 {
                    e == ArgError::MissingArg { index: 0 }
                } else {
                    e matches ArgError::InvalidArg { index: i, raw } && i == 0 && raw@ == args@[0]@
                },
            },
    {
        let mode = match parse_required_arg(args, 0, arg_as_string) {
            Ok(m) => m,
            Err(e) => {
                return Err(e);
            },
        };
        frame.set(String::from_str("mode"), ScriptValue::String(mode));
        Ok(())
    }
}

// ---------------------------------------------------------------------------
// The narration paragraph

/// The global table of the narration paragraph.
pub struct VParagraph;

/// The text of the first argument, if it is a string.
pub open spec fn first_text(args: Seq<ScriptValue>) -> Option<Seq<char>> {
    if arg_is_text(args, 0) { Some(args[0]@->Str_0) } else { None }
}

/// The text of the member `key`, or the empty text when it is missing or
/// not a string.
pub open spec fn member_text(t: Map<Seq<char>, ValueV>, key: Seq<char>) -> Seq<char> {
    if t.contains_key(key) && t[key] is Str { t[key]->Str_0 } else { ""@ }
}

fn first_text_of(args: &[ScriptValue]) -> (r: Option<String>)
    ensures
        match r {
            Some(s) => first_text(args@) == Some(s@),
            None => first_text(args@) is None,
        },
{
    if args.len() == 0 {
        return None;
    }
    args[0].as_string()
}

impl VParagraph {
    /// Gives the paragraph its first members: hidden and empty.
    pub fn init_members(paragraph: &mut Table)
        ensures
            final(paragraph).id() == old(paragraph).id(),
            final(paragraph)@ == old(paragraph)@.insert("m_visible"@, ValueV::Bool(false)).insert(
                "m_content"@,
                ValueV::Str(""@),
            ),
    {
        paragraph.set(String::from_str("m_visible"), ScriptValue::Bool(false));
        paragraph.set(String::from_str("m_content"), ScriptValue::String(String::from_str("")));
    }

    /// Shows or hides the paragraph: its `m_visible` becomes `visible`.
    pub fn set_visible(paragraph: &mut Table, visible: bool)
        ensures
            final(paragraph).id() == old(paragraph).id(),
            final(paragraph)@ == old(paragraph)@.insert("m_visible"@, ValueV::Bool(visible)),
    {
        paragraph.set(String::from_str("m_visible"), ScriptValue::Bool(visible));
    }

    /// Appends the text argument to the paragraph's content; an error when
    /// there is no text argument.
    pub fn print(paragraph: &mut Table, args: &[ScriptValue]) -> (r: Result<(), String>)
        ensures
            final(paragraph).id() == old(paragraph).id(),
            match first_text(args@) {
                Some(t) => r is Ok && final(paragraph)@ == old(paragraph)@.insert(
                    "m_content"@,
                    ValueV::Str(member_text(old(paragraph)@, "m_content"@) + t),
                ),
                None => r matches Err(e) && e@ == "paragraph.print requires text argument"@
                    && final(paragraph)@ == old(paragraph)@,
            },
    {
        let text = match first_text_of(args) {
            Some(t) => t,
            None => {
                return Err(String::from_str("paragraph.print requires text argument"));
            },
        };
        let mut content = match paragraph.get_field("m_content") {
            Some(ScriptValue::String(s)) => s,
            _ => String::from_str(""),
        };
        proof {
            reveal_strlit("");
        }
        content.append(text.as_str());
        paragraph.set(String::from_str("m_content"), ScriptValue::String(content));
        Ok(())
    }

    /// Starts a new page with the text argument: the paragraph shows, with
    /// the text as its whole content; an error when there is no text
    /// argument.
    pub fn new_page(paragraph: &mut Table, args: &[ScriptValue]) -> (r: Result<(), String>)
        ensures
            final(paragraph).id() == old(paragraph).id(),
            match first_text(args@) {
                Some(t) => r is Ok && final(paragraph)@ == old(paragraph)@.insert(
                    "m_content"@,
                    ValueV::Str(""@),
                ).insert("m_visible"@, ValueV::Bool(true)).insert("m_content"@, ValueV::Str(t)),
                None => r matches Err(e) && e@ == "paragraph.new requires text argument"@
                    && final(paragraph)@ == old(paragraph)@,
            },
    {
        let text = match first_text_of(args) {
            Some(t) => t,
            None => {
                return Err(String::from_str("paragraph.new requires text argument"));
            },
        };
        paragraph.set(String::from_str("m_content"), ScriptValue::String(String::from_str("")));
        paragraph.set(String::from_str("m_visible"), ScriptValue::Bool(true));
        paragraph.set(String::from_str("m_content"), ScriptValue::String(text));
        Ok(())
    }

    /// Empties the paragraph's content.
    pub fn clear(paragraph: &mut Table)
        ensures
            final(paragraph).id() == old(paragraph).id(),
            final(paragraph)@ == old(paragraph)@.insert("m_content"@, ValueV::Str(""@)),
    {
        paragraph.set(String::from_str("m_content"), ScriptValue::String(String::from_str("")));
    }
}

// ---------------------------------------------------------------------------
// The background

/// The global table of the background.
pub struct VBg;

impl VBg {
    /// Gives the background its first members: no image, with the edges
    /// shown.
    pub fn init_members(bg: &mut Table)
        ensures
            final(bg).id() == old(bg).id(),
            final(bg)@ == old(bg)@.insert("m_image"@, ValueV::Str(""@)).insert(
                "m_is_edge"@,
                ValueV::Bool(true),
            ),
    {
        bg.set(String::from_str("m_image"), ScriptValue::String(String::from_str("")));
        bg.set(String::from_str("m_is_edge"), ScriptValue::Bool(true));
    }

    /// Shows or hides the black edges: `m_is_edge` becomes `shown`.
    pub fn set_edge(bg: &mut Table, shown: bool)
        ensures
            final(bg).id() == old(bg).id(),
            final(bg)@ == old(bg)@.insert("m_is_edge"@, ValueV::Bool(shown)),
    {
        bg.set(String::from_str("m_is_edge"), ScriptValue::Bool(shown));
    }

    /// Records the new background image, the text argument, in `m_image`;
    /// an error when it is missing or not a string.
    pub fn set_image(bg: &mut Table, args: &[ScriptValue]) -> (r: Result<String, ArgError>)
        ensures
            final(bg).id() == old(bg).id(),
            match r {
                Ok(p) => arg_is_text(args@, 0) && args@[0]@ == ValueV::Str(p@) && final(bg)@ == old(
                    bg,
                )@.insert("m_image"@, ValueV::Str(p@)),
                Err(e) => !arg_is_text(args@, 0) && final(bg)@ == old(bg)@ && if args@.len() == 0 {
                    e == ArgError::MissingArg { index: 0 }
                } else {
                    e matches ArgError::InvalidArg { index: i, raw } && i == 0 && raw@ == args@[0]@
                },
            },
    {
        let path = match parse_required_arg(args, 0, arg_as_string) {
            Ok(p) => p,
            Err(e) => {
                return Err(e);
            },
        };
        bg.set(String::from_str("m_image"), ScriptValue::String(path.clone()));
        Ok(path)
    }
}


/// Removing a layer undoes listing it: listing a named layer and then
/// removing it leaves the list without that name, and every other entry
/// as it was.
pub proof fn layer_ref_add_then_del(ls: Map<Seq<char>, ValueV>, name: Seq<char>, id: u64)
    ensures
        ls.insert(name, ValueV::TableHandle(id)).remove(name) == ls.remove(name),
{
    assert(ls.insert(name, ValueV::TableHandle(id)).remove(name) =~= ls.remove(name));
}


// ---------------------------------------------------------------------------
// Characters

/// A character as its settings file describes it: the face shown now, the
/// name shown, and its sprites, faces and voices by name.
pub struct Character {
    pub current_face: String,
    pub display: String,
    pub stands: Vec<(String, String)>,
    pub faces: Vec<(String, String)>,
    pub voice: Vec<(String, String)>,
}

/// The map of the name/path pairs `ps`, a later pair winning over an
/// earlier one with the same name.
pub open spec fn pairs_map(ps: Seq<(String, String)>) -> Map<Seq<char>, ValueV>
    decreases ps.len(),
{
    if ps.len() == 0 {
        Map::empty()
    } else {
        pairs_map(ps.drop_last()).insert(ps.last().0@, ValueV::Str(ps.last().1@))
    }
}

fn pairs_table(tuid: u64, ps: &Vec<(String, String)>) -> (r: Table)
    ensures
        r.id() == tuid,
        r@ == pairs_map(ps@),
{
    let mut t = Table::with_tuid(tuid);
    let mut i: usize = 0;
    while i < ps.len()
        invariant
            i <= ps@.len(),
            t.id() == tuid,
            t@ == pairs_map(ps@.take(i as int)),
        decreases ps@.len() - i,
    {
        t.set(ps[i].0.clone(), ScriptValue::String(ps[i].1.clone()));
        proof {
            assert(ps@.take(i + 1).drop_last() =~= ps@.take(i as int));
        }
        i = i + 1;
    }
    assert(ps@.take(ps@.len() as int) =~= ps@);
    t
}

/// The members of a character's table: its display name and face, and
/// handles to the tables of its sprites, faces and voices.
pub open spec fn character_members(c: Character, stands: u64, faces: u64, voices: u64) -> Map<Seq<char>, ValueV> {
    Map::<Seq<char>, ValueV>::empty()
        .insert("display"@, ValueV::Str(c.display@))
        .insert("_stands"@, ValueV::TableHandle(stands))
        .insert("_faces"@, ValueV::TableHandle(faces))
        .insert("_voices"@, ValueV::TableHandle(voices))
        .insert("face"@, ValueV::Str(c.current_face@))
}

impl Character {
    /// The table of a new character, with fresh ids from `ctx`. Without a
    /// character (its settings file could not be read) the table is
    /// empty. Otherwise it holds the display name and the face, and
    /// handles to three new tables, stored in `ctx`, of the sprites, the
    /// faces and the voices.
    pub fn create_class_table(ctx: &mut TableStore, character: Option<Character>) -> (r: Table)
        requires
            old(ctx).next_id() + 4 <= u64::MAX,
        ensures
            r.id() == old(ctx).next_id(),
            match character {
                None => r@ == Map::<Seq<char>, ValueV>::empty() && final(ctx).next_id() == old(ctx).next_id() + 1
                    && final(ctx)@ == old(ctx)@,
                Some(c) => {
                    let s = (old(ctx).next_id() + 1) as u64;
                    let f = (old(ctx).next_id() + 2) as u64;
                    let v = (old(ctx).next_id() + 3) as u64;
                    &&& final(ctx).next_id() == old(ctx).next_id() + 4
                    &&& r@ == character_members(c, s, f, v)
                    &&& final(ctx)@ == old(ctx)@.insert(s, pairs_map(c.stands@)).insert(f, pairs_map(c.faces@)).insert(
                        v,
                        pairs_map(c.voice@),
                    )
                },
            },
    {
        let root = ctx.alloc_table_id();
        let mut table = Table::with_tuid(root);
        match character {
            None => table,
            Some(c) => {
                let s = ctx.alloc_table_id();
                let stands = pairs_table(s, &c.stands);
                let f = ctx.alloc_table_id();
                let faces = pairs_table(f, &c.faces);
                let v = ctx.alloc_table_id();
                let voices = pairs_table(v, &c.voice);
                ctx.insert(stands);
                ctx.insert(faces);
                ctx.insert(voices);
                table.set(String::from_str("display"), ScriptValue::String(c.display));
                table.set(String::from_str("_stands"), ScriptValue::TableHandle(s));
                table.set(String::from_str("_faces"), ScriptValue::TableHandle(f));
                table.set(String::from_str("_voices"), ScriptValue::TableHandle(v));
                table.set(String::from_str("face"), ScriptValue::String(c.current_face));
                table
            },
        }
    }
}

/// A line a character says: who says it, the image of the face shown, and
/// the text.
pub struct SayLine {
    pub speaker: String,
    pub face_path: String,
    pub text: String,
}

/// The image of the face `face` of a character whose faces member is
/// `faces`: the face's path in the faces table, or the empty text when
/// that table or that face is missing or not a path.
pub open spec fn face_image(
    faces: ValueV,
    store: Map<u64, Map<Seq<char>, ValueV>>,
    face: Seq<char>,
) -> Seq<char> {
    match faces {
        ValueV::TableHandle(id) => if store.contains_key(id) && store[id].contains_key(face) {
            match store[id][face] {
                ValueV::Str(p) => p,
                _ => ""@,
            }
        } else {
            ""@
        },
        _ => ""@,
    }
}

/// The error for a required text member `key` of `t`, if it is missing or
/// not a text.
pub open spec fn text_member_error(t: Map<Seq<char>, ValueV>, key: Seq<char>) -> Option<Seq<char>> {
    if !t.contains_key(key) {
        Some("missing required table member ["@ + key + "]"@)
    } else if !(t[key] is Str) {
        Some("failed to parse table["@ + key + "], raw="@ + value_text(t[key]))
    } else {
        None
    }
}

/// The error of a character's `say` with `args`, if any: the text argument
/// is checked first, then the members `display` and `face`, then that the
/// member `_faces` is there.
pub open spec fn say_error(t: Map<Seq<char>, ValueV>, args: Seq<ScriptValue>) -> Option<Seq<char>> {
    if !arg_is_text(args, 0) {
        Some(
            if args.len() == 0 {
                arg_error_text(ArgError::MissingArg { index: 0 })
            } else {
                arg_error_text(ArgError::InvalidArg { index: 0, raw: args[0] })
            },
        )
    } else if text_member_error(t, "display"@) is Some {
        text_member_error(t, "display"@)
    } else if text_member_error(t, "face"@) is Some {
        text_member_error(t, "face"@)
    } else if !t.contains_key("_faces"@) {
        Some("missing required table member ["@ + "_faces"@ + "]"@)
    } else {
        None
    }
}

fn member_text_of(table: &Table, key: &str) -> (r: Result<String, ArgError>)
    ensures
        match r {
            Ok(s) => table@.contains_key(key@) && table@[key@] == ValueV::Str(s@),
            Err(e) => !(table@.contains_key(key@) && table@[key@] is Str) && if table@.contains_key(key@) {
                e matches ArgError::InvalidMember { key: k, raw } && k@ == key@ && raw@ == table@[key@]
            } else {
                e matches ArgError::MissingMember { key: k } && k@ == key@
            },
        },
{
    crate::args::parse_required_member(table, key, arg_as_string)
}

impl Character {
    /// What the character's `say` gives for `args`: the text argument, the
    /// character's display name, and the image of its current face; an
    /// error when the text, the name, the face or the faces member is
    /// missing or not of the right kind.
    pub fn say(table: &Table, store: &TableStore, args: &[ScriptValue]) -> (r: Result<SayLine, ArgError>)
        ensures
            match r {
                Ok(line) => {
                    &&& arg_is_text(args@, 0)
                    &&& ValueV::Str(line.text@) == args@[0]@
                    &&& table@.contains_key("display"@) && table@["display"@] == ValueV::Str(line.speaker@)
                    &&& table@.contains_key("face"@) && table@["face"@] is Str
                    &&& table@.contains_key("_faces"@)
                    &&& line.face_path@ == face_image(table@["_faces"@], store@, table@["face"@]->Str_0)
                },
                Err(e) => say_error(table@, args@) == Some(arg_error_text(e)),
            },
            r is Ok <==> say_error(table@, args@) is None,
    {
        let text = match parse_required_arg(args, 0, arg_as_string) {
            Ok(t) => t,
            Err(e) => {
                return Err(e);
            },
        };
        let speaker = match member_text_of(table, "display") {
            Ok(s) => s,
            Err(e) => {
                return Err(e);
            },
        };
        let cur_face = match member_text_of(table, "face") {
            Ok(s) => s,
            Err(e) => {
                return Err(e);
            },
        };
        let faces = match table.get_field("_faces") {
            Some(v) => v,
            None => {
                return Err(ArgError::MissingMember { key: String::from_str("_faces") });
            },
        };
        proof {
            reveal_strlit("");
        }
        let face_path = match faces {
            ScriptValue::TableHandle(id) => match store.table(id) {
                Some(t) => match t.get_field(cur_face.as_str()) {
                    Some(ScriptValue::String(p)) => p,
                    _ => String::from_str(""),
                },
                None => String::from_str(""),
            },
            _ => String::from_str(""),
        };
        Ok(SayLine { speaker, face_path, text })
    }
}

// ---------------------------------------------------------------------------
// The text function

/// The arguments of a `text` call: the content, the typing speed, and the
/// speaker.
pub struct TextCall {
    pub content: String,
    pub speed: Decimal,
    pub speaker: String,
}

/// The number argument at `i`, if it is a number.
pub open spec fn number_arg(args: Seq<ScriptValue>, i: int) -> Option<Decimal> {
    if i < args.len() { value_number(args[i]@) } else { None }
}

/// The default typing speed, 30.
pub open spec fn default_speed() -> Decimal {
    Decimal { mantissa: 30, scale: 0 }
}

/// The typing speed of a `text` call: the second argument when it is a
/// number that is not negative; otherwise, when the second argument is a
/// non-empty speaker name, the third argument (30 when it is no number);
/// otherwise 30.
pub open spec fn text_speed(args: Seq<ScriptValue>) -> Decimal {
    let s = match number_arg(args, 1) {
        Some(d) => d,
        None => Decimal { mantissa: -1i64, scale: 0 },
    };
    if s.mantissa >= 0 {
        s
    } else if text_arg_or(args, 1, ""@).len() > 0 {
        match number_arg(args, 2) {
            Some(d) => d,
            None => default_speed(),
        }
    } else {
        default_speed()
    }
}

fn number_of(v: &ScriptValue) -> (r: Option<Decimal>)
    ensures
        r == value_number(v@),
{
    v.to_number()
}

/// The arguments of a `text` call: the content first; then either the
/// speed, or the speaker followed by the speed (a speaker and a speed
/// together put the speed third). An error when the content is missing or
/// not a string.
pub fn text_call_args(args: &[ScriptValue]) -> (r: Result<TextCall, ArgError>)
    ensures
        match r {
            Ok(t) => arg_is_text(args@, 0) && ValueV::Str(t.content@) == args@[0]@ && t.speed == text_speed(args@)
                && t.speaker@ == text_arg_or(args@, 1, ""@),
            Err(e) => !arg_is_text(args@, 0) && if args@.len() == 0 {
                e == ArgError::MissingArg { index: 0 }
            } else {
                e matches ArgError::InvalidArg { index: i, raw } && i == 0 && raw@ == args@[0]@
            },
        },
{
    let content = match parse_required_arg(args, 0, arg_as_string) {
        Ok(c) => c,
        Err(e) => {
            return Err(e);
        },
    };
    let mut speed = parse_arg(args, 1, Decimal { mantissa: -1, scale: 0 }, number_of);
    let speaker = text_arg(args, 1, "");
    if speed.mantissa < 0 {
        if !speaker.as_str().is_empty() {
            speed = parse_arg(args, 2, Decimal { mantissa: 30, scale: 0 }, number_of);
        } else {
            speed = Decimal { mantissa: 30, scale: 0 };
        }
    }
    Ok(TextCall { content, speed, speaker })
}


// ---------------------------------------------------------------------------
// Registering the global tables

/// Whether `post` is `pre` with one more global table `name`, the table
/// of id `pre`'s next id, holding `members`.
pub open spec fn added_global_table(
    pre: ScriptContext,
    post: ScriptContext,
    name: Seq<char>,
    members: Map<Seq<char>, ValueV>,
) -> bool {
    let id = pre.tables.next_id();
    &&& post.tables.next_id() == id + 1
    &&& post.globals@ == pre.globals@.insert(name, ValueV::TableHandle(id))
    &&& post.tables@ == pre.tables@.insert(id, members)
    &&& onces_view(post.once_records@) == onces_view(pre.once_records@)
    &&& post.next_session_target == pre.next_session_target
}

/// The members the dialogue frame starts with: its values, then its
/// functions `show`, `hide`, `rev_style` and `set_mode`.
pub open spec fn frame_members() -> Map<Seq<char>, ValueV> {
    Map::<Seq<char>, ValueV>::empty().insert("visible"@, ValueV::Bool(true)).insert("mode"@, ValueV::Str("normal"@)).insert(
        "speaker"@,
        ValueV::Str(""@),
    ).insert("m_rev_style"@, ValueV::Bool(false)).insert("show"@, ValueV::Function("frame.show"@)).insert(
        "hide"@,
        ValueV::Function("frame.hide"@),
    ).insert("rev_style"@, ValueV::Function("frame.rev_style"@)).insert(
        "set_mode"@,
        ValueV::Function("frame.set_mode"@),
    )
}

/// The members the narration paragraph starts with: its values, then its
/// functions `show`, `hide`, `print`, `new` and `clear`.
pub open spec fn paragraph_members() -> Map<Seq<char>, ValueV> {
    Map::<Seq<char>, ValueV>::empty().insert("m_visible"@, ValueV::Bool(false)).insert("m_content"@, ValueV::Str(""@)).insert(
        "show"@,
        ValueV::Function("paragraph.show"@),
    ).insert("hide"@, ValueV::Function("paragraph.hide"@)).insert("print"@, ValueV::Function("paragraph.print"@)).insert(
        "new"@,
        ValueV::Function("paragraph.new"@),
    ).insert("clear"@, ValueV::Function("paragraph.clear"@))
}

/// The members the background starts with: its values, then its functions
/// `set`, `trans_to`, `show_edge` and `hide_edge`.
pub open spec fn bg_members() -> Map<Seq<char>, ValueV> {
    Map::<Seq<char>, ValueV>::empty().insert("m_image"@, ValueV::Str(""@)).insert("m_is_edge"@, ValueV::Bool(true)).insert(
        "set"@,
        ValueV::Function("bg.set"@),
    ).insert("trans_to"@, ValueV::Function("bg.trans_to"@)).insert("show_edge"@, ValueV::Function("bg.show_edge"@)).insert(
        "hide_edge"@,
        ValueV::Function("bg.hide_edge"@),
    )
}

/// Gives `t` the member `member`: the function of name `name`.
fn set_function(t: &mut Table, member: &str, name: &str)
    ensures
        final(t).id() == old(t).id(),
        final(t)@ == old(t)@.insert(member@, ValueV::Function(name@)),
{
    t.set(member.to_string(), ScriptValue::Function(name.to_string()));
}

/// The members the list of characters on stage starts with: the functions
/// `set_characters` and `clear`.
pub open spec fn character_ls_members() -> Map<Seq<char>, ValueV> {
    Map::<Seq<char>, ValueV>::empty().insert(
        "set_characters"@,
        ValueV::Function("character_ls.set_characters"@),
    ).insert("clear"@, ValueV::Function("character_ls.clear"@))
}

/// The members the chapter titles start with: the functions
/// `show_title` and `show_sub_title`.
pub open spec fn chapter_members() -> Map<Seq<char>, ValueV> {
    Map::<Seq<char>, ValueV>::empty().insert("show_title"@, ValueV::Function("chapter.show_title"@)).insert(
        "show_sub_title"@,
        ValueV::Function("chapter.show_sub_title"@),
    )
}

/// The members the music and the ambience start with: no source, and
/// their functions `set` and `stop`, of names `set_fn` and `stop_fn`.
pub open spec fn source_members(set_fn: Seq<char>, stop_fn: Seq<char>) -> Map<Seq<char>, ValueV> {
    Map::<Seq<char>, ValueV>::empty().insert("m_source"@, ValueV::Nil).insert("set"@, ValueV::Function(set_fn)).insert(
        "stop"@,
        ValueV::Function(stop_fn),
    )
}

/// Creates the global table `name` with the members that `init` gives an
/// empty table.
fn regist_empty(ctx: &mut ScriptContext, name: &str) -> (id: u64)
    requires
        old(ctx).tables.next_id() < u64::MAX,
    ensures
        id == old(ctx).tables.next_id(),
        added_global_table(*old(ctx), *final(ctx), name@, Map::<Seq<char>, ValueV>::empty()),
{
    ctx.set_global_table(name)
}

fn with_table(ctx: &mut ScriptContext, id: u64, table: Table)
    requires
        table.id() == id,
    ensures
        final(ctx).tables@ == old(ctx).tables@.insert(id, table@),
        final(ctx).globals@ == old(ctx).globals@,
        final(ctx).tables.next_id() == old(ctx).tables.next_id(),
        onces_view(final(ctx).once_records@) == onces_view(old(ctx).once_records@),
        final(ctx).next_session_target == old(ctx).next_session_target,
{
    ctx.put_table(table);
}

impl VFrame {
    /// Registers the global table `frame` with its first members.
    pub fn regist(ctx: &mut ScriptContext)
        requires
            old(ctx).tables.next_id() < u64::MAX,
        ensures
            added_global_table(*old(ctx), *final(ctx), "frame"@, frame_members()),
    {
        let ghost pre = *ctx;
        let id = regist_empty(ctx, "frame");
        let mut t = Table::with_tuid(id);
        VFrame::init_members(&mut t);
        set_function(&mut t, "show", "frame.show");
        set_function(&mut t, "hide", "frame.hide");
        set_function(&mut t, "rev_style", "frame.rev_style");
        set_function(&mut t, "set_mode", "frame.set_mode");
        with_table(ctx, id, t);
        assert(t@ =~= frame_members());
        assert(ctx.tables@ =~= pre.tables@.insert(id, frame_members()));
    }
}

impl VParagraph {
    /// Registers the global table `paragraph` with its first members.
    pub fn regist(ctx: &mut ScriptContext)
        requires
            old(ctx).tables.next_id() < u64::MAX,
        ensures
            added_global_table(*old(ctx), *final(ctx), "paragraph"@, paragraph_members()),
    {
        let ghost pre = *ctx;
        let id = regist_empty(ctx, "paragraph");
        let mut t = Table::with_tuid(id);
        VParagraph::init_members(&mut t);
        set_function(&mut t, "show", "paragraph.show");
        set_function(&mut t, "hide", "paragraph.hide");
        set_function(&mut t, "print", "paragraph.print");
        set_function(&mut t, "new", "paragraph.new");
        set_function(&mut t, "clear", "paragraph.clear");
        with_table(ctx, id, t);
        assert(t@ =~= paragraph_members());
        assert(ctx.tables@ =~= pre.tables@.insert(id, paragraph_members()));
    }
}

impl VBg {
    /// Registers the global table `bg` with its first members.
    pub fn regist(ctx: &mut ScriptContext)
        requires
            old(ctx).tables.next_id() < u64::MAX,
        ensures
            added_global_table(*old(ctx), *final(ctx), "bg"@, bg_members()),
    {
        let ghost pre = *ctx;
        let id = regist_empty(ctx, "bg");
        let mut t = Table::with_tuid(id);
        VBg::init_members(&mut t);
        set_function(&mut t, "set", "bg.set");
        set_function(&mut t, "trans_to", "bg.trans_to");
        set_function(&mut t, "show_edge", "bg.show_edge");
        set_function(&mut t, "hide_edge", "bg.hide_edge");
        with_table(ctx, id, t);
        assert(t@ =~= bg_members());
        assert(ctx.tables@ =~= pre.tables@.insert(id, bg_members()));
    }
}

impl VLayerLs {
    /// Registers the global table `layer_ls`, empty.
    pub fn regist(ctx: &mut ScriptContext)
        requires
            old(ctx).tables.next_id() < u64::MAX,
        ensures
            added_global_table(*old(ctx), *final(ctx), "layer_ls"@, Map::<Seq<char>, ValueV>::empty()),
    {
        regist_empty(ctx, "layer_ls");
    }
}

/// The chapter titles.
pub struct VChapter;

impl VChapter {
    /// Registers the global table `chapter` with its functions.
    pub fn regist(ctx: &mut ScriptContext)
        requires
            old(ctx).tables.next_id() < u64::MAX,
        ensures
            added_global_table(*old(ctx), *final(ctx), "chapter"@, chapter_members()),
    {
        let ghost pre = *ctx;
        let id = regist_empty(ctx, "chapter");
        let mut t = Table::with_tuid(id);
        set_function(&mut t, "show_title", "chapter.show_title");
        set_function(&mut t, "show_sub_title", "chapter.show_sub_title");
        with_table(ctx, id, t);
        assert(t@ =~= chapter_members());
        assert(ctx.tables@ =~= pre.tables@.insert(id, chapter_members()));
    }
}

/// The characters on stage.
pub struct VCharacterLs;

impl VCharacterLs {
    /// Registers the global table `character_ls` with its functions.
    pub fn regist(ctx: &mut ScriptContext)
        requires
            old(ctx).tables.next_id() < u64::MAX,
        ensures
            added_global_table(*old(ctx), *final(ctx), "character_ls"@, character_ls_members()),
    {
        let ghost pre = *ctx;
        let id = regist_empty(ctx, "character_ls");
        let mut t = Table::with_tuid(id);
        set_function(&mut t, "set_characters", "character_ls.set_characters");
        set_function(&mut t, "clear", "character_ls.clear");
        with_table(ctx, id, t);
        assert(t@ =~= character_ls_members());
        assert(ctx.tables@ =~= pre.tables@.insert(id, character_ls_members()));
    }
}

/// Registers a global table `name` with a nil `m_source` and the functions
/// `set` and `stop`, of names `set_fn` and `stop_fn`.
fn regist_source(ctx: &mut ScriptContext, name: &str, set_fn: &str, stop_fn: &str)
    requires
        old(ctx).tables.next_id() < u64::MAX,
    ensures
        added_global_table(*old(ctx), *final(ctx), name@, source_members(set_fn@, stop_fn@)),
{
    let ghost pre = *ctx;
    let id = regist_empty(ctx, name);
    let mut t = Table::with_tuid(id);
    t.set(String::from_str("m_source"), ScriptValue::Nil);
    set_function(&mut t, "set", set_fn);
    set_function(&mut t, "stop", stop_fn);
    with_table(ctx, id, t);
    assert(t@ =~= source_members(set_fn@, stop_fn@));
    assert(ctx.tables@ =~= pre.tables@.insert(id, source_members(set_fn@, stop_fn@)));
}

/// Registers the global tables of the music and the ambience, `bgm` and
/// `env_effect`, each with a nil `m_source` and its functions `set` and
/// `stop`.
pub fn regist_audio_globals(ctx: &mut ScriptContext)
    requires
        old(ctx).tables.next_id() + 2 <= u64::MAX,
    ensures
        final(ctx).tables.next_id() == old(ctx).tables.next_id() + 2,
        final(ctx).globals@ == old(ctx).globals@.insert(
            "bgm"@,
            ValueV::TableHandle(old(ctx).tables.next_id()),
        ).insert("env_effect"@, ValueV::TableHandle((old(ctx).tables.next_id() + 1) as u64)),
        final(ctx).tables@ == old(ctx).tables@.insert(
            old(ctx).tables.next_id(),
            source_members("bgm.set"@, "bgm.stop"@),
        ).insert((old(ctx).tables.next_id() + 1) as u64, source_members("env_effect.set"@, "env_effect.stop"@)),
        onces_view(final(ctx).once_records@) == onces_view(old(ctx).once_records@),
        final(ctx).next_session_target == old(ctx).next_session_target,
{
    regist_source(ctx, "bgm", "bgm.set", "bgm.stop");
    regist_source(ctx, "env_effect", "env_effect.set", "env_effect.stop");
}

/// The names of the base global tables, in the order they are registered:
/// the characters on stage, the frame, the paragraph, the layers, the
/// music, the ambience, the chapter and the background.
pub open spec fn base_global_names() -> Seq<Seq<char>> {
    seq!["character_ls"@, "frame"@, "paragraph"@, "layer_ls"@, "bgm"@, "env_effect"@, "chapter"@, "bg"@]
}

/// The members each base global table starts with, in the same order.
pub open spec fn base_global_members() -> Seq<Map<Seq<char>, ValueV>> {
    seq![
        character_ls_members(),
        frame_members(),
        paragraph_members(),
        Map::<Seq<char>, ValueV>::empty(),
        source_members("bgm.set"@, "bgm.stop"@),
        source_members("env_effect.set"@, "env_effect.stop"@),
        chapter_members(),
        bg_members(),
    ]
}

/// The globals and the tables after registering the first `k` base
/// global tables from `g` and `st`, with ids from `n` on.
pub open spec fn base_globals_after(
    g: Map<Seq<char>, ValueV>,
    st: Map<u64, Map<Seq<char>, ValueV>>,
    n: int,
    k: nat,
) -> (Map<Seq<char>, ValueV>, Map<u64, Map<Seq<char>, ValueV>>)
    decreases k,
{
    if k == 0 {
        (g, st)
    } else {
        let prev = base_globals_after(g, st, n, (k - 1) as nat);
        let id = (n + k - 1) as u64;
        (
            prev.0.insert(base_global_names()[k - 1], ValueV::TableHandle(id)),
            prev.1.insert(id, base_global_members()[k - 1]),
        )
    }
}

/// Registers the base global tables, each with its first members, with
/// consecutive ids.
pub fn regist_base_gvar(ctx: &mut ScriptContext)
    requires
        old(ctx).tables.next_id() + 8 <= u64::MAX,
    ensures
        final(ctx).tables.next_id() == old(ctx).tables.next_id() + 8,
        (final(ctx).globals@, final(ctx).tables@) == base_globals_after(
            old(ctx).globals@,
            old(ctx).tables@,
            old(ctx).tables.next_id() as int,
            8,
        ),
        onces_view(final(ctx).once_records@) == onces_view(old(ctx).once_records@),
        final(ctx).next_session_target == old(ctx).next_session_target,
{
    let ghost g = ctx.globals@;
    let ghost st = ctx.tables@;
    let ghost n = ctx.tables.next_id() as int;
    proof {
        reveal_with_fuel(base_globals_after, 9);
    }
    VCharacterLs::regist(ctx);
    proof {
        let e = base_globals_after(g, st, n, 1);
        assert(ctx.globals@ =~= e.0);
        assert(ctx.tables@ =~= e.1);
    }
    VFrame::regist(ctx);
    proof {
        let e = base_globals_after(g, st, n, 2);
        assert(ctx.globals@ =~= e.0);
        assert(ctx.tables@ =~= e.1);
    }
    VParagraph::regist(ctx);
    proof {
        let e = base_globals_after(g, st, n, 3);
        assert(ctx.globals@ =~= e.0);
        assert(ctx.tables@ =~= e.1);
    }
    VLayerLs::regist(ctx);
    proof {
        let e = base_globals_after(g, st, n, 4);
        assert(ctx.globals@ =~= e.0);
        assert(ctx.tables@ =~= e.1);
    }
    regist_audio_globals(ctx);
    proof {
        let e = base_globals_after(g, st, n, 6);
        assert(ctx.globals@ =~= e.0);
        assert(ctx.tables@ =~= e.1);
    }
    VChapter::regist(ctx);
    proof {
        let e = base_globals_after(g, st, n, 7);
        assert(ctx.globals@ =~= e.0);
        assert(ctx.tables@ =~= e.1);
    }
    VBg::regist(ctx);
    proof {
        let e = base_globals_after(g, st, n, 8);
        assert(ctx.globals@ =~= e.0);
        assert(ctx.tables@ =~= e.1);
    }
}


/// The global values a script starts with: no display name, the names
/// of the three music modes, and the global functions that the host
/// carries out (`save_to`, `text`, `create_default_character`, `see`,
/// `voice`, `log`, `rebuild`).
pub open spec fn env_values(g: Map<Seq<char>, ValueV>) -> Map<Seq<char>, ValueV> {
    g.insert("display_name"@, ValueV::Str(""@)).insert("fade_in"@, ValueV::Str("fade_in"@)).insert(
        "fade_out"@,
        ValueV::Str("fade_out"@),
    ).insert("transition"@, ValueV::Str("transition"@)).insert("save_to"@, ValueV::Function("save_to"@)).insert(
        "text"@,
        ValueV::Function("text"@),
    ).insert("create_default_character"@, ValueV::Function("create_default_character"@)).insert(
        "see"@,
        ValueV::Function("see"@),
    ).insert("voice"@, ValueV::Function("voice"@)).insert("log"@, ValueV::Function("log"@)).insert(
        "rebuild"@,
        ValueV::Function("rebuild"@),
    )
}

fn set_global_function(ctx: &mut ScriptContext, name: &str)
    ensures
        final(ctx).globals@ == old(ctx).globals@.insert(name@, ValueV::Function(name@)),
        final(ctx).tables@ == old(ctx).tables@,
        final(ctx).tables.next_id() == old(ctx).tables.next_id(),
        final(ctx).once_records == old(ctx).once_records,
        final(ctx).next_session_target == old(ctx).next_session_target,
{
    ctx.set_global_val(name, ScriptValue::Function(name.to_string()));
}

/// Sets up the globals of a script context: the starting values, then
/// the base global tables.
pub fn init_env_globals(ctx: &mut ScriptContext)
    requires
        old(ctx).tables.next_id() + 8 <= u64::MAX,
    ensures
        final(ctx).tables.next_id() == old(ctx).tables.next_id() + 8,
        (final(ctx).globals@, final(ctx).tables@) == base_globals_after(
            env_values(old(ctx).globals@),
            old(ctx).tables@,
            old(ctx).tables.next_id() as int,
            8,
        ),
        onces_view(final(ctx).once_records@) == onces_view(old(ctx).once_records@),
        final(ctx).next_session_target == old(ctx).next_session_target,
{
    ctx.set_global_val("display_name", ScriptValue::String(String::from_str("")));
    ctx.set_global_val("fade_in", ScriptValue::String(String::from_str(crate::audio::FADE_IN)));
    ctx.set_global_val("fade_out", ScriptValue::String(String::from_str(crate::audio::FADE_OUT)));
    ctx.set_global_val("transition", ScriptValue::String(String::from_str(crate::audio::TRANSITION)));
    set_global_function(ctx, "save_to");
    set_global_function(ctx, "text");
    set_global_function(ctx, "create_default_character");
    set_global_function(ctx, "see");
    set_global_function(ctx, "voice");
    set_global_function(ctx, "log");
    set_global_function(ctx, "rebuild");
    regist_base_gvar(ctx);
}

} // verus!
