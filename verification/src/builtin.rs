//! The functions that the global objects carry and that the library carries
//! out itself: which name stands for which, what each checks of its
//! arguments, and what each does to its object's table.
use vstd::prelude::*;
use crate::args::{ArgError, arg_error_text, parse_required_arg};
use crate::script::context::{
    GlobalTableError, ScriptContext, UiRequest, global_table, onces_view, requests_view, tag_of, tags_view,
    value_text,
};
use crate::script::text::{nat_text, same_text, str_chars, u64_to_text};
use crate::script::value::{ScriptValue, ValueV, values_view};
use crate::script::table::Table;
use crate::script_def::{
    Character, Layer, TextObj, VBg, VFrame, VParagraph, arg_is_int, arg_is_text, i32_or_zero, character_members, face_image, first_text,
    layer_members, member_text, pairs_map, say_error, text_arg_or,
};

verus! {

/// A function of a global object that the library carries out itself.
#[derive(Clone, Copy, Debug, PartialEq, Eq, Structural)]
pub enum Builtin {
    FrameShow,
    FrameHide,
    FrameRevStyle,
    FrameSetMode,
    ParagraphShow,
    ParagraphHide,
    ParagraphPrint,
    ParagraphNew,
    ParagraphClear,
    BgSet,
    BgTransTo,
    BgShowEdge,
    BgHideEdge,
    ChapterShowTitle,
    ChapterShowSubTitle,
    LayerShow,
    LayerHide,
    LayerSet,
    CharacterSay,
    CharacterFadeIn,
    CharacterFadeOut,
    BgmSet,
    BgmStop,
    EnvEffectSet,
    EnvEffectStop,
    CharacterLsClear,
    CharacterLsSetCharacters,
}

/// The built-in function that the function name `name` stands for, if any.
pub open spec fn builtin_of(name: Seq<char>) -> Option<Builtin> {
    if name == "frame.show"@ {
        Some(Builtin::FrameShow)
    } else if name == "frame.hide"@ {
        Some(Builtin::FrameHide)
    } else if name == "frame.rev_style"@ {
        Some(Builtin::FrameRevStyle)
    } else if name == "frame.set_mode"@ {
        Some(Builtin::FrameSetMode)
    } else if name == "paragraph.show"@ {
        Some(Builtin::ParagraphShow)
    } else if name == "paragraph.hide"@ {
        Some(Builtin::ParagraphHide)
    } else if name == "paragraph.print"@ {
        Some(Builtin::ParagraphPrint)
    } else if name == "paragraph.new"@ {
        Some(Builtin::ParagraphNew)
    } else if name == "paragraph.clear"@ {
        Some(Builtin::ParagraphClear)
    } else if name == "bg.set"@ {
        Some(Builtin::BgSet)
    } else if name == "bg.trans_to"@ {
        Some(Builtin::BgTransTo)
    } else if name == "bg.show_edge"@ {
        Some(Builtin::BgShowEdge)
    } else if name == "bg.hide_edge"@ {
        Some(Builtin::BgHideEdge)
    } else if name == "chapter.show_title"@ {
        Some(Builtin::ChapterShowTitle)
    } else if name == "chapter.show_sub_title"@ {
        Some(Builtin::ChapterShowSubTitle)
    } else if name == "layer.show"@ {
        Some(Builtin::LayerShow)
    } else if name == "layer.hide"@ {
        Some(Builtin::LayerHide)
    } else if name == "layer.set"@ {
        Some(Builtin::LayerSet)
    } else if name == "character.say"@ {
        Some(Builtin::CharacterSay)
    } else if name == "character.fade_in"@ {
        Some(Builtin::CharacterFadeIn)
    } else if name == "character.fade_out"@ {
        Some(Builtin::CharacterFadeOut)
    } else if name == "bgm.set"@ {
        Some(Builtin::BgmSet)
    } else if name == "bgm.stop"@ {
        Some(Builtin::BgmStop)
    } else if name == "env_effect.set"@ {
        Some(Builtin::EnvEffectSet)
    } else if name == "env_effect.stop"@ {
        Some(Builtin::EnvEffectStop)
    } else if name == "character_ls.clear"@ {
        Some(Builtin::CharacterLsClear)
    } else if name == "character_ls.set_characters"@ {
        Some(Builtin::CharacterLsSetCharacters)
    } else {
        None
    }
}

/// The built-in function that the function name `name` stands for, if any.
pub fn builtin_named(name: &str) -> (r: Option<Builtin>)
    ensures
        r == builtin_of(name@),
{
    if same_text(name, "frame.show") {
        Some(Builtin::FrameShow)
    } else if same_text(name, "frame.hide") {
        Some(Builtin::FrameHide)
    } else if same_text(name, "frame.rev_style") {
        Some(Builtin::FrameRevStyle)
    } else if same_text(name, "frame.set_mode") {
        Some(Builtin::FrameSetMode)
    } else if same_text(name, "paragraph.show") {
        Some(Builtin::ParagraphShow)
    } else if same_text(name, "paragraph.hide") {
        Some(Builtin::ParagraphHide)
    } else if same_text(name, "paragraph.print") {
        Some(Builtin::ParagraphPrint)
    } else if same_text(name, "paragraph.new") {
        Some(Builtin::ParagraphNew)
    } else if same_text(name, "paragraph.clear") {
        Some(Builtin::ParagraphClear)
    } else if same_text(name, "bg.set") {
        Some(Builtin::BgSet)
    } else if same_text(name, "bg.trans_to") {
        Some(Builtin::BgTransTo)
    } else if same_text(name, "bg.show_edge") {
        Some(Builtin::BgShowEdge)
    } else if same_text(name, "bg.hide_edge") {
        Some(Builtin::BgHideEdge)
    } else if same_text(name, "chapter.show_title") {
        Some(Builtin::ChapterShowTitle)
    } else if same_text(name, "chapter.show_sub_title") {
        Some(Builtin::ChapterShowSubTitle)
    } else if same_text(name, "layer.show") {
        Some(Builtin::LayerShow)
    } else if same_text(name, "layer.hide") {
        Some(Builtin::LayerHide)
    } else if same_text(name, "layer.set") {
        Some(Builtin::LayerSet)
    } else if same_text(name, "character.say") {
        Some(Builtin::CharacterSay)
    } else if same_text(name, "character.fade_in") {
        Some(Builtin::CharacterFadeIn)
    } else if same_text(name, "character.fade_out") {
        Some(Builtin::CharacterFadeOut)
    } else if same_text(name, "bgm.set") {
        Some(Builtin::BgmSet)
    } else if same_text(name, "bgm.stop") {
        Some(Builtin::BgmStop)
    } else if same_text(name, "env_effect.set") {
        Some(Builtin::EnvEffectSet)
    } else if same_text(name, "env_effect.stop") {
        Some(Builtin::EnvEffectStop)
    } else if same_text(name, "character_ls.clear") {
        Some(Builtin::CharacterLsClear)
    } else if same_text(name, "character_ls.set_characters") {
        Some(Builtin::CharacterLsSetCharacters)
    } else {
        None
    }
}

/// The global object whose table a built-in function works on.
pub open spec fn builtin_object(b: Builtin) -> Seq<char> {
    match b {
        Builtin::FrameShow | Builtin::FrameHide | Builtin::FrameRevStyle | Builtin::FrameSetMode => "frame"@,
        Builtin::ParagraphShow | Builtin::ParagraphHide | Builtin::ParagraphPrint | Builtin::ParagraphNew
        | Builtin::ParagraphClear => "paragraph"@,
        Builtin::ChapterShowTitle | Builtin::ChapterShowSubTitle => "chapter"@,
        Builtin::LayerShow | Builtin::LayerHide | Builtin::LayerSet => "layer"@,
        Builtin::CharacterSay | Builtin::CharacterFadeIn | Builtin::CharacterFadeOut => "character"@,
        Builtin::BgmSet | Builtin::BgmStop => "bgm"@,
        Builtin::EnvEffectSet | Builtin::EnvEffectStop => "env_effect"@,
        Builtin::CharacterLsClear | Builtin::CharacterLsSetCharacters => "character_ls"@,
        _ => "bg"@,
    }
}

/// Whether a built-in function is a method of instances, which works on
/// the table it is bound to rather than on a global object.
pub open spec fn is_method(b: Builtin) -> bool {
    b is LayerShow || b is LayerHide || b is LayerSet || b is CharacterSay || b is CharacterFadeIn
        || b is CharacterFadeOut
}

/// The name of a built-in function: its object, a dot, its method.
pub open spec fn builtin_name(b: Builtin) -> Seq<char> {
    match b {
        Builtin::FrameShow => "frame.show"@,
        Builtin::FrameHide => "frame.hide"@,
        Builtin::FrameRevStyle => "frame.rev_style"@,
        Builtin::FrameSetMode => "frame.set_mode"@,
        Builtin::ParagraphShow => "paragraph.show"@,
        Builtin::ParagraphHide => "paragraph.hide"@,
        Builtin::ParagraphPrint => "paragraph.print"@,
        Builtin::ParagraphNew => "paragraph.new"@,
        Builtin::ParagraphClear => "paragraph.clear"@,
        Builtin::BgSet => "bg.set"@,
        Builtin::BgTransTo => "bg.trans_to"@,
        Builtin::BgShowEdge => "bg.show_edge"@,
        Builtin::BgHideEdge => "bg.hide_edge"@,
        Builtin::ChapterShowTitle => "chapter.show_title"@,
        Builtin::ChapterShowSubTitle => "chapter.show_sub_title"@,
        Builtin::LayerShow => "layer.show"@,
        Builtin::LayerHide => "layer.hide"@,
        Builtin::LayerSet => "layer.set"@,
        Builtin::CharacterSay => "character.say"@,
        Builtin::CharacterFadeIn => "character.fade_in"@,
        Builtin::CharacterFadeOut => "character.fade_out"@,
        Builtin::BgmSet => "bgm.set"@,
        Builtin::BgmStop => "bgm.stop"@,
        Builtin::EnvEffectSet => "env_effect.set"@,
        Builtin::EnvEffectStop => "env_effect.stop"@,
        Builtin::CharacterLsClear => "character_ls.clear"@,
        Builtin::CharacterLsSetCharacters => "character_ls.set_characters"@,
    }
}

fn builtin_name_text(b: Builtin) -> (r: &'static str)
    ensures
        r@ == builtin_name(b),
{
    match b {
        Builtin::FrameShow => "frame.show",
        Builtin::FrameHide => "frame.hide",
        Builtin::FrameRevStyle => "frame.rev_style",
        Builtin::FrameSetMode => "frame.set_mode",
        Builtin::ParagraphShow => "paragraph.show",
        Builtin::ParagraphHide => "paragraph.hide",
        Builtin::ParagraphPrint => "paragraph.print",
        Builtin::ParagraphNew => "paragraph.new",
        Builtin::ParagraphClear => "paragraph.clear",
        Builtin::BgSet => "bg.set",
        Builtin::BgTransTo => "bg.trans_to",
        Builtin::BgShowEdge => "bg.show_edge",
        Builtin::BgHideEdge => "bg.hide_edge",
        Builtin::ChapterShowTitle => "chapter.show_title",
        Builtin::ChapterShowSubTitle => "chapter.show_sub_title",
        Builtin::LayerShow => "layer.show",
        Builtin::LayerHide => "layer.hide",
        Builtin::LayerSet => "layer.set",
        Builtin::CharacterSay => "character.say",
        Builtin::CharacterFadeIn => "character.fade_in",
        Builtin::CharacterFadeOut => "character.fade_out",
        Builtin::BgmSet => "bgm.set",
        Builtin::BgmStop => "bgm.stop",
        Builtin::EnvEffectSet => "env_effect.set",
        Builtin::EnvEffectStop => "env_effect.stop",
        Builtin::CharacterLsClear => "character_ls.clear",
        Builtin::CharacterLsSetCharacters => "character_ls.set_characters",
    }
}

/// Whether a built-in function has something for the presentation to
/// show: printing, a new page and clearing the paragraph, every change of
/// the background, the chapter titles, showing or hiding a layer, and what
/// a character says and its coming and going, and the music and the
/// ambience started or stopped, and the stage cleared of its characters.
/// Showing and hiding the frame
/// or the paragraph, the frame's style and mode, and a layer's data only
/// change tables that the presentation reads.
pub open spec fn shows(b: Builtin) -> bool {
    match b {
        Builtin::ParagraphPrint | Builtin::ParagraphNew | Builtin::ParagraphClear | Builtin::BgSet
        | Builtin::BgTransTo | Builtin::BgShowEdge | Builtin::BgHideEdge | Builtin::ChapterShowTitle
        | Builtin::ChapterShowSubTitle | Builtin::LayerShow | Builtin::LayerHide | Builtin::CharacterSay
        | Builtin::CharacterFadeIn | Builtin::CharacterFadeOut | Builtin::BgmSet | Builtin::BgmStop
        | Builtin::EnvEffectSet | Builtin::EnvEffectStop | Builtin::CharacterLsClear => true,
        _ => false,
    }
}

fn builtin_object_name(b: Builtin) -> (r: &'static str)
    ensures
        r@ == builtin_object(b),
{
    match b {
        Builtin::FrameShow | Builtin::FrameHide | Builtin::FrameRevStyle | Builtin::FrameSetMode => "frame",
        Builtin::ParagraphShow | Builtin::ParagraphHide | Builtin::ParagraphPrint | Builtin::ParagraphNew
        | Builtin::ParagraphClear => "paragraph",
        Builtin::ChapterShowTitle | Builtin::ChapterShowSubTitle => "chapter",
        Builtin::LayerShow | Builtin::LayerHide | Builtin::LayerSet => "layer",
        Builtin::CharacterSay | Builtin::CharacterFadeIn | Builtin::CharacterFadeOut => "character",
        Builtin::BgmSet | Builtin::BgmStop => "bgm",
        Builtin::EnvEffectSet | Builtin::EnvEffectStop => "env_effect",
        Builtin::CharacterLsClear | Builtin::CharacterLsSetCharacters => "character_ls",
        _ => "bg",
    }
}

/// The error for a missing or unreadable text argument at position 0.
pub open spec fn text_arg_error(args: Seq<ScriptValue>) -> Seq<char> {
    if args.len() == 0 {
        arg_error_text(ArgError::MissingArg { index: 0 })
    } else {
        arg_error_text(ArgError::InvalidArg { index: 0, raw: args[0] })
    }
}

/// The error a built-in function reports on its arguments before it looks
/// for its object, if any: a text argument is required by `frame.set_mode`,
/// `paragraph.print`, `paragraph.new`, `bg.set`, `bg.trans_to` and the
/// chapter titles.
pub open spec fn builtin_arg_error(b: Builtin, args: Seq<ScriptValue>) -> Option<Seq<char>> {
    match b {
        Builtin::FrameSetMode | Builtin::BgSet | Builtin::BgTransTo | Builtin::ChapterShowTitle
        | Builtin::ChapterShowSubTitle | Builtin::CharacterSay => if arg_is_text(args, 0) {
            None
        } else {
            Some(text_arg_error(args))
        },
        Builtin::ParagraphPrint => if first_text(args) is Some {
            None
        } else {
            Some("paragraph.print requires text argument"@)
        },
        Builtin::ParagraphNew => if first_text(args) is Some {
            None
        } else {
            Some("paragraph.new requires text argument"@)
        },
        Builtin::BgmSet => if arg_is_text(args, 0) {
            None
        } else {
            Some("!!! bgm error arg type"@)
        },
        Builtin::EnvEffectSet => if arg_is_text(args, 0) {
            None
        } else {
            Some("env_effect.set requires file path string"@)
        },
        _ => None,
    }
}

/// The error for an object `obj` that is missing or is no table.
pub open spec fn object_error(ctx: ScriptContext, obj: Seq<char>) -> Seq<char> {
    if !ctx.globals@.contains_key(obj) {
        obj + " not found"@
    } else {
        obj + " is not table"@
    }
}

/// What a built-in function does to its object's table `t` (of id `id`),
/// once its arguments passed: the new table and the value it returns, or
/// its error. The frame, paragraph and chapter functions return their
/// table; the background functions return nil. The chapter titles leave
/// the table as it is.
pub open spec fn builtin_apply(b: Builtin, t: Map<Seq<char>, ValueV>, args: Seq<ScriptValue>, id: u64) -> Result<
    (Map<Seq<char>, ValueV>, ValueV),
    Seq<char>,
> {
    let this = ValueV::TableHandle(id);
    match b {
        Builtin::FrameShow => Ok((t.insert("visible"@, ValueV::Bool(true)), this)),
        Builtin::FrameHide => Ok((t.insert("visible"@, ValueV::Bool(false)), this)),
        Builtin::FrameRevStyle => if !t.contains_key("m_rev_style"@) {
            Err("missing required table member ["@ + "m_rev_style"@ + "]"@)
        } else {
            match t["m_rev_style"@] {
                ValueV::Bool(v) => Ok((t.insert("m_rev_style"@, ValueV::Bool(!v)), this)),
                raw => Err("failed to parse table["@ + "m_rev_style"@ + "], raw="@ + value_text(raw)),
            }
        },
        Builtin::FrameSetMode => Ok((t.insert("mode"@, args[0]@), this)),
        Builtin::ParagraphShow => Ok((t.insert("m_visible"@, ValueV::Bool(true)), this)),
        Builtin::ParagraphHide => Ok((t.insert("m_visible"@, ValueV::Bool(false)), this)),
        Builtin::ParagraphPrint => Ok(
            (
                t.insert("m_content"@, ValueV::Str(member_text(t, "m_content"@) + first_text(args)->0)),
                this,
            ),
        ),
        Builtin::ParagraphNew => Ok(
            (
                t.insert("m_content"@, ValueV::Str(""@)).insert("m_visible"@, ValueV::Bool(true)).insert(
                    "m_content"@,
                    ValueV::Str(first_text(args)->0),
                ),
                this,
            ),
        ),
        Builtin::ParagraphClear => Ok((t.insert("m_content"@, ValueV::Str(""@)), this)),
        Builtin::BgSet | Builtin::BgTransTo => Ok((t.insert("m_image"@, args[0]@), ValueV::Nil)),
        Builtin::BgShowEdge => Ok((t.insert("m_is_edge"@, ValueV::Bool(true)), ValueV::Nil)),
        Builtin::BgHideEdge => Ok((t.insert("m_is_edge"@, ValueV::Bool(false)), ValueV::Nil)),
        Builtin::ChapterShowTitle | Builtin::ChapterShowSubTitle => Ok((t, this)),
        Builtin::LayerShow => Ok((t.insert("m_visible"@, ValueV::Bool(true)), ValueV::Nil)),
        Builtin::LayerHide => Ok((t.insert("m_visible"@, ValueV::Bool(false)), ValueV::Nil)),
        Builtin::LayerSet => Ok((t.insert("data"@, ValueV::Str(text_arg_or(args, 0, ""@))), ValueV::Nil)),
        Builtin::CharacterSay => match say_error(t, args) {
            Some(e) => Err(e),
            None => Ok((t, ValueV::Nil)),
        },
        Builtin::CharacterFadeIn | Builtin::CharacterFadeOut | Builtin::BgmStop | Builtin::CharacterLsClear => Ok(
            (t, ValueV::Nil),
        ),
        Builtin::BgmSet => Ok((t.insert("m_source"@, args[0]@), ValueV::Nil)),
        Builtin::EnvEffectSet => Ok(
            (
                t.insert(
                    "m_source"@,
                    if args[0]@->Str_0.len() == 0 {
                        ValueV::Nil
                    } else {
                        args[0]@
                    },
                ),
                ValueV::Nil,
            ),
        ),
        Builtin::EnvEffectStop => Ok((t.insert("m_source"@, ValueV::Str(""@)), ValueV::Nil)),
        Builtin::CharacterLsSetCharacters => Ok((characters_written(t, args, args.len()), this)),
    }
}

/// The error for the argument `v` at position `i` of `set_characters`, if
/// any: it must be a handle of a stored table, and that table an instance
/// of the type `character`.
pub open spec fn character_arg_error(pre: ScriptContext, v: ValueV, i: int) -> Option<Seq<char>> {
    match v {
        ValueV::TableHandle(id) => if !pre.tables@.contains_key(id) {
            Some("expect table but "@ + nat_text(i as nat) + " arg is not!"@)
        } else if tag_of(pre, id) != Some("character"@) {
            Some("expect character but "@ + nat_text(i as nat) + " arg is not!"@)
        } else {
            None
        },
        _ => Some("expect table but "@ + nat_text(i as nat) + " arg is not!"@),
    }
}

/// Whether the first `n` arguments of `set_characters` are characters.
pub open spec fn characters_ok(pre: ScriptContext, args: Seq<ScriptValue>, n: int) -> bool {
    forall|i: int| 0 <= i < n ==> character_arg_error(pre, #[trigger] args[i]@, i) is None
}

/// The list `ls` with the first `n` arguments written under their
/// positions (as decimal text keys).
pub open spec fn characters_written(ls: Map<Seq<char>, ValueV>, args: Seq<ScriptValue>, n: nat) -> Map<
    Seq<char>,
    ValueV,
>
    decreases n,
{
    if n == 0 || n > args.len() {
        ls
    } else {
        characters_written(ls, args, (n - 1) as nat).insert(nat_text((n - 1) as nat), args[n - 1]@)
    }
}

/// What `character_ls.set_characters c0 c1 ...` does, from `pre` to
/// `post`: each argument in turn is checked and written into the list
/// under its position. It succeeds, returning the list, exactly when every
/// argument is a character; otherwise it reports the first bad argument,
/// with the arguments before it already written.
pub open spec fn set_characters_effect(
    pre: ScriptContext,
    post: ScriptContext,
    args: Seq<ScriptValue>,
    r: Result<ScriptValue, String>,
) -> bool {
    let ls = global_table(pre, "character_ls"@)->0;
    match r {
        Ok(v) => {
            &&& characters_ok(pre, args, args.len() as int)
            &&& v@ == ValueV::TableHandle(ls)
            &&& post.tables@ == pre.tables@.insert(ls, characters_written(pre.tables@[ls], args, args.len()))
        },
        Err(e) => exists|k: int|
            0 <= k < args.len() && characters_ok(pre, args, k) && #[trigger] character_arg_error(pre, args[k]@, k)
                == Some(e@) && post.tables@ == pre.tables@.insert(
                ls,
                characters_written(pre.tables@[ls], args, k as nat),
            ),
    }
}

fn arg_message(prefix: &str, i: usize) -> (r: String)
    ensures
        r@ == prefix@ + nat_text(i as nat) + " arg is not!"@,
{
    let mut s = String::from_str(prefix);
    s.append(u64_to_text(i as u64).as_str());
    s.append(" arg is not!");
    s
}

/// Sets the characters on stage: `character_ls.set_characters c0 c1 ...`.
pub fn set_characters(ctx: &mut ScriptContext, args: &[ScriptValue]) -> (r: Result<ScriptValue, String>)
    requires
        global_table(*old(ctx), "character_ls"@) is Some,
    ensures
        set_characters_effect(*old(ctx), *final(ctx), args@, r),
        final(ctx).globals@ == old(ctx).globals@,
        final(ctx).tables.next_id() == old(ctx).tables.next_id(),
        onces_view(final(ctx).once_records@) == onces_view(old(ctx).once_records@),
        final(ctx).next_session_target == old(ctx).next_session_target,
        final(ctx).type_tags == old(ctx).type_tags,
        final(ctx).ui_requests == old(ctx).ui_requests,
{
    let ghost pre = *ctx;
    let mut ls = match ctx.take_global_table("character_ls") {
        Ok(t) => t,
        Err(_) => {
            return Err(String::new());
        },
    };
    let ls_id = ls.tuid();
    let ghost t0 = ls@;
    let mut i: usize = 0;
    while i < args.len()
        invariant
            i <= args@.len(),
            pre == *old(ctx),
            ls.id() == ls_id,
            global_table(pre, "character_ls"@) == Some(ls_id),
            pre.tables@.contains_key(ls_id),
            t0 == pre.tables@[ls_id],
            ls@ == characters_written(t0, args@, i as nat),
            characters_ok(pre, args@, i as int),
            ctx.tables@ == pre.tables@.remove(ls_id),
            ctx.type_tags == pre.type_tags,
            ctx.ui_requests == pre.ui_requests,
            ctx.globals@ == pre.globals@,
            ctx.tables.next_id() == pre.tables.next_id(),
            onces_view(ctx.once_records@) == onces_view(pre.once_records@),
            ctx.next_session_target == pre.next_session_target,
        decreases args@.len() - i,
    {
        let bad: Option<String> = match &args[i] {
            ScriptValue::TableHandle(id) => {
                if *id != ls_id && ctx.tables.table(*id).is_none() {
                    Some(arg_message("expect table but ", i))
                } else {
                    let is_character = match ctx.type_tag(*id) {
                        Some(tag) => same_text(tag.as_str(), "character"),
                        None => false,
                    };
                    if is_character {
                        None
                    } else {
                        Some(arg_message("expect character but ", i))
                    }
                }
            },
            _ => Some(arg_message("expect table but ", i)),
        };
        if let Some(e) = bad {
            let ghost written = ls@;
            ctx.put_table(ls);
            proof {
                assert(character_arg_error(pre, args@[i as int]@, i as int) == Some(e@));
                assert(ctx.tables@ =~= pre.tables@.insert(ls_id, characters_written(t0, args@, i as nat)));
            }
            return Err(e);
        }
        proof {
            assert(character_arg_error(pre, args@[i as int]@, i as int) is None);
        }
        ls.set(u64_to_text(i as u64), args[i].clone());
        i = i + 1;
    }
    ctx.put_table(ls);
    proof {
        assert(ctx.tables@ =~= pre.tables@.insert(ls_id, characters_written(t0, args@, args@.len())));
    }
    Ok(ScriptValue::TableHandle(ls_id))
}

/// What a request of the built-in `b` carries besides its name and table:
/// for a character's `say`, the line said (the speaker, the image of the
/// face, and the text); otherwise the arguments of the call.
pub open spec fn request_values(
    b: Builtin,
    store: Map<u64, Map<Seq<char>, ValueV>>,
    t: Map<Seq<char>, ValueV>,
    args: Seq<ScriptValue>,
) -> Seq<ValueV> {
    if b is CharacterSay {
        seq![
            t["display"@],
            ValueV::Str(face_image(t["_faces"@], store, t["face"@]->Str_0)),
            args[0]@,
        ]
    } else {
        values_view(args)
    }
}

/// The black edges follow the calls that show and hide them: after a
/// successful `bg.show_edge` the background's `m_is_edge` is true, after a
/// successful `bg.hide_edge` it is false, every other member of the
/// background and every other table are kept; so showing and hiding leave
/// the flag at different values, and showing after hiding gives back a
/// background whose edges were shown.
pub proof fn edge_calls_set_the_edge_flag(
    pre: ScriptContext,
    post: ScriptContext,
    args: Seq<ScriptValue>,
    r: Result<ScriptValue, String>,
    show: bool,
)
    requires
        builtin_effect(pre, post, if show { Builtin::BgShowEdge } else { Builtin::BgHideEdge }, None, args, r),
        r is Ok,
    ensures
        global_table(pre, "bg"@) is Some,
        ({
            let id = global_table(pre, "bg"@)->0;
            &&& post.tables@.contains_key(id)
            &&& post.tables@[id]["m_is_edge"@] == ValueV::Bool(show)
            &&& forall|k: Seq<char>| k != "m_is_edge"@ ==> #[trigger] post.tables@[id].contains_key(k)
                == pre.tables@[id].contains_key(k) && (pre.tables@[id].contains_key(k) ==> post.tables@[id][k]
                == pre.tables@[id][k])
            &&& forall|o: u64| o != id ==> #[trigger] post.tables@.contains_key(o) == pre.tables@.contains_key(o)
                && (pre.tables@.contains_key(o) ==> post.tables@[o] == pre.tables@[o])
        }),
{
}

/// What each built-in function leaves in its table when it succeeds: show
/// functions make their object visible and hide functions invisible (so
/// the two always differ), the edges are shown or hidden, `print` appends
/// its text to the content, `new` makes its text the whole content,
/// `clear` empties the content, `set_mode`, `bg.set` and `bg.trans_to`
/// store their text argument, and a layer's `set` its data.
pub proof fn builtin_member_effects(b: Builtin, t: Map<Seq<char>, ValueV>, args: Seq<ScriptValue>, id: u64)
    requires
        builtin_arg_error(b, args) is None,
        builtin_apply(b, t, args, id) is Ok,
    ensures
        ({
            let t2 = builtin_apply(b, t, args, id)->Ok_0.0;
            &&& b is FrameShow ==> t2["visible"@] == ValueV::Bool(true)
            &&& b is FrameHide ==> t2["visible"@] == ValueV::Bool(false)
            &&& (b is ParagraphShow || b is LayerShow) ==> t2["m_visible"@] == ValueV::Bool(true)
            &&& (b is ParagraphHide || b is LayerHide) ==> t2["m_visible"@] == ValueV::Bool(false)
            &&& b is BgShowEdge ==> t2["m_is_edge"@] == ValueV::Bool(true)
            &&& b is BgHideEdge ==> t2["m_is_edge"@] == ValueV::Bool(false)
            &&& b is ParagraphPrint ==> t2["m_content"@] == ValueV::Str(member_text(t, "m_content"@) + args[0]@->Str_0)
            &&& b is ParagraphNew ==> t2["m_content"@] == args[0]@ && t2["m_visible"@] == ValueV::Bool(true)
            &&& b is ParagraphClear ==> t2["m_content"@] == ValueV::Str(""@)
            &&& b is FrameSetMode ==> t2["mode"@] == args[0]@
            &&& (b is BgSet || b is BgTransTo) ==> t2["m_image"@] == args[0]@
            &&& b is LayerSet ==> t2["data"@] == ValueV::Str(text_arg_or(args, 0, ""@))
            &&& b is FrameRevStyle ==> t["m_rev_style"@] is Bool && t2["m_rev_style"@] == ValueV::Bool(
                !t["m_rev_style"@]->Bool_0,
            )
        }),
{
    reveal_strlit("m_content");
    reveal_strlit("m_visible");
    assert("m_content"@[2] != "m_visible"@[2]);
}

/// Showing the edges after hiding them gives the background back as it
/// was when its edges were shown.
pub proof fn show_edge_undoes_hide_edge(t: Map<Seq<char>, ValueV>, args: Seq<ScriptValue>, id: u64)
    requires
        t.contains_key("m_is_edge"@),
        t["m_is_edge"@] == ValueV::Bool(true),
    ensures
        ({
            let hidden = builtin_apply(Builtin::BgHideEdge, t, args, id)->Ok_0.0;
            &&& hidden["m_is_edge"@] == ValueV::Bool(false)
            &&& builtin_apply(Builtin::BgShowEdge, hidden, args, id) matches Ok((shown, _)) && shown == t
        }),
{
    let hidden = builtin_apply(Builtin::BgHideEdge, t, args, id)->Ok_0.0;
    let shown = builtin_apply(Builtin::BgShowEdge, hidden, args, id)->Ok_0.0;
    assert(shown =~= t);
}

/// Flipping the frame's style undoes itself: where one flip succeeds, a
/// second one succeeds too and gives the frame's table back as it was.
pub proof fn rev_style_twice(t: Map<Seq<char>, ValueV>, args: Seq<ScriptValue>, id: u64)
    requires
        builtin_apply(Builtin::FrameRevStyle, t, args, id) is Ok,
    ensures
        ({
            let t1 = builtin_apply(Builtin::FrameRevStyle, t, args, id)->Ok_0.0;
            builtin_apply(Builtin::FrameRevStyle, t1, args, id) matches Ok((t2, _)) && t2 == t
        }),
{
    let t1 = builtin_apply(Builtin::FrameRevStyle, t, args, id)->Ok_0.0;
    let t2 = builtin_apply(Builtin::FrameRevStyle, t1, args, id)->Ok_0.0;
    assert(t2 =~= t);
}

/// The table a built-in function works on: for a method, the table it is
/// bound to (an error when it is bound to none, or to a table that is
/// gone); otherwise its global object's table (an error when that global
/// is missing or is no table).
pub open spec fn builtin_target(pre: ScriptContext, b: Builtin, bound: Option<u64>) -> Result<u64, Seq<char>> {
    if is_method(b) {
        match bound {
            Some(id) => if pre.tables@.contains_key(id) {
                Ok(id)
            } else {
                Err("table handle not found: "@ + nat_text(id as nat))
            },
            None => Err(builtin_name(b) + " is not bound to a table"@),
        }
    } else {
        match global_table(pre, builtin_object(b)) {
            Some(id) => Ok(id),
            None => Err(object_error(pre, builtin_object(b))),
        }
    }
}

/// Whether `post` has the tables and the requests of `pre`.
pub open spec fn tables_and_requests_kept(pre: ScriptContext, post: ScriptContext) -> bool {
    &&& post.tables@ == pre.tables@
    &&& requests_view(post.ui_requests@) == requests_view(pre.ui_requests@)
}

/// What calling the built-in `b` with `args` on `pre` does to the tables
/// and the requests, as `post` has them, and what it reports (`r`); a
/// method is bound to the table `bound`. The arguments are checked first,
/// then the table to work on is found, then it is changed and, for a
/// function that shows something, a request of its name, that table and
/// the arguments is added.
pub open spec fn builtin_effect(
    pre: ScriptContext,
    post: ScriptContext,
    b: Builtin,
    bound: Option<u64>,
    args: Seq<ScriptValue>,
    r: Result<ScriptValue, String>,
) -> bool {
    match builtin_arg_error(b, args) {
        Some(msg) => r matches Err(e) && e@ == msg && tables_and_requests_kept(pre, post),
        None => match builtin_target(pre, b, bound) {
            Err(msg) => r matches Err(e) && e@ == msg && tables_and_requests_kept(pre, post),
            Ok(id) => if b is CharacterLsSetCharacters {
                set_characters_effect(pre, post, args, r) && requests_view(post.ui_requests@) == requests_view(
                    pre.ui_requests@,
                )
            } else {
                match builtin_apply(b, pre.tables@[id], args, id) {
                Ok((t2, v)) => {
                    &&& r matches Ok(x) && x@ == v
                    &&& post.tables@ == pre.tables@.insert(id, t2)
                    &&& requests_view(post.ui_requests@) == if shows(b) {
                        requests_view(pre.ui_requests@).push(
                            (builtin_name(b), id, request_values(b, pre.tables@, pre.tables@[id], args)),
                        )
                    } else {
                        requests_view(pre.ui_requests@)
                    }
                },
                Err(msg) => r matches Err(e) && e@ == msg && tables_and_requests_kept(pre, post),
                }
            },
        },
    }
}

fn shows_text(b: Builtin) -> (r: bool)
    ensures
        r == shows(b),
{
    match b {
        Builtin::ParagraphPrint | Builtin::ParagraphNew | Builtin::ParagraphClear | Builtin::BgSet
        | Builtin::BgTransTo | Builtin::BgShowEdge | Builtin::BgHideEdge | Builtin::ChapterShowTitle
        | Builtin::ChapterShowSubTitle | Builtin::LayerShow | Builtin::LayerHide | Builtin::CharacterSay
        | Builtin::CharacterFadeIn | Builtin::CharacterFadeOut | Builtin::BgmSet | Builtin::BgmStop
        | Builtin::EnvEffectSet | Builtin::EnvEffectStop | Builtin::CharacterLsClear => true,
        _ => false,
    }
}

fn copy_values_of(args: &[ScriptValue]) -> (r: Vec<ScriptValue>)
    ensures
        values_view(r@) == values_view(args@),
{
    let mut out: Vec<ScriptValue> = Vec::new();
    let mut i: usize = 0;
    while i < args.len()
        invariant
            i <= args@.len(),
            values_view(out@) == values_view(args@).subrange(0, i as int),
        decreases args@.len() - i,
    {
        let ghost before = values_view(out@);
        out.push(args[i].clone());
        proof {
            assert(values_view(out@) =~= before.push(args@[i as int]@));
            assert(values_view(args@).subrange(0, i + 1) =~= values_view(args@).subrange(0, i as int).push(
                args@[i as int]@,
            ));
        }
        i = i + 1;
    }
    assert(values_view(args@).subrange(0, args@.len() as int) =~= values_view(args@));
    out
}

/// A character's `say`, bound to the table `bound`: the line is worked out
/// from the character's table as it stands in the context, and asked of
/// the presentation.
fn say_of(ctx: &mut ScriptContext, bound: Option<u64>, args: &[ScriptValue]) -> (r: Result<ScriptValue, String>)
    requires
        arg_is_text(args@, 0),
    ensures
        builtin_effect(*old(ctx), *final(ctx), Builtin::CharacterSay, bound, args@, r),
        final(ctx).globals@ == old(ctx).globals@,
        final(ctx).tables.next_id() == old(ctx).tables.next_id(),
        onces_view(final(ctx).once_records@) == onces_view(old(ctx).once_records@),
        final(ctx).next_session_target == old(ctx).next_session_target,
        final(ctx).type_tags == old(ctx).type_tags,
{
    let ghost pre = *ctx;
    let id = match bound {
        Some(id) => id,
        None => {
            let mut e = String::from_str("character.say");
            e.append(" is not bound to a table");
            return Err(e);
        },
    };
    let line = match ctx.tables.table(id) {
        Some(t) => match Character::say(t, &ctx.tables, args) {
            Ok(line) => line,
            Err(e) => {
                return Err(e.message());
            },
        },
        None => {
            let mut e = String::from_str("table handle not found: ");
            e.append(u64_to_text(id).as_str());
            return Err(e);
        },
    };
    let ghost before = ctx.ui_requests@;
    let values = vec![
        ScriptValue::String(line.speaker),
        ScriptValue::String(line.face_path),
        ScriptValue::String(line.text),
    ];
    ctx.ui_requests.push(UiRequest { function: String::from_str("character.say"), table: id, args: values });
    proof {
        let t = pre.tables@[id];
        assert(builtin_target(pre, Builtin::CharacterSay, bound) == Ok::<u64, Seq<char>>(id));
        assert(pre.tables@.insert(id, t) =~= pre.tables@);
        assert(values_view(ctx.ui_requests@.last().args@) =~= request_values(Builtin::CharacterSay, pre.tables@, t, args@));
        assert(requests_view(ctx.ui_requests@) =~= requests_view(before).push(
            (builtin_name(Builtin::CharacterSay), id, request_values(Builtin::CharacterSay, pre.tables@, t, args@)),
        ));
    }
    Ok(ScriptValue::Nil)
}

fn is_method_exec(b: Builtin) -> (r: bool)
    ensures
        r == is_method(b),
{
    match b {
        Builtin::LayerShow | Builtin::LayerHide | Builtin::LayerSet | Builtin::CharacterSay
        | Builtin::CharacterFadeIn | Builtin::CharacterFadeOut => true,
        _ => false,
    }
}

fn text_arg_check(args: &[ScriptValue]) -> (r: Result<(), String>)
    ensures
        match r {
            Ok(_) => arg_is_text(args@, 0),
            Err(e) => !arg_is_text(args@, 0) && e@ == text_arg_error(args@),
        },
{
    match parse_required_arg(args, 0, |v: &ScriptValue| -> (o: Option<String>)
        ensures
            match v@ {
                ValueV::Str(s) => o is Some && o->0@ == s,
                _ => o is None,
            },
        { v.as_string() }) {
        Ok(_) => Ok(()),
        Err(e) => Err(e.message()),
    }
}

fn object_error_text(obj: &str, e: &GlobalTableError) -> (r: String)
    ensures
        match e {
            GlobalTableError::NotFound(_) => r@ == obj@ + " not found"@,
            GlobalTableError::NotTable(_) => r@ == obj@ + " is not table"@,
        },
{
    let mut s = String::from_str(obj);
    match e {
        GlobalTableError::NotFound(_) => s.append(" not found"),
        GlobalTableError::NotTable(_) => s.append(" is not table"),
    }
    s
}

/// Calls the built-in function `b` with `args`: checks its arguments,
/// takes its object's table, changes it and puts it back.
pub fn call_builtin(ctx: &mut ScriptContext, b: Builtin, bound: Option<u64>, args: &[ScriptValue]) -> (r: Result<
    ScriptValue,
    String,
>)
    ensures
        builtin_effect(*old(ctx), *final(ctx), b, bound, args@, r),
        final(ctx).globals@ == old(ctx).globals@,
        final(ctx).tables.next_id() == old(ctx).tables.next_id(),
        onces_view(final(ctx).once_records@) == onces_view(old(ctx).once_records@),
        final(ctx).next_session_target == old(ctx).next_session_target,
        final(ctx).type_tags == old(ctx).type_tags,
{
    match b {
        Builtin::FrameSetMode | Builtin::BgSet | Builtin::BgTransTo | Builtin::ChapterShowTitle
        | Builtin::ChapterShowSubTitle | Builtin::CharacterSay => {
            if let Err(e) = text_arg_check(args) {
                return Err(e);
            }
        },
        Builtin::ParagraphPrint => {
            if args.len() == 0 || args[0].as_string().is_none() {
                return Err(String::from_str("paragraph.print requires text argument"));
            }
        },
        Builtin::ParagraphNew => {
            if args.len() == 0 || args[0].as_string().is_none() {
                return Err(String::from_str("paragraph.new requires text argument"));
            }
        },
        Builtin::BgmSet => {
            if args.len() == 0 || args[0].as_string().is_none() {
                return Err(String::from_str("!!! bgm error arg type"));
            }
        },
        Builtin::EnvEffectSet => {
            if args.len() == 0 || args[0].as_string().is_none() {
                return Err(String::from_str("env_effect.set requires file path string"));
            }
        },
        _ => {},
    }
    let ghost pre = *ctx;
    if let Builtin::CharacterSay = b {
        return say_of(ctx, bound, args);
    }
    if let Builtin::CharacterLsSetCharacters = b {
        return match ctx.global_table_id("character_ls") {
            Ok(_) => set_characters(ctx, args),
            Err(e) => Err(object_error_text("character_ls", &e)),
        };
    }
    let mut t = if is_method_exec(b) {
        match bound {
            Some(id) => match ctx.tables.take(id) {
                Some(t) => t,
                None => {
                    let mut e = String::from_str("table handle not found: ");
                    e.append(u64_to_text(id).as_str());
                    return Err(e);
                },
            },
            None => {
                let mut e = String::from_str(builtin_name_text(b));
                e.append(" is not bound to a table");
                return Err(e);
            },
        }
    } else {
        let obj = builtin_object_name(b);
        match ctx.take_global_table(obj) {
            Ok(t) => t,
            Err(e) => {
                return Err(object_error_text(obj, &e));
            },
        }
    };
    let ghost id = t.id();
    let id_exec = t.tuid();
    let ghost t0 = t@;
    let this = ScriptValue::TableHandle(t.tuid());
    let out: Result<ScriptValue, String> = match b {
        Builtin::FrameShow => {
            VFrame::set_visible(&mut t, true);
            Ok(this)
        },
        Builtin::FrameHide => {
            VFrame::set_visible(&mut t, false);
            Ok(this)
        },
        Builtin::FrameRevStyle => match VFrame::rev_style(&mut t) {
            Ok(_) => Ok(this),
            Err(e) => Err(e.message()),
        },
        Builtin::FrameSetMode => match VFrame::set_mode(&mut t, args) {
            Ok(_) => Ok(this),
            Err(e) => Err(e.message()),
        },
        Builtin::ParagraphShow => {
            VParagraph::set_visible(&mut t, true);
            Ok(this)
        },
        Builtin::ParagraphHide => {
            VParagraph::set_visible(&mut t, false);
            Ok(this)
        },
        Builtin::ParagraphPrint => match VParagraph::print(&mut t, args) {
            Ok(_) => Ok(this),
            Err(e) => Err(e),
        },
        Builtin::ParagraphNew => match VParagraph::new_page(&mut t, args) {
            Ok(_) => Ok(this),
            Err(e) => Err(e),
        },
        Builtin::ParagraphClear => {
            VParagraph::clear(&mut t);
            Ok(this)
        },
        Builtin::BgSet | Builtin::BgTransTo => match VBg::set_image(&mut t, args) {
            Ok(_) => Ok(ScriptValue::Nil),
            Err(e) => Err(e.message()),
        },
        Builtin::BgShowEdge => {
            VBg::set_edge(&mut t, true);
            Ok(ScriptValue::Nil)
        },
        Builtin::BgHideEdge => {
            VBg::set_edge(&mut t, false);
            Ok(ScriptValue::Nil)
        },
        Builtin::ChapterShowTitle | Builtin::ChapterShowSubTitle => Ok(this),
        Builtin::LayerShow => {
            Layer::set_visible(&mut t, true);
            Ok(ScriptValue::Nil)
        },
        Builtin::LayerHide => {
            Layer::set_visible(&mut t, false);
            Ok(ScriptValue::Nil)
        },
        Builtin::LayerSet => {
            Layer::set(&mut t, args);
            Ok(ScriptValue::Nil)
        },
        Builtin::CharacterSay | Builtin::CharacterFadeIn | Builtin::CharacterFadeOut | Builtin::BgmStop
        | Builtin::CharacterLsClear | Builtin::CharacterLsSetCharacters => Ok(ScriptValue::Nil),
        Builtin::BgmSet => {
            t.set(String::from_str("m_source"), args[0].clone());
            Ok(ScriptValue::Nil)
        },
        Builtin::EnvEffectSet => {
            let source = match args[0].as_string() {
                Some(p) => if str_chars(p.as_str()).len() == 0 {
                    ScriptValue::Nil
                } else {
                    ScriptValue::String(p)
                },
                None => ScriptValue::Nil,
            };
            t.set(String::from_str("m_source"), source);
            Ok(ScriptValue::Nil)
        },
        Builtin::EnvEffectStop => {
            t.set(String::from_str("m_source"), ScriptValue::String(String::from_str("")));
            Ok(ScriptValue::Nil)
        },
    };
    let ghost t1 = t@;
    ctx.put_table(t);
    if out.is_ok() && shows_text(b) {
        let ghost before = ctx.ui_requests@;
        ctx.ui_requests.push(
            UiRequest { function: builtin_name_text(b).to_string(), table: id_exec, args: copy_values_of(args) },
        );
        proof {
            assert(requests_view(ctx.ui_requests@) =~= requests_view(before).push(
                (builtin_name(b), id, values_view(args@)),
            ));
            assert(request_values(b, pre.tables@, pre.tables@[id], args@) == values_view(args@));
        }
    }
    proof {
        assert(builtin_target(pre, b, bound) == Ok::<u64, Seq<char>>(id));
        assert(pre.tables@.remove(id).insert(id, t1) =~= pre.tables@.insert(id, t1));
        if t1 == t0 {
            assert(pre.tables@.insert(id, t0) =~= pre.tables@);
        }
    }
    out
}

// ---------------------------------------------------------------------------
// Instances

/// The members of a new layer instance of id `id` made from `args`: the
/// layer's values, and its methods `show`, `set` and `hide` bound to it.
pub open spec fn layer_instance_members(args: Seq<ScriptValue>, resolution: (u16, u16), id: u64) -> Map<
    Seq<char>,
    ValueV,
> {
    layer_members(args, resolution).insert("show"@, ValueV::Method("layer.show"@, id)).insert(
        "set"@,
        ValueV::Method("layer.set"@, id),
    ).insert("hide"@, ValueV::Method("layer.hide"@, id))
}

/// What `name = layer args...` does, from `pre` to `post`: a new layer
/// table, with the next table id, holding [`layer_instance_members`]; the
/// layer listed in `layer_ls` under its name; and the global `name`
/// referring to it.
pub open spec fn layer_instance_effect(pre: ScriptContext, post: ScriptContext, name: Seq<char>, args: Seq<ScriptValue>) -> bool {
    let id = pre.tables.next_id();
    let ls = global_table(pre, "layer_ls"@)->0;
    &&& post.tables.next_id() == id + 1
    &&& post.tables@ == pre.tables@.insert(
        ls,
        pre.tables@[ls].insert(text_arg_or(args, 0, "NONAME"@), ValueV::TableHandle(id)),
    ).insert(id, layer_instance_members(args, pre.resolution, id))
    &&& post.globals@ == pre.globals@.insert(name, ValueV::TableHandle(id))
    &&& onces_view(post.once_records@) == onces_view(pre.once_records@)
    &&& post.next_session_target == pre.next_session_target
    &&& requests_view(post.ui_requests@) == requests_view(pre.ui_requests@)
    &&& post.resolution == pre.resolution
    &&& tags_view(post.type_tags@) == tags_view(pre.type_tags@).push((id, "layer"@))
}

/// Records that the table `id` is an instance of the type `tag`.
fn tag_instance(ctx: &mut ScriptContext, id: u64, tag: &str)
    ensures
        tags_view(final(ctx).type_tags@) == tags_view(old(ctx).type_tags@).push((id, tag@)),
        final(ctx).globals@ == old(ctx).globals@,
        final(ctx).tables@ == old(ctx).tables@,
        final(ctx).tables.next_id() == old(ctx).tables.next_id(),
        onces_view(final(ctx).once_records@) == onces_view(old(ctx).once_records@),
        final(ctx).next_session_target == old(ctx).next_session_target,
        requests_view(final(ctx).ui_requests@) == requests_view(old(ctx).ui_requests@),
        final(ctx).resolution == old(ctx).resolution,
{
    let ghost before = ctx.type_tags@;
    ctx.type_tags.push((id, tag.to_string()));
    assert(tags_view(ctx.type_tags@) =~= tags_view(before).push((id, tag@)));
}

fn set_method(t: &mut Table, member: &str, name: &str, id: u64)
    ensures
        final(t).id() == old(t).id(),
        final(t)@ == old(t)@.insert(member@, ValueV::Method(name@, id)),
{
    t.set(member.to_string(), ScriptValue::Method(name.to_string(), id));
}

/// Makes a new layer from `args` and lets the global `name` refer to it
/// (`name = layer args...`).
pub fn instantiate_layer(ctx: &mut ScriptContext, name: &str, args: &[ScriptValue])
    requires
        global_table(*old(ctx), "layer_ls"@) is Some,
        old(ctx).tables.next_id() < u64::MAX,
    ensures
        layer_instance_effect(*old(ctx), *final(ctx), name@, args@),
{
    let ghost pre = *ctx;
    let resolution = ctx.resolution;
    let mut ls = match ctx.take_global_table("layer_ls") {
        Ok(t) => t,
        Err(_) => {
            return;
        },
    };
    let ghost ls_id = ls.id();
    let mut table = Layer::create_class_table(&mut ctx.tables, &mut ls, args, resolution);
    let id = table.tuid();
    ctx.put_table(ls);
    set_method(&mut table, "show", "layer.show", id);
    set_method(&mut table, "set", "layer.set", id);
    set_method(&mut table, "hide", "layer.hide", id);
    let ghost lt = table@;
    ctx.put_table(table);
    ctx.set_global_val(name, ScriptValue::TableHandle(id));
    tag_instance(ctx, id, "layer");
    proof {
        assert(lt =~= layer_instance_members(args@, pre.resolution, id));
        assert(ctx.tables@ =~= pre.tables@.insert(
            ls_id,
            pre.tables@[ls_id].insert(text_arg_or(args@, 0, "NONAME"@), ValueV::TableHandle(id)),
        ).insert(id, layer_instance_members(args@, pre.resolution, id)));
    }
}

/// The members of a new character instance of id `id`: the character's
/// values (none when it could not be loaded), and its methods `say`,
/// `fade_in` and `fade_out` bound to it.
pub open spec fn character_instance_members(c: Option<Character>, id: u64) -> Map<Seq<char>, ValueV> {
    let base = match c {
        Some(ch) => character_members(ch, (id + 1) as u64, (id + 2) as u64, (id + 3) as u64),
        None => Map::<Seq<char>, ValueV>::empty(),
    };
    base.insert("say"@, ValueV::Method("character.say"@, id)).insert(
        "fade_in"@,
        ValueV::Method("character.fade_in"@, id),
    ).insert("fade_out"@, ValueV::Method("character.fade_out"@, id))
}

/// The tables `st` with those of the sprites, the faces and the voices of
/// a loaded character added, under the ids after `id`.
pub open spec fn with_character_tables(st: Map<u64, Map<Seq<char>, ValueV>>, c: Option<Character>, id: u64) -> Map<
    u64,
    Map<Seq<char>, ValueV>,
> {
    match c {
        Some(ch) => st.insert((id + 1) as u64, pairs_map(ch.stands@)).insert((id + 2) as u64, pairs_map(ch.faces@)).insert(
            (id + 3) as u64,
            pairs_map(ch.voice@),
        ),
        None => st,
    }
}

/// What `name = character file` does, from `pre` to `post`, given the
/// character `c` that was loaded (none when it could not be): a new
/// character table, with the next table id, holding
/// [`character_instance_members`]; the tables of its sprites, faces and
/// voices; and the global `name` referring to it.
pub open spec fn character_instance_effect(
    pre: ScriptContext,
    post: ScriptContext,
    name: Seq<char>,
    c: Option<Character>,
) -> bool {
    let id = pre.tables.next_id();
    &&& post.tables.next_id() == id + (if c is Some { 4int } else { 1int })
    &&& post.tables@ == with_character_tables(pre.tables@, c, id).insert(id, character_instance_members(c, id))
    &&& post.globals@ == pre.globals@.insert(name, ValueV::TableHandle(id))
    &&& onces_view(post.once_records@) == onces_view(pre.once_records@)
    &&& post.next_session_target == pre.next_session_target
    &&& requests_view(post.ui_requests@) == requests_view(pre.ui_requests@)
    &&& post.resolution == pre.resolution
    &&& tags_view(post.type_tags@) == tags_view(pre.type_tags@).push((id, "character"@))
}

/// Makes a new character from the loaded `character` (none when it could
/// not be loaded) and lets the global `name` refer to it
/// (`name = character file`).
pub fn instantiate_character(ctx: &mut ScriptContext, name: &str, character: Option<Character>)
    requires
        old(ctx).tables.next_id() + 4 <= u64::MAX,
    ensures
        character_instance_effect(*old(ctx), *final(ctx), name@, character),
{
    let ghost pre = *ctx;
    let ghost c = character;
    let mut table = Character::create_class_table(&mut ctx.tables, character);
    let id = table.tuid();
    set_method(&mut table, "say", "character.say", id);
    set_method(&mut table, "fade_in", "character.fade_in", id);
    set_method(&mut table, "fade_out", "character.fade_out", id);
    let ghost t = table@;
    ctx.put_table(table);
    ctx.set_global_val(name, ScriptValue::TableHandle(id));
    tag_instance(ctx, id, "character");
    proof {
        assert(t =~= character_instance_members(c, id));
        assert(ctx.tables@ =~= with_character_tables(pre.tables@, c, id).insert(id, character_instance_members(c, id)));
    }
}

/// The text and position of a text object made from `args`: those of the
/// arguments when they are a text and two integers (a coordinate that does
/// not fit an `i32` being 0); otherwise the empty text at (0, 0).
pub open spec fn text_obj_values(args: Seq<ScriptValue>) -> (Seq<char>, i32, i32) {
    if arg_is_text(args, 0) && arg_is_int(args, 1) && arg_is_int(args, 2) {
        (args[0]@->Str_0, i32_or_zero(args[1]@->Int_0), i32_or_zero(args[2]@->Int_0))
    } else {
        (""@, 0i32, 0i32)
    }
}

/// The members of a text object's table: its `content`, `xpos` and `ypos`.
pub open spec fn text_obj_members(args: Seq<ScriptValue>) -> Map<Seq<char>, ValueV> {
    let (content, x, y) = text_obj_values(args);
    Map::<Seq<char>, ValueV>::empty().insert("content"@, ValueV::Str(content)).insert(
        "xpos"@,
        ValueV::Int(x as i64),
    ).insert("ypos"@, ValueV::Int(y as i64))
}

/// What `name = text_obj content x y` does, from `pre` to `post`: a new
/// text object table, with the next table id, holding [`text_obj_members`];
/// and the global `name` referring to it.
pub open spec fn text_obj_instance_effect(
    pre: ScriptContext,
    post: ScriptContext,
    name: Seq<char>,
    args: Seq<ScriptValue>,
) -> bool {
    let id = pre.tables.next_id();
    &&& post.tables.next_id() == id + 1
    &&& post.tables@ == pre.tables@.insert(id, text_obj_members(args))
    &&& post.globals@ == pre.globals@.insert(name, ValueV::TableHandle(id))
    &&& onces_view(post.once_records@) == onces_view(pre.once_records@)
    &&& post.next_session_target == pre.next_session_target
    &&& requests_view(post.ui_requests@) == requests_view(pre.ui_requests@)
    &&& post.resolution == pre.resolution
    &&& tags_view(post.type_tags@) == tags_view(pre.type_tags@).push((id, "text_obj"@))
}

/// Makes a new text object from `args` and lets the global `name` refer to
/// it (`name = text_obj content x y`); arguments that do not read as a text
/// and two integers give the empty text object.
pub fn instantiate_text_obj(ctx: &mut ScriptContext, name: &str, args: &[ScriptValue])
    requires
        old(ctx).tables.next_id() < u64::MAX,
    ensures
        text_obj_instance_effect(*old(ctx), *final(ctx), name@, args@),
{
    let ghost pre = *ctx;
    let obj = match TextObj::from_script_command(args) {
        Ok(t) => t,
        Err(_) => TextObj { content: String::new(), pos: (0, 0) },
    };
    proof {
        reveal_strlit("");
        assert(obj.content@ == text_obj_values(args@).0);
        assert(obj.pos.0 == text_obj_values(args@).1);
        assert(obj.pos.1 == text_obj_values(args@).2);
    }
    let table = obj.into_data_table(&mut ctx.tables);
    let id = table.tuid();
    let ghost t = table@;
    ctx.put_table(table);
    ctx.set_global_val(name, ScriptValue::TableHandle(id));
    tag_instance(ctx, id, "text_obj");
    proof {
        assert(t =~= text_obj_members(args@));
        assert(ctx.tables@ =~= pre.tables@.insert(id, text_obj_members(args@)));
    }
}

} // verus!
