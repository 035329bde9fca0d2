//! The state that commands act on: global values, tables, the record of
//! one-shot changes, and the section to go to next.
use vstd::prelude::*;
use crate::script::command_executor::{ExecuteStatus, StatusV};
use crate::script::lexer::{chars_to_string, decimal_text, decimal_to_text};
use crate::script::table::{Table, TableStore, dot_index, path_lookup, store_set_path};
use crate::script::text::{same_text, escaped, int_text, i64_to_text, nat_text, push_escaped, str_chars, u64_to_text};
use crate::script::value::{Command, CommandV, ScriptValue, ValueV, values_view};
use crate::builtin::{
    builtin_effect, builtin_named, builtin_of, call_builtin, character_instance_effect, instantiate_character,
    instantiate_layer, instantiate_text_obj, layer_instance_effect, tables_and_requests_kept,
    text_obj_instance_effect,
};
use crate::script_def::{Character, arg_is_text};

verus! {

/// A one-shot change, recorded so that it can be undone when the section
/// ends: the path that was set, the field within the global for a dotted
/// path, and the value the path had before.
pub struct OnceRecord {
    pub path: String,
    pub field: Option<String>,
    pub old_value: ScriptValue,
}

/// The model of a [`OnceRecord`].
pub struct OnceV {
    pub path: Seq<char>,
    pub field: Option<Seq<char>>,
    pub old: ValueV,
}

/// The model of a [`OnceRecord`].
pub open spec fn once_view(r: OnceRecord) -> OnceV {
    OnceV {
        path: r.path@,
        field: match r.field {
            Some(f) => Some(f@),
            None => None,
        },
        old: r.old_value@,
    }
}

/// The models of a sequence of records.
pub open spec fn onces_view(rs: Seq<OnceRecord>) -> Seq<OnceV> {
    rs.map_values(|r: OnceRecord| once_view(r))
}

/// A request to the presentation to play what a built-in function shows
/// (a text printed, a background changed, a title shown, a layer shown):
/// the function's name, the id of the table it worked on, and the
/// arguments it was called with.
pub struct UiRequest {
    pub function: String,
    pub table: u64,
    pub args: Vec<ScriptValue>,
}

/// The models of a sequence of requests: each function name with its
/// table and the models of its arguments.
pub open spec fn requests_view(rs: Seq<UiRequest>) -> Seq<(Seq<char>, u64, Seq<ValueV>)> {
    rs.map_values(|q: UiRequest| (q.function@, q.table, values_view(q.args@)))
}

/// The state of a running script.
pub struct ScriptContext {
    /// The global values, by name.
    pub globals: Table,
    /// The tables, by id.
    pub tables: TableStore,
    /// The one-shot changes of the current section, oldest first.
    pub once_records: Vec<OnceRecord>,
    /// The section to go to next, once a command has chosen one.
    pub next_session_target: Option<usize>,
    /// What the built-in functions called so far ask the presentation to
    /// show, oldest first; the presentation takes them out.
    pub ui_requests: Vec<UiRequest>,
    /// The size of the screen, in cells: the size a new layer takes when
    /// its script gives none.
    pub resolution: (u16, u16),
    /// The type of each instance table, by table id, as the instances were
    /// made (a later entry for the same id wins).
    pub type_tags: Vec<(u64, String)>,
}

/// The models of type tags: each table id with the text of its type.
pub open spec fn tags_view(tags: Seq<(u64, String)>) -> Seq<(u64, Seq<char>)> {
    tags.map_values(|e: (u64, String)| (e.0, e.1@))
}

/// The type of the table `id` in the tags `tags`: that of its last entry.
pub open spec fn tag_in(tags: Seq<(u64, Seq<char>)>, id: u64) -> Option<Seq<char>>
    decreases tags.len(),
{
    if tags.len() == 0 {
        None
    } else if tags.last().0 == id {
        Some(tags.last().1)
    } else {
        tag_in(tags.drop_last(), id)
    }
}

/// The type of the instance table `id` of `ctx`, if it is one.
pub open spec fn tag_of(ctx: ScriptContext, id: u64) -> Option<Seq<char>> {
    tag_in(tags_view(ctx.type_tags@), id)
}

/// The diagnostic text of a value, in the shape of its debug form.
pub open spec fn value_text(v: ValueV) -> Seq<char> {
    match v {
        ValueV::Nil => "Nil"@,
        ValueV::Bool(b) => if b { "Bool(true)"@ } else { "Bool(false)"@ },
        ValueV::Int(i) => "Int("@ + int_text(i as int) + ")"@,
        ValueV::Float(d) => "Float("@ + decimal_text(d) + ")"@,
        ValueV::Str(s) => "String(\""@ + escaped(s) + "\")"@,
        ValueV::Expression(s) => "Expression(\""@ + escaped(s) + "\")"@,
        ValueV::TableHandle(h) => "TableHandle("@ + nat_text(h as nat) + ")"@,
        ValueV::Function(f) => "Function(\""@ + escaped(f) + "\")"@,
        ValueV::Method(f, t) => "Method(\""@ + escaped(f) + "\", "@ + nat_text(t as nat) + ")"@,
    }
}

/// The diagnostic text of `v`.
pub fn value_to_text(v: &ScriptValue) -> (r: String)
    ensures
        r@ == value_text(v@),
{
    match v {
        ScriptValue::Nil => String::from_str("Nil"),
        ScriptValue::Bool(b) => if *b {
            String::from_str("Bool(true)")
        } else {
            String::from_str("Bool(false)")
        },
        ScriptValue::Int(i) => {
            let mut s = String::from_str("Int(");
            s.append(i64_to_text(*i).as_str());
            s.append(")");
            s
        },
        ScriptValue::Float(d) => {
            let mut s = String::from_str("Float(");
            s.append(decimal_to_text(*d).as_str());
            s.append(")");
            s
        },
        ScriptValue::String(t) => {
            let mut s = String::from_str("String(\"");
            push_escaped(&mut s, &str_chars(t.as_str()));
            s.append("\")");
            s
        },
        ScriptValue::Expression(t) => {
            let mut s = String::from_str("Expression(\"");
            push_escaped(&mut s, &str_chars(t.as_str()));
            s.append("\")");
            s
        },
        ScriptValue::TableHandle(h) => {
            let mut s = String::from_str("TableHandle(");
            s.append(u64_to_text(*h).as_str());
            s.append(")");
            s
        },
        ScriptValue::Function(t) => {
            let mut s = String::from_str("Function(\"");
            push_escaped(&mut s, &str_chars(t.as_str()));
            s.append("\")");
            s
        },
        ScriptValue::Method(f, t) => {
            let mut s = String::from_str("Method(\"");
            push_escaped(&mut s, &str_chars(f.as_str()));
            s.append("\", ");
            s.append(u64_to_text(*t).as_str());
            s.append(")");
            s
        },
    }
}

/// The value of `key` in `m`, or nil.
pub open spec fn value_or_nil(m: Map<Seq<char>, ValueV>, key: Seq<char>) -> ValueV {
    if m.contains_key(key) { m[key] } else { ValueV::Nil }
}

/// Whether `post` is `pre` with nothing changed.
pub open spec fn ctx_unchanged(pre: ScriptContext, post: ScriptContext) -> bool {
    &&& post.globals@ == pre.globals@
    &&& post.tables@ == pre.tables@
    &&& onces_view(post.once_records@) == onces_view(pre.once_records@)
    &&& post.next_session_target == pre.next_session_target
    &&& requests_view(post.ui_requests@) == requests_view(pre.ui_requests@)
    &&& tags_view(post.type_tags@) == tags_view(pre.type_tags@)
}

/// The message of a `set` without a value.
pub open spec fn set_needs_value() -> Seq<char> {
    "set requires at least one argument"@
}

/// What `set path args` (or, when `once`, `once path args`) does, from
/// `pre` to `post`, reporting `r`.
///
/// A plain name sets that global to the first argument. A dotted path
/// `name.field` sets the field path within the table that the global
/// `name` refers to (following handles). A `once` change also records the
/// path and the value it had (nil when it had none). Without an argument,
/// or when the global is missing or is not a table, nothing changes and
/// an error is reported.
pub open spec fn set_effect(
    pre: ScriptContext,
    post: ScriptContext,
    path: Seq<char>,
    args: Seq<ScriptValue>,
    once: bool,
    r: ExecuteStatus,
) -> bool {
    let d = dot_index(path, 0);
    if d < 0 {
        if args.len() == 0 {
            r@ == StatusV::Error(set_needs_value()) && ctx_unchanged(pre, post)
        } else {
            &&& r is Completed
            &&& post.globals@ == pre.globals@.insert(path, args[0]@)
            &&& post.tables@ == pre.tables@
            &&& post.next_session_target == pre.next_session_target
            &&& requests_view(post.ui_requests@) == requests_view(pre.ui_requests@)
            &&& onces_view(post.once_records@) == if once {
                onces_view(pre.once_records@).push(
                    OnceV { path, field: None, old: value_or_nil(pre.globals@, path) },
                )
            } else {
                onces_view(pre.once_records@)
            }
        }
    } else {
        let name = path.take(d);
        let field = path.skip(d + 1);
        if !pre.globals@.contains_key(name) {
            r@ == StatusV::Error("Global '"@ + name + "' not found"@) && ctx_unchanged(pre, post)
        } else {
            match pre.globals@[name] {
                ValueV::TableHandle(id) => if !pre.tables@.contains_key(id) {
                    r@ == StatusV::Error("table handle not found: "@ + nat_text(id as nat)) && ctx_unchanged(
                        pre,
                        post,
                    )
                } else if args.len() == 0 {
                    r@ == StatusV::Error(set_needs_value()) && ctx_unchanged(pre, post)
                } else {
                    let old = match path_lookup(pre.tables@[id], Some(pre.tables@), field) {
                        Some(v) => v,
                        None => ValueV::Nil,
                    };
                    &&& r is Completed
                    &&& post.globals@ == pre.globals@
                    &&& requests_view(post.ui_requests@) == requests_view(pre.ui_requests@)
                    &&& post.tables@ == match store_set_path(pre.tables@, id, field, args[0]@) {
                        Some(st) => st,
                        None => pre.tables@,
                    }
                    &&& post.next_session_target == pre.next_session_target
                    &&& onces_view(post.once_records@) == if once {
                        onces_view(pre.once_records@).push(OnceV { path, field: Some(field), old })
                    } else {
                        onces_view(pre.once_records@)
                    }
                },
                v => r@ == StatusV::Error("Cannot set on "@ + value_text(v)) && ctx_unchanged(pre, post),
            }
        }
    }
}

impl ScriptContext {
    /// A context with no globals, no tables and no records.
    pub fn new() -> (r: ScriptContext)
        ensures
            r.globals@ == Map::<Seq<char>, ValueV>::empty(),
            r.tables@ == Map::<u64, Map<Seq<char>, ValueV>>::empty(),
            r.once_records@.len() == 0,
            r.next_session_target is None,
            r.tables.next_id() == 0,
            r.ui_requests@.len() == 0,
            r.resolution == (0u16, 0u16),
            r.type_tags@.len() == 0,
    {
        ScriptContext {
            globals: Table::with_tuid(0),
            tables: TableStore::new(),
            once_records: Vec::new(),
            next_session_target: None,
            ui_requests: Vec::new(),
            resolution: (0, 0),
            type_tags: Vec::new(),
        }
    }

    /// Sets the global `name` to `value`.
    pub fn set_global_val(&mut self, name: &str, value: ScriptValue)
        ensures
            final(self).globals@ == old(self).globals@.insert(name@, value@),
            final(self).tables@ == old(self).tables@,
            final(self).tables.next_id() == old(self).tables.next_id(),
            final(self).once_records == old(self).once_records,
            final(self).next_session_target == old(self).next_session_target,
            final(self).ui_requests == old(self).ui_requests,
            final(self).resolution == old(self).resolution,
            final(self).type_tags == old(self).type_tags,
    {
        self.globals.set(name.to_string(), value);
    }

    /// The global `name`, if there is one.
    pub fn get_global_val(&self, name: &str) -> (r: Option<ScriptValue>)
        ensures
            match r {
                Some(v) => self.globals@.contains_key(name@) && v@ == self.globals@[name@],
                None => !self.globals@.contains_key(name@),
            },
    {
        self.globals.get_field(name)
    }

    /// Runs `set path args`, or `once path args` when `once`.
    pub fn execute_set(&mut self, path: &str, args: &[ScriptValue], once: bool) -> (r: ExecuteStatus)
        ensures
            set_effect(*old(self), *final(self), path@, args@, once, r),
            final(self).tables.next_id() == old(self).tables.next_id(),
    {
        let chars = str_chars(path);
        let mut d: usize = 0;
        while d < chars.len() && chars[d] != '.'
            invariant
                d <= chars@.len(),
                chars@ == path@,
                forall|k: int| 0 <= k < d ==> chars@[k] != '.',
            decreases chars@.len() - d,
        {
            d = d + 1;
        }
        proof {
            crate::script::table::lemma_dot_index_range_pub(path@, 0);
            if d < chars.len() {
                if dot_index(path@, 0) != d {
                    assert(chars@[dot_index(path@, 0)] == '.');
                }
            } else {
                if dot_index(path@, 0) != -1 {
                    assert(chars@[dot_index(path@, 0)] == '.');
                }
            }
        }
        if d >= chars.len() {
            let old_value = match self.globals.get_field(path) {
                Some(v) => v,
                None => ScriptValue::Nil,
            };
            if args.len() == 0 {
                return ExecuteStatus::Error(String::from_str("set requires at least one argument"));
            }
            if once {
                let ghost before = self.once_records@;
                self.once_records.push(OnceRecord { path: path.to_string(), field: None, old_value });
                proof {
                    assert(onces_view(self.once_records@) =~= onces_view(before).push(
                        once_view(self.once_records@.last()),
                    ));
                }
            }
            self.globals.set(path.to_string(), args[0].clone());
            return ExecuteStatus::Completed;
        }
        let name = chars_to_string(&chars, 0, d);
        let field = chars_to_string(&chars, d + 1, chars.len());
        assert(name@ =~= path@.take(d as int));
        assert(field@ =~= path@.skip(d + 1));
        let obj = match self.globals.get_field(name.as_str()) {
            Some(v) => v,
            None => {
                let mut e = String::from_str("Global '");
                e.append(name.as_str());
                e.append("' not found");
                return ExecuteStatus::Error(e);
            },
        };
        match obj {
            ScriptValue::TableHandle(id) => {
                let old_value = match self.tables.table(id) {
                    None => {
                        let mut e = String::from_str("table handle not found: ");
                        e.append(u64_to_text(id).as_str());
                        return ExecuteStatus::Error(e);
                    },
                    Some(t) => match t.get(field.as_str(), Some(&self.tables)) {
                        Some(v) => v,
                        None => ScriptValue::Nil,
                    },
                };
                if args.len() == 0 {
                    return ExecuteStatus::Error(String::from_str("set requires at least one argument"));
                }
                let _ = self.tables.set_path(id, field.as_str(), args[0].clone());
                if once {
                    let ghost before = self.once_records@;
                    self.once_records.push(
                        OnceRecord { path: path.to_string(), field: Some(field), old_value },
                    );
                    proof {
                        assert(onces_view(self.once_records@) =~= onces_view(before).push(
                            once_view(self.once_records@.last()),
                        ));
                    }
                }
                ExecuteStatus::Completed
            },
            v => {
                let mut e = String::from_str("Cannot set on ");
                e.append(value_to_text(&v).as_str());
                ExecuteStatus::Error(e)
            },
        }
    }
}


/// The value at the dotted path `path`: the global of that name, or, for
/// `name.rest`, what `rest` reaches from the table the global `name`
/// refers to, following table handles.
pub open spec fn resolved(ctx: ScriptContext, path: Seq<char>) -> Option<ValueV> {
    path_lookup(ctx.globals@, Some(ctx.tables@), path)
}

/// What calling the function `name` with `args` does, from `pre`, to the
/// tables and requests that `post` has, reporting `r`; a method is bound
/// to the table `bound`. A built-in function acts on its table; any other
/// function goes to the host, which sees its name and its arguments, and
/// whose answer is reported.
pub open spec fn function_effect<F: Fn(&str, &[ScriptValue]) -> Result<ScriptValue, String>>(
    pre: ScriptContext,
    post: ScriptContext,
    name: Seq<char>,
    bound: Option<u64>,
    args: Seq<ScriptValue>,
    r: Result<ScriptValue, String>,
    host: F,
) -> bool {
    match builtin_of(name) {
        Some(b) => builtin_effect(pre, post, b, bound, args, r),
        None => tables_and_requests_kept(pre, post) && exists|n: &str, a: &[ScriptValue]|
            n@ == name && a@ == args && #[trigger] call_ensures(host, (n, a), r),
    }
}

/// The function a value stands for, if it is one: its name, and the table
/// it is bound to for a method.
pub open spec fn callable(v: ValueV) -> Option<(Seq<char>, Option<u64>)> {
    match v {
        ValueV::Function(f) => Some((f, None)),
        ValueV::Method(f, t) => Some((f, Some(t))),
        _ => None,
    }
}

/// What evaluating the command path `path` with `args` gives, as the
/// right side of `name = path args...`: a function is called; any other
/// value is the result itself; a path that leads nowhere is an error
/// (after a last look for a global function of that whole name).
pub open spec fn call_effect<F: Fn(&str, &[ScriptValue]) -> Result<ScriptValue, String>>(
    pre: ScriptContext,
    post: ScriptContext,
    path: Seq<char>,
    args: Seq<ScriptValue>,
    r: Result<ScriptValue, String>,
    host: F,
) -> bool {
    match resolved(pre, path) {
        Some(v) => match callable(v) {
            Some((f, bound)) => function_effect(pre, post, f, bound, args, r, host),
            None => r matches Ok(x) && x@ == v && tables_and_requests_kept(pre, post),
        },
        None => if pre.globals@.contains_key(path) && callable(pre.globals@[path]) is Some {
            let (f, bound) = callable(pre.globals@[path])->0;
            function_effect(pre, post, f, bound, args, r, host)
        } else {
            r matches Err(e) && e@ == "Command '"@ + path + "' not found"@ && tables_and_requests_kept(pre, post)
        },
    }
}

/// What the call command `path args...` does: a function is called; any
/// other value is an error, as is a path that leads nowhere.
pub open spec fn call_command_effect<F: Fn(&str, &[ScriptValue]) -> Result<ScriptValue, String>>(
    pre: ScriptContext,
    post: ScriptContext,
    path: Seq<char>,
    args: Seq<ScriptValue>,
    r: Result<ScriptValue, String>,
    host: F,
) -> bool {
    match resolved(pre, path) {
        Some(v) => match callable(v) {
            Some((f, bound)) => function_effect(pre, post, f, bound, args, r, host),
            None => r matches Err(e) && e@ == value_text(v) + " is not a function"@ && tables_and_requests_kept(
                pre,
                post,
            ),
        },
        None => r matches Err(e) && e@ == "Path '"@ + path + "' not found"@ && tables_and_requests_kept(pre, post),
    }
}

/// Whether `post` keeps the globals, the records and the next section of
/// `pre`, and the tables' next id.
pub open spec fn keeps_all_but_tables(pre: ScriptContext, post: ScriptContext) -> bool {
    &&& post.globals@ == pre.globals@
    &&& post.tables.next_id() == pre.tables.next_id()
    &&& onces_view(post.once_records@) == onces_view(pre.once_records@)
    &&& post.next_session_target == pre.next_session_target
    &&& tags_view(post.type_tags@) == tags_view(pre.type_tags@)
}

impl ScriptContext {
    /// The type of the instance table `id`, if it is one.
    pub fn type_tag(&self, id: u64) -> (r: Option<String>)
        ensures
            match r {
                Some(t) => tag_of(*self, id) == Some(t@),
                None => tag_of(*self, id) is None,
            },
    {
        let ghost tv = tags_view(self.type_tags@);
        let mut i: usize = self.type_tags.len();
        assert(tv.take(i as int) =~= tv);
        while i > 0
            invariant
                i <= self.type_tags@.len(),
                tv == tags_view(self.type_tags@),
                tag_in(tv, id) == tag_in(tv.take(i as int), id),
            decreases i,
        {
            assert(tv.take(i as int).drop_last() =~= tv.take(i - 1));
            assert(tv[i - 1] == (self.type_tags@[i - 1].0, self.type_tags@[i - 1].1@));
            if self.type_tags[i - 1].0 == id {
                return Some(self.type_tags[i - 1].1.clone());
            }
            i = i - 1;
        }
        None
    }

    /// The value at the dotted path `path`, if it leads to one.
    pub fn resolve_path(&self, path: &str) -> (r: Option<ScriptValue>)
        ensures
            match r {
                Some(v) => resolved(*self, path@) == Some(v@),
                None => resolved(*self, path@) is None,
            },
    {
        self.globals.get(path, Some(&self.tables))
    }

    /// Calls the function `name` with `args`: a built-in one here, any
    /// other on the host.
    pub fn call_function<F: Fn(&str, &[ScriptValue]) -> Result<ScriptValue, String>>(
        &mut self,
        name: &str,
        bound: Option<u64>,
        args: &[ScriptValue],
        host: &F,
    ) -> (r: Result<ScriptValue, String>)
        requires
            forall|n: &str, a: &[ScriptValue]| call_requires(*host, (n, a)),
        ensures
            function_effect(*old(self), *final(self), name@, bound, args@, r, *host),
            keeps_all_but_tables(*old(self), *final(self)),
    {
        match builtin_named(name) {
            Some(b) => call_builtin(self, b, bound, args),
            None => {
                let r = host(name, args);
                assert(call_ensures(*host, (name, args), r));
                r
            },
        }
    }

    /// The value of the command path `path` with `args`, as the right side
    /// of an assignment takes it: a function's result, or the value itself.
    pub fn call_path<F: Fn(&str, &[ScriptValue]) -> Result<ScriptValue, String>>(
        &mut self,
        path: &str,
        args: &[ScriptValue],
        host: &F,
    ) -> (r: Result<ScriptValue, String>)
        requires
            forall|n: &str, a: &[ScriptValue]| call_requires(*host, (n, a)),
        ensures
            call_effect(*old(self), *final(self), path@, args@, r, *host),
            keeps_all_but_tables(*old(self), *final(self)),
    {
        match self.resolve_path(path) {
            Some(ScriptValue::Function(f)) => self.call_function(f.as_str(), None, args, host),
            Some(ScriptValue::Method(f, t)) => self.call_function(f.as_str(), Some(t), args, host),
            Some(v) => Ok(v),
            None => match self.globals.get_field(path) {
                Some(ScriptValue::Function(f)) => self.call_function(f.as_str(), None, args, host),
                Some(ScriptValue::Method(f, t)) => self.call_function(f.as_str(), Some(t), args, host),
                _ => {
                    let mut e = String::from_str("Command '");
                    e.append(path);
                    e.append("' not found");
                    Err(e)
                },
            },
        }
    }

    /// Runs the call command `path args...`.
    pub fn call_command<F: Fn(&str, &[ScriptValue]) -> Result<ScriptValue, String>>(
        &mut self,
        path: &str,
        args: &[ScriptValue],
        host: &F,
    ) -> (r: Result<ScriptValue, String>)
        requires
            forall|n: &str, a: &[ScriptValue]| call_requires(*host, (n, a)),
        ensures
            call_command_effect(*old(self), *final(self), path@, args@, r, *host),
            keeps_all_but_tables(*old(self), *final(self)),
    {
        match self.resolve_path(path) {
            Some(ScriptValue::Function(f)) => self.call_function(f.as_str(), None, args, host),
            Some(ScriptValue::Method(f, t)) => self.call_function(f.as_str(), Some(t), args, host),
            Some(v) => {
                let mut e = value_to_text(&v);
                e.append(" is not a function");
                Err(e)
            },
            None => {
                let mut e = String::from_str("Path '");
                e.append(path);
                e.append("' not found");
                Err(e)
            },
        }
    }
}

/// What running `cmd` on `ctx` needs: making a layer needs the global
/// table `layer_ls`, and making an instance needs free table ids (one for a
/// layer or a text object, four for a character).
pub open spec fn command_requirements(ctx: ScriptContext, cmd: CommandV) -> bool {
    match cmd {
        CommandV::CommandAssignment { command, .. } => if command == "layer"@ {
            global_table(ctx, "layer_ls"@) is Some && ctx.tables.next_id() < u64::MAX
        } else if command == "character"@ {
            ctx.tables.next_id() + 4 <= u64::MAX
        } else if command == "text_obj"@ {
            ctx.tables.next_id() < u64::MAX
        } else {
            true
        },
        _ => true,
    }
}

impl ScriptContext {
    /// Whether running `cmd` on the context meets [`command_requirements`].
    pub fn meets_command_requirements(&self, cmd: &Command) -> (r: bool)
        ensures
            r == command_requirements(*self, cmd@),
    {
        match cmd {
            Command::CommandAssignment { command, .. } => {
                let next = self.tables.next_table_id();
                if same_text(command.as_str(), "layer") {
                    self.global_table_id("layer_ls").is_ok() && next < u64::MAX
                } else if same_text(command.as_str(), "character") {
                    next <= u64::MAX - 4
                } else if same_text(command.as_str(), "text_obj") {
                    next < u64::MAX
                } else {
                    true
                }
            },
            _ => true,
        }
    }
}

/// Whether `c` is what `load` gives for the character file that `args`
/// name: none, without loading, when the first argument is no text.
pub open spec fn loaded<L: Fn(&str) -> Option<Character>>(load: L, args: Seq<ScriptValue>, c: Option<Character>) -> bool {
    if arg_is_text(args, 0) {
        exists|p: &str| p@ == args[0]@->Str_0 && #[trigger] call_ensures(load, (p,), c)
    } else {
        c is None
    }
}

/// The value an argument of a command is given when the command runs: a
/// path (written without quotes) is replaced by the value it resolves to,
/// and stays as it is when it resolves to nothing; any other argument is
/// taken as written.
pub open spec fn arg_value(ctx: ScriptContext, v: ValueV) -> ValueV {
    match v {
        ValueV::Expression(p) => match resolved(ctx, p) {
            Some(x) => x,
            None => v,
        },
        _ => v,
    }
}

/// Whether `ev` are the arguments `args` as the command running on `ctx`
/// is given them.
pub open spec fn evaluated(ctx: ScriptContext, args: Seq<ScriptValue>, ev: Seq<ScriptValue>) -> bool {
    &&& ev.len() == args.len()
    &&& forall|i: int| 0 <= i < args.len() ==> #[trigger] ev[i]@ == arg_value(ctx, args[i]@)
}

/// What `name = command args...` does, with the arguments `ev` as the
/// command is given them: `layer`, `text_obj` and `character` make a new
/// instance; any other command is evaluated as [`call_effect`] says, and
/// its value is stored.
pub open spec fn assignment_effect<
    F: Fn(&str, &[ScriptValue]) -> Result<ScriptValue, String>,
    L: Fn(&str) -> Option<Character>,
>(
    pre: ScriptContext,
    post: ScriptContext,
    name: Seq<char>,
    command: Seq<char>,
    ev: Seq<ScriptValue>,
    r: ExecuteStatus,
    host: F,
    load: L,
) -> bool {
    if command == "layer"@ {
        r is Completed && layer_instance_effect(pre, post, name, ev)
    } else if command == "text_obj"@ {
        r is Completed && text_obj_instance_effect(pre, post, name, ev)
    } else if command == "character"@ {
        &&& r is Completed
        &&& exists|c: Option<Character>| #[trigger] loaded(load, ev, c) && character_instance_effect(pre, post, name, c)
    } else {
        &&& onces_view(post.once_records@) == onces_view(pre.once_records@)
        &&& post.next_session_target == pre.next_session_target
        &&& tags_view(post.type_tags@) == tags_view(pre.type_tags@)
        &&& exists|res: Result<ScriptValue, String>|
            #[trigger] call_effect(pre, post, command, ev, res, host) && match res {
                Ok(v) => r is Completed && post.globals@ == pre.globals@.insert(name, v@),
                Err(e) => r@ == StatusV::Error(e@) && post.globals@ == pre.globals@,
            }
    }
}

/// What the call command `path args...` does, with the arguments `ev` as
/// the command is given them.
pub open spec fn call_statement_effect<F: Fn(&str, &[ScriptValue]) -> Result<ScriptValue, String>>(
    pre: ScriptContext,
    post: ScriptContext,
    path: Seq<char>,
    ev: Seq<ScriptValue>,
    r: ExecuteStatus,
    host: F,
) -> bool {
    &&& post.globals@ == pre.globals@
    &&& tags_view(post.type_tags@) == tags_view(pre.type_tags@)
    &&& onces_view(post.once_records@) == onces_view(pre.once_records@)
    &&& post.next_session_target == pre.next_session_target
    &&& exists|res: Result<ScriptValue, String>|
        #[trigger] call_command_effect(pre, post, path, ev, res, host) && match res {
            Ok(_) => r is Completed,
            Err(e) => r@ == StatusV::Error(e@),
        }
}

/// What one simple command does to the context, from `pre` to `post`,
/// reporting `r`. The arguments of `set`, `once`, calls and assignments
/// from a call are first given their values ([`evaluated`]); calls are
/// resolved and carried out as [`call_effect`] and [`call_command_effect`]
/// say, with `host` for the functions the library does not carry out
/// itself.
pub open spec fn command_effect<
    F: Fn(&str, &[ScriptValue]) -> Result<ScriptValue, String>,
    L: Fn(&str) -> Option<Character>,
>(pre: ScriptContext, post: ScriptContext, cmd: &Command, r: ExecuteStatus, host: F, load: L) -> bool {
    match cmd@ {
        CommandV::Assignment { name, value } => r is Completed && post.globals@ == pre.globals@.insert(name, value)
            && post.tables@ == pre.tables@ && onces_view(post.once_records@) == onces_view(pre.once_records@)
            && post.next_session_target == pre.next_session_target && requests_view(post.ui_requests@)
            == requests_view(pre.ui_requests@),
        CommandV::CommandAssignment { name, command, .. } => exists|ev: Seq<ScriptValue>|
            #[trigger] evaluated(pre, cmd->CommandAssignment_args@, ev) && assignment_effect(
                pre,
                post,
                name,
                command,
                ev,
                r,
                host,
                load,
            ),
        CommandV::SetPath { path, .. } => exists|ev: Seq<ScriptValue>|
            #[trigger] evaluated(pre, cmd->SetPath_args@, ev) && set_effect(pre, post, path, ev, false, r),
        CommandV::Once { path, .. } => exists|ev: Seq<ScriptValue>|
            #[trigger] evaluated(pre, cmd->Once_args@, ev) && set_effect(pre, post, path, ev, true, r),
        CommandV::Wait { condition } => r@ == StatusV::Waiting(condition) && ctx_unchanged(pre, post),
        CommandV::Call { path, .. } => exists|ev: Seq<ScriptValue>|
            #[trigger] evaluated(pre, cmd->Call_args@, ev) && call_statement_effect(pre, post, path, ev, r, host),
        CommandV::Next { target } => r is Completed && post.next_session_target == Some(target)
            && post.globals@ == pre.globals@ && post.tables@ == pre.tables@ && onces_view(post.once_records@)
            == onces_view(pre.once_records@) && requests_view(post.ui_requests@) == requests_view(pre.ui_requests@),
        CommandV::Chain { .. } => r@ == StatusV::Error("Chain must be executed via advance_chain"@)
            && ctx_unchanged(pre, post),
        CommandV::Empty => r is Completed && ctx_unchanged(pre, post),
    }
}

impl ScriptContext {
    /// The arguments `args` as a command running now is given them.
    pub fn parse_args(&self, args: &[ScriptValue]) -> (r: Vec<ScriptValue>)
        ensures
            evaluated(*self, args@, r@),
    {
        let mut out: Vec<ScriptValue> = Vec::new();
        let mut i: usize = 0;
        while i < args.len()
            invariant
                i <= args@.len(),
                out@.len() == i,
                forall|j: int| 0 <= j < i ==> #[trigger] out@[j]@ == arg_value(*self, args@[j]@),
            decreases args@.len() - i,
        {
            let v = match &args[i] {
                ScriptValue::Expression(p) => match self.resolve_path(p.as_str()) {
                    Some(x) => x,
                    None => args[i].clone(),
                },
                _ => args[i].clone(),
            };
            out.push(v);
            i = i + 1;
        }
        out
    }
}

impl ScriptContext {
    /// Runs one simple command on the context. Assignments, `set`,
    /// `once` and `next` act on the context itself; `name = layer args...`
    /// makes a new layer, `name = text_obj content x y` a new text object,
    /// and `name = character file` a new character from
    /// what `load` reads of the file; a call, and the right side of any
    /// other assignment from a call, are resolved here and the functions
    /// the library does not carry out go to `host`. Making a layer needs the
    /// global table `layer_ls`, and making an instance free table ids.
    pub fn execute_command<
        F: Fn(&str, &[ScriptValue]) -> Result<ScriptValue, String>,
        L: Fn(&str) -> Option<Character>,
    >(&mut self, cmd: &Command, host: &F, load: &L) -> (r: ExecuteStatus)
        requires
            forall|n: &str, a: &[ScriptValue]| call_requires(*host, (n, a)),
            forall|p: &str| call_requires(*load, (p,)),
            command_requirements(*old(self), cmd@),
        ensures
            command_effect(*old(self), *final(self), cmd, r, *host, *load),
    {
        match cmd {
            Command::Assignment { name, value } => {
                self.set_global_val(name.as_str(), value.clone());
                ExecuteStatus::Completed
            },
            Command::CommandAssignment { name, command, args } => {
                let ghost pre = *self;
                let ev = self.parse_args(args.as_slice());
                assert(evaluated(pre, cmd->CommandAssignment_args@, ev@));
                if same_text(command.as_str(), "layer") {
                    instantiate_layer(self, name.as_str(), ev.as_slice());
                    return ExecuteStatus::Completed;
                }
                if same_text(command.as_str(), "text_obj") {
                    instantiate_text_obj(self, name.as_str(), ev.as_slice());
                    return ExecuteStatus::Completed;
                }
                if same_text(command.as_str(), "character") {
                    let c = if ev.len() > 0 {
                        match &ev[0] {
                            ScriptValue::String(p) => {
                                let path = p.as_str();
                                let c = load(path);
                                assert(call_ensures(*load, (path,), c));
                                c
                            },
                            _ => None,
                        }
                    } else {
                        None
                    };
                    let ghost gc = c;
                    instantiate_character(self, name.as_str(), c);
                    assert(loaded(*load, ev@, gc));
                    return ExecuteStatus::Completed;
                }
                let out = self.call_path(command.as_str(), ev.as_slice(), host);
                let ghost res = out;
                let r = match out {
                    Ok(v) => {
                        self.set_global_val(name.as_str(), v);
                        ExecuteStatus::Completed
                    },
                    Err(e) => ExecuteStatus::Error(e),
                };
                assert(call_effect(pre, *self, command@, ev@, res, *host));
                assert(cmd@->CommandAssignment_command == command@);
                assert(command_effect(pre, *self, cmd, r, *host, *load));
                r
            },
            Command::SetPath { path, args } => {
                let ghost pre = *self;
                let ev = self.parse_args(args.as_slice());
                assert(evaluated(pre, cmd->SetPath_args@, ev@));
                self.execute_set(path.as_str(), ev.as_slice(), false)
            },
            Command::Once { path, args } => {
                let ghost pre = *self;
                let ev = self.parse_args(args.as_slice());
                assert(evaluated(pre, cmd->Once_args@, ev@));
                self.execute_set(path.as_str(), ev.as_slice(), true)
            },
            Command::Wait { condition } => ExecuteStatus::Waiting(condition.duplicate()),
            Command::Call { path, args } => {
                let ghost pre = *self;
                let ev = self.parse_args(args.as_slice());
                assert(evaluated(pre, cmd->Call_args@, ev@));
                let out = self.call_command(path.as_str(), ev.as_slice(), host);
                let ghost res = out;
                let r = match out {
                    Ok(_) => ExecuteStatus::Completed,
                    Err(e) => ExecuteStatus::Error(e),
                };
                assert(call_command_effect(pre, *self, path@, ev@, res, *host));
                assert(cmd@->Call_path == path@);
                assert(command_effect(pre, *self, cmd, r, *host, *load));
                r
            },
            Command::Next { target } => {
                self.next_session_target = Some(*target);
                ExecuteStatus::Completed
            },
            Command::Chain { .. } => ExecuteStatus::Error(String::from_str("Chain must be executed via advance_chain")),
            Command::Empty => ExecuteStatus::Completed,
        }
    }
}

/// An assignment from a path that holds a plain value, not a function,
/// stores that value: `y = x`, where the global `x` holds 7, sets `y` to 7
/// and completes, with the tables as they were. (`layer`, `text_obj` and
/// `character` name the types of instances: an assignment from one makes a
/// new instance instead.)
pub proof fn assignment_from_plain_value<
    F: Fn(&str, &[ScriptValue]) -> Result<ScriptValue, String>,
    L: Fn(&str) -> Option<Character>,
>(pre: ScriptContext, post: ScriptContext, cmd: &Command, r: ExecuteStatus, host: F, load: L)
    requires
        cmd@ is CommandAssignment,
        cmd@->CommandAssignment_command != "layer"@,
        cmd@->CommandAssignment_command != "character"@,
        cmd@->CommandAssignment_command != "text_obj"@,
        resolved(pre, cmd@->CommandAssignment_command) matches Some(v) && callable(v) is None,
        command_effect(pre, post, cmd, r, host, load),
    ensures
        r is Completed,
        post.globals@ == pre.globals@.insert(
            cmd@->CommandAssignment_name,
            resolved(pre, cmd@->CommandAssignment_command)->0,
        ),
        post.tables@ == pre.tables@,
{
}

proof fn lemma_no_dot(s: Seq<char>)
    requires
        forall|i: int| 0 <= i < s.len() ==> s[i] != '.',
    ensures
        dot_index(s, 0) == -1,
{
    crate::script::table::lemma_dot_index_range_pub(s, 0);
    if dot_index(s, 0) != -1 {
        assert(s[dot_index(s, 0)] == '.');
    }
}

/// A member of an object is reached by its dotted path: where the global
/// `obj` refers to a stored table, `obj.member` (neither part holding a
/// dot) resolves to that table's `member`, and to nothing when it has no
/// such member. So `frame.show` reaches the frame's function `show`.
pub proof fn dotted_member_resolves(ctx: ScriptContext, obj: Seq<char>, member: Seq<char>, id: u64)
    requires
        forall|i: int| 0 <= i < obj.len() ==> obj[i] != '.',
        forall|i: int| 0 <= i < member.len() ==> member[i] != '.',
        ctx.globals@.contains_key(obj),
        ctx.globals@[obj] == ValueV::TableHandle(id),
        ctx.tables@.contains_key(id),
    ensures
        resolved(ctx, obj + seq!['.'] + member) == (if ctx.tables@[id].contains_key(member) {
            Some(ctx.tables@[id][member])
        } else {
            None
        }),
{
    let path = obj + seq!['.'] + member;
    let n = obj.len() as int;
    crate::script::table::lemma_dot_index_range_pub(path, 0);
    assert(path[n] == '.');
    let d = dot_index(path, 0);
    if d != n {
        assert(d != -1 ==> path[d] == '.');
        if 0 <= d < n {
            assert(path[d] == obj[d]);
        }
        assert(d == -1 || d > n);
        assert(false);
    }
    assert(path.take(n) =~= obj);
    assert(path.skip(n + 1) =~= member);
    lemma_no_dot(member);
    assert(path_lookup(ctx.tables@[id], Some(ctx.tables@), member) == (if ctx.tables@[id].contains_key(member) {
        Some(ctx.tables@[id][member])
    } else {
        None
    }));
    assert(resolved(ctx, path) == path_lookup(ctx.tables@[id], Some(ctx.tables@), path.skip(n + 1)));
}

/// A call of a path that holds a plain value, not a function, is refused:
/// the error names the value, and nothing changes.
pub proof fn call_of_plain_value_is_refused<
    F: Fn(&str, &[ScriptValue]) -> Result<ScriptValue, String>,
    L: Fn(&str) -> Option<Character>,
>(pre: ScriptContext, post: ScriptContext, cmd: &Command, r: ExecuteStatus, host: F, load: L)
    requires
        cmd@ is Call,
        resolved(pre, cmd@->Call_path) matches Some(v) && callable(v) is None,
        command_effect(pre, post, cmd, r, host, load),
    ensures
        r@ == StatusV::Error(value_text(resolved(pre, cmd@->Call_path)->0) + " is not a function"@),
        ctx_unchanged(pre, post),
{
}

/// The global part of a path: the name before its first `.`.
pub open spec fn global_part(path: Seq<char>) -> Seq<char> {
    let d = dot_index(path, 0);
    if d < 0 { path } else { path.take(d) }
}

/// What undoing one record does to the globals `g` and the tables `st`:
/// a plain path gets its old value back; a dotted path gets the old value
/// back in the table its global refers to, where the path can still be
/// followed.
pub open spec fn undo_once(
    g: Map<Seq<char>, ValueV>,
    st: Map<u64, Map<Seq<char>, ValueV>>,
    rec: OnceV,
) -> (Map<Seq<char>, ValueV>, Map<u64, Map<Seq<char>, ValueV>>) {
    match rec.field {
        None => (g.insert(rec.path, rec.old), st),
        Some(f) => {
            let name = global_part(rec.path);
            if g.contains_key(name) && g[name] is TableHandle {
                match store_set_path(st, g[name]->TableHandle_0, f, rec.old) {
                    Some(s2) => (g, s2),
                    None => (g, st),
                }
            } else {
                (g, st)
            }
        },
    }
}

/// The globals and tables after undoing the records `rs`, newest first.
pub open spec fn undo_all(
    g: Map<Seq<char>, ValueV>,
    st: Map<u64, Map<Seq<char>, ValueV>>,
    rs: Seq<OnceV>,
) -> (Map<Seq<char>, ValueV>, Map<u64, Map<Seq<char>, ValueV>>)
    decreases rs.len(),
{
    if rs.len() == 0 {
        (g, st)
    } else {
        let s = undo_once(g, st, rs.last());
        undo_all(s.0, s.1, rs.drop_last())
    }
}

impl ScriptContext {
    /// Undoes the one-shot changes of the section, newest first, and
    /// forgets them.
    pub fn revert_once_records(&mut self)
        ensures
            (final(self).globals@, final(self).tables@) == undo_all(
                old(self).globals@,
                old(self).tables@,
                onces_view(old(self).once_records@),
            ),
            final(self).once_records@.len() == 0,
            final(self).next_session_target == old(self).next_session_target,
    {
        let ghost all = onces_view(self.once_records@);
        let ghost g0 = self.globals@;
        let ghost s0 = self.tables@;
        proof {
            assert(onces_view(self.once_records@) =~= all.take(self.once_records@.len() as int));
        }
        while self.once_records.len() > 0
            invariant
                self.once_records@.len() <= all.len(),
                onces_view(self.once_records@) == all.take(self.once_records@.len() as int),
                undo_all(self.globals@, self.tables@, onces_view(self.once_records@)) == undo_all(g0, s0, all),
                self.next_session_target == old(self).next_session_target,
            decreases self.once_records@.len(),
        {
            let ghost before = self.once_records@;
            let rec = self.once_records.pop().unwrap();
            proof {
                assert(self.once_records@ =~= before.drop_last());
                assert(onces_view(self.once_records@) =~= onces_view(before).drop_last());
                assert(onces_view(before).last() == once_view(rec));
            }
            let ghost g = self.globals@;
            let ghost st = self.tables@;
            match rec.field {
                None => {
                    self.globals.set(rec.path, rec.old_value);
                },
                Some(f) => {
                    let chars = str_chars(rec.path.as_str());
                    let mut d: usize = 0;
                    while d < chars.len() && chars[d] != '.'
                        invariant
                            d <= chars@.len(),
                            chars@ == rec.path@,
                            forall|k: int| 0 <= k < d ==> chars@[k] != '.',
                        decreases chars@.len() - d,
                    {
                        d = d + 1;
                    }
                    proof {
                        crate::script::table::lemma_dot_index_range_pub(rec.path@, 0);
                        if d < chars.len() {
                            if dot_index(rec.path@, 0) != d {
                                assert(chars@[dot_index(rec.path@, 0)] == '.');
                            }
                        } else {
                            if dot_index(rec.path@, 0) != -1 {
                                assert(chars@[dot_index(rec.path@, 0)] == '.');
                            }
                        }
                    }
                    let name = chars_to_string(&chars, 0, d);
                    assert(name@ =~= global_part(rec.path@));
                    match self.globals.get_field(name.as_str()) {
                        Some(ScriptValue::TableHandle(id)) => {
                            let _ = self.tables.set_path(id, f.as_str(), rec.old_value);
                        },
                        _ => {},
                    }
                },
            }
            proof {
                assert((self.globals@, self.tables@) == undo_once(g, st, once_view(rec)));
            }
        }
        assert(onces_view(self.once_records@) =~= Seq::<OnceV>::empty());
    }
}


/// A one-shot `set` of a plain global is undone at the end of the section:
/// when it is the section's only one-shot change, reverting the records
/// gives the global back the value it had (nil if it had none), and
/// leaves every other global and every table as before.
pub proof fn once_set_of_global_is_reverted(
    pre: ScriptContext,
    mid: ScriptContext,
    path: Seq<char>,
    args: Seq<ScriptValue>,
    r: ExecuteStatus,
)
    requires
        dot_index(path, 0) < 0,
        args.len() > 0,
        pre.once_records@.len() == 0,
        set_effect(pre, mid, path, args, true, r),
    ensures
        undo_all(mid.globals@, mid.tables@, onces_view(mid.once_records@)) == (
            pre.globals@.insert(path, value_or_nil(pre.globals@, path)),
            pre.tables@,
        ),
{
    let rs = onces_view(mid.once_records@);
    assert(onces_view(pre.once_records@) =~= Seq::<OnceV>::empty());
    let rec = OnceV { path, field: None, old: value_or_nil(pre.globals@, path) };
    assert(rs =~= seq![rec]);
    assert(rs.drop_last() =~= Seq::<OnceV>::empty());
    assert(rs.last() == rec);
    let u = undo_once(mid.globals@, mid.tables@, rec);
    assert(u.0 == mid.globals@.insert(path, rec.old));
    assert(mid.globals@.insert(path, value_or_nil(pre.globals@, path)) =~= pre.globals@.insert(
        path,
        value_or_nil(pre.globals@, path),
    ));
    assert(undo_all(u.0, u.1, rs.drop_last()) == (u.0, u.1));
    assert(undo_all(mid.globals@, mid.tables@, rs) == undo_all(u.0, u.1, rs.drop_last()));
}

/// A one-shot `set` of a field of a global table (`name.field`, with no
/// further dot) is undone at the end of the section: when it is the
/// section's only one-shot change, reverting the records gives the field
/// back the value it had (nil if it had none), and leaves the globals and
/// every other table and field as before.
pub proof fn once_set_of_field_is_reverted(
    pre: ScriptContext,
    mid: ScriptContext,
    path: Seq<char>,
    args: Seq<ScriptValue>,
    r: ExecuteStatus,
)
    requires
        0 <= dot_index(path, 0),
        dot_index(path.skip(dot_index(path, 0) + 1), 0) < 0,
        args.len() > 0,
        pre.once_records@.len() == 0,
        set_effect(pre, mid, path, args, true, r),
        r is Completed,
    ensures
        ({
            let name = path.take(dot_index(path, 0));
            let field = path.skip(dot_index(path, 0) + 1);
            let id = pre.globals@[name]->TableHandle_0;
            undo_all(mid.globals@, mid.tables@, onces_view(mid.once_records@)) == (
                pre.globals@,
                pre.tables@.insert(id, pre.tables@[id].insert(field, value_or_nil(pre.tables@[id], field))),
            )
        }),
{
    let d = dot_index(path, 0);
    let name = path.take(d);
    let field = path.skip(d + 1);
    crate::script::table::lemma_dot_index_range_pub(path, 0);
    assert(global_part(path) == name);
    let id = pre.globals@[name]->TableHandle_0;
    let rs = onces_view(mid.once_records@);
    assert(onces_view(pre.once_records@) =~= Seq::<OnceV>::empty());
    let old = match path_lookup(pre.tables@[id], Some(pre.tables@), field) {
        Some(v) => v,
        None => ValueV::Nil,
    };
    assert(old == value_or_nil(pre.tables@[id], field));
    assert(mid.tables@ == pre.tables@.insert(id, pre.tables@[id].insert(field, args[0]@)));
    assert(mid.tables@[id].insert(field, old) =~= pre.tables@[id].insert(field, old));
    assert(mid.tables@.insert(id, mid.tables@[id].insert(field, old)) =~= pre.tables@.insert(
        id,
        pre.tables@[id].insert(field, old),
    ));
    let rec = OnceV { path, field: Some(field), old };
    assert(rs =~= seq![rec]);
    assert(rs.drop_last() =~= Seq::<OnceV>::empty());
    assert(rs.last() == rec);
    assert(mid.globals@ == pre.globals@);
    assert(store_set_path(mid.tables@, id, field, old) == Some(mid.tables@.insert(id, mid.tables@[id].insert(field, old))));
    let u = undo_once(mid.globals@, mid.tables@, rec);
    assert(u == (mid.globals@, mid.tables@.insert(id, mid.tables@[id].insert(field, old))));
    assert(undo_all(u.0, u.1, rs.drop_last()) == (u.0, u.1));
    assert(undo_all(mid.globals@, mid.tables@, rs) == undo_all(u.0, u.1, rs.drop_last()));
}


/// Why a global table could not be had.
#[derive(Debug, PartialEq, Eq)]
pub enum GlobalTableError {
    /// There is no global of that name.
    NotFound(String),
    /// The global does not refer to a table.
    NotTable(String),
}

/// The table id that the global `name` refers to, if it refers to a
/// stored table.
pub open spec fn global_table(ctx: ScriptContext, name: Seq<char>) -> Option<u64> {
    if ctx.globals@.contains_key(name) && ctx.globals@[name] is TableHandle && ctx.tables@.contains_key(
        ctx.globals@[name]->TableHandle_0,
    ) {
        Some(ctx.globals@[name]->TableHandle_0)
    } else {
        None
    }
}

/// The error for a global `name` that is no table.
pub open spec fn global_table_error(ctx: ScriptContext, name: Seq<char>, e: GlobalTableError) -> bool {
    if !ctx.globals@.contains_key(name) {
        e matches GlobalTableError::NotFound(n) && n@ == name
    } else {
        e matches GlobalTableError::NotTable(n) && n@ == name
    }
}

impl ScriptContext {
    /// Creates an empty global table `name`: a fresh table, and the global
    /// as a handle to it.
    pub fn set_global_table(&mut self, name: &str) -> (id: u64)
        requires
            old(self).tables.next_id() < u64::MAX,
        ensures
            id == old(self).tables.next_id(),
            final(self).tables.next_id() == old(self).tables.next_id() + 1,
            final(self).globals@ == old(self).globals@.insert(name@, ValueV::TableHandle(id)),
            final(self).tables@ == old(self).tables@.insert(id, Map::<Seq<char>, ValueV>::empty()),
            onces_view(final(self).once_records@) == onces_view(old(self).once_records@),
            final(self).next_session_target == old(self).next_session_target,
            final(self).ui_requests == old(self).ui_requests,
            final(self).resolution == old(self).resolution,
            final(self).type_tags == old(self).type_tags,
    {
        let id = self.tables.alloc_table_id();
        self.tables.insert(Table::with_tuid(id));
        self.set_global_val(name, ScriptValue::TableHandle(id));
        id
    }

    /// The id of the table that the global `name` refers to; an error when
    /// there is no such global or it is no stored table.
    pub fn global_table_id(&self, name: &str) -> (r: Result<u64, GlobalTableError>)
        ensures
            match r {
                Ok(id) => global_table(*self, name@) == Some(id),
                Err(e) => global_table(*self, name@) is None && global_table_error(*self, name@, e),
            },
    {
        match self.globals.get_field(name) {
            None => Err(GlobalTableError::NotFound(name.to_string())),
            Some(ScriptValue::TableHandle(id)) => match self.tables.table(id) {
                Some(_) => Ok(id),
                None => Err(GlobalTableError::NotTable(name.to_string())),
            },
            Some(_) => Err(GlobalTableError::NotTable(name.to_string())),
        }
    }

    /// Takes the global table `name` out of the context to work on it.
    pub fn take_global_table(&mut self, name: &str) -> (r: Result<Table, GlobalTableError>)
        ensures
            match r {
                Ok(t) => global_table(*old(self), name@) == Some(t.id()) && t@ == old(self).tables@[t.id()]
                    && final(self).tables@ == old(self).tables@.remove(t.id()),
                Err(e) => global_table(*old(self), name@) is None && global_table_error(*old(self), name@, e)
                    && final(self).tables@ == old(self).tables@,
            },
            final(self).globals@ == old(self).globals@,
            final(self).tables.next_id() == old(self).tables.next_id(),
            onces_view(final(self).once_records@) == onces_view(old(self).once_records@),
            final(self).next_session_target == old(self).next_session_target,
            final(self).ui_requests == old(self).ui_requests,
            final(self).resolution == old(self).resolution,
            final(self).type_tags == old(self).type_tags,
    {
        match self.global_table_id(name) {
            Ok(id) => match self.tables.take(id) {
                Some(t) => Ok(t),
                None => Err(GlobalTableError::NotTable(name.to_string())),
            },
            Err(e) => Err(e),
        }
    }

    /// Puts a table (back) into the context.
    pub fn put_table(&mut self, table: Table)
        ensures
            final(self).tables@ == old(self).tables@.insert(table.id(), table@),
            final(self).globals@ == old(self).globals@,
            final(self).tables.next_id() == old(self).tables.next_id(),
            onces_view(final(self).once_records@) == onces_view(old(self).once_records@),
            final(self).next_session_target == old(self).next_session_target,
            final(self).ui_requests == old(self).ui_requests,
            final(self).resolution == old(self).resolution,
            final(self).type_tags == old(self).type_tags,
    {
        self.tables.insert(table);
    }

    /// Sets the member `member` of the global table `name`; an error, with
    /// nothing changed, when there is no such table.
    pub fn set_table_member(&mut self, name: &str, member: &str, value: ScriptValue) -> (r: Result<(), GlobalTableError>)
        ensures
            match global_table(*old(self), name@) {
                Some(id) => r is Ok && final(self).tables@ == old(self).tables@.insert(
                    id,
                    old(self).tables@[id].insert(member@, value@),
                ),
                None => r matches Err(e) && global_table_error(*old(self), name@, e) && final(self).tables@
                    == old(self).tables@,
            },
            final(self).globals@ == old(self).globals@,
            final(self).tables.next_id() == old(self).tables.next_id(),
            onces_view(final(self).once_records@) == onces_view(old(self).once_records@),
            final(self).next_session_target == old(self).next_session_target,
            final(self).ui_requests == old(self).ui_requests,
            final(self).resolution == old(self).resolution,
            final(self).type_tags == old(self).type_tags,
    {
        match self.global_table_id(name) {
            Ok(id) => {
                let _ = self.tables.set_field(id, member.to_string(), value);
                Ok(())
            },
            Err(e) => Err(e),
        }
    }
}

} // verus!
