//! Reading the arguments of script calls and the members of tables, with
//! a default or an error where a value is missing or cannot be read.
use vstd::prelude::*;
use crate::script::value::{ScriptValue, ValueV};
use crate::script::table::{Table, TableStore, path_lookup, store_view};
use crate::script::context::{value_text, value_to_text};
use crate::script::text::{nat_text, u64_to_text};

verus! {

/// Why a required value could not be had.
#[derive(Debug)]
pub enum ArgError {
    /// No argument at this position.
    MissingArg { index: usize },
    /// The argument at this position could not be read.
    InvalidArg { index: usize, raw: ScriptValue },
    /// The table has no such member.
    MissingMember { key: String },
    /// The member could not be read.
    InvalidMember { key: String, raw: ScriptValue },
    /// The table has no value at this path.
    MissingField { key: String },
    /// The value at this path could not be read.
    InvalidField { key: String, raw: ScriptValue },
}

/// The message of an error: the position or the key it concerns and, when
/// a value could not be read, that value's diagnostic text.
pub open spec fn arg_error_text(e: ArgError) -> Seq<char> {
    match e {
        ArgError::MissingArg { index } => "missing required arg at index "@ + nat_text(index as nat),
        ArgError::InvalidArg { index, raw } => "failed to parse required arg["@ + nat_text(index as nat) + "], raw="@
            + value_text(raw@),
        ArgError::MissingMember { key } => "missing required table member ["@ + key@ + "]"@,
        ArgError::InvalidMember { key, raw } => "failed to parse table["@ + key@ + "], raw="@ + value_text(raw@),
        ArgError::MissingField { key } => "missing required table field ["@ + key@ + "]"@,
        ArgError::InvalidField { key, raw } => "failed to parse table field["@ + key@ + "], raw="@ + value_text(
            raw@,
        ),
    }
}

impl ArgError {
    /// The message of the error, as [`arg_error_text`] gives it.
    pub fn message(&self) -> (r: String)
        ensures
            r@ == arg_error_text(*self),
    {
        match self {
            ArgError::MissingArg { index } => {
                let mut s = String::from_str("missing required arg at index ");
                s.append(u64_to_text(*index as u64).as_str());
                s
            },
            ArgError::InvalidArg { index, raw } => {
                let mut s = String::from_str("failed to parse required arg[");
                s.append(u64_to_text(*index as u64).as_str());
                s.append("], raw=");
                s.append(value_to_text(raw).as_str());
                s
            },
            ArgError::MissingMember { key } => {
                let mut s = String::from_str("missing required table member [");
                s.append(key.as_str());
                s.append("]");
                s
            },
            ArgError::InvalidMember { key, raw } => {
                let mut s = String::from_str("failed to parse table[");
                s.append(key.as_str());
                s.append("], raw=");
                s.append(value_to_text(raw).as_str());
                s
            },
            ArgError::MissingField { key } => {
                let mut s = String::from_str("missing required table field [");
                s.append(key.as_str());
                s.append("]");
                s
            },
            ArgError::InvalidField { key, raw } => {
                let mut s = String::from_str("failed to parse table field[");
                s.append(key.as_str());
                s.append("], raw=");
                s.append(value_to_text(raw).as_str());
                s
            },
        }
    }
}

/// The parsed value, or `default` when parsing gave nothing.
pub open spec fn parsed_or<T>(o: Option<T>, default: T) -> T {
    match o {
        Some(p) => p,
        None => default,
    }
}

/// The argument at `index`, read by `parse`; `default` when it is missing
/// or `parse` gives nothing.
pub fn parse_arg<T, F: FnOnce(&ScriptValue) -> Option<T>>(
    args: &[ScriptValue],
    index: usize,
    default: T,
    parse: F,
) -> (r: T)
    requires
        forall|v: &ScriptValue| call_requires(parse, (v,)),
    ensures
        index >= args@.len() ==> r == default,
        index < args@.len() ==> exists|o: Option<T>|
            call_ensures(parse, (&args@[index as int],), o) && r == parsed_or(o, default),
{
    if index < args.len() {
        let raw = &args[index];
        let o = parse(raw);
        let ghost og = o;
        let ghost d = default;
        let r = match o {
            Some(parsed) => parsed,
            None => default,
        };
        assert(call_ensures(parse, (&args@[index as int],), og) && r == parsed_or(og, d));
        r
    } else {
        default
    }
}

/// The argument at `index`, read by `parse`; an error when it is missing
/// or `parse` gives nothing.
pub fn parse_required_arg<T, F: FnOnce(&ScriptValue) -> Option<T>>(
    args: &[ScriptValue],
    index: usize,
    parse: F,
) -> (r: Result<T, ArgError>)
    requires
        forall|v: &ScriptValue| call_requires(parse, (v,)),
    ensures
        index >= args@.len() ==> (r matches Err(ArgError::MissingArg { index: i }) && i == index),
        index < args@.len() ==> exists|o: Option<T>|
            call_ensures(parse, (&args@[index as int],), o) && match o {
                Some(p) => r == Ok::<T, ArgError>(p),
                None => r matches Err(ArgError::InvalidArg { index: i, raw }) && i == index && raw@
                    == args@[index as int]@,
            },
{
    if index >= args.len() {
        return Err(ArgError::MissingArg { index });
    }
    let raw = &args[index];
    match parse(raw) {
        Some(parsed) => Ok(parsed),
        None => Err(ArgError::InvalidArg { index, raw: raw.clone() }),
    }
}

/// A value whose members can be read by name.
pub trait TabelGet {
    /// The member `key`, if there is one.
    spec fn member(&self, key: Seq<char>) -> Option<ValueV>;

    /// The member `key`, if there is one.
    fn get(&self, key: &str) -> (r: Option<ScriptValue>)
        ensures
            match r {
                Some(v) => self.member(key@) == Some(v@),
                None => self.member(key@) is None,
            };
}

impl TabelGet for Table {
    open spec fn member(&self, key: Seq<char>) -> Option<ValueV> {
        if self@.contains_key(key) {
            Some(self@[key])
        } else {
            None
        }
    }

    fn get(&self, key: &str) -> (r: Option<ScriptValue>) {
        self.get_field(key)
    }
}

/// The member `key` of `table`, read by `parse`; `default` when it is
/// missing or `parse` gives nothing.
pub fn parse_member<T, G: TabelGet, F: FnOnce(&ScriptValue) -> Option<T>>(
    table: &G,
    key: &str,
    default: T,
    parse: F,
) -> (r: T)
    requires
        forall|v: &ScriptValue| call_requires(parse, (v,)),
    ensures
        table.member(key@) is None ==> r == default,
        table.member(key@) matches Some(m) ==> exists|raw: ScriptValue, o: Option<T>|
            raw@ == m && call_ensures(parse, (&raw,), o) && r == parsed_or(o, default),
{
    match table.get(key) {
        Some(raw) => {
            let o = parse(&raw);
            match o {
                Some(parsed) => parsed,
                None => default,
            }
        },
        None => default,
    }
}

/// The member `key` of `table`, read by `parse`; an error when it is
/// missing or `parse` gives nothing.
pub fn parse_required_member<T, G: TabelGet, F: FnOnce(&ScriptValue) -> Option<T>>(
    table: &G,
    key: &str,
    parse: F,
) -> (r: Result<T, ArgError>)
    requires
        forall|v: &ScriptValue| call_requires(parse, (v,)),
    ensures
        table.member(key@) is None ==> (r matches Err(ArgError::MissingMember { key: k }) && k@ == key@),
        table.member(key@) matches Some(m) ==> exists|raw: ScriptValue, o: Option<T>|
            raw@ == m && call_ensures(parse, (&raw,), o) && match o {
                Some(p) => r == Ok::<T, ArgError>(p),
                None => r matches Err(ArgError::InvalidMember { key: k, raw: x }) && k@ == key@ && x@
                    == m,
            },
{
    match table.get(key) {
        Some(raw) => {
            let o = parse(&raw);
            match o {
                Some(parsed) => Ok(parsed),
                None => Err(ArgError::InvalidMember { key: key.to_string(), raw }),
            }
        },
        None => Err(ArgError::MissingMember { key: key.to_string() }),
    }
}

/// The value at the dotted path `key` of `table` (following table handles
/// through `ctx`), read by `parse`; `default` when it is missing or
/// `parse` gives nothing.
pub fn parse_table_field<T, F: FnOnce(&ScriptValue) -> Option<T>>(
    table: &Table,
    key: &str,
    ctx: Option<&TableStore>,
    default: T,
    parse: F,
) -> (r: T)
    requires
        forall|v: &ScriptValue| call_requires(parse, (v,)),
    ensures
        path_lookup(table@, store_view(ctx), key@) is None ==> r == default,
        path_lookup(table@, store_view(ctx), key@) matches Some(m) ==> exists|raw: ScriptValue, o: Option<T>|
            raw@ == m && call_ensures(parse, (&raw,), o) && r == parsed_or(o, default),
{
    match table.get(key, ctx) {
        Some(raw) => {
            let o = parse(&raw);
            match o {
                Some(parsed) => parsed,
                None => default,
            }
        },
        None => default,
    }
}

/// The value at the dotted path `key` of `table` (following table handles
/// through `ctx`), read by `parse`; an error when it is missing or `parse`
/// gives nothing.
pub fn parse_required_table_field<T, F: FnOnce(&ScriptValue) -> Option<T>>(
    table: &Table,
    key: &str,
    ctx: Option<&TableStore>,
    parse: F,
) -> (r: Result<T, ArgError>)
    requires
        forall|v: &ScriptValue| call_requires(parse, (v,)),
    ensures
        path_lookup(table@, store_view(ctx), key@) is None ==> (r matches Err(ArgError::MissingField { key: k })
            && k@ == key@),
        path_lookup(table@, store_view(ctx), key@) matches Some(m) ==> exists|raw: ScriptValue, o: Option<T>|
            raw@ == m && call_ensures(parse, (&raw,), o) && match o {
                Some(p) => r == Ok::<T, ArgError>(p),
                None => r matches Err(ArgError::InvalidField { key: k, raw: x }) && k@ == key@ && x@ == m,
            },
{
    match table.get(key, ctx) {
        Some(raw) => {
            let o = parse(&raw);
            match o {
                Some(parsed) => Ok(parsed),
                None => Err(ArgError::InvalidField { key: key.to_string(), raw }),
            }
        },
        None => Err(ArgError::MissingField { key: key.to_string() }),
    }
}

} // verus!
