//! The parser: from tokens to the commands of each section.
use vstd::prelude::*;
use crate::script::lexer::{Token, TokenV, tokens_view, token_text, string_chars};
use crate::script::text::{nat_text, u64_to_text, push_char};
use crate::script::value::{
    Command, CommandV, ScriptValue, ValueV, WaitCondition, WaitV, Decimal, decimal_nanos,
    values_view, commands_view, sessions_view, NANOS_PER_SEC, pow10,
    lemma_pow10_pos, lemma_pow10_mono,
};

verus! {

// ---------------------------------------------------------------------------
// The grammar, as functions of the token sequence and a position.
//
// Each returns, on success, what it read and the position after it; on
// failure, the message and the position where reading stopped.

/// The token at `p`, or `Eof` past the end.
pub open spec fn tok(ts: Seq<TokenV>, p: int) -> TokenV {
    if 0 <= p < ts.len() {
        ts[p]
    } else {
        TokenV::Eof
    }
}

/// Whether reading has reached the end: past the last token, or at `Eof`.
pub open spec fn at_end(ts: Seq<TokenV>, p: int) -> bool {
    p >= ts.len() || tok(ts, p) is Eof
}

/// The position after one step, which stays put at the end.
pub open spec fn step_pos(ts: Seq<TokenV>, p: int) -> int {
    if at_end(ts, p) {
        p
    } else {
        p + 1
    }
}

/// The first position at or after `p` that does not hold a line break.
pub open spec fn skip_newlines(ts: Seq<TokenV>, p: int) -> int
    decreases ts.len() - p,
{
    if tok(ts, p) is Newline {
        skip_newlines(ts, p + 1)
    } else {
        p
    }
}

pub proof fn lemma_skip_newlines(ts: Seq<TokenV>, p: int)
    requires
        0 <= p <= ts.len(),
    ensures
        p <= skip_newlines(ts, p) <= ts.len(),
        !(tok(ts, skip_newlines(ts, p)) is Newline),
    decreases ts.len() - p,
{
    if tok(ts, p) is Newline {
        lemma_skip_newlines(ts, p + 1);
    }
}

/// Whether `s` spells `word` (which is lower case) in any ASCII letter
/// case.
pub open spec fn is_word_any_case(s: Seq<char>, word: Seq<char>) -> bool {
    s.len() == word.len() && forall|i: int|
        0 <= i < s.len() ==> s[i] == word[i] || ('A' <= s[i] && s[i] <= 'Z' && (s[i] as u32) + 32
            == (word[i] as u32))
}

pub open spec fn word_true() -> Seq<char> {
    seq!['t', 'r', 'u', 'e']
}

pub open spec fn word_false() -> Seq<char> {
    seq!['f', 'a', 'l', 's', 'e']
}

pub open spec fn word_nil() -> Seq<char> {
    seq!['n', 'i', 'l']
}

pub open spec fn word_click() -> Seq<char> {
    seq!['c', 'l', 'i', 'c', 'k']
}

pub open spec fn word_wait() -> Seq<char> {
    seq!['w', 'a', 'i', 't']
}

pub open spec fn word_once() -> Seq<char> {
    seq!['o', 'n', 'c', 'e']
}

pub open spec fn word_set() -> Seq<char> {
    seq!['s', 'e', 't']
}

pub open spec fn word_next() -> Seq<char> {
    seq!['n', 'e', 'x', 't']
}

/// The rest of a dotted path inside a value, after the name `acc`.
pub open spec fn value_path_rest(ts: Seq<TokenV>, q: int, acc: Seq<char>) -> Result<
    (Seq<char>, int),
    (Seq<char>, int),
>
    decreases ts.len() - q,
{
    if tok(ts, q) is Dot {
        let r = q + 1;
        match tok(ts, r) {
            TokenV::Ident(part) => value_path_rest(ts, r + 1, acc.push('.') + part),
            _ => Err(("Expected identifier after '.'"@, r)),
        }
    } else {
        Ok((acc, q))
    }
}

/// A value: a string, a number, `true`, `false`, `nil` (in any letter
/// case), or a dotted path.
pub open spec fn parse_value_spec(ts: Seq<TokenV>, p: int) -> Result<
    (ValueV, int),
    (Seq<char>, int),
> {
    match tok(ts, p) {
        TokenV::Str(s) => Ok((ValueV::Str(s), p + 1)),
        TokenV::Int(i) => Ok((ValueV::Int(i), p + 1)),
        TokenV::Float(d) => Ok((ValueV::Float(d), p + 1)),
        TokenV::Ident(id) => if is_word_any_case(id, word_true()) {
            Ok((ValueV::Bool(true), p + 1))
        } else if is_word_any_case(id, word_false()) {
            Ok((ValueV::Bool(false), p + 1))
        } else if is_word_any_case(id, word_nil()) {
            Ok((ValueV::Nil, p + 1))
        } else {
            match value_path_rest(ts, p + 1, id) {
                Ok((path, q)) => Ok((ValueV::Expression(path), q)),
                Err(e) => Err(e),
            }
        },
        t => Err(("Expected value, got "@ + token_text(t), p)),
    }
}

/// The rest of a path after the parts read so far, joined in `acc`.
pub open spec fn path_rest(ts: Seq<TokenV>, q: int, acc: Seq<char>) -> Result<
    (Seq<char>, int),
    (Seq<char>, int),
>
    decreases ts.len() - q,
{
    if tok(ts, q) is Dot {
        let r = q + 1;
        match tok(ts, r) {
            TokenV::Ident(part) => path_rest(ts, r + 1, acc.push('.') + part),
            t => Err(("Expected identifier after '.', got "@ + token_text(t), r)),
        }
    } else {
        Ok((acc, q))
    }
}

/// A path such as `ef.snow.begin`, optionally led by a dot; its parts
/// joined with `.`.
pub open spec fn parse_path_spec(ts: Seq<TokenV>, p: int) -> Result<
    (Seq<char>, int),
    (Seq<char>, int),
> {
    let p1 = if tok(ts, p) is Dot {
        p + 1
    } else {
        p
    };
    match tok(ts, p1) {
        TokenV::Ident(id) => path_rest(ts, p1 + 1, id),
        t => Err(("Expected identifier, got "@ + token_text(t), p1)),
    }
}

/// Values up to the end of the command, collected after `acc`.
pub open spec fn args_rest(ts: Seq<TokenV>, p: int, acc: Seq<ValueV>) -> Result<
    (Seq<ValueV>, int),
    (Seq<char>, int),
>
    decreases ts.len() - p,
{
    if tok(ts, p) is Newline || tok(ts, p) is Arrow {
        Ok((acc, p))
    } else {
        match parse_value_spec(ts, p) {
            Err(e) => Err(e),
            Ok((v, q)) => if at_end(ts, q) {
                Ok((acc.push(v), q))
            } else {
                proof {
                    lemma_parse_value(ts, p);
                }
                args_rest(ts, q, acc.push(v))
            },
        }
    }
}

/// The arguments of a command: values up to a line break, an arrow or the
/// end.
pub open spec fn parse_args_spec(ts: Seq<TokenV>, p: int) -> Result<
    (Seq<ValueV>, int),
    (Seq<char>, int),
> {
    if at_end(ts, p) || tok(ts, p) is Newline || tok(ts, p) is Arrow {
        Ok((Seq::empty(), p))
    } else {
        args_rest(ts, p, Seq::empty())
    }
}

/// The span of time a number of seconds stands for.
pub open spec fn seconds_nanos(v: ValueV) -> Option<int> {
    match v {
        ValueV::Float(d) => Some(decimal_nanos(d)),
        ValueV::Int(i) => Some(i * NANOS_PER_SEC),
        _ => None,
    }
}

/// What `wait` waits for: `click`, or a number of seconds.
pub open spec fn parse_wait_spec(ts: Seq<TokenV>, p: int) -> Result<
    (WaitV, int),
    (Seq<char>, int),
> {
    if tok(ts, p) matches TokenV::Ident(id) && id == word_click() {
        Ok((WaitV::Click, p + 1))
    } else {
        match parse_value_spec(ts, p) {
            Err(e) => Err(e),
            Ok((v, q)) => match seconds_nanos(v) {
                Some(n) => Ok((WaitV::Time(n as i128), q)),
                None => Err(("wait requires time value or 'click'"@, q)),
            },
        }
    }
}

/// The command that the path `path`, already read, opens.
pub open spec fn command_from_path_spec(ts: Seq<TokenV>, p: int, path: Seq<char>) -> Result<
    (CommandV, int),
    (Seq<char>, int),
> {
    if path == word_wait() {
        match parse_wait_spec(ts, p) {
            Ok((c, q)) => Ok((CommandV::Wait { condition: c }, q)),
            Err(e) => Err(e),
        }
    } else if path == word_once() {
        match parse_args_spec(ts, p) {
            Err(e) => Err(e),
            Ok((args, q)) => if args.len() == 0 {
                Err(("once requires at least one argument"@, q))
            } else {
                match args[0] {
                    ValueV::Expression(s) => Ok(
                        (CommandV::Once { path: s, args: args.subrange(1, args.len() as int) }, q),
                    ),
                    _ => Err(("once first argument must be path expression"@, q)),
                }
            },
        }
    } else if path == word_set() {
        match parse_args_spec(ts, p) {
            Err(e) => Err(e),
            Ok((args, q)) => if args.len() == 0 {
                Err(("set requires at least one argument"@, q))
            } else {
                match args[0] {
                    ValueV::Expression(s) => Ok(
                        (CommandV::SetPath { path: s, args: args.subrange(1, args.len() as int) }, q),
                    ),
                    _ => Err(("set first argument must be expression"@, q)),
                }
            },
        }
    } else if path == word_next() {
        match parse_args_spec(ts, p) {
            Err(e) => Err(e),
            Ok((args, q)) => if args.len() == 0 {
                Err(("next requires one integer target session id"@, q))
            } else {
                match args[0] {
                    ValueV::Int(raw) => if raw <= 0 {
                        Err(("next target session id should be >= 1"@, q))
                    } else {
                        Ok((CommandV::Next { target: raw as usize }, q))
                    },
                    _ => Err(("next first argument should be an integer"@, q)),
                }
            },
        }
    } else {
        match parse_args_spec(ts, p) {
            Err(e) => Err(e),
            Ok((args, q)) => Ok((CommandV::Call { path, args }, q)),
        }
    }
}

/// The commands after the first of a chain, each led by `->`, collected
/// after `acc`.
pub open spec fn chain_rest(ts: Seq<TokenV>, p: int, acc: Seq<CommandV>) -> Result<
    (Seq<CommandV>, int),
    (Seq<char>, int),
>
    decreases ts.len() - p,
{
    if tok(ts, p) is Arrow {
        match parse_path_spec(ts, p + 1) {
            Err(e) => Err(e),
            Ok((path, q)) => match command_from_path_spec(ts, q, path) {
                Err(e) => Err(e),
                Ok((c, r)) => {
                    proof {
                        lemma_parse_path(ts, p + 1);
                        lemma_command_from_path(ts, q, path);
                    }
                    chain_rest(ts, r, acc.push(c))
                },
            },
        }
    } else {
        Ok((acc, p))
    }
}

/// A call, a `set`/`once`/`wait`/`next` command, or a chain of them.
pub open spec fn parse_call_or_set_spec(ts: Seq<TokenV>, p: int) -> Result<
    (CommandV, int),
    (Seq<char>, int),
> {
    match parse_path_spec(ts, p) {
        Err(e) => Err(e),
        Ok((path, q)) => match command_from_path_spec(ts, q, path) {
            Err(e) => Err(e),
            Ok((first, r)) => if !(tok(ts, r) is Arrow) {
                Ok((first, r))
            } else {
                match chain_rest(ts, r, seq![first]) {
                    Ok((cs, s)) => Ok((CommandV::Chain { commands: cs }, s)),
                    Err(e) => Err(e),
                }
            },
        },
    }
}

/// The right side of `name = ...`: a value, or a command whose result is
/// assigned.
pub open spec fn parse_assignment_spec(ts: Seq<TokenV>, p: int, name: Seq<char>) -> Result<
    (CommandV, int),
    (Seq<char>, int),
> {
    let p1 = skip_newlines(ts, p);
    match tok(ts, p1) {
        TokenV::Ident(_) => match parse_path_spec(ts, p1) {
            Err(e) => Err(e),
            Ok((path, q)) => match parse_args_spec(ts, q) {
                Err(e) => Err(e),
                Ok((args, r)) => Ok((CommandV::CommandAssignment { name, command: path, args }, r)),
            },
        },
        _ => match parse_value_spec(ts, p1) {
            Err(e) => Err(e),
            Ok((v, q)) => Ok((CommandV::Assignment { name, value: v }, q)),
        },
    }
}

/// One command: an assignment when a name is followed by `=`, otherwise a
/// call, a `set`/`once`/`wait`/`next` command or a chain.
pub open spec fn parse_command_spec(ts: Seq<TokenV>, p: int) -> Result<
    (CommandV, int),
    (Seq<char>, int),
> {
    match tok(ts, p) {
        TokenV::Ident(id) => if tok(ts, p + 1) is Equal {
            parse_assignment_spec(ts, p + 2, id)
        } else {
            parse_call_or_set_spec(ts, p)
        },
        _ => parse_call_or_set_spec(ts, p),
    }
}

/// Whether `#` followed by a number opens a section at `p`.
pub open spec fn opens_section(ts: Seq<TokenV>, p: int) -> bool {
    tok(ts, p) is Session && 0 <= p + 1 < ts.len() && ts[p + 1] is Int
}

/// The sections read so far, with the current one added when it holds a
/// command.
pub open spec fn close_section(sessions: Seq<Seq<CommandV>>, cur: Seq<CommandV>) -> Seq<
    Seq<CommandV>,
> {
    if cur.len() > 0 {
        sessions.push(cur)
    } else {
        sessions
    }
}

/// The message of a parse error at position `q`.
pub open spec fn parse_error_text(q: int, e: Seq<char>) -> Seq<char> {
    "Parse error at position "@ + nat_text(q as nat) + ": "@ + e
}

/// The sections of a script from position `p` on, after the finished
/// sections `sessions` and the commands `cur` of the open one.
#[verifier::opaque]
pub open spec fn parse_sessions_from(
    ts: Seq<TokenV>,
    p: int,
    sessions: Seq<Seq<CommandV>>,
    cur: Seq<CommandV>,
) -> Result<Seq<Seq<CommandV>>, Seq<char>>
    decreases ts.len() - p,
{
    if at_end(ts, p) {
        Ok(close_section(sessions, cur))
    } else {
        let p1 = skip_newlines(ts, p);
        if at_end(ts, p1) {
            Ok(close_section(sessions, cur))
        } else if opens_section(ts, p1) {
            let p2 = skip_newlines(ts, p1 + 2);
            proof {
                lemma_skip_newlines(ts, p);
                lemma_skip_newlines(ts, p1 + 2);
            }
            parse_sessions_from(ts, p2, close_section(sessions, cur), Seq::empty())
        } else {
            match parse_command_spec(ts, p1) {
                Err((e, q)) => Err(parse_error_text(q, e)),
                Ok((c, q)) => {
                    let q1 = skip_newlines(ts, q);
                    proof {
                        lemma_skip_newlines(ts, p);
                        lemma_parse_command(ts, p1);
                        lemma_skip_newlines(ts, q);
                    }
                    parse_sessions_from(ts, q1, sessions, cur.push(c))
                },
            }
        }
    }
}

/// The commands of each section of a token sequence: sections open with
/// `#` and a number; empty sections are left out.
pub open spec fn parse_sessions(ts: Seq<TokenV>) -> Result<Seq<Seq<CommandV>>, Seq<char>> {
    parse_sessions_from(ts, 0, Seq::empty(), Seq::empty())
}

/// One step of [`parse_sessions_from`].
pub proof fn lemma_sessions_step(
    ts: Seq<TokenV>,
    p: int,
    sessions: Seq<Seq<CommandV>>,
    cur: Seq<CommandV>,
)
    ensures
        at_end(ts, p) ==> parse_sessions_from(ts, p, sessions, cur) == Ok::<
            Seq<Seq<CommandV>>,
            Seq<char>,
        >(close_section(sessions, cur)),
        !at_end(ts, p) && at_end(ts, skip_newlines(ts, p)) ==> parse_sessions_from(
            ts,
            p,
            sessions,
            cur,
        ) == Ok::<Seq<Seq<CommandV>>, Seq<char>>(close_section(sessions, cur)),
        !at_end(ts, p) && !at_end(ts, skip_newlines(ts, p)) && opens_section(
            ts,
            skip_newlines(ts, p),
        ) ==> parse_sessions_from(ts, p, sessions, cur) == parse_sessions_from(
            ts,
            skip_newlines(ts, skip_newlines(ts, p) + 2),
            close_section(sessions, cur),
            Seq::empty(),
        ),
        !at_end(ts, p) && !at_end(ts, skip_newlines(ts, p)) && !opens_section(
            ts,
            skip_newlines(ts, p),
        ) ==> match parse_command_spec(ts, skip_newlines(ts, p)) {
            Err((e, q)) => parse_sessions_from(ts, p, sessions, cur) == Err::<
                Seq<Seq<CommandV>>,
                Seq<char>,
            >(parse_error_text(q, e)),
            Ok((c, q)) => parse_sessions_from(ts, p, sessions, cur) == parse_sessions_from(
                ts,
                skip_newlines(ts, q),
                sessions,
                cur.push(c),
            ),
        },
{
    reveal(parse_sessions_from);
}

// ---------------------------------------------------------------------------
// How far each rule reads.

pub proof fn lemma_value_path_rest(ts: Seq<TokenV>, q: int, acc: Seq<char>)
    requires
        0 <= q <= ts.len(),
    ensures
        value_path_rest(ts, q, acc) matches Ok((_, r)) ==> q <= r <= ts.len(),
        value_path_rest(ts, q, acc) matches Err((_, r)) ==> q <= r <= ts.len(),
    decreases ts.len() - q,
{
    if tok(ts, q) is Dot {
        if let TokenV::Ident(part) = tok(ts, q + 1) {
            lemma_value_path_rest(ts, q + 2, acc.push('.') + part);
        }
    }
}

pub proof fn lemma_parse_value(ts: Seq<TokenV>, p: int)
    requires
        0 <= p <= ts.len(),
    ensures
        parse_value_spec(ts, p) matches Ok((_, q)) ==> p < q <= ts.len(),
        parse_value_spec(ts, p) matches Err((_, q)) ==> p <= q <= ts.len(),
{
    if let TokenV::Ident(id) = tok(ts, p) {
        lemma_value_path_rest(ts, p + 1, id);
    }
}

pub proof fn lemma_path_rest(ts: Seq<TokenV>, q: int, acc: Seq<char>)
    requires
        0 <= q <= ts.len(),
    ensures
        path_rest(ts, q, acc) matches Ok((_, r)) ==> q <= r <= ts.len(),
        path_rest(ts, q, acc) matches Err((_, r)) ==> q <= r <= ts.len(),
    decreases ts.len() - q,
{
    if tok(ts, q) is Dot {
        if let TokenV::Ident(part) = tok(ts, q + 1) {
            lemma_path_rest(ts, q + 2, acc.push('.') + part);
        }
    }
}

pub proof fn lemma_parse_path(ts: Seq<TokenV>, p: int)
    requires
        0 <= p <= ts.len(),
    ensures
        parse_path_spec(ts, p) matches Ok((_, q)) ==> p < q <= ts.len(),
        parse_path_spec(ts, p) matches Err((_, q)) ==> p <= q <= ts.len(),
{
    let p1 = if tok(ts, p) is Dot {
        p + 1
    } else {
        p
    };
    if let TokenV::Ident(id) = tok(ts, p1) {
        lemma_path_rest(ts, p1 + 1, id);
    }
}

pub proof fn lemma_args_rest(ts: Seq<TokenV>, p: int, acc: Seq<ValueV>)
    requires
        0 <= p <= ts.len(),
    ensures
        args_rest(ts, p, acc) matches Ok((_, q)) ==> p <= q <= ts.len(),
        args_rest(ts, p, acc) matches Err((_, q)) ==> p <= q <= ts.len(),
    decreases ts.len() - p,
{
    if !(tok(ts, p) is Newline || tok(ts, p) is Arrow) {
        lemma_parse_value(ts, p);
        if let Ok((v, q)) = parse_value_spec(ts, p) {
            if !at_end(ts, q) {
                lemma_args_rest(ts, q, acc.push(v));
            }
        }
    }
}

pub proof fn lemma_parse_args(ts: Seq<TokenV>, p: int)
    requires
        0 <= p <= ts.len(),
    ensures
        parse_args_spec(ts, p) matches Ok((_, q)) ==> p <= q <= ts.len(),
        parse_args_spec(ts, p) matches Err((_, q)) ==> p <= q <= ts.len(),
{
    lemma_args_rest(ts, p, Seq::empty());
}

pub proof fn lemma_command_from_path(ts: Seq<TokenV>, p: int, path: Seq<char>)
    requires
        0 <= p <= ts.len(),
    ensures
        command_from_path_spec(ts, p, path) matches Ok((_, q)) ==> p <= q <= ts.len(),
        command_from_path_spec(ts, p, path) matches Err((_, q)) ==> p <= q <= ts.len(),
{
    lemma_parse_args(ts, p);
    lemma_parse_value(ts, p);
}

pub proof fn lemma_chain_rest(ts: Seq<TokenV>, p: int, acc: Seq<CommandV>)
    requires
        0 <= p <= ts.len(),
    ensures
        chain_rest(ts, p, acc) matches Ok((_, q)) ==> p <= q <= ts.len(),
        chain_rest(ts, p, acc) matches Err((_, q)) ==> p <= q <= ts.len(),
    decreases ts.len() - p,
{
    if tok(ts, p) is Arrow {
        lemma_parse_path(ts, p + 1);
        if let Ok((path, q)) = parse_path_spec(ts, p + 1) {
            lemma_command_from_path(ts, q, path);
            if let Ok((c, r)) = command_from_path_spec(ts, q, path) {
                lemma_chain_rest(ts, r, acc.push(c));
            }
        }
    }
}

pub proof fn lemma_parse_call_or_set(ts: Seq<TokenV>, p: int)
    requires
        0 <= p <= ts.len(),
    ensures
        parse_call_or_set_spec(ts, p) matches Ok((_, q)) ==> p < q <= ts.len(),
        parse_call_or_set_spec(ts, p) matches Err((_, q)) ==> p <= q <= ts.len(),
{
    lemma_parse_path(ts, p);
    if let Ok((path, q)) = parse_path_spec(ts, p) {
        lemma_command_from_path(ts, q, path);
        if let Ok((first, r)) = command_from_path_spec(ts, q, path) {
            lemma_chain_rest(ts, r, seq![first]);
        }
    }
}

pub proof fn lemma_parse_command(ts: Seq<TokenV>, p: int)
    requires
        0 <= p <= ts.len(),
    ensures
        parse_command_spec(ts, p) matches Ok((_, q)) ==> p < q <= ts.len(),
        parse_command_spec(ts, p) matches Err((_, q)) ==> p <= q <= ts.len(),
{
    lemma_parse_call_or_set(ts, p);
    if let TokenV::Ident(id) = tok(ts, p) {
        if tok(ts, p + 1) is Equal {
            let p1 = skip_newlines(ts, p + 2);
            lemma_skip_newlines(ts, p + 2);
            lemma_parse_path(ts, p1);
            lemma_parse_value(ts, p1);
            if let Ok((path, q)) = parse_path_spec(ts, p1) {
                lemma_parse_args(ts, q);
            }
        }
    }
}

// ---------------------------------------------------------------------------
// Results of the executable rules, against the grammar.

pub open spec fn agrees_value(r: Result<ScriptValue, String>, g: Result<(ValueV, int), (Seq<char>, int)>, pos: int) -> bool {
    match g {
        Ok((v, q)) => r matches Ok(x) && x@ == v && pos == q,
        Err((e, q)) => r matches Err(m) && m@ == e && pos == q,
    }
}

pub open spec fn agrees_text(r: Result<String, String>, g: Result<(Seq<char>, int), (Seq<char>, int)>, pos: int) -> bool {
    match g {
        Ok((v, q)) => r matches Ok(x) && x@ == v && pos == q,
        Err((e, q)) => r matches Err(m) && m@ == e && pos == q,
    }
}

pub open spec fn agrees_args(r: Result<Vec<ScriptValue>, String>, g: Result<(Seq<ValueV>, int), (Seq<char>, int)>, pos: int) -> bool {
    match g {
        Ok((v, q)) => r matches Ok(x) && values_view(x@) == v && pos == q,
        Err((e, q)) => r matches Err(m) && m@ == e && pos == q,
    }
}

pub open spec fn agrees_wait(r: Result<WaitCondition, String>, g: Result<(WaitV, int), (Seq<char>, int)>, pos: int) -> bool {
    match g {
        Ok((v, q)) => r matches Ok(x) && x@ == v && pos == q,
        Err((e, q)) => r matches Err(m) && m@ == e && pos == q,
    }
}

pub open spec fn agrees_command(r: Result<Command, String>, g: Result<(CommandV, int), (Seq<char>, int)>, pos: int) -> bool {
    match g {
        Ok((v, q)) => r matches Ok(x) && x@ == v && pos == q,
        Err((e, q)) => r matches Err(m) && m@ == e && pos == q,
    }
}

/// Whether two tokens are of the same kind, whatever they hold.
pub open spec fn same_kind(a: TokenV, b: TokenV) -> bool {
    match (a, b) {
        (TokenV::Ident(_), TokenV::Ident(_)) => true,
        (TokenV::Str(_), TokenV::Str(_)) => true,
        (TokenV::Int(_), TokenV::Int(_)) => true,
        (TokenV::Float(_), TokenV::Float(_)) => true,
        (TokenV::Newline, TokenV::Newline) => true,
        (TokenV::Session, TokenV::Session) => true,
        (TokenV::Dot, TokenV::Dot) => true,
        (TokenV::Equal, TokenV::Equal) => true,
        (TokenV::Arrow, TokenV::Arrow) => true,
        (TokenV::Eof, TokenV::Eof) => true,
        _ => false,
    }
}

fn chars_equal(cs: &Vec<char>, w: &[char]) -> (r: bool)
    ensures
        r == (cs@ == w@),
{
    if cs.len() != w.len() {
        return false;
    }
    let mut i: usize = 0;
    while i < cs.len()
        invariant
            i <= cs.len() == w@.len(),
            forall|j: int| 0 <= j < i ==> cs@[j] == w@[j],
        decreases cs.len() - i,
    {
        if cs[i] != w[i] {
            return false;
        }
        i = i + 1;
    }
    assert(cs@ =~= w@);
    true
}

fn chars_equal_any_case(cs: &Vec<char>, w: &[char]) -> (r: bool)
    ensures
        r == is_word_any_case(cs@, w@),
{
    if cs.len() != w.len() {
        return false;
    }
    let mut i: usize = 0;
    while i < cs.len()
        invariant
            i <= cs.len() == w@.len(),
            forall|j: int|
                0 <= j < i ==> cs@[j] == w@[j] || ('A' <= cs@[j] && cs@[j] <= 'Z' && (cs@[j] as u32)
                    + 32 == (w@[j] as u32)),
        decreases cs.len() - i,
    {
        let c = cs[i];
        let ok = c == w[i] || ('A' <= c && c <= 'Z' && (c as u32) + 32 == (w[i] as u32));
        if !ok {
            return false;
        }
        i = i + 1;
    }
    true
}

proof fn lemma_pow10_values()
    ensures
        pow10(9) == 1000000000,
        pow10(19) == 10000000000000000000,
        pow10(38) == 100000000000000000000000000000000000000,
{
    reveal_with_fuel(pow10, 39);
}

fn pow10_i128(n: u32) -> (r: i128)
    requires
        n <= 38,
    ensures
        r == pow10(n as nat),
{
    let mut r: i128 = 1;
    let mut k: u32 = 0;
    proof {
        lemma_pow10_mono(0, 38);
        lemma_pow10_values();
    }
    while k < n
        invariant
            k <= n <= 38,
            r == pow10(k as nat),
            r <= pow10(38),
        decreases n - k,
    {
        proof {
            lemma_pow10_mono((k + 1) as nat, 38);
            assert(pow10((k + 1) as nat) == 10 * pow10(k as nat));
            lemma_pow10_values();
        }
        proof {
            lemma_pow10_pos(k as nat);
        }
        assert(r * 10 <= 100000000000000000000000000000000000000);
        r = r * 10;
        k = k + 1;
    }
    r
}

/// The whole nanoseconds in the decimal number of seconds `d`, rounded
/// toward zero.
pub fn decimal_to_nanos(d: Decimal) -> (r: i128)
    ensures
        r == decimal_nanos(d),
{
    let m = d.mantissa as i128;
    if d.scale <= 9 {
        let f = pow10_i128(9 - d.scale);
        proof {
            lemma_pow10_pos((9 - d.scale) as nat);
            lemma_pow10_mono((9 - d.scale) as nat, 9);
            lemma_pow10_values();
            assert(-0x8000_0000_0000_0000 <= m <= 0x7fff_ffff_ffff_ffff);
            assert(-0x8000_0000_0000_0000 * 1000000000 <= m * f <= 0x7fff_ffff_ffff_ffff * 1000000000)
                by (nonlinear_arith)
                requires
                    -0x8000_0000_0000_0000 <= m <= 0x7fff_ffff_ffff_ffff,
                    1 <= f <= 1000000000,
            ;
        }
        m * f
    } else if d.scale > 28 {
        proof {
            lemma_pow10_mono(19, (d.scale - 9) as nat);
            lemma_pow10_values();
            let q = pow10((d.scale - 9) as nat);
            if m >= 0 {
                let mi = m as int;
                assert(mi / q == 0) by (nonlinear_arith)
                    requires
                        0 <= mi < q,
                ;
            } else {
                let mi = -(m as int);
                assert(mi / q == 0) by (nonlinear_arith)
                    requires
                        0 < mi < q,
                ;
            }
        }
        0
    } else {
        let q = pow10_i128(d.scale - 9);
        proof {
            lemma_pow10_pos((d.scale - 9) as nat);
        }
        if m >= 0 {
            m / q
        } else {
            -((-m) / q)
        }
    }
}

/// Copies of the values of `vs` from index `from` on.
fn copy_values_from(vs: &Vec<ScriptValue>, from: usize) -> (r: Vec<ScriptValue>)
    requires
        from <= vs.len(),
    ensures
        values_view(r@) == values_view(vs@).subrange(from as int, vs@.len() as int),
{
    let mut out: Vec<ScriptValue> = Vec::new();
    let mut i = from;
    while i < vs.len()
        invariant
            from <= i <= vs.len(),
            values_view(out@) == values_view(vs@).subrange(from as int, i as int),
        decreases vs.len() - i,
    {
        let v = vs[i].clone();
        let ghost before = values_view(out@);
        out.push(v);
        proof {
            assert(values_view(out@) =~= before.push(v@));
            assert(values_view(vs@).subrange(from as int, i + 1) =~= values_view(vs@).subrange(from as int, i as int).push(vs@[i as int]@));
        }
        i = i + 1;
    }
    out
}

/// A parser over the tokens of a script.
pub struct Parser {
    tokens: Vec<Token>,
    position: usize,
}

impl Parser {
    #[verifier::type_invariant]
    spec fn wf(&self) -> bool {
        self.position <= self.tokens.len()
    }

    /// The models of the tokens.
    pub closed spec fn toks(&self) -> Seq<TokenV> {
        tokens_view(self.tokens@)
    }

    /// The position of the next token to read.
    pub closed spec fn pos(&self) -> int {
        self.position as int
    }

    /// A parser at the start of `tokens`.
    pub fn new(tokens: Vec<Token>) -> (r: Parser)
        ensures
            r.toks() == tokens_view(tokens@),
            r.pos() == 0,
    {
        Parser { tokens, position: 0 }
    }

    /// Reads the whole script and returns the commands of each section.
    #[verifier::rlimit(80)]
    #[verifier::spinoff_prover]
    pub fn parse(&mut self) -> (r: Result<Vec<Vec<Command>>, String>)
        ensures
            final(self).toks() == old(self).toks(),
            match parse_sessions_from(old(self).toks(), old(self).pos(), Seq::empty(), Seq::empty()) {
                Ok(ss) => r matches Ok(x) && sessions_view(x@) == ss,
                Err(e) => r matches Err(m) && m@ == e,
            },
    {
        proof {
            use_type_invariant(&*self);
        }
        let ghost ts = self.toks();
        let ghost goal = parse_sessions_from(ts, self.pos(), Seq::empty(), Seq::empty());
        let mut sessions: Vec<Vec<Command>> = Vec::new();
        let mut current_session: Vec<Command> = Vec::new();
        proof {
            assert(sessions_view(sessions@) =~= Seq::<Seq<CommandV>>::empty());
            assert(commands_view(current_session@) =~= Seq::<CommandV>::empty());
        }
        loop
            invariant
                self.toks() == ts,
                ts == old(self).toks(),
                goal == parse_sessions_from(ts, old(self).pos(), Seq::empty(), Seq::empty()),
                goal == parse_sessions_from(ts, self.pos(), sessions_view(sessions@), commands_view(current_session@)),
            ensures
                self.toks() == ts,
                goal == Ok::<Seq<Seq<CommandV>>, Seq<char>>(close_section(sessions_view(sessions@), commands_view(current_session@))),
            decreases ts.len() - self.pos(),
        {
            proof {
                use_type_invariant(&*self);
            }
            let ghost p0 = self.pos();
            let ghost sv = sessions_view(sessions@);
            let ghost cv = commands_view(current_session@);
            proof {
                lemma_sessions_step(ts, p0, sv, cv);
            }
            if self.is_at_end() {
                break;
            }
            self.skip_line_breaks();
            let ghost p1 = self.pos();
            proof {
                lemma_sessions_step(ts, p1, sv, cv);
            }
            if self.is_at_end() {
                break;
            }
            if self.opens_section_here() {
                if current_session.len() > 0 {
                    sessions.push(current_session);
                    current_session = Vec::new();
                    proof {
                        assert(sessions_view(sessions@) =~= sv.push(cv));
                    }
                }
                proof {
                    assert(commands_view(current_session@) =~= Seq::<CommandV>::empty());
                }
                self.advance();
                self.advance();
                self.skip_line_breaks();
                proof {
                    lemma_skip_newlines(ts, p0);
                    lemma_skip_newlines(ts, p1 + 2);
                }
                continue;
            }
            match self.parse_command() {
                Ok(cmd) => {
                    current_session.push(cmd);
                    proof {
                        assert(commands_view(current_session@) =~= cv.push(cmd@));
                    }
                },
                Err(e) => {
                    let mut msg = String::from_str("Parse error at position ");
                    msg.append(u64_to_text(self.position as u64).as_str());
                    msg.append(": ");
                    msg.append(e.as_str());
                    return Err(msg);
                },
            }
            let ghost q = self.pos();
            self.skip_line_breaks();
            proof {
                lemma_skip_newlines(ts, p0);
                lemma_parse_command(ts, p1);
                lemma_skip_newlines(ts, q);
            }
        }
        if current_session.len() > 0 {
            sessions.push(current_session);
            proof {
                let cv = commands_view(current_session@);
                assert(sessions_view(sessions@) =~= sessions_view(sessions@.drop_last()).push(cv));
            }
        }
        Ok(sessions)
    }

    // --- the rules ---

    /// One command.
    fn parse_command(&mut self) -> (r: Result<Command, String>)
        ensures
            final(self).toks() == old(self).toks(),
            agrees_command(r, parse_command_spec(old(self).toks(), old(self).pos()), final(self).pos()),
    {
        proof {
            use_type_invariant(&*self);
        }
        if self.check(&Token::Ident(String::new())) {
            let first = self.current().clone();
            self.advance();
            if self.check(&Token::Equal) {
                self.advance();
                let var_name = match first {
                    Token::Ident(name) => name,
                    _ => return Err(String::from_str("Expected identifier before '='")),
                };
                return self.parse_assignment(var_name);
            } else {
                self.position = self.position - 1;
                return self.parse_call_or_set();
            }
        }
        self.parse_call_or_set()
    }

    /// The right side of an assignment to `var_name`.
    fn parse_assignment(&mut self, var_name: String) -> (r: Result<Command, String>)
        ensures
            final(self).toks() == old(self).toks(),
            agrees_command(r, parse_assignment_spec(old(self).toks(), old(self).pos(), var_name@), final(self).pos()),
    {
        proof {
            use_type_invariant(&*self);
        }
        let ghost ts = self.toks();
        let ghost p0 = self.pos();
        while self.check(&Token::Newline)
            invariant
                self.toks() == ts,
                p0 <= self.pos() <= ts.len(),
                skip_newlines(ts, self.pos()) == skip_newlines(ts, p0),
            decreases ts.len() - self.pos(),
        {
            self.advance();
        }
        let is_ident = match self.current() {
            Token::Ident(_) => true,
            _ => false,
        };
        if is_ident {
            let path = match self.parse_path() {
                Ok(p) => p,
                Err(e) => return Err(e),
            };
            let args = match self.parse_args() {
                Ok(a) => a,
                Err(e) => return Err(e),
            };
            Ok(Command::CommandAssignment { name: var_name, command: path, args })
        } else {
            match self.parse_value() {
                Ok(value) => Ok(Command::Assignment { name: var_name, value }),
                Err(e) => Err(e),
            }
        }
    }

    /// A call, a `set`/`once`/`wait`/`next` command, or a chain of them.
    fn parse_call_or_set(&mut self) -> (r: Result<Command, String>)
        ensures
            final(self).toks() == old(self).toks(),
            agrees_command(r, parse_call_or_set_spec(old(self).toks(), old(self).pos()), final(self).pos()),
    {
        proof {
            use_type_invariant(&*self);
        }
        let ghost ts = self.toks();
        let path = match self.parse_path() {
            Ok(p) => p,
            Err(e) => return Err(e),
        };
        let first = match self.command_from_path(path) {
            Ok(c) => c,
            Err(e) => return Err(e),
        };
        if !self.check(&Token::Arrow) {
            return Ok(first);
        }
        let ghost r0 = self.pos();
        let ghost goal = chain_rest(ts, r0, seq![first@]);
        let mut commands: Vec<Command> = Vec::new();
        commands.push(first);
        proof {
            assert(commands_view(commands@) =~= seq![commands@[0]@]);
        }
        assert(parse_call_or_set_spec(ts, old(self).pos()) == (match goal {
            Ok((cs, q)) => Ok((CommandV::Chain { commands: cs }, q)),
            Err(e) => Err(e),
        }));
        while self.check(&Token::Arrow)
            invariant
                self.toks() == ts,
                ts == old(self).toks(),
                self.pos() <= ts.len(),
                chain_rest(ts, self.pos(), commands_view(commands@)) == goal,
                parse_call_or_set_spec(ts, old(self).pos()) == (match goal {
                    Ok((cs, q)) => Ok((CommandV::Chain { commands: cs }, q)),
                    Err(e) => Err(e),
                }),
            decreases ts.len() - self.pos(),
        {
            proof {
                use_type_invariant(&*self);
            }
            let ghost p = self.pos();
            self.advance();
            let path = match self.parse_path() {
                Ok(p) => p,
                Err(e) => return Err(e),
            };
            let ghost q = self.pos();
            let ghost pv = path@;
            let cmd = match self.command_from_path(path) {
                Ok(c) => c,
                Err(e) => return Err(e),
            };
            let ghost before = commands_view(commands@);
            commands.push(cmd);
            proof {
                use_type_invariant(&*self);
                assert(commands_view(commands@) =~= before.push(cmd@));
                lemma_parse_path(ts, p + 1);
                lemma_command_from_path(ts, q, pv);
            }
        }
        let ghost cs = commands_view(commands@);
        let res = Command::Chain { commands };
        proof {
            assert(res@ is Chain);
            assert(res@->commands =~= cs);
        }
        Ok(res)
    }

    /// The command that the path `path`, already read, opens.
    fn command_from_path(&mut self, path: String) -> (r: Result<Command, String>)
        ensures
            final(self).toks() == old(self).toks(),
            agrees_command(r, command_from_path_spec(old(self).toks(), old(self).pos(), path@), final(self).pos()),
    {
        proof {
            use_type_invariant(&*self);
        }
        let name = string_chars(&path);
        if chars_equal(&name, &['w', 'a', 'i', 't']) {
            proof {
                assert(['w', 'a', 'i', 't']@ =~= word_wait());
            }
            return match self.parse_wait_condition() {
                Ok(condition) => Ok(Command::Wait { condition }),
                Err(e) => Err(e),
            };
        }
        proof {
            assert(['w', 'a', 'i', 't']@ =~= word_wait());
            assert(['o', 'n', 'c', 'e']@ =~= word_once());
            assert(['s', 'e', 't']@ =~= word_set());
            assert(['n', 'e', 'x', 't']@ =~= word_next());
        }
        let is_once = chars_equal(&name, &['o', 'n', 'c', 'e']);
        let is_set = chars_equal(&name, &['s', 'e', 't']);
        if is_once || is_set {
            let args = match self.parse_args() {
                Ok(a) => a,
                Err(e) => return Err(e),
            };
            if args.len() == 0 {
                if is_once {
                    return Err(String::from_str("once requires at least one argument"));
                } else {
                    return Err(String::from_str("set requires at least one argument"));
                }
            }
            let target_path = match &args[0] {
                ScriptValue::Expression(s) => s.clone(),
                _ => {
                    if is_once {
                        return Err(String::from_str("once first argument must be path expression"));
                    } else {
                        return Err(String::from_str("set first argument must be expression"));
                    }
                },
            };
            let rest_args = copy_values_from(&args, 1);
            proof {
                assert(values_view(rest_args@) =~= values_view(args@).subrange(1, args@.len() as int));
            }
            if is_once {
                return Ok(Command::Once { path: target_path, args: rest_args });
            } else {
                return Ok(Command::SetPath { path: target_path, args: rest_args });
            }
        }
        if chars_equal(&name, &['n', 'e', 'x', 't']) {
            let args = match self.parse_args() {
                Ok(a) => a,
                Err(e) => return Err(e),
            };
            if args.len() == 0 {
                return Err(String::from_str("next requires one integer target session id"));
            }
            let raw = match args[0].as_int() {
                Some(i) => i,
                None => return Err(String::from_str("next first argument should be an integer")),
            };
            if raw <= 0 {
                return Err(String::from_str("next target session id should be >= 1"));
            }
            return Ok(Command::Next { target: raw as usize });
        }
        match self.parse_args() {
            Ok(args) => Ok(Command::Call { path, args }),
            Err(e) => Err(e),
        }
    }

    /// A dotted path, optionally led by a dot.
    fn parse_path(&mut self) -> (r: Result<String, String>)
        ensures
            final(self).toks() == old(self).toks(),
            agrees_text(r, parse_path_spec(old(self).toks(), old(self).pos()), final(self).pos()),
    {
        proof {
            use_type_invariant(&*self);
        }
        let ghost ts = self.toks();
        if self.check(&Token::Dot) {
            self.advance();
        }
        let mut path = match self.current() {
            Token::Ident(ident) => ident.clone(),
            _ => {
                let mut msg = String::from_str("Expected identifier, got ");
                msg.append(self.current().text().as_str());
                return Err(msg);
            },
        };
        self.advance();
        let ghost goal = path_rest(ts, self.pos(), path@);
        assert(goal == parse_path_spec(ts, old(self).pos()));
        while self.check(&Token::Dot)
            invariant
                self.toks() == ts,
                ts == old(self).toks(),
                self.pos() <= ts.len(),
                path_rest(ts, self.pos(), path@) == goal,
                goal == parse_path_spec(ts, old(self).pos()),
            decreases ts.len() - self.pos(),
        {
            proof {
                use_type_invariant(&*self);
            }
            self.advance();
            let part = match self.current() {
                Token::Ident(ident) => ident.clone(),
                _ => {
                    let mut msg = String::from_str("Expected identifier after '.', got ");
                    msg.append(self.current().text().as_str());
                    return Err(msg);
                },
            };
            let ghost before = path@;
            push_char(&mut path, '.');
            path.append(part.as_str());
            proof {
                assert(path@ =~= before.push('.') + part@);
            }
            self.advance();
        }
        Ok(path)
    }

    /// What `wait` waits for.
    fn parse_wait_condition(&mut self) -> (r: Result<WaitCondition, String>)
        ensures
            final(self).toks() == old(self).toks(),
            agrees_wait(r, parse_wait_spec(old(self).toks(), old(self).pos()), final(self).pos()),
    {
        proof {
            use_type_invariant(&*self);
            assert(['c', 'l', 'i', 'c', 'k']@ =~= word_click());
        }
        let is_click = match self.current() {
            Token::Ident(ident) => chars_equal(&string_chars(ident), &['c', 'l', 'i', 'c', 'k']),
            _ => false,
        };
        if is_click {
            self.advance();
            return Ok(WaitCondition::Click);
        }
        let value = match self.parse_value() {
            Ok(v) => v,
            Err(e) => return Err(e),
        };
        match value {
            ScriptValue::Float(d) => Ok(WaitCondition::Time(decimal_to_nanos(d))),
            ScriptValue::Int(i) => Ok(WaitCondition::Time((i as i128) * NANOS_PER_SEC)),
            _ => Err(String::from_str("wait requires time value or 'click'")),
        }
    }

    /// The arguments of a command.
    fn parse_args(&mut self) -> (r: Result<Vec<ScriptValue>, String>)
        ensures
            final(self).toks() == old(self).toks(),
            agrees_args(r, parse_args_spec(old(self).toks(), old(self).pos()), final(self).pos()),
    {
        proof {
            use_type_invariant(&*self);
        }
        let ghost ts = self.toks();
        let mut args: Vec<ScriptValue> = Vec::new();
        if self.is_at_end() || self.check(&Token::Newline) || self.check(&Token::Arrow) {
            proof {
                assert(values_view(args@) =~= Seq::<ValueV>::empty());
            }
            return Ok(args);
        }
        let ghost goal = args_rest(ts, self.pos(), Seq::empty());
        proof {
            assert(values_view(args@) =~= Seq::<ValueV>::empty());
        }
        loop
            invariant
                self.toks() == ts,
                self.pos() <= ts.len(),
                args_rest(ts, self.pos(), values_view(args@)) == goal,
                goal == args_rest(ts, old(self).pos(), Seq::empty()),
                goal == parse_args_spec(ts, old(self).pos()),
                ts == old(self).toks(),
            decreases ts.len() - self.pos(),
        {
            proof {
                use_type_invariant(&*self);
            }
            let ghost p = self.pos();
            if self.check(&Token::Newline) || self.check(&Token::Arrow) {
                return Ok(args);
            }
            let v = match self.parse_value() {
                Ok(v) => v,
                Err(e) => return Err(e),
            };
            let ghost before = values_view(args@);
            args.push(v);
            proof {
                assert(values_view(args@) =~= before.push(v@));
                lemma_parse_value(ts, p);
            }
            if self.is_at_end() {
                return Ok(args);
            }
        }
    }

    /// One value.
    fn parse_value(&mut self) -> (r: Result<ScriptValue, String>)
        ensures
            final(self).toks() == old(self).toks(),
            agrees_value(r, parse_value_spec(old(self).toks(), old(self).pos()), final(self).pos()),
    {
        proof {
            use_type_invariant(&*self);
        }
        let ghost ts = self.toks();
        let t = self.current().clone();
        match t {
            Token::String(s) => {
                self.advance();
                Ok(ScriptValue::string(s))
            },
            Token::Int(i) => {
                self.advance();
                Ok(ScriptValue::integer(i))
            },
            Token::Float(f) => {
                self.advance();
                Ok(ScriptValue::float(f))
            },
            Token::Ident(ident) => {
                self.advance();
                let chars = string_chars(&ident);
                proof {
                    assert(['t', 'r', 'u', 'e']@ =~= word_true());
                    assert(['f', 'a', 'l', 's', 'e']@ =~= word_false());
                    assert(['n', 'i', 'l']@ =~= word_nil());
                }
                if chars_equal_any_case(&chars, &['t', 'r', 'u', 'e']) {
                    return Ok(ScriptValue::bool(true));
                }
                if chars_equal_any_case(&chars, &['f', 'a', 'l', 's', 'e']) {
                    return Ok(ScriptValue::bool(false));
                }
                if chars_equal_any_case(&chars, &['n', 'i', 'l']) {
                    return Ok(ScriptValue::nil());
                }
                let mut path = ident;
                let ghost goal = value_path_rest(ts, self.pos(), path@);
                assert(parse_value_spec(ts, old(self).pos()) == (match goal {
                    Ok((pa, q)) => Ok((ValueV::Expression(pa), q)),
                    Err(e) => Err(e),
                }));
                while self.check(&Token::Dot)
                    invariant
                        self.toks() == ts,
                        ts == old(self).toks(),
                        self.pos() <= ts.len(),
                        value_path_rest(ts, self.pos(), path@) == goal,
                        parse_value_spec(ts, old(self).pos()) == (match goal {
                            Ok((pa, q)) => Ok((ValueV::Expression(pa), q)),
                            Err(e) => Err(e),
                        }),
                    decreases ts.len() - self.pos(),
                {
                    proof {
                        use_type_invariant(&*self);
                    }
                    self.advance();
                    let part = match self.current() {
                        Token::Ident(part) => part.clone(),
                        _ => return Err(String::from_str("Expected identifier after '.'")),
                    };
                    let ghost before = path@;
                    push_char(&mut path, '.');
                    path.append(part.as_str());
                    proof {
                        assert(path@ =~= before.push('.') + part@);
                    }
                    self.advance();
                }
                Ok(ScriptValue::Expression(path))
            },
            _ => {
                let mut msg = String::from_str("Expected value, got ");
                msg.append(t.text().as_str());
                Err(msg)
            },
        }
    }

    // --- reading tokens ---

    /// Moves past line breaks.
    fn skip_line_breaks(&mut self)
        ensures
            final(self).toks() == old(self).toks(),
            final(self).pos() == skip_newlines(old(self).toks(), old(self).pos()),
    {
        proof {
            use_type_invariant(&*self);
        }
        let ghost ts = self.toks();
        let ghost p0 = self.pos();
        while self.check(&Token::Newline)
            invariant
                self.toks() == ts,
                ts == old(self).toks(),
                p0 == old(self).pos(),
                p0 <= self.pos() <= ts.len(),
                skip_newlines(ts, self.pos()) == skip_newlines(ts, p0),
            decreases ts.len() - self.pos(),
        {
            proof {
                use_type_invariant(&*self);
            }
            self.advance();
        }
    }

    /// Whether `#` and a number open a section here.
    fn opens_section_here(&self) -> (r: bool)
        ensures
            r == opens_section(self.toks(), self.pos()),
    {
        match self.peek() {
            Some(Token::Int(_)) => self.check(&Token::Session),
            _ => false,
        }
    }

    fn current(&self) -> (r: &Token)
        ensures
            r@ == tok(self.toks(), self.pos()),
    {
        if self.position < self.tokens.len() {
            &self.tokens[self.position]
        } else {
            &Token::Eof
        }
    }

    fn peek(&self) -> (r: Option<&Token>)
        ensures
            match r {
                Some(t) => 0 <= self.pos() + 1 < self.toks().len() && t@ == self.toks()[self.pos() + 1],
                None => !(0 <= self.pos() + 1 < self.toks().len()),
            },
    {
        if self.position < self.tokens.len() && self.position + 1 < self.tokens.len() {
            Some(&self.tokens[self.position + 1])
        } else {
            None
        }
    }

    fn check(&self, token: &Token) -> (r: bool)
        ensures
            r == same_kind(tok(self.toks(), self.pos()), token@),
    {
        match (self.current(), token) {
            (Token::Ident(_), Token::Ident(_)) => true,
            (Token::String(_), Token::String(_)) => true,
            (Token::Int(_), Token::Int(_)) => true,
            (Token::Float(_), Token::Float(_)) => true,
            (Token::Newline, Token::Newline) => true,
            (Token::Session, Token::Session) => true,
            (Token::Dot, Token::Dot) => true,
            (Token::Equal, Token::Equal) => true,
            (Token::Arrow, Token::Arrow) => true,
            (Token::Eof, Token::Eof) => true,
            _ => false,
        }
    }

    fn advance(&mut self)
        ensures
            final(self).toks() == old(self).toks(),
            final(self).pos() == step_pos(old(self).toks(), old(self).pos()),
    {
        proof {
            use_type_invariant(&*self);
        }
        if !self.is_at_end() {
            self.position = self.position + 1;
        }
    }

    fn is_at_end(&self) -> (r: bool)
        ensures
            r == at_end(self.toks(), self.pos()),
    {
        proof {
            use_type_invariant(self);
        }
        if self.position >= self.tokens.len() {
            true
        } else {
            match self.current() {
                Token::Eof => true,
                _ => false,
            }
        }
    }
}

/// A wait of a whole number of seconds lasts as long as the same number
/// written as a decimal: `wait n`, `wait n.0` and `wait n` written at
/// scale 0 read to the same wait, whatever else the tokens hold; and a
/// decimal at scale 9 counts nanoseconds, so `wait n` lasts `n` times a
/// billion of them.
pub proof fn integer_wait_is_whole_seconds(ts: Seq<TokenV>, p: int, n: i64, m: i64)
    requires
        0 <= p < ts.len(),
        -922337203685477580 <= n <= 922337203685477580,
    ensures
        parse_wait_spec(ts.update(p, TokenV::Int(n)), p) == parse_wait_spec(
            ts.update(p, TokenV::Float(Decimal { mantissa: (n * 10) as i64, scale: 1 })),
            p,
        ),
        parse_wait_spec(ts.update(p, TokenV::Int(n)), p) == parse_wait_spec(
            ts.update(p, TokenV::Float(Decimal { mantissa: n, scale: 0 })),
            p,
        ),
        seconds_nanos(ValueV::Float(Decimal { mantissa: m, scale: 9 })) == Some(m as int),
        seconds_nanos(ValueV::Int(n)) == Some(n * 1_000_000_000),
{
    reveal_with_fuel(crate::script::value::pow10, 10);
    let a = ts.update(p, TokenV::Int(n));
    let b = ts.update(p, TokenV::Float(Decimal { mantissa: (n * 10) as i64, scale: 1 }));
    let c = ts.update(p, TokenV::Float(Decimal { mantissa: n, scale: 0 }));
    assert(tok(a, p) == TokenV::Int(n));
    assert(tok(b, p) == TokenV::Float(Decimal { mantissa: (n * 10) as i64, scale: 1 }));
    assert(tok(c, p) == TokenV::Float(Decimal { mantissa: n, scale: 0 }));
    assert(crate::script::value::pow10(8) == 100_000_000);
    assert(crate::script::value::pow10(9) == 1_000_000_000);
    assert(crate::script::value::pow10(0) == 1);
}

} // verus!
