//! Reading the text of a section into commands.
use vstd::prelude::*;
use crate::script::lexer::{lex, tokenize};
use crate::script::parser::{Parser, parse_sessions};
use crate::script::value::{Command, CommandV, commands_view, sessions_view};

verus! {

/// The commands of a section text: the commands of all its sections in
/// order, or the message of the first lexical or parse error.
pub open spec fn parse_session_spec(text: Seq<char>) -> Result<Seq<CommandV>, Seq<char>> {
    match lex(text) {
        Err(e) => Err(e),
        Ok(ts) => match parse_sessions(ts) {
            Err(e) => Err(e),
            Ok(ss) => Ok(ss.flatten()),
        },
    }
}

/// The sections of a script text, or the message of the first lexical or
/// parse error.
pub open spec fn parse_script_spec(text: Seq<char>) -> Result<Seq<Seq<CommandV>>, Seq<char>> {
    match lex(text) {
        Err(e) => Err(e),
        Ok(ts) => parse_sessions(ts),
    }
}

/// Reads script text: the lexer, then the parser.
pub struct ScriptParser;

impl ScriptParser {
    /// The commands of each section of a script.
    pub fn parse_script(text: &str) -> (r: Result<Vec<Vec<Command>>, String>)
        ensures
            match parse_script_spec(text@) {
                Ok(ss) => r matches Ok(x) && sessions_view(x@) == ss,
                Err(e) => r matches Err(m) && m@ == e,
            },
    {
        let tokens = match tokenize(text) {
            Ok(t) => t,
            Err(e) => return Err(e),
        };
        let mut parser = Parser::new(tokens);
        parser.parse()
    }

    /// The commands of a section text, in order.
    pub fn parse_session(text: &str) -> (r: Result<Vec<Command>, String>)
        ensures
            match parse_session_spec(text@) {
                Ok(cs) => r matches Ok(x) && commands_view(x@) == cs,
                Err(e) => r matches Err(m) && m@ == e,
            },
    {
        let mut sessions = match Self::parse_script(text) {
            Ok(s) => s,
            Err(e) => return Err(e),
        };
        let ghost target = sessions_view(sessions@).flatten();
        let mut out: Vec<Command> = Vec::new();
        proof {
            assert(commands_view(out@) =~= Seq::<CommandV>::empty());
        }
        while sessions.len() > 0
            invariant
                commands_view(out@) + sessions_view(sessions@).flatten() == target,
            decreases sessions.len(),
        {
            let ghost sv = sessions_view(sessions@);
            let ghost before = commands_view(out@);
            let mut part = sessions.remove(0);
            proof {
                assert(sv.first() == commands_view(part@));
                assert(sessions_view(sessions@) =~= sv.drop_first());
            }
            let ghost pv = commands_view(part@);
            out.append(&mut part);
            proof {
                assert(commands_view(out@) =~= before + pv);
                assert(before + sv.flatten() == before + (pv + sv.drop_first().flatten()));
                assert(before + (pv + sv.drop_first().flatten()) =~= (before + pv)
                    + sv.drop_first().flatten());
            }
        }
        proof {
            assert(sessions_view(sessions@) =~= Seq::<Seq<CommandV>>::empty());
            assert(commands_view(out@) + Seq::<CommandV>::empty() =~= commands_view(out@));
        }
        Ok(out)
    }
}

} // verus!
