use tmj::script::session::ScriptParser;
use tmj::script::value::{Command, WaitCondition};

fn seconds(nanos: i128) -> f64 {
    nanos as f64 / 1_000_000_000.0
}

#[test]
fn chain_parses_wait_as_wait_command() {
    let cmds = ScriptParser::parse_session(r#"text "a" "b" -> wait 1.0 -> mc.say "c""#).expect("parse");

    assert_eq!(cmds.len(), 1);
    let Command::Chain { commands } = &cmds[0] else {
        panic!("expected Chain, got {:?}", cmds[0]);
    };
    assert_eq!(commands.len(), 3);
    assert!(matches!(&commands[0], Command::Call { path, .. } if path == "text"));
    assert!(matches!(
        &commands[1],
        Command::Wait {
            condition: WaitCondition::Time(t)
        } if (seconds(*t) - 1.0).abs() < f64::EPSILON
    ));
    assert!(matches!(&commands[2], Command::Call { path, .. } if path == "mc.say"));
}

#[test]
fn standalone_wait_still_works() {
    let cmds = ScriptParser::parse_session("wait 0.5").expect("parse");
    assert!(matches!(
        &cmds[0],
        Command::Wait {
            condition: WaitCondition::Time(t)
        } if (seconds(*t) - 0.5).abs() < f64::EPSILON
    ));
}
