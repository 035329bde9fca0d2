use tmj::script::context::value_to_text;
use tmj::script::lexer::{decimal_to_text, tokenize, Token};
use tmj::script::session::ScriptParser;
use tmj::script::value::{Command, Decimal, ScriptValue, WaitCondition};

#[test]
fn tokens_of_a_line() {
    let ts = tokenize("x = -3 \"a\\nb\" 2.50").unwrap();
    assert!(matches!(&ts[0], Token::Ident(s) if s == "x"));
    assert!(matches!(&ts[1], Token::Equal));
    assert!(matches!(&ts[2], Token::Int(-3)));
    assert!(matches!(&ts[3], Token::String(s) if s == "a\nb"));
    assert!(matches!(&ts[4], Token::Float(Decimal { mantissa: 250, scale: 2 })));
    assert!(matches!(ts.last(), Some(Token::Eof)));
}

#[test]
fn lexical_errors() {
    assert_eq!(tokenize("\"open").unwrap_err(), "unterminated string literal");
    assert_eq!(tokenize("a ?").unwrap_err(), "Unexpected character '?' at 2");
    assert_eq!(tokenize("99999999999999999999").unwrap_err(), "integer literal out of range");
}

#[test]
fn sections_and_commands() {
    let sessions = ScriptParser::parse_script("#1\nset bg.m_image \"a.png\"\n#2\nnext 3\nspeed = 20\n").unwrap();
    assert_eq!(sessions.len(), 2);
    assert!(matches!(&sessions[0][0], Command::SetPath { path, args } if path == "bg.m_image" && args.len() == 1));
    assert!(matches!(&sessions[1][0], Command::Next { target: 3 }));
    assert!(matches!(&sessions[1][1], Command::Assignment { name, value: ScriptValue::Int(20) } if name == "speed"));
    let flat = ScriptParser::parse_session("#1\nwait click\n#2\nonce a 1\n").unwrap();
    assert!(matches!(&flat[0], Command::Wait { condition: WaitCondition::Click }));
    assert!(matches!(&flat[1], Command::Once { path, .. } if path == "a"));
}

#[test]
fn parse_errors_name_the_position() {
    let e = ScriptParser::parse_session("next 0").unwrap_err();
    assert!(e.starts_with("Parse error at position "), "{}", e);
    assert!(e.ends_with("next target session id should be >= 1"), "{}", e);
    let e = ScriptParser::parse_session("set").unwrap_err();
    assert!(e.ends_with("set requires at least one argument"), "{}", e);
    let e = ScriptParser::parse_session("wait true").unwrap_err();
    assert!(e.ends_with("wait requires time value or 'click'"), "{}", e);
    let e = ScriptParser::parse_session("wait").unwrap_err();
    assert!(e.ends_with("Expected value, got Eof"), "{}", e);
}

#[test]
fn decimals_are_shown_as_numbers() {
    assert_eq!(decimal_to_text(Decimal { mantissa: 15, scale: 1 }), "1.5");
    assert_eq!(decimal_to_text(Decimal { mantissa: 2, scale: 0 }), "2.0");
    assert_eq!(decimal_to_text(Decimal { mantissa: 5, scale: 2 }), "0.05");
    assert_eq!(decimal_to_text(Decimal { mantissa: -250, scale: 2 }), "-2.5");
    assert_eq!(decimal_to_text(Decimal { mantissa: 100, scale: 2 }), "1.0");
    assert_eq!(value_to_text(&ScriptValue::Float(Decimal { mantissa: 15, scale: 1 })), "Float(1.5)");
}
