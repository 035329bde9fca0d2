use tmj::args::{
    parse_arg, parse_member, parse_required_arg, parse_required_member, parse_required_table_field,
    parse_table_field, ArgError,
};
use tmj::script::table::{Table, TableStore};
use tmj::script::value::ScriptValue;

fn as_int(v: &ScriptValue) -> Option<i64> {
    v.as_int()
}

#[test]
fn parse_arg_falls_back_to_the_default() {
    let args = vec![ScriptValue::Int(4), ScriptValue::String("x".to_string())];
    assert_eq!(parse_arg(&args, 0, 7, as_int), 4);
    assert_eq!(parse_arg(&args, 1, 7, as_int), 7);
    assert_eq!(parse_arg(&args, 2, 7, as_int), 7);
}

#[test]
fn parse_required_arg_reports_missing_and_invalid() {
    let args = vec![ScriptValue::Int(4), ScriptValue::Bool(true)];
    assert_eq!(parse_required_arg(&args, 0, as_int).unwrap(), 4);
    match parse_required_arg(&args, 1, as_int) {
        Err(ArgError::InvalidArg { index, raw }) => {
            assert_eq!(index, 1);
            assert!(matches!(raw, ScriptValue::Bool(true)));
        }
        other => panic!("unexpected {:?}", other),
    }
    assert!(matches!(parse_required_arg(&args, 5, as_int), Err(ArgError::MissingArg { index: 5 })));
}

#[test]
fn members_of_a_table() {
    let mut t = Table::with_tuid(1);
    t.set("z".to_string(), ScriptValue::Int(200));
    t.set("s".to_string(), ScriptValue::String("q".to_string()));
    assert_eq!(parse_member(&t, "z", 0, as_int), 200);
    assert_eq!(parse_member(&t, "s", 0, as_int), 0);
    assert_eq!(parse_member(&t, "none", 5, as_int), 5);
    assert_eq!(parse_required_member(&t, "z", as_int).unwrap(), 200);
    assert!(matches!(
        parse_required_member(&t, "none", as_int),
        Err(ArgError::MissingMember { key }) if key == "none"
    ));
    assert!(matches!(
        parse_required_member(&t, "s", as_int),
        Err(ArgError::InvalidMember { key, .. }) if key == "s"
    ));
}

#[test]
fn fields_by_dotted_path() {
    let mut store = TableStore::new();
    let id = store.alloc_table_id();
    let mut pos = Table::with_tuid(id);
    pos.set("x".to_string(), ScriptValue::Int(12));
    store.insert(pos);
    let mut t = Table::with_tuid(store.alloc_table_id());
    t.set("pos".to_string(), ScriptValue::TableHandle(id));
    assert_eq!(parse_table_field(&t, "pos.x", Some(&store), 0, as_int), 12);
    assert_eq!(parse_table_field(&t, "pos.x", None, -1, as_int), -1);
    assert_eq!(parse_required_table_field(&t, "pos.x", Some(&store), as_int).unwrap(), 12);
    assert!(matches!(
        parse_required_table_field(&t, "pos.y", Some(&store), as_int),
        Err(ArgError::MissingField { key }) if key == "pos.y"
    ));
    assert!(matches!(
        parse_required_table_field(&t, "pos", Some(&store), as_int),
        Err(ArgError::InvalidField { key, raw: ScriptValue::TableHandle(_) }) if key == "pos"
    ));
}

#[test]
fn error_messages_name_the_position_or_key_and_the_value() {
    let args = vec![ScriptValue::Bool(true)];
    assert_eq!(parse_required_arg(&args, 3, as_int).unwrap_err().message(), "missing required arg at index 3");
    assert_eq!(
        parse_required_arg(&args, 0, as_int).unwrap_err().message(),
        "failed to parse required arg[0], raw=Bool(true)"
    );
    let mut t = Table::with_tuid(1);
    t.set("s".to_string(), ScriptValue::String("q".to_string()));
    assert_eq!(
        parse_required_member(&t, "none", as_int).unwrap_err().message(),
        "missing required table member [none]"
    );
    assert_eq!(
        parse_required_member(&t, "s", as_int).unwrap_err().message(),
        "failed to parse table[s], raw=String(\"q\")"
    );
    assert_eq!(
        parse_required_table_field(&t, "a.b", None, as_int).unwrap_err().message(),
        "missing required table field [a.b]"
    );
    assert_eq!(
        parse_required_table_field(&t, "s", None, as_int).unwrap_err().message(),
        "failed to parse table field[s], raw=String(\"q\")"
    );
}
