use tmj::script::command_executor::ExecuteStatus;
use tmj::script::context::ScriptContext;
use tmj::script::table::Table;
use tmj::script_def::Character;
use tmj::script::value::{Command, ScriptValue, WaitCondition};

fn host(name: &str, _args: &[ScriptValue]) -> Result<ScriptValue, String> {
    match name {
        "fail" => Err("call failed".to_string()),
        _ => Ok(ScriptValue::Int(42)),
    }
}

fn ctx_with_table() -> ScriptContext {
    let mut ctx = ScriptContext::new();
    let id = ctx.tables.alloc_table_id();
    let mut t = Table::with_tuid(id);
    t.set("visible".to_string(), ScriptValue::Bool(true));
    ctx.tables.insert(t);
    ctx.set_global_val("frame", ScriptValue::TableHandle(id));
    ctx
}

fn no_character(_path: &str) -> Option<Character> {
    None
}

#[test]
fn set_writes_globals_and_fields() {
    let mut ctx = ctx_with_table();
    assert!(matches!(ctx.execute_set("x", &[ScriptValue::Int(5)], false), ExecuteStatus::Completed));
    assert!(matches!(ctx.get_global_val("x"), Some(ScriptValue::Int(5))));
    assert!(matches!(ctx.execute_set("frame.visible", &[ScriptValue::Bool(false)], false), ExecuteStatus::Completed));
    let id = match ctx.get_global_val("frame") {
        Some(ScriptValue::TableHandle(id)) => id,
        _ => panic!("frame"),
    };
    assert!(matches!(ctx.tables.table(id).unwrap().get_field("visible"), Some(ScriptValue::Bool(false))));
    assert!(ctx.once_records.is_empty());
}

#[test]
fn set_errors() {
    let mut ctx = ctx_with_table();
    assert!(matches!(ctx.execute_set("x", &[], false), ExecuteStatus::Error(e) if e == "set requires at least one argument"));
    assert!(matches!(ctx.execute_set("nope.f", &[ScriptValue::Nil], false), ExecuteStatus::Error(e) if e == "Global 'nope' not found"));
    ctx.set_global_val("n", ScriptValue::Int(3));
    assert!(matches!(ctx.execute_set("n.f", &[ScriptValue::Nil], false), ExecuteStatus::Error(e) if e == "Cannot set on Int(3)"));
    assert!(ctx.get_global_val("x").is_none());
}

#[test]
fn once_changes_are_reverted() {
    let mut ctx = ctx_with_table();
    ctx.set_global_val("speed", ScriptValue::Int(30));
    assert!(matches!(ctx.execute_set("speed", &[ScriptValue::Int(99)], true), ExecuteStatus::Completed));
    assert!(matches!(ctx.execute_set("fresh", &[ScriptValue::Int(1)], true), ExecuteStatus::Completed));
    assert!(matches!(ctx.execute_set("frame.visible", &[ScriptValue::Bool(false)], true), ExecuteStatus::Completed));
    assert_eq!(ctx.once_records.len(), 3);
    assert!(matches!(ctx.get_global_val("speed"), Some(ScriptValue::Int(99))));

    ctx.revert_once_records();
    assert!(ctx.once_records.is_empty());
    assert!(matches!(ctx.get_global_val("speed"), Some(ScriptValue::Int(30))));
    assert!(matches!(ctx.get_global_val("fresh"), Some(ScriptValue::Nil)));
    let id = match ctx.get_global_val("frame") {
        Some(ScriptValue::TableHandle(id)) => id,
        _ => panic!("frame"),
    };
    assert!(matches!(ctx.tables.table(id).unwrap().get_field("visible"), Some(ScriptValue::Bool(true))));
}

#[test]
fn commands_act_on_the_context() {
    let mut ctx = ScriptContext::new();
    let assign = Command::Assignment { name: "a".to_string(), value: ScriptValue::Bool(true) };
    assert!(matches!(ctx.execute_command(&assign, &host, &no_character), ExecuteStatus::Completed));
    assert!(matches!(ctx.get_global_val("a"), Some(ScriptValue::Bool(true))));

    ctx.set_global_val("f", ScriptValue::Function("f".to_string()));
    ctx.set_global_val("fail", ScriptValue::Function("fail".to_string()));
    let from_call = Command::CommandAssignment { name: "b".to_string(), command: "f".to_string(), args: vec![] };
    assert!(matches!(ctx.execute_command(&from_call, &host, &no_character), ExecuteStatus::Completed));
    assert!(matches!(ctx.get_global_val("b"), Some(ScriptValue::Int(42))));

    let fail = Command::Call { path: "fail".to_string(), args: vec![] };
    assert!(matches!(ctx.execute_command(&fail, &host, &no_character), ExecuteStatus::Error(e) if e == "call failed"));

    let next = Command::Next { target: 4 };
    assert!(matches!(ctx.execute_command(&next, &host, &no_character), ExecuteStatus::Completed));
    assert_eq!(ctx.next_session_target, Some(4));

    let wait = Command::Wait { condition: WaitCondition::Click };
    assert!(matches!(ctx.execute_command(&wait, &host, &no_character), ExecuteStatus::Waiting(WaitCondition::Click)));

    let chain = Command::Chain { commands: vec![] };
    assert!(matches!(
        ctx.execute_command(&chain, &host, &no_character),
        ExecuteStatus::Error(e) if e == "Chain must be executed via advance_chain"
    ));
    assert!(matches!(ctx.execute_command(&Command::Empty, &host, &no_character), ExecuteStatus::Completed));
}

#[test]
fn set_through_a_dangling_handle_fails() {
    let mut ctx = ScriptContext::new();
    ctx.set_global_val("ghost", ScriptValue::TableHandle(77));
    assert!(matches!(
        ctx.execute_set("ghost.f", &[ScriptValue::Int(1)], false),
        ExecuteStatus::Error(e) if e == "table handle not found: 77"
    ));
}

#[test]
fn assignment_from_a_plain_value_stores_it() {
    let mut ctx = ScriptContext::new();
    ctx.set_global_val("x", ScriptValue::Int(7));
    let cmd = Command::CommandAssignment { name: "y".to_string(), command: "x".to_string(), args: vec![] };
    assert!(matches!(ctx.execute_command(&cmd, &host, &no_character), ExecuteStatus::Completed));
    assert!(matches!(ctx.get_global_val("y"), Some(ScriptValue::Int(7))));
}

#[test]
fn unknown_commands_and_plain_calls_are_errors() {
    let mut ctx = ScriptContext::new();
    ctx.set_global_val("n", ScriptValue::Int(3));
    let call = Command::Call { path: "n".to_string(), args: vec![] };
    assert!(matches!(ctx.execute_command(&call, &host, &no_character), ExecuteStatus::Error(e) if e == "Int(3) is not a function"));
    let missing = Command::CommandAssignment { name: "y".to_string(), command: "nope".to_string(), args: vec![] };
    assert!(matches!(ctx.execute_command(&missing, &host, &no_character), ExecuteStatus::Error(e) if e == "Command 'nope' not found"));
    assert!(ctx.get_global_val("y").is_none());
    let missing_call = Command::Call { path: "nope.f".to_string(), args: vec![] };
    assert!(matches!(ctx.execute_command(&missing_call, &host, &no_character), ExecuteStatus::Error(e) if e == "Path 'nope.f' not found"));
}

#[test]
fn host_functions_get_their_name_and_arguments() {
    let mut ctx = ScriptContext::new();
    ctx.set_global_val("echo", ScriptValue::Function("echo".to_string()));
    let echo = |name: &str, args: &[ScriptValue]| -> Result<ScriptValue, String> {
        Ok(ScriptValue::String(format!("{}:{}", name, args.len())))
    };
    let cmd = Command::CommandAssignment {
        name: "r".to_string(),
        command: "echo".to_string(),
        args: vec![ScriptValue::Int(1), ScriptValue::Int(2)],
    };
    assert!(matches!(ctx.execute_command(&cmd, &echo, &no_character), ExecuteStatus::Completed));
    assert!(matches!(ctx.get_global_val("r"), Some(ScriptValue::String(s)) if s == "echo:2"));
}
