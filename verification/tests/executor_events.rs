use tmj::script::command_executor::{CommandExecutor, ExecuteStatus};
use tmj::script::value::{Command, InputEvent, ScriptValue, WaitCondition};

fn ok_host(_c: &Command) -> Result<(), String> {
    Ok(())
}

fn failing_host(c: &Command) -> Result<(), String> {
    match c {
        Command::Call { path, .. } => Err(format!("no {}", path)),
        _ => Ok(()),
    }
}

#[test]
fn click_wait_resumes_on_click_only() {
    let mut ex = CommandExecutor::new(Command::Wait { condition: WaitCondition::Click });
    assert!(matches!(ex.step(&ok_host), ExecuteStatus::Waiting(WaitCondition::Click)));
    assert!(ex.is_waiting());
    assert!(!ex.handle_event(&InputEvent::Key('x')));
    assert!(!ex.update(1_000_000_000));
    assert!(ex.handle_event(&InputEvent::Click));
    assert!(ex.is_completed());
    assert!(matches!(ex.step(&ok_host), ExecuteStatus::Completed));
}

#[test]
fn any_wait_resumes_on_any_of_its_conditions() {
    let cond = WaitCondition::Any(vec![WaitCondition::Input("yes".to_string()), WaitCondition::Click]);
    let mut ex = CommandExecutor::new(Command::Wait { condition: cond });
    assert!(ex.is_blocking());
    ex.step(&ok_host);
    assert!(!ex.handle_event(&InputEvent::Text("no".to_string())));
    assert!(ex.handle_event(&InputEvent::Text("yes".to_string())));
}

#[test]
fn skipping_shortens_waits() {
    let mut ex = CommandExecutor::new(Command::Wait { condition: WaitCondition::Time(5_000_000_000) });
    ex.step(&ok_host);
    assert_eq!(ex.remaining_time(), Some(5_000_000_000));
    assert!(ex.skip_wait_with_buffer(100));
    assert_eq!(ex.remaining_time(), Some(100));
    assert!(!ex.update(50));
    assert_eq!(ex.remaining_time(), Some(50));
    assert!(ex.update(50));

    let mut click = CommandExecutor::new(Command::Wait { condition: WaitCondition::Click });
    click.step(&ok_host);
    assert!(click.skip_wait_with_buffer(16));
    assert!(matches!(click.wait_condition(), Some(WaitCondition::Time(16))));
    assert!(click.update(16));

    let mut none = CommandExecutor::new(Command::Empty);
    assert!(!none.skip_wait_with_buffer(16));
}

#[test]
fn chain_stops_at_a_failing_step() {
    let chain = Command::Chain {
        commands: vec![
            Command::Assignment { name: "a".to_string(), value: ScriptValue::Int(1) },
            Command::Call { path: "boom".to_string(), args: vec![] },
            Command::Wait { condition: WaitCondition::Click },
        ],
    };
    let mut ex = CommandExecutor::new(chain);
    assert!(ex.is_blocking());
    assert!(matches!(ex.step(&failing_host), ExecuteStatus::Error(e) if e == "no boom"));
    assert!(matches!(ex.step(&failing_host), ExecuteStatus::Error(e) if e == "no boom"));
    assert!(!ex.is_waiting());
}

#[test]
fn chain_waits_for_a_click_inside() {
    let chain = Command::Chain {
        commands: vec![
            Command::Call { path: "a".to_string(), args: vec![] },
            Command::Wait { condition: WaitCondition::Click },
            Command::Call { path: "b".to_string(), args: vec![] },
        ],
    };
    let mut ex = CommandExecutor::new(chain);
    assert!(matches!(ex.step(&ok_host), ExecuteStatus::Waiting(WaitCondition::Click)));
    assert!(ex.is_waiting());
    assert!(ex.wait_condition().is_none());
    assert!(matches!(ex.step(&ok_host), ExecuteStatus::Waiting(WaitCondition::Click)));
    assert!(ex.handle_event(&InputEvent::Click));
    assert!(!ex.is_waiting());
    assert!(matches!(ex.step(&ok_host), ExecuteStatus::Completed));
    assert!(ex.is_completed());
}

#[test]
fn non_waiting_commands_do_not_block() {
    let ex = CommandExecutor::new(Command::Call { path: "x".to_string(), args: vec![] });
    assert!(!ex.is_blocking());
}

#[test]
fn skipped_click_wait_becomes_a_time_wait() {
    let mut click = CommandExecutor::new(Command::Wait { condition: WaitCondition::Click });
    assert_eq!(click.remaining_time(), None);
    click.step(&ok_host);
    assert_eq!(click.remaining_time(), None);
    assert!(click.skip_wait_with_buffer(40));
    assert!(matches!(click.wait_condition(), Some(WaitCondition::Time(40))));
    assert_eq!(click.remaining_time(), Some(40));
}

#[test]
fn updates_count_a_time_wait_down() {
    let mut ex = CommandExecutor::new(Command::Wait { condition: WaitCondition::Time(100) });
    ex.step(&ok_host);
    assert!(!ex.update(30));
    assert_eq!(ex.remaining_time(), Some(70));
    assert!(!ex.update(69));
    assert_eq!(ex.remaining_time(), Some(1));
    assert!(ex.update(5));
    assert!(ex.is_completed());
    assert!(!ex.update(5));
    assert!(ex.is_completed());
    assert_eq!(ex.remaining_time(), None);
}
