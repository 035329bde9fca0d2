use tmj::script::command_executor::{CommandExecutor, ExecuteStatus};
use tmj::script::value::{Command, WaitCondition};

fn seconds(nanos: i128) -> f64 {
    nanos as f64 / 1_000_000_000.0
}

fn nanos(secs: f64) -> u64 {
    (secs * 1_000_000_000.0) as u64
}

fn host(_c: &Command) -> Result<(), String> {
    Ok(())
}

#[test]
fn chain_resumes_after_wait_without_restarting() {
    let chain = Command::Chain {
        commands: vec![
            Command::Wait { condition: WaitCondition::Time(nanos(1.0) as i128) },
            Command::Wait { condition: WaitCondition::Time(nanos(2.0) as i128) },
        ],
    };
    let mut ex = CommandExecutor::new(chain);
    let ctx = host;

    assert!(matches!(
        ex.step(&ctx),
        ExecuteStatus::Waiting(WaitCondition::Time(t)) if (seconds(t) - 1.0).abs() < f64::EPSILON
    ));
    assert!(ex.is_held());

    assert!(ex.update(nanos(1.0)));
    assert!(matches!(
        ex.step(&ctx),
        ExecuteStatus::Waiting(WaitCondition::Time(t)) if (seconds(t) - 2.0).abs() < f64::EPSILON
    ));

    assert!(ex.update(nanos(2.0)));
    assert!(matches!(ex.step(&ctx), ExecuteStatus::Completed));
}

#[test]
fn standalone_wait_does_not_repeat_after_time_elapsed() {
    let mut ex = CommandExecutor::new(Command::Wait { condition: WaitCondition::Time(nanos(0.5) as i128) });
    let ctx = host;

    assert!(matches!(ex.step(&ctx), ExecuteStatus::Waiting(WaitCondition::Time(_))));
    assert!(ex.update(nanos(0.5)));
    assert!(matches!(ex.step(&ctx), ExecuteStatus::Completed));
}
