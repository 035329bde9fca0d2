//! Running one command over frames: waits, chains and their resumption.
use vstd::prelude::*;
use crate::script::value::{
    Command, CommandV, CommandBlockType, InputEvent, WaitCondition, WaitV, block_type_of,
    commands_view,
};

verus! {

// ---------------------------------------------------------------------------
// Chains as the list of their simple steps.

/// The simple commands that a command runs, in order: a chain stands for
/// the steps of its commands, one after another; any other command for
/// itself.
pub open spec fn flat_steps(c: CommandV) -> Seq<CommandV>
    decreases c, 0nat,
{
    match c {
        CommandV::Chain { commands } => flat_list(commands, commands.len()),
        _ => seq![c],
    }
}

/// The steps of the first `n` commands of `cs`.
pub open spec fn flat_list(cs: Seq<CommandV>, n: nat) -> Seq<CommandV>
    decreases cs, n + 1,
{
    if n == 0 || n > cs.len() {
        Seq::empty()
    } else {
        flat_list(cs, (n - 1) as nat) + flat_steps(cs[n - 1])
    }
}

pub proof fn lemma_flat_steps_simple(c: CommandV)
    ensures
        forall|k: int| 0 <= k < flat_steps(c).len() ==> !(#[trigger] flat_steps(c)[k] is Chain),
    decreases c, 0nat,
{
    if let CommandV::Chain { commands } = c {
        lemma_flat_list_simple(commands, commands.len());
    }
}

pub proof fn lemma_flat_list_simple(cs: Seq<CommandV>, n: nat)
    ensures
        forall|k: int| 0 <= k < flat_list(cs, n).len() ==> !(#[trigger] flat_list(cs, n)[k] is Chain),
    decreases cs, n + 1,
{
    if !(n == 0 || n > cs.len()) {
        lemma_flat_list_simple(cs, (n - 1) as nat);
        lemma_flat_steps_simple(cs[n - 1]);
        let a = flat_list(cs, (n - 1) as nat);
        let b = flat_steps(cs[n - 1]);
        assert forall|k: int| 0 <= k < (a + b).len() implies !(#[trigger] (a + b)[k] is Chain) by {
            if k < a.len() {
                assert((a + b)[k] == a[k]);
            } else {
                assert((a + b)[k] == b[k - a.len()]);
            }
        }
    }
}

/// Appends the steps of `c` to `out`.
fn push_steps(c: &Command, out: &mut Vec<Command>)
    ensures
        commands_view(final(out)@) == commands_view(old(out)@) + flat_steps(c@),
    decreases c,
{
    match c {
        Command::Chain { commands } => {
            let ghost start = commands_view(out@);
            let ghost cs = c@->Chain_commands;
            let mut i: usize = 0;
            proof {
                assert(start + flat_list(cs, 0) =~= start);
            }
            while i < commands.len()
                invariant
                    i <= commands.len(),
                    *c == (Command::Chain { commands: *commands }),
                    cs == c@->Chain_commands,
                    cs.len() == commands@.len(),
                    commands_view(out@) == start + flat_list(cs, i as nat),
                decreases commands.len() - i,
            {
                proof {
                    assert(decreases_to!(*c => c->commands));
                    assert(decreases_to!(*c => (c->commands)@));
                    assert(decreases_to!(*c => (c->commands)@[i as int]));
                    assert(cs[i as int] == commands@[i as int]@);
                }
                push_steps(&commands[i], out);
                proof {
                    assert(flat_list(cs, (i + 1) as nat) == flat_list(cs, i as nat) + flat_steps(
                        cs[i as int],
                    ));
                    assert(start + flat_list(cs, i as nat) + flat_steps(cs[i as int]) =~= start
                        + flat_list(cs, (i + 1) as nat));
                }
                i = i + 1;
            }
        },
        _ => {
            let ghost before = commands_view(out@);
            out.push(c.duplicate());
            proof {
                assert(commands_view(out@) =~= before + seq![c@]);
            }
        },
    }
}

// ---------------------------------------------------------------------------
// Status and state

/// What a step reports.
#[derive(Debug)]
pub enum ExecuteStatus {
    Completed,
    Waiting(WaitCondition),
    Error(String),
}

/// The model of an [`ExecuteStatus`].
pub enum StatusV {
    Completed,
    Waiting(WaitV),
    Error(Seq<char>),
}

impl View for ExecuteStatus {
    type V = StatusV;

    open spec fn view(&self) -> StatusV {
        match self {
            ExecuteStatus::Completed => StatusV::Completed,
            ExecuteStatus::Waiting(w) => StatusV::Waiting(w@),
            ExecuteStatus::Error(e) => StatusV::Error(e@),
        }
    }
}

enum ExecutorState {
    Ready,
    Waiting(WaitCondition),
    Completed,
    Error(String),
}

/// The phase of an executor.
pub enum Phase {
    Ready,
    Waiting(WaitV),
    Completed,
    Error(Seq<char>),
}

spec fn state_view(s: ExecutorState) -> Phase {
    match s {
        ExecutorState::Ready => Phase::Ready,
        ExecutorState::Waiting(w) => Phase::Waiting(w@),
        ExecutorState::Completed => Phase::Completed,
        ExecutorState::Error(e) => Phase::Error(e@),
    }
}

/// Whether a simple command is run through the script host: anything but
/// a wait, an empty command or a chain.
pub open spec fn is_run(c: CommandV) -> bool {
    !(c is Wait) && !(c is Empty) && !(c is Chain)
}

/// The remaining time a fresh wait on `w` starts with.
pub open spec fn initial_remaining(w: WaitV) -> Option<i128> {
    match w {
        WaitV::Time(t) => Some(t),
        _ => None,
    }
}

/// Whether `ev` ends a wait on the simple condition `w`.
pub open spec fn event_fits(w: WaitV, ev: InputEvent) -> bool {
    match w {
        WaitV::Click => ev is Click,
        WaitV::Input(s) => ev matches InputEvent::Text(t) && t@ == s,
        _ => false,
    }
}

/// Whether `ev` ends a wait on `w`: a click ends a wait for a click, the
/// expected text ends a wait for input, and any of the simple conditions
/// of an `Any` ends it; nothing ends a wait for time.
pub open spec fn event_resumes(w: WaitV, ev: InputEvent) -> bool {
    match w {
        WaitV::Any(cs) => exists|i: int| 0 <= i < cs.len() && event_fits(#[trigger] cs[i], ev),
        _ => event_fits(w, ev),
    }
}

/// Runs one command over successive frames.
///
/// A command runs when it is stepped. A `wait` leaves it waiting until
/// enough time has passed ([`CommandExecutor::update`]) or a fitting input
/// arrives ([`CommandExecutor::handle_event`]); the next step then reports
/// it completed. A chain runs its steps in order and, after a wait inside
/// it, goes on with the step after the wait: what ran before is not run
/// again.
pub struct CommandExecutor {
    command: Command,
    block_type: CommandBlockType,
    state: ExecutorState,
    /// The time a time wait still has to run, in nanoseconds.
    time_remaining: Option<i128>,
    /// For a chain: the next step to run.
    chain_index: usize,
    /// For a chain: the executor of the wait that it is held at.
    chain_sub: Option<Box<CommandExecutor>>,
    /// For a chain: its simple steps.
    steps: Vec<Command>,
}

/// What holds of the executor of a simple command.
spec fn simple_ok(e: CommandExecutor) -> bool {
    &&& !(e.command is Chain)
    &&& e.chain_sub is None
    &&& e.chain_index == 0
    &&& e.block_type == block_type_of(e.command@)
    &&& (e.state matches ExecutorState::Waiting(WaitCondition::Time(_))) ==> e.time_remaining is Some
    &&& e.state is Waiting ==> e.command is Wait
}

impl CommandExecutor {
    /// The executor's well-formedness.
    pub closed spec fn wf(&self) -> bool {
        &&& self.block_type == block_type_of(self.command@)
        &&& if self.command is Chain {
            &&& commands_view(self.steps@) == flat_steps(self.command@)
            &&& self.chain_index <= self.steps.len()
            &&& !(self.state is Waiting)
            &&& match self.chain_sub {
                Some(sub) => {
                    &&& simple_ok(*sub)
                    &&& self.state is Ready
                    &&& self.chain_index < self.steps.len()
                    &&& sub.command@ == self.steps@[self.chain_index as int]@
                    &&& sub.command is Wait
                    &&& (sub.state is Waiting || sub.state is Completed)
                },
                None => true,
            }
        } else {
            simple_ok(*self)
        }
    }

    /// The command being run.
    pub closed spec fn command_model(&self) -> CommandV {
        self.command@
    }

    /// The executor's own phase.
    pub closed spec fn phase(&self) -> Phase {
        state_view(self.state)
    }

    /// For a chain: its simple steps.
    pub closed spec fn steps(&self) -> Seq<Command> {
        self.steps@
    }

    /// For a chain: the next step to run, or the one it waits at.
    pub closed spec fn chain_pos(&self) -> int {
        self.chain_index as int
    }

    /// For a chain: whether it is held at a wait (finished or not).
    pub closed spec fn held(&self) -> bool {
        self.chain_sub is Some
    }

    /// What the executor waits for now: its own wait, or that of the step a
    /// chain is held at.
    pub closed spec fn current_wait(&self) -> Option<WaitV> {
        match self.chain_sub {
            Some(sub) => match sub.state {
                ExecutorState::Waiting(w) => Some(w@),
                _ => None,
            },
            None => match self.state {
                ExecutorState::Waiting(w) => Some(w@),
                _ => None,
            },
        }
    }

    /// The time the current wait still has to run, when it waits for time.
    pub closed spec fn remaining(&self) -> Option<i128> {
        match self.chain_sub {
            Some(sub) => match sub.state {
                ExecutorState::Waiting(WaitCondition::Time(_)) => sub.time_remaining,
                _ => None,
            },
            None => match self.state {
                ExecutorState::Waiting(WaitCondition::Time(_)) => self.time_remaining,
                _ => None,
            },
        }
    }

    /// The command being run, as a value.
    pub closed spec fn command_value(&self) -> Command {
        self.command
    }

    /// An executor, ready, for `command`.
    pub fn new(command: Command) -> (r: CommandExecutor)
        ensures
            r.wf(),
            r.command_model() == command@,
            r.phase() is Ready,
            r.chain_pos() == 0,
            !r.held(),
            r.current_wait() is None,
            commands_view(r.steps()) == (if command@ is Chain {
                flat_steps(command@)
            } else {
                Seq::empty()
            }),
    {
        let block_type = command.block_type();
        let mut steps: Vec<Command> = Vec::new();
        if let Command::Chain { .. } = &command {
            push_steps(&command, &mut steps);
            proof {
                assert(commands_view(Seq::<Command>::empty()) =~= Seq::<CommandV>::empty());
                assert(Seq::<CommandV>::empty() + flat_steps(command@) =~= flat_steps(command@));
            }
        } else {
            proof {
                assert(commands_view(steps@) =~= Seq::<CommandV>::empty());
            }
        }
        CommandExecutor {
            command,
            block_type,
            state: ExecutorState::Ready,
            time_remaining: None,
            chain_index: 0,
            chain_sub: None,
            steps,
        }
    }
}

/// Whether every step of `steps` from `from` up to `to` ran through: none
/// is a wait, and each that the host runs reported success.
pub open spec fn ran_ok<F: Fn(&Command) -> Result<(), String>>(
    run: F,
    steps: Seq<Command>,
    from: int,
    to: int,
) -> bool {
    forall|k: int|
        from <= k < to ==> !(#[trigger] steps[k]@ is Wait) && (is_run(steps[k]@) ==> call_ensures(
            run,
            (&steps[k],),
            Ok::<(), String>(()),
        ))
}

impl CommandExecutor {
    /// Runs the simple command of a ready executor.
    fn execute_simple<F: Fn(&Command) -> Result<(), String>>(&mut self, run: &F) -> (r: ExecuteStatus)
        requires
            simple_ok(*old(self)),
            old(self).state is Ready,
            forall|c: &Command| call_requires(*run, (c,)),
        ensures
            simple_ok(*final(self)),
            final(self).command == old(self).command,
            final(self).steps == old(self).steps,
            match old(self).command@ {
                CommandV::Wait { condition: w } => {
                    &&& r@ == StatusV::Waiting(w)
                    &&& final(self).phase() == Phase::Waiting(w)
                    &&& final(self).remaining() == initial_remaining(w)
                },
                CommandV::Empty => r is Completed && final(self).phase() is Completed,
                _ => {
                    ||| r is Completed && final(self).phase() is Completed && call_ensures(
                        *run,
                        (&old(self).command,),
                        Ok::<(), String>(()),
                    )
                    ||| r matches ExecuteStatus::Error(e) && final(self).phase() == Phase::Error(e@)
                        && call_ensures(*run, (&old(self).command,), Err::<(), String>(e))
                },
            },
    {
        let result = match &self.command {
            Command::Wait { condition } => ExecuteStatus::Waiting(condition.duplicate()),
            Command::Empty => ExecuteStatus::Completed,
            Command::Chain { .. } => ExecuteStatus::Error(
                String::from_str("Chain must be executed via advance_chain"),
            ),
            _ => {
                let outcome = run(&self.command);
                match outcome {
                    Ok(u) => {
                        assert(outcome == Ok::<(), String>(()));
                        ExecuteStatus::Completed
                    },
                    Err(e) => ExecuteStatus::Error(e),
                }
            },
        };
        match &result {
            ExecuteStatus::Waiting(WaitCondition::Time(total)) => {
                self.time_remaining = Some(*total);
                self.state = ExecutorState::Waiting(WaitCondition::Time(*total));
            },
            ExecuteStatus::Waiting(condition) => {
                self.state = ExecutorState::Waiting(condition.duplicate());
            },
            ExecuteStatus::Completed => {
                self.state = ExecutorState::Completed;
            },
            ExecuteStatus::Error(e) => {
                self.state = ExecutorState::Error(e.clone());
            },
        }
        result
    }

    /// One step of the executor of a simple command.
    fn step_simple<F: Fn(&Command) -> Result<(), String>>(&mut self, run: &F) -> (r: ExecuteStatus)
        requires
            simple_ok(*old(self)),
            forall|c: &Command| call_requires(*run, (c,)),
        ensures
            simple_ok(*final(self)),
            final(self).command == old(self).command,
            final(self).steps == old(self).steps,
            old(self).state is Ready ==> match old(self).command@ {
                CommandV::Wait { condition: w } => {
                    &&& r@ == StatusV::Waiting(w)
                    &&& final(self).phase() == Phase::Waiting(w)
                    &&& final(self).remaining() == initial_remaining(w)
                },
                CommandV::Empty => r is Completed && final(self).phase() is Completed,
                _ => {
                    ||| r is Completed && final(self).phase() is Completed && call_ensures(
                        *run,
                        (&old(self).command,),
                        Ok::<(), String>(()),
                    )
                    ||| r matches ExecuteStatus::Error(e) && final(self).phase() == Phase::Error(e@)
                        && call_ensures(*run, (&old(self).command,), Err::<(), String>(e))
                },
            },
            !(old(self).state is Ready) ==> *final(self) == *old(self),
            old(self).phase() matches Phase::Waiting(w) ==> r@ == StatusV::Waiting(w),
            old(self).phase() is Completed ==> r is Completed,
            old(self).phase() matches Phase::Error(e) ==> r@ == StatusV::Error(e),
    {
        match &self.state {
            ExecutorState::Ready => self.execute_simple(run),
            ExecutorState::Waiting(condition) => ExecuteStatus::Waiting(condition.duplicate()),
            ExecutorState::Completed => ExecuteStatus::Completed,
            ExecutorState::Error(e) => ExecuteStatus::Error(e.clone()),
        }
    }
}

/// The first step that a ready chain runs on its next step: the one after
/// the wait it is held at, if that wait is over; otherwise its position.
pub open spec fn resume_pos(e: CommandExecutor) -> int {
    if e.held() && e.current_wait() is None {
        e.chain_pos() + 1
    } else {
        e.chain_pos()
    }
}

/// What one step of a ready chain does, from `pre` to `post`, reporting
/// `r`: every step from [`resume_pos`] up to where it stops ran through;
/// it stops at the end (completed), at a wait (held there), or at a step
/// whose run failed (the error).
pub open spec fn chain_step<F: Fn(&Command) -> Result<(), String>>(
    pre: CommandExecutor,
    post: CommandExecutor,
    r: ExecuteStatus,
    run: F,
) -> bool {
    let steps = pre.steps();
    let i1 = post.chain_pos();
    if pre.held() && pre.current_wait() is Some {
        r@ == StatusV::Waiting(pre.current_wait()->0) && post == pre
    } else {
        &&& resume_pos(pre) <= i1 <= steps.len()
        &&& ran_ok(run, steps, resume_pos(pre), i1)
        &&& post.steps() == steps
        &&& post.command_model() == pre.command_model()
        &&& i1 == steps.len() ==> r is Completed && post.phase() is Completed && !post.held()
        &&& i1 < steps.len() ==> match steps[i1]@ {
            CommandV::Wait { condition: w } => {
                &&& r@ == StatusV::Waiting(w)
                &&& post.phase() is Ready
                &&& post.held()
                &&& post.current_wait() == Some(w)
                &&& post.remaining() == initial_remaining(w)
            },
            _ => {
                &&& is_run(steps[i1]@)
                &&& r matches ExecuteStatus::Error(e)
                &&& post.phase() == Phase::Error(e@)
                &&& !post.held()
                &&& call_ensures(run, (&steps[i1],), Err::<(), String>(e))
            },
        }
    }
}

/// What one step of a ready simple command does: a wait starts waiting;
/// an empty command completes; any other is run by the host and completes
/// or fails with the host's error.
pub open spec fn simple_step<F: Fn(&Command) -> Result<(), String>>(
    pre: CommandExecutor,
    post: CommandExecutor,
    r: ExecuteStatus,
    run: F,
) -> bool {
    &&& post.command_model() == pre.command_model()
    &&& match pre.command_model() {
        CommandV::Wait { condition: w } => {
            &&& r@ == StatusV::Waiting(w)
            &&& post.phase() == Phase::Waiting(w)
            &&& post.current_wait() == Some(w)
            &&& post.remaining() == initial_remaining(w)
        },
        CommandV::Empty => r is Completed && post.phase() is Completed,
        _ => {
            ||| r is Completed && post.phase() is Completed && call_ensures(
                run,
                (&pre.command_value(),),
                Ok::<(), String>(()),
            )
            ||| r matches ExecuteStatus::Error(e) && post.phase() == Phase::Error(e@) && call_ensures(
                run,
                (&pre.command_value(),),
                Err::<(), String>(e),
            )
        },
    }
}

impl CommandExecutor {
    /// Steps a ready chain on from where it stands, and records how it
    /// ended.
    fn execute_chain<F: Fn(&Command) -> Result<(), String>>(&mut self, run: &F) -> (r: ExecuteStatus)
        requires
            old(self).wf(),
            old(self).command is Chain,
            old(self).state is Ready,
            forall|c: &Command| call_requires(*run, (c,)),
        ensures
            final(self).wf(),
            final(self).command == old(self).command,
            final(self).steps == old(self).steps,
            chain_step(*old(self), *final(self), r, *run),
    {
        let ghost steps = self.steps@;
        let ghost start = resume_pos(*self);
        proof {
            lemma_flat_steps_simple(self.command@);
        }
        if self.chain_sub.is_some() {
            let sub_waiting = match &self.chain_sub {
                Some(sub) => match &sub.state {
                    ExecutorState::Waiting(_) => true,
                    _ => false,
                },
                None => false,
            };
            if sub_waiting {
                let cond = match &self.chain_sub {
                    Some(sub) => match &sub.state {
                        ExecutorState::Waiting(c) => c.duplicate(),
                        _ => WaitCondition::Click,
                    },
                    None => WaitCondition::Click,
                };
                return ExecuteStatus::Waiting(cond);
            }
            self.chain_sub = None;
            self.chain_index = self.chain_index + 1;
        }
        proof {
            assert forall|k: int| 0 <= k < steps.len() implies !(#[trigger] steps[k]@ is Chain) by {
                assert(commands_view(steps)[k] == steps[k]@);
                assert(flat_steps(self.command@)[k] == steps[k]@);
            }
        }
        loop
            invariant
                self.command == old(self).command,
                self.command is Chain,
                self.steps@ == steps,
                self.steps == old(self).steps,
                steps == old(self).steps@,
                self.block_type == old(self).block_type,
                self.state is Ready,
                self.chain_sub is None,
                commands_view(steps) == flat_steps(self.command@),
                forall|k: int| 0 <= k < steps.len() ==> !(#[trigger] steps[k]@ is Chain),
                start == resume_pos(*old(self)),
                start <= self.chain_index <= steps.len(),
                ran_ok(*run, steps, start, self.chain_index as int),
                forall|c: &Command| call_requires(*run, (c,)),
                old(self).wf(),
                !(old(self).held() && old(self).current_wait() is Some),
            decreases steps.len() - self.chain_index,
        {
            let i = self.chain_index;
            if i >= self.steps.len() {
                self.state = ExecutorState::Completed;
                return ExecuteStatus::Completed;
            }
            proof {
                assert(commands_view(steps)[i as int] == steps[i as int]@);
                assert(!(steps[i as int]@ is Chain));
            }
            match &self.steps[i] {
                Command::Wait { condition } => {
                    let mut sub = CommandExecutor::new(Command::Wait { condition: condition.duplicate() });
                    let st = sub.execute_simple(run);
                    let shown = match &st {
                        ExecuteStatus::Waiting(c) => c.duplicate(),
                        _ => WaitCondition::Click,
                    };
                    self.chain_sub = Some(Box::new(sub));
                    return ExecuteStatus::Waiting(shown);
                },
                Command::Empty => {
                    self.chain_index = i + 1;
                },
                _ => {
                    let outcome = run(&self.steps[i]);
                    match outcome {
                        Ok(u) => {
                            assert(outcome == Ok::<(), String>(()));
                            self.chain_index = i + 1;
                        },
                        Err(e) => {
                            self.state = ExecutorState::Error(e.clone());
                            return ExecuteStatus::Error(e);
                        },
                    }
                },
            }
        }
    }

    /// Runs a ready executor.
    fn execute<F: Fn(&Command) -> Result<(), String>>(&mut self, run: &F) -> (r: ExecuteStatus)
        requires
            old(self).wf(),
            old(self).state is Ready,
            forall|c: &Command| call_requires(*run, (c,)),
        ensures
            final(self).wf(),
            final(self).command == old(self).command,
            final(self).steps == old(self).steps,
            old(self).command is Chain ==> chain_step(*old(self), *final(self), r, *run),
            !(old(self).command is Chain) ==> simple_step(*old(self), *final(self), r, *run),
    {
        if let Command::Chain { .. } = &self.command {
            self.execute_chain(run)
        } else {
            self.execute_simple(run)
        }
    }
}

/// Whether the wait that `e` is at is over: a chain stays held at the
/// finished wait until its next step; a simple command is completed.
pub open spec fn wait_over(pre: CommandExecutor, post: CommandExecutor) -> bool {
    &&& post.current_wait() is None
    &&& post.command_model() == pre.command_model()
    &&& post.steps() == pre.steps()
    &&& post.chain_pos() == pre.chain_pos()
    &&& if pre.command_model() is Chain {
        post.held() && post.phase() is Ready
    } else {
        post.phase() is Completed
    }
}

impl CommandExecutor {
    fn update_simple(&mut self, delta_nanos: u64) -> (r: bool)
        requires
            simple_ok(*old(self)),
        ensures
            simple_ok(*final(self)),
            final(self).command == old(self).command,
            final(self).steps == old(self).steps,
            r == (old(self).remaining() matches Some(t) && t - delta_nanos <= 0),
            r ==> final(self).phase() is Completed,
            !r && old(self).remaining() is Some ==> final(self).remaining() == Some(
                (old(self).remaining()->0 - delta_nanos) as i128,
            ) && final(self).phase() == old(self).phase(),
            old(self).remaining() is None ==> *final(self) == *old(self),
    {
        let is_time_wait = match &self.state {
            ExecutorState::Waiting(WaitCondition::Time(_)) => true,
            _ => false,
        };
        if !is_time_wait {
            return false;
        }
        let t = match self.time_remaining {
            Some(t) => t,
            None => 0,
        };
        let d = delta_nanos as i128;
        let next = if t < i128::MIN + d {
            i128::MIN
        } else {
            t - d
        };
        self.time_remaining = Some(next);
        if next <= 0 {
            self.state = ExecutorState::Completed;
            return true;
        }
        false
    }

    fn handle_event_simple(&mut self, event: &InputEvent) -> (r: bool)
        requires
            simple_ok(*old(self)),
        ensures
            simple_ok(*final(self)),
            final(self).command == old(self).command,
            final(self).steps == old(self).steps,
            r == (old(self).phase() matches Phase::Waiting(w) && event_resumes(w, *event)),
            r ==> final(self).phase() is Completed,
            !r ==> *final(self) == *old(self),
    {
        let should_resume = match &self.state {
            ExecutorState::Waiting(condition) => condition_resumes(condition, event),
            _ => false,
        };
        if should_resume {
            self.state = ExecutorState::Completed;
            return true;
        }
        false
    }

    fn skip_simple(&mut self, buffer_nanos: u64) -> (r: bool)
        requires
            simple_ok(*old(self)),
        ensures
            simple_ok(*final(self)),
            final(self).command == old(self).command,
            final(self).steps == old(self).steps,
            r == old(self).phase() is Waiting,
            r ==> final(self).phase() == Phase::Waiting(WaitV::Time(skipped(old(self).remaining(), buffer_nanos)))
                && final(self).remaining() == Some(skipped(old(self).remaining(), buffer_nanos)),
            !r ==> *final(self) == *old(self),
    {
        let is_waiting = match &self.state {
            ExecutorState::Waiting(_) => true,
            _ => false,
        };
        if !is_waiting {
            return false;
        }
        let buffer = buffer_nanos as i128;
        let is_time_wait = match &self.state {
            ExecutorState::Waiting(WaitCondition::Time(_)) => true,
            _ => false,
        };
        if is_time_wait {
            let t = match self.time_remaining {
                Some(t) => t,
                None => buffer,
            };
            let m = if t < buffer {
                t
            } else {
                buffer
            };
            self.time_remaining = Some(m);
            self.state = ExecutorState::Waiting(WaitCondition::Time(m));
        } else {
            self.time_remaining = Some(buffer);
            self.state = ExecutorState::Waiting(WaitCondition::Time(buffer));
        }
        true
    }
}

/// The remaining time after a skip to at most `buffer` nanoseconds: the
/// smaller of the two for a time wait, `buffer` for any other wait.
pub open spec fn skipped(remaining: Option<i128>, buffer: u64) -> i128 {
    match remaining {
        Some(t) => if t < buffer {
            t
        } else {
            buffer as i128
        },
        None => buffer as i128,
    }
}

fn condition_fits(w: &WaitCondition, event: &InputEvent) -> (r: bool)
    ensures
        r == event_fits(w@, *event),
{
    match w {
        WaitCondition::Click => match event {
            InputEvent::Click => true,
            _ => false,
        },
        WaitCondition::Input(expected) => match event {
            InputEvent::Text(text) => *text == *expected,
            _ => false,
        },
        _ => false,
    }
}

fn condition_resumes(w: &WaitCondition, event: &InputEvent) -> (r: bool)
    ensures
        r == event_resumes(w@, *event),
{
    match w {
        WaitCondition::Any(conditions) => {
            let mut i: usize = 0;
            while i < conditions.len()
                invariant
                    i <= conditions.len(),
                    *w == WaitCondition::Any(*conditions),
                    forall|j: int| 0 <= j < i ==> !event_fits(#[trigger] conditions@[j]@, *event),
                decreases conditions.len() - i,
            {
                if condition_fits(&conditions[i], event) {
                    proof {
                        let cs = w@->Any_0;
                        assert(cs[i as int] == conditions@[i as int]@);
                    }
                    return true;
                }
                i = i + 1;
            }
            proof {
                let cs = w@->Any_0;
                assert forall|j: int| 0 <= j < cs.len() implies !event_fits(#[trigger] cs[j], *event) by {
                    assert(cs[j] == conditions@[j]@);
                }
            }
            false
        },
        _ => condition_fits(w, event),
    }
}

impl CommandExecutor {
    /// Runs the command as far as it goes now, and reports where it stands.
    ///
    /// `run` is the script host: it runs one simple command (an assignment,
    /// a `set`, a `once`, a call, a `next`) and reports the host's error if
    /// the command fails. Waits and empty commands never reach it.
    pub fn step<F: Fn(&Command) -> Result<(), String>>(&mut self, run: &F) -> (r: ExecuteStatus)
        requires
            old(self).wf(),
            forall|c: &Command| call_requires(*run, (c,)),
        ensures
            final(self).wf(),
            final(self).command_model() == old(self).command_model(),
            final(self).steps() == old(self).steps(),
            old(self).phase() is Ready && old(self).command_model() is Chain ==> chain_step(
                *old(self),
                *final(self),
                r,
                *run,
            ),
            old(self).phase() is Ready && !(old(self).command_model() is Chain) ==> simple_step(
                *old(self),
                *final(self),
                r,
                *run,
            ),
            old(self).phase() matches Phase::Waiting(w) ==> r@ == StatusV::Waiting(w) && *final(self)
                == *old(self),
            old(self).phase() is Completed ==> r is Completed && *final(self) == *old(self),
            old(self).phase() matches Phase::Error(e) ==> r@ == StatusV::Error(e) && *final(self)
                == *old(self),
    {
        match &self.state {
            ExecutorState::Ready => self.execute(run),
            ExecutorState::Waiting(condition) => ExecuteStatus::Waiting(condition.duplicate()),
            ExecutorState::Completed => ExecuteStatus::Completed,
            ExecutorState::Error(e) => ExecuteStatus::Error(e.clone()),
        }
    }

    /// Lets `delta_nanos` nanoseconds pass for a time wait; returns whether
    /// the wait is now over.
    pub fn update(&mut self, delta_nanos: u64) -> (r: bool)
        requires
            old(self).wf(),
        ensures
            update_post(*old(self), *final(self), delta_nanos, r),
    {
        if self.chain_sub.is_some() {
            let mut sub = match self.chain_sub.take() {
                Some(b) => b,
                None => return false,
            };
            let r = sub.update_simple(delta_nanos);
            self.chain_sub = Some(sub);
            return r;
        }
        if self.is_chain() {
            return false;
        }
        self.update_simple(delta_nanos)
    }

    /// Offers an input event to the current wait; returns whether it ended
    /// the wait.
    pub fn handle_event(&mut self, event: &InputEvent) -> (r: bool)
        requires
            old(self).wf(),
        ensures
            final(self).wf(),
            r == (old(self).current_wait() matches Some(w) && event_resumes(w, *event)),
            r ==> wait_over(*old(self), *final(self)),
            !r ==> *final(self) == *old(self),
    {
        if self.chain_sub.is_some() {
            let mut sub = match self.chain_sub.take() {
                Some(b) => b,
                None => return false,
            };
            let r = sub.handle_event_simple(event);
            self.chain_sub = Some(sub);
            return r;
        }
        if self.is_chain() {
            return false;
        }
        self.handle_event_simple(event)
    }

    fn is_chain(&self) -> (r: bool)
        ensures
            r == self.command_model() is Chain,
    {
        match &self.command {
            Command::Chain { .. } => true,
            _ => false,
        }
    }

    /// For a chain: whether it is held at a wait (finished or not).
    pub fn is_held(&self) -> (r: bool)
        ensures
            r == self.held(),
    {
        self.chain_sub.is_some()
    }

    /// Whether the command waits now.
    pub fn is_waiting(&self) -> (r: bool)
        requires
            self.wf(),
        ensures
            r == self.current_wait() is Some,
    {
        match &self.chain_sub {
            Some(sub) => match &sub.state {
                ExecutorState::Waiting(_) => true,
                _ => false,
            },
            None => match &self.state {
                ExecutorState::Waiting(_) => true,
                _ => false,
            },
        }
    }

    /// What the executor itself waits for: a simple `wait` command's
    /// condition; `None` otherwise, for a chain too.
    pub fn wait_condition(&self) -> (r: Option<WaitCondition>)
        ensures
            match self.phase() {
                Phase::Waiting(w) => r matches Some(c) && c@ == w,
                _ => r is None,
            },
    {
        match &self.state {
            ExecutorState::Waiting(c) => Some(c.duplicate()),
            _ => None,
        }
    }

    /// Whether the command has completed.
    pub fn is_completed(&self) -> (r: bool)
        ensures
            r == self.phase() is Completed,
    {
        match &self.state {
            ExecutorState::Completed => true,
            _ => false,
        }
    }

    /// Whether the command holds up the commands after it.
    pub fn is_blocking(&self) -> (r: bool)
        requires
            self.wf(),
        ensures
            r == (block_type_of(self.command_model()) == CommandBlockType::Blocking),
    {
        self.block_type == CommandBlockType::Blocking
    }

    /// The time the current wait still has to run, in nanoseconds, when it
    /// waits for time.
    pub fn remaining_time(&self) -> (r: Option<i128>)
        requires
            self.wf(),
        ensures
            r == self.remaining(),
    {
        match &self.chain_sub {
            Some(sub) => match &sub.state {
                ExecutorState::Waiting(WaitCondition::Time(_)) => sub.time_remaining,
                _ => None,
            },
            None => match &self.state {
                ExecutorState::Waiting(WaitCondition::Time(_)) => self.time_remaining,
                _ => None,
            },
        }
    }

    /// Shortens the current wait to at most `buffer_nanos` nanoseconds: a
    /// time wait keeps the smaller of its remaining time and the buffer; a
    /// wait for input becomes a wait of the buffer's length. Returns whether
    /// there was a wait.
    pub fn skip_wait_with_buffer(&mut self, buffer_nanos: u64) -> (r: bool)
        requires
            old(self).wf(),
        ensures
            final(self).wf(),
            r == old(self).current_wait() is Some,
            r ==> {
                let n = skipped(old(self).remaining(), buffer_nanos);
                &&& final(self).current_wait() == Some(WaitV::Time(n))
                &&& final(self).remaining() == Some(n)
                &&& final(self).held() == old(self).held()
                &&& final(self).chain_pos() == old(self).chain_pos()
                &&& final(self).command_model() == old(self).command_model()
                &&& final(self).steps() == old(self).steps()
                &&& (final(self).phase() is Ready) == (old(self).phase() is Ready)
                &&& !old(self).held() ==> final(self).phase() == Phase::Waiting(WaitV::Time(n))
            },
            !r ==> *final(self) == *old(self),
    {
        if self.chain_sub.is_some() {
            let mut sub = match self.chain_sub.take() {
                Some(b) => b,
                None => return false,
            };
            let r = sub.skip_simple(buffer_nanos);
            self.chain_sub = Some(sub);
            return r;
        }
        if self.is_chain() {
            return false;
        }
        self.skip_simple(buffer_nanos)
    }
}


/// What one [`CommandExecutor::update`] of `delta` nanoseconds does, from
/// `pre` to `post`, returning `r`: a time wait loses `delta` of its
/// remaining time and is over, returning true, when that reaches 0 or less;
/// without a time wait nothing changes and it returns false.
pub open spec fn update_post(pre: CommandExecutor, post: CommandExecutor, delta: u64, r: bool) -> bool {
    &&& post.wf()
    &&& r == (pre.remaining() matches Some(t) && t - delta <= 0)
    &&& r ==> wait_over(pre, post)
    &&& !r && pre.remaining() is Some ==> {
        &&& post.remaining() == Some((pre.remaining()->0 - delta) as i128)
        &&& post.current_wait() == pre.current_wait()
        &&& post.phase() == pre.phase()
        &&& post.held() == pre.held()
        &&& post.chain_pos() == pre.chain_pos()
        &&& post.command_model() == pre.command_model()
        &&& post.steps() == pre.steps()
    }
    &&& pre.remaining() is None ==> post == pre
}

/// The sum of the first `k` deltas of `ds`.
pub open spec fn total_delta(ds: Seq<u64>, k: int) -> int
    decreases k,
{
    if k <= 0 || k > ds.len() {
        0
    } else {
        total_delta(ds, k - 1) + ds[k - 1]
    }
}

/// Where a count-down from `t` stands after the first `k` deltas: the
/// remaining time is `t` less their sum while that is above 0, and there is
/// none once it is not.
pub open spec fn counted_down(e: CommandExecutor, ds: Seq<u64>, t: i128, k: int) -> bool {
    if t - total_delta(ds, k) > 0 {
        e.remaining() == Some((t - total_delta(ds, k)) as i128)
    } else {
        e.remaining() is None
    }
}

proof fn lemma_total_delta_grows(ds: Seq<u64>, k: int)
    requires
        0 <= k < ds.len(),
    ensures
        total_delta(ds, k + 1) == total_delta(ds, k) + ds[k],
{
}

proof fn lemma_total_delta_nonneg(ds: Seq<u64>, k: int)
    ensures
        total_delta(ds, k) >= 0,
    decreases k,
{
    if 0 < k <= ds.len() {
        lemma_total_delta_nonneg(ds, k - 1);
    }
}

proof fn lemma_count_down_step(pre: CommandExecutor, post: CommandExecutor, ds: Seq<u64>, t: i128, k: int, r: bool)
    requires
        0 <= k < ds.len(),
        pre.wf(),
        counted_down(pre, ds, t, k),
        update_post(pre, post, ds[k], r),
    ensures
        post.wf(),
        counted_down(post, ds, t, k + 1),
        r <==> (t - total_delta(ds, k) > 0 && t - total_delta(ds, k + 1) <= 0),
        t - total_delta(ds, k) <= 0 ==> !r && post == pre,
{
    lemma_total_delta_grows(ds, k);
    lemma_total_delta_nonneg(ds, k);
    post.lemma_wait_views();
    pre.lemma_wait_views();
}

/// Successive updates count a time wait down: starting from a remaining
/// time `t`, after updates of `ds[0]`, `ds[1]`, ... the remaining time is
/// `t` less the sum of the deltas so far while that is above 0; the update
/// that brings it to 0 or below is the one, and the only one, that returns
/// true; every update after it returns false and changes nothing.
pub proof fn updates_count_down(es: Seq<CommandExecutor>, ds: Seq<u64>, rs: Seq<bool>, t: i128)
    requires
        es.len() == ds.len() + 1,
        rs.len() == ds.len(),
        es[0].wf(),
        es[0].remaining() == Some(t),
        t > 0,
        forall|i: int| 0 <= i < ds.len() ==> #[trigger] update_post(es[i], es[i + 1], ds[i], rs[i]),
    ensures
        forall|k: int| 0 <= k <= ds.len() ==> #[trigger] counted_down(es[k], ds, t, k),
        forall|j: int|
            0 <= j < ds.len() ==> (#[trigger] rs[j] <==> (t - total_delta(ds, j) > 0 && t - total_delta(ds, j + 1)
                <= 0)),
        forall|j: int| 0 <= j < ds.len() && t - total_delta(ds, j) <= 0 ==> !#[trigger] rs[j] && es[j + 1] == es[j],
{
    count_down_upto(es, ds, rs, t, ds.len() as int);
}

proof fn count_down_upto(es: Seq<CommandExecutor>, ds: Seq<u64>, rs: Seq<bool>, t: i128, k: int)
    requires
        0 <= k <= ds.len(),
        es.len() == ds.len() + 1,
        rs.len() == ds.len(),
        es[0].wf(),
        es[0].remaining() == Some(t),
        t > 0,
        forall|i: int| 0 <= i < ds.len() ==> #[trigger] update_post(es[i], es[i + 1], ds[i], rs[i]),
    ensures
        es[k].wf(),
        forall|i: int| 0 <= i <= k ==> #[trigger] counted_down(es[i], ds, t, i),
        forall|j: int|
            0 <= j < k ==> (#[trigger] rs[j] <==> (t - total_delta(ds, j) > 0 && t - total_delta(ds, j + 1) <= 0)),
        forall|j: int| 0 <= j < k && t - total_delta(ds, j) <= 0 ==> !#[trigger] rs[j] && es[j + 1] == es[j],
    decreases k,
{
    if k == 0 {
        assert(counted_down(es[0], ds, t, 0));
    } else {
        let i = k - 1;
        count_down_upto(es, ds, rs, t, i);
        assert(update_post(es[i], es[i + 1], ds[i], rs[i]));
        assert(counted_down(es[i], ds, t, i));
        lemma_count_down_step(es[i], es[i + 1], ds, t, i, rs[i]);
    }
}

proof fn lemma_total_delta_prefix(ds: Seq<u64>, k: int)
    requires
        ds.len() > 0,
        0 <= k <= ds.len() - 1,
    ensures
        total_delta(ds.drop_last(), k) == total_delta(ds, k),
    decreases k,
{
    if k > 0 {
        lemma_total_delta_prefix(ds, k - 1);
    }
}

impl CommandExecutor {
    /// How the wait views of an executor hang together: only a chain is ever
    /// held at a wait; a command that is not held at a chain's wait waits
    /// for what its own phase says; and a
    /// remaining time is only ever had by a wait for time, so a wait for a
    /// click or for input has none.
    pub proof fn lemma_wait_views(&self)
        requires
            self.wf(),
        ensures
            !(self.command_model() is Chain) ==> !self.held(),
            !self.held() ==> self.current_wait() == (match self.phase() {
                Phase::Waiting(w) => Some(w),
                _ => None,
            }),
            self.remaining() is Some ==> (self.current_wait() matches Some(w) && w is Time),
            (self.current_wait() matches Some(w) && !(w is Time)) ==> self.remaining() is None,
    {
    }
}

/// A chain never goes back: one step of a ready chain leaves it at or
/// after the step it stood at, and the steps it runs are only those from
/// where it resumes.
pub proof fn chain_never_goes_back<F: Fn(&Command) -> Result<(), String>>(
    pre: CommandExecutor,
    post: CommandExecutor,
    r: ExecuteStatus,
    run: F,
)
    requires
        chain_step(pre, post, r, run),
    ensures
        post.chain_pos() >= pre.chain_pos(),
{
}

/// A chain held at a wait that is over resumes after it: its next step
/// starts with the step after the wait, so neither the wait nor anything
/// before it runs again, and it does not stay at the wait.
pub proof fn chain_resumes_after_finished_wait<F: Fn(&Command) -> Result<(), String>>(
    pre: CommandExecutor,
    post: CommandExecutor,
    r: ExecuteStatus,
    run: F,
)
    requires
        pre.held(),
        pre.current_wait() is None,
        chain_step(pre, post, r, run),
    ensures
        resume_pos(pre) == pre.chain_pos() + 1,
        post.chain_pos() > pre.chain_pos(),
        ran_ok(run, pre.steps(), pre.chain_pos() + 1, post.chain_pos()),
{
}

} // verus!
