use vstd::prelude::*;

verus! {

/// An exact decimal number written in a script: `mantissa / 10^scale`.
#[derive(Clone, Copy, Debug, PartialEq, Eq, Structural)]
pub struct Decimal {
    pub mantissa: i64,
    pub scale: u32,
}

/// `10^n`.
pub open spec fn pow10(n: nat) -> int
    decreases n,
{
    if n == 0 {
        1
    } else {
        10 * pow10((n - 1) as nat)
    }
}

pub proof fn lemma_pow10_pos(n: nat)
    ensures
        pow10(n) >= 1,
    decreases n,
{
    if n > 0 {
        lemma_pow10_pos((n - 1) as nat);
    }
}

pub proof fn lemma_pow10_mono(a: nat, b: nat)
    requires
        a <= b,
    ensures
        pow10(a) <= pow10(b),
    decreases b,
{
    lemma_pow10_pos(b);
    if a < b {
        lemma_pow10_mono(a, (b - 1) as nat);
    }
}

/// Integer division that rounds toward zero, as Rust's `/` does.
pub open spec fn div_toward_zero(a: int, b: int) -> int {
    if a >= 0 {
        a / b
    } else {
        -((-a) / b)
    }
}

/// Nanoseconds in one second.
pub const NANOS_PER_SEC: i128 = 1_000_000_000;

/// The number of whole nanoseconds in `d` seconds, rounded toward zero.
pub open spec fn decimal_nanos(d: Decimal) -> int {
    if d.scale <= 9 {
        d.mantissa * pow10((9 - d.scale) as nat)
    } else {
        div_toward_zero(d.mantissa as int, pow10((d.scale - 9) as nat))
    }
}

/// A value that a script can hold or pass as an argument.
#[derive(Debug)]
pub enum ScriptValue {
    Nil,
    Bool(bool),
    Int(i64),
    Float(Decimal),
    String(String),
    /// A dotted path that is resolved when the command runs.
    Expression(String),
    /// A reference to a table by its id.
    TableHandle(u64),
    /// A function that a script can call, by its name: one the library
    /// carries out itself, or one the host provides.
    Function(String),
    /// A function bound to the table it belongs to (by the table's id), as
    /// the methods of an instance are.
    Method(String, u64),
}

/// The mathematical model of a [`ScriptValue`].
pub enum ValueV {
    Nil,
    Bool(bool),
    Int(i64),
    Float(Decimal),
    Str(Seq<char>),
    Expression(Seq<char>),
    TableHandle(u64),
    Function(Seq<char>),
    Method(Seq<char>, u64),
}

impl View for ScriptValue {
    type V = ValueV;

    open spec fn view(&self) -> ValueV {
        match self {
            ScriptValue::Nil => ValueV::Nil,
            ScriptValue::Bool(b) => ValueV::Bool(*b),
            ScriptValue::Int(i) => ValueV::Int(*i),
            ScriptValue::Float(d) => ValueV::Float(*d),
            ScriptValue::String(s) => ValueV::Str(s@),
            ScriptValue::Expression(s) => ValueV::Expression(s@),
            ScriptValue::TableHandle(h) => ValueV::TableHandle(*h),
            ScriptValue::Function(f) => ValueV::Function(f@),
            ScriptValue::Method(f, t) => ValueV::Method(f@, *t),
        }
    }
}

/// The number a value holds: an integer, as a decimal of scale 0, or a
/// decimal.
pub open spec fn value_number(v: ValueV) -> Option<Decimal> {
    match v {
        ValueV::Int(i) => Some(Decimal { mantissa: i, scale: 0 }),
        ValueV::Float(d) => Some(d),
        _ => None,
    }
}

/// The models of a sequence of values.
pub open spec fn values_view(vs: Seq<ScriptValue>) -> Seq<ValueV> {
    vs.map_values(|v: ScriptValue| v@)
}

impl Clone for ScriptValue {
    fn clone(&self) -> (res: Self)
        ensures
            res@ == self@,
    {
        match self {
            ScriptValue::Nil => ScriptValue::Nil,
            ScriptValue::Bool(b) => ScriptValue::Bool(*b),
            ScriptValue::Int(i) => ScriptValue::Int(*i),
            ScriptValue::Float(d) => ScriptValue::Float(*d),
            ScriptValue::String(s) => ScriptValue::String(s.clone()),
            ScriptValue::Expression(s) => ScriptValue::Expression(s.clone()),
            ScriptValue::TableHandle(h) => ScriptValue::TableHandle(*h),
            ScriptValue::Function(f) => ScriptValue::Function(f.clone()),
            ScriptValue::Method(f, t) => ScriptValue::Method(f.clone(), *t),
        }
    }
}

impl ScriptValue {
    /// A string value.
    pub fn string(s: String) -> (r: ScriptValue)
        ensures
            r@ == ValueV::Str(s@),
    {
        ScriptValue::String(s)
    }

    /// An integer value.
    pub fn integer(i: i64) -> (r: ScriptValue)
        ensures
            r@ == ValueV::Int(i),
    {
        ScriptValue::Int(i)
    }

    /// A decimal value.
    pub fn float(d: Decimal) -> (r: ScriptValue)
        ensures
            r@ == ValueV::Float(d),
    {
        ScriptValue::Float(d)
    }

    /// A boolean value.
    pub fn bool(b: bool) -> (r: ScriptValue)
        ensures
            r@ == ValueV::Bool(b),
    {
        ScriptValue::Bool(b)
    }

    /// The nil value.
    pub fn nil() -> (r: ScriptValue)
        ensures
            r@ == ValueV::Nil,
    {
        ScriptValue::Nil
    }

    /// The number held, if the value is an integer or a decimal.
    pub fn to_number(&self) -> (r: Option<Decimal>)
        ensures
            r == value_number(self@),
    {
        match self {
            ScriptValue::Int(i) => Some(Decimal { mantissa: *i, scale: 0 }),
            ScriptValue::Float(d) => Some(*d),
            _ => None,
        }
    }

    /// The truth value held, if the value is a boolean.
    pub fn as_bool(&self) -> (r: Option<bool>)
        ensures
            r == (match self@ {
                ValueV::Bool(b) => Some(b),
                _ => None,
            }),
    {
        match self {
            ScriptValue::Bool(b) => Some(*b),
            _ => None,
        }
    }

    /// The integer held, if the value is an integer.
    pub fn as_int(&self) -> (r: Option<i64>)
        ensures
            r == (match self@ {
                ValueV::Int(i) => Some(i),
                _ => None,
            }),
    {
        match self {
            ScriptValue::Int(i) => Some(*i),
            _ => None,
        }
    }

    /// A copy of the text held, if the value is a string.
    pub fn as_string(&self) -> (r: Option<String>)
        ensures
            match self@ {
                ValueV::Str(s) => r is Some && r->0@ == s,
                _ => r is None,
            },
    {
        match self {
            ScriptValue::String(s) => Some(s.clone()),
            _ => None,
        }
    }

    /// A copy of the path held, if the value is an expression.
    pub fn as_expression(&self) -> (r: Option<String>)
        ensures
            match self@ {
                ValueV::Expression(s) => r is Some && r->0@ == s,
                _ => r is None,
            },
    {
        match self {
            ScriptValue::Expression(s) => Some(s.clone()),
            _ => None,
        }
    }
}

/// What a waiting command waits for.
#[derive(Debug)]
pub enum WaitCondition {
    Click,
    Input(String),
    Any(Vec<WaitCondition>),
    /// A span of time, in nanoseconds.
    Time(i128),
}

/// The model of a [`WaitCondition`].
pub enum WaitV {
    Click,
    Input(Seq<char>),
    Any(Seq<WaitV>),
    Time(i128),
}

impl View for WaitCondition {
    type V = WaitV;

    open spec fn view(&self) -> WaitV {
        wait_view(*self)
    }
}

/// The model of a wait condition.
pub open spec fn wait_view(w: WaitCondition) -> WaitV
    decreases w,
{
    match w {
        WaitCondition::Click => WaitV::Click,
        WaitCondition::Input(s) => WaitV::Input(s@),
        WaitCondition::Any(cs) => WaitV::Any(
            Seq::new(
                cs@.len(),
                |i: int|
                    if 0 <= i < cs@.len() {
                        wait_view(cs@[i])
                    } else {
                        WaitV::Click
                    },
            ),
        ),
        WaitCondition::Time(t) => WaitV::Time(t),
    }
}

impl WaitCondition {
    /// A copy of the condition.
    pub fn duplicate(&self) -> (res: WaitCondition)
        ensures
            res@ == self@,
        decreases self,
    {
        match self {
            WaitCondition::Click => WaitCondition::Click,
            WaitCondition::Input(s) => WaitCondition::Input(s.clone()),
            WaitCondition::Any(cs) => {
                let mut out: Vec<WaitCondition> = Vec::new();
                let mut i: usize = 0;
                while i < cs.len()
                    invariant
                        i <= cs.len(),
                        out.len() == i,
                        forall|j: int| 0 <= j < i ==> #[trigger] out@[j]@ == cs@[j]@,
                        *self == WaitCondition::Any(*cs),
                    decreases cs.len() - i,
                {
                    proof {
                        assert(decreases_to!(*self => self->Any_0));
                        assert(decreases_to!(*self => (self->Any_0)@));
                        assert(decreases_to!(*self => (self->Any_0)@[i as int]));
                        assert(decreases_to!(cs@ => cs@[i as int]));
                    }
                    let c = cs[i].duplicate();
                    out.push(c);
                    i = i + 1;
                }
                let res = WaitCondition::Any(out);
                assert(res@ == self@) by {
                    assert(res@ is Any && self@ is Any);
                    let ra = res@->Any_0;
                    let sb = self@->Any_0;
                    assert(ra.len() == sb.len());
                    assert forall|k: int| 0 <= k < ra.len() implies ra[k] == sb[k] by {
                        assert(out@[k]@ == cs@[k]@);
                    }
                    assert(ra =~= sb);
                }
                res
            },
            WaitCondition::Time(t) => WaitCondition::Time(*t),
        }
    }
}

impl Clone for WaitCondition {
    fn clone(&self) -> (res: Self)
        ensures
            res@ == self@,
    {
        self.duplicate()
    }
}

/// A parsed script command.
#[derive(Debug)]
pub enum Command {
    /// `name = value`
    Assignment { name: String, value: ScriptValue },
    /// `name = path args...`
    CommandAssignment { name: String, command: String, args: Vec<ScriptValue> },
    /// `set path args...`
    SetPath { path: String, args: Vec<ScriptValue> },
    /// `once path args...`, reverted when the section ends
    Once { path: String, args: Vec<ScriptValue> },
    /// `wait click` or `wait seconds`
    Wait { condition: WaitCondition },
    /// `path args...`
    Call { path: String, args: Vec<ScriptValue> },
    /// `next session_id`
    Next { target: usize },
    /// `a -> b -> c`
    Chain { commands: Vec<Command> },
    Empty,
}

/// The model of a [`Command`].
pub enum CommandV {
    Assignment { name: Seq<char>, value: ValueV },
    CommandAssignment { name: Seq<char>, command: Seq<char>, args: Seq<ValueV> },
    SetPath { path: Seq<char>, args: Seq<ValueV> },
    Once { path: Seq<char>, args: Seq<ValueV> },
    Wait { condition: WaitV },
    Call { path: Seq<char>, args: Seq<ValueV> },
    Next { target: usize },
    Chain { commands: Seq<CommandV> },
    Empty,
}

impl View for Command {
    type V = CommandV;

    open spec fn view(&self) -> CommandV {
        command_view(*self)
    }
}

/// The model of a command.
pub open spec fn command_view(c: Command) -> CommandV
    decreases c,
{
    match c {
        Command::Assignment { name, value } => CommandV::Assignment { name: name@, value: value@ },
        Command::CommandAssignment { name, command, args } => CommandV::CommandAssignment {
            name: name@,
            command: command@,
            args: values_view(args@),
        },
        Command::SetPath { path, args } => CommandV::SetPath { path: path@, args: values_view(args@) },
        Command::Once { path, args } => CommandV::Once { path: path@, args: values_view(args@) },
        Command::Wait { condition } => CommandV::Wait { condition: condition@ },
        Command::Call { path, args } => CommandV::Call { path: path@, args: values_view(args@) },
        Command::Next { target } => CommandV::Next { target },
        Command::Chain { commands } => CommandV::Chain {
            commands: Seq::new(
                commands@.len(),
                |i: int|
                    if 0 <= i < commands@.len() {
                        command_view(commands@[i])
                    } else {
                        CommandV::Empty
                    },
            ),
        },
        Command::Empty => CommandV::Empty,
    }
}

impl Command {
    /// A copy of the command.
    pub fn duplicate(&self) -> (res: Command)
        ensures
            res@ == self@,
        decreases self,
    {
        match self {
            Command::Assignment { name, value } => Command::Assignment {
                name: name.clone(),
                value: value.clone(),
            },
            Command::CommandAssignment { name, command, args } => Command::CommandAssignment {
                name: name.clone(),
                command: command.clone(),
                args: copy_values(args),
            },
            Command::SetPath { path, args } => Command::SetPath {
                path: path.clone(),
                args: copy_values(args),
            },
            Command::Once { path, args } => Command::Once { path: path.clone(), args: copy_values(args) },
            Command::Wait { condition } => Command::Wait { condition: condition.duplicate() },
            Command::Call { path, args } => Command::Call { path: path.clone(), args: copy_values(args) },
            Command::Next { target } => Command::Next { target: *target },
            Command::Chain { commands } => {
                let mut out: Vec<Command> = Vec::new();
                let mut i: usize = 0;
                while i < commands.len()
                    invariant
                        i <= commands.len(),
                        out.len() == i,
                        forall|j: int| 0 <= j < i ==> #[trigger] out@[j]@ == commands@[j]@,
                        *self == (Command::Chain { commands: *commands }),
                    decreases commands.len() - i,
                {
                    proof {
                        assert(decreases_to!(*self => self->commands));
                        assert(decreases_to!(*self => (self->commands)@));
                        assert(decreases_to!(*self => (self->commands)@[i as int]));
                    }
                    let c = commands[i].duplicate();
                    out.push(c);
                    i = i + 1;
                }
                let res = Command::Chain { commands: out };
                assert(res@ == self@) by {
                    let ra = res@->Chain_commands;
                    let sb = self@->Chain_commands;
                    assert(ra.len() == sb.len());
                    assert forall|k: int| 0 <= k < ra.len() implies ra[k] == sb[k] by {
                        assert(out@[k]@ == commands@[k]@);
                    }
                    assert(ra =~= sb);
                }
                res
            },
            Command::Empty => Command::Empty,
        }
    }
}

/// Copies of the values of `vs`.
pub fn copy_values(vs: &Vec<ScriptValue>) -> (r: Vec<ScriptValue>)
    ensures
        values_view(r@) == values_view(vs@),
{
    let mut out: Vec<ScriptValue> = Vec::new();
    let mut i: usize = 0;
    while i < vs.len()
        invariant
            i <= vs.len(),
            values_view(out@) == values_view(vs@).subrange(0, i as int),
        decreases vs.len() - i,
    {
        let v = vs[i].clone();
        let ghost before = values_view(out@);
        out.push(v);
        proof {
            assert(values_view(out@) =~= before.push(v@));
            assert(values_view(vs@).subrange(0, i + 1) =~= values_view(vs@).subrange(0, i as int).push(
                vs@[i as int]@,
            ));
        }
        i = i + 1;
    }
    assert(values_view(vs@).subrange(0, vs.len() as int) =~= values_view(vs@));
    out
}

/// The models of a sequence of commands.
pub open spec fn commands_view(cs: Seq<Command>) -> Seq<CommandV> {
    cs.map_values(|c: Command| c@)
}

/// The models of a sequence of command lists.
pub open spec fn sessions_view(ss: Seq<Vec<Command>>) -> Seq<Seq<CommandV>> {
    ss.map_values(|v: Vec<Command>| commands_view(v@))
}

/// Whether a command holds up the commands after it.
#[derive(Clone, Copy, Debug, PartialEq, Eq, Structural)]
pub enum CommandBlockType {
    Blocking,
    NonBlocking,
}

/// The blocking kind of a command model: waits, and chains that hold a
/// wait, block; everything else runs through.
pub open spec fn block_type_of(c: CommandV) -> CommandBlockType {
    match c {
        CommandV::Wait { .. } => CommandBlockType::Blocking,
        CommandV::Chain { commands } => if exists|i: int|
            0 <= i < commands.len() && (#[trigger] commands[i]) is Wait {
            CommandBlockType::Blocking
        } else {
            CommandBlockType::NonBlocking
        },
        _ => CommandBlockType::NonBlocking,
    }
}

impl Command {
    /// Whether the command holds up the commands after it: a wait, or a
    /// chain with a wait among its commands, does.
    pub fn block_type(&self) -> (r: CommandBlockType)
        ensures
            r == block_type_of(self@),
    {
        match self {
            Command::Wait { .. } => CommandBlockType::Blocking,
            Command::Chain { commands } => {
                let mut i: usize = 0;
                while i < commands.len()
                    invariant
                        i <= commands.len(),
                        forall|j: int| 0 <= j < i ==> !(#[trigger] commands@[j]@ is Wait),
                        *self == (Command::Chain { commands: *commands }),
                    decreases commands.len() - i,
                {
                    if let Command::Wait { .. } = &commands[i] {
                        assert(commands@[i as int]@ is Wait);
                        assert(self@ matches CommandV::Chain { commands: cs } && cs[i as int]
                            == commands@[i as int]@);
                        return CommandBlockType::Blocking;
                    }
                    i = i + 1;
                }
                proof {
                    if let CommandV::Chain { commands: cs } = self@ {
                        assert forall|j: int| 0 <= j < cs.len() implies !(#[trigger] cs[j] is Wait) by {
                            assert(cs[j] == commands@[j]@);
                        }
                    }
                }
                CommandBlockType::NonBlocking
            },
            _ => CommandBlockType::NonBlocking,
        }
    }
}

/// An input event that a waiting command may resume on.
#[derive(Debug)]
pub enum InputEvent {
    Click,
    Text(String),
    Key(char),
}

} // verus!
