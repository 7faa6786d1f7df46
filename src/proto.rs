//! Message kinds, value kinds and records of the debugger's wire protocol.
use vstd::prelude::*;

verus! {

/// The kind of a message exchanged with the debugger; each kind has a fixed
/// integer code (`Unknown` is 0, the others 1..17 in declaration order).
#[derive(Debug, Clone, Copy, PartialEq, Eq, Hash, Structural)]
pub enum MessageCMD {
    Unknown,
    InitReq,
    InitRsp,
    ReadyReq,
    ReadyRsp,
    AddBreakPointReq,
    AddBreakPointRsp,
    RemoveBreakPointReq,
    RemoveBreakPointRsp,
    ActionReq,
    ActionRsp,
    EvalReq,
    EvalRsp,
    BreakNotify,
    AttachedNotify,
    StartHookReq,
    StartHookRsp,
    LogNotify,
}

/// Code of a message kind.
pub open spec fn cmd_code(c: MessageCMD) -> int {
    match c {
        MessageCMD::Unknown => 0,
        MessageCMD::InitReq => 1,
        MessageCMD::InitRsp => 2,
        MessageCMD::ReadyReq => 3,
        MessageCMD::ReadyRsp => 4,
        MessageCMD::AddBreakPointReq => 5,
        MessageCMD::AddBreakPointRsp => 6,
        MessageCMD::RemoveBreakPointReq => 7,
        MessageCMD::RemoveBreakPointRsp => 8,
        MessageCMD::ActionReq => 9,
        MessageCMD::ActionRsp => 10,
        MessageCMD::EvalReq => 11,
        MessageCMD::EvalRsp => 12,
        MessageCMD::BreakNotify => 13,
        MessageCMD::AttachedNotify => 14,
        MessageCMD::StartHookReq => 15,
        MessageCMD::StartHookRsp => 16,
        MessageCMD::LogNotify => 17,
    }
}

/// The message kind with a given code; codes outside 1..17 are `Unknown`.
pub open spec fn cmd_of_code(v: int) -> MessageCMD {
    if v == 1 {
        MessageCMD::InitReq
    } else if v == 2 {
        MessageCMD::InitRsp
    } else if v == 3 {
        MessageCMD::ReadyReq
    } else if v == 4 {
        MessageCMD::ReadyRsp
    } else if v == 5 {
        MessageCMD::AddBreakPointReq
    } else if v == 6 {
        MessageCMD::AddBreakPointRsp
    } else if v == 7 {
        MessageCMD::RemoveBreakPointReq
    } else if v == 8 {
        MessageCMD::RemoveBreakPointRsp
    } else if v == 9 {
        MessageCMD::ActionReq
    } else if v == 10 {
        MessageCMD::ActionRsp
    } else if v == 11 {
        MessageCMD::EvalReq
    } else if v == 12 {
        MessageCMD::EvalRsp
    } else if v == 13 {
        MessageCMD::BreakNotify
    } else if v == 14 {
        MessageCMD::AttachedNotify
    } else if v == 15 {
        MessageCMD::StartHookReq
    } else if v == 16 {
        MessageCMD::StartHookRsp
    } else if v == 17 {
        MessageCMD::LogNotify
    } else {
        MessageCMD::Unknown
    }
}

/// The response kind that answers a request kind; `Unknown` for the others.
pub open spec fn rsp_of(c: MessageCMD) -> MessageCMD {
    match c {
        MessageCMD::InitReq => MessageCMD::InitRsp,
        MessageCMD::ReadyReq => MessageCMD::ReadyRsp,
        MessageCMD::AddBreakPointReq => MessageCMD::AddBreakPointRsp,
        MessageCMD::RemoveBreakPointReq => MessageCMD::RemoveBreakPointRsp,
        MessageCMD::ActionReq => MessageCMD::ActionRsp,
        MessageCMD::EvalReq => MessageCMD::EvalRsp,
        MessageCMD::StartHookReq => MessageCMD::StartHookRsp,
        _ => MessageCMD::Unknown,
    }
}

impl MessageCMD {
    /// The message kind of a code read from the wire.
    pub fn from_code(value: i64) -> (r: MessageCMD)
        ensures
            r == cmd_of_code(value as int),
    {
        match value {
            1 => MessageCMD::InitReq,
            2 => MessageCMD::InitRsp,
            3 => MessageCMD::ReadyReq,
            4 => MessageCMD::ReadyRsp,
            5 => MessageCMD::AddBreakPointReq,
            6 => MessageCMD::AddBreakPointRsp,
            7 => MessageCMD::RemoveBreakPointReq,
            8 => MessageCMD::RemoveBreakPointRsp,
            9 => MessageCMD::ActionReq,
            10 => MessageCMD::ActionRsp,
            11 => MessageCMD::EvalReq,
            12 => MessageCMD::EvalRsp,
            13 => MessageCMD::BreakNotify,
            14 => MessageCMD::AttachedNotify,
            15 => MessageCMD::StartHookReq,
            16 => MessageCMD::StartHookRsp,
            17 => MessageCMD::LogNotify,
            _ => MessageCMD::Unknown,
        }
    }

    /// The code of this kind on the wire.
    pub fn code(&self) -> (r: u8)
        ensures
            r as int == cmd_code(*self),
    {
        match self {
            MessageCMD::Unknown => 0,
            MessageCMD::InitReq => 1,
            MessageCMD::InitRsp => 2,
            MessageCMD::ReadyReq => 3,
            MessageCMD::ReadyRsp => 4,
            MessageCMD::AddBreakPointReq => 5,
            MessageCMD::AddBreakPointRsp => 6,
            MessageCMD::RemoveBreakPointReq => 7,
            MessageCMD::RemoveBreakPointRsp => 8,
            MessageCMD::ActionReq => 9,
            MessageCMD::ActionRsp => 10,
            MessageCMD::EvalReq => 11,
            MessageCMD::EvalRsp => 12,
            MessageCMD::BreakNotify => 13,
            MessageCMD::AttachedNotify => 14,
            MessageCMD::StartHookReq => 15,
            MessageCMD::StartHookRsp => 16,
            MessageCMD::LogNotify => 17,
        }
    }

    /// The kind of the response that answers a request of this kind.
    pub fn get_rsp_cmd(&self) -> (r: MessageCMD)
        ensures
            r == rsp_of(*self),
    {
        match self {
            MessageCMD::InitReq => MessageCMD::InitRsp,
            MessageCMD::ReadyReq => MessageCMD::ReadyRsp,
            MessageCMD::AddBreakPointReq => MessageCMD::AddBreakPointRsp,
            MessageCMD::RemoveBreakPointReq => MessageCMD::RemoveBreakPointRsp,
            MessageCMD::ActionReq => MessageCMD::ActionRsp,
            MessageCMD::EvalReq => MessageCMD::EvalRsp,
            MessageCMD::StartHookReq => MessageCMD::StartHookRsp,
        MessageCMD::StartHookReq => MessageCMD::StartHookRsp,
            _ => MessageCMD::Unknown,
        }
    }
}

/// Every known kind's code reads back as that kind, and every code in 1..17
/// names a kind whose code it is: the codes are a bijection between the known
/// kinds and 1..17.
pub proof fn lemma_cmd_codes_round_trip(c: MessageCMD, v: int)
    ensures
        cmd_of_code(cmd_code(c)) == c,
        c != MessageCMD::Unknown <==> 1 <= cmd_code(c) <= 17,
        1 <= v <= 17 ==> cmd_code(cmd_of_code(v)) == v,
        !(1 <= v <= 17) ==> cmd_of_code(v) == MessageCMD::Unknown,
{
}

/// The kind of a Lua value, as the debugger reports it.
#[allow(non_camel_case_types)]
#[derive(Debug, Clone, Copy, PartialEq, Eq, Structural)]
pub enum ValueType {
    TNIL,
    TBOOLEAN,
    TLIGHTUSERDATA,
    TNUMBER,
    TSTRING,
    TTABLE,
    TFUNCTION,
    TUSERDATA,
    TTHREAD,
    GROUP,
}

/// Code of a value kind (0..9).
pub open spec fn value_type_code(t: ValueType) -> int {
    match t {
        ValueType::TNIL => 0,
        ValueType::TBOOLEAN => 1,
        ValueType::TLIGHTUSERDATA => 2,
        ValueType::TNUMBER => 3,
        ValueType::TSTRING => 4,
        ValueType::TTABLE => 5,
        ValueType::TFUNCTION => 6,
        ValueType::TUSERDATA => 7,
        ValueType::TTHREAD => 8,
        ValueType::GROUP => 9,
    }
}

impl ValueType {
    /// The value kind of a code; codes above 9 read as `TNIL`.
    pub fn from_code(value: u8) -> (r: ValueType)
        ensures
            value <= 9 ==> value_type_code(r) == value as int,
            value > 9 ==> r == ValueType::TNIL,
    {
        match value {
            0 => ValueType::TNIL,
            1 => ValueType::TBOOLEAN,
            2 => ValueType::TLIGHTUSERDATA,
            3 => ValueType::TNUMBER,
            4 => ValueType::TSTRING,
            5 => ValueType::TTABLE,
            6 => ValueType::TFUNCTION,
            7 => ValueType::TUSERDATA,
            8 => ValueType::TTHREAD,
            9 => ValueType::GROUP,
            _ => ValueType::TNIL,
        }
    }

    /// The code of this value kind.
    pub fn code(&self) -> (r: u8)
        ensures
            r as int == value_type_code(*self),
    {
        match self {
            ValueType::TNIL => 0,
            ValueType::TBOOLEAN => 1,
            ValueType::TLIGHTUSERDATA => 2,
            ValueType::TNUMBER => 3,
            ValueType::TSTRING => 4,
            ValueType::TTABLE => 5,
            ValueType::TFUNCTION => 6,
            ValueType::TUSERDATA => 7,
            ValueType::TTHREAD => 8,
            ValueType::GROUP => 9,
        }
    }
}

/// How the name of a variable is to be read.
#[derive(Debug, Clone, Copy, PartialEq, Eq, Structural)]
pub enum VariableNameType {
    NString,
    NNumber,
    NComplex,
}

/// Code of a name kind (0..2).
pub open spec fn name_type_code(t: VariableNameType) -> int {
    match t {
        VariableNameType::NString => 0,
        VariableNameType::NNumber => 1,
        VariableNameType::NComplex => 2,
    }
}

impl VariableNameType {
    /// The name kind of a code; codes above 2 read as `NString`.
    pub fn from_code(value: u8) -> (r: VariableNameType)
        ensures
            value <= 2 ==> name_type_code(r) == value as int,
            value > 2 ==> r == VariableNameType::NString,
    {
        match value {
            0 => VariableNameType::NString,
            1 => VariableNameType::NNumber,
            2 => VariableNameType::NComplex,
            _ => VariableNameType::NString,
        }
    }

    /// The code of this name kind.
    pub fn code(&self) -> (r: u8)
        ensures
            r as int == name_type_code(*self),
    {
        match self {
            VariableNameType::NString => 0,
            VariableNameType::NNumber => 1,
            VariableNameType::NComplex => 2,
        }
    }
}

/// An execution control command for the debugger.
#[derive(Debug, Clone, Copy, PartialEq, Eq, Structural)]
pub enum DebugAction {
    Break,
    Continue,
    StepOver,
    StepIn,
    StepOut,
    Stop,
}

/// Code of an action (0..5).
pub open spec fn action_code(a: DebugAction) -> int {
    match a {
        DebugAction::Break => 0,
        DebugAction::Continue => 1,
        DebugAction::StepOver => 2,
        DebugAction::StepIn => 3,
        DebugAction::StepOut => 4,
        DebugAction::Stop => 5,
    }
}

impl DebugAction {
    /// The action of a code; codes above 5 read as `Stop`.
    pub fn from_code(value: u8) -> (r: DebugAction)
        ensures
            value <= 5 ==> action_code(r) == value as int,
            value > 5 ==> r == DebugAction::Stop,
    {
        match value {
            0 => DebugAction::Break,
            1 => DebugAction::Continue,
            2 => DebugAction::StepOver,
            3 => DebugAction::StepIn,
            4 => DebugAction::StepOut,
            _ => DebugAction::Stop,
        }
    }

    /// The code of this action.
    pub fn code(&self) -> (r: u8)
        ensures
            r as int == action_code(*self),
    {
        match self {
            DebugAction::Break => 0,
            DebugAction::Continue => 1,
            DebugAction::StepOver => 2,
            DebugAction::StepIn => 3,
            DebugAction::StepOut => 4,
            DebugAction::Stop => 5,
        }
    }
}

/// A variable as the debugger reports it. `name_type` is `TSTRING` when the
/// name is an identifier; `children` is present when the value was expanded.
#[derive(Debug)]
pub struct Variable {
    pub name: String,
    pub name_type: ValueType,
    pub value: String,
    pub value_type: ValueType,
    pub value_type_name: String,
    pub cache_id: i32,
    pub children: Option<Vec<Variable>>,
}

/// What a variable says of itself, its children left aside.
pub struct VarView {
    pub name: Seq<char>,
    pub name_type: ValueType,
    pub value: Seq<char>,
    pub value_type: ValueType,
    pub value_type_name: Seq<char>,
    pub cache_id: int,
}

impl View for Variable {
    type V = VarView;

    open spec fn view(&self) -> VarView {
        VarView {
            name: self.name@,
            name_type: self.name_type,
            value: self.value@,
            value_type: self.value_type,
            value_type_name: self.value_type_name@,
            cache_id: self.cache_id as int,
        }
    }
}

/// The views of a list of variables.
pub open spec fn vars_view(vs: Seq<Variable>) -> Seq<VarView> {
    vs.map_values(|v: Variable| v@)
}

/// The views of a variable's children, if it has them.
pub open spec fn children_view(v: Variable) -> Option<Seq<VarView>> {
    match v.children {
        Some(c) => Some(vars_view(c@)),
        None => None,
    }
}

impl Variable {
    /// A copy of this variable and, recursively, of its children.
    pub fn duplicate(&self) -> (r: Variable)
        ensures
            r@ == self@,
            children_view(r) == children_view(*self),
        decreases self,
    {
        let children = match &self.children {
            Some(c) => {
                let mut out: Vec<Variable> = Vec::new();
                let mut i: usize = 0;
                while i < c.len()
                    invariant
                        self.children == Some(*c),
                        i <= c.len(),
                        out@.len() == i,
                        forall|j: int| 0 <= j < i ==> out@[j]@ == c@[j]@,
                    decreases c.len() - i,
                {
                    proof {
                        vstd::std_specs::vec::axiom_vec_index_decreases(*c, i as int);
                        assert(decreases_to!(*self => self.children));
                        assert(self.children->Some_0 == *c);
                        assert(decreases_to!(self.children => self.children->Some_0));
                    }
                    out.push(c[i].duplicate());
                    i = i + 1;
                }
                assert(vars_view(out@) =~= vars_view(c@));
                Some(out)
            },
            None => None,
        };
        Variable {
            name: self.name.clone(),
            name_type: self.name_type,
            value: self.value.clone(),
            value_type: self.value_type,
            value_type_name: self.value_type_name.clone(),
            cache_id: self.cache_id,
            children,
        }
    }
}

impl Clone for Variable {
    fn clone(&self) -> (r: Self)
        ensures
            r@ == self@,
            children_view(r) == children_view(*self),
    {
        self.duplicate()
    }
}

/// A frame of the Lua call stack; `level` is the debugger's 0-based index.
#[derive(Debug)]
pub struct Stack {
    pub file: String,
    pub line: i32,
    pub function_name: String,
    pub level: i32,
    pub local_variables: Vec<Variable>,
    pub upvalue_variables: Vec<Variable>,
}

/// A breakpoint as the debugger takes it.
#[derive(Debug)]
pub struct BreakPoint {
    pub file: String,
    pub line: i32,
    pub condition: Option<String>,
    pub hit_condition: Option<String>,
    pub log_message: Option<String>,
}

/// What a frame holds, its variables by their views.
pub struct StackView {
    pub file: Seq<char>,
    pub line: int,
    pub function_name: Seq<char>,
    pub level: int,
    pub local_variables: Seq<VarView>,
    pub upvalue_variables: Seq<VarView>,
}

impl View for Stack {
    type V = StackView;

    open spec fn view(&self) -> StackView {
        StackView {
            file: self.file@,
            line: self.line as int,
            function_name: self.function_name@,
            level: self.level as int,
            local_variables: vars_view(self.local_variables@),
            upvalue_variables: vars_view(self.upvalue_variables@),
        }
    }
}

/// Copies of a list of variables.
pub fn clone_vars(vs: &Vec<Variable>) -> (r: Vec<Variable>)
    ensures
        vars_view(r@) == vars_view(vs@),
        r@.len() == vs@.len(),
        forall|i: int| 0 <= i < vs@.len() ==> children_view(#[trigger] r@[i]) == children_view(vs@[i]),
{
    let mut out: Vec<Variable> = Vec::new();
    let mut i: usize = 0;
    while i < vs.len()
        invariant
            i <= vs@.len(),
            out@.len() == i,
            forall|j: int|
                #![trigger out@[j]]
                0 <= j < i ==> out@[j]@ == vs@[j]@ && children_view(out@[j]) == children_view(vs@[j]),
        decreases vs@.len() - i,
    {
        out.push(vs[i].clone());
        i = i + 1;
    }
    assert(vars_view(out@) =~= vars_view(vs@));
    out
}

impl Clone for Stack {
    fn clone(&self) -> (r: Self)
        ensures
            r@ == self@,
    {
        Stack {
            file: self.file.clone(),
            line: self.line,
            function_name: self.function_name.clone(),
            level: self.level,
            local_variables: clone_vars(&self.local_variables),
            upvalue_variables: clone_vars(&self.upvalue_variables),
        }
    }
}

/// The view of an optional string.
pub open spec fn opt_view(o: Option<String>) -> Option<Seq<char>> {
    match o {
        Some(s) => Some(s@),
        None => None,
    }
}

/// A copy of an optional string.
pub fn clone_opt(o: &Option<String>) -> (r: Option<String>)
    ensures
        opt_view(r) == opt_view(*o),
{
    match o {
        Some(s) => Some(s.clone()),
        None => None,
    }
}

/// What a breakpoint holds.
pub struct BreakPointView {
    pub file: Seq<char>,
    pub line: int,
    pub condition: Option<Seq<char>>,
    pub hit_condition: Option<Seq<char>>,
    pub log_message: Option<Seq<char>>,
}

impl View for BreakPoint {
    type V = BreakPointView;

    open spec fn view(&self) -> BreakPointView {
        BreakPointView {
            file: self.file@,
            line: self.line as int,
            condition: opt_view(self.condition),
            hit_condition: opt_view(self.hit_condition),
            log_message: opt_view(self.log_message),
        }
    }
}

impl Clone for BreakPoint {
    fn clone(&self) -> (r: Self)
        ensures
            r@ == self@,
    {
        BreakPoint {
            file: self.file.clone(),
            line: self.line,
            condition: clone_opt(&self.condition),
            hit_condition: clone_opt(&self.hit_condition),
            log_message: clone_opt(&self.log_message),
        }
    }
}

#[derive(Debug)]
pub struct InitReq {
    pub cmd: i64,
    pub emmy_helper: String,
    pub ext: Vec<String>,
}

#[derive(Debug)]
pub struct InitRsp {
    pub version: String,
}

#[derive(Debug)]
pub struct AddBreakPointReq {
    pub cmd: i64,
    pub break_points: Vec<BreakPoint>,
    pub clear: bool,
}

#[derive(Debug)]
pub struct AddBreakPointRsp {}

#[derive(Debug)]
pub struct RemoveBreakPointReq {
    pub cmd: i64,
    pub break_points: Vec<BreakPoint>,
}

#[derive(Debug)]
pub struct RemoveBreakPointRsp {}

#[derive(Debug)]
pub struct ActionReq {
    pub cmd: i64,
    pub action: DebugAction,
}

#[derive(Debug)]
pub struct ActionRsp {}

#[derive(Debug)]
pub struct BreakNotify {
    pub stacks: Vec<Stack>,
}

#[derive(Debug)]
pub struct EvalReq {
    pub cmd: i64,
    pub seq: i32,
    pub expr: String,
    pub stack_level: i32,
    pub depth: i32,
    pub cache_id: i32,
    pub value: Option<String>,
    pub set_value: Option<bool>,
}

#[derive(Debug)]
pub struct EvalRsp {
    pub seq: i32,
    pub success: bool,
    pub error: String,
    pub value: Variable,
}

#[derive(Debug)]
pub struct ReadyReq {
    pub cmd: i64,
}

#[derive(Debug)]
pub struct ReadyRsp {}

#[derive(Debug)]
pub struct AttachedNotify {}

#[derive(Debug)]
pub struct StartHookReq {
    pub cmd: i64,
}

#[derive(Debug)]
pub struct StartHookRsp {}

#[derive(Debug)]
pub struct LogNotify {
    pub message: String,
}

/// A message of the debugger protocol, one variant per kind.
#[derive(Debug)]
pub enum Message {
    InitReq(InitReq),
    InitRsp(InitRsp),
    ReadyReq(ReadyReq),
    ReadyRsp(ReadyRsp),
    AddBreakPointReq(AddBreakPointReq),
    AddBreakPointRsp(AddBreakPointRsp),
    RemoveBreakPointReq(RemoveBreakPointReq),
    RemoveBreakPointRsp(RemoveBreakPointRsp),
    ActionReq(ActionReq),
    ActionRsp(ActionRsp),
    EvalReq(EvalReq),
    EvalRsp(EvalRsp),
    BreakNotify(BreakNotify),
    AttachedNotify(AttachedNotify),
    StartHookReq(StartHookReq),
    StartHookRsp(StartHookRsp),
    LogNotify(LogNotify),
}

/// The kind of a message.
pub open spec fn message_kind(m: Message) -> MessageCMD {
    match m {
        Message::InitReq(_) => MessageCMD::InitReq,
        Message::InitRsp(_) => MessageCMD::InitRsp,
        Message::ReadyReq(_) => MessageCMD::ReadyReq,
        Message::ReadyRsp(_) => MessageCMD::ReadyRsp,
        Message::AddBreakPointReq(_) => MessageCMD::AddBreakPointReq,
        Message::AddBreakPointRsp(_) => MessageCMD::AddBreakPointRsp,
        Message::RemoveBreakPointReq(_) => MessageCMD::RemoveBreakPointReq,
        Message::RemoveBreakPointRsp(_) => MessageCMD::RemoveBreakPointRsp,
        Message::ActionReq(_) => MessageCMD::ActionReq,
        Message::ActionRsp(_) => MessageCMD::ActionRsp,
        Message::EvalReq(_) => MessageCMD::EvalReq,
        Message::EvalRsp(_) => MessageCMD::EvalRsp,
        Message::BreakNotify(_) => MessageCMD::BreakNotify,
        Message::AttachedNotify(_) => MessageCMD::AttachedNotify,
        Message::StartHookReq(_) => MessageCMD::StartHookReq,
        Message::StartHookRsp(_) => MessageCMD::StartHookRsp,
        Message::LogNotify(_) => MessageCMD::LogNotify,
    }
}

impl Message {
    /// The kind of this message.
    pub fn get_cmd(&self) -> (r: MessageCMD)
        ensures
            r == message_kind(*self),
            r != MessageCMD::Unknown,
    {
        match self {
            Message::InitReq(_) => MessageCMD::InitReq,
            Message::InitRsp(_) => MessageCMD::InitRsp,
            Message::ReadyReq(_) => MessageCMD::ReadyReq,
            Message::ReadyRsp(_) => MessageCMD::ReadyRsp,
            Message::AddBreakPointReq(_) => MessageCMD::AddBreakPointReq,
            Message::AddBreakPointRsp(_) => MessageCMD::AddBreakPointRsp,
            Message::RemoveBreakPointReq(_) => MessageCMD::RemoveBreakPointReq,
            Message::RemoveBreakPointRsp(_) => MessageCMD::RemoveBreakPointRsp,
            Message::ActionReq(_) => MessageCMD::ActionReq,
            Message::ActionRsp(_) => MessageCMD::ActionRsp,
            Message::EvalReq(_) => MessageCMD::EvalReq,
            Message::EvalRsp(_) => MessageCMD::EvalRsp,
            Message::BreakNotify(_) => MessageCMD::BreakNotify,
            Message::AttachedNotify(_) => MessageCMD::AttachedNotify,
            Message::StartHookReq(_) => MessageCMD::StartHookReq,
            Message::StartHookRsp(_) => MessageCMD::StartHookRsp,
            Message::LogNotify(_) => MessageCMD::LogNotify,
        }
    }
}

} // verus!
