//! The state a debugging session shares across requests, and the decisions
//! the request handlers and the notification bridge make on it.
use std::sync::Arc;
use vstd::prelude::*;

use crate::breakpoints::BreakpointTable;
use crate::cache::{
    evaluated_children, expansion_size, grows_within, project, DapVariable, DebuggerCache, DebuggerCacheItem,
    DebuggerCacheRef, EvalQuery, Expansion,
};
use crate::proto::{cmd_code, EvalReq, EvalRsp, Message, MessageCMD, Stack, ValueType};

verus! {

/// An event the bridge sends to the IDE.
#[derive(Debug, Clone, PartialEq, Eq)]
pub enum IdeEvent {
    Initialized,
    Stopped { reason: String, thread_id: i64 },
    /// Text for the IDE's console.
    Output { output: String },
    Terminated,
}

/// What the IDE is shown of a stack frame.
#[derive(Debug)]
pub struct StackInfo {
    pub level: i32,
    pub function_name: String,
    pub file: String,
    pub line: i32,
}

impl StackInfo {
    /// The frame fields of a stack entry.
    pub fn from(stack: &Stack) -> (r: Self)
        ensures
            r.level == stack.level,
            r.function_name@ == stack.function_name@,
            r.file@ == stack.file@,
            r.line == stack.line,
    {
        StackInfo {
            level: stack.level,
            function_name: stack.function_name.clone(),
            file: stack.file.clone(),
            line: stack.line,
        }
    }
}

/// A scope of a frame as the IDE is shown it.
#[derive(Debug)]
pub struct ScopeInfo {
    pub name: String,
    pub variables_reference: i64,
}

/// The answer to an evaluation request.
#[derive(Debug)]
pub struct EvaluateOutcome {
    pub result: String,
    pub kind_label: Option<String>,
    pub variables_reference: i64,
}

/// The stack frames with a positive line, in order.
pub open spec fn visible(stacks: Seq<Stack>) -> Seq<Stack>
    decreases stacks.len(),
{
    if stacks.len() == 0 {
        stacks
    } else if stacks.last().line > 0 {
        visible(stacks.drop_last()).push(stacks.last())
    } else {
        visible(stacks.drop_last())
    }
}

/// The state shared by the request handlers of one session.
#[derive(Debug)]
pub struct DebuggerData {
    pub stacks: Vec<Stack>,
    pub file_cache: Vec<(String, Option<String>)>,
    pub extension: Vec<String>,
    pub sources: Vec<String>,
    pub current_frame_id: i64,
    pub cache: DebuggerCache,
    pub breakpoints: BreakpointTable,
}

impl DebuggerData {
    /// The state's invariant: those of its cache and of its breakpoint table.
    pub open spec fn wf(&self) -> bool {
        self.cache.wf() && self.breakpoints.wf()
    }

    /// The state of a session that has just started.
    pub fn new() -> (r: Self)
        ensures
            r.wf(),
            r.stacks@.len() == 0,
            r.file_cache@.len() == 0,
            r.extension@.len() == 0,
            r.current_frame_id == 0,
            r.cache.entries() == Map::<i64, DebuggerCacheItem>::empty(),
            r.cache.next_id() == 1,
            r.breakpoints.items().len() == 0,
            r.breakpoints.next_id() == 0,
    {
        DebuggerData {
            stacks: Vec::new(),
            file_cache: Vec::new(),
            extension: Vec::new(),
            sources: Vec::new(),
            current_frame_id: 0,
            cache: DebuggerCache::new(),
            breakpoints: BreakpointTable::new(),
        }
    }

    /// The frames to show the IDE: those with a positive line, in order.
    pub fn stack_frames(&self) -> (r: Vec<StackInfo>)
        ensures
            r@.len() == visible(self.stacks@).len(),
            forall|i: int|
                0 <= i < r@.len() ==> {
                    let s = #[trigger] visible(self.stacks@)[i];
                    &&& r@[i].level == s.level
                    &&& r@[i].function_name@ == s.function_name@
                    &&& r@[i].file@ == s.file@
                    &&& r@[i].line == s.line
                },
    {
        let mut out: Vec<StackInfo> = Vec::new();
        let mut i: usize = 0;
        while i < self.stacks.len()
            invariant
                i <= self.stacks@.len(),
                out@.len() == visible(self.stacks@.take(i as int)).len(),
                forall|j: int|
                    0 <= j < out@.len() ==> {
                        let s = #[trigger] visible(self.stacks@.take(i as int))[j];
                        &&& out@[j].level == s.level
                        &&& out@[j].function_name@ == s.function_name@
                        &&& out@[j].file@ == s.file@
                        &&& out@[j].line == s.line
                    },
            decreases self.stacks@.len() - i,
        {
            let ghost prev = visible(self.stacks@.take(i as int));
            assert(self.stacks@.take(i as int + 1).drop_last() =~= self.stacks@.take(i as int));
            if self.stacks[i].line > 0 {
                out.push(StackInfo::from(&self.stacks[i]));
                assert forall|j: int| 0 <= j < out@.len() implies {
                    let s = #[trigger] visible(self.stacks@.take(i as int + 1))[j];
                    &&& out@[j].level == s.level
                    &&& out@[j].function_name@ == s.function_name@
                    &&& out@[j].file@ == s.file@
                    &&& out@[j].line == s.line
                } by {
                    if j < prev.len() {
                        assert(visible(self.stacks@.take(i as int + 1))[j] == prev[j]);
                    }
                }
            }
            i = i + 1;
        }
        assert(self.stacks@.take(self.stacks@.len() as int) =~= self.stacks@);
        out
    }

    /// Opens the scopes of frame `frame_id` (a position in the current
    /// stacks): caches a locals scope and an environment scope of a copy of
    /// the frame under two fresh identifiers and returns them as the scopes
    /// "Variables" and "Environment". A frame that does not exist has no
    /// scopes. The frame becomes the current one either way.
    pub fn scopes(&mut self, frame_id: i64) -> (r: Vec<ScopeInfo>)
        requires
            old(self).wf(),
            old(self).cache.next_id() + 2 < i64::MAX,
        ensures
            final(self).wf(),
            final(self).current_frame_id == frame_id,
            final(self).stacks == old(self).stacks,
            final(self).breakpoints == old(self).breakpoints,
            (0 <= frame_id < old(self).stacks@.len()) ==> {
                let n = old(self).cache.next_id();
                let s = old(self).stacks@[frame_id as int];
                &&& r@.len() == 2
                &&& r@[0].name@ == "Variables"@
                &&& r@[0].variables_reference == n
                &&& r@[1].name@ == "Environment"@
                &&& r@[1].variables_reference == n + 1
                &&& final(self).cache.next_id() == n + 2
                &&& final(self).cache.entries().contains_key(n as i64)
                &&& final(self).cache.entries().contains_key((n + 1) as i64)
                &&& match final(self).cache.entries()[n as i64] {
                    DebuggerCacheItem::Stack(e) => e.id == n && e.item@ == s@,
                    _ => false,
                }
                &&& match final(self).cache.entries()[(n + 1) as i64] {
                    DebuggerCacheItem::Env(e) => e.id == n + 1 && e.item@ == s@,
                    _ => false,
                }
                &&& forall|k: i64| #[trigger]
                    old(self).cache.entries().contains_key(k) ==> final(self).cache.entries().contains_key(k)
                        && final(self).cache.entries()[k] == old(self).cache.entries()[k]
            },
            !(0 <= frame_id < old(self).stacks@.len()) ==> {
                &&& r@.len() == 0
                &&& final(self).cache == old(self).cache
            },
    {
        self.current_frame_id = frame_id;
        let mut scopes: Vec<ScopeInfo> = Vec::new();
        proof {
            reveal_strlit("Variables");
            reveal_strlit("Environment");
        }
        if 0 <= frame_id && (frame_id as u64) < (self.stacks.len() as u64) {
            let idx = frame_id as usize;
            let stack = self.stacks[idx].clone();
            let env_stack = self.stacks[idx].clone();
            let ref_id = self.cache.allocate_cache_id();
            self.cache.add_cache(DebuggerCacheItem::Stack(Arc::new(DebuggerCacheRef::new(ref_id, stack))));
            scopes.push(ScopeInfo { name: String::from_str("Variables"), variables_reference: ref_id });
            let env_id = self.cache.allocate_cache_id();
            self.cache.add_cache(DebuggerCacheItem::Env(Arc::new(DebuggerCacheRef::new(env_id, env_stack))));
            scopes.push(ScopeInfo { name: String::from_str("Environment"), variables_reference: env_id });
        }
        scopes
    }

    /// Starts answering a request for the children of the entry `reference`:
    /// an unknown reference has none; otherwise the cache decides, and may
    /// ask for an evaluation first. Nothing is expanded once identifiers
    /// would run out.
    pub fn variables(&mut self, reference: i64) -> (r: Expansion)
        requires
            old(self).wf(),
        ensures
            final(self).wf(),
            grows_within(
                old(self).cache.entries(),
                final(self).cache.entries(),
                old(self).cache.next_id(),
                final(self).cache.next_id(),
            ),
            final(self).stacks == old(self).stacks,
            !old(self).cache.entries().contains_key(reference) ==> {
                &&& r is Ready
                &&& r->Ready_0@.len() == 0
                &&& final(self).cache == old(self).cache
            },
            old(self).cache.entries().contains_key(reference)
                && old(self).cache.next_id() + expansion_size(old(self).cache.entries()[reference]) < i64::MAX
                ==> crate::cache::expansion_result(
                old(self).cache,
                final(self).cache,
                old(self).cache.entries()[reference],
                r,
            ),
    {
        match self.cache.get_cache(reference) {
            Some(item) => {
                let size = expansion_count(&item);
                if self.cache.next_value() >= i64::MAX - size {
                    return Expansion::Ready(Vec::new());
                }
                item.compute_children(&mut self.cache)
            },
            None => Expansion::Ready(Vec::new()),
        }
    }

    /// Finishes a request for the children of the variable node `reference`
    /// once its evaluation has been answered (`Some`) or has failed (`None`).
    pub fn variables_evaluated(&mut self, reference: i64, rsp: Option<EvalRsp>) -> (r: Vec<DapVariable>)
        requires
            old(self).wf(),
        ensures
            final(self).wf(),
            grows_within(
                old(self).cache.entries(),
                final(self).cache.entries(),
                old(self).cache.next_id(),
                final(self).cache.next_id(),
            ),
            final(self).stacks == old(self).stacks,
            old(self).cache.entries().contains_key(reference) && old(self).cache.entries()[reference] is Variable
                && old(self).cache.next_id() + evaluated_children(old(self).cache.entries()[reference], rsp).len() < i64::MAX
                ==> {
                let vs = evaluated_children(old(self).cache.entries()[reference], rsp);
                &&& r@.len() == vs.len()
                &&& forall|i: int| 0 <= i < vs.len() ==> #[trigger] r@[i]@ == project(vs[i]@, old(self).cache.next_id() + i)
            },
    {
        match self.cache.get_cache(reference) {
            Some(item) => {
                match &item {
                    DebuggerCacheItem::Variable(_) => {
                        let size = evaluated_count(&item, &rsp);
                        if self.cache.next_value() >= i64::MAX - size {
                            return Vec::new();
                        }
                        self.cache.finish_children(&item, rsp)
                    },
                    _ => Vec::new(),
                }
            },
            None => Vec::new(),
        }
    }

    /// Answers an evaluation: a successful answer is cached as a root node
    /// and shown as its projection; an unsuccessful one shows the debugger's
    /// error as a string, with nothing to expand.
    pub fn evaluate_result(&mut self, rsp: EvalRsp) -> (r: EvaluateOutcome)
        requires
            old(self).wf(),
            old(self).cache.next_id() + 1 < i64::MAX,
        ensures
            final(self).wf(),
            grows_within(
                old(self).cache.entries(),
                final(self).cache.entries(),
                old(self).cache.next_id(),
                final(self).cache.next_id(),
            ),
            final(self).stacks == old(self).stacks,
            rsp.success ==> {
                let p = project(rsp.value@, old(self).cache.next_id());
                &&& r.result@ == p.value
                &&& r.variables_reference == p.variables_reference
                &&& r.kind_label is None
                &&& crate::cache::holds_node(final(self).cache.entries(), old(self).cache.next_id(), rsp.value, 0)
                &&& final(self).cache.next_id() == old(self).cache.next_id() + 1
            },
            !rsp.success ==> {
                &&& r.result@ == rsp.error@
                &&& r.variables_reference == 0
                &&& r.kind_label is Some
                &&& r.kind_label->Some_0@ == "string"@
                &&& final(self).cache == old(self).cache
            },
    {
        if rsp.success {
            let v = self.cache.add_eval_root(rsp.value);
            EvaluateOutcome { result: v.value, kind_label: None, variables_reference: v.variables_reference }
        } else {
            EvaluateOutcome {
                result: rsp.error,
                kind_label: Some(String::from_str("string")),
                variables_reference: 0,
            }
        }
    }

    /// Applies a notification of the debugger: a break replaces the stacks
    /// and stops the IDE at a breakpoint on thread 1; a log message goes to
    /// the IDE's console; other messages change nothing.
    pub fn on_notification(&mut self, msg: Message) -> (r: Option<IdeEvent>)
        ensures
            final(self).cache == old(self).cache,
            final(self).breakpoints == old(self).breakpoints,
            match msg {
                Message::BreakNotify(b) => {
                    &&& final(self).stacks == b.stacks
                    &&& r is Some
                    &&& r->Some_0 matches IdeEvent::Stopped { reason, thread_id }
                    &&& r->Some_0->Stopped_reason@ == "breakpoint"@
                    &&& r->Some_0->Stopped_thread_id == 1
                },
                Message::LogNotify(l) => {
                    &&& final(self).stacks == old(self).stacks
                    &&& r is Some
                    &&& r->Some_0 matches IdeEvent::Output { output }
                    &&& r->Some_0->Output_output@ == l.message@
                },
                _ => r is None && final(self).stacks == old(self).stacks,
            },
    {
        match msg {
            Message::BreakNotify(b) => {
                self.stacks = b.stacks;
                Some(IdeEvent::Stopped { reason: String::from_str("breakpoint"), thread_id: 1 })
            },
            Message::LogNotify(l) => Some(IdeEvent::Output { output: l.message }),
            _ => None,
        }
    }
}

impl Default for DebuggerData {
    fn default() -> (r: Self)
        ensures
            r.wf(),
            r.stacks@.len() == 0,
            r.cache.next_id() == 1,
            r.breakpoints.items().len() == 0,
    {
        DebuggerData::new()
    }
}

/// How many entries expanding `item` may add.
fn expansion_count(item: &DebuggerCacheItem) -> (r: i64)
    ensures
        r as int == expansion_size(*item) || (r == i64::MAX && expansion_size(*item) >= i64::MAX),
        r >= 0,
{
    let n: u128 = match item {
        DebuggerCacheItem::Stack(s) => s.item.local_variables.len() as u128
            + s.item.upvalue_variables.len() as u128,
        DebuggerCacheItem::Env(_) => 0,
        DebuggerCacheItem::Variable(v) => if v.item.var.value_type == ValueType::GROUP {
            match &v.item.var.children {
                Some(c) => c.len() as u128,
                None => 0,
            }
        } else {
            0
        },
    };
    if n >= i64::MAX as u128 {
        i64::MAX
    } else {
        n as i64
    }
}

/// How many children an answered evaluation gives the node `item`.
fn evaluated_count(item: &DebuggerCacheItem, rsp: &Option<EvalRsp>) -> (r: i64)
    requires
        item is Variable,
    ensures
        r as int == evaluated_children(*item, *rsp).len() || (r == i64::MAX && evaluated_children(*item, *rsp).len() >= i64::MAX),
        r >= 0,
{
    let n: u128 = match rsp {
        Some(rsp) => {
            if rsp.success {
                match &rsp.value.children {
                    Some(c) => c.len() as u128,
                    None => 0,
                }
            } else {
                0
            }
        },
        None => 0,
    };
    if n >= i64::MAX as u128 {
        i64::MAX
    } else {
        n as i64
    }
}

/// The evaluation that answers an IDE's request to evaluate `expression`:
/// at depth 1, from no cached value, in the given frame or else in none.
pub fn eval_query(expression: String, frame_id: Option<i64>) -> (r: EvalQuery)
    ensures
        r.expr == expression,
        r.cache_id == 0,
        r.depth == 1,
        frame_id is Some ==> r.frame_id == frame_id->Some_0,
        frame_id is None ==> r.frame_id == -1,
{
    let frame = match frame_id {
        Some(f) => f,
        None => -1,
    };
    EvalQuery { expr: expression, cache_id: 0, depth: 1, frame_id: frame }
}

/// The evaluation request with sequence number `seq` for `q`; the numbers
/// travel as 32-bit integers.
pub fn eval_request(seq: i64, q: EvalQuery) -> (r: EvalReq)
    requires
        0 <= seq <= i32::MAX,
    ensures
        r.cmd == cmd_code(MessageCMD::EvalReq),
        r.seq as int == seq,
        r.expr == q.expr,
        r.stack_level == q.frame_id as i32,
        r.depth == q.depth as i32,
        r.cache_id == q.cache_id as i32,
        r.value is None,
        r.set_value is None,
{
    EvalReq {
        cmd: MessageCMD::EvalReq.code() as i64,
        seq: seq as i32,
        expr: q.expr,
        stack_level: q.frame_id as i32,
        depth: q.depth as i32,
        cache_id: q.cache_id as i32,
        value: None,
        set_value: None,
    }
}

} // verus!
