//! What each IDE request decides before and after it talks to the debugger:
//! capabilities, threads, execution control, launching, the messages sent
//! once the debugger is connected, source path candidates and replies.
use vstd::prelude::*;

use crate::proto::{
    cmd_code, ActionReq, AddBreakPointReq, BreakPoint, DebugAction, InitReq, Message, MessageCMD,
    ReadyReq,
};
use crate::session::{DebuggerData, IdeEvent};

verus! {

/// The features the bridge tells the IDE it supports.
#[derive(Debug, Clone, Copy, PartialEq, Eq)]
pub struct Capabilities {
    pub supports_evaluate_for_hovers: bool,
    pub support_terminate_debuggee: bool,
    pub supports_log_points: bool,
    pub supports_conditional_breakpoints: bool,
}

/// The answer to `initialize`: hover evaluation, termination of the
/// debuggee, log points and conditional breakpoints.
pub fn capabilities() -> (r: Capabilities)
    ensures
        r.supports_evaluate_for_hovers,
        r.support_terminate_debuggee,
        r.supports_log_points,
        r.supports_conditional_breakpoints,
{
    Capabilities {
        supports_evaluate_for_hovers: true,
        support_terminate_debuggee: true,
        supports_log_points: true,
        supports_conditional_breakpoints: true,
    }
}

/// A thread as the IDE is shown it.
#[derive(Debug)]
pub struct ThreadInfo {
    pub id: i64,
    pub name: String,
}

/// The answer to `threads`: Lua runs one thread.
pub fn threads() -> (r: Vec<ThreadInfo>)
    ensures
        r@.len() == 1,
        r@[0].id == 1,
        r@[0].name@ == "Main Thread"@,
{
    proof {
        reveal_strlit("Main Thread");
    }
    let mut r: Vec<ThreadInfo> = Vec::new();
    r.push(ThreadInfo { id: 1, name: String::from_str("Main Thread") });
    r
}

/// An execution control request of the IDE.
#[derive(Debug, Clone, Copy, PartialEq, Eq)]
pub enum StepCommand {
    Pause,
    Continue,
    StepIn,
    StepOut,
    Next,
}

/// The debugger action that carries out an execution control request.
pub open spec fn action_of(c: StepCommand) -> DebugAction {
    match c {
        StepCommand::Pause => DebugAction::Break,
        StepCommand::Continue => DebugAction::Continue,
        StepCommand::StepIn => DebugAction::StepIn,
        StepCommand::StepOut => DebugAction::StepOut,
        StepCommand::Next => DebugAction::StepOver,
    }
}

/// The action request sent to the debugger for an execution control request.
pub fn action_request(c: StepCommand) -> (r: ActionReq)
    ensures
        r.cmd == cmd_code(MessageCMD::ActionReq),
        r.action == action_of(c),
{
    let action = match c {
        StepCommand::Pause => DebugAction::Break,
        StepCommand::Continue => DebugAction::Continue,
        StepCommand::StepIn => DebugAction::StepIn,
        StepCommand::StepOut => DebugAction::StepOut,
        StepCommand::Next => DebugAction::StepOver,
    };
    ActionReq { cmd: MessageCMD::ActionReq.code() as i64, action }
}

/// The events the IDE gets when the debugger's connection closes.
pub fn disconnect_events() -> (r: Vec<IdeEvent>)
    ensures
        r@.len() == 2,
        r@[0] matches IdeEvent::Output { output },
        r@[0]->Output_output@ == "Disconnected\n"@,
        r@[1] == IdeEvent::Terminated,
{
    proof {
        reveal_strlit("Disconnected\n");
    }
    let mut r: Vec<IdeEvent> = Vec::new();
    r.push(IdeEvent::Output { output: String::from_str("Disconnected\n") });
    r.push(IdeEvent::Terminated);
    r
}

/// The settings of a launch request.
#[derive(Debug, Clone)]
pub struct EmmyNewDebugArguments {
    pub host: String,
    pub port: u16,
    pub ext: Vec<String>,
    pub ide_connect_debugger: bool,
    pub source_paths: Vec<String>,
}

/// Where the bridge meets the debugger: it connects there (with a timeout in
/// seconds) or listens there for one connection.
#[derive(Debug)]
pub struct LaunchTarget {
    pub host: String,
    pub port: u16,
    pub connect: bool,
    pub timeout_secs: u64,
}

/// The host to use for a host name: `localhost` means the IPv6 loopback.
pub open spec fn resolved_host(host: Seq<char>) -> Seq<char> {
    if host == "localhost"@ {
        "[::1]"@
    } else {
        host
    }
}

/// Where a launch request meets the debugger: an outbound connection with a
/// five second timeout when the IDE connects, else a listener.
pub fn launch_target(args: &EmmyNewDebugArguments) -> (r: LaunchTarget)
    ensures
        r.host@ == resolved_host(args.host@),
        r.port == args.port,
        r.connect == args.ide_connect_debugger,
        r.timeout_secs == 5,
{
    proof {
        reveal_strlit("localhost");
        reveal_strlit("[::1]");
    }
    let local = String::from_str("localhost");
    let host = if args.host == local {
        String::from_str("[::1]")
    } else {
        args.host.clone()
    };
    LaunchTarget { host, port: args.port, connect: args.ide_connect_debugger, timeout_secs: 5 }
}

/// A port number given as an integer: it must lie in 0..65535.
pub fn port_from_int(value: i64) -> (r: Result<u16, String>)
    ensures
        0 <= value <= 65535 ==> r == Ok::<u16, String>(value as u16),
        !(0 <= value <= 65535) ==> r is Err,
{
    if 0 <= value && value <= 65535 {
        Ok(value as u16)
    } else {
        Err(String::from_str("port out of range"))
    }
}

/// Copies of a list of strings.
fn clone_strings(v: &Vec<String>) -> (r: Vec<String>)
    ensures
        r@.map_values(|s: String| s@) == v@.map_values(|s: String| s@),
{
    let mut out: Vec<String> = Vec::new();
    let mut i: usize = 0;
    while i < v.len()
        invariant
            i <= v@.len(),
            out@.map_values(|s: String| s@) == v@.take(i as int).map_values(|s: String| s@),
        decreases v@.len() - i,
    {
        let ghost before = out@.map_values(|s: String| s@);
        out.push(v[i].clone());
        assert(out@.map_values(|s: String| s@) =~= before.push(v@[i as int]@));
        assert(v@.take(i as int + 1).map_values(|s: String| s@) =~= v@.take(i as int).map_values(
            |s: String| s@,
        ).push(v@[i as int]@));
        i = i + 1;
    }
    assert(v@.take(v@.len() as int) =~= v@);
    out
}

/// The chunk name without the `@` that marks a file.
pub open spec fn basic_file(chunk: Seq<char>) -> Seq<char> {
    if chunk.len() > 0 && chunk[0] == '@' {
        chunk.drop_first()
    } else {
        chunk
    }
}

/// Whether `s` ends with `e`.
pub open spec fn ends_with(s: Seq<char>, e: Seq<char>) -> bool {
    e.len() <= s.len() && s.subrange(s.len() - e.len(), s.len() as int) == e
}

/// The paths to try for the bare name `b`, extension by extension: `b`
/// itself when it already ends with the extension, then `b` with the
/// extension appended.
pub open spec fn paths_for(b: Seq<char>, exts: Seq<Seq<char>>) -> Seq<Seq<char>>
    decreases exts.len(),
{
    if exts.len() == 0 {
        Seq::empty()
    } else if ends_with(b, exts.last()) {
        paths_for(b, exts.drop_last()).push(b).push(b + exts.last())
    } else {
        paths_for(b, exts.drop_last()).push(b + exts.last())
    }
}

/// The paths to try, in order, for the file of a chunk name.
pub open spec fn candidates(chunk: Seq<char>, exts: Seq<Seq<char>>) -> Seq<Seq<char>> {
    paths_for(basic_file(chunk), exts)
}

/// The resolution remembered for a chunk name: that of its first entry.
pub open spec fn remembered(
    entries: Seq<(Seq<char>, Option<Seq<char>>)>,
    chunk: Seq<char>,
) -> Option<Option<Seq<char>>>
    decreases entries.len(),
{
    if entries.len() == 0 {
        None
    } else if remembered(entries.drop_last(), chunk) is Some {
        remembered(entries.drop_last(), chunk)
    } else if entries.last().0 == chunk {
        Some(entries.last().1)
    } else {
        None
    }
}

/// The view of the file cache's entries.
pub open spec fn file_entries(v: Seq<(String, Option<String>)>) -> Seq<(Seq<char>, Option<Seq<char>>)> {
    v.map_values(|e: (String, Option<String>)| (e.0@, crate::proto::opt_view(e.1)))
}

fn str_ends_with(s: &str, e: &str) -> (r: bool)
    ensures
        r == ends_with(s@, e@),
{
    let n = s.unicode_len();
    let m = e.unicode_len();
    if m > n {
        return false;
    }
    let mut i: usize = 0;
    while i < m
        invariant
            n == s@.len(),
            m == e@.len(),
            m <= n,
            i <= m,
            forall|j: int| 0 <= j < i ==> s@[n - m + j] == e@[j],
        decreases m - i,
    {
        if s.get_char(n - m + i) != e.get_char(i) {
            assert(s@.subrange(n - m, n as int)[i as int] != e@[i as int]);
            return false;
        }
        i = i + 1;
    }
    assert(s@.subrange(n - m, n as int) =~= e@);
    true
}

impl DebuggerData {
    /// Answers a request to set the breakpoints of a source: without a path
    /// or a list nothing changes and nothing is acknowledged; otherwise the
    /// file's breakpoints become the requested ones and the whole table is
    /// to be sent to the debugger (the `bool`).
    pub fn set_breakpoints(
        &mut self,
        path: Option<String>,
        reqs: Option<Vec<crate::breakpoints::SourceBreakpoint>>,
    ) -> (r: (Vec<crate::breakpoints::BreakpointAck>, bool))
        requires
            old(self).wf(),
            reqs is Some ==> old(self).breakpoints.next_id() + reqs->Some_0@.len() <= i64::MAX,
        ensures
            final(self).wf(),
            final(self).stacks == old(self).stacks,
            final(self).cache == old(self).cache,
            (path is None || reqs is None) ==> {
                &&& r.0@.len() == 0
                &&& !r.1
                &&& final(self).breakpoints == old(self).breakpoints
            },
            (path is Some && reqs is Some) ==> {
                let q = reqs->Some_0@;
                &&& r.1
                &&& final(self).breakpoints.items() == crate::breakpoints::set_file(
                    old(self).breakpoints.items(),
                    path->Some_0@,
                    q,
                )
                &&& final(self).breakpoints.next_id() == old(self).breakpoints.next_id() + q.len()
                &&& r.0@.len() == q.len()
                &&& forall|i: int|
                    0 <= i < q.len() ==> #[trigger] r.0@[i] == (crate::breakpoints::BreakpointAck {
                        id: (old(self).breakpoints.next_id() + i) as i64,
                        line: q[i].line,
                        verified: true,
                    })
            },
    {
        match (path, reqs) {
            (Some(p), Some(q)) => {
                let acks = self.breakpoints.set_breakpoints(&p, &q);
                (acks, true)
            },
            _ => (Vec::new(), false),
        }
    }

    /// Keeps the extensions and source roots of a launch request.
    pub fn apply_launch(&mut self, args: &EmmyNewDebugArguments)
        ensures
            final(self).extension@.map_values(|s: String| s@) == args.ext@.map_values(|s: String| s@),
            final(self).sources@.map_values(|s: String| s@) == args.source_paths@.map_values(|s: String| s@),
            final(self).stacks == old(self).stacks,
            final(self).cache == old(self).cache,
            final(self).breakpoints == old(self).breakpoints,
    {
        self.extension = clone_strings(&args.ext);
        self.sources = clone_strings(&args.source_paths);
    }

    /// The request that sends the debugger every breakpoint, replacing the
    /// ones it had.
    pub fn add_breakpoint_req(&self) -> (r: AddBreakPointReq)
        ensures
            r.cmd == cmd_code(MessageCMD::AddBreakPointReq),
            r.clear,
            r.break_points@.map_values(|b: BreakPoint| b@) == self.breakpoints.items(),
    {
        AddBreakPointReq {
            cmd: MessageCMD::AddBreakPointReq.code() as i64,
            break_points: self.breakpoints.all(),
            clear: true,
        }
    }

    /// The messages sent, in order, once the debugger has connected: the
    /// init request with the extensions, every breakpoint, and the ready
    /// request.
    pub fn connect_messages(&self, ext: Vec<String>) -> (r: Vec<Message>)
        ensures
            r@.len() == 3,
            r@[0] matches Message::InitReq(q) && q.cmd == cmd_code(MessageCMD::InitReq) && q.emmy_helper@
                == ""@ && q.ext == ext,
            r@[1] matches Message::AddBreakPointReq(q) && q.cmd == cmd_code(MessageCMD::AddBreakPointReq)
                && q.clear && q.break_points@.map_values(|b: BreakPoint| b@) == self.breakpoints.items(),
            r@[2] matches Message::ReadyReq(q) && q.cmd == cmd_code(MessageCMD::ReadyReq),
    {
        proof {
            reveal_strlit("");
        }
        let mut r: Vec<Message> = Vec::new();
        r.push(
            Message::InitReq(
                InitReq { cmd: MessageCMD::InitReq.code() as i64, emmy_helper: String::new(), ext },
            ),
        );
        r.push(Message::AddBreakPointReq(self.add_breakpoint_req()));
        r.push(Message::ReadyReq(ReadyReq { cmd: MessageCMD::ReadyReq.code() as i64 }));
        r
    }

    /// What was remembered of a chunk name's file, if anything.
    pub fn cached_path(&self, chunk: &String) -> (r: Option<Option<String>>)
        ensures
            match r {
                Some(p) => remembered(file_entries(self.file_cache@), chunk@) == Some(
                    crate::proto::opt_view(p),
                ),
                None => remembered(file_entries(self.file_cache@), chunk@) is None,
            },
    {
        let ghost all = file_entries(self.file_cache@);
        let mut i: usize = 0;
        while i < self.file_cache.len()
            invariant
                i <= self.file_cache@.len(),
                all == file_entries(self.file_cache@),
                remembered(all.take(i as int), chunk@) is None,
            decreases self.file_cache@.len() - i,
        {
            assert(all.take(i as int + 1).drop_last() =~= all.take(i as int));
            if self.file_cache[i].0 == *chunk {
                let p = crate::proto::clone_opt(&self.file_cache[i].1);
                proof {
                    lemma_remembered_prefix(all, chunk@, i as int + 1);
                }
                return Some(p);
            }
            i = i + 1;
        }
        assert(all.take(self.file_cache@.len() as int) =~= all);
        None
    }

    /// Remembers that a chunk name's file is `path`.
    pub fn remember_path(&mut self, chunk: String, path: String)
        ensures
            file_entries(final(self).file_cache@) == file_entries(old(self).file_cache@).push(
                (chunk@, Some(path@)),
            ),
            final(self).stacks == old(self).stacks,
            final(self).cache == old(self).cache,
    {
        let ghost entry = (chunk@, Some(path@));
        self.file_cache.push((chunk, Some(path)));
        assert(file_entries(self.file_cache@) =~= file_entries(old(self).file_cache@).push(entry));
    }

    /// The paths to try, in order, for the file of a chunk name.
    pub fn candidate_paths(&self, chunk: &String) -> (r: Vec<String>)
        ensures
            r@.map_values(|s: String| s@) == candidates(
                chunk@,
                self.extension@.map_values(|s: String| s@),
            ),
    {
        let ghost exts = self.extension@.map_values(|s: String| s@);
        let n = chunk.as_str().unicode_len();
        let base: String = if n > 0 && chunk.as_str().get_char(0) == '@' {
            String::from_str(chunk.as_str().substring_char(1, n))
        } else {
            chunk.clone()
        };
        assert(base@ =~= basic_file(chunk@));
        let mut out: Vec<String> = Vec::new();
        let mut i: usize = 0;
        while i < self.extension.len()
            invariant
                i <= self.extension@.len(),
                exts == self.extension@.map_values(|s: String| s@),
                base@ == basic_file(chunk@),
                out@.map_values(|s: String| s@) == paths_for(base@, exts.take(i as int)),
            decreases self.extension@.len() - i,
        {
            assert(exts.take(i as int + 1).drop_last() =~= exts.take(i as int));
            assert(exts.take(i as int + 1).last() == exts[i as int]);
            let ghost before = out@.map_values(|s: String| s@);
            let e = self.extension[i].as_str();
            if str_ends_with(base.as_str(), e) {
                out.push(base.clone());
            }
            let mut p = base.clone();
            p.append(e);
            out.push(p);
            assert(out@.map_values(|s: String| s@) =~= paths_for(base@, exts.take(i as int + 1)));
            i = i + 1;
        }
        assert(exts.take(exts.len() as int) =~= exts);
        out

    }
}

proof fn lemma_remembered_prefix(s: Seq<(Seq<char>, Option<Seq<char>>)>, chunk: Seq<char>, n: int)
    requires
        1 <= n <= s.len(),
        remembered(s.take(n - 1), chunk) is None,
        s[n - 1].0 == chunk,
    ensures
        remembered(s, chunk) == Some(s[n - 1].1),
    decreases s.len(),
{
    assert(s.take(n).drop_last() =~= s.take(n - 1));
    if n == s.len() {
        assert(s.take(n) =~= s);
    } else {
        let d = s.drop_last();
        assert(d.take(n - 1) =~= s.take(n - 1));
        assert(d[n - 1] == s[n - 1]);
        lemma_remembered_prefix(d, chunk, n);
    }
}

/// How a request's handler ended.
#[derive(Debug)]
pub enum Reply<B> {
    Cancelled,
    Failed(String),
    Succeeded(B),
}

/// The reply to a request: a cancelled request is answered as cancelled
/// whatever its handler returned; otherwise the handler's error or body.
pub fn settle<B>(cancelled: bool, result: Result<B, String>) -> (r: Reply<B>)
    ensures
        cancelled ==> r is Cancelled,
        !cancelled ==> match result {
            Ok(b) => r == Reply::<B>::Succeeded(b),
            Err(e) => r == Reply::<B>::Failed(e),
        },
{
    if cancelled {
        Reply::Cancelled
    } else {
        match result {
            Ok(b) => Reply::Succeeded(b),
            Err(e) => Reply::Failed(e),
        }
    }
}

} // verus!
