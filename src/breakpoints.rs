//! The breakpoint table: at most one breakpoint per (file, line), replaced
//! file by file as the IDE sets them.
use vstd::prelude::*;

use crate::proto::{clone_opt, opt_view, BreakPoint, BreakPointView};

verus! {

/// A breakpoint as the IDE asks for it in one source file.
#[derive(Debug)]
pub struct SourceBreakpoint {
    pub line: i64,
    pub condition: Option<String>,
    pub hit_condition: Option<String>,
    pub log_message: Option<String>,
}

/// The breakpoint that a request sets in the file `path`.
pub open spec fn requested_view(path: Seq<char>, b: SourceBreakpoint) -> BreakPointView {
    BreakPointView {
        file: path,
        line: b.line as i32 as int,
        condition: opt_view(b.condition),
        hit_condition: opt_view(b.hit_condition),
        log_message: opt_view(b.log_message),
    }
}

/// The entries of `s` that lie in another file than `path`, in order.
pub open spec fn other_files(s: Seq<BreakPointView>, path: Seq<char>) -> Seq<BreakPointView>
    decreases s.len(),
{
    if s.len() == 0 {
        s
    } else if s.last().file == path {
        other_files(s.drop_last(), path)
    } else {
        other_files(s.drop_last(), path).push(s.last())
    }
}

/// The index of the first entry of `s` at (`file`, `line`), or -1.
pub open spec fn key_index(s: Seq<BreakPointView>, file: Seq<char>, line: int) -> int
    decreases s.len(),
{
    if s.len() == 0 {
        -1
    } else if key_index(s.drop_last(), file, line) >= 0 {
        key_index(s.drop_last(), file, line)
    } else if s.last().file == file && s.last().line == line {
        s.len() - 1
    } else {
        -1
    }
}

/// `s` with `b` put in: in place of the entry at the same (file, line), else
/// at the end.
pub open spec fn upsert(s: Seq<BreakPointView>, b: BreakPointView) -> Seq<BreakPointView> {
    let k = key_index(s, b.file, b.line);
    if k >= 0 {
        s.update(k, b)
    } else {
        s.push(b)
    }
}

/// `s` with each of `reqs` put in, in order, as breakpoints of `path`.
pub open spec fn upsert_all(
    s: Seq<BreakPointView>,
    path: Seq<char>,
    reqs: Seq<SourceBreakpoint>,
) -> Seq<BreakPointView>
    decreases reqs.len(),
{
    if reqs.len() == 0 {
        s
    } else {
        upsert(upsert_all(s, path, reqs.drop_last()), requested_view(path, reqs.last()))
    }
}

/// The table after the breakpoints of file `path` are set to `reqs`: the
/// other files' breakpoints stay, those of `path` are replaced.
pub open spec fn set_file(
    s: Seq<BreakPointView>,
    path: Seq<char>,
    reqs: Seq<SourceBreakpoint>,
) -> Seq<BreakPointView> {
    upsert_all(other_files(s, path), path, reqs)
}

/// The answer to one requested breakpoint.
#[derive(Debug, Clone, Copy, PartialEq, Eq)]
pub struct BreakpointAck {
    pub id: i64,
    pub line: i64,
    pub verified: bool,
}

/// The breakpoints the IDE has set, with the counter of the identifiers
/// the IDE is told.
#[derive(Debug)]
pub struct BreakpointTable {
    entries: Vec<BreakPoint>,
    next_id: i64,
}

impl BreakpointTable {
    /// The breakpoints, in the order they were first set.
    pub closed spec fn items(&self) -> Seq<BreakPointView> {
        self.entries@.map_values(|b: BreakPoint| b@)
    }

    /// The table's invariant: at most one breakpoint per (file, line).
    pub open spec fn wf(&self) -> bool {
        unique_keys(self.items())
    }

    /// The identifier the next acknowledged breakpoint gets.
    pub closed spec fn next_id(&self) -> int {
        self.next_id as int
    }

    /// The identifier the next acknowledged breakpoint gets.
    pub fn next_value(&self) -> (r: i64)
        ensures
            r == self.next_id(),
    {
        self.next_id
    }

    /// An empty table whose first identifier is 0.
    pub fn new() -> (r: Self)
        ensures
            r.items() == Seq::<BreakPointView>::empty(),
            r.next_id() == 0,
            r.wf(),
    {
        let r = BreakpointTable { entries: Vec::new(), next_id: 0 };
        assert(r.items() =~= Seq::<BreakPointView>::empty());
        r
    }

    /// Copies of all breakpoints, in table order.
    pub fn all(&self) -> (r: Vec<BreakPoint>)
        ensures
            r@.map_values(|b: BreakPoint| b@) == self.items(),
    {
        let mut out: Vec<BreakPoint> = Vec::new();
        let mut i: usize = 0;
        while i < self.entries.len()
            invariant
                i <= self.entries@.len(),
                out@.map_values(|b: BreakPoint| b@) == self.items().take(i as int),
            decreases self.entries@.len() - i,
        {
            let ghost before = out@.map_values(|b: BreakPoint| b@);
            out.push(self.entries[i].clone());
            assert(self.items()[i as int] == self.entries@[i as int]@);
            assert(out@.map_values(|b: BreakPoint| b@) =~= before.push(self.items()[i as int]));
            assert(self.items().take(i as int + 1) =~= self.items().take(i as int).push(self.items()[i as int]));
            i = i + 1;
        }
        assert(self.items().take(self.entries@.len() as int) =~= self.items());
        out
    }

    fn drop_file(&mut self, path: &String)
        ensures
            final(self).items() == other_files(old(self).items(), path@),
            final(self).next_id() == old(self).next_id(),
    {
        let mut kept: Vec<BreakPoint> = Vec::new();
        let mut i: usize = 0;
        let ghost all = self.items();
        while i < self.entries.len()
            invariant
                i <= self.entries@.len(),
                all == self.entries@.map_values(|b: BreakPoint| b@),
                kept@.map_values(|b: BreakPoint| b@) == other_files(all.take(i as int), path@),
            decreases self.entries@.len() - i,
        {
            assert(all.take(i as int + 1).drop_last() =~= all.take(i as int));
            if self.entries[i].file != *path {
                kept.push(self.entries[i].clone());
                assert(kept@.map_values(|b: BreakPoint| b@) =~= other_files(all.take(i as int), path@).push(all[i as int]));
            }
            i = i + 1;
        }
        assert(all.take(self.entries@.len() as int) =~= all);
        self.entries = kept;
    }

    fn find(&self, file: &String, line: i32) -> (r: Option<usize>)
        ensures
            match r {
                Some(k) => key_index(self.items(), file@, line as int) == k as int,
                None => key_index(self.items(), file@, line as int) == -1,
            },
    {
        let mut i: usize = 0;
        let ghost all = self.items();
        while i < self.entries.len()
            invariant
                i <= self.entries@.len(),
                all == self.items(),
                key_index(all.take(i as int), file@, line as int) == -1,
            decreases self.entries@.len() - i,
        {
            assert(all.take(i as int + 1).drop_last() =~= all.take(i as int));
            if self.entries[i].line == line && self.entries[i].file == *file {
                proof {
                    lemma_key_index_prefix(all, file@, line as int, i as int + 1);
                }
                return Some(i);
            }
            i = i + 1;
        }
        assert(all.take(self.entries@.len() as int) =~= all);
        None
    }

    fn put(&mut self, b: BreakPoint)
        ensures
            final(self).items() == upsert(old(self).items(), b@),
            final(self).next_id() == old(self).next_id(),
    {
        let ghost bv = b@;
        match self.find(&b.file, b.line) {
            Some(k) => {
                proof {
                    lemma_key_index_bound(old(self).items(), bv.file, bv.line);
                }
                self.entries.set(k, b);
                assert(self.items() =~= upsert(old(self).items(), bv));
            },
            None => {
                self.entries.push(b);
                assert(self.items() =~= upsert(old(self).items(), bv));
            },
        }
    }

    /// Sets the breakpoints of the file `path` to `reqs`: drops the file's
    /// earlier breakpoints, puts in each requested one, and acknowledges
    /// each, in order, under a fresh identifier as verified.
    pub fn set_breakpoints(&mut self, path: &String, reqs: &Vec<SourceBreakpoint>) -> (r: Vec<
        BreakpointAck,
    >)
        requires
            old(self).wf(),
            old(self).next_id() + reqs@.len() <= i64::MAX,
        ensures
            final(self).wf(),
            final(self).items() == set_file(old(self).items(), path@, reqs@),
            final(self).next_id() == old(self).next_id() + reqs@.len(),
            r@.len() == reqs@.len(),
            forall|i: int|
                0 <= i < reqs@.len() ==> #[trigger] r@[i] == (BreakpointAck {
                    id: (old(self).next_id() + i) as i64,
                    line: reqs@[i].line,
                    verified: true,
                }),
    {
        self.drop_file(path);
        let ghost base = self.items();
        let mut acks: Vec<BreakpointAck> = Vec::new();
        let mut i: usize = 0;
        while i < reqs.len()
            invariant
                i <= reqs@.len(),
                old(self).next_id() + reqs@.len() <= i64::MAX,
                self.items() == upsert_all(base, path@, reqs@.take(i as int)),
                self.next_id() == old(self).next_id() + i,
                acks@.len() == i,
                forall|j: int|
                    0 <= j < i ==> #[trigger] acks@[j] == (BreakpointAck {
                        id: (old(self).next_id() + j) as i64,
                        line: reqs@[j].line,
                        verified: true,
                    }),
            decreases reqs@.len() - i,
        {
            let q = &reqs[i];
            let b = BreakPoint {
                file: path.clone(),
                line: q.line as i32,
                condition: clone_opt(&q.condition),
                hit_condition: clone_opt(&q.hit_condition),
                log_message: clone_opt(&q.log_message),
            };
            assert(b@ == requested_view(path@, reqs@[i as int]));
            self.put(b);
            assert(reqs@.take(i as int + 1).drop_last() =~= reqs@.take(i as int));
            acks.push(BreakpointAck { id: self.next_id, line: q.line, verified: true });
            self.next_id = self.next_id + 1;
            i = i + 1;
        }
        assert(reqs@.take(reqs@.len() as int) =~= reqs@);
        proof {
            lemma_set_file_keeps_keys_unique(old(self).items(), path@, reqs@);
        }
        acks
    }
}

proof fn lemma_key_index_bound(s: Seq<BreakPointView>, file: Seq<char>, line: int)
    ensures
        -1 <= key_index(s, file, line) < s.len(),
    decreases s.len(),
{
    if s.len() > 0 {
        lemma_key_index_bound(s.drop_last(), file, line);
    }
}

proof fn lemma_key_index_prefix(s: Seq<BreakPointView>, file: Seq<char>, line: int, n: int)
    requires
        1 <= n <= s.len(),
        key_index(s.take(n - 1), file, line) == -1,
        s[n - 1].file == file,
        s[n - 1].line == line,
    ensures
        key_index(s, file, line) == n - 1,
    decreases s.len(),
{
    assert(s.take(n).drop_last() =~= s.take(n - 1));
    if n == s.len() {
        assert(s.take(n) =~= s);
    } else {
        let d = s.drop_last();
        assert(d.take(n - 1) =~= s.take(n - 1));
        assert(d[n - 1] == s[n - 1]);
        lemma_key_index_prefix(d, file, line, n);
    }
}

proof fn lemma_other_files_excludes(s: Seq<BreakPointView>, path: Seq<char>)
    ensures
        forall|i: int|
            0 <= i < other_files(s, path).len() ==> #[trigger] other_files(s, path)[i].file != path,
    decreases s.len(),
{
    if s.len() > 0 {
        lemma_other_files_excludes(s.drop_last(), path);
    }
}

/// Setting the breakpoints of a file to none leaves no breakpoint in that
/// file, and keeps those of every other file.
pub proof fn lemma_clearing_a_file(s: Seq<BreakPointView>, path: Seq<char>)
    ensures
        forall|i: int|
            0 <= i < set_file(s, path, Seq::empty()).len() ==> #[trigger] set_file(
                s,
                path,
                Seq::empty(),
            )[i].file != path,
        set_file(s, path, Seq::empty()) == other_files(s, path),
{
    lemma_other_files_excludes(s, path);
}

/// At most one breakpoint per (file, line).
pub open spec fn unique_keys(s: Seq<BreakPointView>) -> bool {
    forall|i: int, j: int|
        0 <= i < j < s.len() ==> !(#[trigger] s[i].file == #[trigger] s[j].file && s[i].line == s[j].line)
}

proof fn lemma_key_index_found(s: Seq<BreakPointView>, file: Seq<char>, line: int)
    ensures
        key_index(s, file, line) >= 0 ==> s[key_index(s, file, line)].file == file
            && s[key_index(s, file, line)].line == line,
        key_index(s, file, line) == -1 ==> forall|i: int|
            0 <= i < s.len() ==> !(#[trigger] s[i].file == file && s[i].line == line),
    decreases s.len(),
{
    lemma_key_index_bound(s, file, line);
    if s.len() > 0 {
        let d = s.drop_last();
        lemma_key_index_found(d, file, line);
        lemma_key_index_bound(d, file, line);
        if key_index(d, file, line) >= 0 {
            assert(s[key_index(d, file, line)] == d[key_index(d, file, line)]);
        } else if key_index(s, file, line) == -1 {
            assert forall|i: int| 0 <= i < s.len() implies !(#[trigger] s[i].file == file && s[i].line == line) by {
                if i < d.len() {
                    assert(s[i] == d[i]);
                } else {
                    assert(s[i] == s.last());
                }
            }
        }
    }
}

proof fn lemma_other_files_from(s: Seq<BreakPointView>, path: Seq<char>)
    ensures
        forall|i: int|
            0 <= i < other_files(s, path).len() ==> exists|j: int|
                0 <= j < s.len() && #[trigger] other_files(s, path)[i] == s[j],
    decreases s.len(),
{
    if s.len() > 0 {
        let d = s.drop_last();
        lemma_other_files_from(d, path);
        let o = other_files(s, path);
        assert forall|i: int| 0 <= i < o.len() implies exists|j: int| 0 <= j < s.len() && #[trigger] o[i] == s[j] by {
            if i < other_files(d, path).len() {
                let k = choose|k: int| 0 <= k < d.len() && other_files(d, path)[i] == d[k];
                assert(o[i] == other_files(d, path)[i]);
                assert(s[k] == d[k]);
            } else {
                assert(o[i] == s[s.len() - 1]);
            }
        }
    }
}

proof fn lemma_other_files_unique(s: Seq<BreakPointView>, path: Seq<char>)
    requires
        unique_keys(s),
    ensures
        unique_keys(other_files(s, path)),
    decreases s.len(),
{
    if s.len() > 0 {
        let d = s.drop_last();
        assert(unique_keys(d)) by {
            assert forall|i: int, j: int| 0 <= i < j < d.len() implies !(#[trigger] d[i].file == #[trigger] d[j].file
                && d[i].line == d[j].line) by {
                assert(d[i] == s[i] && d[j] == s[j]);
            }
        }
        lemma_other_files_unique(d, path);
        lemma_other_files_from(d, path);
        let o = other_files(d, path);
        if s.last().file != path {
            let x = s.last();
            assert forall|i: int, j: int| 0 <= i < j < o.push(x).len() implies !(#[trigger] o.push(x)[i].file
                == #[trigger] o.push(x)[j].file && o.push(x)[i].line == o.push(x)[j].line) by {
                if j == o.len() {
                    let k = choose|k: int| 0 <= k < d.len() && o[i] == d[k];
                    assert(s[k] == d[k]);
                    assert(x == s[s.len() - 1]);
                } else {
                    assert(o.push(x)[i] == o[i] && o.push(x)[j] == o[j]);
                }
            }
        }
    }
}

proof fn lemma_upsert_unique(s: Seq<BreakPointView>, b: BreakPointView)
    requires
        unique_keys(s),
    ensures
        unique_keys(upsert(s, b)),
{
    lemma_key_index_found(s, b.file, b.line);
    lemma_key_index_bound(s, b.file, b.line);
    let k = key_index(s, b.file, b.line);
    let u = upsert(s, b);
    if k >= 0 {
        assert forall|i: int, j: int| 0 <= i < j < u.len() implies !(#[trigger] u[i].file == #[trigger] u[j].file
            && u[i].line == u[j].line) by {
            assert(u[i].file == s[i].file && u[i].line == s[i].line);
            assert(u[j].file == s[j].file && u[j].line == s[j].line);
        }
    } else {
        assert forall|i: int, j: int| 0 <= i < j < u.len() implies !(#[trigger] u[i].file == #[trigger] u[j].file
            && u[i].line == u[j].line) by {
            if j == s.len() {
                assert(u[i] == s[i]);
                assert(u[j] == b);
            } else {
                assert(u[i] == s[i] && u[j] == s[j]);
            }
        }
    }
}

proof fn lemma_upsert_all_unique(s: Seq<BreakPointView>, path: Seq<char>, reqs: Seq<SourceBreakpoint>)
    requires
        unique_keys(s),
    ensures
        unique_keys(upsert_all(s, path, reqs)),
    decreases reqs.len(),
{
    if reqs.len() > 0 {
        lemma_upsert_all_unique(s, path, reqs.drop_last());
        lemma_upsert_unique(upsert_all(s, path, reqs.drop_last()), requested_view(path, reqs.last()));
    }
}

/// Setting the breakpoints of a file keeps at most one breakpoint per
/// (file, line) in the table.
pub proof fn lemma_set_file_keeps_keys_unique(
    s: Seq<BreakPointView>,
    path: Seq<char>,
    reqs: Seq<SourceBreakpoint>,
)
    requires
        unique_keys(s),
    ensures
        unique_keys(set_file(s, path, reqs)),
{
    lemma_other_files_unique(s, path);
    lemma_upsert_all_unique(other_files(s, path), path, reqs);
}

} // verus!
