//! Tables that route replies to their waiters: evaluation replies by
//! sequence number, other replies and notifications by kind, and the
//! cancellation handles of requests in flight by request number.
use std::collections::HashMap;
use vstd::prelude::*;

use crate::proto::{cmd_code, MessageCMD};

verus! {

broadcast use vstd::std_specs::hash::group_hash_axioms;

/// Taking the entry under `key` out of `m`: what was there, and what remains.
pub open spec fn take_from<T>(m: Map<i64, T>, key: i64) -> (Option<T>, Map<i64, T>) {
    if m.contains_key(key) {
        (Some(m[key]), m.remove(key))
    } else {
        (None, m)
    }
}

/// A table of one waiter per integer key; a new waiter under a key replaces
/// the earlier one.
#[derive(Debug)]
pub struct WaiterTable<T> {
    waiters: HashMap<i64, T>,
}

impl<T> View for WaiterTable<T> {
    type V = Map<i64, T>;

    closed spec fn view(&self) -> Map<i64, T> {
        self.waiters@
    }
}

impl<T> WaiterTable<T> {
    /// A table without waiters.
    pub fn new() -> (r: Self)
        ensures
            r@ == Map::<i64, T>::empty(),
    {
        WaiterTable { waiters: HashMap::new() }
    }

    /// Registers `waiter` under `key`, replacing any earlier one.
    pub fn register(&mut self, key: i64, waiter: T)
        ensures
            final(self)@ == old(self)@.insert(key, waiter),
    {
        self.waiters.insert(key, waiter);
    }

    /// Removes and returns the waiter under `key`, if there is one.
    pub fn take(&mut self, key: i64) -> (r: Option<T>)
        ensures
            (r, final(self)@) == take_from(old(self)@, key),
    {
        let r = self.waiters.remove(&key);
        assert(self.waiters@ =~= take_from(old(self)@, key).1);
        r
    }

    /// The waiter under `key`, left in place.
    pub fn get(&self, key: i64) -> (r: Option<&T>)
        ensures
            r == (if self@.contains_key(key) {
                Some(&self@[key])
            } else {
                None
            }),
    {
        self.waiters.get(&key)
    }

    /// Whether a waiter is registered under `key`.
    pub fn contains(&self, key: i64) -> (r: bool)
        ensures
            r == self@.contains_key(key),
    {
        self.waiters.get(&key).is_some()
    }
}

/// The key of a message kind in a table of waiters by kind.
pub open spec fn kind_key(cmd: MessageCMD) -> i64 {
    cmd_code(cmd) as i64
}

/// The key under which waiters for messages of kind `cmd` are registered.
pub fn kind_key_of(cmd: MessageCMD) -> (r: i64)
    ensures
        r == kind_key(cmd),
{
    cmd.code() as i64
}

/// Where a message read from the debugger goes.
#[derive(Debug, Clone, Copy, PartialEq, Eq)]
pub enum Route {
    /// To the waiter of the evaluation with this sequence number.
    EvalReply(i64),
    /// To the waiter registered for this kind's key.
    ByKind(i64),
}

/// Where a message of kind `cmd` goes: an evaluation reply to the waiter of
/// its sequence number `seq`, any other message to the waiter of its kind.
pub fn route(cmd: MessageCMD, seq: i32) -> (r: Route)
    ensures
        cmd == MessageCMD::EvalRsp ==> r == Route::EvalReply(seq as i64),
        cmd != MessageCMD::EvalRsp ==> r == Route::ByKind(kind_key(cmd)),
{
    if cmd == MessageCMD::EvalRsp {
        Route::EvalReply(seq as i64)
    } else {
        Route::ByKind(kind_key_of(cmd))
    }
}

/// The per-connection counter of evaluation sequence numbers, from 0.
#[derive(Debug)]
pub struct EvalSeq {
    next: i64,
}

impl EvalSeq {
    /// The number the next evaluation gets.
    pub closed spec fn peek(&self) -> int {
        self.next as int
    }

    /// The number the next evaluation gets.
    pub fn current(&self) -> (r: i64)
        ensures
            r == self.peek(),
    {
        self.next
    }

    /// A counter whose first number is 0.
    pub fn new() -> (r: Self)
        ensures
            r.peek() == 0,
    {
        EvalSeq { next: 0 }
    }

    /// Hands out the next sequence number; sequence numbers travel as 32-bit
    /// integers, so they stop short of `i32::MAX`.
    pub fn next_seq(&mut self) -> (r: i64)
        requires
            0 <= old(self).peek() < i32::MAX,
        ensures
            r == old(self).peek(),
            final(self).peek() == r + 1,
    {
        let r = self.next;
        self.next = self.next + 1;
        r
    }
}

/// A reply with sequence number `s` reaches the waiter registered under `s`
/// and only that waiter: taking `s` after registering `w` under it yields `w`,
/// and every other registered waiter stays in the table, unchanged.
pub proof fn lemma_reply_reaches_its_waiter<T>(table: Map<i64, T>, s: i64, w: T, other: i64)
    ensures
        take_from(table.insert(s, w), s).0 == Some(w),
        !take_from(table.insert(s, w), s).1.contains_key(s),
        other != s && table.contains_key(other) ==> {
            &&& take_from(table.insert(s, w), s).1.contains_key(other)
            &&& take_from(table.insert(s, w), s).1[other] == table[other]
        },
{
}

/// A reply whose sequence number has no waiter wakes nobody and leaves every
/// registered waiter in place.
pub proof fn lemma_unmatched_reply_disturbs_nobody<T>(table: Map<i64, T>, s: i64)
    requires
        !table.contains_key(s),
    ensures
        take_from(table, s) == (None::<T>, table),
{
}

} // verus!
