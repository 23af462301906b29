//! Identifier generators: two interchangeable strategies for minting the
//! opaque correlation tokens that event and start calls return.
//!
//! The thread-qualified strategy composes a thread token with a per-thread
//! serial, so tokens stay unique within a thread and distinguishable across
//! threads when per-thread buffers are later merged. The counter strategy is
//! a single monotonically increasing value: cheaper, with no thread
//! affinity. The owner decides where each generator lives and, for the
//! counter strategy, how it is shared.

use vstd::prelude::*;

verus! {

/// A token minted by the thread-qualified strategy: the minting thread's
/// token and a serial unique within that thread.
#[derive(Copy, Clone, Debug, Eq, PartialEq, Structural)]
pub struct ThreadQualifiedId {
    pub thread: u64,
    pub serial: u64,
}

/// Mints thread-qualified tokens: serials increase by one per call, so no
/// token is minted twice by one generator, and tokens of generators with
/// different thread tokens never collide.
#[derive(Debug)]
pub struct ThreadQualifiedIdGen {
    thread: u64,
    next_serial: u64,
}

impl ThreadQualifiedIdGen {
    /// The thread token every minted identifier carries.
    pub closed spec fn spec_thread(self) -> u64 {
        self.thread
    }

    /// The serial the next identifier will carry.
    pub closed spec fn spec_next_serial(self) -> u64 {
        self.next_serial
    }

    /// A generator for one thread, starting at serial zero. The caller
    /// supplies the thread token; one token per thread keeps identifiers of
    /// distinct threads apart.
    pub fn new(thread: u64) -> (r: ThreadQualifiedIdGen)
        ensures
            r.spec_thread() == thread,
            r.spec_next_serial() == 0,
    {
        ThreadQualifiedIdGen { thread, next_serial: 0 }
    }

    /// Mints the next identifier. The serial supply is bounded by the
    /// machine word; a generator never wraps around.
    pub fn fresh_id(&mut self) -> (r: ThreadQualifiedId)
        requires
            old(self).spec_next_serial() < u64::MAX,
        ensures
            r.thread == old(self).spec_thread(),
            r.serial == old(self).spec_next_serial(),
            final(self).spec_thread() == old(self).spec_thread(),
            final(self).spec_next_serial() == old(self).spec_next_serial() + 1,
    {
        let id = ThreadQualifiedId { thread: self.thread, serial: self.next_serial };
        self.next_serial = self.next_serial + 1;
        id
    }
}

/// Law: thread-qualified identifiers that differ in thread token or in
/// serial are distinct, so one generator never repeats itself and two
/// generators with different thread tokens never collide.
pub proof fn lemma_thread_qualified_ids_distinct(a: ThreadQualifiedId, b: ThreadQualifiedId)
    requires
        a.thread != b.thread || a.serial != b.serial,
    ensures
        a != b,
{
}

/// A token minted by the counter strategy: one process-wide serial.
#[derive(Copy, Clone, Debug, Eq, PartialEq, Structural)]
pub struct CounterId {
    pub serial: u64,
}

/// Mints counter tokens: a single monotonically increasing serial, unique
/// for as long as all minting goes through one generator.
#[derive(Debug)]
pub struct CounterIdGen {
    next_serial: u64,
}

impl CounterIdGen {
    /// The serial the next identifier will carry.
    pub closed spec fn spec_next_serial(self) -> u64 {
        self.next_serial
    }

    /// A generator starting at serial zero.
    pub fn new() -> (r: CounterIdGen)
        ensures
            r.spec_next_serial() == 0,
    {
        CounterIdGen { next_serial: 0 }
    }

    /// Mints the next identifier. The serial supply is bounded by the
    /// machine word; a generator never wraps around.
    pub fn fresh_id(&mut self) -> (r: CounterId)
        requires
            old(self).spec_next_serial() < u64::MAX,
        ensures
            r.serial == old(self).spec_next_serial(),
            final(self).spec_next_serial() == old(self).spec_next_serial() + 1,
    {
        let id = CounterId { serial: self.next_serial };
        self.next_serial = self.next_serial + 1;
        id
    }
}

/// Law: counter identifiers with different serials are distinct, so one
/// generator never repeats itself.
pub proof fn lemma_counter_ids_distinct(a: CounterId, b: CounterId)
    requires
        a.serial != b.serial,
    ensures
        a != b,
{
}

} // verus!
