//! The capability contracts: `Trace` describes an application-defined tag
//! domain, `TraceId` mints correlation tokens, and `TraceSink` is the append
//! contract that every trace destination offers.

use vstd::prelude::*;

verus! {

/// An opaque correlation token, minted on each event or start call.
pub trait TraceId: Sized {
    /// Produces a fresh token. No ordering is promised across distinct
    /// producers.
    fn new_id() -> Self;
}

/// An application-defined tag domain: each value names an event or operation
/// kind, carries a stable integer tag, and every tag actually produced maps
/// back to a static descriptive label.
pub trait Trace: Sized {
    /// The correlation-token type handed back by sinks for this domain.
    type Id: TraceId;

    /// The stable tag of this value, as the contracts speak of it. A
    /// verified implementation overrides this; `tag` must agree with it.
    open spec fn spec_tag(&self) -> u32 {
        0
    }

    /// The label of a tag, as the contracts speak of it. A verified
    /// implementation overrides this; `label` must agree with it.
    open spec fn spec_label(tag: u32) -> Seq<char> {
        Seq::empty()
    }

    /// The stable integer tag of this value.
    fn tag(&self) -> (r: u32)
        ensures
            r == self.spec_tag(),
    ;

    /// The descriptive label of a tag.
    fn label(tag: u32) -> (r: &'static str)
        ensures
            r@ == Self::spec_label(tag),
    ;
}

/// A destination for trace entries: the ring buffer here, or an OS-native
/// facility elsewhere. Sinks may interpret or ignore the causal `why`
/// parameter and differ in retention; each says so in its own contract.
pub trait TraceSink<T: Trace> {
    /// The well-formedness every operation preserves.
    spec fn sink_inv(&self) -> bool;

    /// Records an instantaneous event and mints a correlation token.
    fn trace_event(&mut self, trace: T, why: Option<T::Id>) -> (id: T::Id)
        requires
            old(self).sink_inv(),
        ensures
            final(self).sink_inv(),
    ;

    /// Records the start of a span; the token pairs it with a later stop.
    fn trace_start(&mut self, trace: T, why: Option<T::Id>) -> (id: T::Id)
        requires
            old(self).sink_inv(),
        ensures
            final(self).sink_inv(),
    ;

    /// Records the stop of the span opened for the same tag; a reader pairs
    /// it by matching tags.
    fn trace_stop(&mut self, trace: T)
        requires
            old(self).sink_inv(),
        ensures
            final(self).sink_inv(),
    ;
}

} // verus!
