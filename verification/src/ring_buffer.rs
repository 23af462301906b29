//! The ring-buffer trace engine: a bounded circular byte store that appends
//! encoded entries, evicts the oldest entry when a new one no longer fits,
//! and hands out a read-only, oldest-first iterator over the decoded
//! entries.

use vstd::prelude::*;

use crate::clock::NsSinceEpoch;
use crate::codec::{
    decode_entry, encode_entry, entry_from_parts, lemma_decode_of_encode, spec_decode, EntryModel,
    TraceEntry, TraceKind,
};
use crate::traits::{Trace, TraceId, TraceSink};

verus! {

/// A position reduced into a buffer of `cap` bytes, for positions below
/// `2 * cap`.
spec fn wrap_index(pos: int, cap: int) -> int
    recommends
        cap > 0,
        0 <= pos < 2 * cap,
{
    if pos < cap {
        pos
    } else {
        pos - cap
    }
}

/// The byte position `off` bytes past `base`, wrapped at `cap`.
spec fn pos_at(base: int, off: int, cap: int) -> int
    recommends
        cap > 0,
        0 <= base < cap,
        0 <= off <= cap,
{
    wrap_index(base + off, cap)
}

/// How many whole entries a buffer of `cap` bytes can retain.
pub open spec fn max_entries(cap: int) -> int {
    cap / 13
}

/// What one append leaves of the entries already present: all of them while
/// another entry still fits, else all but the oldest.
pub open spec fn evict_for_append(entries: Seq<EntryModel>, cap: int) -> Seq<EntryModel> {
    if entries.len() < max_entries(cap) {
        entries
    } else {
        entries.drop_first()
    }
}

/// A fixed-capacity circular store of encoded trace entries with FIFO
/// eviction: once full, each append silently discards the oldest entry.
/// The type parameter fixes the tag domain of the entries it stores.
#[derive(Debug)]
pub struct RingBuffer<T> {
    data: Vec<u8>,
    begin: usize,
    length: usize,
    phantom: core::marker::PhantomData<T>,
}

impl<T> View for RingBuffer<T> {
    type V = Seq<EntryModel>;

    /// The entries the buffer retains, oldest first.
    closed spec fn view(&self) -> Seq<EntryModel> {
        Seq::new(self.num_entries() as nat, |i: int| spec_decode(self.entry_bytes(i)))
    }
}

impl<T> RingBuffer<T> {
    /// The byte capacity the buffer was created with.
    pub closed spec fn capacity(self) -> int {
        self.data@.len() as int
    }

    /// How many entries the buffer currently retains.
    pub closed spec fn num_entries(self) -> int {
        self.length as int / 13
    }

    /// The `k`-th valid byte, counted from the oldest.
    closed spec fn byte_at(self, k: int) -> u8 {
        self.data@[pos_at(self.begin as int, k, self.capacity())]
    }

    /// The 13 wire bytes of the `i`-th retained entry, oldest first.
    closed spec fn entry_bytes(self, i: int) -> Seq<u8> {
        Seq::new(13, |j: int| self.byte_at(13 * i + j))
    }

    /// The buffer's invariant: the store is larger than one entry, the valid
    /// region is a whole number of entries within capacity, and every stored
    /// entry carries a valid kind byte.
    pub closed spec fn wf(self) -> bool {
        &&& self.capacity() > 13
        &&& (self.begin as int) < self.capacity()
        &&& self.length <= self.data@.len()
        &&& self.length as int % 13 == 0
        &&& forall|i: int|
            0 <= i < self.num_entries() ==> #[trigger] self.entry_bytes(i)[12] <= 2
    }

    proof fn lemma_view_len(self)
        requires
            self.wf(),
        ensures
            self@.len() == self.num_entries(),
            self.num_entries() <= max_entries(self.capacity()),
            13 * self.num_entries() == self.length as int,
    {
        lemma_len_entries(self.length as int, self.capacity());
    }

    /// Creates a buffer that owns `capacity` bytes and retains no entries
    /// yet. A capacity of at most one entry cannot hold any trace, so it is
    /// ruled out.
    pub fn new(capacity: usize) -> (r: RingBuffer<T>)
        requires
            capacity > 13,
        ensures
            r.wf(),
            r.capacity() == capacity as int,
            r@ == Seq::<EntryModel>::empty(),
    {
        let mut data: Vec<u8> = Vec::new();
        while data.len() < capacity
            invariant
                data@.len() <= capacity,
            decreases capacity - data@.len(),
        {
            data.push(0);
        }
        let r = RingBuffer { data, begin: 0, length: 0, phantom: core::marker::PhantomData };
        proof {
            assert(r@ =~= Seq::<EntryModel>::empty());
        }
        r
    }

    /// The byte position one past the newest valid byte.
    fn end(&self) -> (r: usize)
        requires
            self.wf(),
        ensures
            r as int == pos_at(self.begin as int, self.length as int, self.capacity()),
    {
        let room = self.data.len() - self.begin;
        if self.length >= room {
            self.length - room
        } else {
            self.begin + self.length
        }
    }

    /// Appends one encoded entry. While another entry still fits beside the
    /// valid bytes, every retained entry survives; otherwise exactly the
    /// oldest entry is evicted first. The 13 bytes are written at the end of
    /// the valid region, split around the edge of the store when they do not
    /// fit contiguously.
    fn write(&mut self, bytes: &[u8])
        requires
            old(self).wf(),
            bytes@.len() == 13,
            bytes@[12] <= 2,
        ensures
            final(self).wf(),
            final(self).capacity() == old(self).capacity(),
            final(self)@ == evict_for_append(old(self)@, old(self).capacity()).push(
                spec_decode(bytes@),
            ),
    {
        let ghost prev = *self;
        let cap = self.data.len();
        let end = self.end();
        proof {
            prev.lemma_view_len();
            lemma_len_entries(prev.length as int, prev.capacity());
        }
        if cap - self.length < 13 {
            // evict the oldest entry
            let room = cap - self.begin;
            self.begin = if room <= 13 {
                13 - room
            } else {
                self.begin + 13
            };
            self.length = self.length - 13;
            proof {
                lemma_len_entries(self.length as int, self.capacity());
                assert forall|i: int| 0 <= i < self.num_entries() implies #[trigger] self
                    .entry_bytes(i) =~= prev.entry_bytes(i + 1) by {}
                assert(self@ =~= prev@.drop_first());
                assert(self@ == evict_for_append(prev@, prev.capacity()));
            }
        } else {
            proof {
                assert(self@ == evict_for_append(prev@, prev.capacity()));
            }
        }
        let ghost mid = *self;
        let ghost gb = mid.begin as int;
        let ghost glen = mid.length as int;
        let ghost gcap = cap as int;
        proof {
            assert(end as int == pos_at(gb, glen, gcap));
        }
        let mut j: usize = 0;
        let mut pos: usize = end;
        while j < 13
            invariant
                mid.wf(),
                glen + 13 <= gcap,
                gb == mid.begin as int,
                glen == mid.length as int,
                gcap == mid.capacity(),
                self.begin == mid.begin,
                self.length == mid.length,
                self.data@.len() == gcap,
                cap as int == gcap,
                bytes@.len() == 13,
                0 <= j <= 13,
                pos as int == pos_at(gb, glen + j, gcap),
                (pos as int) < gcap,
                forall|k: int|
                    glen <= k < glen + j ==> self.data@[pos_at(gb, k, gcap)] == bytes@[k - glen],
                forall|k: int|
                    0 <= k < gcap && !(glen <= k < glen + j) ==> self.data@[pos_at(gb, k, gcap)]
                        == mid.data@[pos_at(gb, k, gcap)],
            decreases 13 - j,
        {
            self.data.set(pos, bytes[j]);
            pos = if pos + 1 == cap {
                0
            } else {
                pos + 1
            };
            j = j + 1;
        }
        self.length = self.length + 13;
        proof {
            lemma_len_entries(mid.length as int, gcap);
            lemma_len_entries(self.length as int, gcap);
            let n2 = mid.num_entries();
            assert forall|i: int| 0 <= i < n2 implies #[trigger] self.entry_bytes(i) =~= mid
                .entry_bytes(i) by {
                assert(13 * i + 13 <= 13 * n2);
            }
            assert(self.entry_bytes(n2) =~= bytes@);
            assert(self@ =~= mid@.push(spec_decode(bytes@)));
        }
    }
}

impl<T> RingBuffer<T> {
    /// Hands out a read-only view of the entries present now, oldest first.
    /// The borrow keeps appends away for as long as the iterator lives.
    pub fn iter<'a>(&'a self) -> (r: RingBufferIter<'a, T>)
        requires
            self.wf(),
        ensures
            r.wf(),
            r@ == self@,
    {
        proof {
            self.lemma_view_len();
        }
        if self.length == 0 {
            let r = RingBufferIter { buffer: self, idx: 0, live: false, consumed: Ghost(0) };
            proof {
                assert(r@ =~= self@);
            }
            r
        } else {
            let r = RingBufferIter {
                buffer: self,
                idx: self.begin,
                live: true,
                consumed: Ghost(0),
            };
            proof {
                assert(r@ =~= self@);
            }
            r
        }
    }
}

/// A forward-only, single-pass reader of the entries a buffer held when the
/// reader was created, oldest first. It borrows the buffer and never
/// changes it.
pub struct RingBufferIter<'a, T> {
    buffer: &'a RingBuffer<T>,
    idx: usize,
    live: bool,
    consumed: Ghost<int>,
}

impl<'a, T> View for RingBufferIter<'a, T> {
    type V = Seq<EntryModel>;

    /// The entries not yet produced, oldest first.
    closed spec fn view(&self) -> Seq<EntryModel> {
        if self.live {
            self.buffer@.skip(self.consumed@)
        } else {
            Seq::empty()
        }
    }
}

impl<'a, T> RingBufferIter<'a, T> {
    /// The reader's invariant: its cursor stands on the next entry still to
    /// be produced.
    pub closed spec fn wf(self) -> bool {
        &&& self.buffer.wf()
        &&& self.live ==> {
            &&& 0 <= self.consumed@ < self.buffer.num_entries()
            &&& self.idx as int == pos_at(
                self.buffer.begin as int,
                13 * self.consumed@,
                self.buffer.capacity(),
            )
        }
    }

    /// Decodes and produces the oldest entry not yet produced, or `None`
    /// once all entries present at creation have been produced.
    pub fn next(&mut self) -> (r: Option<TraceEntry<T>>)
        requires
            old(self).wf(),
        ensures
            final(self).wf(),
            match r {
                None => old(self)@.len() == 0 && final(self)@ == old(self)@,
                Some(e) => old(self)@.len() > 0 && e@ == old(self)@[0] && final(self)@ == old(
                    self,
                )@.drop_first(),
            },
    {
        if !self.live {
            return None;
        }
        let b = self.buffer;
        let cap = b.data.len();
        let ghost gb = b.begin as int;
        let ghost gcap = b.capacity();
        let ghost c = self.consumed@;
        proof {
            b.lemma_view_len();
        }
        // copy the wire bytes into a contiguous scratch block, mirroring the
        // split the writer may have made around the edge of the store
        let mut scratch: Vec<u8> = Vec::new();
        let mut j: usize = 0;
        let mut pos: usize = self.idx;
        while j < 13
            invariant
                b.wf(),
                gb == b.begin as int,
                gcap == b.capacity(),
                cap as int == gcap,
                0 <= c < b.num_entries(),
                13 * c + 13 <= b.length as int,
                0 <= j <= 13,
                pos as int == pos_at(gb, 13 * c + j, gcap),
                (pos as int) < gcap,
                scratch@.len() == j,
                forall|k: int| 0 <= k < j ==> scratch@[k] == b.entry_bytes(c)[k],
            decreases 13 - j,
        {
            let byte = b.data[pos];
            proof {
                assert(b.entry_bytes(c)[j as int] == b.byte_at(13 * c + j));
            }
            scratch.push(byte);
            pos = if pos + 1 == cap {
                0
            } else {
                pos + 1
            };
            j = j + 1;
        }
        proof {
            assert(scratch@ =~= b.entry_bytes(c));
        }
        let entry = match decode_entry::<T>(scratch.as_slice()) {
            Ok(e) => e,
            Err(_) => {
                proof {
                    assert(b.entry_bytes(c)[12] <= 2);
                }
                vstd::pervasive::unreached()
            },
        };
        // step the cursor one entry forward; the reader ends exactly when it
        // reaches the end of the valid region
        let next_idx = pos;
        let end = b.end();
        proof {
            b.lemma_view_len();
        }
        if next_idx == end {
            self.live = false;
        } else {
            self.idx = next_idx;
        }
        self.consumed = Ghost(c + 1);
        proof {
            assert(entry@ == old(self)@[0]);
            assert(self@ =~= old(self)@.drop_first());
        }
        Some(entry)
    }
}

impl<T: Trace> RingBuffer<T> {
    /// Encodes an entry stamped with the current time and appends it.
    fn append_now(&mut self, tag: u32, kind: TraceKind)
        requires
            old(self).wf(),
        ensures
            final(self).wf(),
            final(self).capacity() == old(self).capacity(),
            final(self)@.len() == evict_for_append(old(self)@, old(self).capacity()).len() + 1,
            final(self)@.drop_last() == evict_for_append(old(self)@, old(self).capacity()),
            final(self)@.last().tag == tag,
            final(self)@.last().kind == kind,
    {
        let entry: TraceEntry<T> = entry_from_parts(NsSinceEpoch::now(), tag, kind);
        let bytes = encode_entry(&entry);
        proof {
            lemma_decode_of_encode(entry@);
        }
        self.write(bytes.as_slice());
    }
}

impl<T: Trace> TraceSink<T> for RingBuffer<T> {
    /// The sink is usable exactly while its buffer invariant holds.
    open spec fn sink_inv(&self) -> bool {
        self.wf()
    }

    /// Appends an Event entry carrying the tag of `trace` and the current
    /// timestamp, evicting the oldest entry if the buffer is full, and mints
    /// a fresh token. This sink accepts the causal parent `why` but does not
    /// persist it.
    fn trace_event(&mut self, trace: T, _why: Option<T::Id>) -> (id: T::Id)
        ensures
            final(self).capacity() == old(self).capacity(),
            final(self)@.len() == evict_for_append(old(self)@, old(self).capacity()).len() + 1,
            final(self)@.drop_last() == evict_for_append(old(self)@, old(self).capacity()),
            final(self)@.last().tag == trace.spec_tag(),
            final(self)@.last().kind == TraceKind::Event,
    {
        let tag = trace.tag();
        self.append_now(tag, TraceKind::Event);
        T::Id::new_id()
    }

    /// Appends a Start entry carrying the tag of `trace` and the current
    /// timestamp, evicting the oldest entry if the buffer is full, and mints
    /// a fresh token. This sink accepts the causal parent `why` but does not
    /// persist it.
    fn trace_start(&mut self, trace: T, _why: Option<T::Id>) -> (id: T::Id)
        ensures
            final(self).capacity() == old(self).capacity(),
            final(self)@.len() == evict_for_append(old(self)@, old(self).capacity()).len() + 1,
            final(self)@.drop_last() == evict_for_append(old(self)@, old(self).capacity()),
            final(self)@.last().tag == trace.spec_tag(),
            final(self)@.last().kind == TraceKind::Start,
    {
        let tag = trace.tag();
        self.append_now(tag, TraceKind::Start);
        T::Id::new_id()
    }

    /// Appends a Stop entry carrying the tag of `trace` and the current
    /// timestamp, evicting the oldest entry if the buffer is full. A reader
    /// pairs it with the Start of the same tag.
    fn trace_stop(&mut self, trace: T)
        ensures
            final(self).capacity() == old(self).capacity(),
            final(self)@.len() == evict_for_append(old(self)@, old(self).capacity()).len() + 1,
            final(self)@.drop_last() == evict_for_append(old(self)@, old(self).capacity()),
            final(self)@.last().tag == trace.spec_tag(),
            final(self)@.last().kind == TraceKind::Stop,
    {
        let tag = trace.tag();
        self.append_now(tag, TraceKind::Stop);
    }
}

impl<T> Default for RingBuffer<T> {
    /// A buffer with the customary capacity of 4096 bytes.
    fn default() -> (r: RingBuffer<T>)
        ensures
            r.wf(),
            r.capacity() == 4096,
            r@ == Seq::<EntryModel>::empty(),
    {
        RingBuffer::new(4096)
    }
}

/// The entries an empty buffer of `cap` bytes retains after the entries of
/// `appends` go in, in order.
pub open spec fn fold_appends(appends: Seq<EntryModel>, cap: int) -> Seq<EntryModel>
    decreases appends.len(),
{
    if appends.len() == 0 {
        Seq::empty()
    } else {
        evict_for_append(fold_appends(appends.drop_last(), cap), cap).push(appends.last())
    }
}

/// Law: for any append sequence that fits within capacity, the buffer
/// retains exactly the appended entries, in order; for any longer sequence
/// it retains exactly the most recent `cap / 13` entries, oldest survivor
/// first, and the earlier entries are dropped.
pub proof fn lemma_fifo_retention(appends: Seq<EntryModel>, cap: int)
    requires
        cap > 13,
    ensures
        appends.len() <= max_entries(cap) ==> fold_appends(appends, cap) == appends,
        appends.len() > max_entries(cap) ==> fold_appends(appends, cap) == appends.skip(
            appends.len() - max_entries(cap),
        ),
    decreases appends.len(),
{
    assert(max_entries(cap) >= 1) by (nonlinear_arith)
        requires
            cap > 13,
    ;
    if appends.len() == 0 {
        assert(fold_appends(appends, cap) =~= appends);
    } else {
        let pre = appends.drop_last();
        lemma_fifo_retention(pre, cap);
        let m = max_entries(cap);
        if appends.len() <= m {
            assert(fold_appends(appends, cap) =~= appends);
        } else if pre.len() == m {
            assert(fold_appends(appends, cap) =~= appends.skip(appends.len() - m));
        } else {
            assert(fold_appends(appends, cap) =~= appends.skip(appends.len() - m));
        }
    }
}

/// How many whole entries fit in `len` valid bytes of a `cap`-byte store.
proof fn lemma_len_entries(len: int, cap: int)
    by (nonlinear_arith)
    requires
        cap > 13,
        0 <= len <= cap,
        len % 13 == 0,
    ensures
        13 * (len / 13) == len,
        len / 13 <= cap / 13,
        (cap - len < 13) <==> (len / 13 == cap / 13),
        len >= 13 ==> (len - 13) / 13 == len / 13 - 1,
        len + 13 <= cap ==> (len + 13) / 13 == len / 13 + 1,
{
}

} // verus!
