//! The entry codec: a fixed-layout, 13-byte wire form for trace records.
//!
//! A record is a timestamp (8 bytes, little-endian), an application tag
//! (4 bytes, little-endian) and a kind byte, packed with no padding. All
//! ring-buffer offset arithmetic rests on every stored record occupying
//! exactly these 13 bytes.

use vstd::prelude::*;

use crate::clock::NsSinceEpoch;
use crate::traits::Trace;

verus! {

/// What a recorded entry marks: an instantaneous event, or one boundary of a
/// span.
#[derive(Copy, Clone, Debug, Eq, PartialEq)]
pub enum TraceKind {
    Event,
    Start,
    Stop,
}

/// The mathematical content of one trace entry: every contract about stored
/// entries speaks of this value.
pub struct EntryModel {
    pub timestamp: u64,
    pub tag: u32,
    pub kind: TraceKind,
}

/// One recorded trace entry: when it happened, which application-defined
/// operation it concerns, and whether it marks an event, a start or a stop.
/// The type parameter selects the tag domain that `label` reads; it carries
/// no storage.
#[derive(Debug, PartialEq, Eq)]
pub struct TraceEntry<T> {
    pub(crate) timestamp: NsSinceEpoch,
    pub(crate) tag: u32,
    pub(crate) kind: TraceKind,
    pub(crate) phantom: core::marker::PhantomData<T>,
}

impl<T> View for TraceEntry<T> {
    type V = EntryModel;

    closed spec fn view(&self) -> EntryModel {
        EntryModel { timestamp: self.timestamp@, tag: self.tag, kind: self.kind }
    }
}

/// The wire byte that stands for a kind.
pub open spec fn kind_byte(k: TraceKind) -> u8 {
    match k {
        TraceKind::Event => 0,
        TraceKind::Start => 1,
        TraceKind::Stop => 2,
    }
}

/// The kind a wire byte stands for, defined on the valid bytes 0, 1 and 2.
pub open spec fn kind_of_byte(b: u8) -> TraceKind
    recommends
        b <= 2,
{
    if b == 0 {
        TraceKind::Event
    } else if b == 1 {
        TraceKind::Start
    } else {
        TraceKind::Stop
    }
}

/// The eight little-endian bytes of an unsigned 64-bit value.
pub open spec fn u64_le_bytes(x: u64) -> Seq<u8> {
    seq![
        (x & 0xff) as u8,
        ((x >> 8) & 0xff) as u8,
        ((x >> 16) & 0xff) as u8,
        ((x >> 24) & 0xff) as u8,
        ((x >> 32) & 0xff) as u8,
        ((x >> 40) & 0xff) as u8,
        ((x >> 48) & 0xff) as u8,
        ((x >> 56) & 0xff) as u8,
    ]
}

/// The unsigned 64-bit value read from eight little-endian bytes.
pub open spec fn u64_from_le_bytes(b: Seq<u8>) -> u64
    recommends
        b.len() == 8,
{
    (b[0] as u64) | ((b[1] as u64) << 8) | ((b[2] as u64) << 16) | ((b[3] as u64) << 24) | ((
    b[4] as u64) << 32) | ((b[5] as u64) << 40) | ((b[6] as u64) << 48) | ((b[7] as u64) << 56)
}

/// The four little-endian bytes of an unsigned 32-bit value.
pub open spec fn u32_le_bytes(x: u32) -> Seq<u8> {
    seq![
        (x & 0xff) as u8,
        ((x >> 8) & 0xff) as u8,
        ((x >> 16) & 0xff) as u8,
        ((x >> 24) & 0xff) as u8,
    ]
}

/// The unsigned 32-bit value read from four little-endian bytes.
pub open spec fn u32_from_le_bytes(b: Seq<u8>) -> u32
    recommends
        b.len() == 4,
{
    (b[0] as u32) | ((b[1] as u32) << 8) | ((b[2] as u32) << 16) | ((b[3] as u32) << 24)
}

/// The 13-byte wire form of an entry: timestamp, tag, kind, in that order.
pub open spec fn spec_encode(e: EntryModel) -> Seq<u8> {
    u64_le_bytes(e.timestamp) + u32_le_bytes(e.tag) + seq![kind_byte(e.kind)]
}

/// The entry that 13 wire bytes stand for, defined when the kind byte is
/// valid.
pub open spec fn spec_decode(b: Seq<u8>) -> EntryModel
    recommends
        b.len() == 13,
        b[12] <= 2,
{
    EntryModel {
        timestamp: u64_from_le_bytes(b.subrange(0, 8)),
        tag: u32_from_le_bytes(b.subrange(8, 12)),
        kind: kind_of_byte(b[12]),
    }
}

proof fn lemma_u64_le_byte_bounds(x: u64)
    by (bit_vector)
    ensures
        x & 0xff < 256,
        (x >> 8) & 0xff < 256,
        (x >> 16) & 0xff < 256,
        (x >> 24) & 0xff < 256,
        (x >> 32) & 0xff < 256,
        (x >> 40) & 0xff < 256,
        (x >> 48) & 0xff < 256,
        (x >> 56) & 0xff < 256,
{
}

proof fn lemma_u32_le_byte_bounds(x: u32)
    by (bit_vector)
    ensures
        x & 0xff < 256,
        (x >> 8) & 0xff < 256,
        (x >> 16) & 0xff < 256,
        (x >> 24) & 0xff < 256,
{
}

proof fn lemma_u64_le_round_trip(x: u64)
    ensures
        u64_from_le_bytes(u64_le_bytes(x)) == x,
{
    let b = u64_le_bytes(x);
    assert(((x & 0xff) as u8 as u64) | ((((x >> 8) & 0xff) as u8 as u64) << 8) | ((((x >> 16)
        & 0xff) as u8 as u64) << 16) | ((((x >> 24) & 0xff) as u8 as u64) << 24) | ((((x >> 32)
        & 0xff) as u8 as u64) << 32) | ((((x >> 40) & 0xff) as u8 as u64) << 40) | ((((x >> 48)
        & 0xff) as u8 as u64) << 48) | ((((x >> 56) & 0xff) as u8 as u64) << 56) == x)
        by (bit_vector);
}

proof fn lemma_u64_le_bytes_of_value(
    b0: u8,
    b1: u8,
    b2: u8,
    b3: u8,
    b4: u8,
    b5: u8,
    b6: u8,
    b7: u8,
)
    ensures
        u64_le_bytes(u64_from_le_bytes(seq![b0, b1, b2, b3, b4, b5, b6, b7])) == seq![b0, b1, b2, b3, b4, b5, b6, b7],
{
    let x = u64_from_le_bytes(seq![b0, b1, b2, b3, b4, b5, b6, b7]);
    assert((x & 0xff) as u8 == b0 && ((x >> 8) & 0xff) as u8 == b1 && ((x >> 16) & 0xff) as u8
        == b2 && ((x >> 24) & 0xff) as u8 == b3 && ((x >> 32) & 0xff) as u8 == b4 && ((x >> 40)
        & 0xff) as u8 == b5 && ((x >> 48) & 0xff) as u8 == b6 && ((x >> 56) & 0xff) as u8 == b7)
        by (bit_vector)
        requires
            x == (b0 as u64) | ((b1 as u64) << 8) | ((b2 as u64) << 16) | ((b3 as u64) << 24) | ((
            b4 as u64) << 32) | ((b5 as u64) << 40) | ((b6 as u64) << 48) | ((b7 as u64) << 56),
    ;
    assert(u64_le_bytes(x) =~= seq![b0, b1, b2, b3, b4, b5, b6, b7]);
}

proof fn lemma_u32_le_round_trip(x: u32)
    ensures
        u32_from_le_bytes(u32_le_bytes(x)) == x,
{
    let b = u32_le_bytes(x);
    assert(((x & 0xff) as u8 as u32) | ((((x >> 8) & 0xff) as u8 as u32) << 8) | ((((x >> 16)
        & 0xff) as u8 as u32) << 16) | ((((x >> 24) & 0xff) as u8 as u32) << 24) == x)
        by (bit_vector);
}

proof fn lemma_u32_le_bytes_of_value(b0: u8, b1: u8, b2: u8, b3: u8)
    ensures
        u32_le_bytes(u32_from_le_bytes(seq![b0, b1, b2, b3])) == seq![b0, b1, b2, b3],
{
    let x = u32_from_le_bytes(seq![b0, b1, b2, b3]);
    assert((x & 0xff) as u8 == b0 && ((x >> 8) & 0xff) as u8 == b1 && ((x >> 16) & 0xff) as u8
        == b2 && ((x >> 24) & 0xff) as u8 == b3)
        by (bit_vector)
        requires
            x == (b0 as u32) | ((b1 as u32) << 8) | ((b2 as u32) << 16) | ((b3 as u32) << 24),
    ;
    assert(u32_le_bytes(x) =~= seq![b0, b1, b2, b3]);
}

/// Law: decoding the wire form of an entry reproduces the entry.
pub proof fn lemma_decode_of_encode(e: EntryModel)
    ensures
        spec_encode(e).len() == 13,
        spec_encode(e)[12] <= 2,
        spec_decode(spec_encode(e)) == e,
{
    let b = spec_encode(e);
    assert(b.subrange(0, 8) =~= u64_le_bytes(e.timestamp));
    assert(b.subrange(8, 12) =~= u32_le_bytes(e.tag));
    lemma_u64_le_round_trip(e.timestamp);
    lemma_u32_le_round_trip(e.tag);
}

/// Law: encoding the entry that 13 bytes with a valid kind byte stand for
/// reproduces the bytes.
pub proof fn lemma_encode_of_decode(b: Seq<u8>)
    requires
        b.len() == 13,
        b[12] <= 2,
    ensures
        spec_encode(spec_decode(b)) == b,
{
    let ts = b.subrange(0, 8);
    let tag = b.subrange(8, 12);
    assert(ts =~= seq![b[0], b[1], b[2], b[3], b[4], b[5], b[6], b[7]]);
    assert(tag =~= seq![b[8], b[9], b[10], b[11]]);
    lemma_u64_le_bytes_of_value(b[0], b[1], b[2], b[3], b[4], b[5], b[6], b[7]);
    lemma_u32_le_bytes_of_value(b[8], b[9], b[10], b[11]);
    assert(kind_byte(kind_of_byte(b[12])) == b[12]);
    assert(spec_encode(spec_decode(b)) =~= b);
}

/// The error an invalid wire record decodes to: the kind byte was none of 0,
/// 1 or 2.
#[derive(Copy, Clone, Debug, Eq, PartialEq)]
pub enum DecodeError {
    InvalidKind(u8),
}

impl<T: Trace> TraceEntry<T> {
    /// The descriptive label of this entry's tag, read from the tag domain
    /// the entry was recorded for.
    pub fn label(&self) -> (r: &'static str)
        ensures
            r@ == T::spec_label(self@.tag),
    {
        T::label(self.tag)
    }
}

/// Builds an entry record from its three fields.
pub fn entry_from_parts<T>(timestamp: NsSinceEpoch, tag: u32, kind: TraceKind) -> (r: TraceEntry<
    T,
>)
    ensures
        r@ == (EntryModel { timestamp: timestamp@, tag, kind }),
{
    TraceEntry { timestamp, tag, kind, phantom: core::marker::PhantomData }
}

impl<T> TraceEntry<T> {
    /// The stable application tag recorded in this entry.
    pub fn tag(&self) -> (r: u32)
        ensures
            r == self@.tag,
    {
        self.tag
    }

    /// Whether this entry marks an event, a start or a stop.
    pub fn kind(&self) -> (r: TraceKind)
        ensures
            r == self@.kind,
    {
        self.kind
    }

    /// The timestamp recorded in this entry.
    pub fn timestamp(&self) -> (r: NsSinceEpoch)
        ensures
            r@ == self@.timestamp,
    {
        self.timestamp
    }

    /// The number of bytes of the wire form of every entry.
    pub fn size() -> (r: usize)
        ensures
            r == 13,
    {
        13
    }
}

/// Packs an entry into its 13-byte wire form.
pub fn encode_entry<T>(e: &TraceEntry<T>) -> (r: Vec<u8>)
    ensures
        r@ == spec_encode(e@),
        r@.len() == 13,
        r@[12] <= 2,
{
    let x = e.timestamp.0;
    let t = e.tag;
    proof {
        lemma_u64_le_byte_bounds(x);
        lemma_u32_le_byte_bounds(t);
    }
    let mut out: Vec<u8> = Vec::new();
    out.push((x & 0xff) as u8);
    out.push(((x >> 8) & 0xff) as u8);
    out.push(((x >> 16) & 0xff) as u8);
    out.push(((x >> 24) & 0xff) as u8);
    out.push(((x >> 32) & 0xff) as u8);
    out.push(((x >> 40) & 0xff) as u8);
    out.push(((x >> 48) & 0xff) as u8);
    out.push(((x >> 56) & 0xff) as u8);
    out.push((t & 0xff) as u8);
    out.push(((t >> 8) & 0xff) as u8);
    out.push(((t >> 16) & 0xff) as u8);
    out.push(((t >> 24) & 0xff) as u8);
    let kb: u8 = match e.kind {
        TraceKind::Event => 0,
        TraceKind::Start => 1,
        TraceKind::Stop => 2,
    };
    out.push(kb);
    proof {
        assert(out@ =~= spec_encode(e@));
    }
    out
}

/// Unpacks a 13-byte wire record. A record whose kind byte is none of 0, 1
/// or 2 is rejected with the offending byte; every other record decodes.
pub fn decode_entry<T>(bytes: &[u8]) -> (r: Result<TraceEntry<T>, DecodeError>)
    requires
        bytes@.len() == 13,
    ensures
        match r {
            Ok(e) => bytes@[12] <= 2 && e@ == spec_decode(bytes@),
            Err(err) => bytes@[12] > 2 && err == DecodeError::InvalidKind(bytes@[12]),
        },
{
    let kb = bytes[12];
    if kb > 2 {
        return Err(DecodeError::InvalidKind(kb));
    }
    let kind = if kb == 0 {
        TraceKind::Event
    } else if kb == 1 {
        TraceKind::Start
    } else {
        TraceKind::Stop
    };
    let ts: u64 = (bytes[0] as u64) | ((bytes[1] as u64) << 8) | ((bytes[2] as u64) << 16) | ((
    bytes[3] as u64) << 24) | ((bytes[4] as u64) << 32) | ((bytes[5] as u64) << 40) | ((
    bytes[6] as u64) << 48) | ((bytes[7] as u64) << 56);
    let tag: u32 = (bytes[8] as u32) | ((bytes[9] as u32) << 8) | ((bytes[10] as u32) << 16) | ((
    bytes[11] as u32) << 24);
    let e = TraceEntry {
        timestamp: NsSinceEpoch(ts),
        tag,
        kind,
        phantom: core::marker::PhantomData,
    };
    proof {
        assert(bytes@.subrange(0, 8) =~= seq![
            bytes@[0], bytes@[1], bytes@[2], bytes@[3], bytes@[4], bytes@[5], bytes@[6], bytes@[7],
        ]);
        assert(bytes@.subrange(8, 12) =~= seq![bytes@[8], bytes@[9], bytes@[10], bytes@[11]]);
    }
    Ok(e)
}

} // verus!
