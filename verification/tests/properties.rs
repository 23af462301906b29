use trace_ring::clock::NsSinceEpoch;
use trace_ring::codec::{decode_entry, encode_entry, entry_from_parts, DecodeError, TraceEntry, TraceKind};
use trace_ring::ids::{CounterIdGen, ThreadQualifiedIdGen};
use trace_ring::ring_buffer::RingBuffer;
use trace_ring::traits::{Trace, TraceId, TraceSink};

#[derive(Copy, Clone, Debug, PartialEq, Eq)]
enum Probe {
    Alpha,
    Beta,
}

#[derive(Copy, Clone, Debug, PartialEq, Eq)]
struct ProbeId;

impl TraceId for ProbeId {
    fn new_id() -> Self {
        ProbeId
    }
}

impl Trace for Probe {
    type Id = ProbeId;

    fn tag(&self) -> u32 {
        match self {
            Probe::Alpha => 7,
            Probe::Beta => 8,
        }
    }

    fn label(tag: u32) -> &'static str {
        match tag {
            7 => "Alpha",
            8 => "Beta",
            _ => "unknown",
        }
    }
}

#[test]
fn encode_has_exact_wire_bytes() {
    let entry: TraceEntry<Probe> =
        entry_from_parts(NsSinceEpoch(0x0102030405060708), 0x0A0B0C0D, TraceKind::Stop);
    let bytes = encode_entry(&entry);
    assert_eq!(
        bytes,
        vec![0x08, 0x07, 0x06, 0x05, 0x04, 0x03, 0x02, 0x01, 0x0D, 0x0C, 0x0B, 0x0A, 0x02]
    );
}

#[test]
fn decode_of_encode_is_identity() {
    let entry: TraceEntry<Probe> =
        entry_from_parts(NsSinceEpoch(123_456_789), 42, TraceKind::Start);
    let bytes = encode_entry(&entry);
    let back: TraceEntry<Probe> = decode_entry(&bytes).unwrap();
    assert_eq!(back, entry);
    assert_eq!(back.tag(), 42);
    assert_eq!(back.kind(), TraceKind::Start);
    assert_eq!(back.timestamp(), NsSinceEpoch(123_456_789));
}

#[test]
fn encode_of_decode_is_identity() {
    let bytes: Vec<u8> = vec![0xFF, 0, 1, 2, 3, 4, 5, 6, 7, 8, 9, 10, 0x01];
    let entry: TraceEntry<Probe> = decode_entry(&bytes).unwrap();
    let again = encode_entry(&entry);
    assert_eq!(again, bytes);
}

#[test]
fn decode_rejects_invalid_kind() {
    let bytes: Vec<u8> = vec![0, 0, 0, 0, 0, 0, 0, 0, 0, 0, 0, 0, 3];
    let r: Result<TraceEntry<Probe>, DecodeError> = decode_entry(&bytes);
    assert_eq!(r, Err(DecodeError::InvalidKind(3)));

    let bytes: Vec<u8> = vec![1, 2, 3, 4, 5, 6, 7, 8, 9, 10, 11, 12, 0xEE];
    let r: Result<TraceEntry<Probe>, DecodeError> = decode_entry(&bytes);
    assert_eq!(r, Err(DecodeError::InvalidKind(0xEE)));
}

#[test]
fn fresh_buffer_yields_no_entries() {
    let buffer: RingBuffer<Probe> = RingBuffer::new(100);
    let mut iter = buffer.iter();
    assert_eq!(iter.next(), None);
}

#[test]
fn single_append_yields_exactly_that_entry() {
    let mut buffer: RingBuffer<Probe> = RingBuffer::new(100);
    buffer.trace_event(Probe::Alpha, None);
    let mut iter = buffer.iter();
    let entry = iter.next().unwrap();
    assert_eq!(entry.tag(), Probe::Alpha.tag());
    assert_eq!(entry.kind(), TraceKind::Event);
    assert_eq!(entry.label(), "Alpha");
    assert_eq!(iter.next(), None);
}

#[test]
fn capacity_of_one_entry_evicts_on_every_append() {
    // one byte more than one entry: the buffer retains exactly one entry
    let mut buffer: RingBuffer<Probe> = RingBuffer::new(14);
    buffer.trace_event(Probe::Alpha, None);
    let mut iter = buffer.iter();
    let entry = iter.next().unwrap();
    assert_eq!(entry.tag(), Probe::Alpha.tag());
    assert_eq!(iter.next(), None);

    buffer.trace_start(Probe::Beta, None);
    let mut iter = buffer.iter();
    let entry = iter.next().unwrap();
    assert_eq!(entry.tag(), Probe::Beta.tag());
    assert_eq!(entry.kind(), TraceKind::Start);
    assert_eq!(iter.next(), None);

    buffer.trace_stop(Probe::Beta);
    let mut iter = buffer.iter();
    let entry = iter.next().unwrap();
    assert_eq!(entry.tag(), Probe::Beta.tag());
    assert_eq!(entry.kind(), TraceKind::Stop);
    assert_eq!(iter.next(), None);
}

#[test]
fn two_iterations_yield_identical_sequences() {
    let mut buffer: RingBuffer<Probe> = RingBuffer::new(40);
    buffer.trace_event(Probe::Alpha, None);
    buffer.trace_start(Probe::Beta, None);
    buffer.trace_event(Probe::Alpha, None);
    buffer.trace_stop(Probe::Beta);

    let mut first: Vec<TraceEntry<Probe>> = Vec::new();
    let mut iter = buffer.iter();
    while let Some(entry) = iter.next() {
        first.push(entry);
    }
    let mut second: Vec<TraceEntry<Probe>> = Vec::new();
    let mut iter = buffer.iter();
    while let Some(entry) = iter.next() {
        second.push(entry);
    }
    assert_eq!(first.len(), 3);
    assert_eq!(first, second);
}

#[test]
fn thread_qualified_ids_are_unique() {
    let mut gen_a = ThreadQualifiedIdGen::new(1);
    let mut gen_b = ThreadQualifiedIdGen::new(2);
    let a0 = gen_a.fresh_id();
    let a1 = gen_a.fresh_id();
    let b0 = gen_b.fresh_id();
    assert_ne!(a0, a1);
    assert_ne!(a0, b0);
    assert_eq!(a0.thread, 1);
    assert_eq!(a0.serial, 0);
    assert_eq!(a1.serial, 1);
    assert_eq!(b0.thread, 2);
}

#[test]
fn counter_ids_are_unique() {
    let mut gen = CounterIdGen::new();
    let first = gen.fresh_id();
    let second = gen.fresh_id();
    assert_ne!(first, second);
    assert_eq!(first.serial, 0);
    assert_eq!(second.serial, 1);
}

#[test]
fn timestamps_clamp_into_unsigned_range() {
    assert_eq!(NsSinceEpoch::from_unix_nanos(-5), NsSinceEpoch(0));
    assert_eq!(NsSinceEpoch::from_unix_nanos(5), NsSinceEpoch(5));
    assert_eq!(
        NsSinceEpoch::from_unix_nanos(i128::MAX),
        NsSinceEpoch(u64::MAX)
    );
}
