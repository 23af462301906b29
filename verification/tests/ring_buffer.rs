use trace_ring::codec::{TraceEntry, TraceKind};
use trace_ring::ring_buffer::RingBuffer;
use trace_ring::traits::{Trace, TraceId, TraceSink};

#[derive(Copy, Clone, Debug, PartialEq, Eq)]
enum SimpleTrace {
    FooEvent,
    OperationThing,
    OperationAnother,
}

#[derive(Copy, Clone, Debug, PartialEq, Eq)]
struct SimpleId(u64);

impl TraceId for SimpleId {
    fn new_id() -> Self {
        SimpleId(0)
    }
}

impl Trace for SimpleTrace {
    type Id = SimpleId;

    fn tag(&self) -> u32 {
        match self {
            SimpleTrace::FooEvent => 0,
            SimpleTrace::OperationThing => 1,
            SimpleTrace::OperationAnother => 2,
        }
    }

    fn label(tag: u32) -> &'static str {
        match tag {
            0 => "Foo",
            1 => "Thing",
            2 => "Another",
            _ => "unknown",
        }
    }
}

type SimpleTraceBuffer = RingBuffer<SimpleTrace>;
type SimpleTraceEntry = TraceEntry<SimpleTrace>;

#[test]
fn trace_entry_has_right_size() {
    assert_eq!(SimpleTraceEntry::size(), 13);
}

#[test]
fn no_roll_over() {
    let mut buffer = SimpleTraceBuffer::new(100 * SimpleTraceEntry::size());
    buffer.trace_event(SimpleTrace::FooEvent, None);
    buffer.trace_start(SimpleTrace::OperationThing, None);
    buffer.trace_start(SimpleTrace::OperationAnother, None);
    buffer.trace_event(SimpleTrace::FooEvent, None);
    buffer.trace_stop(SimpleTrace::OperationThing);
    buffer.trace_stop(SimpleTrace::OperationAnother);

    let mut iter = buffer.iter();

    let entry = iter.next().unwrap();
    assert_eq!(entry.tag(), SimpleTrace::FooEvent.tag());
    assert_eq!(entry.kind(), TraceKind::Event);
    assert_eq!(entry.label(), "Foo");

    let entry = iter.next().unwrap();
    assert_eq!(entry.tag(), SimpleTrace::OperationThing.tag());
    assert_eq!(entry.kind(), TraceKind::Start);
    assert_eq!(entry.label(), "Thing");

    let entry = iter.next().unwrap();
    assert_eq!(entry.tag(), SimpleTrace::OperationAnother.tag());
    assert_eq!(entry.kind(), TraceKind::Start);
    assert_eq!(entry.label(), "Another");

    let entry = iter.next().unwrap();
    assert_eq!(entry.tag(), SimpleTrace::FooEvent.tag());
    assert_eq!(entry.kind(), TraceKind::Event);
    assert_eq!(entry.label(), "Foo");

    let entry = iter.next().unwrap();
    assert_eq!(entry.tag(), SimpleTrace::OperationThing.tag());
    assert_eq!(entry.kind(), TraceKind::Stop);
    assert_eq!(entry.label(), "Thing");

    let entry = iter.next().unwrap();
    assert_eq!(entry.tag(), SimpleTrace::OperationAnother.tag());
    assert_eq!(entry.kind(), TraceKind::Stop);
    assert_eq!(entry.label(), "Another");

    assert_eq!(iter.next(), None);
}

#[test]
fn with_roll_over() {
    let mut buffer = SimpleTraceBuffer::new(5 * SimpleTraceEntry::size());
    buffer.trace_event(SimpleTrace::FooEvent, None);
    buffer.trace_start(SimpleTrace::OperationThing, None);
    buffer.trace_start(SimpleTrace::OperationAnother, None);
    buffer.trace_event(SimpleTrace::FooEvent, None);
    buffer.trace_stop(SimpleTrace::OperationThing);
    buffer.trace_stop(SimpleTrace::OperationAnother);

    println!("buffer = {:#?}", buffer);

    let mut iter = buffer.iter();

    let entry = iter.next().unwrap();
    println!("entry = {:#?}", entry);
    assert_eq!(entry.tag(), SimpleTrace::OperationThing.tag());
    assert_eq!(entry.kind(), TraceKind::Start);
    assert_eq!(entry.label(), "Thing");

    let entry = iter.next().unwrap();
    println!("entry = {:#?}", entry);
    assert_eq!(entry.tag(), SimpleTrace::OperationAnother.tag());
    assert_eq!(entry.kind(), TraceKind::Start);
    assert_eq!(entry.label(), "Another");

    let entry = iter.next().unwrap();
    println!("entry = {:#?}", entry);
    assert_eq!(entry.tag(), SimpleTrace::FooEvent.tag());
    assert_eq!(entry.kind(), TraceKind::Event);
    assert_eq!(entry.label(), "Foo");

    let entry = iter.next().unwrap();
    println!("entry = {:#?}", entry);
    assert_eq!(entry.tag(), SimpleTrace::OperationThing.tag());
    assert_eq!(entry.kind(), TraceKind::Stop);
    assert_eq!(entry.label(), "Thing");

    let entry = iter.next().unwrap();
    println!("entry = {:#?}", entry);
    assert_eq!(entry.tag(), SimpleTrace::OperationAnother.tag());
    assert_eq!(entry.kind(), TraceKind::Stop);
    assert_eq!(entry.label(), "Another");

    assert_eq!(iter.next(), None);
}

#[test]
fn with_roll_over_and_does_not_divide_evenly() {
    let mut buffer = SimpleTraceBuffer::new(3 * SimpleTraceEntry::size() + 1);
    buffer.trace_event(SimpleTrace::FooEvent, None);
    buffer.trace_start(SimpleTrace::OperationThing, None);
    buffer.trace_start(SimpleTrace::OperationAnother, None);
    buffer.trace_event(SimpleTrace::FooEvent, None);
    buffer.trace_stop(SimpleTrace::OperationThing);
    buffer.trace_stop(SimpleTrace::OperationAnother);

    println!("buffer = {:#?}", buffer);

    let mut iter = buffer.iter();

    let entry = iter.next().unwrap();
    println!("entry = {:#?}", entry);
    assert_eq!(entry.tag(), SimpleTrace::FooEvent.tag());
    assert_eq!(entry.kind(), TraceKind::Event);
    assert_eq!(entry.label(), "Foo");

    let entry = iter.next().unwrap();
    println!("entry = {:#?}", entry);
    assert_eq!(entry.tag(), SimpleTrace::OperationThing.tag());
    assert_eq!(entry.kind(), TraceKind::Stop);
    assert_eq!(entry.label(), "Thing");

    let entry = iter.next().unwrap();
    println!("entry = {:#?}", entry);
    assert_eq!(entry.tag(), SimpleTrace::OperationAnother.tag());
    assert_eq!(entry.kind(), TraceKind::Stop);
    assert_eq!(entry.label(), "Another");

    assert_eq!(iter.next(), None);
}
