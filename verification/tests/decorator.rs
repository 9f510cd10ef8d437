//! The stream decorator seen from outside: chunk identity, the terminal
//! action's exactly-once firing, size reporting, and the fault path.

use midware::decorate::StreamDecorator;
use midware::stream::{BodySize, ByteStream, Pulled, StreamStep};

fn scripted(chunks: &[&[u8]], size: BodySize) -> ByteStream {
    let mut steps: Vec<StreamStep> = Vec::new();
    for c in chunks {
        steps.push(StreamStep::Data(c.to_vec()));
    }
    ByteStream::new(steps, size)
}

fn expect_chunk(p: Pulled) -> Vec<u8> {
    match p {
        Pulled::Chunk(c) => c,
        Pulled::Failed => panic!("expected a chunk, producer faulted"),
        Pulled::Done => panic!("expected a chunk, stream ended"),
    }
}

#[test]
fn forwards_chunks_identically_and_emits_concatenation() {
    let stream = scripted(&[b"Hel", b"lo, ", b"middleware"], BodySize::Unknown);
    let mut d = StreamDecorator::wrap(stream);
    let (chunks, faulted) = d.drain();
    assert!(!faulted);
    assert_eq!(chunks.len(), 3);
    assert_eq!(chunks[0], b"Hel".to_vec());
    assert_eq!(chunks[1], b"lo, ".to_vec());
    assert_eq!(chunks[2], b"middleware".to_vec());
    assert_eq!(d.emission().as_ref().unwrap(), &b"Hello, middleware".to_vec());
}

#[test]
fn zero_length_chunk_is_forwarded_and_counted() {
    let stream = scripted(&[b"abcd", b"", b"efghijk"], BodySize::Known(11));
    let mut d = StreamDecorator::wrap(stream);
    let first = expect_chunk(d.pull());
    assert_eq!(first.len(), 4);
    let second = expect_chunk(d.pull());
    assert_eq!(second.len(), 0);
    let third = expect_chunk(d.pull());
    assert_eq!(third.len(), 7);
    assert!(d.emission().is_none());
    match d.pull() {
        Pulled::Done => {}
        _ => panic!("expected end of stream"),
    }
    let emitted = d.emission().as_ref().unwrap().clone();
    assert_eq!(emitted.len(), 11);
    assert_eq!(emitted, b"abcdefghijk".to_vec());
}

#[test]
fn abandonment_fires_terminal_action_once_with_partial_bytes() {
    let stream = scripted(&[b"one", b"two", b"three"], BodySize::Unknown);
    let mut d = StreamDecorator::wrap(stream);
    expect_chunk(d.pull());
    expect_chunk(d.pull());
    let payload = d.abandon();
    assert_eq!(payload, Some(b"onetwo".to_vec()));
    assert_eq!(d.abandon(), None);
    match d.pull() {
        Pulled::Done => {}
        _ => panic!("a finished stream only reports end-of-stream"),
    }
    assert_eq!(d.emission().as_ref().unwrap(), &b"onetwo".to_vec());
}

#[test]
fn empty_stream_fires_terminal_action_with_no_bytes() {
    let mut d = StreamDecorator::wrap(ByteStream::empty());
    let (chunks, faulted) = d.drain();
    assert!(!faulted);
    assert!(chunks.is_empty());
    assert_eq!(d.emission().as_ref().unwrap(), &Vec::<u8>::new());
}

#[test]
fn declared_size_is_reported_unchanged() {
    let known = scripted(&[b"hello"], BodySize::Known(5));
    let d = StreamDecorator::wrap(known);
    assert_eq!(d.size(), BodySize::Known(5));

    let unknown = scripted(&[b"hello"], BodySize::Unknown);
    let d = StreamDecorator::wrap(unknown);
    assert_eq!(d.size(), BodySize::Unknown);

    let empty = ByteStream::empty();
    let d = StreamDecorator::wrap(empty);
    assert_eq!(d.size(), BodySize::Empty);
}

#[test]
fn fault_fires_terminal_action_before_propagating() {
    let mut steps: Vec<StreamStep> = Vec::new();
    steps.push(StreamStep::Data(b"ab".to_vec()));
    steps.push(StreamStep::Fault);
    steps.push(StreamStep::Data(b"cd".to_vec()));
    let mut d = StreamDecorator::wrap(ByteStream::new(steps, BodySize::Unknown));
    assert_eq!(expect_chunk(d.pull()), b"ab".to_vec());
    match d.pull() {
        Pulled::Failed => {}
        _ => panic!("expected the fault to propagate"),
    }
    assert_eq!(d.emission().as_ref().unwrap(), &b"ab".to_vec());
    match d.pull() {
        Pulled::Done => {}
        _ => panic!("a finished stream only reports end-of-stream"),
    }
}

#[test]
fn drain_stops_at_fault_with_partial_emission() {
    let mut steps: Vec<StreamStep> = Vec::new();
    steps.push(StreamStep::Data(b"ab".to_vec()));
    steps.push(StreamStep::Data(b"cd".to_vec()));
    steps.push(StreamStep::Fault);
    steps.push(StreamStep::Data(b"ef".to_vec()));
    let mut d = StreamDecorator::wrap(ByteStream::new(steps, BodySize::Unknown));
    let (chunks, faulted) = d.drain();
    assert!(faulted);
    assert_eq!(chunks, vec![b"ab".to_vec(), b"cd".to_vec()]);
    assert_eq!(d.emission().as_ref().unwrap(), &b"abcd".to_vec());
}
