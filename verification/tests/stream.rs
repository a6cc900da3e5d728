use pangpang::ssh::stream::{ChannelEvent, ReadBuffer, ReadStep, WaitOutcome};

#[test]
fn empty_buffer_needs_a_message() {
    let mut b = ReadBuffer::new();
    assert_eq!(b.read_buffered(16), None);
}

#[test]
fn data_is_read_in_order_in_chunks() {
    let mut b = ReadBuffer::new();
    let step = b.on_wait(WaitOutcome::Message(ChannelEvent::Data(vec![1, 2, 3, 4, 5])));
    assert_eq!(step, ReadStep::Retry);
    assert_eq!(b.read_buffered(2), Some(vec![1, 2]));
    assert_eq!(b.read_buffered(2), Some(vec![3, 4]));
    assert_eq!(b.read_buffered(2), Some(vec![5]));
    assert_eq!(b.read_buffered(2), None);
}

#[test]
fn shorter_data_reuses_the_buffer() {
    let mut b = ReadBuffer::new();
    b.on_wait(WaitOutcome::Message(ChannelEvent::Data(vec![9, 9, 9, 9])));
    assert_eq!(b.read_buffered(100), Some(vec![9, 9, 9, 9]));
    b.on_wait(WaitOutcome::Message(ChannelEvent::Data(vec![7, 8])));
    assert_eq!(b.read_buffered(100), Some(vec![7, 8]));
    assert_eq!(b.read_buffered(100), None);
}

#[test]
fn zero_room_reads_nothing() {
    let mut b = ReadBuffer::new();
    b.on_wait(WaitOutcome::Message(ChannelEvent::Data(vec![1])));
    assert_eq!(b.read_buffered(0), Some(vec![]));
    assert_eq!(b.read_buffered(1), Some(vec![1]));
}

#[test]
fn end_and_errors() {
    let mut b = ReadBuffer::new();
    assert_eq!(b.on_wait(WaitOutcome::Message(ChannelEvent::Eof)), ReadStep::UnexpectedEof);
    assert_eq!(b.on_wait(WaitOutcome::Message(ChannelEvent::Close)), ReadStep::UnexpectedEof);
    assert_eq!(b.on_wait(WaitOutcome::Message(ChannelEvent::Other)), ReadStep::Retry);
    assert_eq!(b.on_wait(WaitOutcome::Ended), ReadStep::Finished);
    assert_eq!(b.on_wait(WaitOutcome::Pending), ReadStep::Pending);
    assert_eq!(b.read_buffered(8), None);
}
