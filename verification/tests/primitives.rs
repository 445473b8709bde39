use framing::error::FrameError;
use framing::message::Message;
use framing::readbuffer::ReadBuffer;

#[test]
fn new_buffer_awaits_a_header() {
    let buffer = ReadBuffer::new();
    assert_eq!(buffer.remaining(), 2);
    assert_eq!(buffer.payload_len(), 0);
    assert_eq!(buffer.queue_len(), 0);
}

#[test]
fn new_message_is_empty() {
    let message = Message::new();
    assert_eq!(message.len, 0);
    assert_eq!(message.payload, Vec::<u8>::new());
}

#[test]
fn message_clone_keeps_length_and_payload() {
    let message = Message { len: 3, payload: vec![1, 2, 3] };
    let copy = message.clone();
    assert_eq!(copy.len, 3);
    assert_eq!(copy.payload, vec![1, 2, 3]);
}

#[test]
fn push_of_first_header_byte_counts_down() {
    let mut buffer = ReadBuffer::new();
    buffer.push(0x12);
    assert_eq!(buffer.remaining(), 1);
    assert_eq!(buffer.payload_len(), 0);
    assert_eq!(buffer.queue_len(), 0);
}

#[test]
fn push_of_second_header_byte_opens_the_payload_phase() {
    let mut buffer = ReadBuffer::new();
    buffer.push(0x12);
    buffer.push(0x34);
    assert_eq!(buffer.payload_len(), 0x1234);
    assert_eq!(buffer.payload_len(), 4660);
    assert_eq!(buffer.remaining(), 4660);
    assert_eq!(buffer.queue_len(), 0);
}

#[test]
fn push_of_header_ff_fe() {
    let mut buffer = ReadBuffer::new();
    buffer.push(0xff);
    buffer.push(0xfe);
    assert_eq!(buffer.remaining(), 65534);
    assert_eq!(buffer.payload_len(), 65534);
    assert_eq!(buffer.queue_len(), 0);
}

#[test]
fn push_of_payload_bytes_counts_down_to_completion() {
    let mut buffer = ReadBuffer::new();
    buffer.push(0x00);
    buffer.push(0x03);
    for (pushed, byte) in [0x0au8, 0x0b].into_iter().enumerate() {
        buffer.push(byte);
        assert_eq!(buffer.remaining() as usize, 3 - (pushed + 1));
        assert_eq!(buffer.payload_len(), 3);
        assert_eq!(buffer.queue_len(), 0);
    }
    buffer.push(0x0c);
    assert_eq!(buffer.remaining(), 2);
    assert_eq!(buffer.payload_len(), 0);
    assert_eq!(buffer.queue_len(), 1);
    assert_eq!(buffer.drain_queue(), vec![vec![0x0au8, 0x0b, 0x0c]]);
}

#[test]
fn push_of_header_1_0_completes_on_the_256th_payload_byte() {
    let mut buffer = ReadBuffer::new();
    buffer.push(0x01);
    buffer.push(0x00);
    for count in 1..=255u16 {
        buffer.push(0x5a);
        assert_eq!(buffer.queue_len(), 0);
        assert_eq!(buffer.remaining(), 256 - count);
    }
    buffer.push(0x5a);
    assert_eq!(buffer.queue_len(), 1);
    assert_eq!(buffer.remaining(), 2);
    assert_eq!(buffer.drain_queue(), vec![vec![0x5au8; 256]]);
}

#[test]
fn remaining_is_never_zero_between_pushes() {
    let stream = [0u8, 0, 0, 1, 7, 0, 3, 1, 2, 3, 0, 0, 1, 0];
    let mut buffer = ReadBuffer::new();
    assert!(buffer.remaining() >= 1);
    for (i, byte) in stream.iter().enumerate() {
        buffer.push(*byte);
        assert!(buffer.remaining() >= 1);
        if i % 4 == 3 {
            buffer.drain_queue();
            assert!(buffer.remaining() >= 1);
        }
    }
}

#[test]
fn calc_payload_len_on_empty_buffer_is_malformed() {
    let mut buffer = ReadBuffer::new();
    assert_eq!(buffer.calc_payload_len(), Err(FrameError::MalformedHeader));
    assert_eq!(buffer.payload_len(), 0);
    assert_eq!(buffer.remaining(), 2);
    assert_eq!(buffer.queue_len(), 0);
}

#[test]
fn calc_payload_len_on_one_byte_is_malformed() {
    let mut buffer = ReadBuffer::new();
    buffer.push(0x05);
    assert_eq!(buffer.calc_payload_len(), Err(FrameError::MalformedHeader));
    assert_eq!(buffer.payload_len(), 0);
    assert_eq!(buffer.remaining(), 1);
    assert_eq!(buffer.queue_len(), 0);
    buffer.push(0x06);
    assert_eq!(buffer.payload_len(), 0x0506);
}

#[test]
fn calc_payload_len_reads_high_byte_first() {
    let mut buffer = ReadBuffer::new();
    buffer.push_chunk(&[0x00, 0x03, 0x12, 0x34]);
    assert_eq!(buffer.payload_len(), 3);
    assert_eq!(buffer.calc_payload_len(), Ok(()));
    assert_eq!(buffer.payload_len(), 0x1234);
    assert_eq!(buffer.payload_len(), 4660);
    assert_eq!(buffer.remaining(), 1);
    assert_eq!(buffer.queue_len(), 0);
}

#[test]
fn calc_payload_len_of_largest_header() {
    let mut buffer = ReadBuffer::new();
    buffer.push_chunk(&[0x00, 0x03, 0xff, 0xff]);
    assert_eq!(buffer.calc_payload_len(), Ok(()));
    assert_eq!(buffer.payload_len(), 65535);
}

#[test]
fn calc_payload_len_ignores_bytes_after_the_second() {
    let mut buffer = ReadBuffer::new();
    buffer.push_chunk(&[0x00, 0x04, 0x00, 0x07, 0xee]);
    assert_eq!(buffer.calc_payload_len(), Ok(()));
    assert_eq!(buffer.payload_len(), 7);
}

#[test]
fn set_capacity_starts_an_empty_phase() {
    let mut buffer = ReadBuffer::new();
    buffer.push_chunk(&[0x00, 0x05, 0x61, 0x62]);
    buffer.set_capacity(9);
    assert_eq!(buffer.remaining(), 9);
    assert_eq!(buffer.payload_len(), 5);
    assert_eq!(buffer.queue_len(), 0);
    assert_eq!(buffer.calc_payload_len(), Err(FrameError::MalformedHeader));
}

#[test]
fn set_capacity_restarts_the_payload_of_the_current_message() {
    let mut buffer = ReadBuffer::new();
    buffer.push_chunk(&[0x00, 0x02, 0x61]);
    buffer.set_capacity(2);
    buffer.push_chunk(&[0x62, 0x63]);
    assert_eq!(buffer.drain_queue(), vec![b"bc".to_vec()]);
    assert_eq!(buffer.remaining(), 2);
}

#[test]
fn reset_in_payload_phase_queues_the_gathered_bytes() {
    let mut buffer = ReadBuffer::new();
    buffer.push_chunk(&[0x00, 0x03, 0x41, 0x42]);
    buffer.reset();
    assert_eq!(buffer.queue_len(), 1);
    assert_eq!(buffer.remaining(), 2);
    assert_eq!(buffer.payload_len(), 0);
    assert_eq!(buffer.drain_queue(), vec![b"AB".to_vec()]);
}

#[test]
fn reset_in_header_phase_queues_an_empty_message() {
    let mut buffer = ReadBuffer::new();
    buffer.push(0x09);
    buffer.reset();
    assert_eq!(buffer.queue_len(), 1);
    assert_eq!(buffer.remaining(), 2);
    assert_eq!(buffer.payload_len(), 0);
    assert_eq!(buffer.calc_payload_len(), Err(FrameError::MalformedHeader));
    assert_eq!(buffer.drain_queue(), vec![Vec::<u8>::new()]);
}

#[test]
fn reset_keeps_older_messages_in_front() {
    let mut buffer = ReadBuffer::new();
    buffer.push_chunk(&[0x00, 0x01, 0x31, 0x00, 0x02, 0x32]);
    buffer.reset();
    buffer.reset();
    assert_eq!(buffer.queue_len(), 3);
    assert_eq!(buffer.drain_queue(), vec![vec![0x31u8], vec![0x32u8], Vec::<u8>::new()]);
    assert_eq!(buffer.queue_len(), 0);
}

#[test]
fn stream_goes_on_after_a_reset() {
    let mut buffer = ReadBuffer::new();
    buffer.push(0x00);
    buffer.reset();
    buffer.push_chunk(&[0x00, 0x01, 0x5a]);
    assert_eq!(buffer.drain_queue(), vec![Vec::<u8>::new(), vec![0x5au8]]);
}

#[test]
fn malformed_header_compares_and_prints() {
    let error = FrameError::MalformedHeader;
    let copy = error;
    assert_eq!(error, copy);
    assert_eq!(format!("{:?}", error), "MalformedHeader");
}
