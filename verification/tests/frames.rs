use cliud::io::IoError;
use cliud::websocket::frame::{
    apply_mask, decode_frame, next_opcode, parse_head, push_be, read_be, receive_packet,
    send_packet,
};
use cliud::websocket::{Error, Opcode};

fn payload_of(len: usize) -> Vec<u8> {
    let mut data = Vec::with_capacity(len);
    for i in 0..len {
        data.push((i * 31 % 251) as u8);
    }
    data
}

fn round_trip(opcode: Opcode, len: usize, mask: u32) {
    let data = payload_of(len);
    let frame = send_packet(opcode, &data, mask);
    let ((got_opcode, got_data), used) = receive_packet(&frame).unwrap();
    assert_eq!(got_opcode, opcode);
    assert_eq!(got_data, data);
    assert_eq!(used, frame.len());
}

#[test]
fn round_trip_unmasked_at_every_length_tier() {
    for len in [0usize, 1, 125, 126, 65535, 65536] {
        round_trip(Opcode::Binary, len, 0);
        round_trip(Opcode::Text, len, 0);
    }
}

#[test]
fn round_trip_masked_at_every_length_tier() {
    for len in [0usize, 1, 125, 126, 65535, 65536] {
        round_trip(Opcode::Binary, len, 0x37fa_213d);
        round_trip(Opcode::Text, len, 1);
    }
}

#[test]
fn round_trip_control_frames() {
    for opcode in [Opcode::Close, Opcode::Ping, Opcode::Pong] {
        round_trip(opcode, 0, 0);
        round_trip(opcode, 125, 0);
        round_trip(opcode, 125, 0xdead_beef);
    }
}

#[test]
fn masking_twice_restores_the_bytes() {
    let key = [0x37, 0xfa, 0x21, 0x3d];
    for len in [0usize, 1, 3, 4, 5, 1000] {
        let data = payload_of(len);
        let once = apply_mask(&data, &key);
        let twice = apply_mask(&once, &key);
        assert_eq!(twice, data);
        if len > 0 {
            assert_ne!(once, data);
        }
    }
}

#[test]
fn mask_uses_key_byte_at_index_modulo_four() {
    let masked = apply_mask(&[0, 0, 0, 0, 0, 0xff], &[1, 2, 3, 4]);
    assert_eq!(masked, vec![1, 2, 3, 4, 1, 0xff ^ 2]);
}

#[test]
fn unmasked_text_frame_bytes() {
    let frame = send_packet(Opcode::Text, b"Hello", 0);
    assert_eq!(frame, vec![0x81, 0x05, 0x48, 0x65, 0x6c, 0x6c, 0x6f]);
}

#[test]
fn masked_text_frame_bytes() {
    let frame = send_packet(Opcode::Text, b"Hello", 0x37fa_213d);
    assert_eq!(
        frame,
        vec![0x81, 0x85, 0x37, 0xfa, 0x21, 0x3d, 0x7f, 0x9f, 0x4d, 0x51, 0x58]
    );
}

#[test]
fn length_126_uses_sixteen_bit_form() {
    let frame = send_packet(Opcode::Binary, &payload_of(126), 0);
    assert_eq!(&frame[..4], &[0x82, 126, 0, 126]);
    assert_eq!(frame.len(), 4 + 126);
    let frame = send_packet(Opcode::Binary, &payload_of(65535), 0);
    assert_eq!(&frame[..4], &[0x82, 126, 0xff, 0xff]);
    assert_eq!(frame.len(), 4 + 65535);
}

#[test]
fn length_125_uses_direct_form() {
    let frame = send_packet(Opcode::Binary, &payload_of(125), 0);
    assert_eq!(&frame[..2], &[0x82, 125]);
    assert_eq!(frame.len(), 2 + 125);
}

#[test]
fn length_65536_uses_sixty_four_bit_form() {
    let frame = send_packet(Opcode::Binary, &payload_of(65536), 0);
    assert_eq!(&frame[..10], &[0x82, 127, 0, 0, 0, 0, 0, 1, 0, 0]);
    assert_eq!(frame.len(), 10 + 65536);
}

#[test]
fn every_opcode_goes_out_with_fin_set() {
    assert_eq!(send_packet(Opcode::Continuation, &[], 0), vec![0x80, 0]);
    assert_eq!(send_packet(Opcode::Text, &[], 0), vec![0x81, 0]);
    assert_eq!(send_packet(Opcode::Binary, &[], 0), vec![0x82, 0]);
    assert_eq!(send_packet(Opcode::Close, &[], 0), vec![0x88, 0]);
    assert_eq!(send_packet(Opcode::Ping, &[], 0), vec![0x89, 0]);
    assert_eq!(send_packet(Opcode::Pong, &[], 0), vec![0x8a, 0]);
}

#[test]
fn decodes_masked_frame() {
    let bytes = [0x81, 0x85, 0x37, 0xfa, 0x21, 0x3d, 0x7f, 0x9f, 0x4d, 0x51, 0x58];
    let ((opcode, data), used) = receive_packet(&bytes).unwrap();
    assert_eq!(opcode, Opcode::Text);
    assert_eq!(data, b"Hello".to_vec());
    assert_eq!(used, bytes.len());
}

#[test]
fn three_fragments_reassemble() {
    let mut bytes = vec![0x01, 0x03];
    bytes.extend_from_slice(b"Hel");
    bytes.extend_from_slice(&[0x00, 0x02]);
    bytes.extend_from_slice(b"lo");
    bytes.extend_from_slice(&[0x80, 0x06]);
    bytes.extend_from_slice(b" world");
    let ((opcode, data), used) = receive_packet(&bytes).unwrap();
    assert_eq!(opcode, Opcode::Text);
    assert_eq!(data, b"Hello world".to_vec());
    assert_eq!(used, bytes.len());
}

#[test]
fn receive_stops_behind_the_first_message() {
    let mut bytes = send_packet(Opcode::Text, b"one", 0);
    let first = bytes.len();
    bytes.extend(send_packet(Opcode::Binary, b"two", 0));
    let ((opcode, data), used) = receive_packet(&bytes).unwrap();
    assert_eq!((opcode, data, used), (Opcode::Text, b"one".to_vec(), first));
    let ((opcode, data), used) = receive_packet(&bytes[first..]).unwrap();
    assert_eq!((opcode, data, used), (Opcode::Binary, b"two".to_vec(), bytes.len() - first));
}

#[test]
fn fragmented_ping_is_rejected() {
    assert_eq!(receive_packet(&[0x09, 0x00]), Err(Error::BadProtocol));
    assert_eq!(parse_head(0x09, 0x00), Err(Error::BadProtocol));
    assert_eq!(parse_head(0x08, 0x00), Err(Error::BadProtocol));
    assert_eq!(parse_head(0x0a, 0x00), Err(Error::BadProtocol));
}

#[test]
fn long_control_frame_is_rejected() {
    assert_eq!(parse_head(0x89, 126), Err(Error::BadProtocol));
    assert_eq!(parse_head(0x89, 127), Err(Error::BadProtocol));
    assert_eq!(parse_head(0x88, 0x80 | 126), Err(Error::BadProtocol));
    assert!(parse_head(0x89, 125).is_ok());
    let mut bytes = vec![0x89, 126, 0, 126];
    bytes.extend(payload_of(126));
    assert_eq!(receive_packet(&bytes), Err(Error::BadProtocol));
}

#[test]
fn unknown_opcodes_are_rejected() {
    for code in [3u8, 4, 5, 6, 7, 11, 12, 13, 14, 15] {
        assert_eq!(parse_head(0x80 | code, 0), Err(Error::InvalidOpcode(code)));
        assert_eq!(receive_packet(&[0x80 | code, 0]), Err(Error::InvalidOpcode(code)));
        assert_eq!(Opcode::try_from(code), Err(Error::InvalidOpcode(code)));
    }
    assert_eq!(Opcode::try_from(255), Err(Error::InvalidOpcode(255)));
}

#[test]
fn known_opcodes_have_their_wire_values() {
    let all = [
        (Opcode::Continuation, 0u8),
        (Opcode::Text, 1),
        (Opcode::Binary, 2),
        (Opcode::Close, 8),
        (Opcode::Ping, 9),
        (Opcode::Pong, 10),
    ];
    for (opcode, code) in all {
        assert_eq!(opcode.code(), code);
        assert_eq!(Opcode::try_from(code), Ok(opcode));
        assert_eq!(opcode.is_control(), code >= 8);
    }
}

#[test]
fn head_fields() {
    let head = parse_head(0x81, 0x85).unwrap();
    assert!(head.fin);
    assert_eq!(head.opcode, Opcode::Text);
    assert!(head.masked);
    assert_eq!(head.len_code, 5);
    let head = parse_head(0x02, 0x7f).unwrap();
    assert!(!head.fin);
    assert_eq!(head.opcode, Opcode::Binary);
    assert!(!head.masked);
    assert_eq!(head.len_code, 127);
}

#[test]
fn reserved_bits_are_ignored() {
    let head = parse_head(0xf1, 0x00).unwrap();
    assert!(head.fin);
    assert_eq!(head.opcode, Opcode::Text);
}

#[test]
fn continuation_without_message_is_rejected() {
    assert_eq!(receive_packet(&[0x80, 0x00]), Err(Error::BadProtocol));
    assert_eq!(next_opcode(Opcode::Continuation, Opcode::Continuation), Err(Error::BadProtocol));
}

#[test]
fn second_opcode_inside_message_is_rejected() {
    assert_eq!(receive_packet(&[0x01, 0x00, 0x81, 0x00]), Err(Error::BadProtocol));
    assert_eq!(receive_packet(&[0x01, 0x00, 0x89, 0x00]), Err(Error::BadProtocol));
    assert_eq!(next_opcode(Opcode::Text, Opcode::Binary), Err(Error::BadProtocol));
    assert_eq!(next_opcode(Opcode::Text, Opcode::Continuation), Ok(Opcode::Text));
    assert_eq!(next_opcode(Opcode::Continuation, Opcode::Binary), Ok(Opcode::Binary));
}

#[test]
fn truncated_input_is_an_io_error() {
    let eof = Err(Error::IO(IoError::UnexpectedEof));
    assert_eq!(receive_packet(&[]), eof);
    assert_eq!(receive_packet(&[0x81]), eof);
    assert_eq!(receive_packet(&[0x81, 0x05, b'H']), eof);
    assert_eq!(receive_packet(&[0x81, 126, 0]), eof);
    assert_eq!(receive_packet(&[0x81, 127, 0, 0, 0, 0, 0, 0, 0]), eof);
    assert_eq!(receive_packet(&[0x81, 0x80, 1, 2, 3]), eof);
    assert_eq!(receive_packet(&[0x01, 0x01, b'a']), eof);
    let frame = send_packet(Opcode::Binary, &payload_of(300), 7);
    for cut in 0..frame.len() {
        assert_eq!(receive_packet(&frame[..cut]), eof);
    }
}

#[test]
fn protocol_errors_come_before_truncation() {
    assert_eq!(receive_packet(&[0x83, 0x05]), Err(Error::InvalidOpcode(3)));
    assert_eq!(receive_packet(&[0x09, 0x05]), Err(Error::BadProtocol));
    assert_eq!(receive_packet(&[0x80, 0x05]), Err(Error::BadProtocol));
}

#[test]
fn huge_declared_length_is_an_io_error() {
    let bytes = [0x82, 127, 0xff, 0xff, 0xff, 0xff, 0xff, 0xff, 0xff, 0xff, 1, 2, 3];
    assert_eq!(receive_packet(&bytes), Err(Error::IO(IoError::UnexpectedEof)));
}

#[test]
fn decode_frame_reports_frame_and_end() {
    let bytes = [0xff, 0x01, 0x02, b'h', b'i', 0x80, 0x00];
    let (frame, end) = decode_frame(&bytes, 1, Opcode::Continuation).unwrap();
    assert!(!frame.fin);
    assert_eq!(frame.opcode, Opcode::Text);
    assert_eq!(frame.payload, b"hi".to_vec());
    assert_eq!(end, 5);
    let (frame, end) = decode_frame(&bytes, 5, Opcode::Text).unwrap();
    assert!(frame.fin);
    assert_eq!(frame.opcode, Opcode::Text);
    assert!(frame.payload.is_empty());
    assert_eq!(end, 7);
}

#[test]
fn big_endian_numbers() {
    assert_eq!(read_be(&[0x12, 0x34], 0, 2), 0x1234);
    assert_eq!(read_be(&[9, 0, 0, 0, 0, 0, 1, 0, 0], 1, 8), 65536);
    assert_eq!(read_be(&[0xff; 8], 0, 8), u64::MAX);
    assert_eq!(read_be(&[1, 2, 3], 1, 0), 0);
    let mut out = vec![7u8];
    push_be(&mut out, 0x0102_0304_0506_0708, 8);
    assert_eq!(out, vec![7, 1, 2, 3, 4, 5, 6, 7, 8]);
    let mut out = Vec::new();
    push_be(&mut out, 0x0001_0203, 2);
    assert_eq!(out, vec![2, 3]);
}

#[test]
fn error_messages_of_the_session() {
    assert_eq!(Error::IO(IoError::UnexpectedEof).message(), "IO Error: failed to fill whole buffer");
    assert_eq!(Error::InvalidOpcode(3).message(), "Invalid Opcode: 3");
    assert_eq!(Error::InvalidOpcode(255).message(), "Invalid Opcode: 255");
    assert_eq!(Error::InvalidOpcode(0).message(), "Invalid Opcode: 0");
    assert_eq!(Error::BadProtocol.message(), "Bad Protocol");
    assert_eq!(Error::PongTimeout.message(), "Pong Timeout");
}

#[test]
fn more_input_does_not_change_a_message() {
    let frame = send_packet(Opcode::Text, b"stable", 5);
    let mut longer = frame.clone();
    longer.extend_from_slice(&[0xff, 0xff, 0xff]);
    assert_eq!(receive_packet(&longer), receive_packet(&frame));
    let mut bad = vec![0x83, 0x00];
    assert_eq!(receive_packet(&bad), Err(Error::InvalidOpcode(3)));
    bad.extend_from_slice(&[1, 2, 3]);
    assert_eq!(receive_packet(&bad), Err(Error::InvalidOpcode(3)));
}
