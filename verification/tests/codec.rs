use chat_label_printer::packet::{NiimbotPacket, PacketError};
use chat_label_printer::reassembler::reassemble;

fn frame(command: u8, payload: &[u8]) -> Vec<u8> {
    NiimbotPacket::new(command, payload.to_vec()).to_bytes()
}

#[test]
fn heartbeat_frame_bytes() {
    assert_eq!(frame(0xDC, &[0x01]), vec![0x55, 0x55, 0xDC, 0x01, 0x01, 0xDC, 0xAA, 0xAA]);
}

#[test]
fn empty_payload_frame_bytes() {
    assert_eq!(frame(0x40, &[]), vec![0x55, 0x55, 0x40, 0x00, 0x40, 0xAA, 0xAA]);
}

#[test]
fn checksum_is_xor_of_command_length_and_payload() {
    let packet = NiimbotPacket::new(0x13, vec![0x00, 0xF0, 0x01, 0x90, 0x00, 0x01]);
    assert_eq!(packet.checksum(), 0x13 ^ 0x06 ^ 0xF0 ^ 0x01 ^ 0x90 ^ 0x01);
}

#[test]
fn round_trip_for_every_command_and_several_lengths() {
    for command in 0..=255u8 {
        for len in [0usize, 1, 2, 7, 64, 254, 255] {
            let payload: Vec<u8> = (0..len).map(|i| (i as u8).wrapping_mul(31) ^ command).collect();
            let decoded = NiimbotPacket::from_bytes(&frame(command, &payload)).unwrap();
            assert_eq!(decoded.packet_type, command);
            assert_eq!(decoded.data, payload);
        }
    }
}

#[test]
fn short_input_is_a_boundary_error() {
    assert_eq!(NiimbotPacket::from_bytes(&[]).unwrap_err(), PacketError::InvalidBoundaries);
    assert_eq!(
        NiimbotPacket::from_bytes(&[0x55, 0x55, 0xAA, 0xAA]).unwrap_err(),
        PacketError::InvalidBoundaries
    );
    assert_eq!(
        NiimbotPacket::from_bytes(&[0x55, 0x55, 0x01, 0x00, 0xAA, 0xAA]).unwrap_err(),
        PacketError::InvalidBoundaries
    );
}

#[test]
fn wrong_markers_are_a_boundary_error() {
    let good = frame(0x01, &[1, 2, 3]);
    for index in [0usize, 1, good.len() - 2, good.len() - 1] {
        let mut bad = good.clone();
        bad[index] ^= 0xFF;
        assert_eq!(NiimbotPacket::from_bytes(&bad).unwrap_err(), PacketError::InvalidBoundaries);
    }
}

#[test]
fn length_byte_must_match_total_length() {
    let mut long = frame(0x01, &[1, 2, 3]);
    long[3] = 2;
    assert_eq!(NiimbotPacket::from_bytes(&long).unwrap_err(), PacketError::InvalidChecksum);
    let mut short = frame(0x01, &[1, 2, 3]);
    short[3] = 200;
    assert_eq!(NiimbotPacket::from_bytes(&short).unwrap_err(), PacketError::InvalidChecksum);
    let mut padded = frame(0x01, &[]);
    padded.insert(5, 0x00);
    assert_eq!(NiimbotPacket::from_bytes(&padded).unwrap_err(), PacketError::InvalidChecksum);
    assert_eq!(
        NiimbotPacket::from_bytes(&[0x55, 0x55, 0xAA, 0x00, 0xAA, 0xAA, 0xAA]).unwrap().packet_type,
        0xAA
    );
}

#[test]
fn wrong_checksum_is_a_checksum_error() {
    let mut bad = frame(0x01, &[1, 2, 3]);
    let at = bad.len() - 3;
    bad[at] ^= 0x10;
    assert_eq!(NiimbotPacket::from_bytes(&bad).unwrap_err(), PacketError::InvalidChecksum);
}

#[test]
fn any_single_bit_flip_in_payload_or_checksum_fails() {
    let good = frame(0xA3, &[0x00, 0x01, 0x64, 0x64, 0xAA]);
    for index in 4..good.len() - 2 {
        for bit in 0..8 {
            let mut bad = good.clone();
            bad[index] ^= 1 << bit;
            assert!(NiimbotPacket::from_bytes(&bad).is_err(), "byte {index} bit {bit}");
        }
    }
}

#[test]
fn error_messages() {
    assert_eq!(PacketError::InvalidBoundaries.message(), "Invalid packet boundaries");
    assert_eq!(PacketError::InvalidChecksum.message(), "Invalid checksum");
}

#[test]
fn reassembles_two_frames_in_order() {
    let mut stream = frame(0xDD, &[1]);
    stream.extend(frame(0x33, &[1]));
    let packets = reassemble(&stream);
    assert_eq!(packets.len(), 2);
    assert_eq!((packets[0].packet_type, packets[0].data.clone()), (0xDD, vec![1]));
    assert_eq!((packets[1].packet_type, packets[1].data.clone()), (0x33, vec![1]));
}

#[test]
fn corrupted_frame_then_valid_frame_yields_one_frame() {
    let mut corrupt = frame(0xDD, &[1, 2, 3]);
    corrupt[5] ^= 0x04;
    let mut stream = corrupt;
    stream.extend(frame(0x02, &[9]));
    let packets = reassemble(&stream);
    assert_eq!(packets.len(), 1);
    assert_eq!(packets[0].packet_type, 0x02);
    assert_eq!(packets[0].data, vec![9]);
}

#[test]
fn empty_stream_and_noise_yield_nothing() {
    assert!(reassemble(&[]).is_empty());
    assert!(reassemble(&[0x00, 0x12, 0x55, 0xAA, 0x55]).is_empty());
    assert!(reassemble(&[0u8; 1024]).is_empty());
}

#[test]
fn truncated_frame_yields_nothing() {
    let whole = frame(0xDD, &[1, 2, 3]);
    assert!(reassemble(&whole[..whole.len() - 1]).is_empty());
}

#[test]
fn frame_with_end_marker_inside_is_lost_and_so_is_what_follows() {
    let mut stream = frame(0xDD, &[0xAA, 0xAA, 7]);
    stream.extend(frame(0x02, &[9]));
    assert!(reassemble(&stream).is_empty());
}

#[test]
fn a_frame_is_emitted_once() {
    let stream = frame(0xDD, &[1]);
    assert_eq!(reassemble(&stream).len(), 1);
    let mut twice = stream.clone();
    twice.extend(stream);
    assert_eq!(reassemble(&twice).len(), 2);
}
