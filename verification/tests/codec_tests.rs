use nping::checksum::{checksum_of, ones_sum};
use nping::codec::{decode_echo_reply, echo_reply_for, encode_echo_request};

#[test]
fn ones_sum_of_nothing_is_zero() {
    assert_eq!(ones_sum(&[]), 0);
    assert_eq!(checksum_of(&[]), 0xFFFF);
}

#[test]
fn ones_sum_adds_big_endian_words() {
    assert_eq!(ones_sum(&[0x12, 0x34]), 0x1234);
    assert_eq!(ones_sum(&[0x12, 0x34, 0x00, 0x01]), 0x1235);
    assert_eq!(checksum_of(&[0x12, 0x34, 0x00, 0x01]), 0xEDCA);
}

#[test]
fn ones_sum_pads_an_odd_byte_on_the_right() {
    assert_eq!(ones_sum(&[0xAB]), 0xAB00);
    assert_eq!(ones_sum(&[0x00, 0x01, 0xAB]), 0xAB01);
}

#[test]
fn ones_sum_carries_around() {
    // 0xFFFF + 0x0001 = 0x1_0000, folded to 0x0001.
    assert_eq!(ones_sum(&[0xFF, 0xFF, 0x00, 0x01]), 0x0001);
    // 0xFFFF + 0xFFFF = 0x1_FFFE, folded to 0xFFFF.
    assert_eq!(ones_sum(&[0xFF, 0xFF, 0xFF, 0xFF]), 0xFFFF);
    assert_eq!(checksum_of(&[0xFF, 0xFF, 0xFF, 0xFF]), 0);
}

#[test]
fn request_has_the_documented_layout() {
    let frame = encode_echo_request(0x1234, 1, 0);
    assert_eq!(frame, vec![0x08, 0x00, 0xE5, 0xCA, 0x12, 0x34, 0x00, 0x01]);
}

#[test]
fn request_payload_is_filler() {
    let frame = encode_echo_request(7, 9, 5);
    assert_eq!(frame.len(), 13);
    assert_eq!(&frame[8..], &[0u8, 0, 0, 0, 0]);
    assert_eq!(&frame[4..8], &[0u8, 7, 0, 9]);
    assert_eq!(frame[0], 8);
    assert_eq!(frame[1], 0);
}

#[test]
fn request_checksum_makes_the_words_sum_to_all_ones() {
    for size in [0usize, 1, 2, 7, 8, 56, 1471, 1472] {
        let frame = encode_echo_request(0xBEEF, 0x0102, size);
        assert_eq!(ones_sum(&frame), 0xFFFF);
    }
}

#[test]
fn reply_to_request_is_decoded() {
    let request = encode_echo_request(0x1234, 1, 0);
    let reply = echo_reply_for(&request).unwrap();
    assert_eq!(reply, vec![0x00, 0x00, 0xED, 0xCA, 0x12, 0x34, 0x00, 0x01]);
    assert_eq!(decode_echo_reply(&reply), Some((0x1234, 1)));
}

#[test]
fn round_trip_over_identifiers_sequences_and_sizes() {
    let identifiers = [0u16, 1, 0x00FF, 0x0100, 0x1234, 0x7FFF, 0x8000, 0xFFFE, 0xFFFF];
    let sequences = [0u16, 1, 2, 255, 256, 21845, 43691, 65534, 65535];
    let sizes = [0usize, 1, 2, 3, 8, 9, 56, 1471, 1472];
    for id in identifiers {
        for seq in sequences {
            for size in sizes {
                let request = encode_echo_request(id, seq, size);
                assert_eq!(request.len(), 8 + size);
                let reply = echo_reply_for(&request).unwrap();
                assert_eq!(decode_echo_reply(&reply), Some((id, seq)));
            }
        }
    }
}

#[test]
fn request_is_not_a_reply() {
    let request = encode_echo_request(1, 1, 8);
    assert_eq!(decode_echo_reply(&request), None);
}

#[test]
fn type_changed_without_new_checksum_is_rejected() {
    let mut frame = encode_echo_request(0, 0, 0);
    frame[0] = 0;
    assert_eq!(decode_echo_reply(&frame), None);
}

#[test]
fn other_icmp_traffic_is_ignored() {
    // destination unreachable, with a checksum that is right for it
    let mut frame = vec![3u8, 1, 0, 0, 0, 0, 0, 0, 1, 2, 3, 4];
    let sum = checksum_of(&frame);
    frame[2] = (sum >> 8) as u8;
    frame[3] = (sum & 0xFF) as u8;
    assert_eq!(ones_sum(&frame), 0xFFFF);
    assert_eq!(decode_echo_reply(&frame), None);
    assert!(echo_reply_for(&frame).is_none());
}

#[test]
fn truncated_frames_are_rejected() {
    let reply = echo_reply_for(&encode_echo_request(5, 6, 4)).unwrap();
    for len in 0..8 {
        assert_eq!(decode_echo_reply(&reply[..len]), None);
    }
    assert_eq!(decode_echo_reply(&[]), None);
}

#[test]
fn every_single_bit_flip_is_rejected() {
    for size in [0usize, 1, 8, 33] {
        let reply = echo_reply_for(&encode_echo_request(0xA55A, 0x0F0F, size)).unwrap();
        assert_eq!(decode_echo_reply(&reply), Some((0xA55A, 0x0F0F)));
        for position in 0..reply.len() {
            for bit in 0..8 {
                let mut damaged = reply.clone();
                damaged[position] ^= 1u8 << bit;
                assert_eq!(decode_echo_reply(&damaged), None);
            }
        }
    }
}

#[test]
fn every_single_byte_change_is_rejected() {
    let reply = echo_reply_for(&encode_echo_request(3, 4, 3)).unwrap();
    for position in 0..reply.len() {
        for value in 0..=255u8 {
            if value != reply[position] {
                let mut damaged = reply.clone();
                damaged[position] = value;
                assert_eq!(decode_echo_reply(&damaged), None);
            }
        }
    }
}

#[test]
fn reply_with_payload_from_elsewhere_is_decoded() {
    // An echo reply whose payload is not filler: identifier 0x0102,
    // sequence 0x0304, payload "hi!".
    let mut frame = vec![0u8, 0, 0, 0, 1, 2, 3, 4, b'h', b'i', b'!'];
    let sum = checksum_of(&frame);
    frame[2] = (sum >> 8) as u8;
    frame[3] = (sum & 0xFF) as u8;
    assert_eq!(decode_echo_reply(&frame), Some((0x0102, 0x0304)));
}

#[test]
fn responder_ignores_damaged_requests() {
    let mut request = encode_echo_request(1, 2, 8);
    assert!(echo_reply_for(&request).is_some());
    request[9] ^= 0x40;
    assert!(echo_reply_for(&request).is_none());
    assert!(echo_reply_for(&request[..4]).is_none());
}
