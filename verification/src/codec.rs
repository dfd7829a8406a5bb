//! ICMP echo framing: building echo requests and reading echo replies.
//!
//! A frame is eight header bytes followed by the payload:
//! type, code, checksum (two bytes), identifier (two bytes), sequence (two
//! bytes). All 16-bit fields are in network byte order.

use crate::checksum::{
    checksum_of, internet_checksum, lemma_sum_changes_with_byte, lemma_sum_in_range,
};
use vstd::prelude::*;

verus! {

/// ICMP type of an echo request.
pub const ECHO_REQUEST: u8 = 8;

/// ICMP type of an echo reply.
pub const ECHO_REPLY: u8 = 0;

/// Number of header bytes in an echo frame.
pub const HEADER_LEN: usize = 8;

/// The byte that fills the payload of a request.
pub const FILLER: u8 = 0;

/// The more significant byte of a 16-bit field.
pub open spec fn high_byte(v: u16) -> u8 {
    (v / 256) as u8
}

/// The less significant byte of a 16-bit field.
pub open spec fn low_byte(v: u16) -> u8 {
    (v % 256) as u8
}

/// The 16-bit value that two bytes hold in network byte order.
pub open spec fn be16(hi: u8, lo: u8) -> u16 {
    (hi as int * 256 + lo as int) as u16
}

/// An echo frame of the given type whose checksum field is still zero.
pub open spec fn unsealed_frame(kind: u8, identifier: u16, sequence: u16, payload_size: nat) -> Seq<
    u8,
> {
    seq![
        kind,
        0u8,
        0u8,
        0u8,
        high_byte(identifier),
        low_byte(identifier),
        high_byte(sequence),
        low_byte(sequence),
    ] + Seq::new(payload_size, |i: int| FILLER)
}

/// `frame` with `value` written into its checksum field.
pub open spec fn with_checksum_field(frame: Seq<u8>, value: u16) -> Seq<u8> {
    frame.update(2, high_byte(value)).update(3, low_byte(value))
}

/// The value that the checksum field of `frame` holds.
pub open spec fn checksum_field(frame: Seq<u8>) -> u16 {
    be16(frame[2], frame[3])
}

/// The checksum that `frame` ought to carry: the Internet checksum of the
/// frame with its checksum field taken as zero.
pub open spec fn frame_checksum(frame: Seq<u8>) -> u16 {
    internet_checksum(with_checksum_field(frame, 0)) as u16
}

/// `frame` with the checksum it ought to carry written into it.
pub open spec fn sealed(frame: Seq<u8>) -> Seq<u8> {
    with_checksum_field(frame, frame_checksum(frame))
}

/// Whether `frame` carries the checksum it ought to carry.
pub open spec fn checksum_valid(frame: Seq<u8>) -> bool {
    frame.len() >= 4 && checksum_field(frame) == frame_checksum(frame)
}

/// The echo request for `identifier` and `sequence` with `payload_size`
/// filler bytes.
pub open spec fn echo_request_frame(identifier: u16, sequence: u16, payload_size: nat) -> Seq<u8> {
    sealed(unsealed_frame(ECHO_REQUEST, identifier, sequence, payload_size))
}

/// What an echo responder makes of `frame`: the same bytes with the type set
/// to echo reply and the checksum brought up to date.
pub open spec fn as_echo_reply(frame: Seq<u8>) -> Seq<u8> {
    sealed(frame.update(0, ECHO_REPLY))
}

/// Whether `frame` is an echo request with a valid checksum.
pub open spec fn is_echo_request(frame: Seq<u8>) -> bool {
    frame.len() >= HEADER_LEN && frame[0] == ECHO_REQUEST && checksum_valid(frame)
}

/// The identifier and sequence number that `frame` answers, if it is an echo
/// reply with a valid checksum.
pub open spec fn decoded_reply(frame: Seq<u8>) -> Option<(u16, u16)> {
    if frame.len() >= HEADER_LEN && frame[0] == ECHO_REPLY && checksum_valid(frame) {
        Some((be16(frame[4], frame[5]), be16(frame[6], frame[7])))
    } else {
        None
    }
}

/// Splitting a 16-bit value into bytes and joining them again gives it back.
pub proof fn lemma_be16_of_bytes(v: u16)
    ensures
        be16(high_byte(v), low_byte(v)) == v,
{
}

/// Two bytes split from their 16-bit value are the bytes themselves.
pub proof fn lemma_bytes_of_be16(hi: u8, lo: u8)
    ensures
        high_byte(be16(hi, lo)) == hi,
        low_byte(be16(hi, lo)) == lo,
{
}

/// Writing the checksum field does not change the checksum that a frame
/// ought to carry, and a sealed frame carries it.
pub proof fn lemma_sealed_is_valid(frame: Seq<u8>)
    requires
        frame.len() >= 4,
    ensures
        sealed(frame).len() == frame.len(),
        frame_checksum(sealed(frame)) == frame_checksum(frame),
        checksum_valid(sealed(frame)),
        forall|i: int| 0 <= i < frame.len() && i != 2 && i != 3 ==> sealed(frame)[i] == frame[i],
{
    let c = frame_checksum(frame);
    assert(with_checksum_field(sealed(frame), 0) == with_checksum_field(frame, 0));
    lemma_be16_of_bytes(c);
}

/// Whether `bytes` carry the checksum that they ought to carry.
fn has_valid_checksum(bytes: &[u8]) -> (valid: bool)
    ensures
        valid == checksum_valid(bytes@),
{
    if bytes.len() < 4 {
        return false;
    }
    let mut zeroed = vstd::slice::slice_to_vec(bytes);
    zeroed[2] = 0;
    zeroed[3] = 0;
    let expected = checksum_of(zeroed.as_slice());
    let stored: u16 = (bytes[2] as u16) * 256 + (bytes[3] as u16);
    proof {
        assert(zeroed@ == with_checksum_field(bytes@, 0));
        lemma_sum_in_range(zeroed@);
    }
    stored == expected
}

/// Writes into `frame` the checksum that it ought to carry.
fn seal(frame: &mut Vec<u8>)
    requires
        old(frame)@.len() >= 4,
    ensures
        final(frame)@ == sealed(old(frame)@),
{
    frame[2] = 0;
    frame[3] = 0;
    let sum = checksum_of(frame.as_slice());
    proof {
        assert(frame@ == with_checksum_field(old(frame)@, 0));
        lemma_sum_in_range(frame@);
    }
    frame[2] = (sum / 256) as u8;
    frame[3] = (sum % 256) as u8;
    proof {
        assert(frame@ == sealed(old(frame)@));
    }
}

/// Builds the ICMP echo request for `identifier` and `sequence`: type 8,
/// code 0, both fields in network byte order, then `payload_size` filler
/// bytes, with the Internet checksum of the whole frame in its header.
pub fn encode_echo_request(identifier: u16, sequence: u16, payload_size: usize) -> (frame: Vec<u8>)
    requires
        payload_size + HEADER_LEN <= usize::MAX,
    ensures
        frame@ == echo_request_frame(identifier, sequence, payload_size as nat),
        frame@.len() == HEADER_LEN + payload_size,
        is_echo_request(frame@),
{
    let mut frame: Vec<u8> = vec![FILLER; payload_size + HEADER_LEN];
    frame[0] = ECHO_REQUEST;
    frame[1] = 0;
    frame[2] = 0;
    frame[3] = 0;
    frame[4] = (identifier / 256) as u8;
    frame[5] = (identifier % 256) as u8;
    frame[6] = (sequence / 256) as u8;
    frame[7] = (sequence % 256) as u8;
    proof {
        assert(frame@ == unsealed_frame(ECHO_REQUEST, identifier, sequence, payload_size as nat));
        lemma_sealed_is_valid(frame@);
    }
    seal(&mut frame);
    frame
}

/// Reads an echo reply: the identifier and sequence number of `bytes` when
/// they are an ICMP frame of type 0 whose checksum is valid, and nothing for
/// any other input (other ICMP traffic, damaged or truncated frames).
pub fn decode_echo_reply(bytes: &[u8]) -> (reply: Option<(u16, u16)>)
    ensures
        reply == decoded_reply(bytes@),
{
    if bytes.len() < HEADER_LEN {
        return None;
    }
    if bytes[0] != ECHO_REPLY {
        return None;
    }
    if !has_valid_checksum(bytes) {
        return None;
    }
    let identifier: u16 = (bytes[4] as u16) * 256 + (bytes[5] as u16);
    let sequence: u16 = (bytes[6] as u16) * 256 + (bytes[7] as u16);
    Some((identifier, sequence))
}

/// Answers an echo request as a responder would: for a request with a valid
/// checksum, the same frame with the type set to echo reply and the checksum
/// brought up to date; nothing for any other input.
pub fn echo_reply_for(request: &[u8]) -> (reply: Option<Vec<u8>>)
    ensures
        is_echo_request(request@) ==> reply.is_some() && reply.unwrap()@ == as_echo_reply(
            request@,
        ),
        !is_echo_request(request@) ==> reply.is_none(),
{
    if request.len() < HEADER_LEN {
        return None;
    }
    if request[0] != ECHO_REQUEST {
        return None;
    }
    if !has_valid_checksum(request) {
        return None;
    }
    let mut frame = vstd::slice::slice_to_vec(request);
    frame[0] = ECHO_REPLY;
    seal(&mut frame);
    Some(frame)
}

/// A reply to a request names the request: whatever a responder makes of the
/// echo request for `identifier` and `sequence` decodes to that pair.
pub proof fn lemma_reply_round_trip(identifier: u16, sequence: u16, payload_size: nat)
    ensures
        decoded_reply(as_echo_reply(echo_request_frame(identifier, sequence, payload_size)))
            == Some((identifier, sequence)),
        decoded_reply(echo_request_frame(identifier, sequence, payload_size)).is_none(),
{
    let body = unsealed_frame(ECHO_REQUEST, identifier, sequence, payload_size);
    let request = sealed(body);
    lemma_sealed_is_valid(body);
    let turned = request.update(0, ECHO_REPLY);
    lemma_sealed_is_valid(turned);
    lemma_be16_of_bytes(identifier);
    lemma_be16_of_bytes(sequence);
}

/// A single damaged byte is always noticed: if `frame` decodes as a reply,
/// then the same frame with any one byte changed does not.
pub proof fn lemma_single_byte_corruption_rejected(frame: Seq<u8>, position: int, byte: u8)
    requires
        decoded_reply(frame).is_some(),
        0 <= position < frame.len(),
        byte != frame[position],
    ensures
        decoded_reply(frame.update(position, byte)).is_none(),
{
    let damaged = frame.update(position, byte);
    if position == 0 {
    } else if position == 2 || position == 3 {
        assert(with_checksum_field(damaged, 0) == with_checksum_field(frame, 0));
        lemma_bytes_of_be16(frame[2], frame[3]);
        lemma_bytes_of_be16(damaged[2], damaged[3]);
    } else {
        let before = with_checksum_field(frame, 0);
        let after = with_checksum_field(damaged, 0);
        assert(after == before.update(position, byte));
        lemma_sum_changes_with_byte(before, position, byte);
        lemma_sum_in_range(before);
        lemma_sum_in_range(after);
    }
}

/// A single flipped bit is always noticed: if `frame` decodes as a reply,
/// then the same frame with bit `bit` of the byte at `position` inverted does
/// not.
pub proof fn lemma_single_bit_flip_rejected(frame: Seq<u8>, position: int, bit: u8)
    requires
        decoded_reply(frame).is_some(),
        0 <= position < frame.len(),
        bit < 8,
    ensures
        decoded_reply(frame.update(position, frame[position] ^ (1u8 << bit))).is_none(),
{
    let b = frame[position];
    assert(b ^ (1u8 << bit) != b) by (bit_vector)
        requires
            bit < 8,
    ;
    lemma_single_byte_corruption_rejected(frame, position, b ^ (1u8 << bit));
}

} // verus!
