use sweep_core::sync::{
    assemble_frame, encode_message, frame_payload_len, LinkError, SyncMessage,
};
use sweep_core::wire::{
    byte_frame_ns, decode_byte, encode_byte, remaining_ns, rx_sample_deadline_ns,
    tx_hold_deadline_ns, BIT_DELAY_NS, STARTUP_DELAY_NS,
};

#[test]
fn byte_codec_round_trips() {
    for b in [0x00u8, 0xFF, 0x2A, 0x55, 0x81, 0x01, 0x80] {
        let levels = encode_byte(b);
        assert_eq!(levels.len(), 9);
        assert_eq!(decode_byte(&levels), Ok(b));
    }
}

#[test]
fn waveform_is_msb_first_with_even_parity() {
    // 0xB4 = 1011_0100 has four ones, so the parity level is low.
    let levels = encode_byte(0xB4);
    assert_eq!(levels, vec![true, false, true, true, false, true, false, false, false]);
    // 0x01 has one one, so the parity level is high.
    let levels = encode_byte(0x01);
    assert_eq!(levels, vec![false, false, false, false, false, false, false, true, true]);
}

#[test]
fn every_single_bit_flip_is_detected() {
    for b in [0x00u8, 0x2A, 0xFF, 0x69] {
        for i in 0..9 {
            let mut levels = encode_byte(b);
            let v = levels[i];
            levels[i] = !v;
            assert_eq!(decode_byte(&levels), Err(LinkError::ParityMismatch));
        }
    }
}

#[test]
fn message_registry_and_codec() {
    assert_eq!(SyncMessage::msg_len(1), Some(1));
    assert_eq!(SyncMessage::msg_len(0), None);
    assert_eq!(SyncMessage::msg_len(2), None);
    assert_eq!(SyncMessage::msg_len(0xFF), None);

    let (bytes, len) = SyncMessage::Test(0x2A).to_bytes();
    assert_eq!(len, 2);
    assert_eq!(bytes, [1, 0x2A]);

    assert_eq!(SyncMessage::from_bytes(&[1, 42]), Some(SyncMessage::Test(42)));
    assert_eq!(SyncMessage::from_bytes(&[1]), None);
    assert_eq!(SyncMessage::from_bytes(&[2, 5]), None);
    assert_eq!(SyncMessage::from_bytes(&[]), None);
}

#[test]
fn unknown_tag_fails_before_any_payload_byte() {
    assert_eq!(frame_payload_len(7), Err(LinkError::UnknownMessageType));
    assert_eq!(frame_payload_len(0), Err(LinkError::UnknownMessageType));
    assert_eq!(frame_payload_len(1), Ok(1));
}

#[test]
fn link_end_to_end_delivers_test_message() {
    // Secondary role: encode Test(0x2A) and drive each byte onto the wire.
    let sent = SyncMessage::Test(0x2A);
    let frame = encode_message(sent);
    assert_eq!(frame, vec![1, 0x2A]);

    // Primary role: sample each byte's levels back off the wire.
    let mut received: Vec<u8> = Vec::new();
    for &byte in &frame {
        let levels = encode_byte(byte);
        received.push(decode_byte(&levels).expect("uncorrupted byte must decode"));
    }

    let tag = received[0];
    let payload_len = frame_payload_len(tag).expect("registered tag");
    assert_eq!(payload_len, 1);
    let payload: Vec<u8> = received[1..1 + payload_len].to_vec();
    assert_eq!(assemble_frame(tag, &payload), SyncMessage::Test(0x2A));
}

#[test]
fn corrupted_payload_byte_discards_the_frame() {
    let frame = encode_message(SyncMessage::Test(0x2A));
    let mut levels = encode_byte(frame[1]);
    let v = levels[3];
    levels[3] = !v;
    assert_eq!(decode_byte(&levels), Err(LinkError::ParityMismatch));
}

#[test]
fn schedule_matches_the_bit_period() {
    assert_eq!(BIT_DELAY_NS, 3_000_000);
    assert_eq!(STARTUP_DELAY_NS, 1_000_000_000);
    // Receiver samples half a bit period inside each hold window.
    assert_eq!(rx_sample_deadline_ns(0), 7_500_000);
    assert_eq!(rx_sample_deadline_ns(8), 31_500_000);
    // Sender stops holding each level one bit period after starting it.
    assert_eq!(tx_hold_deadline_ns(0), 9_000_000);
    assert_eq!(tx_hold_deadline_ns(8), 33_000_000);
    // A whole byte: 2 bit periods of preamble, then 9 held bits.
    assert_eq!(byte_frame_ns(), 33_000_000);
    for bit in 0..=8u64 {
        let hold_start = 2 * BIT_DELAY_NS + bit * BIT_DELAY_NS;
        assert!(hold_start < rx_sample_deadline_ns(bit));
        assert!(rx_sample_deadline_ns(bit) < tx_hold_deadline_ns(bit));
    }
}

#[test]
fn drift_compensation_never_waits_past_the_deadline() {
    assert_eq!(remaining_ns(10_000, 3_000), 7_000);
    assert_eq!(remaining_ns(10_000, 10_000), 0);
    assert_eq!(remaining_ns(3_000, 10_000), 0);
}

#[test]
fn link_errors_describe_themselves() {
    assert_eq!(LinkError::ParityMismatch.describe(), "parity check failed");
    assert_eq!(LinkError::UnknownMessageType.describe(), "unknown message type");
}
