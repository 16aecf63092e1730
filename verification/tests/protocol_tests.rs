use imu_core::protocol::{decode_binary_packet, encode_binary_packet, BinaryCodecError};

fn check_payload() -> Vec<u8> {
    b"123456789".to_vec()
}

#[test]
fn packet_of_check_string_has_exact_bytes() {
    // CRC-32 of "123456789" is 0xCBF43926, appended little-endian; the
    // thirteen non-zero bytes form one COBS block.
    let packet = encode_binary_packet::<64>(&check_payload()).unwrap();
    let mut expected = vec![14u8];
    expected.extend_from_slice(b"123456789");
    expected.extend_from_slice(&[0x26, 0x39, 0xF4, 0xCB, 0x00]);
    assert_eq!(packet, expected);
}

#[test]
fn packet_round_trips_payload_with_zero_bytes() {
    let payload = vec![0u8, 1, 2, 0, 0, 255, 7];
    let packet = encode_binary_packet::<128>(&payload).unwrap();
    assert_eq!(*packet.last().unwrap(), 0);
    assert!(packet[..packet.len() - 1].iter().all(|b| *b != 0));
    assert_eq!(decode_binary_packet::<128>(&packet), Ok(payload));
}

#[test]
fn packet_round_trips_empty_payload() {
    let packet = encode_binary_packet::<16>(&[]).unwrap();
    assert_eq!(decode_binary_packet::<16>(&packet), Ok(Vec::new()));
}

#[test]
fn decoding_accepts_packet_without_delimiter() {
    let packet = encode_binary_packet::<64>(&check_payload()).unwrap();
    let body = &packet[..packet.len() - 1];
    assert_eq!(decode_binary_packet::<64>(body), Ok(check_payload()));
}

#[test]
fn payload_longer_than_buffer_is_refused() {
    assert_eq!(
        encode_binary_packet::<8>(&check_payload()),
        Err(BinaryCodecError::Postcard)
    );
}

#[test]
fn packet_that_does_not_fit_is_refused() {
    // 9 payload bytes + 4 CRC bytes encode to 14 bytes, plus the delimiter.
    assert_eq!(
        encode_binary_packet::<14>(&check_payload()),
        Err(BinaryCodecError::BufferTooSmall)
    );
    assert!(encode_binary_packet::<15>(&check_payload()).is_ok());
    assert_eq!(
        encode_binary_packet::<11>(&check_payload()),
        Err(BinaryCodecError::BufferTooSmall)
    );
}

#[test]
fn corrupted_packet_fails_crc() {
    let mut packet = encode_binary_packet::<64>(&check_payload()).unwrap();
    packet[3] = b'x';
    assert_eq!(
        decode_binary_packet::<64>(&packet),
        Err(BinaryCodecError::CrcMismatch)
    );
}

#[test]
fn empty_packets_are_truncated() {
    assert_eq!(decode_binary_packet::<64>(&[]), Err(BinaryCodecError::Truncated));
    assert_eq!(decode_binary_packet::<64>(&[0]), Err(BinaryCodecError::Truncated));
}

#[test]
fn short_decoded_body_is_truncated() {
    // COBS [0x04, 1, 2, 3] decodes to three bytes: no room for a CRC.
    assert_eq!(
        decode_binary_packet::<64>(&[4, 1, 2, 3, 0]),
        Err(BinaryCodecError::Truncated)
    );
}

#[test]
fn malformed_cobs_is_reported() {
    assert_eq!(
        decode_binary_packet::<64>(&[5, 1]),
        Err(BinaryCodecError::CobsDecode)
    );
}

#[test]
fn decoding_into_small_buffer_fails() {
    let packet = encode_binary_packet::<64>(&check_payload()).unwrap();
    assert_eq!(
        decode_binary_packet::<8>(&packet),
        Err(BinaryCodecError::CobsDecode)
    );
}

#[test]
fn packets_decode_with_larger_buffers_and_without_delimiter() {
    let payload: Vec<u8> = (0..=255u8).chain(0..40).collect();
    let packet = encode_binary_packet::<512>(&payload).unwrap();
    assert!(packet.len() <= 512);
    assert_eq!(decode_binary_packet::<512>(&packet), Ok(payload.clone()));
    assert_eq!(decode_binary_packet::<1024>(&packet), Ok(payload.clone()));
    assert_eq!(decode_binary_packet::<1024>(&packet[..packet.len() - 1]), Ok(payload));
}
