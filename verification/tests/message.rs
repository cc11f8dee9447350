use framed_rpc::message::{DeserializeError, Message};

const GOOD_FRAME: [u8; 16] = [
    0x00, 0x00, 0x00, 0x10, 0x01, 0x00, 0x10, 0x00, 0x00, 0x11, 0xFF, 0x00, 0x96, 0xA9, 0xB2, 0x2E,
];

#[test]
fn it_creates_and_serializes_messages() {
    let message = Message::new([0x01, 0x00, 0x10, 0x00], vec![0x00, 0x11, 0xFF, 0x00]);

    assert_eq!(
        message.to_bytes(),
        vec![
            0x00, 0x00, 0x00, 0x10, 0x01, 0x00, 0x10, 0x00, 0x00, 0x11, 0xFF, 0x00, 0x96, 0xA9,
            0xB2, 0x2E
        ]
    )
}

#[test]
fn it_deserializes_messages() {
    let bytes = vec![
        0x00, 0x00, 0x00, 0x10, 0x01, 0x00, 0x10, 0x00, 0x00, 0x11, 0xFF, 0x00, 0x96, 0xA9, 0xB2,
        0x2E,
    ];
    let message = Message::from_bytes(&bytes);
    let other_message = Message::new([0x01, 0x00, 0x10, 0x00], vec![0x00, 0x11, 0xFF, 0x00]);

    assert_eq!(message, Ok(other_message))
}

#[test]
fn it_round_trips_an_empty_payload() {
    let message = Message::new([0xAB, 0xCD, 0xEF, 0x01], vec![]);
    let bytes = message.to_bytes();
    assert_eq!(bytes.len(), 12);
    assert_eq!(Message::from_bytes(&bytes), Ok(message));
}

#[test]
fn it_embeds_the_total_length() {
    let message = Message::new([0x00, 0x00, 0x00, 0x00], vec![0x55; 300]);
    let bytes = message.to_bytes();
    assert_eq!(bytes.len(), 312);
    assert_eq!(&bytes[0..4], &[0x00, 0x00, 0x01, 0x38]);
    assert_eq!(Message::from_bytes(&bytes), Ok(message));
}

#[test]
fn it_rejects_short_input() {
    assert_eq!(
        Message::from_bytes(&vec![]),
        Err(DeserializeError::LengthError)
    );
    assert_eq!(
        Message::from_bytes(&vec![0x00, 0x00, 0x10]),
        Err(DeserializeError::LengthError)
    );
}

#[test]
fn it_rejects_truncated_frames() {
    for n in 0..GOOD_FRAME.len() {
        let prefix = GOOD_FRAME[..n].to_vec();
        assert_eq!(
            Message::from_bytes(&prefix),
            Err(DeserializeError::LengthError)
        );
    }
}

#[test]
fn it_rejects_a_lying_length_field() {
    let mut padded = GOOD_FRAME.to_vec();
    padded.push(0x00);
    assert_eq!(
        Message::from_bytes(&padded),
        Err(DeserializeError::LengthError)
    );
}

#[test]
fn it_rejects_single_bit_corruption_past_the_length_field() {
    for byte in 4..GOOD_FRAME.len() {
        for bit in 0..8 {
            let mut bad = GOOD_FRAME.to_vec();
            bad[byte] ^= 1u8 << bit;
            assert_eq!(
                Message::from_bytes(&bad),
                Err(DeserializeError::ChecksumError),
                "byte {} bit {}",
                byte,
                bit
            );
        }
    }
}

#[test]
fn it_rejects_single_bit_corruption_in_the_length_field() {
    for byte in 0..4 {
        for bit in 0..8 {
            let mut bad = GOOD_FRAME.to_vec();
            bad[byte] ^= 1u8 << bit;
            assert_eq!(
                Message::from_bytes(&bad),
                Err(DeserializeError::LengthError),
                "byte {} bit {}",
                byte,
                bit
            );
        }
    }
}
