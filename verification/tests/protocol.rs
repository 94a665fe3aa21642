use wslg_clipboard::protocol::{Frame, FrameDecoder, MessageKind, ProtocolError, HEADER_LEN};
use wslg_clipboard::{MAX_TEXT_BYTES, PROTOCOL_VERSION};

const MAGIC: [u8; 4] = *b"ASWC";

fn sample_frame() -> Frame {
    Frame {
        kind: MessageKind::SetWindowsText,
        request_id: 23,
        sequence: 42,
        flags: 7,
        payload: "hello 世界".as_bytes().to_vec(),
    }
}

fn encode(frame: &Frame) -> Vec<u8> {
    let mut encoded = Vec::new();
    frame.write_to(&mut encoded).unwrap();
    encoded
}

#[test]
fn frame_round_trip() {
    let frame = sample_frame();
    let mut encoded = Vec::new();
    frame.write_to(&mut encoded).unwrap();
    assert_eq!(Frame::read_from(&encoded).unwrap(), frame);
}

#[test]
fn decoder_reassembles_split_frames() {
    let frame = sample_frame();
    let mut encoded = Vec::new();
    frame.write_to(&mut encoded).unwrap();
    frame.write_to(&mut encoded).unwrap();

    let mut decoder = FrameDecoder::default();
    let (head, tail) = encoded.split_at(HEADER_LEN + 3);
    decoder.extend(head);
    assert_eq!(decoder.next_frame().unwrap(), None);
    decoder.extend(tail);
    assert_eq!(decoder.next_frame().unwrap(), Some(frame.clone()));
    assert_eq!(decoder.next_frame().unwrap(), Some(frame));
    assert_eq!(decoder.next_frame().unwrap(), None);
}

#[test]
fn rejects_unknown_version_before_allocating() {
    let mut encoded = vec![0_u8; HEADER_LEN];
    encoded[..4].copy_from_slice(&MAGIC);
    encoded[4..6].copy_from_slice(&(PROTOCOL_VERSION + 1).to_le_bytes());
    assert!(matches!(
        Frame::read_from(&encoded),
        Err(ProtocolError::Version(_))
    ));
}

#[test]
fn rejects_oversized_text_before_reading_payload() {
    let mut encoded = vec![0_u8; HEADER_LEN];
    encoded[..4].copy_from_slice(&MAGIC);
    encoded[4..6].copy_from_slice(&PROTOCOL_VERSION.to_le_bytes());
    encoded[6..8].copy_from_slice(&MessageKind::WindowsText.code().to_le_bytes());
    encoded[20..24].copy_from_slice(&((MAX_TEXT_BYTES + 1) as u32).to_le_bytes());
    assert!(matches!(
        Frame::read_from(&encoded),
        Err(ProtocolError::PayloadTooLarge { .. })
    ));
    let mut decoder = FrameDecoder::default();
    decoder.extend(&encoded);
    assert!(matches!(
        decoder.next_frame(),
        Err(ProtocolError::PayloadTooLarge { .. })
    ));
}

#[test]
fn header_layout_is_little_endian() {
    let frame = sample_frame();
    let encoded = encode(&frame);
    assert_eq!(encoded.len(), HEADER_LEN + frame.payload.len());
    assert_eq!(&encoded[..4], b"ASWC");
    assert_eq!(&encoded[4..6], &[3, 0]);
    assert_eq!(&encoded[6..8], &MessageKind::SetWindowsText.code().to_le_bytes());
    assert_eq!(&encoded[8..16], &[23, 0, 0, 0, 0, 0, 0, 0]);
    assert_eq!(&encoded[16..20], &[42, 0, 0, 0]);
    assert_eq!(&encoded[20..24], &(frame.payload.len() as u32).to_le_bytes());
    assert_eq!(&encoded[24..28], &[7, 0, 0, 0]);
    assert_eq!(&encoded[28..], frame.payload.as_slice());
}

#[test]
fn rejects_bad_magic() {
    let mut encoded = encode(&sample_frame());
    encoded[0] = b'X';
    assert_eq!(Frame::read_from(&encoded), Err(ProtocolError::BadMagic));
    let mut decoder = FrameDecoder::default();
    decoder.extend(&encoded);
    assert_eq!(decoder.next_frame(), Err(ProtocolError::BadMagic));
}

#[test]
fn rejects_unknown_kind() {
    let mut encoded = encode(&sample_frame());
    encoded[6..8].copy_from_slice(&999_u16.to_le_bytes());
    assert_eq!(Frame::read_from(&encoded), Err(ProtocolError::UnknownKind(999)));
}

#[test]
fn control_frames_are_bounded_tighter_than_text() {
    assert_eq!(MessageKind::Ping.payload_limit(), 1024);
    assert_eq!(MessageKind::WindowsText.payload_limit(), MAX_TEXT_BYTES);
    assert_eq!(MessageKind::SetWindowsText.payload_limit(), MAX_TEXT_BYTES);
    let mut frame = Frame::new(MessageKind::Ping);
    frame.payload = vec![0; 1025];
    let mut encoded = Vec::new();
    assert_eq!(
        frame.write_to(&mut encoded),
        Err(ProtocolError::PayloadTooLarge { actual: 1025, limit: 1024 })
    );
    assert!(encoded.is_empty());
}

#[test]
fn kinds_round_trip_through_their_codes() {
    let kinds = [
        MessageKind::Hello,
        MessageKind::WindowsText,
        MessageKind::WindowsUnavailable,
        MessageKind::SetWindowsText,
        MessageKind::SetWindowsOk,
        MessageKind::SetWindowsError,
        MessageKind::Ping,
        MessageKind::Pong,
        MessageKind::ProtocolError,
    ];
    for kind in kinds {
        assert_eq!(MessageKind::try_from_code(kind.code()), Ok(kind));
    }
    assert_eq!(MessageKind::try_from_code(0), Err(ProtocolError::UnknownKind(0)));
}

#[test]
fn truncated_stream_is_unexpected_eof() {
    let encoded = encode(&sample_frame());
    let error = Frame::read_from(&encoded[..encoded.len() - 1]).unwrap_err();
    assert!(matches!(error, ProtocolError::Io(ref e) if e.kind == wslg_clipboard::error::IoErrorKind::UnexpectedEof));
    let error = Frame::read_from(&encoded[..5]).unwrap_err();
    assert!(matches!(error, ProtocolError::Io(_)));
}

#[test]
fn error_messages_match_their_variants() {
    assert_eq!(ProtocolError::BadMagic.message(), "invalid protocol magic");
    assert_eq!(ProtocolError::Version(4).message(), "unsupported protocol version 4");
    assert_eq!(ProtocolError::UnknownKind(77).message(), "unknown message kind 77");
    assert_eq!(
        ProtocolError::PayloadTooLarge { actual: 20, limit: 10 }.message(),
        "payload is 20 bytes, limit is 10"
    );
}

#[test]
fn decoding_does_not_depend_on_chunking() {
    let frames = vec![
        sample_frame(),
        Frame::new(MessageKind::Ping),
        {
            let mut f = Frame::new(MessageKind::WindowsText);
            f.sequence = 9;
            f.payload = b"third".to_vec();
            f
        },
    ];
    let mut stream = Vec::new();
    for frame in &frames {
        frame.write_to(&mut stream).unwrap();
    }
    for size in [1, 2, 3, 7, 28, 29, 1000] {
        let mut decoder = FrameDecoder::default();
        let mut decoded = Vec::new();
        for chunk in stream.chunks(size) {
            decoder.extend(chunk);
            while let Some(frame) = decoder.next_frame().unwrap() {
                decoded.push(frame);
            }
        }
        assert_eq!(decoded, frames);
    }
}
