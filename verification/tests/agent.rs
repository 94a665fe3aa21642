use wslg_clipboard::agent::{
    clipboard_size_valid, clipboard_text_from_units, clipboard_update_frame, clipboard_write_units,
    command_response, hello_frame, open_retry_delay_ms, sequence_after_write, update_is_new,
    write_response, AgentError,
    MAX_WINDOWS_TEXT_BYTES,
};
use wslg_clipboard::protocol::{Frame, MessageKind};
use wslg_clipboard::text::TextError;

#[test]
fn clipboard_handle_sizes_are_checked() {
    assert!(!clipboard_size_valid(0));
    assert!(!clipboard_size_valid(3));
    assert!(clipboard_size_valid(2));
    assert!(clipboard_size_valid(MAX_WINDOWS_TEXT_BYTES));
    assert!(!clipboard_size_valid(MAX_WINDOWS_TEXT_BYTES + 2));
}

#[test]
fn clipboard_units_end_at_their_terminator() {
    let units = [104, 105, 13, 10, 0, 120];
    assert_eq!(clipboard_text_from_units(&units).unwrap(), Some(b"hi\n".to_vec()));
    assert_eq!(clipboard_text_from_units(&[0, 65]).unwrap(), None);
    assert!(matches!(
        clipboard_text_from_units(&[65, 66]),
        Err(AgentError::MalformedClipboard)
    ));
    assert!(matches!(
        clipboard_text_from_units(&[0xD800, 0]),
        Err(AgentError::Text(TextError::InvalidUtf16))
    ));
}

#[test]
fn clipboard_write_units_are_terminated() {
    assert_eq!(clipboard_write_units(b"a\nb").unwrap(), vec![97, 13, 10, 98, 0]);
    assert!(matches!(
        clipboard_write_units(&[0xff]),
        Err(AgentError::Text(TextError::InvalidUtf8))
    ));
}

#[test]
fn hello_reports_startup_state() {
    let frame = hello_frame(77, 9, Some(b"text".to_vec()), false);
    assert_eq!(frame.kind, MessageKind::Hello);
    assert_eq!(frame.request_id, 77);
    assert_eq!(frame.sequence, 9);
    assert_eq!(frame.flags, 1);
    assert_eq!(frame.payload, b"text".to_vec());
    let frame = hello_frame(77, 9, None, true);
    assert_eq!(frame.flags, 2);
    assert!(frame.payload.is_empty());
}

#[test]
fn clipboard_updates_describe_the_selection() {
    let frame = clipboard_update_frame(4, Some(b"x".to_vec()));
    assert_eq!(frame.kind, MessageKind::WindowsText);
    assert_eq!(frame.sequence, 4);
    let frame = clipboard_update_frame(5, None);
    assert_eq!(frame.kind, MessageKind::WindowsUnavailable);
    assert!(frame.payload.is_empty());
}

#[test]
fn commands_are_answered() {
    let mut ping = Frame::new(MessageKind::Ping);
    ping.request_id = 11;
    let pong = command_response(&ping).unwrap();
    assert_eq!(pong.kind, MessageKind::Pong);
    assert_eq!(pong.request_id, 11);
    assert!(command_response(&Frame::new(MessageKind::SetWindowsText)).is_none());
    let error = command_response(&Frame::new(MessageKind::Hello)).unwrap();
    assert_eq!(error.kind, MessageKind::ProtocolError);
    assert_eq!(error.payload, b"unexpected command".to_vec());

    let ok = write_response(3, Ok(8));
    assert_eq!((ok.kind, ok.request_id, ok.sequence), (MessageKind::SetWindowsOk, 3, 8));
    let failed = write_response(
        4,
        Err(AgentError::Win32 { operation: "OpenClipboard", code: 5 }),
    );
    assert_eq!(failed.kind, MessageKind::SetWindowsError);
    assert_eq!(failed.payload, b"Win32 call failed: OpenClipboard (5)".to_vec());
}

#[test]
fn clipboard_open_backs_off() {
    let delays: Vec<u64> = (0..8).map(open_retry_delay_ms).collect();
    assert_eq!(delays, vec![5, 10, 20, 40, 80, 160, 320, 320]);
}

#[test]
fn sequence_tracking() {
    assert!(!update_is_new(7, 7));
    assert!(update_is_new(7, 8));
    assert_eq!(sequence_after_write(7, &Ok(9)), 9);
    assert_eq!(sequence_after_write(7, &Err(AgentError::MalformedClipboard)), 7);
}
