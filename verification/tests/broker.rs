use wslg_clipboard::broker::{
    accept_wayland_text, observe_wayland_text, sequence_is_newer, startup_windows_selection,
    write_failure, BrokerError, ClipboardMode, Delivery, HashedText, SyncSlots,
    WaylandTextDisposition, WindowsSelection, WriteFailure,
};
use wslg_clipboard::state::MirrorState;

fn text(bytes: &[u8]) -> HashedText {
    HashedText::new(bytes.to_vec())
}

fn windows_text(bytes: &[u8], sequence: u32) -> WindowsSelection {
    WindowsSelection::Text(text(bytes), sequence)
}

#[test]
fn clipboard_sequence_comparison_handles_wraparound() {
    assert!(sequence_is_newer(11, 10));
    assert!(!sequence_is_newer(10, 10));
    assert!(!sequence_is_newer(10, 11));
    assert!(sequence_is_newer(0, u32::MAX));
}

#[test]
fn empty_or_invalid_sway_selection_is_not_text() {
    assert_eq!(accept_wayland_text(Vec::new()), Err(None));
    assert!(matches!(
        accept_wayland_text(vec![0xff, 0xfe]),
        Err(Some(_))
    ));
    assert_eq!(accept_wayland_text(b"ok".to_vec()), Ok(text(b"ok")));
}

#[test]
fn changed_non_text_windows_selection_blocks_offline_wayland_text() {
    assert_eq!(
        startup_windows_selection(true, true, false, None, 12),
        Some(WindowsSelection::Unavailable(12))
    );
}

#[test]
fn initial_missing_text_still_allows_wayland_startup_selection() {
    assert_eq!(
        startup_windows_selection(false, true, false, None, 12),
        None
    );
}

#[test]
fn initial_windows_text_has_priority() {
    assert_eq!(
        startup_windows_selection(false, false, false, Some(text(b"win")), 3),
        Some(windows_text(b"win", 3))
    );
}

#[test]
fn unreadable_windows_selection_is_conservatively_unavailable() {
    assert_eq!(
        startup_windows_selection(false, false, true, None, 12),
        Some(WindowsSelection::Unavailable(12))
    );
}

#[test]
fn windows_change_during_startup_replaces_hello_text_and_wins() {
    let mut slots = SyncSlots::default();
    slots.wayland_text(text(b"sway"));
    slots.windows_selection(windows_text(b"hello", 5));
    slots.windows_selection(windows_text(b"newer", 6));
    assert_eq!(
        slots.take(),
        Some(Delivery::ToWayland(windows_text(b"newer", 6)))
    );
    assert_eq!(slots.take(), None);
}

#[test]
fn sway_text_survives_agent_loss_until_windows_claims_priority() {
    let mut slots = SyncSlots::default();
    slots.windows_selection(windows_text(b"stale", 3));
    slots.wayland_text(text(b"copied while agent was down"));
    slots.agent_lost();
    assert_eq!(
        slots.take(),
        Some(Delivery::ToWindows(text(b"copied while agent was down")))
    );
}

#[test]
fn interrupted_write_is_requeued_behind_newer_sway_text() {
    let mut slots = SyncSlots::default();
    slots.requeue_windows_write(text(b"in flight"));
    assert_eq!(slots.take(), Some(Delivery::ToWindows(text(b"in flight"))));

    slots.wayland_text(text(b"newer"));
    slots.requeue_windows_write(text(b"in flight"));
    assert_eq!(slots.take(), Some(Delivery::ToWindows(text(b"newer"))));
}

#[test]
fn failed_write_retries_once_unless_superseded() {
    let mut slots = SyncSlots::default();
    assert_eq!(write_failure(false, &slots), WriteFailure::Retry);
    assert_eq!(write_failure(true, &slots), WriteFailure::Exhausted);

    slots.wayland_text(text(b"newer"));
    assert_eq!(write_failure(false, &slots), WriteFailure::Superseded);
    assert_eq!(write_failure(true, &slots), WriteFailure::Superseded);

    let mut slots = SyncSlots::default();
    slots.windows_selection(windows_text(b"windows moved on", 4));
    assert_eq!(write_failure(false, &slots), WriteFailure::Superseded);
}

#[test]
fn windows_selection_older_than_committed_write_is_dropped() {
    let mut slots = SyncSlots::default();
    slots.windows_selection(windows_text(b"before our write", 9));
    slots.wayland_text(text(b"queued"));
    slots.windows_write_committed(10);
    assert_eq!(slots.take(), Some(Delivery::ToWindows(text(b"queued"))));

    slots.windows_selection(windows_text(b"after our write", 11));
    slots.windows_write_committed(10);
    assert_eq!(
        slots.take(),
        Some(Delivery::ToWayland(windows_text(b"after our write", 11)))
    );
}

#[test]
fn non_text_sway_selection_withdraws_queued_text() {
    let mut slots = SyncSlots::default();
    slots.wayland_text(text(b"old"));
    slots.wayland_non_text();
    assert_eq!(slots.take(), None);
}

#[test]
fn wayland_offers_are_classified_by_hash_not_arrival_order() {
    let mut mirror = MirrorState::default();
    let mut slots = SyncSlots::default();
    let windows = text(b"published from Windows");
    mirror.observe_windows(windows.hash, 7);

    assert_eq!(
        observe_wayland_text(&mut mirror, &mut slots, text(b"external Sway text")),
        WaylandTextDisposition::Forwarded
    );
    // The later announcement supersedes the earlier queued selection before
    // its hash is classified.
    slots.wayland_non_text();
    mirror.invalidate_wayland();
    assert_eq!(
        observe_wayland_text(&mut mirror, &mut slots, windows),
        WaylandTextDisposition::WindowsEcho
    );
    assert_eq!(slots.take(), None);
}

#[test]
fn clipboard_mode_reads_its_setting() {
    assert_eq!(ClipboardMode::from_value(None), Ok(ClipboardMode::Both));
    assert_eq!(ClipboardMode::from_value(Some("both")), Ok(ClipboardMode::Both));
    assert_eq!(ClipboardMode::from_value(Some("to-windows")), Ok(ClipboardMode::ToWindows));
    assert!(matches!(
        ClipboardMode::from_value(Some("sideways")),
        Err(BrokerError::Configuration(_))
    ));
    assert_eq!(ClipboardMode::Both.as_str(), "both");
    assert_eq!(ClipboardMode::ToWindows.as_str(), "to-windows");
}

#[test]
fn sequence_order_is_asymmetric_on_examples() {
    for (a, b) in [(0_u32, 1_u32), (5, 4), (u32::MAX, 0), (1 << 31, 0)] {
        assert!(!(sequence_is_newer(a, b) && sequence_is_newer(b, a)));
    }
}

#[test]
fn windows_echo_of_sway_text_is_not_forwarded() {
    let mut mirror = MirrorState::default();
    let mut slots = SyncSlots::default();
    let windows = text(b"on windows");
    mirror.observe_windows(windows.hash, 2);
    let disposition = observe_wayland_text(&mut mirror, &mut slots, text(b"on windows"));
    assert_eq!(disposition, WaylandTextDisposition::WindowsEcho);
    assert!(slots.is_empty());
}

#[test]
fn broker_errors_have_exit_codes() {
    assert_eq!(BrokerError::Exhausted("x".to_string()).exit_code(), 3);
    assert_eq!(BrokerError::Configuration("x".to_string()).exit_code(), 3);
    assert_eq!(BrokerError::EventLoop("x".to_string()).exit_code(), 1);
}
