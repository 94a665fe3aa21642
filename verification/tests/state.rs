use wslg_clipboard::state::{MirrorState, TextHash};

fn h(text: &[u8]) -> TextHash {
    MirrorState::hash(text)
}

#[test]
fn failed_write_never_becomes_committed() {
    let mut state = MirrorState::default();
    let pending = state.begin_windows_write(h(b"new"));
    assert!(state.fail_windows_write(pending.request_id));
    assert!(!state.is_windows_echo(&h(b"new")));
}

#[test]
fn only_matching_ack_commits() {
    let mut state = MirrorState::default();
    let pending = state.begin_windows_write(h(b"new"));
    assert!(!state.commit_windows_write(pending.request_id + 1, 10));
    assert!(state.commit_windows_write(pending.request_id, 10));
    assert!(state.is_windows_echo(&h(b"new")));
    assert!(!state.windows_changed_since(10));
}

#[test]
fn wayland_publish_commits_only_after_matching_roundtrip() {
    let mut state = MirrorState::default();
    state.begin_wayland_publish(h(b"from Windows"), 11);
    assert!(state.is_wayland_echo(&h(b"from Windows")));
    assert!(!state.commit_wayland_publish(&h(b"something else")));
    assert!(state.commit_wayland_publish(&h(b"from Windows")));
    assert!(!state.commit_wayland_publish(&h(b"from Windows")));
    assert!(!state.windows_changed_since(11));
}

#[test]
fn non_text_windows_selection_invalidates_echo_state() {
    let mut state = MirrorState::default();
    let pending = state.begin_windows_write(h(b"same text"));
    assert!(state.commit_windows_write(pending.request_id, 7));
    assert!(state.is_windows_echo(&h(b"same text")));

    state.invalidate_windows(8);

    assert!(!state.is_windows_echo(&h(b"same text")));
    assert!(!state.windows_changed_since(8));
}

#[test]
fn directions_have_independent_current_state() {
    let mut state = MirrorState::default();
    state.observe_wayland(h(b"Linux"));
    state.observe_windows(h(b"Windows"), 4);

    assert!(state.is_wayland_echo(&h(b"Linux")));
    assert!(!state.is_wayland_echo(&h(b"Windows")));
    assert!(state.is_windows_echo(&h(b"Windows")));
    assert!(!state.is_windows_echo(&h(b"Linux")));
}

#[test]
fn wayland_invalidation_allows_same_text_again() {
    let mut state = MirrorState::default();
    state.observe_wayland(h(b"same text"));
    assert!(state.is_wayland_echo(&h(b"same text")));

    state.invalidate_wayland();

    assert!(!state.is_wayland_echo(&h(b"same text")));
}

#[test]
fn rejected_wayland_selection_does_not_suppress_windows_text() {
    let mut state = MirrorState::default();
    state.observe_wayland(h(b"same text"));
    state.observe_windows(h(b"same text"), 7);

    state.reject_wayland_selection();

    assert!(!state.is_wayland_echo(&h(b"same text")));
}

#[test]
fn external_wayland_selection_cancels_stale_publish_ack() {
    let mut state = MirrorState::default();
    state.begin_wayland_publish(h(b"from Windows"), 12);

    state.observe_wayland(h(b"new in Sway"));

    assert!(!state.commit_wayland_publish(&h(b"from Windows")));
    assert!(state.is_wayland_echo(&h(b"new in Sway")));
    assert!(!state.is_wayland_echo(&h(b"from Windows")));
}

#[test]
fn digest_is_sha256() {
    let expected: [u8; 32] = [
        0xe3, 0xb0, 0xc4, 0x42, 0x98, 0xfc, 0x1c, 0x14, 0x9a, 0xfb, 0xf4, 0xc8, 0x99, 0x6f, 0xb9,
        0x24, 0x27, 0xae, 0x41, 0xe4, 0x64, 0x9b, 0x93, 0x4c, 0xa4, 0x95, 0x99, 0x1b, 0x78, 0x52,
        0xb8, 0x55,
    ];
    assert_eq!(h(b""), expected);
    assert_ne!(h(b"a"), h(b"b"));
}

#[test]
fn request_ids_are_fresh_for_each_write() {
    let mut state = MirrorState::default();
    let first = state.begin_windows_write(h(b"one"));
    assert!(state.fail_windows_write(first.request_id));
    let second = state.begin_windows_write(h(b"two"));
    assert_ne!(first.request_id, second.request_id);
    assert!(state.has_pending_windows_write());
    assert!(!state.fail_windows_write(first.request_id));
    state.reset_windows_transport();
    assert!(!state.has_pending_windows_write());
    assert!(!state.commit_windows_write(second.request_id, 3));
}

#[test]
fn windows_change_detection_follows_the_sequence() {
    let mut state = MirrorState::default();
    assert!(state.windows_changed_since(1));
    state.observe_windows(h(b"text"), 5);
    assert!(!state.windows_changed_since(5));
    assert!(state.windows_changed_since(6));
}

#[test]
fn pending_write_survives_unrelated_calls() {
    let mut state = MirrorState::default();
    let pending = state.begin_windows_write(h(b"kept"));
    state.observe_wayland(h(b"x"));
    state.observe_windows(h(b"y"), 3);
    state.invalidate_wayland();
    assert!(!state.commit_windows_write(pending.request_id + 1, 4));
    assert!(!state.fail_windows_write(pending.request_id + 1));
    assert!(state.has_pending_windows_write());
    state.reset_windows_transport();
    assert!(!state.has_pending_windows_write());
    assert!(state.is_windows_echo(&h(b"y")));
    assert!(!state.windows_changed_since(3));
}
