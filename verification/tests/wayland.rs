use wslg_clipboard::selection::{OfferProgress, OfferReads, Offers, Sources};
use wslg_clipboard::pipe::ReadOutcome;
use wslg_clipboard::error::{IoError, IoErrorKind};
use wslg_clipboard::wayland::{
    equals_ignore_ascii_case, is_sensitive_mime, missing_global, next_selection_generation,
    selection_outcome,
    text_mime_rank, text_mime_type, OfferInfo, WaylandEvent,
};
use wslg_clipboard::MAX_TEXT_BYTES;

#[test]
fn kde_sensitive_hint_is_case_insensitive() {
    assert!(is_sensitive_mime("application/x-kde-passwordManagerHint"));
    assert!(is_sensitive_mime("APPLICATION/X-KDE-PASSWORDMANAGERHINT"));
    assert!(is_sensitive_mime("X-KDE-PASSWORDMANAGERHINT"));
    assert!(!is_sensitive_mime("application/x-private-selection"));
}

#[test]
fn text_mime_types_are_ranked() {
    assert_eq!(text_mime_rank("text/plain;charset=utf-8"), Some(0));
    assert_eq!(text_mime_rank("TEXT/PLAIN;CHARSET=UTF-8"), Some(0));
    assert_eq!(text_mime_rank("UTF8_STRING"), Some(1));
    assert_eq!(text_mime_rank("text/plain"), Some(2));
    assert_eq!(text_mime_rank("STRING"), Some(3));
    assert_eq!(text_mime_rank("image/png"), None);
    assert_eq!(text_mime_type(0), "text/plain;charset=utf-8");
    assert_eq!(text_mime_type(3), "STRING");
    assert!(equals_ignore_ascii_case("AbC", "aBc"));
    assert!(!equals_ignore_ascii_case("abc", "abcd"));
}

#[test]
fn offer_picks_the_preferred_text_type_in_any_order() {
    let mut first = OfferInfo::new();
    first.record("STRING");
    first.record("text/plain;charset=utf-8");
    let mut second = OfferInfo::new();
    second.record("text/plain;charset=utf-8");
    second.record("STRING");
    assert_eq!(first.chosen_mime(false), Some("text/plain;charset=utf-8"));
    assert_eq!(second.chosen_mime(false), Some("text/plain;charset=utf-8"));
    let mut image = OfferInfo::new();
    image.record("image/png");
    assert_eq!(image.chosen_mime(true), None);
}

#[test]
fn sensitive_offer_is_read_only_when_shared() {
    let mut offer = OfferInfo::new();
    offer.record("x-kde-passwordManagerHint");
    offer.record("UTF8_STRING");
    assert_eq!(offer.chosen_mime(false), None);
    assert_eq!(offer.chosen_mime(true), Some("UTF8_STRING"));
}

#[test]
fn selection_generations_skip_zero() {
    assert_eq!(next_selection_generation(0), 1);
    assert_eq!(next_selection_generation(41), 42);
    assert_eq!(next_selection_generation(u64::MAX), 1);
}

#[test]
fn missing_globals_are_named() {
    assert_eq!(
        missing_global(false, false),
        Some("ext_data_control_manager_v1 (Sway 1.11 or newer)")
    );
    assert_eq!(missing_global(true, false), Some("wl_seat"));
    assert_eq!(missing_global(true, true), None);
}

#[test]
fn offers_are_kept_by_id_until_taken() {
    let mut offers = Offers::new();
    offers.announce(7);
    offers.record(7, "text/plain");
    offers.record(9, "STRING");
    let seven = offers.take(7);
    assert_eq!(seven.chosen_mime(false), Some("text/plain"));
    let again = offers.take(7);
    assert_eq!(again.chosen_mime(false), None);
    assert_eq!(offers.take(9).chosen_mime(false), Some("STRING"));
}

#[test]
fn offer_read_collects_text_until_eof() {
    let mut reads = OfferReads::new();
    reads.start(3);
    assert!(matches!(reads.feed(3, ReadOutcome::Data(b"hel".to_vec())), OfferProgress::ReadMore));
    assert!(matches!(reads.feed(3, ReadOutcome::Interrupted), OfferProgress::ReadMore));
    assert!(matches!(reads.feed(3, ReadOutcome::WouldBlock), OfferProgress::Pending));
    assert!(matches!(reads.feed(3, ReadOutcome::Data(b"lo".to_vec())), OfferProgress::ReadMore));
    match reads.feed(3, ReadOutcome::Closed) {
        OfferProgress::Finished(Some(WaylandEvent::Text { generation, text })) => {
            assert_eq!(generation, 3);
            assert_eq!(text, b"hello".to_vec());
        }
        _ => panic!("expected the text"),
    }
    assert!(!reads.cancel());
}

#[test]
fn stale_offer_read_is_ignored() {
    let mut reads = OfferReads::new();
    reads.start(1);
    reads.start(2);
    assert!(matches!(reads.feed(1, ReadOutcome::Closed), OfferProgress::Finished(None)));
    assert!(reads.expire(1).is_none());
    match reads.expire(2) {
        Some(WaylandEvent::Unusable { generation: 2, error: Some(message) }) => {
            assert_eq!(message, "Wayland clipboard read timed out");
        }
        _ => panic!("expected a timeout"),
    }
    assert!(reads.expire(2).is_none());
}

#[test]
fn offer_read_failures_are_unusable() {
    let mut reads = OfferReads::new();
    reads.start(5);
    let failure = IoError { kind: IoErrorKind::Other, message: "broken".to_string() };
    match reads.feed(5, ReadOutcome::Failed(failure)) {
        OfferProgress::Finished(Some(WaylandEvent::Unusable { generation: 5, error: Some(m) })) => {
            assert_eq!(m, "broken");
        }
        _ => panic!("expected a failure"),
    }
    reads.start(6);
    let too_big = vec![b'x'; MAX_TEXT_BYTES + 1];
    match reads.feed(6, ReadOutcome::Data(too_big)) {
        OfferProgress::Finished(Some(WaylandEvent::Unusable { generation: 6, error: Some(m) })) => {
            assert_eq!(m, format!("text exceeded the {} byte limit", MAX_TEXT_BYTES));
        }
        _ => panic!("expected the limit"),
    }
    assert!(!reads.cancel());
}

#[test]
fn sources_keep_two_replaced_ones() {
    let mut sources = Sources::new();
    assert_eq!(sources.publish(1, b"one".to_vec()), None);
    assert_eq!(sources.publish(2, b"two".to_vec()), None);
    assert_eq!(sources.publish(3, b"three".to_vec()), None);
    assert_eq!(sources.publish(4, b"four".to_vec()), Some(1));
    assert_eq!(sources.source_text(1), None);
    assert_eq!(sources.source_text(2), Some(&b"two".to_vec()));
    assert_eq!(sources.source_text(4), Some(&b"four".to_vec()));
    sources.forget(2);
    assert_eq!(sources.source_text(2), None);
    assert_eq!(sources.source_text(3), Some(&b"three".to_vec()));
    sources.forget(4);
    assert_eq!(sources.source_text(4), None);
    assert_eq!(sources.publish(5, b"five".to_vec()), None);
}

#[test]
fn selection_outcome_follows_the_read() {
    assert!(matches!(
        selection_outcome(4, None),
        Some(WaylandEvent::Unusable { generation: 4, error: None })
    ));
    assert!(selection_outcome(4, Some(Ok(()))).is_none());
    match selection_outcome(5, Some(Err("no pipe".to_string()))) {
        Some(WaylandEvent::Unusable { generation: 5, error: Some(m) }) => assert_eq!(m, "no pipe"),
        _ => panic!("expected the error"),
    }
}
