use wslg_clipboard::broker::{BrokerError, ClipboardMode};
use wslg_clipboard::protocol::{Frame, MessageKind, ProtocolError};
use wslg_clipboard::session::{Action, AgentRead, BrokerState, RESTART_LIMIT};
use wslg_clipboard::status::Health;
use wslg_clipboard::wayland::WaylandEvent;

fn hello(pid: u64, sequence: u32, flags: u32, payload: &[u8]) -> Frame {
    let mut frame = Frame::new(MessageKind::Hello);
    frame.request_id = pid;
    frame.sequence = sequence;
    frame.flags = flags;
    frame.payload = payload.to_vec();
    frame
}

fn started_broker(mode: ClipboardMode) -> BrokerState {
    let mut broker = BrokerState::new(mode);
    broker.agent_starting();
    broker.agent_spawned();
    broker
}

fn sway_selection(broker: &mut BrokerState, generation: u64, text: &[u8]) -> Vec<Action> {
    let mut out = Vec::new();
    broker.handle_wayland_event(WaylandEvent::SelectionStarted(generation), &mut out);
    broker.handle_wayland_event(
        WaylandEvent::Text { generation, text: text.to_vec() },
        &mut out,
    );
    out
}

fn sent_frames(actions: &[Action]) -> Vec<&Frame> {
    actions
        .iter()
        .filter_map(|action| match action {
            Action::Send(frame) => Some(frame),
            _ => None,
        })
        .collect()
}

#[test]
fn sway_text_reaches_windows_once_both_sides_are_ready() {
    let mut broker = started_broker(ClipboardMode::Both);
    let queued = sway_selection(&mut broker, 1, b"from sway");
    assert!(sent_frames(&queued).is_empty());

    let mut out = Vec::new();
    broker.handle_agent_frame(hello(42, 5, 0, b""), false, &mut out);
    assert!(broker.agent_ready());
    assert_eq!(broker.agent_pid(), Some(42));
    assert!(out.iter().any(|a| matches!(
        a,
        Action::WriteStatus { health: Health::Running, agent_pid: Some(42), error: None }
    )));
    let frames = sent_frames(&out);
    assert_eq!(frames.len(), 1);
    assert_eq!(frames[0].kind, MessageKind::SetWindowsText);
    assert_eq!(frames[0].payload, b"from sway".to_vec());
    let request_id = frames[0].request_id;
    assert!(matches!(out.last(), Some(Action::Send(_))));

    let mut out = Vec::new();
    broker.send_result(true, String::new(), false, &mut out);
    assert!(out.is_empty());

    let mut ack = Frame::new(MessageKind::SetWindowsOk);
    ack.request_id = request_id;
    ack.sequence = 6;
    broker.handle_agent_frame(ack, false, &mut out);
    assert!(out.iter().any(|a| matches!(a, Action::WriteStatus { health: Health::Running, .. })));
    assert!(sent_frames(&out).is_empty());
}

#[test]
fn windows_text_is_published_and_its_echo_is_not_sent_back() {
    let mut broker = started_broker(ClipboardMode::Both);
    let mut out = Vec::new();
    broker.handle_wayland_event(WaylandEvent::SelectionStarted(1), &mut out);
    broker.handle_wayland_event(WaylandEvent::Unusable { generation: 1, error: None }, &mut out);
    broker.handle_agent_frame(hello(9, 3, 0, b""), false, &mut out);

    let mut out = Vec::new();
    let mut update = Frame::new(MessageKind::WindowsText);
    update.sequence = 4;
    update.payload = b"hello windows".to_vec();
    broker.handle_agent_frame(update, false, &mut out);
    assert!(out.iter().any(|a| matches!(a, Action::Publish(t) if t == b"hello windows")));

    let echo = sway_selection(&mut broker, 2, b"hello windows");
    assert!(sent_frames(&echo).is_empty());
    assert!(!echo.iter().any(|a| matches!(a, Action::Publish(_))));
}

#[test]
fn write_only_mode_ignores_windows_selections() {
    let mut broker = started_broker(ClipboardMode::ToWindows);
    let mut out = Vec::new();
    broker.handle_wayland_event(WaylandEvent::SelectionStarted(1), &mut out);
    broker.handle_wayland_event(WaylandEvent::Unusable { generation: 1, error: None }, &mut out);
    broker.handle_agent_frame(hello(9, 3, 1, b"startup"), false, &mut out);
    let mut out = Vec::new();
    let mut update = Frame::new(MessageKind::WindowsText);
    update.payload = b"ignored".to_vec();
    broker.handle_agent_frame(update, false, &mut out);
    assert!(out.is_empty());
    assert_eq!(broker.mode(), ClipboardMode::ToWindows);
}

#[test]
fn inconsistent_hello_loses_the_agent() {
    let mut broker = started_broker(ClipboardMode::Both);
    let mut out = Vec::new();
    broker.handle_agent_frame(hello(1, 0, 3, b"x"), false, &mut out);
    assert!(!broker.agent_ready());
    assert!(matches!(out[0], Action::ShutdownAgent));
    assert!(out.iter().any(|a| matches!(
        a,
        Action::Log(m) if m == "Windows clipboard agent sent an inconsistent startup state"
    )));
    assert!(matches!(out.last(), Some(Action::ScheduleRestart)));
}

#[test]
fn restart_budget_is_limited() {
    let mut broker = BrokerState::new(ClipboardMode::Both);
    for _ in 0..RESTART_LIMIT {
        broker.agent_starting();
        broker.agent_spawned();
        let mut out = Vec::new();
        broker.lose_agent("gone".to_string(), false, &mut out);
        assert!(matches!(out.last(), Some(Action::ScheduleRestart)));
    }
    broker.agent_starting();
    broker.agent_spawned();
    let mut out = Vec::new();
    broker.lose_agent("gone".to_string(), false, &mut out);
    assert!(matches!(out.last(), Some(Action::Stop)));
    match broker.take_fatal() {
        Some(BrokerError::Exhausted(message)) => {
            assert_eq!(message, "Windows clipboard agent restart budget exhausted: gone")
        }
        other => panic!("unexpected {other:?}"),
    }
    assert!(broker.take_fatal().is_none());
}

#[test]
fn long_run_resets_the_restart_budget() {
    let mut broker = BrokerState::new(ClipboardMode::Both);
    for _ in 0..(RESTART_LIMIT + 3) {
        broker.agent_starting();
        broker.agent_spawned();
        let mut out = Vec::new();
        broker.lose_agent("gone".to_string(), true, &mut out);
        assert!(matches!(out.last(), Some(Action::ScheduleRestart)));
    }
}

#[test]
fn heartbeat_pings_or_gives_up() {
    let mut broker = started_broker(ClipboardMode::Both);
    let mut out = Vec::new();
    broker.heartbeat(false, false, false, &mut out);
    assert!(out.is_empty());
    broker.heartbeat(false, true, false, &mut out);
    assert!(out.iter().any(|a| matches!(
        a,
        Action::Log(m) if m == "Windows clipboard agent did not report its startup state"
    )));

    let mut broker = started_broker(ClipboardMode::Both);
    let mut out = Vec::new();
    broker.handle_agent_frame(hello(5, 1, 0, b""), false, &mut out);
    let mut out = Vec::new();
    broker.heartbeat(false, false, false, &mut out);
    assert!(matches!(&out[..], [Action::Send(frame)] if frame.kind == MessageKind::Ping));
    let mut out = Vec::new();
    broker.heartbeat(true, false, false, &mut out);
    assert!(!broker.agent_ready());
    assert!(out.iter().any(|a| matches!(
        a,
        Action::Log(m) if m == "Windows clipboard agent heartbeat timed out"
    )));
}

#[test]
fn refused_write_is_retried_once() {
    let mut broker = started_broker(ClipboardMode::Both);
    let mut out = Vec::new();
    broker.handle_agent_frame(hello(42, 5, 0, b""), false, &mut out);
    let out = sway_selection(&mut broker, 1, b"busy");
    let request_id = sent_frames(&out)[0].request_id;
    let mut out = Vec::new();
    broker.send_result(true, String::new(), false, &mut out);

    let mut refusal = Frame::new(MessageKind::SetWindowsError);
    refusal.request_id = request_id;
    refusal.payload = b"clipboard is open".to_vec();
    broker.handle_agent_frame(refusal, false, &mut out);
    assert!(out.iter().any(|a| matches!(a, Action::Log(m) if m == "clipboard is open; retrying once")));
    assert!(matches!(out.last(), Some(Action::ScheduleRetry)));
    let mut out = Vec::new();
    broker.retry_schedule_result(None, &mut out);
    broker.retry_windows_write(&mut out);
    let frames = sent_frames(&out);
    assert_eq!(frames.len(), 1);
    assert_eq!(frames[0].payload, b"busy".to_vec());
    assert_ne!(frames[0].request_id, request_id);
}

#[test]
fn failed_send_requeues_the_text() {
    let mut broker = started_broker(ClipboardMode::Both);
    let mut out = Vec::new();
    broker.handle_agent_frame(hello(42, 5, 0, b""), false, &mut out);
    let _ = sway_selection(&mut broker, 1, b"lost in transit");
    let mut out = Vec::new();
    broker.send_result(false, "broken pipe".to_string(), false, &mut out);
    assert!(out.iter().any(|a| matches!(
        a,
        Action::Log(m) if m == "Windows clipboard agent write failed: broken pipe"
    )));
    assert!(!broker.agent_ready());

    broker.agent_starting();
    broker.agent_spawned();
    let mut out = Vec::new();
    broker.handle_agent_frame(hello(43, 5, 0, b""), false, &mut out);
    let frames = sent_frames(&out);
    assert_eq!(frames.len(), 1);
    assert_eq!(frames[0].payload, b"lost in transit".to_vec());
}

#[test]
fn agent_pipe_events_are_classified() {
    let mut broker = started_broker(ClipboardMode::Both);
    let mut out = Vec::new();
    assert!(broker.agent_read(AgentRead::Data, false, &mut out));
    assert!(!broker.agent_read(AgentRead::Pending, false, &mut out));
    assert!(out.is_empty());
    assert!(!broker.agent_read(AgentRead::Closed, false, &mut out));
    assert!(out.iter().any(|a| matches!(
        a,
        Action::Log(m) if m == "Windows clipboard agent closed its pipe"
    )));

    let mut broker = started_broker(ClipboardMode::Both);
    let mut out = Vec::new();
    broker.agent_stream_failed(ProtocolError::BadMagic, false, &mut out);
    assert!(out.iter().any(|a| matches!(
        a,
        Action::Log(m) if m == "Windows clipboard agent protocol failed: invalid protocol magic"
    )));
    let mut broker = started_broker(ClipboardMode::Both);
    let mut out = Vec::new();
    broker.agent_read(AgentRead::Failed("oops".to_string()), false, &mut out);
    assert!(out.iter().any(|a| matches!(
        a,
        Action::Log(m) if m == "Windows clipboard agent read failed: oops"
    )));
}

#[test]
fn device_loss_stops_the_broker() {
    let mut broker = BrokerState::new(ClipboardMode::Both);
    let mut out = Vec::new();
    broker.handle_wayland_event(WaylandEvent::DeviceLost, &mut out);
    assert!(matches!(out.last(), Some(Action::Stop)));
    assert_eq!(
        broker.take_fatal(),
        Some(BrokerError::EventLoop("ext-data-control device was removed".to_string()))
    );
}

#[test]
fn stale_sway_text_is_ignored() {
    let mut broker = started_broker(ClipboardMode::Both);
    let mut out = Vec::new();
    broker.handle_wayland_event(WaylandEvent::SelectionStarted(2), &mut out);
    broker.handle_wayland_event(
        WaylandEvent::Text { generation: 1, text: b"old".to_vec() },
        &mut out,
    );
    assert!(out.is_empty());
}

#[test]
fn sway_text_reported_back_by_windows_is_not_republished() {
    let mut broker = started_broker(ClipboardMode::Both);
    let mut out = Vec::new();
    broker.handle_agent_frame(hello(42, 5, 0, b""), false, &mut out);
    let out = sway_selection(&mut broker, 1, b"round trip");
    let request_id = sent_frames(&out)[0].request_id;
    let mut out = Vec::new();
    broker.send_result(true, String::new(), false, &mut out);
    let mut ack = Frame::new(MessageKind::SetWindowsOk);
    ack.request_id = request_id;
    ack.sequence = 6;
    broker.handle_agent_frame(ack, false, &mut out);

    let mut out = Vec::new();
    let mut update = Frame::new(MessageKind::WindowsText);
    update.sequence = 7;
    update.payload = b"round trip".to_vec();
    broker.handle_agent_frame(update, false, &mut out);
    assert!(!out.iter().any(|a| matches!(a, Action::Publish(_))));
}

#[test]
fn lost_agent_takes_its_unacknowledged_write_back_into_line() {
    let mut broker = started_broker(ClipboardMode::Both);
    let mut out = Vec::new();
    broker.handle_agent_frame(hello(42, 5, 0, b""), false, &mut out);
    let _ = sway_selection(&mut broker, 1, b"unacknowledged");
    let mut out = Vec::new();
    broker.send_result(true, String::new(), false, &mut out);
    broker.lose_agent("crashed".to_string(), false, &mut out);
    assert!(!broker.agent_ready());

    broker.agent_starting();
    broker.agent_spawned();
    let mut out = Vec::new();
    broker.handle_agent_frame(hello(43, 5, 0, b""), false, &mut out);
    let frames = sent_frames(&out);
    assert_eq!(frames.len(), 1);
    assert_eq!(frames[0].payload, b"unacknowledged".to_vec());
}

#[test]
fn invalid_sway_text_logs_only_its_error() {
    let mut broker = started_broker(ClipboardMode::Both);
    let out = sway_selection(&mut broker, 1, &[0xff, b's', b'e', b'c', b'r', b'e', b't']);
    for action in &out {
        match action {
            Action::Log(m) => assert_eq!(m, "clipboard text is not valid UTF-8"),
            Action::WriteStatus { error, .. } => assert!(error.is_none()),
            _ => {}
        }
    }
    assert!(out.iter().any(|a| matches!(a, Action::Log(_))));
}
