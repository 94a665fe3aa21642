//! The broker's decisions, as a state machine driven by events.
//!
//! The caller owns the event loop, the agent process, the Wayland connection
//! and the status file. It hands each event to a method of [`BrokerState`],
//! which updates the state and appends the actions to perform. At most the last
//! action of a call asks for an answer: after `Send` the caller reports the
//! outcome with [`BrokerState::send_result`], after `Publish` a failure with
//! [`BrokerState::publish_failed`], after `ScheduleRetry` the outcome with
//! [`BrokerState::retry_schedule_result`], and after `ScheduleRestart` a failure
//! with [`BrokerState::restart_schedule_failed`].

use vstd::prelude::*;

use crate::broker::{
    accept_wayland_text, accept_wayland_text_spec, broker_error_message, hashed,
    observe_wayland_text, observe_wayland_text_spec, sequence_is_newer_spec, startup_windows_selection,
    startup_windows_selection_spec, write_failure, write_failure_spec, BrokerError,
    BrokerErrorView, ClipboardMode, Delivery, DeliveryView, HashedText, HashedView,
    SelectionView, SlotsView, SyncSlots, WaylandTextDisposition, WindowsSelection, WriteFailure,
};
use crate::protocol::{
    copy_range, protocol_error_message, Frame, FrameView, MessageKind, ProtocolError, HELLO_HAS_TEXT,
    HELLO_READ_ERROR,
};
use crate::state::{next_request_id, spec_sha256, MirrorState, MirrorView, PendingView};
use crate::status::Health;
use crate::strings::concat;
use crate::text::{text_error_message, utf8_text, validate_utf8, TextError};
use crate::wayland::WaylandEvent;

verus! {

/// How many quick agent restarts in a row the broker allows.
pub const RESTART_LIMIT: usize = 5;

/// What `String::from_utf8_lossy` makes of bytes.
pub uninterp spec fn lossy_utf8(bytes: Seq<u8>) -> Seq<char>;

/// `String::from_utf8_lossy`: the text of the bytes, with replacement characters
/// for ill-formed sequences. For well-formed UTF-8 that is the decoded text;
/// otherwise nothing is claimed beyond its being a function of the bytes.
#[verifier::external_body]
fn string_from_utf8_lossy(bytes: &[u8]) -> (s: String)
    ensures
        s@ == lossy_utf8(bytes@),
        vstd::utf8::valid_utf8(bytes@) ==> s@ == vstd::utf8::decode_utf8(bytes@),
{
    String::from_utf8_lossy(bytes).into_owned()
}

/// A Sway text being written to Windows, kept until its acknowledgement so that
/// a refused or interrupted write can be queued again.
pub struct WindowsWrite {
    pub text: HashedText,
    pub retried: bool,
}

pub struct WriteView {
    pub text: HashedView,
    pub retried: bool,
}

impl View for WindowsWrite {
    type V = WriteView;

    open spec fn view(&self) -> WriteView {
        WriteView { text: self.text@, retried: self.retried }
    }
}

pub open spec fn write_view(w: Option<WindowsWrite>) -> Option<WriteView> {
    match w {
        Some(w) => Some(w@),
        None => None,
    }
}

pub open spec fn text_view(t: Option<String>) -> Option<Seq<char>> {
    match t {
        Some(t) => Some(t@),
        None => None,
    }
}

pub open spec fn error_view(e: Option<BrokerError>) -> Option<BrokerErrorView> {
    match e {
        Some(e) => Some(e@),
        None => None,
    }
}

/// Something the caller has to do on the broker's behalf.
#[derive(Debug)]
pub enum Action {
    /// Record the health in the status file.
    WriteStatus { health: Health, agent_pid: Option<u32>, error: Option<String> },
    /// Log a line.
    Log(String),
    /// Send a frame to the agent, then report the outcome.
    Send(Frame),
    /// Offer the text as the Sway selection; report a failure.
    Publish(Vec<u8>),
    /// Arm the write retry timer; report the outcome.
    ScheduleRetry,
    /// Arm the agent restart timer; report a failure.
    ScheduleRestart,
    /// Close the agent's pipe and reap it.
    ShutdownAgent,
    /// End the event loop.
    Stop,
}

pub enum ActionView {
    WriteStatus { health: Health, agent_pid: Option<u32>, error: Option<Seq<char>> },
    Log(Seq<char>),
    Send(FrameView),
    Publish(Seq<u8>),
    ScheduleRetry,
    ScheduleRestart,
    ShutdownAgent,
    Stop,
}

impl View for Action {
    type V = ActionView;

    open spec fn view(&self) -> ActionView {
        match self {
            Action::WriteStatus { health, agent_pid, error } => ActionView::WriteStatus {
                health: *health,
                agent_pid: *agent_pid,
                error: text_view(*error),
            },
            Action::Log(m) => ActionView::Log(m@),
            Action::Send(f) => ActionView::Send(f@),
            Action::Publish(t) => ActionView::Publish(t@),
            Action::ScheduleRetry => ActionView::ScheduleRetry,
            Action::ScheduleRestart => ActionView::ScheduleRestart,
            Action::ShutdownAgent => ActionView::ShutdownAgent,
            Action::Stop => ActionView::Stop,
        }
    }
}

pub open spec fn actions_view(a: Seq<Action>) -> Seq<ActionView> {
    a.map_values(|x: Action| x@)
}

fn emit(out: &mut Vec<Action>, action: Action)
    ensures
        actions_view(final(out)@) == actions_view(old(out)@).push(action@),
{
    let ghost a = action@;
    out.push(action);
    assert(actions_view(out@) =~= actions_view(old(out)@).push(a));
}

/// What one read of the agent's pipe gave.
pub enum AgentRead {
    /// The agent closed its end.
    Closed,
    /// Bytes went to the frame decoder.
    Data,
    /// Nothing to read yet, or the read was interrupted.
    Pending,
    /// The read failed; the message says why.
    Failed(String),
}

/// The broker's state as values.
pub struct CoreView {
    pub mode: ClipboardMode,
    pub mirror: MirrorView,
    pub slots: SlotsView,
    pub agent_present: bool,
    pub agent_pid: Option<u32>,
    pub agent_ready: bool,
    pub agent_restarts: usize,
    pub restart_scheduled: bool,
    pub wayland_ready: bool,
    pub latest_wayland_generation: u64,
    pub ever_synced: bool,
    pub in_flight: Option<WriteView>,
    pub sending: Option<WriteView>,
    pub retry_scheduled: bool,
    pub fatal: Option<BrokerErrorView>,
}

/// The state after a step, and the actions so far.
pub type Step = (CoreView, Seq<ActionView>);

impl CoreView {
    /// What always holds: a write is pending only while the agent is ready, the
    /// agent is ready only while it runs, and a frame awaiting its send result
    /// belongs to the pending write.
    pub open spec fn wf(self) -> bool {
        &&& self.mirror.pending_windows is Some ==> self.agent_ready
        &&& self.agent_ready ==> self.agent_present
        &&& self.sending is Some ==> self.mirror.pending_windows is Some
    }
}

pub open spec fn status_action(s: CoreView, health: Health, error: Option<Seq<char>>, a: Seq<ActionView>) -> Seq<ActionView> {
    a.push(ActionView::WriteStatus { health, agent_pid: s.agent_pid, error })
}

pub open spec fn reject_spec(msg: Seq<char>, a: Seq<ActionView>) -> Seq<ActionView> {
    a.push(ActionView::Log(msg))
}

pub open spec fn degrade_spec(s: CoreView, msg: Seq<char>, a: Seq<ActionView>) -> Seq<ActionView> {
    status_action(s, Health::Degraded, Some(msg), a.push(ActionView::Log(msg)))
}

pub open spec fn fail_spec(s: CoreView, e: BrokerErrorView, a: Seq<ActionView>) -> Step {
    (
        CoreView { fatal: Some(e), ..s },
        status_action(s, Health::Degraded, Some(broker_error_message(e)), a).push(ActionView::Stop),
    )
}

pub open spec fn sides_ready_spec(s: CoreView, a: Seq<ActionView>) -> Step {
    (CoreView { ever_synced: true, ..s }, status_action(s, Health::Running, None, a))
}

pub open spec fn lose_agent_spec(s: CoreView, reason: Seq<char>, ran_long: bool, a: Seq<ActionView>) -> Step {
    let a1 = if s.agent_present {
        a.push(ActionView::ShutdownAgent)
    } else {
        a
    };
    let slots1 = s.slots.agent_lost();
    let slots2 = match s.in_flight {
        Some(w) => slots1.requeue(w.text),
        None => slots1,
    };
    let s1 = CoreView {
        agent_present: false,
        agent_pid: None,
        agent_ready: false,
        slots: slots2,
        mirror: s.mirror.reset_windows_transport(),
        in_flight: None,
        ..s
    };
    let a2 = degrade_spec(s1, reason, a1);
    if s1.restart_scheduled {
        (s1, a2)
    } else {
        let base = if ran_long {
            0
        } else {
            s.agent_restarts
        };
        let restarts = if base == usize::MAX {
            base
        } else {
            (base + 1) as usize
        };
        let s2 = CoreView { agent_restarts: restarts, ..s1 };
        if restarts > RESTART_LIMIT {
            fail_spec(
                s2,
                BrokerErrorView::Exhausted("Windows clipboard agent restart budget exhausted: "@ + reason),
                a2,
            )
        } else {
            (CoreView { restart_scheduled: true, ..s2 }, a2.push(ActionView::ScheduleRestart))
        }
    }
}

pub open spec fn publish_spec(s: CoreView, t: HashedView, sequence: u32, a: Seq<ActionView>) -> Step {
    match utf8_text(t.text) {
        Err(e) => (CoreView { mirror: s.mirror.invalidate_windows(sequence), ..s }, reject_spec(text_error_message(e), a)),
        Ok(_) => {
            let echo = s.mirror.is_wayland_echo(t.hash);
            let s1 = CoreView { mirror: s.mirror.observe_windows(t.hash, sequence), ..s };
            if echo {
                (s1, a)
            } else {
                (s1, a.push(ActionView::Publish(t.text)))
            }
        },
    }
}

pub open spec fn set_text_frame(request_id: u64, payload: Seq<u8>) -> FrameView {
    FrameView { kind: MessageKind::SetWindowsText, request_id, sequence: 0, flags: 0, payload }
}

pub open spec fn forward_spec(s: CoreView, t: HashedView, retried: bool, a: Seq<ActionView>) -> Step {
    if s.mirror.is_windows_echo(t.hash) {
        (s, a)
    } else {
        let m1 = s.mirror.begin_windows_write(t.hash);
        let frame = set_text_frame(m1.next_request_id, t.text);
        if s.agent_present {
            (
                CoreView { mirror: m1, sending: Some(WriteView { text: t, retried }), ..s },
                a.push(ActionView::Send(frame)),
            )
        } else {
            (CoreView { mirror: m1, slots: s.slots.requeue(t), ..s }, a)
        }
    }
}

pub open spec fn drain_spec(s: CoreView, a: Seq<ActionView>) -> Step {
    if !s.wayland_ready || !s.agent_ready || s.mirror.pending_windows is Some {
        (s, a)
    } else {
        let (slots1, d) = s.slots.take();
        match d {
            None => (CoreView { slots: slots1, ..s }, a),
            Some(d) => {
                let s1 = CoreView { slots: slots1, in_flight: None, ..s };
                match d {
                    DeliveryView::ToWayland(SelectionView::Text(t, sequence)) => publish_spec(s1, t, sequence, a),
                    DeliveryView::ToWayland(SelectionView::Unavailable(sequence)) => (
                        CoreView { mirror: s1.mirror.invalidate_windows(sequence), ..s1 },
                        a,
                    ),
                    DeliveryView::ToWindows(t) => forward_spec(s1, t, false, a),
                }
            },
        }
    }
}

pub open spec fn described_spec(s: CoreView, a: Seq<ActionView>) -> Step {
    let (s1, a1) = if !s.wayland_ready {
        let s0 = CoreView { wayland_ready: true, ..s };
        if s0.agent_ready {
            sides_ready_spec(s0, a)
        } else {
            (s0, a)
        }
    } else {
        (s, a)
    };
    drain_spec(s1, a1)
}

pub open spec fn withdraw_spec(s: CoreView, error: Option<Seq<char>>, a: Seq<ActionView>) -> Step {
    (
        CoreView { mirror: s.mirror.invalidate_wayland(), slots: s.slots.wayland_non_text(), ..s },
        match error {
            Some(m) => reject_spec(m, a),
            None => a,
        },
    )
}

/// The broker's reaction to a compositor event.
pub open spec fn wayland_event_spec(s: CoreView, e: WaylandEvent, a: Seq<ActionView>) -> Step {
    match e {
        WaylandEvent::SelectionStarted(generation) => (
            CoreView {
                latest_wayland_generation: generation,
                mirror: s.mirror.invalidate_wayland(),
                slots: s.slots.wayland_non_text(),
                ..s
            },
            a,
        ),
        WaylandEvent::Text { generation, text } => if generation != s.latest_wayland_generation {
            (s, a)
        } else {
            let (s1, a1) = match accept_wayland_text_spec(text@) {
                Ok(t) => {
                    let (m, slots, d) = observe_wayland_text_spec(s.mirror, s.slots, t);
                    let s1 = CoreView { mirror: m, slots, ..s };
                    if d == WaylandTextDisposition::WindowsEcho && s.agent_ready {
                        (s1, status_action(s1, Health::Running, None, a))
                    } else {
                        (s1, a)
                    }
                },
                Err(error) => withdraw_spec(s, error, a),
            };
            described_spec(s1, a1)
        },
        WaylandEvent::Unusable { generation, error } => if generation == s.latest_wayland_generation {
            let (s1, a1) = withdraw_spec(s, text_view(error), a);
            described_spec(s1, a1)
        } else {
            (s, a)
        },
        WaylandEvent::PublicationSynchronized => (s, a),
        WaylandEvent::DeviceLost => fail_spec(s, BrokerErrorView::EventLoop("ext-data-control device was removed"@), a),
    }
}

pub open spec fn schedule_retry_spec(s: CoreView, a: Seq<ActionView>) -> Step {
    if s.retry_scheduled {
        (s, a)
    } else {
        (s, a.push(ActionView::ScheduleRetry))
    }
}

pub open spec fn windows_write_failed_spec(s: CoreView, error: Seq<char>, a: Seq<ActionView>) -> Step {
    match s.in_flight {
        None => (s, a),
        Some(w) => {
            let s0 = CoreView { in_flight: None, ..s };
            match write_failure_spec(w.retried, s.slots) {
                WriteFailure::Retry => schedule_retry_spec(
                    CoreView { in_flight: Some(WriteView { retried: true, ..w }), ..s0 },
                    reject_spec(error + "; retrying once"@, a),
                ),
                WriteFailure::Superseded => (s0, reject_spec(error, a)),
                WriteFailure::Exhausted => (s0, degrade_spec(s0, error, a)),
            }
        },
    }
}

/// Whether a Hello describes a startup state the broker can accept: a process
/// id that fits, an agent not yet ready, text flagged only without a read
/// error, and a payload only with the text flag.
pub open spec fn hello_consistent(s: CoreView, f: FrameView) -> bool {
    let has_text = f.flags & HELLO_HAS_TEXT != 0;
    let read_error = f.flags & HELLO_READ_ERROR != 0;
    !(f.request_id > u32::MAX as u64 || s.agent_ready || (read_error && has_text) || (!has_text
        && f.payload.len() > 0))
}

/// The startup text a Hello reports, if any.
pub open spec fn hello_text(f: FrameView) -> Option<HashedView> {
    if f.flags & HELLO_HAS_TEXT != 0 && f.payload.len() > 0 {
        Some(hashed(f.payload))
    } else {
        None::<HashedView>
    }
}

/// Whether the Windows clipboard changed since the broker last knew it, as the
/// Hello shows.
pub open spec fn hello_windows_changed(s: CoreView, f: FrameView) -> bool {
    s.mirror.windows_changed_since(f.sequence) || (hello_text(f) matches Some(t) && !s.mirror.is_windows_echo(
        t.hash,
    ))
}

/// The state once a consistent Hello is taken in, before the broker reports
/// itself running and delivers what is queued: the agent's process id, a
/// ready agent, what the mirror learns of Windows, and in `Both` mode the
/// startup selection queued for Sway.
pub open spec fn hello_accepted(s: CoreView, f: FrameView) -> CoreView {
    let read_error = f.flags & HELLO_READ_ERROR != 0;
    let text = hello_text(f);
    let m1 = match text {
        Some(t) => s.mirror.observe_windows(t.hash, f.sequence),
        None => s.mirror.invalidate_windows(f.sequence),
    };
    let s1 = CoreView { agent_pid: Some(f.request_id as u32), agent_ready: true, mirror: m1, ..s };
    if s.mode == ClipboardMode::Both {
        match startup_windows_selection_spec(s.ever_synced, hello_windows_changed(s, f), read_error, text, f.sequence) {
            Some(sel) => CoreView { slots: s1.slots.windows_selection(sel), ..s1 },
            None => s1,
        }
    } else {
        s1
    }
}

pub open spec fn hello_spec(s: CoreView, f: FrameView, ran_long: bool, a: Seq<ActionView>) -> Step {
    if !hello_consistent(s, f) {
        lose_agent_spec(s, "Windows clipboard agent sent an inconsistent startup state"@, ran_long, a)
    } else {
        let s2 = hello_accepted(s, f);
        let (s3, a3) = if s2.wayland_ready {
            sides_ready_spec(s2, a)
        } else {
            (s2, a)
        };
        drain_spec(s3, a3)
    }
}

/// The broker's reaction to a frame from the agent.
pub open spec fn agent_frame_spec(s: CoreView, f: FrameView, ran_long: bool, a: Seq<ActionView>) -> Step {
    match f.kind {
        MessageKind::Hello => hello_spec(s, f, ran_long, a),
        MessageKind::WindowsText | MessageKind::WindowsUnavailable => if s.mode == ClipboardMode::Both {
            let sel = if f.kind == MessageKind::WindowsText && f.payload.len() > 0 {
                SelectionView::Text(hashed(f.payload), f.sequence)
            } else {
                SelectionView::Unavailable(f.sequence)
            };
            drain_spec(CoreView { slots: s.slots.windows_selection(sel), ..s }, a)
        } else {
            (s, a)
        },
        MessageKind::SetWindowsOk => if s.mirror.acknowledges(f.request_id) {
            let s1 = CoreView {
                mirror: s.mirror.commit_windows_write(f.request_id, f.sequence),
                in_flight: None,
                slots: s.slots.windows_write_committed(f.sequence),
                ..s
            };
            drain_spec(s1, status_action(s1, Health::Running, None, a))
        } else {
            (s, a)
        },
        MessageKind::SetWindowsError => if s.mirror.acknowledges(f.request_id) {
            let s1 = CoreView { mirror: s.mirror.fail_windows_write(f.request_id), ..s };
            let (s2, a2) = windows_write_failed_spec(s1, lossy_utf8(f.payload), a);
            drain_spec(s2, a2)
        } else {
            (s, a)
        },
        MessageKind::Pong | MessageKind::ProtocolError => (s, a),
        MessageKind::Ping | MessageKind::SetWindowsText => lose_agent_spec(
            s,
            "Windows clipboard agent sent an unexpected frame"@,
            ran_long,
            a,
        ),
    }
}

pub open spec fn send_result_spec(s: CoreView, ok: bool, error: Seq<char>, ran_long: bool, a: Seq<ActionView>) -> Step {
    let pending = s.sending;
    let s0 = CoreView { sending: None, ..s };
    if ok {
        (
            match pending {
                Some(w) => CoreView { in_flight: Some(w), ..s0 },
                None => s0,
            },
            a,
        )
    } else {
        let (s1, a1) = lose_agent_spec(s0, "Windows clipboard agent write failed: "@ + error, ran_long, a);
        (
            match pending {
                Some(w) => CoreView { slots: s1.slots.requeue(w.text), ..s1 },
                None => s1,
            },
            a1,
        )
    }
}

pub open spec fn heartbeat_spec(
    s: CoreView,
    heartbeat_timed_out: bool,
    hello_timed_out: bool,
    ran_long: bool,
    a: Seq<ActionView>,
) -> Step {
    if !s.agent_present {
        (s, a)
    } else if s.agent_ready {
        if heartbeat_timed_out {
            lose_agent_spec(s, "Windows clipboard agent heartbeat timed out"@, ran_long, a)
        } else {
            (
                s,
                a.push(
                    ActionView::Send(
                        FrameView { kind: MessageKind::Ping, request_id: 0, sequence: 0, flags: 0, payload: seq![] },
                    ),
                ),
            )
        }
    } else if hello_timed_out {
        lose_agent_spec(s, "Windows clipboard agent did not report its startup state"@, ran_long, a)
    } else {
        (s, a)
    }
}

pub open spec fn retry_timer_spec(s: CoreView, a: Seq<ActionView>) -> Step {
    let s0 = CoreView { retry_scheduled: false, ..s };
    if s0.mirror.pending_windows is Some {
        (s0, a)
    } else {
        let s1 = CoreView { in_flight: None, ..s0 };
        let (s2, a2) = match s0.in_flight {
            Some(w) => if s1.agent_ready && s1.slots.is_empty() {
                forward_spec(s1, w.text, true, a)
            } else {
                (s1, a)
            },
            None => (s1, a),
        };
        drain_spec(s2, a2)
    }
}

/// The decision-making part of the broker.
pub struct BrokerState {
    mode: ClipboardMode,
    mirror: MirrorState,
    slots: SyncSlots,
    agent_present: bool,
    agent_pid: Option<u32>,
    agent_ready: bool,
    agent_restarts: usize,
    restart_scheduled: bool,
    wayland_ready: bool,
    latest_wayland_generation: u64,
    ever_synced: bool,
    // The Sway text the agent is writing right now, kept until its ACK so that a
    // refused or interrupted write can be queued again. After a refusal it stays
    // here until the retry timer fires or something newer supersedes it.
    in_flight: Option<WindowsWrite>,
    sending: Option<WindowsWrite>,
    retry_scheduled: bool,
    fatal: Option<BrokerError>,
}

impl View for BrokerState {
    type V = CoreView;

    closed spec fn view(&self) -> CoreView {
        CoreView {
            mode: self.mode,
            mirror: self.mirror@,
            slots: self.slots@,
            agent_present: self.agent_present,
            agent_pid: self.agent_pid,
            agent_ready: self.agent_ready,
            agent_restarts: self.agent_restarts,
            restart_scheduled: self.restart_scheduled,
            wayland_ready: self.wayland_ready,
            latest_wayland_generation: self.latest_wayland_generation,
            ever_synced: self.ever_synced,
            in_flight: write_view(self.in_flight),
            sending: write_view(self.sending),
            retry_scheduled: self.retry_scheduled,
            fatal: error_view(self.fatal),
        }
    }
}

impl BrokerState {
    pub fn new(mode: ClipboardMode) -> (s: Self)
        ensures
            s@.mode == mode,
            s@.mirror == (MirrorView {
                next_request_id: 0,
                wayland_hash: None,
                windows_hash: None,
                windows_sequence: None,
                pending_windows: None,
                pending_wayland: None,
            }),
            s@.slots == (SlotsView { to_windows: None, to_wayland: None }),
            !s@.agent_present,
            s@.agent_pid is None,
            !s@.agent_ready,
            s@.agent_restarts == 0,
            !s@.restart_scheduled,
            !s@.wayland_ready,
            s@.latest_wayland_generation == 0,
            !s@.ever_synced,
            s@.in_flight is None,
            s@.sending is None,
            !s@.retry_scheduled,
            s@.fatal is None,
            s@.wf(),
    {
        BrokerState {
            mode,
            mirror: MirrorState::default(),
            slots: SyncSlots::default(),
            agent_present: false,
            agent_pid: None,
            agent_ready: false,
            agent_restarts: 0,
            restart_scheduled: false,
            wayland_ready: false,
            latest_wayland_generation: 0,
            ever_synced: false,
            in_flight: None,
            sending: None,
            retry_scheduled: false,
            fatal: None,
        }
    }

    pub fn mode(&self) -> (m: ClipboardMode)
        ensures
            m == self@.mode,
    {
        self.mode
    }

    pub fn agent_pid(&self) -> (p: Option<u32>)
        ensures
            p == self@.agent_pid,
    {
        self.agent_pid
    }

    pub fn agent_ready(&self) -> (r: bool)
        ensures
            r == self@.agent_ready,
    {
        self.agent_ready
    }

    /// The error that ended the broker, handed over once.
    pub fn take_fatal(&mut self) -> (e: Option<BrokerError>)
        ensures
            error_view(e) == old(self)@.fatal,
            final(self)@ == (CoreView { fatal: None, ..old(self)@ }),
    {
        self.fatal.take()
    }

    fn write_status(&self, health: Health, error: Option<String>, out: &mut Vec<Action>)
        ensures
            actions_view(final(out)@) == status_action(self@, health, text_view(error), actions_view(old(out)@)),
    {
        emit(out, Action::WriteStatus { health, agent_pid: self.agent_pid, error });
    }

    fn reject(&self, error: String, out: &mut Vec<Action>)
        ensures
            actions_view(final(out)@) == reject_spec(error@, actions_view(old(out)@)),
    {
        emit(out, Action::Log(error));
    }

    fn degrade(&self, error: String, out: &mut Vec<Action>)
        ensures
            actions_view(final(out)@) == degrade_spec(self@, error@, actions_view(old(out)@)),
    {
        let copy = String::from_str(error.as_str());
        emit(out, Action::Log(error));
        self.write_status(Health::Degraded, Some(copy), out);
    }

    fn fail(&mut self, error: BrokerError, out: &mut Vec<Action>)
        ensures
            (final(self)@, actions_view(final(out)@)) == fail_spec(old(self)@, error@, actions_view(old(out)@)),
    {
        let message = error.message();
        self.write_status(Health::Degraded, Some(message), out);
        self.fatal = Some(error);
        emit(out, Action::Stop);
    }

    fn sides_ready(&mut self, out: &mut Vec<Action>)
        ensures
            (final(self)@, actions_view(final(out)@)) == sides_ready_spec(old(self)@, actions_view(old(out)@)),
    {
        self.write_status(Health::Running, None, out);
        self.ever_synced = true;
    }

    /// The agent process is gone or unusable: forget it, put back what it held,
    /// and restart it unless the restart budget is spent. `ran_long` tells that
    /// the agent ran long enough to reset the budget.
    pub fn lose_agent(&mut self, reason: String, ran_long: bool, out: &mut Vec<Action>)
        ensures
            (final(self)@, actions_view(final(out)@)) == lose_agent_spec(
                old(self)@,
                reason@,
                ran_long,
                actions_view(old(out)@),
            ),
    {
        if self.agent_present {
            emit(out, Action::ShutdownAgent);
            self.agent_present = false;
        }
        self.agent_pid = None;
        self.agent_ready = false;
        self.slots.agent_lost();
        self.mirror.reset_windows_transport();
        if let Some(write) = self.in_flight.take() {
            self.slots.requeue_windows_write(write.text);
        }
        let copy = String::from_str(reason.as_str());
        self.degrade(reason, out);
        if self.restart_scheduled {
            return;
        }
        if ran_long {
            self.agent_restarts = 0;
        }
        self.agent_restarts = self.agent_restarts.saturating_add(1);
        if self.agent_restarts > RESTART_LIMIT {
            self.fail(
                BrokerError::Exhausted(concat("Windows clipboard agent restart budget exhausted: ", copy.as_str())),
                out,
            );
            return;
        }
        self.restart_scheduled = true;
        emit(out, Action::ScheduleRestart);
    }

    fn publish_windows_text(&mut self, text: HashedText, sequence: u32, out: &mut Vec<Action>)
        ensures
            (final(self)@, actions_view(final(out)@)) == publish_spec(
                old(self)@,
                text@,
                sequence,
                actions_view(old(out)@),
            ),
    {
        match validate_utf8(text.text.as_slice()) {
            Err(error) => {
                self.mirror.invalidate_windows(sequence);
                self.reject(error.message(), out);
                return;
            },
            Ok(_) => {},
        }
        let wayland_echo = self.mirror.is_wayland_echo(&text.hash);
        self.mirror.observe_windows(text.hash, sequence);
        if wayland_echo {
            return;
        }
        // The compositor serves the selection back through the ordinary offer
        // path, whose text hash commits it without relying on event order.
        emit(out, Action::Publish(text.text));
    }

    fn forward_wayland_text(&mut self, text: HashedText, retried: bool, out: &mut Vec<Action>)
        ensures
            (final(self)@, actions_view(final(out)@)) == forward_spec(
                old(self)@,
                text@,
                retried,
                actions_view(old(out)@),
            ),
    {
        if self.mirror.is_windows_echo(&text.hash) {
            return;
        }
        let pending = self.mirror.begin_windows_write(text.hash);
        let mut frame = Frame::new(MessageKind::SetWindowsText);
        frame.request_id = pending.request_id;
        frame.payload = copy_range(text.text.as_slice(), 0, text.text.len());
        proof {
            assert(text.text@.subrange(0, text.text@.len() as int) =~= text.text@);
        }
        if self.agent_present {
            emit(out, Action::Send(frame));
            self.sending = Some(WindowsWrite { text, retried });
        } else {
            self.slots.requeue_windows_write(text);
        }
    }

    fn drain(&mut self, out: &mut Vec<Action>)
        ensures
            (final(self)@, actions_view(final(out)@)) == drain_spec(old(self)@, actions_view(old(out)@)),
    {
        if !self.wayland_ready || !self.agent_ready || self.mirror.has_pending_windows_write() {
            return;
        }
        let delivery = match self.slots.take() {
            Some(delivery) => delivery,
            None => return,
        };
        // Whatever leaves now postdates a refused write still waiting for its retry.
        self.in_flight = None;
        match delivery {
            Delivery::ToWayland(WindowsSelection::Text(text, sequence)) => {
                self.publish_windows_text(text, sequence, out);
            },
            Delivery::ToWayland(WindowsSelection::Unavailable(sequence)) => {
                self.mirror.invalidate_windows(sequence);
            },
            Delivery::ToWindows(text) => self.forward_wayland_text(text, false, out),
        }
    }

    // Sway has described its selection, so its side can be served from now on.
    fn wayland_described(&mut self, out: &mut Vec<Action>)
        ensures
            (final(self)@, actions_view(final(out)@)) == described_spec(old(self)@, actions_view(old(out)@)),
    {
        if !self.wayland_ready {
            self.wayland_ready = true;
            if self.agent_ready {
                self.sides_ready(out);
            }
        }
        self.drain(out);
    }

    fn withdraw_wayland_selection(&mut self, error: Option<String>, out: &mut Vec<Action>)
        ensures
            (final(self)@, actions_view(final(out)@)) == withdraw_spec(
                old(self)@,
                text_view(error),
                actions_view(old(out)@),
            ),
    {
        self.mirror.invalidate_wayland();
        self.slots.wayland_non_text();
        if let Some(error) = error {
            self.reject(error, out);
        }
    }

    /// Reacts to what the compositor reports.
    pub fn handle_wayland_event(&mut self, event: WaylandEvent, out: &mut Vec<Action>)
        ensures
            (final(self)@, actions_view(final(out)@)) == wayland_event_spec(old(self)@, event, actions_view(old(out)@)),
    {
        match event {
            WaylandEvent::SelectionStarted(generation) => {
                self.latest_wayland_generation = generation;
                self.mirror.invalidate_wayland();
                // A newer selection supersedes queued Sway text even while its
                // offer is still being read.
                self.slots.wayland_non_text();
            },
            WaylandEvent::Text { generation, text } => {
                if generation != self.latest_wayland_generation {
                    return;
                }
                match accept_wayland_text(text) {
                    Ok(text) => {
                        // Every offer is read, including the announcement of a
                        // selection this broker published. The text hash, not
                        // cross-client event order, identifies an echo.
                        let disposition = observe_wayland_text(&mut self.mirror, &mut self.slots, text);
                        if disposition == WaylandTextDisposition::WindowsEcho && self.agent_ready {
                            self.write_status(Health::Running, None, out);
                        }
                    },
                    Err(error) => self.withdraw_wayland_selection(error, out),
                }
                self.wayland_described(out);
            },
            WaylandEvent::Unusable { generation, error } => {
                if generation == self.latest_wayland_generation {
                    self.withdraw_wayland_selection(error, out);
                    self.wayland_described(out);
                }
            },
            WaylandEvent::PublicationSynchronized => {},
            WaylandEvent::DeviceLost => self.fail(
                BrokerError::EventLoop(String::from_str("ext-data-control device was removed")),
                out,
            ),
        }
    }

    /// A new agent process is about to be started.
    pub fn agent_starting(&mut self)
        ensures
            final(self)@ == (CoreView { restart_scheduled: false, ..old(self)@ }),
    {
        self.restart_scheduled = false;
    }

    /// The new agent process runs.
    pub fn agent_spawned(&mut self)
        ensures
            final(self)@ == (CoreView { agent_present: true, ..old(self)@ }),
    {
        self.agent_present = true;
    }

    // Win32 refuses the clipboard while another process holds it open, which is
    // routine rather than a transport failure: try once more before degrading,
    // and do not even count a refusal against a text that is obsolete already.
    fn windows_write_failed(&mut self, error: String, out: &mut Vec<Action>)
        ensures
            (final(self)@, actions_view(final(out)@)) == windows_write_failed_spec(
                old(self)@,
                error@,
                actions_view(old(out)@),
            ),
    {
        let mut write = match self.in_flight.take() {
            Some(write) => write,
            None => return,
        };
        match write_failure(write.retried, &self.slots) {
            WriteFailure::Retry => {
                write.retried = true;
                self.in_flight = Some(write);
                self.reject(concat(error.as_str(), "; retrying once"), out);
                if !self.retry_scheduled {
                    emit(out, Action::ScheduleRetry);
                }
            },
            WriteFailure::Superseded => self.reject(error, out),
            WriteFailure::Exhausted => self.degrade(error, out),
        }
    }

    fn handle_hello(&mut self, frame: Frame, ran_long: bool, out: &mut Vec<Action>)
        requires
            frame.kind == MessageKind::Hello,
        ensures
            (final(self)@, actions_view(final(out)@)) == hello_spec(
                old(self)@,
                frame@,
                ran_long,
                actions_view(old(out)@),
            ),
    {
        let has_text = frame.flags & HELLO_HAS_TEXT != 0;
        let read_error = frame.flags & HELLO_READ_ERROR != 0;
        let pid_fits = frame.request_id <= u32::MAX as u64;
        if !pid_fits || self.agent_ready || (read_error && has_text) || (!has_text && frame.payload.len() > 0) {
            self.lose_agent(
                String::from_str("Windows clipboard agent sent an inconsistent startup state"),
                ran_long,
                out,
            );
            return;
        }
        self.agent_pid = Some(frame.request_id as u32);
        self.agent_ready = true;
        let sequence = frame.sequence;
        let text = if has_text && frame.payload.len() > 0 {
            Some(HashedText::new(frame.payload))
        } else {
            None
        };
        let windows_changed = self.mirror.windows_changed_since(sequence) || match &text {
            Some(text) => !self.mirror.is_windows_echo(&text.hash),
            None => false,
        };
        match &text {
            Some(text) => self.mirror.observe_windows(text.hash, sequence),
            None => self.mirror.invalidate_windows(sequence),
        }
        if self.mode == ClipboardMode::Both {
            match startup_windows_selection(self.ever_synced, windows_changed, read_error, text, sequence) {
                Some(selection) => self.slots.windows_selection(selection),
                None => {},
            }
        }
        if self.wayland_ready {
            self.sides_ready(out);
        }
        self.drain(out);
    }

    /// Reacts to a frame from the running agent.
    pub fn handle_agent_frame(&mut self, frame: Frame, ran_long: bool, out: &mut Vec<Action>)
        ensures
            (final(self)@, actions_view(final(out)@)) == agent_frame_spec(
                old(self)@,
                frame@,
                ran_long,
                actions_view(old(out)@),
            ),
    {
        match frame.kind {
            MessageKind::Hello => self.handle_hello(frame, ran_long, out),
            MessageKind::WindowsText | MessageKind::WindowsUnavailable => {
                if self.mode == ClipboardMode::Both {
                    let selection = if frame.kind == MessageKind::WindowsText && frame.payload.len() > 0 {
                        WindowsSelection::Text(HashedText::new(frame.payload), frame.sequence)
                    } else {
                        WindowsSelection::Unavailable(frame.sequence)
                    };
                    self.slots.windows_selection(selection);
                    self.drain(out);
                }
            },
            MessageKind::SetWindowsOk => {
                if self.mirror.commit_windows_write(frame.request_id, frame.sequence) {
                    self.in_flight = None;
                    self.slots.windows_write_committed(frame.sequence);
                    self.write_status(Health::Running, None, out);
                    self.drain(out);
                }
            },
            MessageKind::SetWindowsError => {
                if self.mirror.fail_windows_write(frame.request_id) {
                    let error = string_from_utf8_lossy(frame.payload.as_slice());
                    self.windows_write_failed(error, out);
                    self.drain(out);
                }
            },
            MessageKind::Pong | MessageKind::ProtocolError => {},
            MessageKind::Ping | MessageKind::SetWindowsText => {
                self.lose_agent(String::from_str("Windows clipboard agent sent an unexpected frame"), ran_long, out);
            },
        }
    }

    /// The outcome of the last `Send`.
    pub fn send_result(&mut self, ok: bool, error: String, ran_long: bool, out: &mut Vec<Action>)
        ensures
            (final(self)@, actions_view(final(out)@)) == send_result_spec(
                old(self)@,
                ok,
                error@,
                ran_long,
                actions_view(old(out)@),
            ),
    {
        let pending = self.sending.take();
        if ok {
            if let Some(write) = pending {
                self.in_flight = Some(write);
            }
        } else {
            self.lose_agent(concat("Windows clipboard agent write failed: ", error.as_str()), ran_long, out);
            if let Some(write) = pending {
                self.slots.requeue_windows_write(write.text);
            }
        }
    }

    /// The last `Publish` failed.
    pub fn publish_failed(&mut self, error: String, out: &mut Vec<Action>)
        ensures
            final(self)@ == old(self)@,
            actions_view(final(out)@) == degrade_spec(old(self)@, error@, actions_view(old(out)@)),
    {
        self.degrade(error, out);
    }

    /// The outcome of the last `ScheduleRetry`.
    pub fn retry_schedule_result(&mut self, error: Option<String>, out: &mut Vec<Action>)
        ensures
            error is None ==> final(self)@ == (CoreView { retry_scheduled: true, ..old(self)@ })
                && actions_view(final(out)@) == actions_view(old(out)@),
            error matches Some(e) ==> final(self)@ == old(self)@ && actions_view(final(out)@)
                == degrade_spec(old(self)@, "cannot schedule clipboard write retry: "@ + e@, actions_view(old(out)@)),
    {
        match error {
            None => self.retry_scheduled = true,
            Some(error) => self.degrade(concat("cannot schedule clipboard write retry: ", error.as_str()), out),
        }
    }

    /// The last `ScheduleRestart` failed.
    pub fn restart_schedule_failed(&mut self, error: String, out: &mut Vec<Action>)
        ensures
            (final(self)@, actions_view(final(out)@)) == fail_spec(
                old(self)@,
                BrokerErrorView::EventLoop("cannot schedule Windows clipboard agent restart: "@ + error@),
                actions_view(old(out)@),
            ),
    {
        self.fail(
            BrokerError::EventLoop(concat("cannot schedule Windows clipboard agent restart: ", error.as_str())),
            out,
        );
    }

    /// The heartbeat timer fired: `heartbeat_timed_out` and `hello_timed_out` say
    /// whether the agent has been silent for longer than the heartbeat and the
    /// startup deadlines.
    pub fn heartbeat(&mut self, heartbeat_timed_out: bool, hello_timed_out: bool, ran_long: bool, out: &mut Vec<Action>)
        ensures
            (final(self)@, actions_view(final(out)@)) == heartbeat_spec(
                old(self)@,
                heartbeat_timed_out,
                hello_timed_out,
                ran_long,
                actions_view(old(out)@),
            ),
    {
        if !self.agent_present {
            return;
        }
        if self.agent_ready {
            if heartbeat_timed_out {
                self.lose_agent(String::from_str("Windows clipboard agent heartbeat timed out"), ran_long, out);
            } else {
                emit(out, Action::Send(Frame::new(MessageKind::Ping)));
            }
        } else if hello_timed_out {
            self.lose_agent(
                String::from_str("Windows clipboard agent did not report its startup state"),
                ran_long,
                out,
            );
        }
    }

    /// What one read of the agent's pipe gave: its end, a failure, bytes for
    /// the decoder, or nothing yet. Returns whether the decoder has new bytes.
    pub fn agent_read(&mut self, read: AgentRead, ran_long: bool, out: &mut Vec<Action>) -> (decode: bool)
        ensures
            decode == (read is Data),
            match read {
                AgentRead::Closed => (final(self)@, actions_view(final(out)@)) == lose_agent_spec(
                    old(self)@,
                    "Windows clipboard agent closed its pipe"@,
                    ran_long,
                    actions_view(old(out)@),
                ),
                AgentRead::Failed(m) => (final(self)@, actions_view(final(out)@)) == lose_agent_spec(
                    old(self)@,
                    "Windows clipboard agent read failed: "@ + m@,
                    ran_long,
                    actions_view(old(out)@),
                ),
                _ => final(self)@ == old(self)@ && actions_view(final(out)@) == actions_view(old(out)@),
            },
    {
        match read {
            AgentRead::Closed => {
                self.lose_agent(String::from_str("Windows clipboard agent closed its pipe"), ran_long, out);
                false
            },
            AgentRead::Failed(error) => {
                self.lose_agent(concat("Windows clipboard agent read failed: ", error.as_str()), ran_long, out);
                false
            },
            AgentRead::Data => true,
            AgentRead::Pending => false,
        }
    }

    /// The agent's stream could not be decoded into frames.
    pub fn agent_stream_failed(&mut self, error: ProtocolError, ran_long: bool, out: &mut Vec<Action>)
        ensures
            (final(self)@, actions_view(final(out)@)) == lose_agent_spec(
                old(self)@,
                "Windows clipboard agent protocol failed: "@ + protocol_error_message(error),
                ran_long,
                actions_view(old(out)@),
            ),
    {
        let message = error.message();
        self.lose_agent(concat("Windows clipboard agent protocol failed: ", message.as_str()), ran_long, out);
    }

    /// The write retry timer fired.
    pub fn retry_windows_write(&mut self, out: &mut Vec<Action>)
        ensures
            (final(self)@, actions_view(final(out)@)) == retry_timer_spec(old(self)@, actions_view(old(out)@)),
    {
        self.retry_scheduled = false;
        // A write in flight now is a newer one; the refused text is gone already.
        if self.mirror.has_pending_windows_write() {
            return;
        }
        if let Some(write) = self.in_flight.take() {
            if self.agent_ready && self.slots.is_empty() {
                self.forward_wayland_text(write.text, true, out);
            }
        }
        self.drain(out);
    }
}


proof fn lemma_lose_agent_wf(s: CoreView, reason: Seq<char>, ran_long: bool, a: Seq<ActionView>)
    requires
        s.wf(),
        s.sending is None,
    ensures
        lose_agent_spec(s, reason, ran_long, a).0.wf(),
        lose_agent_spec(s, reason, ran_long, a).0.sending is None,
        !lose_agent_spec(s, reason, ran_long, a).0.agent_ready,
{
}

proof fn lemma_drain_wf(s: CoreView, a: Seq<ActionView>)
    requires
        s.wf(),
    ensures
        drain_spec(s, a).0.wf(),
        s.sending is None && drain_spec(s, a).0.sending is Some ==> drain_spec(s, a).1.last() is Send,
{
}

proof fn lemma_described_wf(s: CoreView, a: Seq<ActionView>)
    requires
        s.wf(),
    ensures
        described_spec(s, a).0.wf(),
{
    let (s1, a1) = if !s.wayland_ready {
        let s0 = CoreView { wayland_ready: true, ..s };
        if s0.agent_ready {
            sides_ready_spec(s0, a)
        } else {
            (s0, a)
        }
    } else {
        (s, a)
    };
    lemma_drain_wf(s1, a1);
}

/// Law: every event keeps the broker's invariant: a Windows write is pending
/// only while the agent is ready, the agent is ready only while it runs, and a
/// frame awaiting its send result belongs to the pending write. A send result
/// settles the frame it answers.
pub proof fn law_events_keep_invariant(
    s: CoreView,
    a: Seq<ActionView>,
    e: WaylandEvent,
    f: FrameView,
    ok: bool,
    msg: Seq<char>,
    heartbeat_timed_out: bool,
    hello_timed_out: bool,
    ran_long: bool,
)
    requires
        s.wf(),
    ensures
        s.sending is None ==> wayland_event_spec(s, e, a).0.wf(),
        s.sending is None && s.agent_present ==> agent_frame_spec(s, f, ran_long, a).0.wf(),
        s.sending is None ==> heartbeat_spec(s, heartbeat_timed_out, hello_timed_out, ran_long, a).0.wf(),
        s.sending is None ==> retry_timer_spec(s, a).0.wf(),
        s.sending is None ==> lose_agent_spec(s, msg, ran_long, a).0.wf(),
        send_result_spec(s, ok, msg, ran_long, a).0.wf(),
        send_result_spec(s, ok, msg, ran_long, a).0.sending is None,
{
    if s.sending is None {
        lemma_lose_agent_wf(s, msg, ran_long, a);
        law_wayland_event_keeps_invariant(s, e, a);
        if s.agent_present {
            law_agent_frame_keeps_invariant(s, f, ran_long, a);
        }
        lemma_lose_agent_wf(s, "Windows clipboard agent heartbeat timed out"@, ran_long, a);
        lemma_lose_agent_wf(s, "Windows clipboard agent did not report its startup state"@, ran_long, a);
        law_retry_timer_keeps_invariant(s, a);
    }
    let s0 = CoreView { sending: None, ..s };
    lemma_lose_agent_wf(s0, "Windows clipboard agent write failed: "@ + msg, ran_long, a);
}

proof fn law_wayland_event_keeps_invariant(s: CoreView, e: WaylandEvent, a: Seq<ActionView>)
    requires
        s.wf(),
        s.sending is None,
    ensures
        wayland_event_spec(s, e, a).0.wf(),
{
    match e {
        WaylandEvent::Text { generation, text } => {
            if generation == s.latest_wayland_generation {
                let (s1, a1) = match accept_wayland_text_spec(text@) {
                    Ok(t) => {
                        let (m, slots, d) = observe_wayland_text_spec(s.mirror, s.slots, t);
                        let s1 = CoreView { mirror: m, slots, ..s };
                        if d == WaylandTextDisposition::WindowsEcho && s.agent_ready {
                            (s1, status_action(s1, Health::Running, None, a))
                        } else {
                            (s1, a)
                        }
                    },
                    Err(error) => withdraw_spec(s, error, a),
                };
                lemma_described_wf(s1, a1);
            }
        },
        WaylandEvent::Unusable { generation, error } => {
            let (s1, a1) = withdraw_spec(s, text_view(error), a);
            lemma_described_wf(s1, a1);
        },
        _ => {},
    }
}

proof fn law_agent_frame_keeps_invariant(s: CoreView, f: FrameView, ran_long: bool, a: Seq<ActionView>)
    requires
        s.wf(),
        s.sending is None,
        s.agent_present,
    ensures
        agent_frame_spec(s, f, ran_long, a).0.wf(),
{
    lemma_lose_agent_wf(s, "Windows clipboard agent sent an unexpected frame"@, ran_long, a);
    lemma_lose_agent_wf(s, "Windows clipboard agent sent an inconsistent startup state"@, ran_long, a);
    match f.kind {
        MessageKind::Hello => {
            if hello_consistent(s, f) {
                let s2 = hello_accepted(s, f);
                let (s3, a3) = if s2.wayland_ready {
                    sides_ready_spec(s2, a)
                } else {
                    (s2, a)
                };
                lemma_drain_wf(s3, a3);
            }
        },
        MessageKind::WindowsText | MessageKind::WindowsUnavailable => {
            let sel = if f.kind == MessageKind::WindowsText && f.payload.len() > 0 {
                SelectionView::Text(hashed(f.payload), f.sequence)
            } else {
                SelectionView::Unavailable(f.sequence)
            };
            lemma_drain_wf(CoreView { slots: s.slots.windows_selection(sel), ..s }, a);
        },
        MessageKind::SetWindowsOk => {
            let s1 = CoreView {
                mirror: s.mirror.commit_windows_write(f.request_id, f.sequence),
                in_flight: None,
                slots: s.slots.windows_write_committed(f.sequence),
                ..s
            };
            lemma_drain_wf(s1, status_action(s1, Health::Running, None, a));
        },
        MessageKind::SetWindowsError => {
            let s1 = CoreView { mirror: s.mirror.fail_windows_write(f.request_id), ..s };
            let (s2, a2) = windows_write_failed_spec(s1, lossy_utf8(f.payload), a);
            lemma_drain_wf(s2, a2);
        },
        _ => {},
    }
}

proof fn law_retry_timer_keeps_invariant(s: CoreView, a: Seq<ActionView>)
    requires
        s.wf(),
        s.sending is None,
    ensures
        retry_timer_spec(s, a).0.wf(),
{
    let s0 = CoreView { retry_scheduled: false, ..s };
    if s0.mirror.pending_windows is None {
        let s1 = CoreView { in_flight: None, ..s0 };
        let (s2, a2) = match s0.in_flight {
            Some(w) => if s1.agent_ready && s1.slots.is_empty() {
                forward_spec(s1, w.text, true, a)
            } else {
                (s1, a)
            },
            None => (s1, a),
        };
        lemma_drain_wf(s2, a2);
    }
}

/// Law: a text that the broker placed on the Windows clipboard (or read from
/// it) is not sent back when Sway offers it: once Sway announces a selection and
/// its text turns out to be that text, nothing is queued for Windows and no frame
/// is sent.
pub proof fn law_windows_text_not_sent_back(s: CoreView, generation: u64, text: Vec<u8>, a: Seq<ActionView>)
    requires
        s.wf(),
        s.mirror.windows_hash == Some(spec_sha256(text@)),
        s.mirror.pending_windows is None,
    ensures
        ({
            let (s1, a1) = wayland_event_spec(s, WaylandEvent::SelectionStarted(generation), a);
            let (s2, a2) = wayland_event_spec(s1, WaylandEvent::Text { generation, text }, a1);
            &&& s2.slots.to_windows is None
            &&& s2.mirror.pending_windows is None
            &&& forall|i: int| a.len() <= i < a2.len() ==> !(a2[i] is Send)
        }),
{
    let (s1, a1) = wayland_event_spec(s, WaylandEvent::SelectionStarted(generation), a);
    assert(a1 == a);
    assert(s1.slots.to_windows is None);
    match accept_wayland_text_spec(text@) {
        Ok(t) => {
            let (m, slots, d) = observe_wayland_text_spec(s1.mirror, s1.slots, t);
            assert(d != WaylandTextDisposition::Forwarded);
            assert(slots.to_windows is None);
        },
        Err(_) => {},
    }
}

/// Law: a Windows text that Sway already holds is not published to Sway again:
/// the agent's report of it changes what the broker knows of Windows, but no
/// `Publish` follows.
pub proof fn law_wayland_text_not_published_back(s: CoreView, f: FrameView, ran_long: bool, a: Seq<ActionView>)
    requires
        s.wf(),
        f.kind == MessageKind::WindowsText,
        s.mirror.wayland_hash == Some(spec_sha256(f.payload)),
        s.slots.to_wayland is None,
    ensures
        ({
            let (s1, a1) = agent_frame_spec(s, f, ran_long, a);
            forall|i: int| a.len() <= i < a1.len() ==> !(a1[i] is Publish)
        }),
{
}

/// Law: the agent is restarted after each loss, but after more than
/// `RESTART_LIMIT` losses in a row, none of them after a long run, the broker
/// gives up: it records why, stops, and schedules no further restart.
pub proof fn law_restart_budget(s: CoreView, reason: Seq<char>, a: Seq<ActionView>)
    requires
        !s.restart_scheduled,
    ensures
        s.agent_restarts < RESTART_LIMIT ==> ({
            let (s1, a1) = lose_agent_spec(s, reason, false, a);
            &&& s1.restart_scheduled
            &&& s1.agent_restarts == s.agent_restarts + 1
            &&& a1.last() == ActionView::ScheduleRestart
            &&& s1.fatal is None <==> s.fatal is None
        }),
        s.agent_restarts >= RESTART_LIMIT ==> ({
            let (s1, a1) = lose_agent_spec(s, reason, false, a);
            &&& !s1.restart_scheduled
            &&& s1.fatal == Some(BrokerErrorView::Exhausted("Windows clipboard agent restart budget exhausted: "@ + reason))
            &&& a1.last() == ActionView::Stop
        }),
        ({
            let (s1, a1) = lose_agent_spec(s, reason, true, a);
            &&& s1.restart_scheduled
            &&& s1.agent_restarts == 1
        }),
{
}

/// Law: a lost agent takes its unacknowledged write with it back into line, and
/// what it reported of Windows is forgotten until the next agent says hello.
pub proof fn law_lost_agent_requeues_write(s: CoreView, reason: Seq<char>, ran_long: bool, a: Seq<ActionView>)
    requires
        s.in_flight is Some,
        s.slots.to_windows is None,
    ensures
        ({
            let (s1, _) = lose_agent_spec(s, reason, ran_long, a);
            &&& s1.slots.to_windows == Some(s.in_flight.unwrap().text)
            &&& s1.slots.to_wayland is None
            &&& s1.in_flight is None
            &&& s1.mirror.pending_windows is None
            &&& !s1.agent_ready
        }),
{
}

/// Law: an inconsistent Hello loses the agent and is otherwise ignored. A
/// consistent one makes the agent ready under its process id, tells the mirror
/// the Windows clipboard's text (or that it has none) at the reported sequence
/// number, queues the startup selection for Sway in `Both` mode only, and then
/// reports the broker running if Sway is ready and delivers what is queued; the
/// agent stays ready under that process id.
pub proof fn law_hello_outcome(s: CoreView, f: FrameView, ran_long: bool, a: Seq<ActionView>)
    requires
        f.kind == MessageKind::Hello,
    ensures
        !hello_consistent(s, f) ==> agent_frame_spec(s, f, ran_long, a) == lose_agent_spec(
            s,
            "Windows clipboard agent sent an inconsistent startup state"@,
            ran_long,
            a,
        ),
        hello_consistent(s, f) ==> ({
            let h = hello_accepted(s, f);
            let (s2, _) = agent_frame_spec(s, f, ran_long, a);
            &&& h.agent_pid == Some(f.request_id as u32)
            &&& h.agent_ready
            &&& h.mirror == match hello_text(f) {
                Some(t) => s.mirror.observe_windows(t.hash, f.sequence),
                None => s.mirror.invalidate_windows(f.sequence),
            }
            &&& s.mode == ClipboardMode::Both ==> h.slots == match startup_windows_selection_spec(
                s.ever_synced,
                hello_windows_changed(s, f),
                f.flags & HELLO_READ_ERROR != 0,
                hello_text(f),
                f.sequence,
            ) {
                Some(sel) => s.slots.windows_selection(sel),
                None => s.slots,
            }
            &&& s.mode != ClipboardMode::Both ==> h.slots == s.slots
            &&& agent_frame_spec(s, f, ran_long, a) == drain_spec(
                if h.wayland_ready {
                    sides_ready_spec(h, a)
                } else {
                    (h, a)
                }.0,
                if h.wayland_ready {
                    sides_ready_spec(h, a)
                } else {
                    (h, a)
                }.1,
            )
            &&& s2.agent_pid == Some(f.request_id as u32)
            &&& s2.agent_ready
        }),
{
}

/// Whether a message is the message of a text error, which names a class of
/// fault (and at most a length), never the text.
pub open spec fn is_text_error_message(m: Seq<char>) -> bool {
    exists|e: TextError| #[trigger] text_error_message(e) == m
}

/// The actions from position `k` on carry no clipboard text into the log or
/// the status file: every logged line is a text error's message, and no status
/// carries an error.
pub open spec fn quiet_since(a: Seq<ActionView>, k: int) -> bool {
    forall|i: int|
        k <= i < a.len() ==> match #[trigger] a[i] {
            ActionView::Log(m) => is_text_error_message(m),
            ActionView::WriteStatus { error, .. } => error is None,
            _ => true,
        }
}

proof fn lemma_push_quiet(a: Seq<ActionView>, k: int, x: ActionView)
    requires
        quiet_since(a, k),
        0 <= k <= a.len(),
        match x {
            ActionView::Log(m) => is_text_error_message(m),
            ActionView::WriteStatus { error, .. } => error is None,
            _ => true,
        },
    ensures
        quiet_since(a.push(x), k),
{
    assert forall|i: int| k <= i < a.push(x).len() implies match #[trigger] a.push(x)[i] {
        ActionView::Log(m) => is_text_error_message(m),
        ActionView::WriteStatus { error, .. } => error is None,
        _ => true,
    } by {
        if i < a.len() {
            assert(a.push(x)[i] == a[i]);
        }
    }
}

proof fn lemma_drain_quiet(s: CoreView, a: Seq<ActionView>, k: int)
    requires
        quiet_since(a, k),
        0 <= k <= a.len(),
    ensures
        quiet_since(drain_spec(s, a).1, k),
        a.len() <= drain_spec(s, a).1.len(),
        drain_spec(s, a).1.subrange(0, a.len() as int) == a,
{
    if !(!s.wayland_ready || !s.agent_ready || s.mirror.pending_windows is Some) {
        let (slots1, d) = s.slots.take();
        if let Some(d) = d {
            let s1 = CoreView { slots: slots1, in_flight: None, ..s };
            match d {
                DeliveryView::ToWayland(SelectionView::Text(t, sequence)) => {
                    match utf8_text(t.text) {
                        Err(e) => {
                            assert(is_text_error_message(text_error_message(e)));
                            lemma_push_quiet(a, k, ActionView::Log(text_error_message(e)));
                        },
                        Ok(_) => {
                            lemma_push_quiet(a, k, ActionView::Publish(t.text));
                        },
                    }
                },
                DeliveryView::ToWayland(SelectionView::Unavailable(sequence)) => {},
                DeliveryView::ToWindows(t) => {
                    let m1 = s1.mirror.begin_windows_write(t.hash);
                    lemma_push_quiet(a, k, ActionView::Send(set_text_frame(m1.next_request_id, t.text)));
                },
            }
        }
    }
    assert(drain_spec(s, a).1.subrange(0, a.len() as int) =~= a);
}

proof fn lemma_described_quiet(s: CoreView, a: Seq<ActionView>, k: int)
    requires
        quiet_since(a, k),
        0 <= k <= a.len(),
    ensures
        quiet_since(described_spec(s, a).1, k),
        a.len() <= described_spec(s, a).1.len(),
{
    let (s1, a1) = if !s.wayland_ready {
        let s0 = CoreView { wayland_ready: true, ..s };
        if s0.agent_ready {
            lemma_push_quiet(a, k, ActionView::WriteStatus { health: Health::Running, agent_pid: s0.agent_pid, error: None });
            sides_ready_spec(s0, a)
        } else {
            (s0, a)
        }
    } else {
        (s, a)
    };
    lemma_drain_quiet(s1, a1, k);
}

/// Law: a step that carries clipboard text (Sway's text, the Windows
/// clipboard's text or its absence, or a consistent Hello) never puts that text
/// into the log or the status file: every line it logs is a text error's
/// message, and every status it writes carries no error.
pub proof fn law_clipboard_text_is_never_logged(
    s: CoreView,
    generation: u64,
    text: Vec<u8>,
    f: FrameView,
    ran_long: bool,
    a: Seq<ActionView>,
)
    ensures
        quiet_since(wayland_event_spec(s, WaylandEvent::Text { generation, text }, a).1, a.len() as int),
        f.kind == MessageKind::WindowsText || f.kind == MessageKind::WindowsUnavailable ==> quiet_since(
            agent_frame_spec(s, f, ran_long, a).1,
            a.len() as int,
        ),
        f.kind == MessageKind::Hello && hello_consistent(s, f) ==> quiet_since(
            agent_frame_spec(s, f, ran_long, a).1,
            a.len() as int,
        ),
{
    let k = a.len() as int;
    assert(quiet_since(a, k));
    if generation == s.latest_wayland_generation {
        let (s1, a1) = match accept_wayland_text_spec(text@) {
            Ok(t) => {
                let (m, slots, d) = observe_wayland_text_spec(s.mirror, s.slots, t);
                let s1 = CoreView { mirror: m, slots, ..s };
                if d == WaylandTextDisposition::WindowsEcho && s.agent_ready {
                    lemma_push_quiet(a, k, ActionView::WriteStatus { health: Health::Running, agent_pid: s1.agent_pid, error: None });
                    (s1, status_action(s1, Health::Running, None, a))
                } else {
                    (s1, a)
                }
            },
            Err(error) => {
                match error {
                    Some(m) => {
                        let e = choose|e: TextError| utf8_text(text@) == Err::<Seq<char>, TextError>(e);
                        assert(text_error_message(e) == m);
                        assert(is_text_error_message(m));
                        lemma_push_quiet(a, k, ActionView::Log(m));
                    },
                    None => {},
                }
                withdraw_spec(s, error, a)
            },
        };
        lemma_described_quiet(s1, a1, k);
    }
    if s.mode == ClipboardMode::Both && (f.kind == MessageKind::WindowsText || f.kind == MessageKind::WindowsUnavailable) {
        let sel = if f.kind == MessageKind::WindowsText && f.payload.len() > 0 {
            SelectionView::Text(hashed(f.payload), f.sequence)
        } else {
            SelectionView::Unavailable(f.sequence)
        };
        lemma_drain_quiet(CoreView { slots: s.slots.windows_selection(sel), ..s }, a, k);
    }
    if f.kind == MessageKind::Hello && hello_consistent(s, f) {
        let s2 = hello_accepted(s, f);
        if s2.wayland_ready {
            lemma_push_quiet(a, k, ActionView::WriteStatus { health: Health::Running, agent_pid: s2.agent_pid, error: None });
            let (s3, a3) = sides_ready_spec(s2, a);
            lemma_drain_quiet(s3, a3, k);
        } else {
            lemma_drain_quiet(s2, a, k);
        }
    }
}

/// Law: once Windows acknowledges our write with sequence number `q`, a
/// Windows selection reported before it (not newer than `q`) is dropped: it is
/// not published to Sway, and Windows is known to hold the written text at `q`,
/// so no stale selection overwrites Sway's. A selection newer than `q` is kept,
/// and delivered at once when Sway is ready.
pub proof fn law_ack_drops_older_windows_selections(
    s: CoreView,
    f: FrameView,
    ran_long: bool,
    a: Seq<ActionView>,
)
    requires
        s.wf(),
        f.kind == MessageKind::SetWindowsOk,
        s.mirror.acknowledges(f.request_id),
    ensures
        ({
            let (s1, a1) = agent_frame_spec(s, f, ran_long, a);
            let stale = match s.slots.to_wayland {
                Some(sel) => !sequence_is_newer_spec(sel.sequence(), f.sequence),
                None => true,
            };
            &&& stale ==> forall|i: int| a.len() <= i < a1.len() ==> !(#[trigger] a1[i] is Publish)
            &&& stale ==> s1.mirror.windows_hash == Some(s.mirror.pending_windows.unwrap().hash)
            &&& stale ==> s1.mirror.windows_sequence == Some(f.sequence)
            &&& stale ==> s1.slots.to_wayland is None
            &&& !stale && !s.wayland_ready ==> s1.slots.to_wayland == s.slots.to_wayland
            &&& !stale && s.wayland_ready ==> s1.slots.to_wayland is None && s1.mirror.windows_sequence == Some(
                s.slots.to_wayland.unwrap().sequence(),
            )
        }),
{
    let s1 = CoreView {
        mirror: s.mirror.commit_windows_write(f.request_id, f.sequence),
        in_flight: None,
        slots: s.slots.windows_write_committed(f.sequence),
        ..s
    };
    let a0 = status_action(s1, Health::Running, None, a);
    if s1.slots.to_wayland is None {
        lemma_drain_no_publish_without_windows(s1, a0, a.len() as int);
    }
}

/// Draining without a queued Windows selection publishes nothing and leaves
/// what the mirror knows of Windows alone.
proof fn lemma_drain_no_publish_without_windows(s: CoreView, a: Seq<ActionView>, k: int)
    requires
        s.slots.to_wayland is None,
        0 <= k <= a.len(),
        forall|i: int| k <= i < a.len() ==> !(#[trigger] a[i] is Publish),
    ensures
        forall|i: int| k <= i < drain_spec(s, a).1.len() ==> !(#[trigger] drain_spec(s, a).1[i] is Publish),
        drain_spec(s, a).0.mirror.windows_hash == s.mirror.windows_hash,
        drain_spec(s, a).0.mirror.windows_sequence == s.mirror.windows_sequence,
        drain_spec(s, a).0.slots.to_wayland is None,
{
    let (s1, a1) = drain_spec(s, a);
    assert forall|i: int| k <= i < a1.len() implies !(#[trigger] a1[i] is Publish) by {
        if i >= a.len() {
            assert(a1[i] is Send);
        }
    }
}

/// Law: delivering a Windows selection to Sway records it in the mirror at its
/// sequence number. One without text makes the broker forget the Windows text
/// it knew, so no earlier text is taken for a Windows echo afterwards; one with
/// valid text is published unless Sway holds it already.
pub proof fn law_delivered_windows_selection_is_recorded(s: CoreView, a: Seq<ActionView>)
    requires
        s.wayland_ready,
        s.agent_ready,
        s.mirror.pending_windows is None,
        s.slots.to_wayland is Some,
    ensures
        ({
            let (s1, a1) = drain_spec(s, a);
            &&& s1.slots.to_wayland is None
            &&& s1.slots.to_windows is None
            &&& s1.mirror.windows_sequence == Some(s.slots.to_wayland.unwrap().sequence())
            &&& (s.slots.to_wayland matches Some(SelectionView::Unavailable(_))) ==> {
                &&& s1.mirror.windows_hash is None
                &&& forall|h: Seq<u8>| !s1.mirror.is_windows_echo(h)
                &&& a1 == a
            }
            &&& s.slots.to_wayland matches Some(SelectionView::Text(t, _)) ==> (utf8_text(t.text) is Ok ==> {
                &&& s1.mirror.windows_hash == Some(t.hash)
                &&& !s.mirror.is_wayland_echo(t.hash) ==> a1 == a.push(ActionView::Publish(t.text))
                &&& s.mirror.is_wayland_echo(t.hash) ==> a1 == a
            })
        }),
{
}

/// Law: with both sides ready and no write under way, a queued Sway text and no
/// queued Windows selection is delivered: unless Windows holds that text
/// already, it is sent to Windows under a fresh request id and becomes the
/// pending write; the queue ends empty and nothing is published to Sway.
pub proof fn law_drain_sends_sway_text(s: CoreView, a: Seq<ActionView>)
    requires
        s.wf(),
        s.wayland_ready,
        s.agent_ready,
        s.mirror.pending_windows is None,
        s.slots.to_wayland is None,
        s.slots.to_windows is Some,
    ensures
        ({
            let t = s.slots.to_windows.unwrap();
            let (s1, a1) = drain_spec(s, a);
            let id = next_request_id(s.mirror.next_request_id);
            &&& s1.slots.to_windows is None
            &&& s1.slots.to_wayland is None
            &&& s.mirror.windows_hash != Some(t.hash) ==> {
                &&& a1 == a.push(ActionView::Send(set_text_frame(id, t.text)))
                &&& s1.mirror.pending_windows == Some(PendingView { request_id: id, hash: t.hash })
            }
            &&& s.mirror.windows_hash == Some(t.hash) ==> a1 == a && s1.mirror == s.mirror
        }),
{
}

/// Law: a write that Windows refused does not hold up the queue. When the
/// agent's refusal arrives and Sway is ready, what is queued is delivered in
/// the same step: the queue ends empty, a queued Sway text (and no Windows
/// selection) that Windows does not hold is sent to Windows, and a queued valid
/// Windows text that Sway does not hold is published to Sway.
pub proof fn law_refused_write_drains_queue(s: CoreView, f: FrameView, ran_long: bool, a: Seq<ActionView>)
    requires
        s.wf(),
        f.kind == MessageKind::SetWindowsError,
        s.mirror.acknowledges(f.request_id),
        s.wayland_ready,
    ensures
        ({
            let (s1, a1) = agent_frame_spec(s, f, ran_long, a);
            &&& s1.slots.to_wayland is None
            &&& s1.slots.to_windows is None
            &&& s.slots.to_windows matches Some(t) ==> (s.slots.to_wayland is None && s.mirror.windows_hash
                != Some(t.hash) ==> exists|i: int|
                a.len() <= i < a1.len() && #[trigger] a1[i] == ActionView::Send(
                    set_text_frame(next_request_id(s.mirror.next_request_id), t.text),
                ))
            &&& s.slots.to_wayland matches Some(SelectionView::Text(w, _)) ==> (utf8_text(w.text) is Ok
                && !s.mirror.is_wayland_echo(w.hash) ==> exists|i: int|
                a.len() <= i < a1.len() && #[trigger] a1[i] == ActionView::Publish(w.text))
        }),
{
    let s1 = CoreView { mirror: s.mirror.fail_windows_write(f.request_id), ..s };
    let (s2, a2) = windows_write_failed_spec(s1, lossy_utf8(f.payload), a);
    assert(s2.slots == s.slots);
    assert(s2.wayland_ready && s2.agent_ready && s2.mirror.pending_windows is None);
    assert(s2.mirror.windows_hash == s.mirror.windows_hash);
    assert(s2.mirror.wayland_hash == s.mirror.wayland_hash);
    assert(s2.mirror.pending_wayland == s.mirror.pending_wayland);
    assert(a.len() <= a2.len());
    let (s3, a3) = drain_spec(s2, a2);
    if s.slots.to_wayland is None && s.slots.to_windows is Some {
        let t = s.slots.to_windows.unwrap();
        if s.mirror.windows_hash != Some(t.hash) {
            assert(a3[a2.len() as int] == ActionView::Send(
                set_text_frame(next_request_id(s.mirror.next_request_id), t.text),
            ));
        }
    }
    if let Some(SelectionView::Text(w, _)) = s.slots.to_wayland {
        if utf8_text(w.text) is Ok && !s.mirror.is_wayland_echo(w.hash) {
            assert(a3[a2.len() as int] == ActionView::Publish(w.text));
        }
    }
}

} // verus!
