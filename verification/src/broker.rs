//! The broker's delivery decisions: which selection of which side goes to the
//! other side, and when.

use vstd::prelude::*;

use crate::error::{IoError, IoErrorKind};
use crate::state::{hash_view, spec_sha256, MirrorState, MirrorView, TextHash};
use crate::strings::{concat, str_eq};
use crate::text::{text_error_message, utf8_text, validate_utf8};

verus! {

/// `std::path::PathBuf`, carried through the configuration.
#[verifier::external_type_specification]
#[verifier::external_body]
pub struct ExPathBuf(std::path::PathBuf);

#[derive(Clone, Copy, Debug, Eq, PartialEq, Structural)]
pub enum ClipboardMode {
    Both,
    ToWindows,
}

impl ClipboardMode {
    /// The mode named by the value of `ARCH_SWAY_WSLG_CLIPBOARD`; an unset
    /// variable means `both`.
    pub fn from_value(value: Option<&str>) -> (r: Result<ClipboardMode, BrokerError>)
        ensures
            match value {
                None => r == Ok::<ClipboardMode, BrokerError>(ClipboardMode::Both),
                Some(v) => if v@ == "both"@ {
                    r == Ok::<ClipboardMode, BrokerError>(ClipboardMode::Both)
                } else if v@ == "to-windows"@ {
                    r == Ok::<ClipboardMode, BrokerError>(ClipboardMode::ToWindows)
                } else {
                    r matches Err(BrokerError::Configuration(m)) && m@
                        == "invalid ARCH_SWAY_WSLG_CLIPBOARD value: "@ + v@
                },
            },
    {
        match value {
            None => Ok(ClipboardMode::Both),
            Some(v) => if str_eq(v, "both") {
                Ok(ClipboardMode::Both)
            } else if str_eq(v, "to-windows") {
                Ok(ClipboardMode::ToWindows)
            } else {
                Err(BrokerError::Configuration(concat("invalid ARCH_SWAY_WSLG_CLIPBOARD value: ", v)))
            },
        }
    }

    pub fn as_str(self) -> (s: &'static str)
        ensures
            self == ClipboardMode::Both ==> s@ == "both"@,
            self == ClipboardMode::ToWindows ==> s@ == "to-windows"@,
    {
        match self {
            ClipboardMode::Both => "both",
            ClipboardMode::ToWindows => "to-windows",
        }
    }
}

pub struct BrokerConfig {
    pub mode: ClipboardMode,
    pub sync_sensitive: bool,
    pub runtime_dir: std::path::PathBuf,
    pub agent: std::path::PathBuf,
}

#[derive(Debug, PartialEq, Eq)]
pub enum BrokerError {
    Configuration(String),
    Wayland(String),
    Exhausted(String),
    EventLoop(String),
    Io(IoError),
}

pub enum BrokerErrorView {
    Configuration(Seq<char>),
    Wayland(Seq<char>),
    Exhausted(Seq<char>),
    EventLoop(Seq<char>),
    Io(IoErrorKind, Seq<char>),
}

impl View for BrokerError {
    type V = BrokerErrorView;

    open spec fn view(&self) -> BrokerErrorView {
        match self {
            BrokerError::Configuration(m) => BrokerErrorView::Configuration(m@),
            BrokerError::Wayland(m) => BrokerErrorView::Wayland(m@),
            BrokerError::Exhausted(m) => BrokerErrorView::Exhausted(m@),
            BrokerError::EventLoop(m) => BrokerErrorView::EventLoop(m@),
            BrokerError::Io(io) => BrokerErrorView::Io(io.kind, io.message@),
        }
    }
}

/// Exit status for a failure another start would only repeat; the launcher
/// excludes it from `Restart=on-failure` so the clipboard stays down instead
/// of cycling through the start limit for the rest of the session.
pub const GAVE_UP: i32 = 3;

/// The message of a broker error.
pub open spec fn broker_error_message(e: BrokerErrorView) -> Seq<char> {
    match e {
        BrokerErrorView::Configuration(m) => "configuration error: "@ + m,
        BrokerErrorView::Wayland(m) => "Wayland connection failed: "@ + m,
        BrokerErrorView::Exhausted(m) => m,
        BrokerErrorView::EventLoop(m) => "event loop failed: "@ + m,
        BrokerErrorView::Io(_, m) => m,
    }
}

impl BrokerError {
    pub fn exit_code(&self) -> (code: i32)
        ensures
            code == match self {
                BrokerError::Configuration(_) | BrokerError::Wayland(_) | BrokerError::Exhausted(_) => GAVE_UP,
                BrokerError::EventLoop(_) | BrokerError::Io(_) => 1,
            },
    {
        match self {
            BrokerError::Configuration(_) | BrokerError::Wayland(_) | BrokerError::Exhausted(_) => GAVE_UP,
            BrokerError::EventLoop(_) | BrokerError::Io(_) => 1,
        }
    }

    /// The error's message.
    pub fn message(&self) -> (s: String)
        ensures
            s@ == broker_error_message(self@),
    {
        match self {
            BrokerError::Configuration(m) => concat("configuration error: ", m.as_str()),
            BrokerError::Wayland(m) => concat("Wayland connection failed: ", m.as_str()),
            BrokerError::Exhausted(m) => String::from_str(m.as_str()),
            BrokerError::EventLoop(m) => concat("event loop failed: ", m.as_str()),
            BrokerError::Io(io) => String::from_str(io.message.as_str()),
        }
    }
}

/// A text and its digest, computed once when the text enters the broker.
#[derive(Debug, Eq, PartialEq)]
pub struct HashedText {
    pub text: Vec<u8>,
    pub hash: TextHash,
}

pub struct HashedView {
    pub text: Seq<u8>,
    pub hash: Seq<u8>,
}

impl View for HashedText {
    type V = HashedView;

    open spec fn view(&self) -> HashedView {
        HashedView { text: self.text@, hash: self.hash@ }
    }
}

/// The view of a text whose digest was computed from it.
pub open spec fn hashed(text: Seq<u8>) -> HashedView {
    HashedView { text, hash: spec_sha256(text) }
}

impl HashedText {
    pub fn new(text: Vec<u8>) -> (h: Self)
        ensures
            h@ == hashed(text@),
    {
        let hash = MirrorState::hash(text.as_slice());
        HashedText { text, hash }
    }
}

#[derive(Debug, Eq, PartialEq)]
pub enum WindowsSelection {
    Text(HashedText, u32),
    Unavailable(u32),
}

pub enum SelectionView {
    Text(HashedView, u32),
    Unavailable(u32),
}

impl SelectionView {
    pub open spec fn sequence(self) -> u32 {
        match self {
            SelectionView::Text(_, s) => s,
            SelectionView::Unavailable(s) => s,
        }
    }
}

impl View for WindowsSelection {
    type V = SelectionView;

    open spec fn view(&self) -> SelectionView {
        match self {
            WindowsSelection::Text(t, s) => SelectionView::Text(t@, *s),
            WindowsSelection::Unavailable(s) => SelectionView::Unavailable(*s),
        }
    }
}

impl WindowsSelection {
    pub fn sequence(&self) -> (s: u32)
        ensures
            s == self@.sequence(),
    {
        match self {
            WindowsSelection::Text(_, sequence) => *sequence,
            WindowsSelection::Unavailable(sequence) => *sequence,
        }
    }
}

pub open spec fn hashed_view(t: Option<HashedText>) -> Option<HashedView> {
    match t {
        Some(t) => Some(t@),
        None => None,
    }
}

pub open spec fn selection_view(s: Option<WindowsSelection>) -> Option<SelectionView> {
    match s {
        Some(s) => Some(s@),
        None => None,
    }
}

/// The newest selection of each side that has not reached the other side yet.
///
/// A slot fills while the peer is not ready or a Windows write is in flight and
/// is drained as soon as both directions are idle. When both slots hold something
/// the Windows selection wins: its sequence number proves it postdates everything
/// the broker committed, whereas the Sway text's order relative to it is unknown.
#[derive(Debug)]
pub struct SyncSlots {
    to_windows: Option<HashedText>,
    to_wayland: Option<WindowsSelection>,
}

pub struct SlotsView {
    pub to_windows: Option<HashedView>,
    pub to_wayland: Option<SelectionView>,
}

impl View for SyncSlots {
    type V = SlotsView;

    closed spec fn view(&self) -> SlotsView {
        SlotsView { to_windows: hashed_view(self.to_windows), to_wayland: selection_view(self.to_wayland) }
    }
}

#[derive(Debug, Eq, PartialEq)]
pub enum Delivery {
    ToWindows(HashedText),
    ToWayland(WindowsSelection),
}

pub enum DeliveryView {
    ToWindows(HashedView),
    ToWayland(SelectionView),
}

impl View for Delivery {
    type V = DeliveryView;

    open spec fn view(&self) -> DeliveryView {
        match self {
            Delivery::ToWindows(t) => DeliveryView::ToWindows(t@),
            Delivery::ToWayland(s) => DeliveryView::ToWayland(s@),
        }
    }
}

/// Whether `candidate` is a later Windows clipboard sequence number than
/// `current`, counting modulo 2^32: less than half the circle ahead.
pub open spec fn sequence_is_newer_spec(candidate: u32, current: u32) -> bool {
    candidate != current && (candidate as int - current as int) % 0x1_0000_0000 < 0x8000_0000
}

impl SlotsView {
    pub open spec fn wayland_text(self, text: HashedView) -> SlotsView {
        SlotsView { to_windows: Some(text), ..self }
    }

    pub open spec fn wayland_non_text(self) -> SlotsView {
        SlotsView { to_windows: None, ..self }
    }

    pub open spec fn windows_selection(self, selection: SelectionView) -> SlotsView {
        SlotsView { to_wayland: Some(selection), ..self }
    }

    pub open spec fn agent_lost(self) -> SlotsView {
        SlotsView { to_wayland: None, ..self }
    }

    pub open spec fn requeue(self, text: HashedView) -> SlotsView {
        if self.to_windows is None {
            SlotsView { to_windows: Some(text), ..self }
        } else {
            self
        }
    }

    pub open spec fn is_empty(self) -> bool {
        self.to_windows is None && self.to_wayland is None
    }

    /// A Windows selection observed before a write of ours that Windows
    /// acknowledged with `sequence` is stale and leaves its slot.
    pub open spec fn windows_write_committed(self, sequence: u32) -> SlotsView {
        match self.to_wayland {
            Some(sel) => if !sequence_is_newer_spec(sel.sequence(), sequence) {
                SlotsView { to_wayland: None, ..self }
            } else {
                self
            },
            None => self,
        }
    }

    /// The next delivery: the Windows selection first (which makes the Sway text
    /// obsolete), else the Sway text.
    pub open spec fn take(self) -> (SlotsView, Option<DeliveryView>) {
        match self.to_wayland {
            Some(sel) => (SlotsView { to_wayland: None, to_windows: None }, Some(DeliveryView::ToWayland(sel))),
            None => match self.to_windows {
                Some(t) => (SlotsView { to_windows: None, ..self }, Some(DeliveryView::ToWindows(t))),
                None => (self, None),
            },
        }
    }
}

impl Default for SyncSlots {
    fn default() -> (s: Self)
        ensures
            s@ == (SlotsView { to_windows: None, to_wayland: None }),
    {
        SyncSlots { to_windows: None, to_wayland: None }
    }
}

impl SyncSlots {
    /// Sway holds new text: it replaces any queued Sway text.
    pub fn wayland_text(&mut self, text: HashedText)
        ensures
            final(self)@ == old(self)@.wayland_text(text@),
    {
        self.to_windows = Some(text);
    }

    /// Sway holds something that is not text: nothing of Sway's is to be sent.
    pub fn wayland_non_text(&mut self)
        ensures
            final(self)@ == old(self)@.wayland_non_text(),
    {
        self.to_windows = None;
    }

    /// Windows holds a new selection: it replaces any queued Windows selection.
    pub fn windows_selection(&mut self, selection: WindowsSelection)
        ensures
            final(self)@ == old(self)@.windows_selection(selection@),
    {
        self.to_wayland = Some(selection);
    }

    /// The next Hello re-describes the Windows side; the Sway text waits for it.
    pub fn agent_lost(&mut self)
        ensures
            final(self)@ == old(self)@.agent_lost(),
    {
        self.to_wayland = None;
    }

    /// A write the agent never acknowledged goes back in line unless Sway moved on.
    pub fn requeue_windows_write(&mut self, text: HashedText)
        ensures
            final(self)@ == old(self)@.requeue(text@),
    {
        if self.to_windows.is_none() {
            self.to_windows = Some(text);
        }
    }

    /// A Windows selection observed before our own write landed is stale.
    pub fn windows_write_committed(&mut self, sequence: u32)
        ensures
            final(self)@ == old(self)@.windows_write_committed(sequence),
    {
        let stale = match &self.to_wayland {
            Some(selection) => !sequence_is_newer(selection.sequence(), sequence),
            None => false,
        };
        if stale {
            self.to_wayland = None;
        }
    }

    pub fn is_empty(&self) -> (r: bool)
        ensures
            r == self@.is_empty(),
    {
        self.to_windows.is_none() && self.to_wayland.is_none()
    }

    pub fn take(&mut self) -> (d: Option<Delivery>)
        ensures
            (final(self)@, match d {
                Some(d) => Some(d@),
                None => None::<DeliveryView>,
            }) == old(self)@.take(),
    {
        match self.to_wayland.take() {
            Some(selection) => {
                self.to_windows = None;
                Some(Delivery::ToWayland(selection))
            },
            None => match self.to_windows.take() {
                Some(text) => Some(Delivery::ToWindows(text)),
                None => None,
            },
        }
    }
}

#[derive(Debug, Eq, PartialEq, Structural)]
pub enum WaylandTextDisposition {
    Duplicate,
    WindowsEcho,
    Forwarded,
}

/// How a new Sway text is classified, and what it does to the mirror and the
/// slots: the text hash, not the order of events, identifies an echo.
pub open spec fn observe_wayland_text_spec(m: MirrorView, slots: SlotsView, text: HashedView) -> (
    MirrorView,
    SlotsView,
    WaylandTextDisposition,
) {
    if m.is_wayland_echo(text.hash) {
        (m, slots, WaylandTextDisposition::Duplicate)
    } else if m.observe_wayland(text.hash).is_windows_echo(text.hash) {
        (m.observe_wayland(text.hash), slots, WaylandTextDisposition::WindowsEcho)
    } else {
        (m.observe_wayland(text.hash), slots.wayland_text(text), WaylandTextDisposition::Forwarded)
    }
}

pub fn observe_wayland_text(mirror: &mut MirrorState, slots: &mut SyncSlots, text: HashedText) -> (d: WaylandTextDisposition)
    ensures
        (final(mirror)@, final(slots)@, d) == observe_wayland_text_spec(old(mirror)@, old(slots)@, text@),
{
    if mirror.is_wayland_echo(&text.hash) {
        return WaylandTextDisposition::Duplicate;
    }
    mirror.observe_wayland(text.hash);
    if mirror.is_windows_echo(&text.hash) {
        WaylandTextDisposition::WindowsEcho
    } else {
        slots.wayland_text(text);
        WaylandTextDisposition::Forwarded
    }
}

/// What to do with a Windows write the agent has just refused.
#[derive(Debug, Eq, PartialEq, Structural)]
pub enum WriteFailure {
    Retry,
    /// A newer selection on either side is about to replace the text anyway.
    Superseded,
    Exhausted,
}

pub open spec fn write_failure_spec(retried: bool, slots: SlotsView) -> WriteFailure {
    if !slots.is_empty() {
        WriteFailure::Superseded
    } else if retried {
        WriteFailure::Exhausted
    } else {
        WriteFailure::Retry
    }
}

/// A refused write is retried once, unless something newer is queued.
pub fn write_failure(retried: bool, slots: &SyncSlots) -> (f: WriteFailure)
    ensures
        f == write_failure_spec(retried, slots@),
{
    if !slots.is_empty() {
        WriteFailure::Superseded
    } else if retried {
        WriteFailure::Exhausted
    } else {
        WriteFailure::Retry
    }
}

pub fn sequence_is_newer(candidate: u32, current: u32) -> (r: bool)
    ensures
        r == sequence_is_newer_spec(candidate, current),
{
    let difference: u32 = if candidate >= current {
        candidate - current
    } else {
        (u32::MAX - current) + candidate + 1
    };
    assert(difference as int == (candidate as int - current as int) % 0x1_0000_0000);
    candidate != current && difference < 0x8000_0000
}

/// Law: of two different sequence numbers at most one is newer than the other,
/// and a number is never newer than itself.
pub proof fn law_sequence_order_is_asymmetric(a: u32, b: u32)
    ensures
        !sequence_is_newer_spec(a, a),
        sequence_is_newer_spec(a, b) ==> !sequence_is_newer_spec(b, a),
{
}

/// What the broker makes of a Sway selection's bytes: an empty read is "no text"
/// (`Err(None)`), text that is not acceptable is an error with its message.
pub open spec fn accept_wayland_text_spec(text: Seq<u8>) -> Result<HashedView, Option<Seq<char>>> {
    if text.len() == 0 {
        Err(None)
    } else {
        match utf8_text(text) {
            Err(e) => Err(Some(text_error_message(e))),
            Ok(_) => Ok(hashed(text)),
        }
    }
}

/// Decides whether a Sway selection is text worth forwarding.
///
/// An empty read is what a crashed source, a source that closed its pipe without
/// writing, or a refused transfer looks like; forwarding it would wipe the
/// Windows clipboard, so it counts as "no text" rather than as text.
pub fn accept_wayland_text(text: Vec<u8>) -> (r: Result<HashedText, Option<String>>)
    ensures
        match r {
            Ok(h) => accept_wayland_text_spec(text@) == Ok::<HashedView, Option<Seq<char>>>(h@),
            Err(None) => accept_wayland_text_spec(text@) == Err::<HashedView, Option<Seq<char>>>(None),
            Err(Some(m)) => accept_wayland_text_spec(text@) == Err::<HashedView, Option<Seq<char>>>(Some(m@)),
        },
{
    if text.len() == 0 {
        return Err(None);
    }
    match validate_utf8(text.as_slice()) {
        Err(error) => return Err(Some(error.message())),
        Ok(_) => {},
    }
    Ok(HashedText::new(text))
}

/// Which Windows selection a Hello puts in line, if any.
pub open spec fn startup_windows_selection_spec(
    ever_synced: bool,
    windows_changed: bool,
    read_error: bool,
    text: Option<HashedView>,
    sequence: u32,
) -> Option<SelectionView> {
    let windows_has_priority = (!ever_synced && text is Some) || (ever_synced && windows_changed);
    if windows_has_priority {
        Some(
            match text {
                Some(t) => SelectionView::Text(t, sequence),
                None => SelectionView::Unavailable(sequence),
            },
        )
    } else if read_error {
        Some(SelectionView::Unavailable(sequence))
    } else {
        None
    }
}

pub fn startup_windows_selection(
    ever_synced: bool,
    windows_changed: bool,
    read_error: bool,
    text: Option<HashedText>,
    sequence: u32,
) -> (r: Option<WindowsSelection>)
    ensures
        selection_view(r) == startup_windows_selection_spec(
            ever_synced,
            windows_changed,
            read_error,
            hashed_view(text),
            sequence,
        ),
{
    let has_text = text.is_some();
    let windows_has_priority = (!ever_synced && has_text) || (ever_synced && windows_changed);
    if windows_has_priority {
        Some(
            match text {
                Some(text) => WindowsSelection::Text(text, sequence),
                None => WindowsSelection::Unavailable(sequence),
            },
        )
    } else if read_error {
        Some(WindowsSelection::Unavailable(sequence))
    } else {
        None
    }
}

/// Law: when both sides have something queued, the Windows selection is
/// delivered and the Sway text is dropped; a Sway text is delivered only when no
/// Windows selection is queued. Nothing is delivered from empty slots, and a
/// delivery empties the slot it came from.
pub proof fn law_windows_selection_wins(s: SlotsView)
    ensures
        s.to_wayland matches Some(sel) ==> s.take() == (
            SlotsView { to_windows: None, to_wayland: None },
            Some(DeliveryView::ToWayland(sel)),
        ),
        (s.to_wayland is None && s.to_windows is Some) ==> s.take() == (
            SlotsView { to_windows: None, to_wayland: None },
            Some(DeliveryView::ToWindows(s.to_windows.unwrap())),
        ),
        s.is_empty() ==> s.take() == (s, None::<DeliveryView>),
        s.take().0.is_empty() || (s.to_wayland is None && s.to_windows is None),
{
}

/// Law: a requeued write never displaces newer Sway text, and a committed write
/// keeps exactly the Windows selections that are newer than it.
pub proof fn law_requeue_and_commit(s: SlotsView, sequence: u32)
    ensures
        s.windows_write_committed(sequence).to_windows == s.to_windows,
        s.to_wayland matches Some(sel) ==> (s.windows_write_committed(sequence).to_wayland is Some
            <==> sequence_is_newer_spec(sel.sequence(), sequence)),
{
}

/// Law: which side wins when an agent says hello. Before the first sync a
/// startup text of Windows wins, and without one Sway's text may go to Windows
/// unless the snapshot could not be read. Once synced, Windows wins only when
/// its clipboard changed since the broker last knew it; an unchanged Windows
/// clipboard queues nothing, so Sway text copied while the agent was away still
/// reaches Windows. A selection that is queued always carries the Hello's
/// sequence number, and its text is the Hello's text.
pub proof fn law_startup_priority(
    ever_synced: bool,
    windows_changed: bool,
    read_error: bool,
    text: Option<HashedView>,
    sequence: u32,
)
    ensures
        ever_synced && !windows_changed && !read_error ==> startup_windows_selection_spec(
            ever_synced,
            windows_changed,
            read_error,
            text,
            sequence,
        ) is None,
        ever_synced && !windows_changed && read_error ==> startup_windows_selection_spec(
            ever_synced,
            windows_changed,
            read_error,
            text,
            sequence,
        ) == Some(SelectionView::Unavailable(sequence)),
        !ever_synced && text is Some ==> startup_windows_selection_spec(
            ever_synced,
            windows_changed,
            read_error,
            text,
            sequence,
        ) == Some(SelectionView::Text(text.unwrap(), sequence)),
        !ever_synced && text is None && !read_error ==> startup_windows_selection_spec(
            ever_synced,
            windows_changed,
            read_error,
            text,
            sequence,
        ) is None,
        !ever_synced && text is None && read_error ==> startup_windows_selection_spec(
            ever_synced,
            windows_changed,
            read_error,
            text,
            sequence,
        ) == Some(SelectionView::Unavailable(sequence)),
        ever_synced && windows_changed ==> startup_windows_selection_spec(
            ever_synced,
            windows_changed,
            read_error,
            text,
            sequence,
        ) == Some(
            match text {
                Some(t) => SelectionView::Text(t, sequence),
                None => SelectionView::Unavailable(sequence),
            },
        ),
{
}

} // verus!
