//! Echo suppression for both directions of the mirror.

use sha2::{Digest, Sha256};
use vstd::prelude::*;

verus! {

/// The SHA-256 digest of a clipboard text.
pub type TextHash = [u8; 32];

/// What SHA-256 gives for `data`.
pub uninterp spec fn spec_sha256(data: Seq<u8>) -> Seq<u8>;

/// `sha2::Sha256::digest`: the 32-byte SHA-256 digest of `text`, a function of
/// the bytes alone. Nothing else is claimed of it.
#[verifier::external_body]
fn sha256(text: &[u8]) -> (h: TextHash)
    ensures
        h@ == spec_sha256(text@),
{
    Sha256::digest(text).into()
}

/// Compares two digests byte by byte.
pub fn hash_eq(a: &TextHash, b: &TextHash) -> (r: bool)
    ensures
        r == (a@ == b@),
{
    let mut i: usize = 0;
    while i < 32
        invariant
            i <= 32,
            a@.len() == 32,
            b@.len() == 32,
            forall|j: int| 0 <= j < i ==> a@[j] == b@[j],
        decreases 32 - i,
    {
        if a[i] != b[i] {
            assert(a@[i as int] != b@[i as int]);
            return false;
        }
        i = i + 1;
    }
    assert(a@ =~= b@);
    true
}

/// A Windows clipboard write the agent has not acknowledged yet.
#[derive(Clone, Debug, Eq, PartialEq)]
pub struct PendingWrite {
    pub request_id: u64,
    pub hash: TextHash,
}

pub struct PendingView {
    pub request_id: u64,
    pub hash: Seq<u8>,
}

impl View for PendingWrite {
    type V = PendingView;

    open spec fn view(&self) -> PendingView {
        PendingView { request_id: self.request_id, hash: self.hash@ }
    }
}

/// The mirror's knowledge as values: the last request id handed out, the text
/// each side holds as far as the broker knows, the Windows clipboard sequence
/// number, and the writes under way in each direction.
pub struct MirrorView {
    pub next_request_id: u64,
    pub wayland_hash: Option<Seq<u8>>,
    pub windows_hash: Option<Seq<u8>>,
    pub windows_sequence: Option<u32>,
    pub pending_windows: Option<PendingView>,
    pub pending_wayland: Option<Seq<u8>>,
}

/// The request id that follows `n`: never 0, wrapping after `u64::MAX`.
pub open spec fn next_request_id(n: u64) -> u64 {
    if n == u64::MAX {
        1
    } else {
        (n + 1) as u64
    }
}

impl MirrorView {
    pub open spec fn is_wayland_echo(self, h: Seq<u8>) -> bool {
        self.wayland_hash == Some(h) || self.pending_wayland == Some(h)
    }

    pub open spec fn is_windows_echo(self, h: Seq<u8>) -> bool {
        self.windows_hash == Some(h) || (self.pending_windows matches Some(p) && p.hash == h)
    }

    pub open spec fn windows_changed_since(self, sequence: u32) -> bool {
        self.windows_sequence != Some(sequence)
    }

    pub open spec fn observe_wayland(self, h: Seq<u8>) -> MirrorView {
        MirrorView { pending_wayland: None, wayland_hash: Some(h), ..self }
    }

    pub open spec fn invalidate_wayland(self) -> MirrorView {
        MirrorView { wayland_hash: None, ..self }
    }

    pub open spec fn reject_wayland_selection(self) -> MirrorView {
        MirrorView { pending_wayland: None, wayland_hash: None, ..self }
    }

    pub open spec fn observe_windows(self, h: Seq<u8>, sequence: u32) -> MirrorView {
        MirrorView { windows_hash: Some(h), windows_sequence: Some(sequence), ..self }
    }

    pub open spec fn invalidate_windows(self, sequence: u32) -> MirrorView {
        MirrorView { windows_hash: None, windows_sequence: Some(sequence), ..self }
    }

    pub open spec fn reset_windows_transport(self) -> MirrorView {
        MirrorView { pending_windows: None, ..self }
    }

    pub open spec fn begin_windows_write(self, h: Seq<u8>) -> MirrorView {
        let id = next_request_id(self.next_request_id);
        MirrorView {
            next_request_id: id,
            pending_windows: Some(PendingView { request_id: id, hash: h }),
            ..self
        }
    }

    /// Whether an acknowledgement for `request_id` commits the pending write.
    pub open spec fn acknowledges(self, request_id: u64) -> bool {
        self.pending_windows matches Some(p) && p.request_id == request_id
    }

    pub open spec fn commit_windows_write(self, request_id: u64, sequence: u32) -> MirrorView {
        if self.acknowledges(request_id) {
            MirrorView {
                pending_windows: None,
                windows_hash: Some(self.pending_windows.unwrap().hash),
                windows_sequence: Some(sequence),
                ..self
            }
        } else {
            self
        }
    }

    pub open spec fn fail_windows_write(self, request_id: u64) -> MirrorView {
        if self.acknowledges(request_id) {
            MirrorView { pending_windows: None, ..self }
        } else {
            self
        }
    }

    pub open spec fn begin_wayland_publish(self, h: Seq<u8>, sequence: u32) -> MirrorView {
        MirrorView { pending_wayland: Some(h), ..self.observe_windows(h, sequence) }
    }

    pub open spec fn commit_wayland_publish(self, h: Seq<u8>) -> MirrorView {
        if self.pending_wayland == Some(h) {
            MirrorView { pending_wayland: None, wayland_hash: Some(h), ..self }
        } else {
            self
        }
    }
}

/// Echo suppression for both directions.
///
/// Callers hash a text once with [`MirrorState::hash`] and pass the hash around;
/// a 16 MiB selection would otherwise be digested several times per hop.
#[derive(Debug)]
pub struct MirrorState {
    next_request_id: u64,
    wayland_hash: Option<TextHash>,
    windows_hash: Option<TextHash>,
    windows_sequence: Option<u32>,
    pending_windows: Option<PendingWrite>,
    // The hash is the identity of a publish: two publishes of the same text are
    // interchangeable, so the first roundtrip may commit either.
    pending_wayland: Option<TextHash>,
}

/// A digest that may be absent, as a value.
pub open spec fn hash_view(h: Option<TextHash>) -> Option<Seq<u8>> {
    match h {
        Some(h) => Some(h@),
        None => None,
    }
}

pub open spec fn pending_view(p: Option<PendingWrite>) -> Option<PendingView> {
    match p {
        Some(p) => Some(p@),
        None => None,
    }
}

impl View for MirrorState {
    type V = MirrorView;

    closed spec fn view(&self) -> MirrorView {
        MirrorView {
            next_request_id: self.next_request_id,
            wayland_hash: hash_view(self.wayland_hash),
            windows_hash: hash_view(self.windows_hash),
            windows_sequence: self.windows_sequence,
            pending_windows: pending_view(self.pending_windows),
            pending_wayland: hash_view(self.pending_wayland),
        }
    }
}

impl Default for MirrorState {
    fn default() -> (s: Self)
        ensures
            s@ == (MirrorView {
                next_request_id: 0,
                wayland_hash: None,
                windows_hash: None,
                windows_sequence: None,
                pending_windows: None,
                pending_wayland: None,
            }),
    {
        MirrorState {
            next_request_id: 0,
            wayland_hash: None,
            windows_hash: None,
            windows_sequence: None,
            pending_windows: None,
            pending_wayland: None,
        }
    }
}

fn option_hash_eq(a: &Option<TextHash>, b: &TextHash) -> (r: bool)
    ensures
        r == (hash_view(*a) == Some(b@)),
{
    match a {
        Some(a) => hash_eq(a, b),
        None => false,
    }
}

impl MirrorState {
    /// The SHA-256 digest that identifies a text.
    pub fn hash(text: &[u8]) -> (h: TextHash)
        ensures
            h@ == spec_sha256(text@),
    {
        sha256(text)
    }

    pub fn is_wayland_echo(&self, hash: &TextHash) -> (r: bool)
        ensures
            r == self@.is_wayland_echo(hash@),
    {
        option_hash_eq(&self.wayland_hash, hash) || option_hash_eq(&self.pending_wayland, hash)
    }

    pub fn is_windows_echo(&self, hash: &TextHash) -> (r: bool)
        ensures
            r == self@.is_windows_echo(hash@),
    {
        option_hash_eq(&self.windows_hash, hash) || match &self.pending_windows {
            Some(pending) => hash_eq(&pending.hash, hash),
            None => false,
        }
    }

    pub fn observe_wayland(&mut self, hash: TextHash)
        ensures
            final(self)@ == old(self)@.observe_wayland(hash@),
    {
        self.pending_wayland = None;
        self.wayland_hash = Some(hash);
    }

    pub fn invalidate_wayland(&mut self)
        ensures
            final(self)@ == old(self)@.invalidate_wayland(),
    {
        self.wayland_hash = None;
    }

    pub fn reject_wayland_selection(&mut self)
        ensures
            final(self)@ == old(self)@.reject_wayland_selection(),
    {
        self.pending_wayland = None;
        self.wayland_hash = None;
    }

    pub fn observe_windows(&mut self, hash: TextHash, sequence: u32)
        ensures
            final(self)@ == old(self)@.observe_windows(hash@, sequence),
    {
        self.windows_hash = Some(hash);
        self.windows_sequence = Some(sequence);
    }

    pub fn invalidate_windows(&mut self, sequence: u32)
        ensures
            final(self)@ == old(self)@.invalidate_windows(sequence),
    {
        self.windows_hash = None;
        self.windows_sequence = Some(sequence);
    }

    pub fn reset_windows_transport(&mut self)
        ensures
            final(self)@ == old(self)@.reset_windows_transport(),
    {
        self.pending_windows = None;
    }

    pub fn has_pending_windows_write(&self) -> (r: bool)
        ensures
            r == self@.pending_windows is Some,
    {
        self.pending_windows.is_some()
    }

    pub fn begin_windows_write(&mut self, hash: TextHash) -> (pending: PendingWrite)
        ensures
            final(self)@ == old(self)@.begin_windows_write(hash@),
            pending@ == (PendingView { request_id: next_request_id(old(self)@.next_request_id), hash: hash@ }),
    {
        self.next_request_id = if self.next_request_id == u64::MAX {
            1
        } else {
            self.next_request_id + 1
        };
        let pending = PendingWrite { request_id: self.next_request_id, hash };
        self.pending_windows = Some(PendingWrite { request_id: self.next_request_id, hash });
        pending
    }

    /// Commits the pending write when `request_id` acknowledges it.
    pub fn commit_windows_write(&mut self, request_id: u64, sequence: u32) -> (r: bool)
        ensures
            r == old(self)@.acknowledges(request_id),
            final(self)@ == old(self)@.commit_windows_write(request_id, sequence),
    {
        let pending = match self.pending_windows.take() {
            Some(pending) => pending,
            None => return false,
        };
        if pending.request_id != request_id {
            self.pending_windows = Some(pending);
            return false;
        }
        self.windows_hash = Some(pending.hash);
        self.windows_sequence = Some(sequence);
        true
    }

    /// Drops the pending write when `request_id` refers to it.
    pub fn fail_windows_write(&mut self, request_id: u64) -> (r: bool)
        ensures
            r == old(self)@.acknowledges(request_id),
            final(self)@ == old(self)@.fail_windows_write(request_id),
    {
        let matches = match &self.pending_windows {
            Some(write) => write.request_id == request_id,
            None => false,
        };
        if !matches {
            return false;
        }
        self.pending_windows = None;
        true
    }

    pub fn begin_wayland_publish(&mut self, hash: TextHash, sequence: u32)
        ensures
            final(self)@ == old(self)@.begin_wayland_publish(hash@, sequence),
    {
        self.observe_windows(hash, sequence);
        self.pending_wayland = Some(hash);
    }

    /// Commits the publish of `hash` when it is the one under way.
    pub fn commit_wayland_publish(&mut self, hash: &TextHash) -> (r: bool)
        ensures
            r == (old(self)@.pending_wayland == Some(hash@)),
            final(self)@ == old(self)@.commit_wayland_publish(hash@),
    {
        if !option_hash_eq(&self.pending_wayland, hash) {
            return false;
        }
        self.pending_wayland = None;
        self.wayland_hash = Some(*hash);
        true
    }

    pub fn windows_changed_since(&self, sequence: u32) -> (r: bool)
        ensures
            r == self@.windows_changed_since(sequence),
    {
        match self.windows_sequence {
            Some(current) => current != sequence,
            None => true,
        }
    }
}

/// Law: every request id handed out is non-zero and differs from the previous
/// one, so an acknowledgement of an older write never matches a newer one.
pub proof fn law_request_ids_are_fresh(m: MirrorView, h: Seq<u8>)
    ensures
        m.begin_windows_write(h).next_request_id != 0,
        m.begin_windows_write(h).next_request_id != m.next_request_id,
        m.begin_windows_write(h).acknowledges(m.begin_windows_write(h).next_request_id),
{
}

/// Law: only the acknowledgement that carries the pending write's request id
/// commits it; it then suppresses the text as a Windows echo and records the
/// acknowledged sequence number. Any other acknowledgement changes nothing.
pub proof fn law_only_matching_ack_commits(m: MirrorView, h: Seq<u8>, other: u64, sequence: u32)
    ensures
        ({
            let started = m.begin_windows_write(h);
            let id = started.next_request_id;
            &&& other != id ==> !started.acknowledges(other)
                && started.commit_windows_write(other, sequence) == started
            &&& started.acknowledges(id)
            &&& started.commit_windows_write(id, sequence).is_windows_echo(h)
            &&& !started.commit_windows_write(id, sequence).windows_changed_since(sequence)
            &&& started.commit_windows_write(id, sequence).pending_windows is None
        }),
{
}

/// Law: a write the agent refused can never be committed afterwards, and it no
/// longer suppresses its text unless that text was already on Windows.
pub proof fn law_failed_write_never_commits(m: MirrorView, h: Seq<u8>, sequence: u32)
    ensures
        ({
            let started = m.begin_windows_write(h);
            let id = started.next_request_id;
            let failed = started.fail_windows_write(id);
            &&& started.acknowledges(id)
            &&& !failed.acknowledges(id)
            &&& failed.commit_windows_write(id, sequence) == failed
            &&& failed.is_windows_echo(h) == (m.windows_hash == Some(h))
        }),
{
}

/// Law: a publish to Wayland is committed by the first roundtrip of its own text
/// and by nothing else, and only once.
pub proof fn law_publish_commits_once(m: MirrorView, h: Seq<u8>, other: Seq<u8>, sequence: u32)
    ensures
        ({
            let started = m.begin_wayland_publish(h, sequence);
            let done = started.commit_wayland_publish(h);
            &&& started.is_wayland_echo(h)
            &&& other != h ==> started.commit_wayland_publish(other) == started
            &&& done.pending_wayland is None
            &&& done.wayland_hash == Some(h)
            &&& done.commit_wayland_publish(h) == done
            &&& !done.windows_changed_since(sequence)
        }),
{
}

/// Law: a selection made in Sway while a publish is under way cancels the
/// publish's acknowledgement.
pub proof fn law_external_selection_cancels_publish(m: MirrorView, published: Seq<u8>, external: Seq<u8>, sequence: u32)
    requires
        published != external,
    ensures
        ({
            let observed = m.begin_wayland_publish(published, sequence).observe_wayland(external);
            &&& observed.commit_wayland_publish(published) == observed
            &&& observed.is_wayland_echo(external)
            &&& !observed.is_wayland_echo(published)
        }),
{
}

/// Law: the two directions keep independent state: what is learnt of one side
/// leaves the other side's knowledge as it was.
pub proof fn law_directions_are_independent(m: MirrorView, h: Seq<u8>, sequence: u32)
    ensures
        m.observe_wayland(h).windows_hash == m.windows_hash,
        m.observe_wayland(h).windows_sequence == m.windows_sequence,
        m.observe_wayland(h).pending_windows == m.pending_windows,
        m.invalidate_wayland().windows_hash == m.windows_hash,
        m.reject_wayland_selection().windows_hash == m.windows_hash,
        m.observe_windows(h, sequence).wayland_hash == m.wayland_hash,
        m.observe_windows(h, sequence).pending_wayland == m.pending_wayland,
        m.invalidate_windows(sequence).wayland_hash == m.wayland_hash,
        m.invalidate_windows(sequence).pending_wayland == m.pending_wayland,
{
}

/// Law: once Sway's selection is invalidated or rejected, the same text is no
/// longer taken for an echo (unless a publish of it is still under way, which a
/// rejection cancels too).
pub proof fn law_invalidation_forgets_wayland_text(m: MirrorView, h: Seq<u8>)
    ensures
        m.invalidate_wayland().is_wayland_echo(h) == (m.pending_wayland == Some(h)),
        !m.reject_wayland_selection().is_wayland_echo(h),
        !m.invalidate_windows(0).observe_wayland(h).invalidate_wayland().is_wayland_echo(h),
{
}

/// A call of a `MirrorState` method that changes the state, with its
/// arguments as values.
pub enum MirrorCall {
    ObserveWayland(Seq<u8>),
    InvalidateWayland,
    RejectWaylandSelection,
    ObserveWindows(Seq<u8>, u32),
    InvalidateWindows(u32),
    ResetWindowsTransport,
    BeginWindowsWrite(Seq<u8>),
    CommitWindowsWrite(u64, u32),
    FailWindowsWrite(u64),
    BeginWaylandPublish(Seq<u8>, u32),
    CommitWaylandPublish(Seq<u8>),
}

impl MirrorView {
    /// The state after one call.
    pub open spec fn apply(self, c: MirrorCall) -> MirrorView {
        match c {
            MirrorCall::ObserveWayland(h) => self.observe_wayland(h),
            MirrorCall::InvalidateWayland => self.invalidate_wayland(),
            MirrorCall::RejectWaylandSelection => self.reject_wayland_selection(),
            MirrorCall::ObserveWindows(h, q) => self.observe_windows(h, q),
            MirrorCall::InvalidateWindows(q) => self.invalidate_windows(q),
            MirrorCall::ResetWindowsTransport => self.reset_windows_transport(),
            MirrorCall::BeginWindowsWrite(h) => self.begin_windows_write(h),
            MirrorCall::CommitWindowsWrite(id, q) => self.commit_windows_write(id, q),
            MirrorCall::FailWindowsWrite(id) => self.fail_windows_write(id),
            MirrorCall::BeginWaylandPublish(h, q) => self.begin_wayland_publish(h, q),
            MirrorCall::CommitWaylandPublish(h) => self.commit_wayland_publish(h),
        }
    }

    /// The state after the calls, in order.
    pub open spec fn apply_all(self, calls: Seq<MirrorCall>) -> MirrorView
        decreases calls.len(),
    {
        if calls.len() == 0 {
            self
        } else {
            self.apply_all(calls.drop_last()).apply(calls.last())
        }
    }
}

/// Whether a call ends the pending write `p`: a newer write, its
/// acknowledgement, its failure, or the loss of the agent.
pub open spec fn settles(c: MirrorCall, p: PendingView) -> bool {
    match c {
        MirrorCall::BeginWindowsWrite(_) => true,
        MirrorCall::CommitWindowsWrite(id, _) => id == p.request_id,
        MirrorCall::FailWindowsWrite(id) => id == p.request_id,
        MirrorCall::ResetWindowsTransport => true,
        _ => false,
    }
}

/// Law: a write to Windows stays pending across any history of calls until
/// one of them settles it (its acknowledgement or failure, a newer write, or
/// the loss of the agent), and each of those leaves no other write pending
/// in its place but the newer one. Losing the agent changes nothing else.
pub proof fn law_pending_write_kept_until_settled(m: MirrorView, p: PendingView, calls: Seq<MirrorCall>, h: Seq<u8>, q: u32)
    requires
        m.pending_windows == Some(p),
    ensures
        (forall|i: int| 0 <= i < calls.len() ==> !settles(#[trigger] calls[i], p)) ==> m.apply_all(calls).pending_windows
            == Some(p),
        m.apply(MirrorCall::CommitWindowsWrite(p.request_id, q)).pending_windows is None,
        m.apply(MirrorCall::FailWindowsWrite(p.request_id)).pending_windows is None,
        m.apply(MirrorCall::ResetWindowsTransport) == (MirrorView { pending_windows: None, ..m }),
        m.apply(MirrorCall::BeginWindowsWrite(h)).pending_windows == Some(
            PendingView { request_id: next_request_id(m.next_request_id), hash: h },
        ),
    decreases calls.len(),
{
    if calls.len() > 0 && forall|i: int| 0 <= i < calls.len() ==> !settles(#[trigger] calls[i], p) {
        let rest = calls.drop_last();
        assert forall|i: int| 0 <= i < rest.len() implies !settles(#[trigger] rest[i], p) by {
            assert(rest[i] == calls[i]);
        }
        law_pending_write_kept_until_settled(m, p, rest, h, q);
        assert(!settles(calls[calls.len() - 1], p));
    }
}

} // verus!
