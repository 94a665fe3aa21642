//! The compositor side's bookkeeping: what each offer announced, the read of
//! the newest selection's text, and the sources that serve Sway's pastes of
//! texts published from Windows. Wayland objects are named by their protocol
//! ids.

use std::collections::HashMap;

use vstd::prelude::*;

use crate::pipe::{over_limit_message, read_step, ReadOutcome, ReadStep};
use crate::wayland::{OfferInfo, OfferView, WaylandEvent};
use crate::MAX_TEXT_BYTES;

verus! {

broadcast use vstd::std_specs::hash::group_hash_axioms;

/// What an offer that announced nothing yet is read as.
pub open spec fn fresh_offer() -> OfferView {
    OfferView { text_rank: None, sensitive: false }
}

/// The offers announced and not yet consumed by a selection, by id.
pub struct Offers {
    offers: HashMap<u32, OfferInfo>,
}

impl View for Offers {
    type V = Map<u32, OfferView>;

    closed spec fn view(&self) -> Map<u32, OfferView> {
        self.offers@.map_values(|o: OfferInfo| o@)
    }
}

impl Offers {
    pub fn new() -> (o: Self)
        ensures
            o@ == Map::<u32, OfferView>::empty(),
    {
        let o = Offers { offers: HashMap::new() };
        assert(o@ =~= Map::<u32, OfferView>::empty());
        o
    }

    /// The compositor introduced a new offer.
    pub fn announce(&mut self, id: u32)
        ensures
            final(self)@ == old(self)@.insert(id, fresh_offer()),
    {
        self.offers.insert(id, OfferInfo::new());
        assert(self@ =~= old(self)@.insert(id, fresh_offer()));
    }

    /// The offer with this id announced a MIME type.
    pub fn record(&mut self, id: u32, mime: &str)
        ensures
            final(self)@ == old(self)@.insert(
                id,
                (if old(self)@.contains_key(id) {
                    old(self)@[id]
                } else {
                    fresh_offer()
                }).record(mime@),
            ),
    {
        let mut info = match self.offers.remove(&id) {
            Some(info) => info,
            None => OfferInfo::new(),
        };
        info.record(mime);
        self.offers.insert(id, info);
        assert(self@ =~= old(self)@.insert(
            id,
            (if old(self)@.contains_key(id) {
                old(self)@[id]
            } else {
                fresh_offer()
            }).record(mime@),
        ));
    }

    /// The offer a selection names, no longer kept; one never announced
    /// counts as an offer of nothing.
    pub fn take(&mut self, id: u32) -> (o: OfferInfo)
        ensures
            o@ == (if old(self)@.contains_key(id) {
                old(self)@[id]
            } else {
                fresh_offer()
            }),
            final(self)@ == old(self)@.remove(id),
    {
        let o = match self.offers.remove(&id) {
            Some(info) => info,
            None => OfferInfo::new(),
        };
        assert(self@ =~= old(self)@.remove(id));
        o
    }
}

/// A read of a selection's text in progress: its generation and what arrived
/// so far.
struct TextRead {
    generation: u64,
    buffer: Vec<u8>,
}

/// The read of the newest selection's text, if one is running. Only the newest
/// selection is ever read: a newer one cancels this read.
pub struct OfferReads {
    current: Option<TextRead>,
}

pub struct ReadView {
    pub generation: u64,
    pub buffer: Seq<u8>,
}

impl View for OfferReads {
    type V = Option<ReadView>;

    closed spec fn view(&self) -> Option<ReadView> {
        match self.current {
            Some(r) => Some(ReadView { generation: r.generation, buffer: r.buffer@ }),
            None => None,
        }
    }
}

/// Where a read stands after one step.
pub enum OfferProgress {
    /// Read from the pipe again.
    ReadMore,
    /// Wait until the pipe holds more.
    Pending,
    /// The read is over; the event, if any, goes to the broker.
    Finished(Option<WaylandEvent>),
}

/// Whether a read of `generation` is the one running.
pub open spec fn reads_generation(r: Option<ReadView>, generation: u64) -> bool {
    r matches Some(v) && v.generation == generation
}

impl OfferReads {
    pub fn new() -> (r: Self)
        ensures
            r@ is None,
    {
        OfferReads { current: None }
    }

    /// A read of the selection numbered `generation` begins.
    pub fn start(&mut self, generation: u64)
        ensures
            final(self)@ == Some(ReadView { generation, buffer: seq![] }),
    {
        self.current = Some(TextRead { generation, buffer: Vec::new() });
    }

    /// Whatever read was running is dropped; tells whether there was one.
    pub fn cancel(&mut self) -> (was_running: bool)
        ensures
            was_running == (old(self)@ is Some),
            final(self)@ is None,
    {
        let was_running = self.current.is_some();
        self.current = None;
        was_running
    }

    /// One read of the pipe of the selection numbered `generation`. A read
    /// that is no longer the running one finishes with nothing to report.
    pub fn feed(&mut self, generation: u64, outcome: ReadOutcome) -> (p: OfferProgress)
        ensures
            final(self)@ matches Some(v) ==> v.buffer.len() <= MAX_TEXT_BYTES || final(self)@ == old(self)@,
            !reads_generation(old(self)@, generation) ==> {
                &&& p matches OfferProgress::Finished(None)
                &&& final(self)@ == old(self)@
            },
            reads_generation(old(self)@, generation) ==> {
                let buffer = old(self)@.unwrap().buffer;
                match outcome {
                    ReadOutcome::Closed => {
                        &&& final(self)@ is None
                        &&& p matches OfferProgress::Finished(Some(WaylandEvent::Text { generation: g, text }))
                        &&& g == generation
                        &&& text@ == buffer
                    },
                    ReadOutcome::WouldBlock => p is Pending && final(self)@ == old(self)@,
                    ReadOutcome::Interrupted => p is ReadMore && final(self)@ == old(self)@,
                    ReadOutcome::Failed(e) => {
                        &&& final(self)@ is None
                        &&& p matches OfferProgress::Finished(
                            Some(WaylandEvent::Unusable { generation: g, error: Some(m) }),
                        )
                        &&& g == generation
                        &&& m@ == e.message@
                    },
                    ReadOutcome::Data(bytes) => if buffer.len() + bytes@.len() > MAX_TEXT_BYTES {
                        &&& final(self)@ is None
                        &&& p matches OfferProgress::Finished(
                            Some(WaylandEvent::Unusable { generation: g, error: Some(m) }),
                        )
                        &&& g == generation
                        &&& m@ == over_limit_message(MAX_TEXT_BYTES)
                    } else {
                        &&& p is ReadMore
                        &&& final(self)@ == Some(ReadView { generation, buffer: buffer + bytes@ })
                    },
                }
            },
    {
        let mut read = match self.current.take() {
            Some(read) => read,
            None => return OfferProgress::Finished(None),
        };
        if read.generation != generation {
            self.current = Some(read);
            return OfferProgress::Finished(None);
        }
        match read_step(&mut read.buffer, outcome, MAX_TEXT_BYTES) {
            ReadStep::Continue => {
                self.current = Some(read);
                OfferProgress::ReadMore
            },
            ReadStep::Done(false) => {
                self.current = Some(read);
                OfferProgress::Pending
            },
            ReadStep::Done(true) => OfferProgress::Finished(
                Some(WaylandEvent::Text { generation, text: read.buffer }),
            ),
            ReadStep::Fail(error) => OfferProgress::Finished(
                Some(WaylandEvent::Unusable { generation, error: Some(error.message) }),
            ),
        }
    }

    /// The transfer deadline of the selection numbered `generation` passed:
    /// if that read still runs, it ends as unusable.
    pub fn expire(&mut self, generation: u64) -> (e: Option<WaylandEvent>)
        ensures
            reads_generation(old(self)@, generation) ==> {
                &&& final(self)@ is None
                &&& e matches Some(WaylandEvent::Unusable { generation: g, error: Some(m) })
                &&& g == generation
                &&& m@ == "Wayland clipboard read timed out"@
            },
            !reads_generation(old(self)@, generation) ==> e is None && final(self)@ == old(self)@,
    {
        let running = match &self.current {
            Some(read) => read.generation == generation,
            None => false,
        };
        if !running {
            return None;
        }
        self.current = None;
        Some(
            WaylandEvent::Unusable {
                generation,
                error: Some(String::from_str("Wayland clipboard read timed out")),
            },
        )
    }
}

/// Replaced sources kept until the compositor cancels them.
pub const MAX_RETIRING_SOURCES: usize = 2;

/// A source offering a text published from Windows.
pub struct Published {
    pub id: u32,
    pub text: Vec<u8>,
}

pub struct PublishedView {
    pub id: u32,
    pub text: Seq<u8>,
}

impl View for Published {
    type V = PublishedView;

    open spec fn view(&self) -> PublishedView {
        PublishedView { id: self.id, text: self.text@ }
    }
}

/// The source that owns the Sway selection, and the ones it replaced: the
/// compositor may still ask those for their text until it has seen the new
/// selection.
pub struct Sources {
    active: Option<Published>,
    retiring: Vec<Published>,
}

pub struct SourcesView {
    pub active: Option<PublishedView>,
    pub retiring: Seq<PublishedView>,
}

impl SourcesView {
    /// The sources that serve pastes, the owner of the selection first.
    pub open spec fn serving(self) -> Seq<PublishedView> {
        match self.active {
            Some(a) => seq![a] + self.retiring,
            None => self.retiring,
        }
    }

    /// The sources after `id` became the owner of the selection.
    pub open spec fn publish(self, id: u32, text: Seq<u8>) -> (SourcesView, Option<u32>) {
        let owner = Some(PublishedView { id, text });
        match self.active {
            None => (SourcesView { active: owner, retiring: self.retiring }, None),
            Some(previous) => {
                let retiring = self.retiring.push(previous);
                if retiring.len() > MAX_RETIRING_SOURCES {
                    (SourcesView { active: owner, retiring: retiring.drop_first() }, Some(retiring[0].id))
                } else {
                    (SourcesView { active: owner, retiring }, None)
                }
            },
        }
    }

    /// The sources after the compositor cancelled `id`.
    pub open spec fn forget(self, id: u32) -> SourcesView {
        SourcesView {
            active: match self.active {
                Some(a) => if a.id == id {
                    None
                } else {
                    Some(a)
                },
                None => None,
            },
            retiring: self.retiring.filter(other_than(id)),
        }
    }
}

/// Whether a source is not the one named `id`.
pub open spec fn other_than(id: u32) -> spec_fn(PublishedView) -> bool {
    |p: PublishedView| p.id != id
}

/// Law: no more than `MAX_RETIRING_SOURCES` replaced sources are kept, however
/// often a text is published; each publish drops at most the oldest of them.
pub proof fn law_retiring_sources_bounded(s: SourcesView, id: u32, text: Seq<u8>)
    requires
        s.retiring.len() <= MAX_RETIRING_SOURCES,
    ensures
        s.publish(id, text).0.retiring.len() <= MAX_RETIRING_SOURCES,
        s.publish(id, text).0.active == Some(PublishedView { id, text }),
        s.publish(id, text).1 matches Some(dropped) ==> s.retiring.len() == MAX_RETIRING_SOURCES
            && dropped == s.retiring[0].id,
{
}

/// `t` is the text of the first serving source with this id.
pub open spec fn first_text(s: Seq<PublishedView>, id: u32, t: Seq<u8>) -> bool {
    exists|i: int|
        0 <= i < s.len() && s[i].id == id && s[i].text == t && forall|j: int| 0 <= j < i ==> s[j].id != id
}

pub open spec fn published_views(s: Seq<Published>) -> Seq<PublishedView> {
    s.map_values(|p: Published| p@)
}

impl View for Sources {
    type V = SourcesView;

    closed spec fn view(&self) -> SourcesView {
        SourcesView {
            active: match self.active {
                Some(a) => Some(a@),
                None => None,
            },
            retiring: published_views(self.retiring@),
        }
    }
}

proof fn lemma_filter_take_step(s: Seq<PublishedView>, k: int, pred: spec_fn(PublishedView) -> bool)
    requires
        0 <= k < s.len(),
    ensures
        s.take(k + 1).filter(pred) == if pred(s[k]) {
            s.take(k).filter(pred).push(s[k])
        } else {
            s.take(k).filter(pred)
        },
{
    reveal(Seq::filter);
    assert(s.take(k + 1).drop_last() =~= s.take(k));
    assert(s.take(k + 1).last() == s[k]);
}

impl Sources {
    pub fn new() -> (s: Self)
        ensures
            s@.active is None,
            s@.retiring == Seq::<PublishedView>::empty(),
    {
        let s = Sources { active: None, retiring: Vec::new() };
        assert(s@.retiring =~= Seq::<PublishedView>::empty());
        s
    }

    /// `id` now offers `text` as the Sway selection. The source it replaced
    /// keeps serving; returns the id of the oldest one when more than
    /// `MAX_RETIRING_SOURCES` are kept, which is then dropped.
    pub fn publish(&mut self, id: u32, text: Vec<u8>) -> (dropped: Option<u32>)
        ensures
            (final(self)@, dropped) == old(self)@.publish(id, text@),
    {
        let ghost t = text@;
        let previous = self.active.take();
        self.active = Some(Published { id, text });
        match previous {
            None => {
                assert(self@.retiring == old(self)@.retiring);
                None
            },
            Some(previous) => {
                let ghost p = previous@;
                self.retiring.push(previous);
                assert(published_views(self.retiring@) =~= old(self)@.retiring.push(p));
                if self.retiring.len() > MAX_RETIRING_SOURCES {
                    let oldest = self.retiring.remove(0);
                    assert(published_views(self.retiring@) =~= old(self)@.retiring.push(p).drop_first());
                    Some(oldest.id)
                } else {
                    None
                }
            },
        }
    }

    /// The text of the first serving source with this id, if any.
    pub fn source_text(&self, id: u32) -> (t: Option<&Vec<u8>>)
        ensures
            match t {
                Some(t) => first_text(self@.serving(), id, t@),
                None => forall|i: int| 0 <= i < self@.serving().len() ==> self@.serving()[i].id != id,
            },
    {
        if let Some(active) = &self.active {
            if active.id == id {
                assert(self@.serving()[0] == active@);
                return Some(&active.text);
            }
        }
        let ghost offset: int = if self.active is Some { 1 } else { 0 };
        let ghost all = self@.serving();
        assert(forall|k: int| 0 <= k < self.retiring@.len() ==> all[k + offset] == self.retiring@[k]@);
        let mut i: usize = 0;
        while i < self.retiring.len()
            invariant
                i <= self.retiring@.len(),
                all == self@.serving(),
                all.len() == offset + self.retiring@.len(),
                forall|k: int| 0 <= k < self.retiring@.len() ==> all[k + offset] == self.retiring@[k]@,
                forall|j: int| 0 <= j < offset + i ==> all[j].id != id,
            decreases self.retiring@.len() - i,
        {
            if self.retiring[i].id == id {
                assert(all[offset + i].id == id);
                return Some(&self.retiring[i].text);
            }
            i = i + 1;
        }
        None
    }

    /// The compositor cancelled the source `id`: it serves no longer.
    pub fn forget(&mut self, id: u32)
        ensures
            final(self)@ == old(self)@.forget(id),
    {
        let active_matches = match &self.active {
            Some(a) => a.id == id,
            None => false,
        };
        if active_matches {
            self.active = None;
        }
        let ghost before = published_views(self.retiring@);
        let ghost pred = other_than(id);
        let mut rest: Vec<Published> = Vec::new();
        std::mem::swap(&mut rest, &mut self.retiring);
        let mut kept: Vec<Published> = Vec::new();
        let ghost mut k: int = 0;
        while rest.len() > 0
            invariant
                pred == other_than(id),
                0 <= k <= before.len(),
                published_views(rest@) == before.skip(k),
                published_views(kept@) == before.take(k).filter(pred),
            decreases rest@.len(),
        {
            let ghost r = rest@;
            let p = rest.remove(0);
            proof {
                assert(published_views(r).len() == r.len());
                assert(k < before.len());
                assert(published_views(r)[0] == before[k]);
                assert(p@ == before[k]);
                assert(pred(before[k]) == (p.id != id));
                lemma_filter_take_step(before, k, pred);
                assert forall|j: int| 0 <= j < published_views(rest@).len() implies published_views(rest@)[j]
                    == before.skip(k + 1)[j] by {
                    assert(rest@[j] == r[j + 1]);
                    assert(published_views(r)[j + 1] == before.skip(k)[j + 1]);
                }
                assert(published_views(rest@) =~= before.skip(k + 1));
            }
            if p.id != id {
                let ghost pv = p@;
                kept.push(p);
                assert(published_views(kept@) =~= before.take(k).filter(pred).push(pv));
            }
            proof {
                k = k + 1;
            }
        }
        assert(before.take(k) =~= before);
        self.retiring = kept;
    }
}

} // verus!
