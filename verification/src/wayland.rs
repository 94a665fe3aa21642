//! What the broker learns from the compositor, and how it picks the text of a
//! Sway selection.

use vstd::prelude::*;
use vstd::utf8::encode_utf8;

use crate::state::next_request_id;

verus! {

#[derive(Debug)]
pub enum WaylandEvent {
    SelectionStarted(u64),
    Text { generation: u64, text: Vec<u8> },
    /// The selection carries nothing to forward; `error` names a failed read.
    Unusable { generation: u64, error: Option<String> },
    PublicationSynchronized,
    DeviceLost,
}

/// ASCII lowercase of a byte.
pub open spec fn ascii_lower(b: u8) -> u8 {
    if 65 <= b <= 90 {
        (b + 32) as u8
    } else {
        b
    }
}

/// `eq_ignore_ascii_case` on bytes: the same length and the same bytes once
/// ASCII letters are lowercased.
pub open spec fn eq_ignore_ascii_case(a: Seq<u8>, b: Seq<u8>) -> bool {
    a.len() == b.len() && forall|i: int| 0 <= i < a.len() ==> ascii_lower(#[trigger] a[i]) == ascii_lower(b[i])
}

/// The same comparison on strings, over their UTF-8 bytes.
pub open spec fn str_eq_ignore_ascii_case(a: Seq<char>, b: Seq<char>) -> bool {
    eq_ignore_ascii_case(encode_utf8(a), encode_utf8(b))
}

fn to_ascii_lower(b: u8) -> (r: u8)
    ensures
        r == ascii_lower(b),
{
    if 65 <= b && b <= 90 {
        b + 32
    } else {
        b
    }
}

/// `str::eq_ignore_ascii_case`.
pub fn equals_ignore_ascii_case(a: &str, b: &str) -> (r: bool)
    ensures
        r == str_eq_ignore_ascii_case(a@, b@),
{
    let x = a.as_bytes();
    let y = b.as_bytes();
    if x.len() != y.len() {
        return false;
    }
    let mut i: usize = 0;
    while i < x.len()
        invariant
            x@ == encode_utf8(a@),
            y@ == encode_utf8(b@),
            x@.len() == y@.len(),
            i <= x@.len(),
            forall|j: int| 0 <= j < i ==> ascii_lower(#[trigger] x@[j]) == ascii_lower(y@[j]),
        decreases x@.len() - i,
    {
        if to_ascii_lower(x[i]) != to_ascii_lower(y[i]) {
            return false;
        }
        i = i + 1;
    }
    true
}

/// The MIME types of plain text, most preferred first.
pub open spec fn text_mime_type_spec(rank: int) -> Seq<char> {
    if rank == 0 {
        "text/plain;charset=utf-8"@
    } else if rank == 1 {
        "UTF8_STRING"@
    } else if rank == 2 {
        "text/plain"@
    } else {
        "STRING"@
    }
}

/// How many text MIME types the broker reads.
pub const TEXT_MIME_COUNT: usize = 4;

/// The text MIME type of rank `rank`.
pub fn text_mime_type(rank: usize) -> (s: &'static str)
    requires
        rank < TEXT_MIME_COUNT,
    ensures
        s@ == text_mime_type_spec(rank as int),
{
    if rank == 0 {
        "text/plain;charset=utf-8"
    } else if rank == 1 {
        "UTF8_STRING"
    } else if rank == 2 {
        "text/plain"
    } else {
        "STRING"
    }
}

/// The rank of `mime` among the text MIME types, compared case-insensitively.
pub open spec fn text_mime_rank_spec(mime: Seq<char>) -> Option<usize> {
    if str_eq_ignore_ascii_case(text_mime_type_spec(0), mime) {
        Some(0)
    } else if str_eq_ignore_ascii_case(text_mime_type_spec(1), mime) {
        Some(1)
    } else if str_eq_ignore_ascii_case(text_mime_type_spec(2), mime) {
        Some(2)
    } else if str_eq_ignore_ascii_case(text_mime_type_spec(3), mime) {
        Some(3)
    } else {
        None
    }
}

// MIME types and their parameters are case-insensitive; the X11 atoms in the
// list are unaffected because nobody offers them in another case.
pub fn text_mime_rank(mime: &str) -> (r: Option<usize>)
    ensures
        r == text_mime_rank_spec(mime@),
{
    let mut rank: usize = 0;
    while rank < TEXT_MIME_COUNT
        invariant
            rank <= TEXT_MIME_COUNT,
            forall|k: int| 0 <= k < rank ==> !str_eq_ignore_ascii_case(#[trigger] text_mime_type_spec(k), mime@),
        decreases TEXT_MIME_COUNT - rank,
    {
        if equals_ignore_ascii_case(text_mime_type(rank), mime) {
            return Some(rank);
        }
        rank = rank + 1;
    }
    None
}

/// Whether `mime` is the hint a password manager puts on a secret selection.
pub open spec fn is_sensitive_mime_spec(mime: Seq<char>) -> bool {
    str_eq_ignore_ascii_case("application/x-kde-passwordManagerHint"@, mime)
        || str_eq_ignore_ascii_case("x-kde-passwordManagerHint"@, mime)
}

pub fn is_sensitive_mime(mime: &str) -> (r: bool)
    ensures
        r == is_sensitive_mime_spec(mime@),
{
    equals_ignore_ascii_case("application/x-kde-passwordManagerHint", mime)
        || equals_ignore_ascii_case("x-kde-passwordManagerHint", mime)
}

/// What the broker has learnt of an offer from the MIME types it announced.
pub struct OfferView {
    pub text_rank: Option<usize>,
    pub sensitive: bool,
}

impl OfferView {
    /// The offer after it announced `mime`: the best text type so far, and
    /// whether any announced type marks it as sensitive.
    pub open spec fn record(self, mime: Seq<char>) -> OfferView {
        OfferView {
            sensitive: self.sensitive || is_sensitive_mime_spec(mime),
            text_rank: match text_mime_rank_spec(mime) {
                Some(rank) => match self.text_rank {
                    Some(current) => if rank < current {
                        Some(rank)
                    } else {
                        Some(current)
                    },
                    None => Some(rank),
                },
                None => self.text_rank,
            },
        }
    }

    /// The text type to read, if any: none for a sensitive offer unless
    /// sensitive selections are shared.
    pub open spec fn chosen_rank(self, sync_sensitive: bool) -> Option<usize> {
        if sync_sensitive || !self.sensitive {
            self.text_rank
        } else {
            None
        }
    }
}

#[derive(Debug)]
pub struct OfferInfo {
    text_rank: Option<usize>,
    sensitive: bool,
}

impl View for OfferInfo {
    type V = OfferView;

    closed spec fn view(&self) -> OfferView {
        OfferView { text_rank: self.text_rank, sensitive: self.sensitive }
    }
}

impl OfferInfo {
    #[verifier::type_invariant]
    spec fn rank_in_range(self) -> bool {
        self.text_rank matches Some(r) ==> r < TEXT_MIME_COUNT
    }

    pub fn new() -> (o: Self)
        ensures
            o@ == (OfferView { text_rank: None, sensitive: false }),
    {
        OfferInfo { text_rank: None, sensitive: false }
    }

    pub fn record(&mut self, mime: &str)
        ensures
            final(self)@ == old(self)@.record(mime@),
    {
        proof {
            use_type_invariant(&*self);
        }
        if is_sensitive_mime(mime) {
            self.sensitive = true;
        }
        match text_mime_rank(mime) {
            Some(rank) => {
                let better = match self.text_rank {
                    Some(current) => rank < current,
                    None => true,
                };
                if better {
                    self.text_rank = Some(rank);
                }
            },
            None => {},
        }
    }

    /// The MIME type in which to read the offer's text, if it is to be read.
    pub fn chosen_mime(&self, sync_sensitive: bool) -> (m: Option<&'static str>)
        ensures
            match self@.chosen_rank(sync_sensitive) {
                Some(rank) => m matches Some(s) && s@ == text_mime_type_spec(rank as int),
                None => m is None,
            },
    {
        proof {
            use_type_invariant(self);
        }
        if sync_sensitive || !self.sensitive {
            match self.text_rank {
                Some(rank) => Some(text_mime_type(rank)),
                None => None,
            }
        } else {
            None
        }
    }
}

/// Law: a selection that announced a password-manager hint is never read
/// unless sensitive selections are shared, whatever else it announced.
pub proof fn law_sensitive_offer_is_skipped(o: OfferView, mime: Seq<char>, later: Seq<char>)
    requires
        is_sensitive_mime_spec(mime),
    ensures
        o.record(mime).chosen_rank(false) is None,
        o.record(mime).record(later).chosen_rank(false) is None,
        o.record(mime).chosen_rank(true) == o.record(mime).text_rank,
{
}

/// Law: what an offer is read as does not depend on the order in which it
/// announced its MIME types: the most preferred text type wins.
pub proof fn law_offer_order_is_irrelevant(o: OfferView, first: Seq<char>, second: Seq<char>)
    ensures
        o.record(first).record(second) == o.record(second).record(first),
{
}

/// What the broker hears of a new Sway selection after its
/// `SelectionStarted`: nothing while its text is being read, `Unusable` without
/// an error when it offers no text to read (`read` is `None`, or there is no
/// offer at all), and `Unusable` with the error when the read could not start.
pub fn selection_outcome(generation: u64, read: Option<Result<(), String>>) -> (e: Option<WaylandEvent>)
    ensures
        match read {
            None => e matches Some(WaylandEvent::Unusable { generation: g, error: None }) && g == generation,
            Some(Ok(())) => e is None,
            Some(Err(m)) => e matches Some(WaylandEvent::Unusable { generation: g, error: Some(m2) }) && g
                == generation && m2@ == m@,
        },
{
    match read {
        None => Some(WaylandEvent::Unusable { generation, error: None }),
        Some(Ok(())) => None,
        Some(Err(error)) => Some(WaylandEvent::Unusable { generation, error: Some(error) }),
    }
}

/// The generation that numbers the next Sway selection: never 0.
pub fn next_selection_generation(current: u64) -> (g: u64)
    ensures
        g == next_request_id(current),
        g != 0,
{
    if current == u64::MAX {
        1
    } else {
        current + 1
    }
}

/// Names the global still missing after the registry roundtrip, if any.
pub fn missing_global(has_manager: bool, has_seat: bool) -> (m: Option<&'static str>)
    ensures
        !has_manager ==> (m matches Some(s) && s@ == "ext_data_control_manager_v1 (Sway 1.11 or newer)"@),
        has_manager && !has_seat ==> (m matches Some(s) && s@ == "wl_seat"@),
        has_manager && has_seat ==> m is None,
{
    if !has_manager {
        Some("ext_data_control_manager_v1 (Sway 1.11 or newer)")
    } else if !has_seat {
        Some("wl_seat")
    } else {
        None
    }
}

} // verus!
