//! The broker's health as `arch-sway-wslg status` reports it.

use vstd::prelude::*;
use vstd::utf8::encode_utf8;

use crate::strings::{decimal, str_eq, usize_text};
use crate::text::{lemma_ascii_code, lemma_encode_one, lemma_scalar_bytes, string_of_encoded};

verus! {

#[derive(Clone, Copy, Debug, Eq, PartialEq, Structural)]
pub enum Health {
    Starting,
    Running,
    Degraded,
}

impl Health {
    pub open spec fn spec_as_str(self) -> Seq<char> {
        match self {
            Health::Starting => "starting"@,
            Health::Running => "running"@,
            Health::Degraded => "degraded"@,
        }
    }

    pub fn as_str(self) -> (s: &'static str)
        ensures
            s@ == self.spec_as_str(),
    {
        match self {
            Health::Starting => "starting",
            Health::Running => "running",
            Health::Degraded => "degraded",
        }
    }
}


/// A character of an error message as the status file shows it: line breaks
/// become spaces, so the message stays on its line.
pub open spec fn sanitize_char(c: char) -> char {
    if c == '\n' || c == '\r' {
        ' '
    } else {
        c
    }
}

pub open spec fn sanitize_byte(b: u8) -> u8 {
    if b == 10 || b == 13 {
        32
    } else {
        b
    }
}

pub open spec fn sanitize_text(text: Seq<char>) -> Seq<char> {
    text.map_values(|c: char| sanitize_char(c))
}

pub open spec fn sanitize_bytes(bytes: Seq<u8>) -> Seq<u8> {
    bytes.map_values(|b: u8| sanitize_byte(b))
}

proof fn lemma_sanitize_encoded(text: Seq<char>)
    ensures
        sanitize_bytes(encode_utf8(text)) == encode_utf8(sanitize_text(text)),
    decreases text.len(),
{
    if text.len() == 0 {
        assert(sanitize_bytes(encode_utf8(text)) =~= encode_utf8(sanitize_text(text)));
        return;
    }
    let c = text[0];
    let rest = text.drop_first();
    let p = vstd::utf8::encode_scalar(c as u32);
    lemma_sanitize_encoded(rest);
    lemma_scalar_bytes(c);
    lemma_scalar_bytes(sanitize_char(c));
    lemma_ascii_code(c);
    assert(' ' as u32 == 32);
    assert(sanitize_text(text).drop_first() =~= sanitize_text(rest));
    assert(sanitize_text(text)[0] == sanitize_char(c));
    assert(sanitize_bytes(p + encode_utf8(rest)) =~= sanitize_bytes(p) + sanitize_bytes(encode_utf8(rest)));
    if (c as u32) < 0x80 {
        assert(sanitize_bytes(p) =~= vstd::utf8::encode_scalar(sanitize_char(c) as u32));
    } else {
        assert(sanitize_char(c) == c);
        assert(sanitize_bytes(p) =~= p);
    }
}

/// The message as the status file shows it.
pub fn sanitize_error(error: &str) -> (s: String)
    ensures
        s@ == sanitize_text(error@),
{
    let bytes = error.as_bytes();
    let mut out: Vec<u8> = Vec::with_capacity(bytes.len());
    let mut i: usize = 0;
    while i < bytes.len()
        invariant
            i <= bytes@.len(),
            out@ == sanitize_bytes(bytes@.subrange(0, i as int)),
        decreases bytes@.len() - i,
    {
        let b = bytes[i];
        if b == 10 || b == 13 {
            out.push(32);
        } else {
            out.push(b);
        }
        i = i + 1;
        assert(out@ =~= sanitize_bytes(bytes@.subrange(0, i as int)));
    }
    proof {
        assert(bytes@.subrange(0, bytes@.len() as int) =~= bytes@);
        lemma_sanitize_encoded(error@);
    }
    string_of_encoded(out.as_slice(), Ghost(sanitize_text(error@)))
}

/// What the status file says: the health, the agent's process id, and the last
/// error.
#[derive(Debug)]
pub struct Snapshot {
    pub health: Health,
    pub agent_pid: Option<u32>,
    pub last_error: Option<String>,
}

pub struct SnapshotView {
    pub health: Health,
    pub agent_pid: Option<u32>,
    pub last_error: Option<Seq<char>>,
}

impl View for Snapshot {
    type V = SnapshotView;

    open spec fn view(&self) -> SnapshotView {
        SnapshotView {
            health: self.health,
            agent_pid: self.agent_pid,
            last_error: match self.last_error {
                Some(e) => Some(e@),
                None => None,
            },
        }
    }
}

/// A value of the status file, `-` when there is none.
pub open spec fn or_dash(value: Option<Seq<char>>) -> Seq<char> {
    match value {
        Some(v) => v,
        None => "-"@,
    }
}

/// The text of the status file.
pub open spec fn status_text(s: SnapshotView, mode: Seq<char>, broker_pid: u32) -> Seq<char> {
    "health="@ + s.health.spec_as_str() + "\nmode="@ + mode + "\nbroker_pid="@ + decimal(broker_pid as nat)
        + "\nagent_pid="@ + or_dash(
        match s.agent_pid {
            Some(p) => Some(decimal(p as nat)),
            None => None,
        },
    ) + "\nlast_error="@ + or_dash(s.last_error) + "\n"@
}

/// The snapshot that a status of `health`, `agent_pid` and `last_error`
/// records: the error's line breaks become spaces.
pub open spec fn snapshot_of(health: Health, agent_pid: Option<u32>, last_error: Option<Seq<char>>) -> SnapshotView {
    SnapshotView {
        health,
        agent_pid,
        last_error: match last_error {
            Some(e) => Some(sanitize_text(e)),
            None => None,
        },
    }
}

/// The text to write to the status file for `s`, given what it holds: none
/// when it holds `s` already.
pub open spec fn text_to_write(last: Option<SnapshotView>, s: SnapshotView, mode: Seq<char>, broker_pid: u32) -> Option<Seq<char>> {
    if last == Some(s) {
        None
    } else {
        Some(status_text(s, mode, broker_pid))
    }
}

/// Keeps the status file's last content so that it is rewritten only when the
/// content changes.
pub struct StatusWriter {
    path: std::path::PathBuf,
    mode: &'static str,
    last: Option<Snapshot>,
}

impl StatusWriter {
    pub closed spec fn spec_mode(&self) -> &'static str {
        self.mode
    }

    pub closed spec fn spec_path(&self) -> std::path::PathBuf {
        self.path
    }

    pub closed spec fn last(&self) -> Option<SnapshotView> {
        match self.last {
            Some(s) => Some(s@),
            None => None,
        }
    }

    /// A writer for the status file at `path`, of a broker in `mode`.
    pub fn at(path: std::path::PathBuf, mode: &'static str) -> (w: Self)
        ensures
            w.last() is None,
            w.spec_mode() == mode,
            w.spec_path() == path,
    {
        StatusWriter { path, mode, last: None }
    }

    pub fn path(&self) -> (p: &std::path::PathBuf)
        ensures
            *p == self.spec_path(),
    {
        &self.path
    }

    pub fn mode(&self) -> (m: &'static str)
        ensures
            m == self.spec_mode(),
    {
        self.mode
    }

    /// The status to write: the error's line breaks become spaces.
    pub fn snapshot(health: Health, agent_pid: Option<u32>, last_error: Option<&str>) -> (s: Snapshot)
        ensures
            s@ == (SnapshotView {
                health,
                agent_pid,
                last_error: match last_error {
                    Some(e) => Some(sanitize_text(e@)),
                    None => None,
                },
            }),
    {
        let last_error = match last_error {
            Some(error) => Some(sanitize_error(error)),
            None => None,
        };
        Snapshot { health, agent_pid, last_error }
    }

    /// Whether `snapshot` differs from what the file holds.
    pub fn is_new(&self, snapshot: &Snapshot) -> (r: bool)
        ensures
            r == (self.last() != Some(snapshot@)),
    {
        match &self.last {
            None => true,
            Some(last) => {
                let same_pid = match (last.agent_pid, snapshot.agent_pid) {
                    (Some(a), Some(b)) => a == b,
                    (None, None) => true,
                    _ => false,
                };
                let same_error = match (&last.last_error, &snapshot.last_error) {
                    (Some(a), Some(b)) => str_eq(a.as_str(), b.as_str()),
                    (None, None) => true,
                    _ => false,
                };
                !(last.health == snapshot.health && same_pid && same_error)
            },
        }
    }

    /// The status file's text for `snapshot`, written by the broker process
    /// `broker_pid`: one `key=value` line each for the health, the mode, the two
    /// process ids and the last error, `-` standing for a missing value.
    pub fn contents(&self, snapshot: &Snapshot, broker_pid: u32) -> (s: String)
        ensures
            s@ == status_text(snapshot@, self.spec_mode()@, broker_pid),
    {
        let mut s = String::from_str("health=");
        s.append(snapshot.health.as_str());
        s.append("\nmode=");
        s.append(self.mode);
        s.append("\nbroker_pid=");
        let pid = usize_text(broker_pid as usize);
        s.append(pid.as_str());
        s.append("\nagent_pid=");
        match snapshot.agent_pid {
            Some(agent) => {
                let digits = usize_text(agent as usize);
                s.append(digits.as_str());
            },
            None => s.append("-"),
        }
        s.append("\nlast_error=");
        match &snapshot.last_error {
            Some(error) => s.append(error.as_str()),
            None => s.append("-"),
        }
        s.append("\n");
        s
    }

    /// What a status write of `health`, `agent_pid` and `last_error` by the
    /// broker process `broker_pid` has to do: nothing when the file holds that
    /// status already, else write the returned text and then `record` the
    /// returned snapshot.
    pub fn prepare(&self, health: Health, agent_pid: Option<u32>, last_error: Option<&str>, broker_pid: u32) -> (r:
        Option<(Snapshot, String)>)
        ensures
            ({
                let s = snapshot_of(
                    health,
                    agent_pid,
                    match last_error {
                        Some(e) => Some(e@),
                        None => None,
                    },
                );
                match text_to_write(self.last(), s, self.spec_mode()@, broker_pid) {
                    None => r is None,
                    Some(t) => r matches Some((snapshot, text)) && snapshot@ == s && text@ == t,
                }
            }),
    {
        let snapshot = StatusWriter::snapshot(health, agent_pid, last_error);
        if !self.is_new(&snapshot) {
            return None;
        }
        let text = self.contents(&snapshot, broker_pid);
        Some((snapshot, text))
    }

    /// The file now holds `snapshot`.
    pub fn record(&mut self, snapshot: Snapshot)
        ensures
            final(self).last() == Some(snapshot@),
            final(self).spec_mode() == old(self).spec_mode(),
            final(self).spec_path() == old(self).spec_path(),
    {
        self.last = Some(snapshot);
    }
}

/// Law: once a status is written, writing the same status again changes
/// nothing, so the file is rewritten only when its content changes.
pub proof fn law_status_written_once(w: StatusWriter, s: SnapshotView, t: SnapshotView)
    requires
        w.last() == Some(s),
    ensures
        (w.last() != Some(t)) <==> t != s,
{
}

/// Law: the status file is rewritten only when the status changed. Once a
/// status is recorded, writing the same status again has nothing to write;
/// any other status, and any status while nothing is recorded, is written in
/// full with the broker's mode and process id.
pub proof fn law_status_rewritten_only_on_change(
    last: Option<SnapshotView>,
    s: SnapshotView,
    mode: Seq<char>,
    broker_pid: u32,
)
    ensures
        text_to_write(Some(s), s, mode, broker_pid) is None,
        last != Some(s) ==> text_to_write(last, s, mode, broker_pid) == Some(status_text(s, mode, broker_pid)),
        text_to_write(None, s, mode, broker_pid) == Some(status_text(s, mode, broker_pid)),
{
}

/// Law: an error recorded in the status file stays on its line: the recorded
/// message holds no line break, and a message without one is kept as it is.
pub proof fn law_status_error_is_one_line(error: Seq<char>)
    ensures
        !sanitize_text(error).contains('\n'),
        !sanitize_text(error).contains('\r'),
        sanitize_text(error).len() == error.len(),
        !error.contains('\n') && !error.contains('\r') ==> sanitize_text(error) == error,
{
    let s = sanitize_text(error);
    if s.contains('\n') {
        let i = choose|i: int| 0 <= i < s.len() && s[i] == '\n';
        assert(s[i] == sanitize_char(error[i]));
    }
    if s.contains('\r') {
        let i = choose|i: int| 0 <= i < s.len() && s[i] == '\r';
        assert(s[i] == sanitize_char(error[i]));
    }
    if !error.contains('\n') && !error.contains('\r') {
        assert forall|i: int| 0 <= i < error.len() implies s[i] == error[i] by {
            assert(error[i] != '\n' && error[i] != '\r');
        }
        assert(s =~= error);
    }
}

} // verus!
