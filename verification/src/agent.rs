//! The Windows agent's side of the protocol: what it reports of the Windows
//! clipboard and how it answers the broker's commands.

use vstd::prelude::*;
use vstd::utf8::encode_utf8;

use crate::error::IoError;
use crate::protocol::{
    copy_range, frame_fits, protocol_error_message, Frame, FrameView, MessageKind, ProtocolError,
};
use crate::strings::{decimal, usize_text};
use crate::text::{
    text_error_message, utf16_to_utf8, utf16_to_utf8_result, utf8_to_utf16, utf8_to_utf16_result,
    validate_utf8, TextError,
};
use crate::MAX_TEXT_BYTES;

verus! {

/// Largest clipboard handle the agent reads: the longest text and its
/// terminator, in UTF-16 code units of two bytes.
pub const MAX_WINDOWS_TEXT_BYTES: usize = 33554434;

#[derive(Debug)]
pub enum AgentError {
    Win32 { operation: &'static str, code: u32 },
    MalformedClipboard,
    Io(IoError),
    Protocol(ProtocolError),
    Text(TextError),
}

/// The message of an agent error.
pub open spec fn agent_error_message(e: AgentError) -> Seq<char> {
    match e {
        AgentError::Win32 { operation, code } => "Win32 call failed: "@ + operation@ + " ("@ + decimal(
            code as nat,
        ) + ")"@,
        AgentError::MalformedClipboard => "clipboard data was malformed"@,
        AgentError::Io(io) => io.message@,
        AgentError::Protocol(p) => protocol_error_message(p),
        AgentError::Text(t) => text_error_message(t),
    }
}

impl AgentError {
    pub fn message(&self) -> (s: String)
        ensures
            s@ == agent_error_message(*self),
    {
        match self {
            AgentError::Win32 { operation, code } => {
                let mut s = String::from_str("Win32 call failed: ");
                s.append(operation);
                s.append(" (");
                let digits = usize_text(*code as usize);
                s.append(digits.as_str());
                s.append(")");
                s
            },
            AgentError::MalformedClipboard => String::from_str("clipboard data was malformed"),
            AgentError::Io(io) => String::from_str(io.message.as_str()),
            AgentError::Protocol(p) => p.message(),
            AgentError::Text(t) => t.message(),
        }
    }
}

/// Whether a clipboard handle of `size` bytes can hold clipboard text: whole
/// code units, a terminator, and no more than the longest text.
pub fn clipboard_size_valid(size: usize) -> (r: bool)
    ensures
        r == (2 <= size && size <= MAX_WINDOWS_TEXT_BYTES && size % 2 == 0),
{
    !(size < 2 || size > MAX_WINDOWS_TEXT_BYTES || size % 2 != 0)
}

/// `end` is where the clipboard's text ends: its first zero unit.
pub open spec fn is_text_end(units: Seq<u16>, end: int) -> bool {
    0 <= end < units.len() && units[end] == 0 && forall|j: int| 0 <= j < end ==> units[j] != 0
}

/// The text of the code units of a clipboard handle, up to its terminator. An
/// empty text is no selection worth clearing the other side for.
pub fn clipboard_text_from_units(units: &[u16]) -> (r: Result<Option<Vec<u8>>, AgentError>)
    ensures
        !units@.contains(0u16) ==> r matches Err(AgentError::MalformedClipboard),
        forall|end: int|
            #![trigger is_text_end(units@, end)]
            is_text_end(units@, end) ==> if end == 0 {
                r matches Ok(None)
            } else {
                match utf16_to_utf8_result(units@.take(end)) {
                    Ok(bytes) => r matches Ok(Some(v)) && v@ == bytes,
                    Err(e) => r matches Err(AgentError::Text(t)) && t == e,
                }
            },
{
    let mut end: usize = 0;
    while end < units.len() && units[end] != 0
        invariant
            end <= units@.len(),
            forall|j: int| 0 <= j < end ==> units@[j] != 0,
        decreases units@.len() - end,
    {
        end = end + 1;
    }
    if end == units.len() {
        assert(!units@.contains(0u16)) by {
            assert forall|k: int| 0 <= k < units@.len() implies units@[k] != 0u16 by {}
        }
        return Err(AgentError::MalformedClipboard);
    }
    proof {
        assert(units@[end as int] == 0);
        assert forall|e: int| is_text_end(units@, e) implies e == end by {
            if e > end {
                assert(units@[end as int] != 0);
            }
        }
        assert(units@.contains(0u16));
    }
    if end == 0 {
        return Ok(None);
    }
    let text = copy_units(units, end);
    match utf16_to_utf8(text.as_slice()) {
        Ok(bytes) => Ok(Some(bytes)),
        Err(error) => Err(AgentError::Text(error)),
    }
}

fn copy_units(units: &[u16], end: usize) -> (out: Vec<u16>)
    requires
        end <= units@.len(),
    ensures
        out@ == units@.take(end as int),
{
    let mut out: Vec<u16> = Vec::new();
    let mut i: usize = 0;
    while i < end
        invariant
            i <= end <= units@.len(),
            out@ == units@.take(i as int),
        decreases end - i,
    {
        out.push(units[i]);
        i = i + 1;
        assert(out@ =~= units@.take(i as int));
    }
    out
}

/// The code units to place on the Windows clipboard for a `SetWindowsText`
/// payload: the text checked, with CR LF line breaks and a terminator.
pub fn clipboard_write_units(bytes: &[u8]) -> (r: Result<Vec<u16>, AgentError>)
    ensures
        match utf8_to_utf16_result(bytes@) {
            Ok(units) => r matches Ok(w) && w@ == units,
            Err(e) => r matches Err(AgentError::Text(t)) && t == e,
        },
{
    match validate_utf8(bytes) {
        Ok(_) => {},
        Err(error) => return Err(AgentError::Text(error)),
    }
    match utf8_to_utf16(bytes) {
        Ok(wide) => Ok(wide),
        Err(error) => Err(AgentError::Text(error)),
    }
}

/// The payload of a text frame: the text, or nothing.
pub open spec fn text_payload(text: Option<Vec<u8>>) -> Seq<u8> {
    match text {
        Some(t) => t@,
        None => seq![],
    }
}

/// The Hello that opens the agent's stream: its process id, the clipboard
/// sequence number, the startup text if there is one, and whether the startup
/// snapshot could not be read.
pub fn hello_frame(pid: u32, sequence: u32, text: Option<Vec<u8>>, read_error: bool) -> (f: Frame)
    ensures
        f@ == (FrameView {
            kind: MessageKind::Hello,
            request_id: pid as u64,
            sequence,
            flags: ((if text is Some { 1int } else { 0int }) + (if read_error { 2int } else { 0int })) as u32,
            payload: text_payload(text),
        }),
{
    let mut hello = Frame::new(MessageKind::Hello);
    hello.request_id = pid as u64;
    hello.sequence = sequence;
    let mut flags: u32 = 0;
    match text {
        Some(text) => {
            flags = flags + 1;
            hello.payload = text;
        },
        None => {},
    }
    if read_error {
        flags = flags + 2;
    }
    hello.flags = flags;
    hello
}

/// What the agent reports when the Windows clipboard changed: its text, or that
/// it holds none.
pub fn clipboard_update_frame(sequence: u32, text: Option<Vec<u8>>) -> (f: Frame)
    ensures
        f@ == (FrameView {
            kind: if text is Some {
                MessageKind::WindowsText
            } else {
                MessageKind::WindowsUnavailable
            },
            request_id: 0,
            sequence,
            flags: 0,
            payload: text_payload(text),
        }),
{
    let mut frame = Frame::new(
        match &text {
            Some(_) => MessageKind::WindowsText,
            None => MessageKind::WindowsUnavailable,
        },
    );
    frame.sequence = sequence;
    match text {
        Some(text) => frame.payload = text,
        None => {},
    }
    frame
}

fn string_bytes(s: &str) -> (out: Vec<u8>)
    ensures
        out@ == encode_utf8(s@),
{
    let bytes = s.as_bytes();
    let out = copy_range(bytes, 0, bytes.len());
    assert(bytes@.subrange(0, bytes@.len() as int) =~= bytes@);
    out
}

/// The answer to a `SetWindowsText`: the sequence number the write produced, or
/// why it failed.
pub fn write_response(request_id: u64, result: Result<u32, AgentError>) -> (f: Frame)
    ensures
        match result {
            Ok(sequence) => f@ == (FrameView {
                kind: MessageKind::SetWindowsOk,
                request_id,
                sequence,
                flags: 0,
                payload: seq![],
            }),
            Err(e) => f@ == (FrameView {
                kind: MessageKind::SetWindowsError,
                request_id,
                sequence: 0,
                flags: 0,
                payload: encode_utf8(agent_error_message(e)),
            }),
        },
{
    let mut response = match result {
        Ok(sequence) => {
            let mut response = Frame::new(MessageKind::SetWindowsOk);
            response.sequence = sequence;
            response
        },
        Err(error) => {
            let mut response = Frame::new(MessageKind::SetWindowsError);
            let message = error.message();
            response.payload = string_bytes(message.as_str());
            response
        },
    };
    response.request_id = request_id;
    response
}

/// The answer to a command that needs no clipboard access: `Pong` to a `Ping`,
/// a protocol error to anything but `SetWindowsText`, which needs a write first.
pub fn command_response(command: &Frame) -> (r: Option<Frame>)
    ensures
        command.kind == MessageKind::SetWindowsText ==> r is None,
        command.kind == MessageKind::Ping ==> (r matches Some(f) && f@ == (FrameView {
            kind: MessageKind::Pong,
            request_id: command.request_id,
            sequence: 0,
            flags: 0,
            payload: seq![],
        })),
        command.kind != MessageKind::SetWindowsText && command.kind != MessageKind::Ping ==> (r matches Some(
            f,
        ) && f@ == (FrameView {
            kind: MessageKind::ProtocolError,
            request_id: command.request_id,
            sequence: 0,
            flags: 0,
            payload: encode_utf8("unexpected command"@),
        })),
{
    match command.kind {
        MessageKind::SetWindowsText => None,
        MessageKind::Ping => {
            let mut pong = Frame::new(MessageKind::Pong);
            pong.request_id = command.request_id;
            Some(pong)
        },
        _ => {
            let mut error = Frame::new(MessageKind::ProtocolError);
            error.request_id = command.request_id;
            error.payload = string_bytes("unexpected command");
            Some(error)
        },
    }
}

/// Whether a clipboard-update notification reports a selection the broker has
/// not heard of: its sequence number differs from the last one reported.
pub fn update_is_new(last: u32, current: u32) -> (r: bool)
    ensures
        r == (current != last),
{
    current != last
}

/// The last sequence number the broker knows of after a `SetWindowsText`: the
/// one the write produced, or the previous one when the write failed.
pub fn sequence_after_write(last: u32, result: &Result<u32, AgentError>) -> (r: u32)
    ensures
        match result {
            Ok(sequence) => r == *sequence,
            Err(_) => r == last,
        },
{
    match result {
        Ok(sequence) => *sequence,
        Err(_) => last,
    }
}

/// How long to wait before the next attempt to open the clipboard: 5 ms,
/// doubling with each attempt up to the seventh.
pub fn open_retry_delay_ms(attempt: usize) -> (ms: u64)
    ensures
        ms == 5 * vstd::arithmetic::power2::pow2(if attempt < 6 { attempt as nat } else { 6 }),
{
    proof {
        vstd::arithmetic::power2::lemma2_to64();
    }
    if attempt == 0 {
        5
    } else if attempt == 1 {
        10
    } else if attempt == 2 {
        20
    } else if attempt == 3 {
        40
    } else if attempt == 4 {
        80
    } else if attempt == 5 {
        160
    } else {
        320
    }
}

/// Law: any text the agent reads off the Windows clipboard fits in the Hello
/// that reports it at startup and in the update that reports it later, so a
/// startup text never breaks the connection.
pub proof fn law_clipboard_text_fits_its_frames(units: Seq<u16>, pid: u32, sequence: u32, read_error: bool)
    ensures
        utf16_to_utf8_result(units) matches Ok(bytes) ==> {
            &&& frame_fits(
                FrameView {
                    kind: MessageKind::Hello,
                    request_id: pid as u64,
                    sequence,
                    flags: ((1int) + (if read_error { 2int } else { 0int })) as u32,
                    payload: bytes,
                },
            )
            &&& frame_fits(
                FrameView { kind: MessageKind::WindowsText, request_id: 0, sequence, flags: 0, payload: bytes },
            )
        },
{
}

} // verus!
