//! The bounded binary protocol spoken on the broker <-> agent pipe.
//!
//! A frame is a 28-byte header followed by its payload. The header holds the
//! magic `ASWC`, the protocol version, the message kind, the request id, the
//! Windows clipboard sequence number, the payload length and the flags, every
//! integer little-endian.

use vstd::prelude::*;

use crate::error::{IoError, IoErrorKind};
use crate::le::{le_bytes, le_value, lemma_le_bytes_len, lemma_le_round_trip, lemma_le_value_bound, lemma_pow256_values, push_le, read_le};
use crate::strings::{concat, decimal, usize_text};
use crate::{MAX_TEXT_BYTES, PROTOCOL_VERSION};

verus! {

/// Length of the fixed frame header.
pub const HEADER_LEN: usize = 28;

/// Largest payload of a frame that carries no clipboard text.
pub const MAX_CONTROL_BYTES: usize = 1024;

/// Hello flag: the agent's startup snapshot holds text.
pub const HELLO_HAS_TEXT: u32 = 1;

/// Hello flag: the agent could not obtain a stable startup snapshot.
pub const HELLO_READ_ERROR: u32 = 2;

/// The four magic bytes that open every header: `ASWC`.
pub open spec fn magic() -> Seq<u8> {
    seq![0x41u8, 0x53u8, 0x57u8, 0x43u8]
}

#[derive(Clone, Copy, Debug, PartialEq, Eq, Structural)]
pub enum MessageKind {
    Hello,
    WindowsText,
    SetWindowsText,
    SetWindowsOk,
    SetWindowsError,
    Ping,
    Pong,
    ProtocolError,
    WindowsUnavailable,
}

/// The kind that a wire code names, if any.
pub open spec fn kind_from_code(code: nat) -> Option<MessageKind> {
    if code == 1 {
        Some(MessageKind::Hello)
    } else if code == 2 {
        Some(MessageKind::WindowsText)
    } else if code == 3 {
        Some(MessageKind::SetWindowsText)
    } else if code == 4 {
        Some(MessageKind::SetWindowsOk)
    } else if code == 5 {
        Some(MessageKind::SetWindowsError)
    } else if code == 6 {
        Some(MessageKind::Ping)
    } else if code == 7 {
        Some(MessageKind::Pong)
    } else if code == 8 {
        Some(MessageKind::ProtocolError)
    } else if code == 9 {
        Some(MessageKind::WindowsUnavailable)
    } else {
        None
    }
}

impl MessageKind {
    /// The wire code of the kind.
    pub open spec fn spec_code(self) -> u16 {
        match self {
            MessageKind::Hello => 1,
            MessageKind::WindowsText => 2,
            MessageKind::SetWindowsText => 3,
            MessageKind::SetWindowsOk => 4,
            MessageKind::SetWindowsError => 5,
            MessageKind::Ping => 6,
            MessageKind::Pong => 7,
            MessageKind::ProtocolError => 8,
            MessageKind::WindowsUnavailable => 9,
        }
    }

    /// Text-carrying kinds may hold a whole clipboard text, the others a short
    /// control message.
    pub open spec fn spec_payload_limit(self) -> nat {
        match self {
            MessageKind::Hello | MessageKind::WindowsText | MessageKind::SetWindowsText => MAX_TEXT_BYTES as nat,
            _ => MAX_CONTROL_BYTES as nat,
        }
    }

    pub fn code(self) -> (c: u16)
        ensures
            c == self.spec_code(),
    {
        match self {
            MessageKind::Hello => 1,
            MessageKind::WindowsText => 2,
            MessageKind::SetWindowsText => 3,
            MessageKind::SetWindowsOk => 4,
            MessageKind::SetWindowsError => 5,
            MessageKind::Ping => 6,
            MessageKind::Pong => 7,
            MessageKind::ProtocolError => 8,
            MessageKind::WindowsUnavailable => 9,
        }
    }

    pub fn payload_limit(self) -> (limit: usize)
        ensures
            limit as nat == self.spec_payload_limit(),
    {
        match self {
            MessageKind::Hello | MessageKind::WindowsText | MessageKind::SetWindowsText => MAX_TEXT_BYTES,
            _ => MAX_CONTROL_BYTES,
        }
    }

    /// The kind named by a wire code; an unknown code is a protocol error.
    pub fn try_from_code(value: u16) -> (r: Result<MessageKind, ProtocolError>)
        ensures
            match r {
                Ok(kind) => kind_from_code(value as nat) == Some(kind),
                Err(e) => kind_from_code(value as nat) is None && e == ProtocolError::UnknownKind(value),
            },
    {
        match value {
            1 => Ok(MessageKind::Hello),
            2 => Ok(MessageKind::WindowsText),
            3 => Ok(MessageKind::SetWindowsText),
            4 => Ok(MessageKind::SetWindowsOk),
            5 => Ok(MessageKind::SetWindowsError),
            6 => Ok(MessageKind::Ping),
            7 => Ok(MessageKind::Pong),
            8 => Ok(MessageKind::ProtocolError),
            9 => Ok(MessageKind::WindowsUnavailable),
            other => Err(ProtocolError::UnknownKind(other)),
        }
    }
}

pub proof fn lemma_code_round_trip(kind: MessageKind)
    ensures
        kind_from_code(kind.spec_code() as nat) == Some(kind),
        1 <= kind.spec_code() <= 9,
{
}

#[derive(Clone, Debug, PartialEq, Eq)]
pub enum ProtocolError {
    BadMagic,
    Version(u16),
    UnknownKind(u16),
    PayloadTooLarge { actual: usize, limit: usize },
    Io(IoError),
}

/// The message of a protocol error.
pub open spec fn protocol_error_message(e: ProtocolError) -> Seq<char> {
    match e {
        ProtocolError::BadMagic => "invalid protocol magic"@,
        ProtocolError::Version(v) => "unsupported protocol version "@ + decimal(v as nat),
        ProtocolError::UnknownKind(v) => "unknown message kind "@ + decimal(v as nat),
        ProtocolError::PayloadTooLarge { actual, limit } => "payload is "@ + decimal(actual as nat)
            + " bytes, limit is "@ + decimal(limit as nat),
        ProtocolError::Io(io) => io.message@,
    }
}

impl ProtocolError {
    /// The error's message.
    pub fn message(&self) -> (s: String)
        ensures
            s@ == protocol_error_message(*self),
    {
        match self {
            ProtocolError::BadMagic => String::from_str("invalid protocol magic"),
            ProtocolError::Version(v) => {
                let digits = usize_text(*v as usize);
                concat("unsupported protocol version ", digits.as_str())
            },
            ProtocolError::UnknownKind(v) => {
                let digits = usize_text(*v as usize);
                concat("unknown message kind ", digits.as_str())
            },
            ProtocolError::PayloadTooLarge { actual, limit } => {
                let mut s = String::from_str("payload is ");
                let a = usize_text(*actual);
                s.append(a.as_str());
                s.append(" bytes, limit is ");
                let l = usize_text(*limit);
                s.append(l.as_str());
                s
            },
            ProtocolError::Io(io) => String::from_str(io.message.as_str()),
        }
    }
}

/// One message on the broker <-> agent pipe.
///
/// `sequence` is the Windows clipboard sequence number the frame describes; the
/// agent fills it in and the broker never sends a meaningful value.
#[derive(Clone, Debug, PartialEq, Eq)]
pub struct Frame {
    pub kind: MessageKind,
    pub request_id: u64,
    pub sequence: u32,
    pub flags: u32,
    pub payload: Vec<u8>,
}

/// A frame as a mathematical value.
pub struct FrameView {
    pub kind: MessageKind,
    pub request_id: u64,
    pub sequence: u32,
    pub flags: u32,
    pub payload: Seq<u8>,
}

impl View for Frame {
    type V = FrameView;

    open spec fn view(&self) -> FrameView {
        FrameView {
            kind: self.kind,
            request_id: self.request_id,
            sequence: self.sequence,
            flags: self.flags,
            payload: self.payload@,
        }
    }
}

/// A frame can be sent when its payload is within its kind's limit.
pub open spec fn frame_fits(f: FrameView) -> bool {
    f.payload.len() <= f.kind.spec_payload_limit()
}

/// The header bytes of a frame.
pub open spec fn encode_header(f: FrameView) -> Seq<u8> {
    magic() + le_bytes(PROTOCOL_VERSION as nat, 2) + le_bytes(f.kind.spec_code() as nat, 2)
        + le_bytes(f.request_id as nat, 8) + le_bytes(f.sequence as nat, 4)
        + le_bytes(f.payload.len(), 4) + le_bytes(f.flags as nat, 4)
}

/// The bytes of a frame on the wire: its header, then its payload.
pub open spec fn encode_frame(f: FrameView) -> Seq<u8> {
    encode_header(f) + f.payload
}

/// The fields of a header that passed validation.
pub struct HeaderView {
    pub kind: MessageKind,
    pub request_id: u64,
    pub sequence: u32,
    pub flags: u32,
    pub payload_len: nat,
}

/// Validation of the first `HEADER_LEN` bytes of `h`: magic, then version,
/// then kind, then the declared payload length against the kind's limit.
pub open spec fn parse_header(h: Seq<u8>) -> Result<HeaderView, ProtocolError> {
    let version = le_value(h.subrange(4, 6));
    let code = le_value(h.subrange(6, 8));
    let payload_len = le_value(h.subrange(20, 24));
    if h.subrange(0, 4) != magic() {
        Err(ProtocolError::BadMagic)
    } else if version != PROTOCOL_VERSION as nat {
        Err(ProtocolError::Version(version as u16))
    } else {
        match kind_from_code(code) {
            None => Err(ProtocolError::UnknownKind(code as u16)),
            Some(kind) => if payload_len > kind.spec_payload_limit() {
                Err(
                    ProtocolError::PayloadTooLarge {
                        actual: payload_len as usize,
                        limit: kind.spec_payload_limit() as usize,
                    },
                )
            } else {
                Ok(
                    HeaderView {
                        kind,
                        request_id: le_value(h.subrange(8, 16)) as u64,
                        sequence: le_value(h.subrange(16, 20)) as u32,
                        flags: le_value(h.subrange(24, 28)) as u32,
                        payload_len,
                    },
                )
            },
        }
    }
}

/// The frame a header and its payload make up.
pub open spec fn header_frame(h: HeaderView, payload: Seq<u8>) -> FrameView {
    FrameView {
        kind: h.kind,
        request_id: h.request_id,
        sequence: h.sequence,
        flags: h.flags,
        payload,
    }
}

/// The error a stream gives when it ends inside a frame.
pub open spec fn is_eof_error(e: ProtocolError) -> bool {
    e matches ProtocolError::Io(io) && io.kind == IoErrorKind::UnexpectedEof
        && io.message@ == "failed to fill whole buffer"@
}

/// Reading one frame from the start of a blocking stream `s`: the header is
/// validated before any payload byte is needed. `Err(None)` is a stream that
/// ends inside the frame.
pub open spec fn read_frame(s: Seq<u8>) -> Result<FrameView, Option<ProtocolError>> {
    if s.len() < HEADER_LEN {
        Err(None)
    } else {
        match parse_header(s) {
            Err(e) => Err(Some(e)),
            Ok(h) => if s.len() < HEADER_LEN + h.payload_len {
                Err(None)
            } else {
                Ok(header_frame(h, s.subrange(HEADER_LEN as int, HEADER_LEN + h.payload_len)))
            },
        }
    }
}

/// The next step of incremental decoding of the buffered bytes `buf`: no frame
/// yet, a frame together with the number of bytes it took, or an error found in
/// its header.
pub open spec fn decode_next(buf: Seq<u8>) -> Result<Option<(FrameView, nat)>, ProtocolError> {
    if buf.len() < HEADER_LEN {
        Ok(None)
    } else {
        match parse_header(buf) {
            Err(e) => Err(e),
            Ok(h) => if buf.len() < HEADER_LEN + h.payload_len {
                Ok(None)
            } else {
                Ok(
                    Some(
                        (
                            header_frame(h, buf.subrange(HEADER_LEN as int, HEADER_LEN + h.payload_len)),
                            (HEADER_LEN + h.payload_len) as nat,
                        ),
                    ),
                )
            },
        }
    }
}

struct Header {
    kind: MessageKind,
    request_id: u64,
    sequence: u32,
    flags: u32,
    payload_len: usize,
}

impl View for Header {
    type V = HeaderView;

    closed spec fn view(&self) -> HeaderView {
        HeaderView {
            kind: self.kind,
            request_id: self.request_id,
            sequence: self.sequence,
            flags: self.flags,
            payload_len: self.payload_len as nat,
        }
    }
}

impl Header {
    fn parse(header: &[u8]) -> (r: Result<Header, ProtocolError>)
        requires
            header@.len() >= HEADER_LEN,
        ensures
            match r {
                Ok(h) => parse_header(header@) == Ok::<HeaderView, ProtocolError>(h@),
                Err(e) => parse_header(header@) == Err::<HeaderView, ProtocolError>(e),
            },
    {
        let ghost h = header@;
        if header[0] != 0x41 || header[1] != 0x53 || header[2] != 0x57 || header[3] != 0x43 {
            proof {
                if h.subrange(0, 4) == magic() {
                    assert(h.subrange(0, 4)[0] == magic()[0]);
                    assert(h.subrange(0, 4)[1] == magic()[1]);
                    assert(h.subrange(0, 4)[2] == magic()[2]);
                    assert(h.subrange(0, 4)[3] == magic()[3]);
                }
            }
            return Err(ProtocolError::BadMagic);
        }
        assert(h.subrange(0, 4) =~= magic());
        let version = read_le(header, 4, 2);
        proof {
            lemma_le_value_bound(h.subrange(4, 6));
            lemma_pow256_values();
        }
        if version != PROTOCOL_VERSION as u64 {
            return Err(ProtocolError::Version(version as u16));
        }
        let code = read_le(header, 6, 2);
        proof {
            lemma_le_value_bound(h.subrange(6, 8));
        }
        let kind = match MessageKind::try_from_code(code as u16) {
            Ok(kind) => kind,
            Err(e) => return Err(e),
        };
        let request_id = read_le(header, 8, 8);
        let sequence = read_le(header, 16, 4);
        let payload_len = read_le(header, 20, 4);
        let flags = read_le(header, 24, 4);
        proof {
            lemma_le_value_bound(h.subrange(16, 20));
            lemma_le_value_bound(h.subrange(20, 24));
            lemma_le_value_bound(h.subrange(24, 28));
        }
        let limit = kind.payload_limit();
        if payload_len > limit as u64 {
            return Err(ProtocolError::PayloadTooLarge { actual: payload_len as usize, limit });
        }
        Ok(
            Header {
                kind,
                request_id,
                sequence: sequence as u32,
                flags: flags as u32,
                payload_len: payload_len as usize,
            },
        )
    }

    fn into_frame(self, payload: Vec<u8>) -> (f: Frame)
        ensures
            f@ == header_frame(self@, payload@),
    {
        Frame {
            kind: self.kind,
            request_id: self.request_id,
            sequence: self.sequence,
            flags: self.flags,
            payload,
        }
    }
}

/// Copies `bytes[start..end]` into a new vector.
pub(crate) fn copy_range(bytes: &[u8], start: usize, end: usize) -> (out: Vec<u8>)
    requires
        start <= end <= bytes@.len(),
    ensures
        out@ == bytes@.subrange(start as int, end as int),
{
    let mut out: Vec<u8> = Vec::new();
    let mut i = start;
    while i < end
        invariant
            start <= i <= end <= bytes@.len(),
            out@ == bytes@.subrange(start as int, i as int),
        decreases end - i,
    {
        out.push(bytes[i]);
        i = i + 1;
        assert(out@ =~= bytes@.subrange(start as int, i as int));
    }
    out
}

/// Appends all of `bytes`.
fn push_all(out: &mut Vec<u8>, bytes: &[u8])
    ensures
        final(out)@ == old(out)@ + bytes@,
{
    let mut i: usize = 0;
    while i < bytes.len()
        invariant
            i <= bytes@.len(),
            out@ == old(out)@ + bytes@.subrange(0, i as int),
        decreases bytes@.len() - i,
    {
        out.push(bytes[i]);
        i = i + 1;
        assert(out@ =~= old(out)@ + bytes@.subrange(0, i as int));
    }
    assert(bytes@.subrange(0, bytes@.len() as int) =~= bytes@);
}

impl Frame {
    pub fn new(kind: MessageKind) -> (f: Frame)
        ensures
            f.kind == kind,
            f.request_id == 0,
            f.sequence == 0,
            f.flags == 0,
            f.payload@ == Seq::<u8>::empty(),
    {
        Frame { kind, request_id: 0, sequence: 0, flags: 0, payload: Vec::new() }
    }

    /// Reads one frame from the start of the byte stream `input`, as a blocking
    /// reader would: a stream that ends inside the frame is an I/O error.
    pub fn read_from(input: &[u8]) -> (r: Result<Frame, ProtocolError>)
        ensures
            match r {
                Ok(f) => read_frame(input@) == Ok::<FrameView, Option<ProtocolError>>(f@),
                Err(e) => read_frame(input@) == Err::<FrameView, Option<ProtocolError>>(Some(e))
                    || (read_frame(input@) == Err::<FrameView, Option<ProtocolError>>(None) && is_eof_error(e)),
            },
    {
        if input.len() < HEADER_LEN {
            return Err(unexpected_eof());
        }
        let header = match Header::parse(input) {
            Ok(header) => header,
            Err(e) => return Err(e),
        };
        if input.len() - HEADER_LEN < header.payload_len {
            return Err(unexpected_eof());
        }
        let payload = copy_range(input, HEADER_LEN, HEADER_LEN + header.payload_len);
        Ok(header.into_frame(payload))
    }

    /// Appends the frame's wire bytes to `out`; a payload over its kind's limit
    /// is refused and nothing is written.
    pub fn write_to(&self, out: &mut Vec<u8>) -> (r: Result<(), ProtocolError>)
        ensures
            frame_fits(self@) <==> r is Ok,
            r is Ok ==> final(out)@ == old(out)@ + encode_frame(self@),
            r is Err ==> final(out)@ == old(out)@ && r == Err::<(), ProtocolError>(
                ProtocolError::PayloadTooLarge {
                    actual: self.payload@.len() as usize,
                    limit: self.kind.spec_payload_limit() as usize,
                },
            ),
    {
        let limit = self.kind.payload_limit();
        if self.payload.len() > limit {
            return Err(ProtocolError::PayloadTooLarge { actual: self.payload.len(), limit });
        }
        let ghost start = out@;
        out.push(0x41u8);
        out.push(0x53u8);
        out.push(0x57u8);
        out.push(0x43u8);
        push_le(out, PROTOCOL_VERSION as u64, 2);
        push_le(out, self.kind.code() as u64, 2);
        push_le(out, self.request_id, 8);
        push_le(out, self.sequence as u64, 4);
        push_le(out, self.payload.len() as u64, 4);
        push_le(out, self.flags as u64, 4);
        push_all(out, self.payload.as_slice());
        proof {
            assert(out@ =~= start + encode_frame(self@));
        }
        Ok(())
    }
}

fn unexpected_eof() -> (e: ProtocolError)
    ensures
        is_eof_error(e),
{
    ProtocolError::Io(
        IoError {
            kind: IoErrorKind::UnexpectedEof,
            message: String::from_str("failed to fill whole buffer"),
        },
    )
}

/// Incremental decoder for a non-blocking byte stream of frames.
///
/// The header is validated before its payload is buffered, so the buffer never
/// grows beyond one frame's declared size plus the caller's read chunk, and a
/// completed frame takes its allocation with it instead of pinning it here.
#[derive(Debug)]
pub struct FrameDecoder {
    buffer: Vec<u8>,
}

impl View for FrameDecoder {
    type V = Seq<u8>;

    closed spec fn view(&self) -> Seq<u8> {
        self.buffer@
    }
}

impl Default for FrameDecoder {
    fn default() -> (d: Self)
        ensures
            d@ == Seq::<u8>::empty(),
    {
        FrameDecoder { buffer: Vec::new() }
    }
}

impl FrameDecoder {
    pub fn extend(&mut self, bytes: &[u8])
        ensures
            final(self)@ == old(self)@ + bytes@,
    {
        push_all(&mut self.buffer, bytes);
    }

    /// Takes the next complete frame off the front of the buffer. An incomplete
    /// frame or an invalid header leaves the buffer as it is.
    pub fn next_frame(&mut self) -> (r: Result<Option<Frame>, ProtocolError>)
        ensures
            match r {
                Ok(None) => decode_next(old(self)@) == Ok::<Option<(FrameView, nat)>, ProtocolError>(None)
                    && final(self)@ == old(self)@,
                Ok(Some(f)) => decode_next(old(self)@) == Ok::<Option<(FrameView, nat)>, ProtocolError>(
                    Some((f@, (HEADER_LEN + f.payload@.len()) as nat)),
                ) && final(self)@ == old(self)@.skip(HEADER_LEN + f.payload@.len()),
                Err(e) => decode_next(old(self)@) == Err::<Option<(FrameView, nat)>, ProtocolError>(e)
                    && final(self)@ == old(self)@,
            },
    {
        if self.buffer.len() < HEADER_LEN {
            return Ok(None);
        }
        let header = match Header::parse(self.buffer.as_slice()) {
            Ok(header) => header,
            Err(e) => return Err(e),
        };
        if self.buffer.len() - HEADER_LEN < header.payload_len {
            return Ok(None);
        }
        let ghost old_buf = self.buffer@;
        let total = HEADER_LEN + header.payload_len;
        // Splitting moves the payload once; a drain would copy it and then shift
        // whatever follows it.
        let mut payload = self.buffer.split_off(HEADER_LEN);
        self.buffer = payload.split_off(header.payload_len);
        proof {
            assert(payload@ =~= old_buf.subrange(HEADER_LEN as int, total as int));
            assert(self.buffer@ =~= old_buf.skip(total as int));
        }
        Ok(Some(header.into_frame(payload)))
    }
}

/// An encoded frame is its header and its payload.
pub proof fn lemma_encode_len(f: FrameView)
    ensures
        encode_header(f).len() == HEADER_LEN,
        encode_frame(f).len() == HEADER_LEN + f.payload.len(),
{
    lemma_le_bytes_len(PROTOCOL_VERSION as nat, 2);
    lemma_le_bytes_len(f.kind.spec_code() as nat, 2);
    lemma_le_bytes_len(f.request_id as nat, 8);
    lemma_le_bytes_len(f.sequence as nat, 4);
    lemma_le_bytes_len(f.payload.len(), 4);
    lemma_le_bytes_len(f.flags as nat, 4);
}

proof fn lemma_split_at(a: Seq<u8>, b: Seq<u8>)
    ensures
        (a + b).subrange(0, a.len() as int) == a,
        (a + b).subrange(a.len() as int, (a.len() + b.len()) as int) == b,
{
    assert((a + b).subrange(0, a.len() as int) =~= a);
    assert((a + b).subrange(a.len() as int, (a.len() + b.len()) as int) =~= b);
}

proof fn lemma_sub_sub(s: Seq<u8>, i: int, j: int, k: int, l: int)
    requires
        0 <= i <= j <= s.len(),
        0 <= k <= l <= j - i,
    ensures
        s.subrange(i, j).subrange(k, l) == s.subrange(i + k, i + l),
{
    assert(s.subrange(i, j).subrange(k, l) =~= s.subrange(i + k, i + l));
}

/// Where each field of an encoded header lies.
proof fn lemma_header_fields(f: FrameView, rest: Seq<u8>)
    ensures
        ({
            let s = encode_header(f) + rest;
            &&& s.subrange(0, 4) == magic()
            &&& s.subrange(4, 6) == le_bytes(PROTOCOL_VERSION as nat, 2)
            &&& s.subrange(6, 8) == le_bytes(f.kind.spec_code() as nat, 2)
            &&& s.subrange(8, 16) == le_bytes(f.request_id as nat, 8)
            &&& s.subrange(16, 20) == le_bytes(f.sequence as nat, 4)
            &&& s.subrange(20, 24) == le_bytes(f.payload.len(), 4)
            &&& s.subrange(24, 28) == le_bytes(f.flags as nat, 4)
        }),
{
    lemma_le_bytes_len(PROTOCOL_VERSION as nat, 2);
    lemma_le_bytes_len(f.kind.spec_code() as nat, 2);
    lemma_le_bytes_len(f.request_id as nat, 8);
    lemma_le_bytes_len(f.sequence as nat, 4);
    lemma_le_bytes_len(f.payload.len(), 4);
    lemma_le_bytes_len(f.flags as nat, 4);
    let p1 = magic();
    let p2 = p1 + le_bytes(PROTOCOL_VERSION as nat, 2);
    let p3 = p2 + le_bytes(f.kind.spec_code() as nat, 2);
    let p4 = p3 + le_bytes(f.request_id as nat, 8);
    let p5 = p4 + le_bytes(f.sequence as nat, 4);
    let p6 = p5 + le_bytes(f.payload.len(), 4);
    let p7 = p6 + le_bytes(f.flags as nat, 4);
    let s = p7 + rest;
    assert(encode_header(f) == p7);
    lemma_split_at(p7, rest);
    lemma_split_at(p6, le_bytes(f.flags as nat, 4));
    lemma_split_at(p5, le_bytes(f.payload.len(), 4));
    lemma_split_at(p4, le_bytes(f.sequence as nat, 4));
    lemma_split_at(p3, le_bytes(f.request_id as nat, 8));
    lemma_split_at(p2, le_bytes(f.kind.spec_code() as nat, 2));
    lemma_split_at(p1, le_bytes(PROTOCOL_VERSION as nat, 2));
    lemma_sub_sub(s, 0, 28, 24, 28);
    lemma_sub_sub(s, 0, 28, 0, 24);
    lemma_sub_sub(s, 0, 24, 20, 24);
    lemma_sub_sub(s, 0, 24, 0, 20);
    lemma_sub_sub(s, 0, 20, 16, 20);
    lemma_sub_sub(s, 0, 20, 0, 16);
    lemma_sub_sub(s, 0, 16, 8, 16);
    lemma_sub_sub(s, 0, 16, 0, 8);
    lemma_sub_sub(s, 0, 8, 6, 8);
    lemma_sub_sub(s, 0, 8, 0, 6);
    lemma_sub_sub(s, 0, 6, 4, 6);
    lemma_sub_sub(s, 0, 6, 0, 4);
    assert(p1.len() == 4);
    assert(p2.len() == 6);
    assert(p6.len() == 24);
    assert(p7.len() == 28);
    assert(s.subrange(0, 28) == p7);
    assert(s.subrange(0, 24) == p6);
    assert(s.subrange(24, 28) == le_bytes(f.flags as nat, 4));
    assert(s.subrange(0, 4) == magic());
}

/// The header of an encoded frame that fits parses back to the frame's fields,
/// whatever follows it.
pub proof fn lemma_parse_encoded_header(f: FrameView, rest: Seq<u8>)
    requires
        frame_fits(f),
    ensures
        parse_header(encode_header(f) + rest) == Ok::<HeaderView, ProtocolError>(
            HeaderView {
                kind: f.kind,
                request_id: f.request_id,
                sequence: f.sequence,
                flags: f.flags,
                payload_len: f.payload.len(),
            },
        ),
{
    lemma_pow256_values();
    lemma_code_round_trip(f.kind);
    lemma_header_fields(f, rest);
    lemma_le_round_trip(PROTOCOL_VERSION as nat, 2);
    lemma_le_round_trip(f.kind.spec_code() as nat, 2);
    lemma_le_round_trip(f.request_id as nat, 8);
    lemma_le_round_trip(f.sequence as nat, 4);
    lemma_le_round_trip(f.payload.len(), 4);
    lemma_le_round_trip(f.flags as nat, 4);
}

/// Law: a frame written with `write_to` is read back by `read_from` as the same
/// frame, whatever the stream holds after it.
pub proof fn law_read_frame_round_trip(f: FrameView, rest: Seq<u8>)
    requires
        frame_fits(f),
    ensures
        read_frame(encode_frame(f) + rest) == Ok::<FrameView, Option<ProtocolError>>(f),
{
    lemma_encode_len(f);
    let s = encode_frame(f) + rest;
    assert(s =~= encode_header(f) + (f.payload + rest));
    lemma_parse_encoded_header(f, f.payload + rest);
    assert(s.subrange(HEADER_LEN as int, HEADER_LEN + f.payload.len()) =~= f.payload);
}

/// Law: the decoder hands out a buffered frame as soon as all of it has arrived,
/// takes exactly its bytes and leaves what follows for the next call.
pub proof fn law_decoder_takes_whole_frame(f: FrameView, rest: Seq<u8>)
    requires
        frame_fits(f),
    ensures
        decode_next(encode_frame(f) + rest) == Ok::<Option<(FrameView, nat)>, ProtocolError>(
            Some((f, encode_frame(f).len()))),
        (encode_frame(f) + rest).skip(encode_frame(f).len() as int) == rest,
{
    lemma_encode_len(f);
    let s = encode_frame(f) + rest;
    assert(s =~= encode_header(f) + (f.payload + rest));
    lemma_parse_encoded_header(f, f.payload + rest);
    assert(s.subrange(HEADER_LEN as int, HEADER_LEN + f.payload.len()) =~= f.payload);
    assert(s.skip(encode_frame(f).len() as int) =~= rest);
}

/// Law: as long as only part of a frame has arrived, the decoder yields nothing
/// and keeps what it has.
pub proof fn law_decoder_waits_for_rest_of_frame(f: FrameView, k: nat)
    requires
        frame_fits(f),
        k < encode_frame(f).len(),
    ensures
        decode_next(encode_frame(f).take(k as int)) == Ok::<Option<(FrameView, nat)>, ProtocolError>(None),
{
    lemma_encode_len(f);
    if k >= HEADER_LEN {
        let s = encode_frame(f).take(k as int);
        let tail = f.payload.take(k - HEADER_LEN);
        assert(s =~= encode_header(f) + tail);
        lemma_parse_encoded_header(f, tail);
    }
}

/// Law: a header that fails validation is refused before any payload byte is
/// needed: the verdict is the same whether or not the payload has arrived.
pub proof fn law_header_refused_before_payload(buf: Seq<u8>)
    requires
        buf.len() >= HEADER_LEN,
        parse_header(buf) is Err,
    ensures
        decode_next(buf) == decode_next(buf.take(HEADER_LEN as int)),
        read_frame(buf) == read_frame(buf.take(HEADER_LEN as int)),
        decode_next(buf) is Err,
{
    let h = buf.take(HEADER_LEN as int);
    assert(h.subrange(0, 4) =~= buf.subrange(0, 4));
    assert(h.subrange(4, 6) =~= buf.subrange(4, 6));
    assert(h.subrange(6, 8) =~= buf.subrange(6, 8));
    assert(h.subrange(8, 16) =~= buf.subrange(8, 16));
    assert(h.subrange(16, 20) =~= buf.subrange(16, 20));
    assert(h.subrange(20, 24) =~= buf.subrange(20, 24));
    assert(h.subrange(24, 28) =~= buf.subrange(24, 28));
}

/// What draining the decoder's buffer `buf` gives: the frames taken off its
/// front in order, the bytes that stay, and the header error that stopped it,
/// if one did rather than an incomplete frame.
pub open spec fn drain(buf: Seq<u8>) -> (Seq<FrameView>, Seq<u8>, Option<ProtocolError>)
    decreases buf.len(),
{
    match decode_next(buf) {
        Ok(None) => (seq![], buf, None),
        Err(e) => (seq![], buf, Some(e)),
        Ok(Some((f, n))) => if 0 < n <= buf.len() {
            let (fs, rest, e) = drain(buf.skip(n as int));
            (seq![f] + fs, rest, e)
        } else {
            (seq![], buf, None)
        },
    }
}

/// The frames a decoder holding `buf` hands out when the chunks arrive one by
/// one and it is drained after each, with what it keeps and the error, if any,
/// that stopped it; no chunk is taken after an error.
pub open spec fn feed_chunks(buf: Seq<u8>, chunks: Seq<Seq<u8>>) -> (Seq<FrameView>, Seq<u8>, Option<ProtocolError>)
    decreases chunks.len(),
{
    if chunks.len() == 0 {
        (seq![], buf, None)
    } else {
        let (fs, rest, e) = drain(buf + chunks[0]);
        if e is Some {
            (fs, rest, e)
        } else {
            let (gs, rest2, e2) = feed_chunks(rest, chunks.skip(1));
            (fs + gs, rest2, e2)
        }
    }
}

/// The chunks one after another.
pub open spec fn flatten(chunks: Seq<Seq<u8>>) -> Seq<u8>
    decreases chunks.len(),
{
    if chunks.len() == 0 {
        seq![]
    } else {
        chunks[0] + flatten(chunks.skip(1))
    }
}

/// The frames' wire bytes one after another.
pub open spec fn encode_frames(fs: Seq<FrameView>) -> Seq<u8>
    decreases fs.len(),
{
    if fs.len() == 0 {
        seq![]
    } else {
        encode_frame(fs[0]) + encode_frames(fs.skip(1))
    }
}

/// Bytes that arrive after a complete header or frame change nothing of what
/// the decoder makes of it.
proof fn lemma_decode_next_prefix(b: Seq<u8>, c: Seq<u8>)
    requires
        decode_next(b) != Ok::<Option<(FrameView, nat)>, ProtocolError>(None),
    ensures
        decode_next(b + c) == decode_next(b),
{
    let x = b + c;
    assert(x.subrange(0, 4) =~= b.subrange(0, 4));
    assert(x.subrange(4, 6) =~= b.subrange(4, 6));
    assert(x.subrange(6, 8) =~= b.subrange(6, 8));
    assert(x.subrange(8, 16) =~= b.subrange(8, 16));
    assert(x.subrange(16, 20) =~= b.subrange(16, 20));
    assert(x.subrange(20, 24) =~= b.subrange(20, 24));
    assert(x.subrange(24, 28) =~= b.subrange(24, 28));
    if let Ok(h) = parse_header(b) {
        if b.len() >= HEADER_LEN + h.payload_len {
            assert(x.subrange(HEADER_LEN as int, HEADER_LEN + h.payload_len) =~= b.subrange(
                HEADER_LEN as int,
                HEADER_LEN + h.payload_len,
            ));
        }
    }
}

/// Law: draining after more bytes arrive gives the frames drained before,
/// followed by what the bytes kept and the new ones give; after a header error
/// nothing more comes out.
pub proof fn law_drain_append(b: Seq<u8>, c: Seq<u8>)
    ensures
        drain(b).2 is None ==> drain(b + c) == (
            drain(b).0 + drain(drain(b).1 + c).0,
            drain(drain(b).1 + c).1,
            drain(drain(b).1 + c).2,
        ),
        drain(b).2 is Some ==> drain(b + c) == (drain(b).0, drain(b).1 + c, drain(b).2),
    decreases b.len(),
{
    match decode_next(b) {
        Ok(None) => {
            assert(drain(b).0 + drain(b + c).0 =~= drain(b + c).0);
        },
        Err(e) => {
            lemma_decode_next_prefix(b, c);
        },
        Ok(Some((f, n))) => {
            lemma_decode_next_prefix(b, c);
            if 0 < n <= b.len() {
                let r = b.skip(n as int);
                assert((b + c).skip(n as int) =~= r + c);
                law_drain_append(r, c);
                let (fs, rest, e) = drain(r);
                if e is None {
                    assert(seq![f] + (fs + drain(rest + c).0) =~= (seq![f] + fs) + drain(rest + c).0);
                }
            }
        },
    }
}

proof fn lemma_drain_rest(b: Seq<u8>)
    ensures
        drain(b).2 is None ==> decode_next(drain(b).1) == Ok::<Option<(FrameView, nat)>, ProtocolError>(None)
            || (decode_next(drain(b).1) matches Ok(Some((_, n))) && !(0 < n <= drain(b).1.len())),
    decreases b.len(),
{
    if let Ok(Some((f, n))) = decode_next(b) {
        if 0 < n <= b.len() {
            lemma_drain_rest(b.skip(n as int));
        }
    }
}

/// A buffer the decoder has drained holds no complete frame.
proof fn lemma_decoded_lengths(b: Seq<u8>)
    ensures
        decode_next(b) matches Ok(Some((_, n))) ==> HEADER_LEN <= n <= b.len(),
{
}

/// Law: the frames a decoder hands out, and the error that stops it, do not
/// depend on how the stream was cut into chunks: feeding the chunks one by one
/// to a decoder holding `buf`, draining after each, gives what draining `buf`
/// followed by all of them at once gives.
pub proof fn law_decoding_ignores_chunking(buf: Seq<u8>, chunks: Seq<Seq<u8>>)
    requires
        decode_next(buf) == Ok::<Option<(FrameView, nat)>, ProtocolError>(None),
    ensures
        feed_chunks(buf, chunks).0 == drain(buf + flatten(chunks)).0,
        feed_chunks(buf, chunks).2 == drain(buf + flatten(chunks)).2,
    decreases chunks.len(),
{
    if chunks.len() == 0 {
        assert(buf + flatten(chunks) =~= buf);
        return;
    }
    let c0 = chunks[0];
    let rest_chunks = chunks.skip(1);
    assert(buf + flatten(chunks) =~= (buf + c0) + flatten(rest_chunks));
    law_drain_append(buf + c0, flatten(rest_chunks));
    let (fs, rest, e) = drain(buf + c0);
    if e is None {
        lemma_drain_rest(buf + c0);
        lemma_decoded_lengths(rest);
        law_decoding_ignores_chunking(rest, rest_chunks);
    }
}

/// Law: a stream of frames within their limits decodes to exactly those
/// frames, in order, with nothing left over and no error.
pub proof fn law_stream_decodes_to_its_frames(fs: Seq<FrameView>)
    requires
        forall|i: int| 0 <= i < fs.len() ==> frame_fits(#[trigger] fs[i]),
    ensures
        drain(encode_frames(fs)) == (fs, Seq::<u8>::empty(), None::<ProtocolError>),
    decreases fs.len(),
{
    if fs.len() == 0 {
        assert(decode_next(Seq::<u8>::empty()) == Ok::<Option<(FrameView, nat)>, ProtocolError>(None));
        assert(fs =~= Seq::<FrameView>::empty());
        return;
    }
    let f = fs[0];
    let rest = fs.skip(1);
    assert forall|i: int| 0 <= i < rest.len() implies frame_fits(#[trigger] rest[i]) by {
        assert(rest[i] == fs[i + 1]);
    }
    law_stream_decodes_to_its_frames(rest);
    law_decoder_takes_whole_frame(f, encode_frames(rest));
    lemma_encode_len(f);
    assert(seq![f] + rest =~= fs);
}

/// Law: however a stream of frames within their limits is cut into chunks, a
/// fresh decoder fed the chunks one by one, and drained after each, hands out
/// exactly those frames in order and never an error.
pub proof fn law_chunked_stream_decodes_to_its_frames(fs: Seq<FrameView>, chunks: Seq<Seq<u8>>)
    requires
        forall|i: int| 0 <= i < fs.len() ==> frame_fits(#[trigger] fs[i]),
        flatten(chunks) == encode_frames(fs),
    ensures
        feed_chunks(Seq::<u8>::empty(), chunks).0 == fs,
        feed_chunks(Seq::<u8>::empty(), chunks).2 is None,
{
    assert(decode_next(Seq::<u8>::empty()) == Ok::<Option<(FrameView, nat)>, ProtocolError>(None));
    law_decoding_ignores_chunking(Seq::<u8>::empty(), chunks);
    assert(Seq::<u8>::empty() + flatten(chunks) =~= encode_frames(fs));
    law_stream_decodes_to_its_frames(fs);
}

/// Law: every kind that carries clipboard text (the Hello's startup text, a
/// Windows text report and a write to Windows) takes a payload of up to
/// `MAX_TEXT_BYTES`, every other kind up to `MAX_CONTROL_BYTES`, so any such
/// frame with a text of up to `MAX_TEXT_BYTES` is written, read back and
/// decoded as itself.
pub proof fn law_text_frames_take_whole_texts(f: FrameView, rest: Seq<u8>)
    ensures
        MessageKind::Hello.spec_payload_limit() == MAX_TEXT_BYTES,
        MessageKind::WindowsText.spec_payload_limit() == MAX_TEXT_BYTES,
        MessageKind::SetWindowsText.spec_payload_limit() == MAX_TEXT_BYTES,
        !(f.kind == MessageKind::Hello || f.kind == MessageKind::WindowsText || f.kind == MessageKind::SetWindowsText)
            ==> f.kind.spec_payload_limit() == MAX_CONTROL_BYTES,
        (f.kind == MessageKind::Hello || f.kind == MessageKind::WindowsText || f.kind == MessageKind::SetWindowsText)
            && f.payload.len() <= MAX_TEXT_BYTES ==> {
            &&& frame_fits(f)
            &&& read_frame(encode_frame(f) + rest) == Ok::<FrameView, Option<ProtocolError>>(f)
            &&& decode_next(encode_frame(f) + rest) == Ok::<Option<(FrameView, nat)>, ProtocolError>(
                Some((f, encode_frame(f).len())),
            )
        },
{
    if (f.kind == MessageKind::Hello || f.kind == MessageKind::WindowsText || f.kind == MessageKind::SetWindowsText)
        && f.payload.len() <= MAX_TEXT_BYTES {
        law_read_frame_round_trip(f, rest);
        law_decoder_takes_whole_frame(f, rest);
    }
}

} // verus!
