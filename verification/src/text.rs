//! Clipboard text validation, newline normalization and UTF-16 conversion.

use vstd::prelude::*;
use vstd::utf8::{
    char_is_scalar, char_u32_cast, decode_utf8, encode_scalar, encode_utf8,
    encode_utf8_decode_utf8, encode_utf8_valid_utf8, has_width_1_encoding, has_width_2_encoding,
    has_width_3_encoding, has_width_4_encoding, is_scalar, valid_utf8,
};

use crate::strings::{decimal, usize_text};
use crate::MAX_TEXT_BYTES;

verus! {

#[derive(Clone, Copy, Debug, Eq, PartialEq, Structural)]
pub enum TextError {
    EmbeddedNul,
    TooLarge { actual: usize, limit: usize },
    InvalidUtf8,
    InvalidUtf16,
}

/// The message of a text error, as the broker logs it.
pub open spec fn text_error_message(e: TextError) -> Seq<char> {
    match e {
        TextError::EmbeddedNul => "clipboard text contains an embedded NUL"@,
        TextError::TooLarge { actual, limit } => "clipboard text is "@ + decimal(actual as nat)
            + " bytes, limit is "@ + decimal(limit as nat),
        TextError::InvalidUtf8 => "clipboard text is not valid UTF-8"@,
        TextError::InvalidUtf16 => "clipboard text is not valid UTF-16"@,
    }
}

impl TextError {
    /// The error's message.
    pub fn message(&self) -> (s: String)
        ensures
            s@ == text_error_message(*self),
    {
        match self {
            TextError::EmbeddedNul => String::from_str("clipboard text contains an embedded NUL"),
            TextError::TooLarge { actual, limit } => {
                let mut s = String::from_str("clipboard text is ");
                let a = usize_text(*actual);
                s.append(a.as_str());
                s.append(" bytes, limit is ");
                let l = usize_text(*limit);
                s.append(l.as_str());
                s
            },
            TextError::InvalidUtf8 => String::from_str("clipboard text is not valid UTF-8"),
            TextError::InvalidUtf16 => String::from_str("clipboard text is not valid UTF-16"),
        }
    }
}

/* Newline conversion */

/// The newline a conversion writes: LF, or CR LF.
pub open spec fn newline_text(crlf: bool) -> Seq<char> {
    if crlf {
        seq!['\r', '\n']
    } else {
        seq!['\n']
    }
}

pub open spec fn newline_bytes(crlf: bool) -> Seq<u8> {
    if crlf {
        seq![13u8, 10u8]
    } else {
        seq![10u8]
    }
}

/// Replaces every line break of `text` (CR LF, a lone CR or a lone LF) by the
/// chosen newline.
pub open spec fn convert_newlines_text(text: Seq<char>, crlf: bool) -> Seq<char>
    decreases text.len(),
{
    if text.len() == 0 {
        seq![]
    } else if text[0] == '\r' {
        if text.len() > 1 && text[1] == '\n' {
            newline_text(crlf) + convert_newlines_text(text.skip(2), crlf)
        } else {
            newline_text(crlf) + convert_newlines_text(text.skip(1), crlf)
        }
    } else if text[0] == '\n' {
        newline_text(crlf) + convert_newlines_text(text.skip(1), crlf)
    } else {
        seq![text[0]] + convert_newlines_text(text.skip(1), crlf)
    }
}

/// The same conversion over bytes: CR is 13 and LF is 10.
pub open spec fn convert_newlines_bytes(bytes: Seq<u8>, crlf: bool) -> Seq<u8>
    decreases bytes.len(),
{
    if bytes.len() == 0 {
        seq![]
    } else if bytes[0] == 13 {
        if bytes.len() > 1 && bytes[1] == 10 {
            newline_bytes(crlf) + convert_newlines_bytes(bytes.skip(2), crlf)
        } else {
            newline_bytes(crlf) + convert_newlines_bytes(bytes.skip(1), crlf)
        }
    } else if bytes[0] == 10 {
        newline_bytes(crlf) + convert_newlines_bytes(bytes.skip(1), crlf)
    } else {
        seq![bytes[0]] + convert_newlines_bytes(bytes.skip(1), crlf)
    }
}

/// The bytes of one character: a single byte equal to the character for ASCII,
/// else bytes that all have the high bit set.
pub(crate) proof fn lemma_scalar_bytes(c: char)
    ensures
        (c as u32) < 0x80 ==> encode_scalar(c as u32) == seq![(c as u32) as u8],
        (c as u32) >= 0x80 ==> encode_scalar(c as u32).len() >= 2 && forall|i: int|
            0 <= i < encode_scalar(c as u32).len() ==> #[trigger] encode_scalar(c as u32)[i] >= 0x80,
        encode_scalar(c as u32).len() >= 1,
{
    char_is_scalar(c);
    let v = c as u32;
    if has_width_1_encoding(v) {
        assert(((v & 0x7F) as u8) == (v as u8)) by (bit_vector)
            requires
                v <= 0x7F,
        ;
    } else if has_width_2_encoding(v) {
        assert((0xC0u8 | (((v >> 6) & 0x1F) as u8)) >= 0x80u8) by (bit_vector);
        assert((0x80u8 | ((v & 0x3F) as u8)) >= 0x80u8) by (bit_vector);
    } else if has_width_3_encoding(v) {
        assert((0xE0u8 | (((v >> 12) & 0x0F) as u8)) >= 0x80u8) by (bit_vector);
        assert((0x80u8 | (((v >> 6) & 0x3F) as u8)) >= 0x80u8) by (bit_vector);
        assert((0x80u8 | ((v & 0x3F) as u8)) >= 0x80u8) by (bit_vector);
    } else {
        assert(has_width_4_encoding(v));
        assert((0xF0u8 | (((v >> 18) & 0x7) as u8)) >= 0x80u8) by (bit_vector);
        assert((0x80u8 | (((v >> 12) & 0x3F) as u8)) >= 0x80u8) by (bit_vector);
        assert((0x80u8 | (((v >> 6) & 0x3F) as u8)) >= 0x80u8) by (bit_vector);
        assert((0x80u8 | ((v & 0x3F) as u8)) >= 0x80u8) by (bit_vector);
    }
}

pub proof fn lemma_encode_utf8_concat(a: Seq<char>, b: Seq<char>)
    ensures
        encode_utf8(a + b) == encode_utf8(a) + encode_utf8(b),
    decreases a.len(),
{
    if a.len() > 0 {
        assert((a + b).drop_first() =~= a.drop_first() + b);
        lemma_encode_utf8_concat(a.drop_first(), b);
        assert(encode_utf8(a + b) =~= encode_utf8(a) + encode_utf8(b));
    } else {
        assert(a + b =~= b);
        assert(encode_utf8(a) + encode_utf8(b) =~= encode_utf8(b));
    }
}

proof fn lemma_encode_ascii(c: Seq<char>)
    requires
        c.len() > 0,
        (c[0] as u32) < 0x80,
    ensures
        encode_utf8(c).len() >= 1,
        encode_utf8(c)[0] == (c[0] as u32) as u8,
        encode_utf8(c).skip(1) == encode_utf8(c.skip(1)),
{
    lemma_scalar_bytes(c[0]);
    assert(c.drop_first() =~= c.skip(1));
    assert(encode_utf8(c).skip(1) =~= encode_utf8(c.skip(1)));
}

pub(crate) proof fn lemma_encode_one(ch: char)
    ensures
        encode_utf8(seq![ch]) == encode_scalar(ch as u32),
{
    let one = seq![ch];
    assert(one.drop_first() =~= Seq::<char>::empty());
    assert(encode_utf8(one.drop_first()) =~= Seq::<u8>::empty());
    assert(encode_utf8(one) == encode_scalar(one[0] as u32) + encode_utf8(one.drop_first()));
    assert(encode_utf8(one) =~= encode_scalar(ch as u32));
}

/// An ASCII character is known by its code.
pub(crate) proof fn lemma_ascii_code(c: char)
    ensures
        (c as u32 == 13) <==> (c == '\r'),
        (c as u32 == 10) <==> (c == '\n'),
        (c as u32 == 0) <==> (c == '\0'),
{
    assert('\r' as u32 == 13);
    assert('\n' as u32 == 10);
    assert('\0' as u32 == 0);
    if c as u32 == 13 {
        char_u32_cast(c, 13);
        char_u32_cast('\r', 13);
    }
    if c as u32 == 10 {
        char_u32_cast(c, 10);
        char_u32_cast('\n', 10);
    }
    if c as u32 == 0 {
        char_u32_cast(c, 0);
        char_u32_cast('\0', 0);
    }
}

proof fn lemma_newline_encoding(crlf: bool)
    ensures
        encode_utf8(newline_text(crlf)) == newline_bytes(crlf),
{
    let c = newline_text(crlf);
    lemma_scalar_bytes('\r');
    lemma_scalar_bytes('\n');
    lemma_encode_one('\r');
    lemma_encode_one('\n');
    lemma_ascii_code('\r');
    lemma_ascii_code('\n');
    if crlf {
        assert(c =~= seq!['\r'] + seq!['\n']);
        lemma_encode_utf8_concat(seq!['\r'], seq!['\n']);
        assert(encode_utf8(c) =~= newline_bytes(crlf));
    } else {
        assert(encode_utf8(c) =~= newline_bytes(crlf));
    }
}

/// Bytes with the high bit set pass through the byte conversion unchanged.
proof fn lemma_high_bytes_pass(p: Seq<u8>, r: Seq<u8>, crlf: bool)
    requires
        forall|i: int| 0 <= i < p.len() ==> p[i] >= 0x80,
    ensures
        convert_newlines_bytes(p + r, crlf) == p + convert_newlines_bytes(r, crlf),
    decreases p.len(),
{
    if p.len() > 0 {
        let s = p + r;
        assert(s[0] == p[0]);
        assert(s.skip(1) =~= p.skip(1) + r);
        lemma_high_bytes_pass(p.skip(1), r, crlf);
        assert(convert_newlines_bytes(s, crlf) =~= p + convert_newlines_bytes(r, crlf));
    } else {
        assert(p + r =~= r);
        assert(p + convert_newlines_bytes(r, crlf) =~= convert_newlines_bytes(r, crlf));
    }
}

/// Converting newlines in the UTF-8 bytes of a text is converting them in the
/// text: CR and LF never occur inside a multi-byte character.
pub proof fn lemma_convert_newlines_encoded(c: Seq<char>, crlf: bool)
    ensures
        convert_newlines_bytes(encode_utf8(c), crlf) == encode_utf8(convert_newlines_text(c, crlf)),
    decreases c.len(),
{
    if c.len() == 0 {
        return;
    }
    let e = encode_utf8(c);
    let rest = c.skip(1);
    lemma_scalar_bytes(c[0]);
    lemma_newline_encoding(crlf);
    if (c[0] as u32) >= 0x80 {
        assert(c[0] != '\r' && c[0] != '\n');
        assert(c.drop_first() =~= rest);
        lemma_high_bytes_pass(encode_scalar(c[0] as u32), encode_utf8(rest), crlf);
        lemma_convert_newlines_encoded(rest, crlf);
        lemma_encode_utf8_concat(seq![c[0]], convert_newlines_text(rest, crlf));
        lemma_encode_one(c[0]);
    } else {
        lemma_encode_ascii(c);
        lemma_ascii_code(c[0]);
        if c[0] == '\r' {
            assert(e[0] == 13);
            if c.len() > 1 && c[1] == '\n' {
                lemma_encode_ascii(rest);
                assert(rest[0] == c[1]);
                lemma_ascii_code(c[1]);
                assert(e.skip(1)[0] == 10);
                assert(e.skip(2) =~= e.skip(1).skip(1));
                assert(rest.skip(1) =~= c.skip(2));
                lemma_convert_newlines_encoded(c.skip(2), crlf);
                lemma_encode_utf8_concat(newline_text(crlf), convert_newlines_text(c.skip(2), crlf));
            } else {
                if c.len() > 1 {
                    lemma_scalar_bytes(rest[0]);
                    assert(rest[0] == c[1]);
                    lemma_ascii_code(c[1]);
                    assert(rest.drop_first() =~= rest.skip(1));
                    assert(encode_utf8(rest)[0] == encode_scalar(rest[0] as u32)[0]);
                    assert(e.skip(1)[0] == e[1]);
                    assert(e[1] != 10);
                } else {
                    assert(rest =~= Seq::<char>::empty());
                }
                lemma_convert_newlines_encoded(rest, crlf);
                lemma_encode_utf8_concat(newline_text(crlf), convert_newlines_text(rest, crlf));
            }
        } else if c[0] == '\n' {
            assert(e[0] == 10);
            lemma_convert_newlines_encoded(rest, crlf);
            lemma_encode_utf8_concat(newline_text(crlf), convert_newlines_text(rest, crlf));
        } else {
            lemma_ascii_code(c[0]);
            assert(e[0] != 13 && e[0] != 10);
            lemma_convert_newlines_encoded(rest, crlf);
            lemma_encode_utf8_concat(seq![c[0]], convert_newlines_text(rest, crlf));
            lemma_encode_one(c[0]);
            assert(seq![e[0]] =~= seq![(c[0] as u32) as u8]);
        }
    }
}

/// Converts the line breaks of UTF-8 bytes in one pass.
fn convert_newline_bytes(bytes: &[u8], crlf: bool) -> (out: Vec<u8>)
    ensures
        out@ == convert_newlines_bytes(bytes@, crlf),
{
    let mut output: Vec<u8> = Vec::with_capacity(bytes.len());
    let mut index: usize = 0;
    let n = bytes.len();
    assert(bytes@.skip(0) =~= bytes@);
    while index < n
        invariant
            n == bytes@.len(),
            index <= n,
            output@ + convert_newlines_bytes(bytes@.skip(index as int), crlf) == convert_newlines_bytes(bytes@, crlf),
        decreases n - index,
    {
        let ghost s = bytes@.skip(index as int);
        let ghost before = output@;
        assert(s[0] == bytes@[index as int]);
        let byte = bytes[index];
        if byte == 13 {
            if crlf {
                output.push(13);
            }
            output.push(10);
            if index + 1 < n && bytes[index + 1] == 10 {
                assert(s[1] == bytes@[index + 1]);
                assert(s.skip(2) =~= bytes@.skip(index + 2));
                index = index + 1;
            } else {
                assert(s.skip(1) =~= bytes@.skip(index + 1));
            }
            assert(output@ =~= before + newline_bytes(crlf));
        } else if byte == 10 {
            if crlf {
                output.push(13);
            }
            output.push(10);
            assert(s.skip(1) =~= bytes@.skip(index + 1));
            assert(output@ =~= before + newline_bytes(crlf));
        } else {
            output.push(byte);
            assert(s.skip(1) =~= bytes@.skip(index + 1));
        }
        index = index + 1;
        assert(output@ + convert_newlines_bytes(bytes@.skip(index as int), crlf) =~= convert_newlines_bytes(bytes@, crlf));
    }
    assert(bytes@.skip(n as int) =~= Seq::<u8>::empty());
    assert(output@ + Seq::<u8>::empty() =~= output@);
    output
}

/// `std::str::from_utf8`: the bytes read as a string exactly when they are
/// well-formed UTF-8, and the string's bytes are then those bytes.
#[verifier::external_body]
fn str_from_utf8(bytes: &[u8]) -> (r: Option<&str>)
    ensures
        r is Some <==> valid_utf8(bytes@),
        r matches Some(s) ==> encode_utf8(s@) == bytes@,
{
    std::str::from_utf8(bytes).ok()
}

/// A string whose bytes are the UTF-8 encoding of `text`.
pub(crate) fn string_of_encoded(bytes: &[u8], text: Ghost<Seq<char>>) -> (s: String)
    requires
        bytes@ == encode_utf8(text@),
    ensures
        s@ == text@,
{
    proof {
        encode_utf8_valid_utf8(text@);
    }
    match str_from_utf8(bytes) {
        Some(view) => {
            proof {
                encode_utf8_decode_utf8(view@);
                encode_utf8_decode_utf8(text@);
            }
            String::from_str(view)
        },
        None => {
            assert(false);
            String::new()
        },
    }
}

/// Turns CR LF and lone CR line breaks into LF.
pub fn windows_to_unix_newlines(text: &str) -> (s: String)
    ensures
        s@ == convert_newlines_text(text@, false),
{
    let bytes = text.as_bytes();
    let converted = convert_newline_bytes(bytes, false);
    proof {
        lemma_convert_newlines_encoded(text@, false);
    }
    string_of_encoded(converted.as_slice(), Ghost(convert_newlines_text(text@, false)))
}

/// Turns every line break (CR LF, lone CR, lone LF) into CR LF.
pub fn unix_to_windows_newlines(text: &str) -> (s: String)
    ensures
        s@ == convert_newlines_text(text@, true),
{
    let bytes = text.as_bytes();
    let converted = convert_newline_bytes(bytes, true);
    proof {
        lemma_convert_newlines_encoded(text@, true);
    }
    string_of_encoded(converted.as_slice(), Ghost(convert_newlines_text(text@, true)))
}


/* Validation */

/// An ASCII character occurs in a text exactly when its byte occurs in the
/// text's UTF-8 encoding.
pub proof fn lemma_ascii_in_encoding(c: Seq<char>, ch: char)
    requires
        (ch as u32) < 0x80,
    ensures
        encode_utf8(c).contains((ch as u32) as u8) <==> c.contains(ch),
    decreases c.len(),
{
    let a = (ch as u32) as u8;
    if c.len() == 0 {
        assert(!encode_utf8(c).contains(a));
        return;
    }
    let rest = c.skip(1);
    let p = encode_scalar(c[0] as u32);
    let e = encode_utf8(c);
    assert(c.drop_first() =~= rest);
    assert(e == p + encode_utf8(rest));
    lemma_scalar_bytes(c[0]);
    lemma_ascii_in_encoding(rest, ch);
    if c.contains(ch) {
        let j = choose|j: int| 0 <= j < c.len() && c[j] == ch;
        if j == 0 {
            assert((c[0] as u32) < 0x80);
            assert(e[0] == a);
        } else {
            assert(rest[j - 1] == ch);
            assert(encode_utf8(rest).contains(a));
            let k = choose|k: int| 0 <= k < encode_utf8(rest).len() && encode_utf8(rest)[k] == a;
            assert(e[p.len() + k] == a);
        }
        assert(e.contains(a));
    }
    if e.contains(a) {
        let k = choose|k: int| 0 <= k < e.len() && e[k] == a;
        if k < p.len() {
            if (c[0] as u32) >= 0x80 {
                assert(p[k] >= 0x80);
            } else {
                assert(p[k] == (c[0] as u32) as u8);
                assert(c[0] as u32 == ch as u32);
                char_u32_cast(c[0], ch as u32);
                char_u32_cast(ch, ch as u32);
                assert(c[0] == ch);
            }
        } else {
            assert(encode_utf8(rest)[k - p.len()] == a);
            let j = choose|j: int| 0 <= j < rest.len() && rest[j] == ch;
            assert(c[j + 1] == ch);
        }
        assert(c.contains(ch));
    }
}

/// What `validate_utf8` makes of a byte sequence: the text it holds, or why it
/// holds none (checked in this order).
pub open spec fn utf8_text(bytes: Seq<u8>) -> Result<Seq<char>, TextError> {
    if bytes.len() > MAX_TEXT_BYTES {
        Err(TextError::TooLarge { actual: bytes.len() as usize, limit: MAX_TEXT_BYTES })
    } else if !valid_utf8(bytes) {
        Err(TextError::InvalidUtf8)
    } else if decode_utf8(bytes).contains('\0') {
        Err(TextError::EmbeddedNul)
    } else {
        Ok(decode_utf8(bytes))
    }
}

fn contains_zero_byte(bytes: &[u8]) -> (r: bool)
    ensures
        r == bytes@.contains(0u8),
{
    let mut i: usize = 0;
    while i < bytes.len()
        invariant
            i <= bytes@.len(),
            forall|j: int| 0 <= j < i ==> bytes@[j] != 0u8,
        decreases bytes@.len() - i,
    {
        if bytes[i] == 0 {
            assert(bytes@[i as int] == 0u8);
            return true;
        }
        i = i + 1;
    }
    false
}

/// Accepts clipboard text: at most `MAX_TEXT_BYTES`, well-formed UTF-8 and free
/// of NUL characters.
pub fn validate_utf8(bytes: &[u8]) -> (r: Result<&str, TextError>)
    ensures
        match r {
            Ok(text) => utf8_text(bytes@) == Ok::<Seq<char>, TextError>(text@) && encode_utf8(text@) == bytes@,
            Err(e) => utf8_text(bytes@) == Err::<Seq<char>, TextError>(e),
        },
{
    if bytes.len() > MAX_TEXT_BYTES {
        return Err(TextError::TooLarge { actual: bytes.len(), limit: MAX_TEXT_BYTES });
    }
    let text = match str_from_utf8(bytes) {
        Some(text) => text,
        None => return Err(TextError::InvalidUtf8),
    };
    proof {
        encode_utf8_decode_utf8(text@);
        lemma_ascii_code('\0');
        lemma_ascii_in_encoding(text@, '\0');
    }
    if contains_zero_byte(bytes) {
        return Err(TextError::EmbeddedNul);
    }
    Ok(text)
}

/* UTF-16 */

pub open spec fn is_surrogate(u: u16) -> bool {
    0xD800 <= u <= 0xDFFF
}

pub open spec fn is_high_surrogate(u: u16) -> bool {
    0xD800 <= u <= 0xDBFF
}

pub open spec fn is_low_surrogate(u: u16) -> bool {
    0xDC00 <= u <= 0xDFFF
}

/// The scalar value a surrogate pair stands for.
pub open spec fn surrogate_pair_value(high: u16, low: u16) -> u32 {
    (0x10000 + (high - 0xD800) * 0x400 + (low - 0xDC00)) as u32
}

/// The UTF-16 code units of one scalar value.
pub open spec fn utf16_encode_scalar(v: u32) -> Seq<u16> {
    if v < 0x10000 {
        seq![v as u16]
    } else {
        seq![(0xD800 + (v - 0x10000) / 0x400) as u16, (0xDC00 + (v - 0x10000) % 0x400) as u16]
    }
}

/// The UTF-16 encoding of a text.
pub open spec fn utf16_encode(text: Seq<char>) -> Seq<u16>
    decreases text.len(),
{
    if text.len() == 0 {
        seq![]
    } else {
        utf16_encode_scalar(text[0] as u32) + utf16_encode(text.skip(1))
    }
}

/// The text that UTF-16 code units encode, or `None` when a surrogate is
/// unpaired.
pub open spec fn utf16_decode(units: Seq<u16>) -> Option<Seq<char>>
    decreases units.len(),
{
    if units.len() == 0 {
        Some(seq![])
    } else if !is_surrogate(units[0]) {
        match utf16_decode(units.skip(1)) {
            Some(rest) => Some(seq![(units[0] as u32) as char] + rest),
            None => None,
        }
    } else if is_high_surrogate(units[0]) && units.len() > 1 && is_low_surrogate(units[1]) {
        match utf16_decode(units.skip(2)) {
            Some(rest) => Some(seq![surrogate_pair_value(units[0], units[1]) as char] + rest),
            None => None,
        }
    } else {
        None
    }
}

/// Decoding the UTF-16 encoding of a text gives the text back.
pub proof fn lemma_utf16_round_trip(text: Seq<char>)
    ensures
        utf16_decode(utf16_encode(text)) == Some(text),
    decreases text.len(),
{
    if text.len() == 0 {
        return;
    }
    let c = text[0];
    let v = c as u32;
    let rest = text.skip(1);
    let e = utf16_encode_scalar(v);
    let w = utf16_encode(text);
    char_is_scalar(c);
    char_u32_cast(c, v);
    lemma_utf16_round_trip(rest);
    assert(w == e + utf16_encode(rest));
    if v < 0x10000 {
        assert(!is_surrogate(w[0]));
        assert(w.skip(1) =~= utf16_encode(rest));
        assert(((w[0] as u32) as char) == c);
    } else {
        let x = (v - 0x10000) as int;
        vstd::arithmetic::div_mod::lemma_fundamental_div_mod(x, 0x400);
        assert(0 <= x % 0x400 < 0x400);
        assert(x / 0x400 < 0x400);
        assert(is_high_surrogate(w[0]));
        assert(is_low_surrogate(w[1]));
        assert(surrogate_pair_value(w[0], w[1]) == v);
        assert(w.skip(2) =~= utf16_encode(rest));
    }
    assert(text =~= seq![c] + rest);
}

/// A decodable run of code units holds a NUL character exactly when it holds a
/// zero unit.
pub proof fn lemma_utf16_nul(units: Seq<u16>)
    requires
        utf16_decode(units) is Some,
    ensures
        utf16_decode(units).unwrap().contains('\0') <==> units.contains(0u16),
    decreases units.len(),
{
    if units.len() == 0 {
        assert(!units.contains(0u16));
        assert(!utf16_decode(units).unwrap().contains('\0'));
        return;
    }
    let t = utf16_decode(units).unwrap();
    assert('\0' as u32 == 0);
    if !is_surrogate(units[0]) {
        let rest = units.skip(1);
        lemma_utf16_nul(rest);
        let r = utf16_decode(rest).unwrap();
        let first = (units[0] as u32) as char;
        assert(t == seq![first] + r);
        assert((first as u32) == units[0] as u32);
        lemma_ascii_code(first);
        if units.contains(0u16) {
            let k = choose|k: int| 0 <= k < units.len() && units[k] == 0u16;
            if k == 0 {
                assert(t[0] == '\0');
            } else {
                assert(rest[k - 1] == 0u16);
                let j = choose|j: int| 0 <= j < r.len() && r[j] == '\0';
                assert(t[j + 1] == '\0');
            }
        }
        if t.contains('\0') {
            let j = choose|j: int| 0 <= j < t.len() && t[j] == '\0';
            if j == 0 {
                assert(units[0] == 0u16);
            } else {
                assert(r[j - 1] == '\0');
                let k = choose|k: int| 0 <= k < rest.len() && rest[k] == 0u16;
                assert(units[k + 1] == 0u16);
            }
        }
    } else {
        let rest = units.skip(2);
        lemma_utf16_nul(rest);
        let r = utf16_decode(rest).unwrap();
        let first = surrogate_pair_value(units[0], units[1]) as char;
        assert(t == seq![first] + r);
        assert(surrogate_pair_value(units[0], units[1]) >= 0x10000);
        assert(surrogate_pair_value(units[0], units[1]) <= 0x10FFFF);
        assert((first as u32) == surrogate_pair_value(units[0], units[1]));
        if units.contains(0u16) {
            let k = choose|k: int| 0 <= k < units.len() && units[k] == 0u16;
            assert(k >= 2);
            assert(rest[k - 2] == 0u16);
            let j = choose|j: int| 0 <= j < r.len() && r[j] == '\0';
            assert(t[j + 1] == '\0');
        }
        if t.contains('\0') {
            let j = choose|j: int| 0 <= j < t.len() && t[j] == '\0';
            assert(j != 0);
            assert(r[j - 1] == '\0');
            let k = choose|k: int| 0 <= k < rest.len() && rest[k] == 0u16;
            assert(units[k + 2] == 0u16);
        }
    }
}

/// `String::from_utf16`: the text the code units encode, refused when they
/// hold an unpaired surrogate.
#[verifier::external_body]
fn string_from_utf16(wide: &[u16]) -> (r: Option<String>)
    ensures
        match utf16_decode(wide@) {
            Some(text) => r matches Some(s) && s@ == text,
            None => r is None,
        },
{
    String::from_utf16(wide).ok()
}

/// The encoding of a text followed by one more character.
proof fn lemma_utf16_encode_push(text: Seq<char>, c: char)
    ensures
        utf16_encode(text.push(c)) == utf16_encode(text) + utf16_encode_scalar(c as u32),
    decreases text.len(),
{
    if text.len() == 0 {
        assert(text.push(c).skip(1) =~= Seq::<char>::empty());
        assert(text.push(c)[0] == c);
        assert(utf16_encode(Seq::<char>::empty()) =~= Seq::<u16>::empty());
        assert(utf16_encode(text.push(c)) =~= utf16_encode_scalar(c as u32));
    } else {
        assert(text.push(c).skip(1) =~= text.skip(1).push(c));
        lemma_utf16_encode_push(text.skip(1), c);
        assert(utf16_encode(text.push(c)) =~= utf16_encode(text) + utf16_encode_scalar(c as u32));
    }
}

/// The UTF-16 code units of a text.
fn encode_utf16_units(text: &str) -> (r: Vec<u16>)
    ensures
        r@ == utf16_encode(text@),
{
    broadcast use vstd::string::axiom_spec_iter;

    let mut out: Vec<u16> = Vec::new();
    for c in iter: text.chars()
        invariant
            iter.seq() == text@,
            out@ == utf16_encode(text@.take(iter.index() as int)),
    {
        let ghost i = iter.index() as int;
        proof {
            char_is_scalar(c);
            assert(text@.take(i + 1) =~= text@.take(i).push(c));
            lemma_utf16_encode_push(text@.take(i), c);
        }
        let v = c as u32;
        if v < 0x10000 {
            out.push(v as u16);
            assert(utf16_encode_scalar(v) =~= seq![v as u16]);
        } else {
            let x = v - 0x10000;
            let high = (0xD800 + x / 0x400) as u16;
            let low = (0xDC00 + x % 0x400) as u16;
            out.push(high);
            out.push(low);
            assert(utf16_encode_scalar(v) =~= seq![high, low]);
        }
    }
    assert(text@.take(text@.len() as int) =~= text@);
    out
}

fn contains_zero_unit(units: &[u16]) -> (r: bool)
    ensures
        r == units@.contains(0u16),
{
    let mut i: usize = 0;
    while i < units.len()
        invariant
            i <= units@.len(),
            forall|j: int| 0 <= j < i ==> units@[j] != 0u16,
        decreases units@.len() - i,
    {
        if units[i] == 0 {
            assert(units@[i as int] == 0u16);
            return true;
        }
        i = i + 1;
    }
    false
}

/// What `utf16_to_utf8` makes of Windows clipboard code units.
pub open spec fn utf16_to_utf8_result(units: Seq<u16>) -> Result<Seq<u8>, TextError> {
    match utf16_decode(units) {
        None => Err(TextError::InvalidUtf16),
        Some(text) => if text.contains('\0') {
            Err(TextError::EmbeddedNul)
        } else {
            let normalized = encode_utf8(convert_newlines_text(text, false));
            if normalized.len() > MAX_TEXT_BYTES {
                Err(TextError::TooLarge { actual: normalized.len() as usize, limit: MAX_TEXT_BYTES })
            } else {
                Ok(normalized)
            }
        },
    }
}

/// Turns Windows clipboard text (UTF-16 without its terminator) into UTF-8 with
/// LF line breaks.
pub fn utf16_to_utf8(wide: &[u16]) -> (r: Result<Vec<u8>, TextError>)
    ensures
        match r {
            Ok(bytes) => utf16_to_utf8_result(wide@) == Ok::<Seq<u8>, TextError>(bytes@),
            Err(e) => utf16_to_utf8_result(wide@) == Err::<Seq<u8>, TextError>(e),
        },
{
    let text = match string_from_utf16(wide) {
        Some(text) => text,
        None => return Err(TextError::InvalidUtf16),
    };
    proof {
        lemma_utf16_nul(wide@);
    }
    if contains_zero_unit(wide) {
        return Err(TextError::EmbeddedNul);
    }
    let bytes = text.as_str().as_bytes();
    let normalized = convert_newline_bytes(bytes, false);
    proof {
        lemma_convert_newlines_encoded(text@, false);
    }
    if normalized.len() > MAX_TEXT_BYTES {
        return Err(TextError::TooLarge { actual: normalized.len(), limit: MAX_TEXT_BYTES });
    }
    Ok(normalized)
}

/// What `utf8_to_utf16` makes of clipboard text for Windows: its UTF-16 units
/// with CR LF line breaks and a terminating zero unit.
pub open spec fn utf8_to_utf16_result(bytes: Seq<u8>) -> Result<Seq<u16>, TextError> {
    match utf8_text(bytes) {
        Err(e) => Err(e),
        Ok(text) => Ok(utf16_encode(convert_newlines_text(text, true)).push(0u16)),
    }
}

/// Turns clipboard text into the NUL-terminated UTF-16 that Windows stores.
pub fn utf8_to_utf16(bytes: &[u8]) -> (r: Result<Vec<u16>, TextError>)
    ensures
        match r {
            Ok(wide) => utf8_to_utf16_result(bytes@) == Ok::<Seq<u16>, TextError>(wide@),
            Err(e) => utf8_to_utf16_result(bytes@) == Err::<Seq<u16>, TextError>(e),
        },
{
    let text = match validate_utf8(bytes) {
        Ok(text) => text,
        Err(e) => return Err(e),
    };
    let converted = unix_to_windows_newlines(text);
    let mut wide = encode_utf16_units(converted.as_str());
    wide.push(0);
    Ok(wide)
}

/// Converting newlines never brings in a character other than CR and LF.
proof fn lemma_convert_keeps_other(text: Seq<char>, crlf: bool, ch: char)
    requires
        ch != '\r',
        ch != '\n',
        convert_newlines_text(text, crlf).contains(ch),
    ensures
        text.contains(ch),
    decreases text.len(),
{
    let out = convert_newlines_text(text, crlf);
    let j = choose|j: int| 0 <= j < out.len() && out[j] == ch;
    if text[0] == '\r' || text[0] == '\n' {
        let k: int = if text[0] == '\r' && text.len() > 1 && text[1] == '\n' { 2 } else { 1 };
        let n = newline_text(crlf);
        let tail = convert_newlines_text(text.skip(k), crlf);
        assert(out == n + tail);
        assert(j >= n.len());
        assert(tail[j - n.len()] == ch);
        lemma_convert_keeps_other(text.skip(k), crlf, ch);
        let i = choose|i: int| 0 <= i < text.skip(k).len() && text.skip(k)[i] == ch;
        assert(text[i + k] == ch);
    } else {
        let tail = convert_newlines_text(text.skip(1), crlf);
        assert(out == seq![text[0]] + tail);
        if j == 0 {
            assert(text[0] == ch);
        } else {
            assert(tail[j - 1] == ch);
            lemma_convert_keeps_other(text.skip(1), crlf, ch);
            let i = choose|i: int| 0 <= i < text.skip(1).len() && text.skip(1)[i] == ch;
            assert(text[i + 1] == ch);
        }
    }
}

/// Turning CR LF back into LF undoes turning LF into CR LF, for a text with no
/// CR of its own.
pub proof fn lemma_unix_of_windows_newlines(text: Seq<char>)
    requires
        !text.contains('\r'),
    ensures
        convert_newlines_text(convert_newlines_text(text, true), false) == text,
    decreases text.len(),
{
    if text.len() == 0 {
        return;
    }
    let rest = text.skip(1);
    assert(!rest.contains('\r')) by {
        if rest.contains('\r') {
            let i = choose|i: int| 0 <= i < rest.len() && rest[i] == '\r';
            assert(text[i + 1] == '\r');
        }
    }
    lemma_unix_of_windows_newlines(rest);
    let converted = convert_newlines_text(rest, true);
    assert(text[0] != '\r');
    if text[0] == '\n' {
        let x = seq!['\r', '\n'] + converted;
        assert(convert_newlines_text(text, true) == x);
        assert(x.skip(2) =~= converted);
        assert(convert_newlines_text(x, false) == seq!['\n'] + convert_newlines_text(x.skip(2), false));
    } else {
        let x = seq![text[0]] + converted;
        assert(convert_newlines_text(text, true) == x);
        assert(x.skip(1) =~= converted);
        assert(convert_newlines_text(x, false) == seq![text[0]] + convert_newlines_text(x.skip(1), false));
    }
    assert(text =~= seq![text[0]] + rest);
}

/// Law: clipboard text without CR characters survives the trip to Windows and
/// back unchanged: `utf8_to_utf16` followed by `utf16_to_utf8` (without the
/// terminating unit) gives the same bytes.
pub proof fn law_utf16_round_trip(bytes: Seq<u8>)
    requires
        utf8_text(bytes) is Ok,
        !bytes.contains(13u8),
    ensures
        utf8_to_utf16_result(bytes) matches Ok(wide) && utf16_to_utf8_result(wide.drop_last()) == Ok::<
            Seq<u8>,
            TextError,
        >(bytes),
{
    let text = decode_utf8(bytes);
    vstd::utf8::decode_utf8_encode_utf8(bytes);
    lemma_ascii_code('\r');
    lemma_ascii_in_encoding(text, '\r');
    let windows = convert_newlines_text(text, true);
    let wide = utf16_encode(windows).push(0u16);
    assert(wide.drop_last() =~= utf16_encode(windows));
    lemma_utf16_round_trip(windows);
    if windows.contains('\0') {
        lemma_convert_keeps_other(text, true, '\0');
    }
    lemma_unix_of_windows_newlines(text);
}

/// A text without CR is its own LF form.
proof fn lemma_unix_of_unix(text: Seq<char>)
    requires
        !text.contains('\r'),
    ensures
        convert_newlines_text(text, false) == text,
    decreases text.len(),
{
    if text.len() == 0 {
        return;
    }
    let rest = text.skip(1);
    assert(!rest.contains('\r')) by {
        if rest.contains('\r') {
            let i = choose|i: int| 0 <= i < rest.len() && rest[i] == '\r';
            assert(text[i + 1] == '\r');
        }
    }
    lemma_unix_of_unix(rest);
    assert(text[0] != '\r');
    assert(text =~= seq![text[0]] + rest);
}

/// The LF form of any text holds no CR.
proof fn lemma_unix_has_no_cr(text: Seq<char>)
    ensures
        !convert_newlines_text(text, false).contains('\r'),
    decreases text.len(),
{
    if text.len() == 0 {
        return;
    }
    let k: int = if text[0] == '\r' && text.len() > 1 && text[1] == '\n' { 2 } else { 1 };
    lemma_unix_has_no_cr(text.skip(k));
    let tail = convert_newlines_text(text.skip(k), false);
    let head: Seq<char> = if text[0] == '\r' || text[0] == '\n' { seq!['\n'] } else { seq![text[0]] };
    assert(convert_newlines_text(text, false) == head + tail);
    if (head + tail).contains('\r') {
        let j = choose|j: int| 0 <= j < (head + tail).len() && (head + tail)[j] == '\r';
        if j >= 1 {
            assert(tail[j - 1] == '\r');
        }
    }
}

/// Law: text normalized for Linux has only LF line breaks: it holds no CR, and
/// normalizing it again changes nothing.
pub proof fn law_unix_newlines_are_normal(text: Seq<char>)
    ensures
        !convert_newlines_text(text, false).contains('\r'),
        convert_newlines_text(convert_newlines_text(text, false), false) == convert_newlines_text(text, false),
{
    lemma_unix_has_no_cr(text);
    lemma_unix_of_unix(convert_newlines_text(text, false));
}

/// Converting to either form goes through the LF form.
proof fn lemma_convert_via_unix(t: Seq<char>, crlf: bool)
    ensures
        convert_newlines_text(t, crlf) == convert_newlines_text(convert_newlines_text(t, false), crlf),
    decreases t.len(),
{
    if t.len() == 0 {
        return;
    }
    let k: int = if t[0] == '\r' && t.len() > 1 && t[1] == '\n' { 2 } else { 1 };
    let rest = t.skip(k);
    lemma_convert_via_unix(rest, crlf);
    let r = convert_newlines_text(rest, false);
    let u = convert_newlines_text(t, false);
    if t[0] == '\r' || t[0] == '\n' {
        assert(u == seq!['\n'] + r);
        assert(u[0] == '\n');
        assert(u.skip(1) =~= r);
    } else {
        assert(u == seq![t[0]] + r);
        assert(u[0] == t[0]);
        assert(u.skip(1) =~= r);
    }
}

/// A text whose line breaks are all CR LF: every CR is followed by LF and
/// every LF follows a CR.
pub open spec fn crlf_only(r: Seq<char>) -> bool {
    &&& forall|i: int| 0 <= i < r.len() && #[trigger] r[i] == '\r' ==> i + 1 < r.len() && r[i + 1] == '\n'
    &&& forall|i: int| 0 <= i < r.len() && #[trigger] r[i] == '\n' ==> i > 0 && r[i - 1] == '\r'
}

proof fn lemma_windows_is_crlf_only(t: Seq<char>)
    ensures
        crlf_only(convert_newlines_text(t, true)),
    decreases t.len(),
{
    if t.len() == 0 {
        return;
    }
    let k: int = if t[0] == '\r' && t.len() > 1 && t[1] == '\n' { 2 } else { 1 };
    lemma_windows_is_crlf_only(t.skip(k));
    let tail = convert_newlines_text(t.skip(k), true);
    let r = convert_newlines_text(t, true);
    if t[0] == '\r' || t[0] == '\n' {
        assert(r == seq!['\r', '\n'] + tail);
        assert forall|i: int| 0 <= i < r.len() && #[trigger] r[i] == '\r' implies i + 1 < r.len() && r[i + 1] == '\n' by {
            if i >= 2 {
                assert(tail[i - 2] == '\r');
                assert(tail[i - 1] == '\n');
            }
        }
        assert forall|i: int| 0 <= i < r.len() && #[trigger] r[i] == '\n' implies i > 0 && r[i - 1] == '\r' by {
            if i >= 2 {
                assert(tail[i - 2] == '\n');
                if i >= 3 {
                    assert(tail[i - 3] == '\r');
                } else {
                    assert(tail[0] == '\n');
                }
            }
        }
    } else {
        assert(r == seq![t[0]] + tail);
        assert forall|i: int| 0 <= i < r.len() && #[trigger] r[i] == '\r' implies i + 1 < r.len() && r[i + 1] == '\n' by {
            if i >= 1 {
                assert(tail[i - 1] == '\r');
                assert(tail[i] == '\n');
            }
        }
        assert forall|i: int| 0 <= i < r.len() && #[trigger] r[i] == '\n' implies i > 0 && r[i - 1] == '\r' by {
            if i >= 1 {
                assert(tail[i - 1] == '\n');
                if i >= 2 {
                    assert(tail[i - 2] == '\r');
                } else {
                    assert(tail[0] == '\n');
                }
            }
        }
    }
}

/// Whether a character is not a line-break character.
pub open spec fn not_newline() -> spec_fn(char) -> bool {
    |c: char| c != '\r' && c != '\n'
}

proof fn lemma_unix_keeps_other(t: Seq<char>)
    ensures
        convert_newlines_text(t, false).len() <= t.len(),
        convert_newlines_text(t, false).filter(not_newline()) == t.filter(not_newline()),
    decreases t.len(),
{
    if t.len() == 0 {
        return;
    }
    let k: int = if t[0] == '\r' && t.len() > 1 && t[1] == '\n' { 2 } else { 1 };
    let rest = t.skip(k);
    lemma_unix_keeps_other(rest);
    let tail = convert_newlines_text(rest, false);
    let head = t.take(k);
    assert(t =~= head + rest);
    Seq::filter_distributes_over_add(head, rest, not_newline());
    reveal_with_fuel(Seq::filter, 3);
    if t[0] == '\r' || t[0] == '\n' {
        assert(convert_newlines_text(t, false) == seq!['\n'] + tail);
        Seq::filter_distributes_over_add(seq!['\n'], tail, not_newline());
        assert(seq!['\n'].filter(not_newline()) =~= Seq::<char>::empty());
        if k == 2 {
            assert(head.drop_last() =~= seq!['\r']);
            assert(head.drop_last().drop_last() =~= Seq::<char>::empty());
        } else {
            assert(head.drop_last() =~= Seq::<char>::empty());
        }
        assert(head.filter(not_newline()) =~= Seq::<char>::empty());
    } else {
        assert(convert_newlines_text(t, false) == seq![t[0]] + tail);
        assert(head =~= seq![t[0]]);
        Seq::filter_distributes_over_add(seq![t[0]], tail, not_newline());
        assert(seq![t[0]].drop_last() =~= Seq::<char>::empty());
    }
}

/// Law: the LF form never grows a text and keeps every character that is not a
/// line-break character, in order.
pub proof fn law_unix_newlines_keep_text(text: Seq<char>)
    ensures
        convert_newlines_text(text, false).len() <= text.len(),
        convert_newlines_text(text, false).filter(not_newline()) == text.filter(not_newline()),
{
    lemma_unix_keeps_other(text);
}

/// Law: in the CR LF form every CR is followed by LF and every LF follows a CR;
/// converting it again changes nothing; its LF form is the LF form of the
/// original text; and it is the CR LF form of that LF form.
pub proof fn law_windows_newlines_are_normal(text: Seq<char>)
    ensures
        crlf_only(convert_newlines_text(text, true)),
        convert_newlines_text(convert_newlines_text(text, true), true) == convert_newlines_text(text, true),
        convert_newlines_text(convert_newlines_text(text, true), false) == convert_newlines_text(text, false),
        convert_newlines_text(text, true) == convert_newlines_text(convert_newlines_text(text, false), true),
{
    let u = convert_newlines_text(text, false);
    let r = convert_newlines_text(text, true);
    lemma_windows_is_crlf_only(text);
    lemma_convert_via_unix(text, true);
    lemma_unix_has_no_cr(text);
    lemma_unix_of_windows_newlines(u);
    lemma_convert_via_unix(r, true);
}

} // verus!
