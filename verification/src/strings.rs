//! Small string helpers: decimal numbers, equality and concatenation.

use vstd::prelude::*;
use vstd::utf8::{decode_utf8, encode_utf8, encode_utf8_decode_utf8};

use crate::text::{lemma_encode_one, lemma_encode_utf8_concat, lemma_scalar_bytes, string_of_encoded};

verus! {

/// The character of a decimal digit.
pub open spec fn digit_char(d: nat) -> char {
    ((d + 48) as u32) as char
}

/// The decimal digits of `n`, without leading zeros.
pub open spec fn decimal(n: nat) -> Seq<char>
    decreases n,
{
    if n < 10 {
        seq![digit_char(n)]
    } else {
        decimal(n / 10) + seq![digit_char(n % 10)]
    }
}

/// The UTF-8 bytes of the decimal digits of `n`.
proof fn lemma_decimal_bytes(n: nat)
    ensures
        encode_utf8(decimal(n)).len() == decimal(n).len(),
        forall|i: int| 0 <= i < decimal(n).len() ==> #[trigger] encode_utf8(decimal(n))[i] == (decimal(n)[i] as u32) as u8,
        forall|i: int| 0 <= i < decimal(n).len() ==> 48 <= #[trigger] (decimal(n)[i] as u32) < 58,
    decreases n,
{
    let d = digit_char(n % 10);
    assert((((n % 10) + 48) as u32) as char as u32 == (n % 10) + 48) by {
        vstd::utf8::char_u32_cast(d, ((n % 10) + 48) as u32);
    }
    lemma_scalar_bytes(d);
    lemma_encode_one(d);
    if n >= 10 {
        lemma_decimal_bytes(n / 10);
        lemma_encode_utf8_concat(decimal(n / 10), seq![d]);
    }
}

/// `n` in decimal digits, without leading zeros.
pub(crate) fn usize_text(n: usize) -> (s: String)
    ensures
        s@ == decimal(n as nat),
{
    let mut digits: Vec<u8> = Vec::new();
    push_decimal(n, &mut digits);
    proof {
        lemma_decimal_bytes(n as nat);
        assert(digits@ =~= encode_utf8(decimal(n as nat)));
    }
    string_of_encoded(digits.as_slice(), Ghost(decimal(n as nat)))
}

/// Appends the ASCII digits of `n`.
fn push_decimal(n: usize, out: &mut Vec<u8>)
    ensures
        final(out)@.len() == old(out)@.len() + decimal(n as nat).len(),
        final(out)@.subrange(0, old(out)@.len() as int) == old(out)@,
        forall|i: int|
            0 <= i < decimal(n as nat).len() ==> final(out)@[old(out)@.len() + i] == (decimal(n as nat)[i] as u32) as u8,
    decreases n,
{
    proof {
        lemma_decimal_bytes(n as nat);
    }
    let ghost start = out@;
    if n >= 10 {
        push_decimal(n / 10, out);
    }
    let ghost mid = out@;
    let digit = (n % 10) as u8 + 48;
    out.push(digit);
    proof {
        let d = digit_char((n % 10) as nat);
        vstd::utf8::char_u32_cast(d, ((n % 10) + 48) as u32);
        if n >= 10 {
            assert(decimal(n as nat) == decimal((n / 10) as nat) + seq![d]);
            assert forall|i: int| 0 <= i < decimal(n as nat).len() implies out@[start.len() + i] == (decimal(
                n as nat,
            )[i] as u32) as u8 by {
                if i < decimal((n / 10) as nat).len() {
                    assert(out@[start.len() + i] == mid[start.len() + i]);
                }
            }
            assert(out@.subrange(0, start.len() as int) =~= start) by {
                assert(mid.subrange(0, start.len() as int) =~= start);
            }
        } else {
            assert(decimal(n as nat) == seq![d]);
            assert(out@.subrange(0, start.len() as int) =~= start);
        }
    }
}

/// Whether two strings hold the same characters, compared byte by byte.
pub fn str_eq(a: &str, b: &str) -> (r: bool)
    ensures
        r == (a@ == b@),
{
    let x = a.as_bytes();
    let y = b.as_bytes();
    proof {
        encode_utf8_decode_utf8(a@);
        encode_utf8_decode_utf8(b@);
    }
    if x.len() != y.len() {
        return false;
    }
    let mut i: usize = 0;
    while i < x.len()
        invariant
            x@ == encode_utf8(a@),
            y@ == encode_utf8(b@),
            decode_utf8(x@) == a@,
            decode_utf8(y@) == b@,
            x@.len() == y@.len(),
            i <= x@.len(),
            forall|j: int| 0 <= j < i ==> x@[j] == y@[j],
        decreases x@.len() - i,
    {
        if x[i] != y[i] {
            assert(x@[i as int] != y@[i as int]);
            assert(x@ != y@);
            return false;
        }
        i = i + 1;
    }
    assert(x@ =~= y@);
    true
}

/// `first` followed by `second`, as a new string.
pub fn concat(first: &str, second: &str) -> (s: String)
    ensures
        s@ == first@ + second@,
{
    let mut s = String::from_str(first);
    s.append(second);
    s
}

} // verus!
