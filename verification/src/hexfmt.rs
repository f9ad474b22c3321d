//! Lowercase hexadecimal rendering and parsing.
//!
//! Fixed-width byte-string hex (used for session tokens) is delegated to the
//! `hex` crate behind trusted wrappers with exact contracts; minimal-form
//! hex for 64-bit identifiers is implemented and verified here.

use vstd::prelude::*;
use vstd::string::StringSliceAdditionalSpecFns;

verus! {

/// The lowercase hex digit for a nibble.
pub open spec fn nibble_char(n: u8) -> char
    recommends
        n < 16,
{
    if n == 0 { '0' } else if n == 1 { '1' } else if n == 2 { '2' } else if n == 3 { '3' }
    else if n == 4 { '4' } else if n == 5 { '5' } else if n == 6 { '6' } else if n == 7 { '7' }
    else if n == 8 { '8' } else if n == 9 { '9' } else if n == 10 { 'a' } else if n == 11 { 'b' }
    else if n == 12 { 'c' } else if n == 13 { 'd' } else if n == 14 { 'e' } else { 'f' }
}

/// Lowercase hex encoding of a byte string: two digits per byte,
/// high nibble first.
pub open spec fn hex_of(b: Seq<u8>) -> Seq<char>
    decreases b.len(),
{
    if b.len() == 0 {
        Seq::empty()
    } else {
        seq![nibble_char(b.first() / 16), nibble_char(b.first() % 16)] + hex_of(b.drop_first())
    }
}

pub proof fn lemma_hex_of_len(b: Seq<u8>)
    ensures
        hex_of(b).len() == 2 * b.len(),
    decreases b.len(),
{
    if b.len() > 0 {
        lemma_hex_of_len(b.drop_first());
    }
}

/// True for the characters the `hex` crate accepts: both cases are valid.
pub open spec fn is_hex_digit(c: char) -> bool {
    ('0' <= c && c <= '9') || ('a' <= c && c <= 'f') || ('A' <= c && c <= 'F')
}

/// The value of one hex digit.
pub open spec fn hex_digit_val(c: char) -> u8
    recommends
        is_hex_digit(c),
{
    if '0' <= c && c <= '9' {
        ((c as u8) - ('0' as u8)) as u8
    } else if 'a' <= c && c <= 'f' {
        ((c as u8) - ('a' as u8) + 10) as u8
    } else {
        ((c as u8) - ('A' as u8) + 10) as u8
    }
}

/// The bytes denoted by an even-length string of hex digits.
pub open spec fn bytes_of_hex(s: Seq<char>) -> Seq<u8>
    recommends
        s.len() % 2 == 0,
    decreases s.len(),
{
    if s.len() < 2 {
        Seq::empty()
    } else {
        seq![(hex_digit_val(s[0]) * 16 + hex_digit_val(s[1])) as u8] + bytes_of_hex(s.skip(2))
    }
}

/// A byte string's hex rendering is made of hex digits and denotes the
/// bytes it was made from.
pub proof fn lemma_hex_of_round_trip(b: Seq<u8>)
    ensures
        forall|i: int| 0 <= i < hex_of(b).len() ==> is_hex_digit(#[trigger] hex_of(b)[i]),
        bytes_of_hex(hex_of(b)) == b,
    decreases b.len(),
{
    lemma_hex_of_len(b);
    if b.len() == 0 {
        assert(bytes_of_hex(hex_of(b)) =~= b);
    } else {
        let first = b.first();
        let hi = (first / 16) as u8;
        let lo = (first % 16) as u8;
        lemma_nibble_char_val(hi);
        lemma_nibble_char_val(lo);
        lemma_hex_of_round_trip(b.drop_first());
        let s = hex_of(b);
        assert(s[0] == nibble_char(hi) && s[1] == nibble_char(lo));
        assert(s.skip(2) =~= hex_of(b.drop_first()));
        vstd::arithmetic::div_mod::lemma_fundamental_div_mod(first as int, 16);
        assert(hex_digit_val(s[0]) * 16 + hex_digit_val(s[1]) == first);
        assert(bytes_of_hex(s) =~= seq![first] + bytes_of_hex(s.skip(2)));
        assert(bytes_of_hex(s) =~= b);
        assert forall|i: int| 0 <= i < s.len() implies is_hex_digit(#[trigger] s[i]) by {
            if i >= 2 {
                assert(s[i] == hex_of(b.drop_first())[i - 2]);
            }
        }
    }
}

/// Relies on `hex::encode`: lowercase hex, two digits per byte, high
/// nibble first.
#[verifier::external_body]
pub fn hex_encode(b: &[u8]) -> (r: String)
    ensures
        r@ == hex_of(b@),
{
    hex::encode(b)
}

/// Relies on `<[u8; 32] as hex::FromHex>::from_hex`: succeeds exactly on
/// 64 hex digits (either case), decoding two digits per byte, high nibble
/// first.
#[verifier::external_body]
pub fn hex_decode_32(s: &str) -> (r: Option<[u8; 32]>)
    ensures
        r.is_some() <==> (s@.len() == 64 && (forall|i: int|
            0 <= i < s@.len() ==> is_hex_digit(#[trigger] s@[i]))),
        r matches Some(b) ==> b@ == bytes_of_hex(s@),
{
    <[u8; 32] as hex::FromHex>::from_hex(s).ok()
}

/// Minimal-form lowercase hex of a 64-bit value: no leading zeros, and
/// `0` itself is a single digit.
pub open spec fn hex_u64(n: nat) -> Seq<char>
    decreases n,
{
    if n < 16 {
        seq![nibble_char(n as u8)]
    } else {
        hex_u64(n / 16) + seq![nibble_char((n % 16) as u8)]
    }
}

/// The hex digit for a nibble, as executable code.
fn nibble_to_char(n: u8) -> (c: char)
    requires
        n < 16,
    ensures
        c == nibble_char(n),
{
    if n == 0 { '0' } else if n == 1 { '1' } else if n == 2 { '2' } else if n == 3 { '3' }
    else if n == 4 { '4' } else if n == 5 { '5' } else if n == 6 { '6' } else if n == 7 { '7' }
    else if n == 8 { '8' } else if n == 9 { '9' } else if n == 10 { 'a' } else if n == 11 { 'b' }
    else if n == 12 { 'c' } else if n == 13 { 'd' } else if n == 14 { 'e' } else { 'f' }
}

/// Relies on `String::push`: appends exactly one character.
#[verifier::external_body]
pub fn push_char(s: &mut String, c: char)
    ensures
        final(s)@ == old(s)@ + seq![c],
{
    s.push(c);
}

/// Renders a 64-bit value in minimal-form lowercase hex.
pub fn u64_to_hex(n: u64) -> (r: String)
    ensures
        r@ == hex_u64(n as nat),
{
    let mut digits: Vec<u8> = Vec::new();
    let mut m: u64 = n;
    loop
        invariant_except_break
            hex_u64(n as nat) == hex_u64(m as nat) + Seq::new(
                digits@.len(),
                |i: int| nibble_char(digits@[digits@.len() - 1 - i]),
            ),
        invariant
            forall|i: int| 0 <= i < digits@.len() ==> #[trigger] digits@[i] < 16,
        ensures
            hex_u64(n as nat) == Seq::new(
                digits@.len(),
                |i: int| nibble_char(digits@[digits@.len() - 1 - i]),
            ),
        decreases m,
    {
        let ghost prev = digits@;
        if m < 16 {
            digits.push(m as u8);
            proof {
                let whole = Seq::new(
                    digits@.len(),
                    |i: int| nibble_char(digits@[digits@.len() - 1 - i]),
                );
                let prev_part = Seq::new(prev.len(), |i: int| nibble_char(prev[prev.len() - 1 - i]));
                assert(whole =~= seq![nibble_char(m as u8)] + prev_part);
            }
            break;
        }
        digits.push((m % 16) as u8);
        proof {
            let whole = Seq::new(
                digits@.len(),
                |i: int| nibble_char(digits@[digits@.len() - 1 - i]),
            );
            let prev_part = Seq::new(prev.len(), |i: int| nibble_char(prev[prev.len() - 1 - i]));
            assert(whole =~= seq![nibble_char((m % 16) as u8)] + prev_part);
            assert(hex_u64(m as nat) == hex_u64((m as nat) / 16) + seq![
                nibble_char(((m as nat) % 16) as u8),
            ]);
            assert((m / 16) as nat == (m as nat) / 16);
        }
        m = m / 16;
    }
    let count = digits.len();
    let mut r = String::new();
    let mut k: usize = 0;
    while k < count
        invariant
            count == digits@.len(),
            k <= count,
            forall|i: int| 0 <= i < digits@.len() ==> #[trigger] digits@[i] < 16,
            hex_u64(n as nat) == Seq::new(
                digits@.len(),
                |i: int| nibble_char(digits@[digits@.len() - 1 - i]),
            ),
            r@ == Seq::new(k as nat, |i: int| nibble_char(digits@[digits@.len() - 1 - i])),
        decreases count - k,
    {
        let d = digits[count - 1 - k];
        let c = nibble_to_char(d);
        push_char(&mut r, c);
        proof {
            assert(r@ =~= Seq::new((k + 1) as nat, |i: int| nibble_char(
                digits@[digits@.len() - 1 - i],
            )));
        }
        k = k + 1;
    }
    proof {
        assert(r@ =~= hex_u64(n as nat));
    }
    r
}

/// The value denoted by a string of hex digits, most significant first.
pub open spec fn hex_val_prefix(s: Seq<char>) -> nat
    decreases s.len(),
{
    if s.len() == 0 {
        0
    } else {
        (hex_val_prefix(s.drop_last()) * 16 + hex_digit_val(s.last())) as nat
    }
}

/// What parsing a 64-bit hex string yields: the denoted value, or nothing
/// for an empty string, a non-digit, or a value above `u64::MAX`.
pub open spec fn spec_parse_hex_u64(s: Seq<char>) -> Option<u64> {
    if s.len() == 0 || (exists|i: int| 0 <= i < s.len() && !is_hex_digit(#[trigger] s[i])) {
        None
    } else if hex_val_prefix(s) > u64::MAX {
        None
    } else {
        Some(hex_val_prefix(s) as u64)
    }
}

proof fn lemma_hex_val_prefix_step(s: Seq<char>, j: int)
    requires
        0 <= j < s.len(),
    ensures
        hex_val_prefix(s.take(j + 1)) == hex_val_prefix(s.take(j)) * 16 + hex_digit_val(s[j]),
{
    assert(s.take(j + 1).drop_last() =~= s.take(j));
    assert(s.take(j + 1).last() == s[j]);
}

proof fn lemma_hex_val_prefix_mono(s: Seq<char>, j: int)
    requires
        0 <= j <= s.len(),
    ensures
        hex_val_prefix(s.take(j)) <= hex_val_prefix(s),
    decreases s.len() - j,
{
    if j == s.len() {
        assert(s.take(j) =~= s);
    } else {
        lemma_hex_val_prefix_step(s, j);
        lemma_hex_val_prefix_mono(s, j + 1);
    }
}

/// Parses a minimal-or-padded lowercase/uppercase hex string as a 64-bit
/// value.
pub fn parse_hex_u64(s: &str) -> (r: Option<u64>)
    ensures
        r == spec_parse_hex_u64(s@),
{
    proof {
        broadcast use vstd::string::is_ascii_spec_bytes;

    }
    if !s.is_ascii() {
        proof {
            let bad = choose|i: int| 0 <= i < s@.len() && !('\0' <= #[trigger] s@[i] <= '\u{7f}');
            assert(!is_hex_digit(s@[bad]));
        }
        return None;
    }
    let bytes = s.as_bytes();
    let n = bytes.len();
    if n == 0 {
        return None;
    }
    let mut acc: u64 = 0;
    let mut i: usize = 0;
    while i < n
        invariant
            s.is_ascii(),
            bytes@ == s.spec_bytes(),
            bytes@.len() == n == s@.len(),
            0 <= i <= n,
            forall|j: int| 0 <= j < i ==> is_hex_digit(#[trigger] s@[j]),
            acc == hex_val_prefix(s@.take(i as int)),
        decreases n - i,
    {
        let b = bytes[i];
        proof {
            assert(b == s@[i as int] as u8);
            assert('\0' <= s@[i as int] <= '\u{7f}');
        }
        let d: u8 = if b >= 48 && b <= 57 {
            b - 48
        } else if b >= 97 && b <= 102 {
            b - 97 + 10
        } else if b >= 65 && b <= 70 {
            b - 65 + 10
        } else {
            proof {
                assert(!is_hex_digit(s@[i as int]));
            }
            return None;
        };
        proof {
            assert(is_hex_digit(s@[i as int]));
            assert(d == hex_digit_val(s@[i as int]));
            lemma_hex_val_prefix_step(s@, i as int);
        }
        if acc >= 0x1000000000000000 {
            proof {
                assert(hex_val_prefix(s@.take(i + 1)) >= 0x1000000000000000 * 16) by (nonlinear_arith)
                    requires
                        hex_val_prefix(s@.take(i + 1)) == hex_val_prefix(s@.take(i as int)) * 16
                            + hex_digit_val(s@[i as int]),
                        hex_val_prefix(s@.take(i as int)) >= 0x1000000000000000,
                ;
                lemma_hex_val_prefix_mono(s@, i + 1);
            }
            return None;
        }
        acc = acc * 16 + (d as u64);
        i = i + 1;
    }
    proof {
        assert(s@.take(n as int) =~= s@);
    }
    Some(acc)
}

/// A nibble's digit is a hex digit and reads back as the nibble.
pub proof fn lemma_nibble_char_val(d: u8)
    requires
        d < 16,
    ensures
        is_hex_digit(nibble_char(d)),
        hex_digit_val(nibble_char(d)) == d,
{
}

/// Every character of a minimal-form hex rendering is a hex digit, and the
/// rendering denotes the value it was made from.
pub proof fn lemma_hex_u64_digits(n: nat)
    ensures
        forall|i: int| 0 <= i < hex_u64(n).len() ==> is_hex_digit(#[trigger] hex_u64(n)[i]),
        hex_val_prefix(hex_u64(n)) == n,
    decreases n,
{
    if n < 16 {
        lemma_nibble_char_val(n as u8);
        let c = nibble_char(n as u8);
        assert(hex_u64(n) == seq![c]);
        assert(seq![c].len() == 1);
        assert(seq![c].last() == c);
        assert(seq![c].drop_last() =~= Seq::<char>::empty());
        assert(hex_val_prefix(Seq::<char>::empty()) == 0);
        assert(hex_val_prefix(seq![c]) == (0 * 16 + hex_digit_val(c)) as nat);
        assert(hex_val_prefix(hex_u64(n)) == n);
    } else {
        lemma_hex_u64_digits(n / 16);
        lemma_nibble_char_val((n % 16) as u8);
        assert(hex_u64(n).drop_last() =~= hex_u64(n / 16));
        assert(hex_u64(n).last() == nibble_char((n % 16) as u8));
        assert(hex_val_prefix(hex_u64(n)) == n / 16 * 16 + n % 16);
        vstd::arithmetic::div_mod::lemma_fundamental_div_mod(n as int, 16);
        assert(n / 16 * 16 + n % 16 == n);
        assert forall|i: int| 0 <= i < hex_u64(n).len() implies is_hex_digit(
            #[trigger] hex_u64(n)[i],
        ) by {
            if i < hex_u64(n / 16).len() {
                assert(hex_u64(n)[i] == hex_u64(n / 16)[i]);
            } else {
                assert(hex_u64(n)[i] == nibble_char((n % 16) as u8));
            }
        }
    }
}

/// Rendering a 64-bit value in hex and parsing it back yields the value.
pub proof fn lemma_hex_u64_round_trip(n: u64)
    ensures
        spec_parse_hex_u64(hex_u64(n as nat)) == Some(n),
{
    lemma_hex_u64_digits(n as nat);
}

} // verus!
