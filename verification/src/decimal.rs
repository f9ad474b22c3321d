//! Decimal rendering of the integers that appear on the wire.

use vstd::prelude::*;

verus! {

/// The decimal digit for a value below ten.
pub open spec fn dec_char(n: u8) -> char
    recommends
        n < 10,
{
    if n == 0 { '0' } else if n == 1 { '1' } else if n == 2 { '2' } else if n == 3 { '3' }
    else if n == 4 { '4' } else if n == 5 { '5' } else if n == 6 { '6' } else if n == 7 { '7' }
    else if n == 8 { '8' } else { '9' }
}

/// Minimal-form decimal rendering of a natural number.
pub open spec fn dec_of(n: nat) -> Seq<char>
    decreases n,
{
    if n < 10 {
        seq![dec_char(n as u8)]
    } else {
        dec_of(n / 10) + seq![dec_char((n % 10) as u8)]
    }
}

/// Decimal rendering of a signed value: a minus sign before the magnitude.
pub open spec fn dec_of_i64(n: int) -> Seq<char>
    recommends
        i64::MIN <= n <= i64::MAX,
{
    if n < 0 {
        seq!['-'] + dec_of((-n) as nat)
    } else {
        dec_of(n as nat)
    }
}

/// The decimal digit for a value below ten, as executable code.
fn dec_to_char(n: u8) -> (c: char)
    requires
        n < 10,
    ensures
        c == dec_char(n),
{
    if n == 0 { '0' } else if n == 1 { '1' } else if n == 2 { '2' } else if n == 3 { '3' }
    else if n == 4 { '4' } else if n == 5 { '5' } else if n == 6 { '6' } else if n == 7 { '7' }
    else if n == 8 { '8' } else { '9' }
}

/// Renders a 128-bit value in minimal-form decimal.
pub fn u128_to_dec(n: u128) -> (r: String)
    ensures
        r@ == dec_of(n as nat),
{
    let mut digits: Vec<u8> = Vec::new();
    let mut m: u128 = n;
    loop
        invariant_except_break
            dec_of(n as nat) == dec_of(m as nat) + Seq::new(
                digits@.len(),
                |i: int| dec_char(digits@[digits@.len() - 1 - i]),
            ),
        invariant
            forall|i: int| 0 <= i < digits@.len() ==> #[trigger] digits@[i] < 10,
        ensures
            dec_of(n as nat) == Seq::new(
                digits@.len(),
                |i: int| dec_char(digits@[digits@.len() - 1 - i]),
            ),
        decreases m,
    {
        let ghost prev = digits@;
        if m < 10 {
            digits.push(m as u8);
            proof {
                let whole = Seq::new(
                    digits@.len(),
                    |i: int| dec_char(digits@[digits@.len() - 1 - i]),
                );
                let prev_part = Seq::new(prev.len(), |i: int| dec_char(prev[prev.len() - 1 - i]));
                assert(whole =~= seq![dec_char(m as u8)] + prev_part);
            }
            break;
        }
        digits.push((m % 10) as u8);
        proof {
            let whole = Seq::new(digits@.len(), |i: int| dec_char(digits@[digits@.len() - 1 - i]));
            let prev_part = Seq::new(prev.len(), |i: int| dec_char(prev[prev.len() - 1 - i]));
            assert(whole =~= seq![dec_char((m % 10) as u8)] + prev_part);
            assert(dec_of(m as nat) == dec_of((m as nat) / 10) + seq![
                dec_char(((m as nat) % 10) as u8),
            ]);
            assert((m / 10) as nat == (m as nat) / 10);
        }
        m = m / 10;
    }
    let count = digits.len();
    let mut r = String::new();
    let mut k: usize = 0;
    while k < count
        invariant
            count == digits@.len(),
            k <= count,
            forall|i: int| 0 <= i < digits@.len() ==> #[trigger] digits@[i] < 10,
            dec_of(n as nat) == Seq::new(
                digits@.len(),
                |i: int| dec_char(digits@[digits@.len() - 1 - i]),
            ),
            r@ == Seq::new(k as nat, |i: int| dec_char(digits@[digits@.len() - 1 - i])),
        decreases count - k,
    {
        let d = digits[count - 1 - k];
        let c = dec_to_char(d);
        crate::hexfmt::push_char(&mut r, c);
        proof {
            assert(r@ =~= Seq::new((k + 1) as nat, |i: int| dec_char(
                digits@[digits@.len() - 1 - i],
            )));
        }
        k = k + 1;
    }
    proof {
        assert(r@ =~= dec_of(n as nat));
    }
    r
}

/// Renders a signed 64-bit value in minimal-form decimal.
pub fn i64_to_dec(n: i64) -> (r: String)
    ensures
        r@ == dec_of_i64(n as int),
{
    if n >= 0 {
        u128_to_dec(n as u128)
    } else {
        let magnitude: u128 = (-(n as i128)) as u128;
        let mut r = String::new();
        crate::hexfmt::push_char(&mut r, '-');
        let rest = u128_to_dec(magnitude);
        let r = r.concat(rest.as_str());
        proof {
            assert(r@ =~= seq!['-'] + dec_of((-(n as int)) as nat));
        }
        r
    }
}

} // verus!
