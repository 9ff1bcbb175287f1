//! Decimal rendering and parsing of the numbers that appear on the wire:
//! content lengths, status codes, timestamps, and the fixed-point
//! hundredths in which samples are carried.

use vstd::prelude::*;

verus! {

/// The ASCII digit byte for a value below ten.
pub open spec fn spec_digit(d: nat) -> u8 {
    (48 + d) as u8
}

/// The usual decimal rendering of a natural number, most significant
/// digit first, no sign, no leading zeros (except for zero itself).
pub open spec fn spec_dec_nat(n: nat) -> Seq<u8>
    decreases n,
{
    if n < 10 {
        seq![spec_digit(n)]
    } else {
        spec_dec_nat(n / 10).push(spec_digit(n % 10))
    }
}

/// Decimal rendering of an integer: a leading minus for negatives.
pub open spec fn spec_dec_int(n: int) -> Seq<u8> {
    if n < 0 {
        seq![45u8] + spec_dec_nat((-n) as nat)
    } else {
        spec_dec_nat(n as nat)
    }
}

/// Rendering of a fixed-point value in hundredths, the way the uplink
/// body writes a sample: integer part, a dot, then one fractional digit
/// when the hundredths digit is zero (2250 is "22.5", 4100 is "41.0"),
/// else two (2255 is "22.55"); a leading minus for negatives.
pub open spec fn spec_dec_centi(c: int) -> Seq<u8> {
    let a: nat = if c < 0 {
        (-c) as nat
    } else {
        c as nat
    };
    let frac: nat = a % 100;
    let digits = spec_dec_nat(a / 100) + seq![46u8] + (if frac % 10 == 0 {
        seq![spec_digit(frac / 10)]
    } else {
        seq![spec_digit(frac / 10), spec_digit(frac % 10)]
    });
    if c < 0 {
        seq![45u8] + digits
    } else {
        digits
    }
}

/// An ASCII decimal digit.
pub open spec fn spec_is_digit(b: u8) -> bool {
    48 <= b <= 57
}

/// Whether every byte of the sequence is a decimal digit.
pub open spec fn spec_all_digits(s: Seq<u8>) -> bool {
    forall|i: int| 0 <= i < s.len() ==> spec_is_digit(#[trigger] s[i])
}

/// The numeric value of a digit sequence, most significant digit first.
pub open spec fn spec_dec_value(s: Seq<u8>) -> int
    decreases s.len(),
{
    if s.len() == 0 {
        0
    } else {
        spec_dec_value(s.drop_last()) * 10 + s.last() - 48
    }
}

/// Renders a `u64` in decimal.
pub fn fmt_u64(n: u64) -> (r: Vec<u8>)
    ensures
        r@ == spec_dec_nat(n as nat),
    decreases n,
{
    if n < 10 {
        let mut v: Vec<u8> = Vec::new();
        v.push(48 + (n as u8));
        proof {
            assert(v@ =~= spec_dec_nat(n as nat));
        }
        v
    } else {
        let mut v = fmt_u64(n / 10);
        v.push(48 + ((n % 10) as u8));
        v
    }
}

/// Renders an `i64` in decimal, minus sign included.
pub fn fmt_i64(n: i64) -> (r: Vec<u8>)
    ensures
        r@ == spec_dec_int(n as int),
{
    if n >= 0 {
        fmt_u64(n as u64)
    } else {
        // Magnitude via a widening step so that i64::MIN needs no case of
        // its own.
        let mag: u64 = ((-(n + 1)) as u64) + 1;
        let mut v: Vec<u8> = Vec::new();
        v.push(45);
        let mut digits = fmt_u64(mag);
        v.append(&mut digits);
        proof {
            assert(v@ =~= spec_dec_int(n as int));
        }
        v
    }
}

/// Renders an `i32` in decimal, minus sign included.
pub fn fmt_i32(n: i32) -> (r: Vec<u8>)
    ensures
        r@ == spec_dec_int(n as int),
{
    fmt_i64(n as i64)
}

/// Renders a fixed-point value in hundredths, as `spec_dec_centi` says.
pub fn fmt_centi(c: i32) -> (r: Vec<u8>)
    ensures
        r@ == spec_dec_centi(c as int),
{
    let mut v: Vec<u8> = Vec::new();
    let a: u64 = if c < 0 {
        v.push(45);
        (-(c as i64)) as u64
    } else {
        c as u64
    };
    let whole: u64 = a / 100;
    let frac: u64 = a % 100;
    let mut digits = fmt_u64(whole);
    v.append(&mut digits);
    v.push(46);
    if frac % 10 == 0 {
        v.push(48 + ((frac / 10) as u8));
    } else {
        v.push(48 + ((frac / 10) as u8));
        v.push(48 + ((frac % 10) as u8));
    }
    proof {
        assert(v@ =~= spec_dec_centi(c as int));
    }
    v
}

/// A digit sequence's value is never negative.
pub proof fn lemma_dec_value_nonneg(s: Seq<u8>)
    requires
        spec_all_digits(s),
    ensures
        spec_dec_value(s) >= 0,
    decreases s.len(),
{
    if s.len() > 0 {
        assert(spec_all_digits(s.drop_last()));
        lemma_dec_value_nonneg(s.drop_last());
    }
}

/// The value of a prefix of a digit sequence is at most the value of the
/// whole sequence.
pub proof fn lemma_dec_value_prefix_le(s: Seq<u8>, i: int)
    requires
        spec_all_digits(s),
        0 <= i <= s.len(),
    ensures
        spec_dec_value(s.take(i)) <= spec_dec_value(s),
    decreases s.len() - i,
{
    if i == s.len() {
        assert(s.take(i) =~= s);
    } else {
        lemma_dec_value_prefix_le(s, i + 1);
        assert(s.take(i + 1).drop_last() =~= s.take(i));
        assert(s.take(i + 1).last() == s[i]);
        assert(spec_all_digits(s.take(i)));
        lemma_dec_value_nonneg(s.take(i));
    }
}

/// Rendering produces digits only.
pub proof fn lemma_dec_nat_all_digits(n: nat)
    ensures
        spec_all_digits(spec_dec_nat(n)),
        spec_dec_nat(n).len() > 0,
    decreases n,
{
    if n >= 10 {
        lemma_dec_nat_all_digits(n / 10);
        assert(spec_dec_nat(n).drop_last() =~= spec_dec_nat(n / 10));
    }
}

/// Parsing undoes rendering: the value of a rendered natural is itself.
pub proof fn lemma_dec_value_of_dec_nat(n: nat)
    ensures
        spec_dec_value(spec_dec_nat(n)) == n,
    decreases n,
{
    if n < 10 {
        assert(spec_dec_nat(n) =~= seq![spec_digit(n)]);
        assert(spec_dec_nat(n).len() == 1);
        assert(spec_dec_nat(n).drop_last() =~= Seq::<u8>::empty());
        assert(spec_dec_nat(n).last() == spec_digit(n));
        assert(spec_digit(n) == 48 + n);
        assert(spec_dec_value(Seq::<u8>::empty()) == 0);
        assert(spec_dec_value(spec_dec_nat(n)) == spec_dec_value(spec_dec_nat(n).drop_last()) * 10 + spec_dec_nat(n).last() - 48);
    } else {
        lemma_dec_value_of_dec_nat(n / 10);
        assert(spec_dec_nat(n).drop_last() =~= spec_dec_nat(n / 10));
        assert(spec_dec_nat(n).last() == spec_digit(n % 10));
        assert(spec_digit(n % 10) == 48 + n % 10);
        assert(spec_dec_value(spec_dec_nat(n)) == spec_dec_value(spec_dec_nat(n).drop_last()) * 10 + spec_dec_nat(n).last() - 48);
        assert(n == (n / 10) * 10 + n % 10);
    }
}

/// Parses an unsigned decimal into a `u16`, as the status-line parse
/// needs: `Some` exactly on non-empty all-digit input whose value fits.
pub fn parse_u16(s: &Vec<u8>) -> (r: Option<u16>)
    ensures
        match r {
            Some(v) => s@.len() > 0 && spec_all_digits(s@) && v as int == spec_dec_value(s@),
            None => s@.len() == 0 || !spec_all_digits(s@) || spec_dec_value(s@) > u16::MAX,
        },
{
    if s.len() == 0 {
        return None;
    }
    let mut acc: u32 = 0;
    let mut i: usize = 0;
    while i < s.len()
        invariant
            0 < s@.len(),
            0 <= i <= s@.len(),
            spec_all_digits(s@.take(i as int)),
            acc as int == spec_dec_value(s@.take(i as int)),
            acc <= u16::MAX,
        decreases s@.len() - i,
    {
        let b = s[i];
        if b < 48 || b > 57 {
            return None;
        }
        let d: u32 = (b - 48) as u32;
        let next: u32 = acc * 10 + d;
        proof {
            assert(s@.take(i + 1).drop_last() =~= s@.take(i as int));
            assert(s@.take(i + 1).last() == s@[i as int]);
            assert(spec_all_digits(s@.take(i + 1)));
        }
        if next > 65535 {
            proof {
                if spec_all_digits(s@) {
                    lemma_dec_value_prefix_le(s@, i + 1);
                }
            }
            return None;
        }
        acc = next;
        i = i + 1;
    }
    proof {
        assert(s@.take(s@.len() as int) =~= s@);
    }
    Some(acc as u16)
}

} // verus!
