//! Parser for the device payload: a comma-separated pair of decimal
//! numerals, surrounded by optional whitespace, as the serial device
//! sends it (`"52.5,25.0\r\n"`).
//!
//! The grammar is stated exactly by the spec functions: a numeral is
//! an optional minus sign, one or more integer digits, and optionally
//! a dot with fractional digits; its value is read into nano-units,
//! fractional digits beyond the ninth truncated. A payload parses
//! exactly when, after trimming, it holds two such numerals joined by
//! one comma, and the integer part stays within the representable
//! range. Everything else is a malformed payload — deliberately
//! including exponent forms (`5e1`), a leading plus, and non-finite
//! spellings (`inf`, `NaN`): the device emits plain decimals, and
//! every accepted payload must have an exact nano-unit value.

use vstd::prelude::*;
use crate::log::pow10;
use crate::state::RawReading;

verus! {

/// Maximum accepted integer part, chosen so any accepted magnitude
/// fits in nano-units in an `i64`.
pub const MAX_INT_PART: u64 = 9_000_000_000;

pub open spec fn is_ws(b: u8) -> bool {
    b == 32 || b == 9 || b == 10 || b == 13
}

pub open spec fn is_digit(b: u8) -> bool {
    48 <= b <= 57
}

/// Drop leading whitespace.
pub open spec fn trim_front(s: Seq<u8>) -> Seq<u8>
    decreases s.len(),
{
    if s.len() > 0 && is_ws(s[0]) {
        trim_front(s.drop_first())
    } else {
        s
    }
}

/// Drop trailing whitespace.
pub open spec fn trim_back(s: Seq<u8>) -> Seq<u8>
    decreases s.len(),
{
    if s.len() > 0 && is_ws(s.last()) {
        trim_back(s.drop_last())
    } else {
        s
    }
}

/// Drop whitespace at both ends.
pub open spec fn trimmed(s: Seq<u8>) -> Seq<u8> {
    trim_back(trim_front(s))
}

/// Index of the first occurrence of `b`, or the length when absent.
pub open spec fn first_at(s: Seq<u8>, b: u8) -> int
    decreases s.len(),
{
    if s.len() == 0 {
        0
    } else if s[0] == b {
        0
    } else {
        1 + first_at(s.drop_first(), b)
    }
}

pub open spec fn all_digits(s: Seq<u8>) -> bool {
    forall|i: int| 0 <= i < s.len() ==> is_digit(#[trigger] s[i])
}

/// Value of a digit string read as a decimal number.
pub open spec fn digits_val(s: Seq<u8>) -> int
    decreases s.len(),
{
    if s.len() == 0 {
        0
    } else {
        digits_val(s.drop_last()) * 10 + (s.last() - 48)
    }
}

/// Nano-unit value of a fraction-digit string: the first nine digits,
/// padded with zeros on the right when fewer.
pub open spec fn frac_val(s: Seq<u8>) -> int {
    if s.len() >= 9 {
        digits_val(s.subrange(0, 9))
    } else {
        digits_val(s) * (pow10((9 - s.len()) as nat) as int)
    }
}

/// Value of one numeral, or `None` when it does not fit the grammar
/// or its integer part exceeds `MAX_INT_PART`.
pub open spec fn num_val(s: Seq<u8>) -> Option<i64> {
    let neg = s.len() > 0 && s[0] == 45;
    let t = if neg {
        s.drop_first()
    } else {
        s
    };
    let d = first_at(t, 46);
    let ip = t.subrange(0, d);
    let fp = if d < t.len() {
        t.subrange(d + 1, t.len() as int)
    } else {
        Seq::empty()
    };
    if ip.len() == 0 || !all_digits(ip) || !all_digits(fp) {
        None
    } else if digits_val(ip) > MAX_INT_PART {
        None
    } else {
        let mag = digits_val(ip) * 1_000_000_000 + frac_val(fp);
        Some((if neg { -mag } else { mag }) as i64)
    }
}

/// Reading carried by a payload: after trimming, two numerals joined
/// by exactly one comma; `None` for anything else.
pub open spec fn payload_reading(s: Seq<u8>) -> Option<RawReading> {
    let t = trimmed(s);
    let c = first_at(t, 44);
    if c == t.len() {
        None
    } else {
        let a = t.subrange(0, c);
        let b = t.subrange(c + 1, t.len() as int);
        if first_at(b, 44) != b.len() {
            None
        } else {
            match (num_val(a), num_val(b)) {
                (Some(h), Some(tm)) => Some(RawReading { humidity: h, temperature: tm }),
                _ => None,
            }
        }
    }
}

proof fn lemma_first_at(s: Seq<u8>, b: u8, i: int)
    requires
        0 <= i <= s.len(),
        forall|k: int| 0 <= k < i ==> s[k] != b,
        i < s.len() ==> s[i] == b,
    ensures
        first_at(s, b) == i,
    decreases s.len(),
{
    if s.len() == 0 {
    } else if i == 0 {
    } else {
        assert(s[0] != b);
        lemma_first_at(s.drop_first(), b, i - 1);
    }
}

proof fn lemma_trim_front_at(s: Seq<u8>, lo: int)
    requires
        0 <= lo <= s.len(),
        forall|k: int| 0 <= k < lo ==> is_ws(#[trigger] s[k]),
        lo < s.len() ==> !is_ws(s[lo]),
    ensures
        trim_front(s) == s.subrange(lo, s.len() as int),
    decreases s.len(),
{
    if lo == 0 {
        assert(s.subrange(0, s.len() as int) =~= s);
    } else {
        assert(is_ws(s[0]));
        lemma_trim_front_at(s.drop_first(), lo - 1);
        assert(s.drop_first().subrange(lo - 1, s.drop_first().len() as int) =~= s.subrange(
            lo,
            s.len() as int,
        ));
    }
}

proof fn lemma_trim_back_at(s: Seq<u8>, hi: int)
    requires
        0 <= hi <= s.len(),
        forall|k: int| hi <= k < s.len() ==> is_ws(#[trigger] s[k]),
        hi > 0 ==> !is_ws(s[hi - 1]),
    ensures
        trim_back(s) == s.subrange(0, hi),
    decreases s.len(),
{
    if hi == s.len() {
        assert(s.subrange(0, s.len() as int) =~= s);
    } else {
        assert(is_ws(s.last()));
        lemma_trim_back_at(s.drop_last(), hi);
        assert(s.drop_last().subrange(0, hi) =~= s.subrange(0, hi));
    }
}

proof fn lemma_digits_val_step(s: Seq<u8>, j: int)
    requires
        0 <= j < s.len(),
    ensures
        digits_val(s.subrange(0, j + 1)) == digits_val(s.subrange(0, j)) * 10 + (s[j] - 48),
{
    let a = s.subrange(0, j + 1);
    assert(a.drop_last() =~= s.subrange(0, j));
    assert(a.last() == s[j]);
}

proof fn lemma_digits_val_nonneg(s: Seq<u8>)
    requires
        all_digits(s),
    ensures
        digits_val(s) >= 0,
    decreases s.len(),
{
    if s.len() > 0 {
        assert(all_digits(s.drop_last())) by {
            assert(forall|i: int|
                0 <= i < s.drop_last().len() ==> s.drop_last()[i] == #[trigger] s[i]);
        }
        lemma_digits_val_nonneg(s.drop_last());
        assert(is_digit(s.last()));
    }
}

proof fn lemma_digits_val_prefix(s: Seq<u8>, j: int)
    requires
        all_digits(s),
        0 <= j <= s.len(),
    ensures
        digits_val(s) >= digits_val(s.subrange(0, j)),
    decreases s.len() - j,
{
    if j == s.len() {
        assert(s.subrange(0, j) =~= s);
    } else {
        lemma_digits_val_step(s, j);
        assert(all_digits(s.subrange(0, j)));
        lemma_digits_val_nonneg(s.subrange(0, j));
        lemma_digits_val_prefix(s, j + 1);
    }
}

fn is_ws_exec(b: u8) -> (r: bool)
    ensures
        r == is_ws(b),
{
    b == 32 || b == 9 || b == 10 || b == 13
}

fn is_digit_exec(b: u8) -> (r: bool)
    ensures
        r == is_digit(b),
{
    48 <= b && b <= 57
}

/// Parse one numeral; returns exactly `num_val` of the bytes.
#[verifier::loop_isolation(false)]
#[verifier::rlimit(100)]
pub fn parse_number(part: &Vec<u8>) -> (r: Option<i64>)
    ensures
        r == num_val(part@),
{
    let n = part.len();
    let neg = n > 0 && part[0] == 45;
    let start: usize = if neg {
        1
    } else {
        0
    };
    let ghost t: Seq<u8> = if neg {
        part@.drop_first()
    } else {
        part@
    };
    assert(t =~= part@.subrange(start as int, n as int));

    // find the dot
    let mut dot: usize = start;
    while dot < n && part[dot] != 46
        invariant
            start <= dot <= n,
            n == part@.len(),
            t =~= part@.subrange(start as int, n as int),
            forall|k: int| start <= k < dot ==> part@[k] != 46,
        decreases n - dot,
    {
        dot += 1;
    }
    proof {
        lemma_first_at(t, 46, dot - start);
    }

    // integer part digits and value, capped
    if dot == start {
        assert(t.subrange(0, dot - start).len() == 0);
        return None;
    }
    let ghost ip: Seq<u8> = t.subrange(0, dot - start);
    let mut acc: u64 = 0;
    let mut j: usize = start;
    while j < dot
        invariant
            start <= j <= dot <= n,
            n == part@.len(),
            t =~= part@.subrange(start as int, n as int),
            ip =~= t.subrange(0, dot - start),
            acc <= MAX_INT_PART,
            acc as int == digits_val(ip.subrange(0, j - start)),
            all_digits(ip.subrange(0, j - start)),
        decreases dot - j,
    {
        let b = part[j];
        if !is_digit_exec(b) {
            assert(ip[j - start] == b);
            assert(!all_digits(ip));
            return None;
        }
        proof {
            lemma_digits_val_step(ip, j - start);
        }
        let next: u64 = acc * 10 + ((b - 48) as u64);
        assert(ip.subrange(0, j + 1 - start).drop_last() =~= ip.subrange(0, j - start));
        if next > MAX_INT_PART {
            proof {
                assert(all_digits(ip.subrange(0, j + 1 - start)));
                assert(digits_val(ip.subrange(0, j + 1 - start)) == next);
                if all_digits(ip) {
                    lemma_digits_val_prefix(ip, j + 1 - start);
                    assert(digits_val(ip) > MAX_INT_PART);
                }
            }
            return None;
        }
        acc = next;
        j += 1;
    }
    assert(ip.subrange(0, dot - start) =~= ip);
    assert(acc as int == digits_val(ip));
    assert(all_digits(ip));

    // fraction digits and nano-unit value
    let ghost fp: Seq<u8> = if dot < n {
        t.subrange(dot + 1 - start, t.len() as int)
    } else {
        Seq::empty()
    };
    let fstart: usize = if dot < n {
        dot + 1
    } else {
        n
    };
    assert(fp =~= part@.subrange(fstart as int, n as int));
    let mut fv: u64 = 0;
    let mut taken: usize = 0;
    let mut k: usize = fstart;
    proof {
        reveal_with_fuel(pow10, 11);
    }
    while k < n
        invariant
            fstart <= k <= n,
            n == part@.len(),
            fp =~= part@.subrange(fstart as int, n as int),
            taken == if k - fstart <= 9 {
                k - fstart
            } else {
                9
            },
            fv as int == digits_val(fp.subrange(0, taken as int)),
            fv < 1_000_000_000,
            all_digits(fp.subrange(0, k - fstart)),
        decreases n - k,
    {
        let b = part[k];
        if !is_digit_exec(b) {
            assert(fp[k - fstart] == b);
            assert(!all_digits(fp));
            return None;
        }
        assert(fp.subrange(0, k + 1 - fstart).drop_last() =~= fp.subrange(0, k - fstart));
        if taken < 9 {
            proof {
                lemma_digits_val_step(fp, taken as int);
                assert(all_digits(fp.subrange(0, taken as int)));
                lemma_digits_val_nonneg(fp.subrange(0, taken as int));
            }
            assert(fv as int * 10 + (b - 48) < 1_000_000_000) by {
                assert(fv as int == digits_val(fp.subrange(0, taken as int)));
                assert(digits_val(fp.subrange(0, taken as int)) < pow10(taken as nat)) by {
                    lemma_digits_val_bound(fp.subrange(0, taken as int));
                }
                assert(pow10(taken as nat) <= pow10(8)) by {
                    lemma_pow10_mono(taken as nat, 8);
                }
                assert(pow10(8) == 100_000_000) by {
                    reveal_with_fuel(pow10, 11);
                }
            };
            fv = fv * 10 + ((b - 48) as u64);
            taken += 1;
        }
        k += 1;
    }
    assert(all_digits(fp)) by {
        assert(fp.subrange(0, n - fstart) =~= fp);
    }
    let padded: u64 = if n - fstart < 9 {
        let mut p: u64 = fv;
        let mut w: usize = n - fstart;
        assert(taken == n - fstart);
        assert(fp.subrange(0, taken as int) =~= fp);
        proof {
            lemma_digits_val_bound(fp);
            assert(pow10(0) == 1) by {
                reveal_with_fuel(pow10, 2);
            }
            assert(p as int == digits_val(fp) * 1);
        }
        while w < 9
            invariant
                n - fstart <= w <= 9,
                p as int == digits_val(fp) * (pow10((w - (n - fstart)) as nat) as int),
                digits_val(fp) < pow10((n - fstart) as nat),
                digits_val(fp) >= 0,
                p < 1_000_000_000,
            decreases 9 - w,
        {
            assert((p as int) * 10 == digits_val(fp) * (pow10((w + 1 - (n - fstart)) as nat) as int)
                && (p as int) * 10 < 1_000_000_000) by {
                lemma_pow10_add(fp, (w - (n - fstart)) as nat, (n - fstart) as nat);
            }
            p = p * 10;
            w += 1;
        }
        p
    } else {
        assert(taken == 9);
        fv
    };
    assert(padded as int == frac_val(fp));

    let mag: u64 = acc * 1_000_000_000 + padded;
    assert(mag as int == digits_val(ip) * 1_000_000_000 + frac_val(fp));
    if neg {
        let r: i64 = -(mag as i64);
        assert(r == num_val(part@)->Some_0);
        Some(r)
    } else {
        let r: i64 = mag as i64;
        assert(r == num_val(part@)->Some_0);
        Some(r)
    }
}

proof fn lemma_pow10_mono(a: nat, b: nat)
    requires
        a <= b,
    ensures
        pow10(a) <= pow10(b),
    decreases b,
{
    if a < b {
        lemma_pow10_mono(a, (b - 1) as nat);
        assert(pow10(b) == 10 * pow10((b - 1) as nat));
    }
}

proof fn lemma_digits_val_bound(s: Seq<u8>)
    requires
        all_digits(s),
    ensures
        digits_val(s) < pow10(s.len()),
        digits_val(s) >= 0,
    decreases s.len(),
{
    if s.len() == 0 {
    } else {
        assert(all_digits(s.drop_last())) by {
            assert(forall|i: int|
                0 <= i < s.drop_last().len() ==> s.drop_last()[i] == #[trigger] s[i]);
        }
        lemma_digits_val_bound(s.drop_last());
        assert(is_digit(s.last()));
        assert(pow10(s.len()) == 10 * pow10((s.len() - 1) as nat));
        assert(digits_val(s.drop_last()) * 10 + (s.last() - 48) < pow10(s.len())) by (nonlinear_arith)
            requires
                digits_val(s.drop_last()) < pow10((s.len() - 1) as nat),
                digits_val(s.drop_last()) >= 0,
                s.last() - 48 < 10,
                pow10(s.len()) == 10 * pow10((s.len() - 1) as nat),
        ;
    }
}

proof fn lemma_pow10_add(s: Seq<u8>, w: nat, l: nat)
    requires
        all_digits(s),
        s.len() == l,
        digits_val(s) < pow10(l),
        w + 1 + l <= 9,
    ensures
        digits_val(s) * (pow10(w) as int) * 10 == digits_val(s) * (pow10((w + 1) as nat) as int),
        digits_val(s) * (pow10((w + 1) as nat) as int) < pow10((w + 1 + l) as nat),
        pow10((w + 1 + l) as nat) <= 1_000_000_000,
{
    lemma_digits_val_bound(s);
    assert(pow10((w + 1) as nat) == 10 * pow10(w));
    assert(digits_val(s) * (pow10(w) as int) * 10 == digits_val(s) * (10 * pow10(w) as int))
        by (nonlinear_arith);
    assert(digits_val(s) * (pow10((w + 1) as nat) as int) < pow10((w + 1 + l) as nat)) by {
        lemma_pow10_mul(l, (w + 1) as nat);
        assert(digits_val(s) * (pow10((w + 1) as nat) as int) <= (pow10(l) as int - 1) * (pow10(
            (w + 1) as nat,
        ) as int)) by (nonlinear_arith)
            requires
                digits_val(s) <= pow10(l) as int - 1,
                digits_val(s) >= 0,
                pow10((w + 1) as nat) >= 1,
        ;
        assert((pow10(l) as int - 1) * (pow10((w + 1) as nat) as int) < (pow10(l) as int) * (pow10(
            (w + 1) as nat,
        ) as int)) by (nonlinear_arith)
            requires
                pow10((w + 1) as nat) >= 1,
        ;
    }
    assert(pow10((w + 1 + l) as nat) <= pow10(9)) by {
        lemma_pow10_mono((w + 1 + l) as nat, 9);
    }
    assert(pow10(9) == 1_000_000_000) by {
        reveal_with_fuel(pow10, 11);
    }
}

proof fn lemma_pow10_mul(a: nat, b: nat)
    ensures
        pow10(a) * pow10(b) == pow10((a + b) as nat),
        pow10(a) >= 1,
        pow10(b) >= 1,
    decreases a,
{
    if a == 0 {
        lemma_pow10_mono(0, b);
    } else {
        lemma_pow10_mul((a - 1) as nat, b);
        assert(pow10(a) == 10 * pow10((a - 1) as nat));
        assert(pow10((a + b) as nat) == 10 * pow10((a - 1 + b) as nat));
        assert((10 * pow10((a - 1) as nat)) * pow10(b) == 10 * (pow10((a - 1) as nat) * pow10(b)))
            by (nonlinear_arith);
    }
}

/// Parse a whole payload; returns exactly `payload_reading` of the
/// bytes.
#[verifier::loop_isolation(false)]
pub fn parse_reading(bytes: &Vec<u8>) -> (r: Option<RawReading>)
    ensures
        r == payload_reading(bytes@),
{
    let n = bytes.len();

    // trim both ends
    let mut lo: usize = 0;
    while lo < n && is_ws_exec(bytes[lo])
        invariant
            0 <= lo <= n,
            n == bytes@.len(),
            forall|k: int| 0 <= k < lo ==> is_ws(#[trigger] bytes@[k]),
        decreases n - lo,
    {
        lo += 1;
    }
    let mut hi: usize = n;
    while hi > lo && is_ws_exec(bytes[hi - 1])
        invariant
            lo <= hi <= n,
            n == bytes@.len(),
            forall|k: int| hi <= k < n ==> is_ws(#[trigger] bytes@[k]),
        decreases hi,
    {
        hi -= 1;
    }
    proof {
        lemma_trim_front_at(bytes@, lo as int);
        lemma_trim_back_at(bytes@.subrange(lo as int, n as int), hi - lo);
    }
    let ghost t: Seq<u8> = trimmed(bytes@);
    assert(t =~= bytes@.subrange(lo as int, hi as int)) by {
        assert(bytes@.subrange(lo as int, n as int).subrange(0, hi - lo) =~= bytes@.subrange(
            lo as int,
            hi as int,
        ));
    }

    // exactly one comma
    let mut c: usize = lo;
    while c < hi && bytes[c] != 44
        invariant
            lo <= c <= hi,
            hi <= n == bytes@.len(),
            forall|k: int| lo <= k < c ==> bytes@[k] != 44,
        decreases hi - c,
    {
        c += 1;
    }
    proof {
        lemma_first_at(t, 44, c - lo);
    }
    if c == hi {
        return None;
    }
    let ghost bpart: Seq<u8> = t.subrange(c - lo + 1, t.len() as int);
    assert(bpart =~= bytes@.subrange(c + 1, hi as int));
    let mut c2: usize = c + 1;
    while c2 < hi && bytes[c2] != 44
        invariant
            c + 1 <= c2 <= hi,
            hi <= n == bytes@.len(),
            forall|k: int| c + 1 <= k < c2 ==> bytes@[k] != 44,
        decreases hi - c2,
    {
        c2 += 1;
    }
    proof {
        lemma_first_at(bpart, 44, c2 - (c + 1));
    }
    if c2 < hi {
        return None;
    }

    // copy and parse the two parts
    let mut a_part: Vec<u8> = Vec::new();
    let mut i: usize = lo;
    while i < c
        invariant
            lo <= i <= c <= hi <= n,
            n == bytes@.len(),
            a_part@ =~= bytes@.subrange(lo as int, i as int),
        decreases c - i,
    {
        a_part.push(bytes[i]);
        i += 1;
    }
    assert(a_part@ =~= t.subrange(0, c - lo));
    let mut b_part: Vec<u8> = Vec::new();
    let mut i2: usize = c + 1;
    while i2 < hi
        invariant
            c + 1 <= i2 <= hi <= n,
            n == bytes@.len(),
            b_part@ =~= bytes@.subrange(c + 1, i2 as int),
        decreases hi - i2,
    {
        b_part.push(bytes[i2]);
        i2 += 1;
    }
    assert(b_part@ =~= bpart);

    let h = parse_number(&a_part);
    let tm = parse_number(&b_part);
    match (h, tm) {
        (Some(hv), Some(tv)) => Some(RawReading { humidity: hv, temperature: tv }),
        _ => None,
    }
}

} // verus!
