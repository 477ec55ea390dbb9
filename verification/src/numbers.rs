//! Decimal decoding and encoding of the numeric values that appear in
//! the statistics text format and in the Prometheus output.

use vstd::prelude::*;

verus! {

/// True when `b` is an ASCII decimal digit.
pub open spec fn is_digit(b: u8) -> bool {
    48 <= b <= 57
}

/// True when every byte of `s` is an ASCII decimal digit.
pub open spec fn all_digits(s: Seq<u8>) -> bool {
    forall|i: int| 0 <= i < s.len() ==> is_digit(#[trigger] s[i])
}

/// Numeric value of a sequence of ASCII digits, most significant first.
pub open spec fn digits_val(s: Seq<u8>) -> int
    decreases s.len(),
{
    if s.len() == 0 {
        0
    } else {
        digits_val(s.drop_last()) * 10 + (s.last() - 48)
    }
}

/// The digits of an unsigned integer literal: `u64` parsing accepts one
/// optional leading `+` sign.
pub open spec fn unsigned_body(s: Seq<u8>) -> Seq<u8> {
    if s.len() > 0 && s[0] == 43 {
        s.drop_first()
    } else {
        s
    }
}

/// What `u64` decoding returns on the byte sequence `s`: the decimal
/// value when `s` is an optional `+` followed by digits that fit in a
/// `u64`, and nothing otherwise.
pub open spec fn spec_parse_u64(s: Seq<u8>) -> Option<u64> {
    let d = unsigned_body(s);
    if d.len() > 0 && all_digits(d) && digits_val(d) <= u64::MAX {
        Some(digits_val(d) as u64)
    } else {
        None
    }
}

/// The value of a digit string is never negative.
proof fn lemma_digits_val_nonneg(s: Seq<u8>)
    requires
        all_digits(s),
    ensures
        digits_val(s) >= 0,
    decreases s.len(),
{
    if s.len() > 0 {
        assert forall|i: int| 0 <= i < s.drop_last().len() implies is_digit(
            #[trigger] s.drop_last()[i],
        ) by {
            assert(s.drop_last()[i] == s[i]);
        }
        lemma_digits_val_nonneg(s.drop_last());
    }
}

/// Extending a digit string multiplies its value by ten and adds a digit,
/// so the value can only grow along a prefix.
proof fn lemma_digits_val_prefix_le(s: Seq<u8>, k: int)
    requires
        0 <= k <= s.len(),
        all_digits(s),
    ensures
        digits_val(s.take(k)) <= digits_val(s),
    decreases s.len() - k,
{
    if k < s.len() {
        assert forall|i: int| 0 <= i < s.take(k).len() implies is_digit(
            #[trigger] s.take(k)[i],
        ) by {
            assert(s.take(k)[i] == s[i]);
        }
        lemma_digits_val_nonneg(s.take(k));
        assert(s.take(k + 1).drop_last() =~= s.take(k));
        assert(s.take(k + 1).last() == s[k]);
        assert(digits_val(s.take(k + 1)) == digits_val(s.take(k)) * 10 + (s[k] - 48));
        lemma_digits_val_prefix_le(s, k + 1);
    } else {
        assert(s.take(k) =~= s);
    }
}

/// Decode an unsigned 64-bit counter from its decimal representation.
///
/// Mirrors `spec_parse_u64`: an optional `+`, then at least one digit,
/// rejected when the value does not fit in a `u64`.
pub fn parse_u64(s: &[u8]) -> (r: Option<u64>)
    ensures
        r == spec_parse_u64(s@),
{
    let ghost d = unsigned_body(s@);
    let start: usize = if s.len() > 0 && s[0] == 43u8 {
        1
    } else {
        0
    };
    proof {
        assert(d =~= s@.subrange(start as int, s@.len() as int));
    }
    if s.len() == start {
        return None;
    }
    let mut acc: u64 = 0;
    let mut i: usize = start;
    while i < s.len()
        invariant
            start <= i <= s.len(),
            d == unsigned_body(s@),
            d =~= s@.subrange(start as int, s@.len() as int),
            all_digits(d.take(i - start)),
            acc == digits_val(d.take(i - start)),
        decreases s.len() - i,
    {
        let b = s[i];
        if b < 48u8 || b > 57u8 {
            proof {
                assert(d[i - start] == s@[i as int]);
                assert(!is_digit(d[i - start]));
                assert(!all_digits(d));
            }
            return None;
        }
        let wide: u128 = (acc as u128) * 10 + ((b - 48u8) as u128);
        proof {
            assert(d.take(i - start + 1).drop_last() =~= d.take(i - start));
            assert(d.take(i - start + 1).last() == s@[i as int]);
            assert(wide == digits_val(d.take(i - start + 1)));
        }
        if wide > u64::MAX as u128 {
            proof {
                if all_digits(d) {
                    lemma_digits_val_prefix_le(d, i - start + 1);
                    assert(digits_val(d) > u64::MAX);
                }
            }
            return None;
        }
        acc = wide as u64;
        i = i + 1;
    }
    proof {
        assert(d.take(i - start) =~= d);
    }
    Some(acc)
}

/// A duration or fixed-point decimal value, counted in whole
/// nanoseconds.
///
/// Every duration and every fractional statistics value in this crate
/// is held this way; decoding truncates to whole nanoseconds, and
/// rendering prints decimal seconds.
#[derive(Clone, Copy, Debug, PartialEq, Eq, Structural)]
pub struct Nanos {
    pub nanos: u128,
}

impl Nanos {
    /// Well-formed nanosecond counts stay below two to the 64th seconds.
    pub open spec fn wf(self) -> bool {
        self.nanos < NANOS_CAP
    }

    /// The value rounded down to whole seconds.
    pub fn as_secs(&self) -> (r: u64)
        requires
            self.wf(),
        ensures
            r == self.nanos / (NANOS_PER_SEC as u128),
    {
        (self.nanos / 1000000000u128) as u64
    }

    /// The zero value.
    pub fn zero() -> (r: Nanos)
        ensures
            r.nanos == 0,
    {
        Nanos { nanos: 0 }
    }
}

/// What 16-bit decoding returns on the byte sequence `s`: the decimal
/// value of a plain digit string that fits in a `u16`.
pub open spec fn spec_parse_u16(s: Seq<u8>) -> Option<u16> {
    if s.len() > 0 && all_digits(s) && digits_val(s) <= 65535 {
        Some(digits_val(s) as u16)
    } else {
        None
    }
}

/// Decode an unsigned 16-bit code from a plain digit string.
pub fn parse_u16(s: &[u8]) -> (r: Option<u16>)
    ensures
        r == spec_parse_u16(s@),
{
    proof {
        assert(s@.subrange(0, s@.len() as int) =~= s@);
    }
    if s.len() == 0 {
        return None;
    }
    if !check_digits(s, 0, s.len()) {
        return None;
    }
    proof {
        lemma_digits_val_nonneg(s@);
    }
    let v = digits_value_capped(s, 0, s.len());
    if v > 65535u128 {
        return None;
    }
    Some(v as u16)
}

/// Nanoseconds per second.
pub const NANOS_PER_SEC: u128 = 1000000000;

/// Exclusive upper bound on nanosecond values: two to the 64th seconds,
/// the same range that a standard-library duration can hold.
pub const NANOS_CAP: u128 = 0x10000000000000000 * 1000000000;

/// Ten to the `k`.
pub open spec fn pow10(k: nat) -> int
    decreases k,
{
    if k == 0 {
        1
    } else {
        10 * pow10((k - 1) as nat)
    }
}

/// The fractional digits of a decimal literal, padded or truncated to
/// exactly nine places so that they count nanoseconds.
pub open spec fn frac_nanos(s: Seq<u8>) -> int {
    if s.len() >= 9 {
        digits_val(s.take(9))
    } else {
        digits_val(s) * pow10((9 - s.len()) as nat)
    }
}

/// Leading sign of a decimal literal: `true` for `-`, and the rest of
/// the literal.
pub open spec fn sign_split(s: Seq<u8>) -> (bool, Seq<u8>) {
    if s.len() > 0 && s[0] == 43 {
        (false, s.drop_first())
    } else if s.len() > 0 && s[0] == 45 {
        (true, s.drop_first())
    } else {
        (false, s)
    }
}

/// Index of the first `.` in `s`, or the length when there is none.
pub open spec fn dot_index(s: Seq<u8>) -> int
    decreases s.len(),
{
    if s.len() == 0 {
        0
    } else if s[0] == 46 {
        0
    } else {
        1 + dot_index(s.drop_first())
    }
}

/// Outcome of decoding a decimal literal into nanoseconds.
#[derive(Clone, Copy, Debug, PartialEq, Eq, Structural)]
pub enum FixedParse {
    /// A well-formed literal within range, as nanoseconds.
    Value(u128),
    /// A well-formed literal that is negative or at least two to the
    /// 64th seconds.
    OutOfRange,
    /// Not a plain decimal literal.
    Malformed,
}

/// What fixed-point decoding returns on the byte sequence `s`.
///
/// A literal is an optional `+` or `-` sign, then digits with at most
/// one `.`, at least one digit in all.  Its value is truncated to whole
/// nanoseconds.  Negative values other than zero, and values of at
/// least two to the 64th seconds, are out of range.
pub open spec fn spec_parse_fixed(s: Seq<u8>) -> FixedParse {
    let (neg, body) = sign_split(s);
    let dot = dot_index(body);
    let int_part = body.take(dot);
    let frac_part = body.skip(dot + 1);
    if dot == body.len() {
        // No dot: the whole body is the integer part.
        if int_part.len() > 0 && all_digits(int_part) {
            spec_classify_fixed(neg, digits_val(int_part) * (NANOS_PER_SEC as int))
        } else {
            FixedParse::Malformed
        }
    } else {
        if int_part.len() + frac_part.len() > 0 && all_digits(int_part) && all_digits(frac_part) {
            spec_classify_fixed(
                neg,
                digits_val(int_part) * (NANOS_PER_SEC as int) + frac_nanos(frac_part),
            )
        } else {
            FixedParse::Malformed
        }
    }
}

/// Range classification of a decoded nanosecond count.
pub open spec fn spec_classify_fixed(neg: bool, nanos: int) -> FixedParse {
    if neg && nanos > 0 {
        FixedParse::OutOfRange
    } else if nanos >= NANOS_CAP {
        FixedParse::OutOfRange
    } else {
        FixedParse::Value(nanos as u128)
    }
}

/// Find the first `.` of `s` starting at `from`, as the spec function
/// `dot_index` sees it.
fn find_dot(s: &[u8], from: usize) -> (r: usize)
    requires
        from <= s@.len(),
    ensures
        from + dot_index(s@.skip(from as int)) == r,
        from <= r <= s@.len(),
    decreases s@.len() - from,
{
    if from == s.len() {
        from
    } else if s[from] == 46u8 {
        from
    } else {
        let r = find_dot(s, from + 1);
        proof {
            assert(s@.skip(from as int).drop_first() =~= s@.skip(from + 1));
        }
        r
    }
}

/// Check that every byte of `s` in `[from, to)` is a digit.
fn check_digits(s: &[u8], from: usize, to: usize) -> (r: bool)
    requires
        from <= to <= s@.len(),
    ensures
        r == all_digits(s@.subrange(from as int, to as int)),
{
    let ghost part = s@.subrange(from as int, to as int);
    let mut i: usize = from;
    while i < to
        invariant
            from <= i <= to <= s@.len(),
            part == s@.subrange(from as int, to as int),
            forall|j: int| from <= j < i ==> is_digit(#[trigger] s@[j]),
        decreases to - i,
    {
        let b = s[i];
        if b < 48u8 || b > 57u8 {
            proof {
                assert(part[i - from] == s@[i as int]);
                assert(!all_digits(part));
            }
            return false;
        }
        i = i + 1;
    }
    proof {
        assert forall|j: int| 0 <= j < part.len() implies is_digit(#[trigger] part[j]) by {
            assert(part[j] == s@[from + j]);
        }
    }
    true
}

/// Value of the digit string `s[from..to)`, saturated at two to the 64th.
fn digits_value_capped(s: &[u8], from: usize, to: usize) -> (r: u128)
    requires
        from <= to <= s@.len(),
        all_digits(s@.subrange(from as int, to as int)),
    ensures
        ({
            let v = digits_val(s@.subrange(from as int, to as int));
            if v >= 0x10000000000000000 {
                r == 0x10000000000000000u128
            } else {
                r == v
            }
        }),
{
    let ghost part = s@.subrange(from as int, to as int);
    proof {
        lemma_digits_val_nonneg(part);
    }
    let mut acc: u128 = 0;
    let mut i: usize = from;
    while i < to
        invariant
            from <= i <= to <= s@.len(),
            part == s@.subrange(from as int, to as int),
            all_digits(part),
            ({
                let v = digits_val(part.take(i - from));
                if v >= 0x10000000000000000 {
                    acc == 0x10000000000000000u128
                } else {
                    acc == v
                }
            }),
            acc <= 0x10000000000000000u128,
        decreases to - i,
    {
        let b = s[i];
        proof {
            assert(part[i - from] == s@[i as int]);
            assert(is_digit(part[i - from]));
            assert(part.take(i - from + 1).drop_last() =~= part.take(i - from));
            assert(part.take(i - from + 1).last() == s@[i as int]);
            assert forall|j: int| 0 <= j < part.take(i - from).len() implies is_digit(
                #[trigger] part.take(i - from)[j],
            ) by {
                assert(part.take(i - from)[j] == part[j]);
            }
            lemma_digits_val_nonneg(part.take(i - from));
        }
        let next: u128 = acc * 10 + ((b - 48u8) as u128);
        acc = if next > 0x10000000000000000u128 {
            0x10000000000000000u128
        } else {
            next
        };
        i = i + 1;
    }
    proof {
        assert(part.take(i - from) =~= part);
    }
    acc
}

/// Nanoseconds denoted by the fractional digits `s[from..]`: the first
/// nine digits, padded with zeros on the right.
fn frac_nanos_value(s: &[u8], from: usize) -> (r: u128)
    requires
        from <= s@.len(),
        all_digits(s@.subrange(from as int, s@.len() as int)),
    ensures
        r == frac_nanos(s@.subrange(from as int, s@.len() as int)),
        0 <= r < 1000000000,
{
    let ghost part = s@.subrange(from as int, s@.len() as int);
    let to: usize = if s.len() - from >= 9 {
        from + 9
    } else {
        s.len()
    };
    let ghost taken = part.take(to - from);
    proof {
        assert forall|j: int| 0 <= j < taken.len() implies is_digit(#[trigger] taken[j]) by {
            assert(taken[j] == part[j]);
        }
        assert(taken =~= s@.subrange(from as int, to as int));
    }
    let mut f: u128 = digits_value_capped(s, from, to);
    proof {
        lemma_digits_val_nonneg(taken);
        lemma_digits_val_bound(taken);
        lemma_pow10_mono((to - from) as nat, 9);
        reveal_with_fuel(pow10, 10);
        assert(pow10(9) == 1000000000);
        assert(digits_val(taken) < 0x10000000000000000);
        assert(f == digits_val(taken));
        assert(pow10(0) == 1);
        assert(f == digits_val(taken) * pow10(0));
    }
    let mut pad: usize = 9 - (to - from);
    while pad > 0
        invariant
            pad <= 9,
            9 - pad >= to - from,
            to >= from,
            f == digits_val(taken) * pow10((9 - (to - from) - pad) as nat),
            f < pow10((9 - pad) as nat),
            digits_val(taken) >= 0,
            digits_val(taken) < pow10((to - from) as nat),
        decreases pad,
    {
        proof {
            lemma_pow10_mono((9 - pad) as nat, 9);
            reveal_with_fuel(pow10, 10);
            assert(pow10(9) == 1000000000);
            let dv = digits_val(taken);
            let p = pow10((9 - (to - from) - pad) as nat);
            assert(pow10((9 - (to - from) - pad + 1) as nat) == 10 * p);
            assert(dv * (10 * p) == dv * p * 10) by (nonlinear_arith);
            let q = pow10((9 - pad) as nat);
            assert(pow10((9 - pad + 1) as nat) == 10 * q);
            assert(f * 10 < q * 10) by (nonlinear_arith)
                requires
                    f < q,
            ;
        }
        f = f * 10;
        pad = pad - 1;
    }
    proof {
        reveal_with_fuel(pow10, 10);
        assert(pow10(9) == 1000000000);
        if part.len() >= 9 {
            assert(taken =~= part.take(9));
        } else {
            assert(taken =~= part);
        }
    }
    f
}

/// Decode a decimal literal into whole nanoseconds.
///
/// Mirrors `spec_parse_fixed`: the one decoder behind every duration
/// and floating-point statistics field, which this crate keeps in
/// fixed-point nanoseconds.
#[verifier::rlimit(60)]
pub fn parse_fixed(s: &[u8]) -> (r: FixedParse)
    ensures
        r == spec_parse_fixed(s@),
{
    let (neg, start): (bool, usize) = if s.len() > 0 && s[0] == 43u8 {
        (false, 1)
    } else if s.len() > 0 && s[0] == 45u8 {
        (true, 1)
    } else {
        (false, 0)
    };
    let ghost body = sign_split(s@).1;
    proof {
        assert(body =~= s@.subrange(start as int, s@.len() as int));
        assert(body =~= s@.skip(start as int));
    }
    let dot = find_dot(s, start);
    let ghost int_part = body.take(dot_index(body));
    proof {
        assert(int_part =~= s@.subrange(start as int, dot as int));
    }
    let has_frac = dot < s.len();
    let frac_from: usize = if has_frac {
        dot + 1
    } else {
        dot
    };
    let ghost frac_part = if has_frac {
        body.skip(dot_index(body) + 1)
    } else {
        Seq::<u8>::empty()
    };
    proof {
        assert(frac_part =~= s@.subrange(frac_from as int, s@.len() as int));
    }
    if !check_digits(s, start, dot) {
        return FixedParse::Malformed;
    }
    if !check_digits(s, frac_from, s.len()) {
        return FixedParse::Malformed;
    }
    if dot == start && frac_from == s.len() {
        // No digit at all.
        return FixedParse::Malformed;
    }
    proof {
        lemma_digits_val_nonneg(int_part);
        lemma_digits_val_nonneg(frac_part);
        lemma_frac_nanos_nonneg(frac_part);
    }
    let ghost spec_total = digits_val(int_part) * (NANOS_PER_SEC as int) + if has_frac {
        frac_nanos(frac_part)
    } else {
        0
    };
    let int_val = digits_value_capped(s, start, dot);
    if int_val == 0x10000000000000000u128 {
        // The integer part alone reaches two to the 64th seconds.
        proof {
            lemma_fixed_big(int_part);
        }
        return FixedParse::OutOfRange;
    }
    // Nanoseconds from up to nine fractional digits.
    let f: u128 = frac_nanos_value(s, frac_from);
    proof {
        if has_frac {
            assert(frac_nanos(frac_part) == f);
        } else {
            assert(s@.skip(frac_from as int) =~= Seq::<u8>::empty());
            reveal_with_fuel(pow10, 10);
            assert(f == 0);
        }
        assert(spec_total == int_val * (NANOS_PER_SEC as int) + f);
        assert(int_val * 1000000000 + f < NANOS_CAP) by (nonlinear_arith)
            requires
                int_val < 0x10000000000000000,
                0 <= f < 1000000000,
                NANOS_CAP == 0x10000000000000000u128 * 1000000000,
        ;
    }
    let nanos: u128 = int_val * 1000000000u128 + f;
    if neg && nanos > 0 {
        FixedParse::OutOfRange
    } else {
        FixedParse::Value(nanos)
    }
}

/// Fractional nanoseconds of a digit string are never negative.
proof fn lemma_frac_nanos_nonneg(s: Seq<u8>)
    requires
        all_digits(s),
    ensures
        frac_nanos(s) >= 0,
{
    if s.len() >= 9 {
        assert forall|i: int| 0 <= i < s.take(9).len() implies is_digit(
            #[trigger] s.take(9)[i],
        ) by {
            assert(s.take(9)[i] == s[i]);
        }
        lemma_digits_val_nonneg(s.take(9));
    } else {
        lemma_digits_val_nonneg(s);
        lemma_pow10_pos((9 - s.len()) as nat);
        assert(digits_val(s) * pow10((9 - s.len()) as nat) >= 0) by (nonlinear_arith)
            requires
                digits_val(s) >= 0,
                pow10((9 - s.len()) as nat) >= 1,
        ;
    }
}

/// A digit string's value is below ten to its length.
proof fn lemma_digits_val_bound(s: Seq<u8>)
    requires
        all_digits(s),
    ensures
        digits_val(s) < pow10(s.len()),
    decreases s.len(),
{
    if s.len() == 0 {
    } else {
        assert forall|i: int| 0 <= i < s.drop_last().len() implies is_digit(
            #[trigger] s.drop_last()[i],
        ) by {
            assert(s.drop_last()[i] == s[i]);
        }
        lemma_digits_val_bound(s.drop_last());
        assert(digits_val(s.drop_last()) * 10 + 10 <= pow10((s.len() - 1) as nat) * 10)
            by (nonlinear_arith)
            requires
                digits_val(s.drop_last()) < pow10((s.len() - 1) as nat),
        ;
    }
}

/// Ten to any power is positive.
proof fn lemma_pow10_pos(k: nat)
    ensures
        pow10(k) >= 1,
    decreases k,
{
    if k > 0 {
        lemma_pow10_pos((k - 1) as nat);
    }
}

/// When the integer part reaches two to the 64th, the value is over
/// the nanosecond cap.
proof fn lemma_fixed_big(int_part: Seq<u8>)
    requires
        digits_val(int_part) >= 0x10000000000000000,
    ensures
        digits_val(int_part) * (NANOS_PER_SEC as int) >= NANOS_CAP,
{
    assert(digits_val(int_part) * (NANOS_PER_SEC as int) >= NANOS_CAP) by (nonlinear_arith)
        requires
            digits_val(int_part) >= 0x10000000000000000,
            NANOS_CAP == 0x10000000000000000u128 * 1000000000,
            NANOS_PER_SEC == 1000000000u128,
    ;
}

/// Decimal digits of `n`, most significant first, without a sign and
/// without leading zeros (zero itself is the single digit `0`).
pub open spec fn dec_digits(n: nat) -> Seq<u8>
    decreases n,
{
    if n < 10 {
        seq![(48 + n) as u8]
    } else {
        dec_digits(n / 10) + seq![(48 + n % 10) as u8]
    }
}

/// Decimal rendering of a whole number of nanoseconds as seconds: the
/// integer seconds, a dot, then the fractional digits with trailing
/// zeros removed but at least one digit kept.
pub open spec fn fixed_digits(nanos: nat) -> Seq<u8> {
    dec_digits(nanos / 1000000000) + seq![46u8] + frac_digits(nanos % 1000000000)
}

/// The nine nanosecond digits of `f`, with trailing zeros removed but
/// at least one digit kept.
pub open spec fn frac_digits(f: nat) -> Seq<u8>
    recommends
        f < 1000000000,
{
    trim_trailing_zeros(padded_digits(f, 9))
}

/// Decimal digits of `f` padded with leading zeros to exactly `k` places.
pub open spec fn padded_digits(f: nat, k: nat) -> Seq<u8>
    decreases k,
{
    if k == 0 {
        Seq::empty()
    } else {
        padded_digits(f / 10, (k - 1) as nat) + seq![(48 + f % 10) as u8]
    }
}

/// Remove trailing zero digits, keeping at least one digit.
pub open spec fn trim_trailing_zeros(s: Seq<u8>) -> Seq<u8>
    decreases s.len(),
{
    if s.len() <= 1 || s.last() != 48 {
        s
    } else {
        trim_trailing_zeros(s.drop_last())
    }
}

/// Append the bytes of `tmp` to `out` in reverse order.
fn push_reversed(out: &mut Vec<u8>, tmp: &Vec<u8>)
    ensures
        final(out)@ == old(out)@ + tmp@.reverse(),
{
    proof {
        assert(old(out)@ + tmp@.reverse().take(0) =~= old(out)@);
    }
    let mut i: usize = tmp.len();
    while i > 0
        invariant
            i <= tmp@.len(),
            out@ == old(out)@ + tmp@.reverse().take(tmp@.len() - i),
        decreases i,
    {
        let b = tmp[i - 1];
        proof {
            assert(tmp@.reverse()[tmp@.len() - i] == tmp@[i - 1]);
            assert(tmp@.reverse().take(tmp@.len() - i + 1) =~= tmp@.reverse().take(
                tmp@.len() - i,
            ).push(tmp@[i - 1]));
            assert((old(out)@ + tmp@.reverse().take(tmp@.len() - i)).push(tmp@[i - 1]) =~= old(
                out,
            )@ + tmp@.reverse().take(tmp@.len() - i + 1));
        }
        out.push(b);
        i = i - 1;
    }
    proof {
        assert(tmp@.reverse().take(tmp@.len() as int) =~= tmp@.reverse());
    }
}

/// Append the decimal digits of `v` to `out`.
pub fn push_decimal(out: &mut Vec<u8>, v: u128)
    ensures
        final(out)@ == old(out)@ + dec_digits(v as nat),
{
    let mut tmp: Vec<u8> = Vec::new();
    let mut x: u128 = v;
    proof {
        assert(tmp@.reverse() =~= Seq::<u8>::empty());
        assert(dec_digits(x as nat) + tmp@.reverse() =~= dec_digits(v as nat));
    }
    while x >= 10
        invariant
            dec_digits(v as nat) == dec_digits(x as nat) + tmp@.reverse(),
        decreases x,
    {
        let d: u8 = 48u8 + ((x % 10) as u8);
        proof {
            assert(dec_digits(x as nat) == dec_digits((x as nat) / 10) + seq![d]);
            assert(tmp@.push(d).reverse() =~= seq![d] + tmp@.reverse());
            assert(dec_digits((x as nat) / 10) + tmp@.push(d).reverse() =~= dec_digits(
                x as nat,
            ) + tmp@.reverse());
        }
        tmp.push(d);
        x = x / 10;
    }
    let c: u8 = 48u8 + (x as u8);
    proof {
        assert(dec_digits(x as nat) =~= seq![c]);
    }
    out.push(c);
    proof {
        assert(out@ =~= old(out)@ + seq![c]);
    }
    push_reversed(out, &tmp);
    proof {
        assert(out@ =~= old(out)@ + dec_digits(v as nat));
    }
}

/// The padded digit string has exactly the asked-for length.
proof fn lemma_padded_len(f: nat, k: nat)
    ensures
        padded_digits(f, k).len() == k,
    decreases k,
{
    if k > 0 {
        lemma_padded_len(f / 10, (k - 1) as nat);
    }
}

/// Append the rendering of `nanos` nanoseconds as decimal seconds.
pub fn push_fixed(out: &mut Vec<u8>, nanos: u128)
    ensures
        final(out)@ == old(out)@ + fixed_digits(nanos as nat),
{
    push_decimal(out, nanos / 1000000000u128);
    out.push(46u8);
    proof {
        assert(out@ =~= old(out)@ + dec_digits((nanos as nat) / 1000000000) + seq![46u8]);
    }
    let f0: u128 = nanos % 1000000000u128;
    let mut g: u128 = f0;
    let mut k: usize = 9;
    while k > 1 && g % 10 == 0u128
        invariant
            1 <= k <= 9,
            trim_trailing_zeros(padded_digits(f0 as nat, 9)) == trim_trailing_zeros(
                padded_digits(g as nat, k as nat),
            ),
        decreases k,
    {
        proof {
            lemma_padded_len(g as nat, k as nat);
            assert(padded_digits(g as nat, k as nat).last() == (48 + (g as nat) % 10) as u8);
            assert(padded_digits(g as nat, k as nat).last() == 48);
            assert(padded_digits(g as nat, k as nat).drop_last() =~= padded_digits(
                (g as nat) / 10,
                (k - 1) as nat,
            ));
        }
        g = g / 10;
        k = k - 1;
    }
    proof {
        lemma_padded_len(g as nat, k as nat);
        if k == 1 {
            assert(trim_trailing_zeros(padded_digits(g as nat, k as nat)) == padded_digits(
                g as nat,
                k as nat,
            ));
        } else {
            assert(padded_digits(g as nat, k as nat).last() == (48 + (g as nat) % 10) as u8);
            assert(padded_digits(g as nat, k as nat).last() != 48);
        }
    }
    let ghost gk = padded_digits(g as nat, k as nat);
    let mut tmp: Vec<u8> = Vec::new();
    let mut j: usize = k;
    proof {
        assert(tmp@.reverse() =~= Seq::<u8>::empty());
        assert(padded_digits(g as nat, j as nat) + tmp@.reverse() =~= gk);
    }
    while j > 0
        invariant
            j <= 9,
            gk == padded_digits(g as nat, j as nat) + tmp@.reverse(),
        decreases j,
    {
        let d: u8 = 48u8 + ((g % 10) as u8);
        proof {
            assert(padded_digits(g as nat, j as nat) == padded_digits(
                (g as nat) / 10,
                (j - 1) as nat,
            ) + seq![d]);
            assert(tmp@.push(d).reverse() =~= seq![d] + tmp@.reverse());
            assert(padded_digits((g as nat) / 10, (j - 1) as nat) + tmp@.push(d).reverse()
                =~= padded_digits(g as nat, j as nat) + tmp@.reverse());
        }
        tmp.push(d);
        g = g / 10;
        j = j - 1;
    }
    proof {
        assert(padded_digits(g as nat, 0) =~= Seq::<u8>::empty());
        assert(gk =~= tmp@.reverse());
    }
    push_reversed(out, &tmp);
    proof {
        assert((nanos as nat) % 1000000000 == f0 as nat);
        assert(out@ =~= old(out)@ + fixed_digits(nanos as nat));
    }
}

/// Ten to a power is no greater than ten to a higher power.
proof fn lemma_pow10_mono(a: nat, b: nat)
    requires
        a <= b,
    ensures
        pow10(a) <= pow10(b),
    decreases b,
{
    if a < b {
        lemma_pow10_mono(a, (b - 1) as nat);
        lemma_pow10_pos((b - 1) as nat);
    }
}

} // verus!

