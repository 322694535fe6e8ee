//! Chapter numbers as exact fixed-point decimals.
//!
//! A chapter number is a non-negative decimal with a whole part and eighteen
//! fractional places. It is read from a run of digits and dots: the run must
//! hold at least one digit and at most one dot, its whole part must fit in 64
//! bits, and fractional digits beyond the eighteenth place are dropped.

use vstd::prelude::*;
use crate::text::{
    char_is_digit, decimal_digits, digit_char, is_digit, padded_digits, push_decimal, push_padded,
    string_of, without_trailing_zeros,
};

verus! {

/// How many units of the fractional part make one whole: ten to the power
/// `FRACTION_PLACES`.
pub const FRACTION_UNITS: u64 = 1_000_000_000_000_000_000;

/// The number of decimal places that a chapter number keeps.
pub const FRACTION_PLACES: usize = 18;

/// Ten to the power `n`.
pub open spec fn pow10(n: nat) -> nat
    decreases n,
{
    if n == 0 {
        1
    } else {
        10 * pow10((n - 1) as nat)
    }
}

/// The mathematical value of a chapter number: `whole + frac / 10^18`.
pub ghost struct Decimal {
    pub whole: nat,
    pub frac: nat,
}

impl Decimal {
    /// The value in units of `10^-18`, by which decimals are ordered.
    pub open spec fn scaled(self) -> nat {
        self.whole * (FRACTION_UNITS as nat) + self.frac
    }

    /// A decimal whose parts fit a `ChapterNumber`.
    pub open spec fn fits(self) -> bool {
        self.whole <= u64::MAX && self.frac < FRACTION_UNITS
    }
}

/// Whether `c` may stand in a numeric run: a digit or a dot.
pub open spec fn is_run_char(c: char) -> bool {
    is_digit(c) || c == '.'
}

/// The value of a digit character, and zero for any other character.
pub open spec fn digit_value(c: char) -> nat {
    if is_digit(c) {
        (c as int - '0' as int) as nat
    } else {
        0
    }
}

/// The number of dots in `s`.
pub open spec fn count_dots(s: Seq<char>) -> nat
    decreases s.len(),
{
    if s.len() == 0 {
        0
    } else {
        count_dots(s.drop_last()) + if s.last() == '.' {
            1nat
        } else {
            0nat
        }
    }
}

/// The number of digits in `s`.
pub open spec fn count_digits(s: Seq<char>) -> nat
    decreases s.len(),
{
    if s.len() == 0 {
        0
    } else {
        count_digits(s.drop_last()) + if is_digit(s.last()) {
            1nat
        } else {
            0nat
        }
    }
}

/// The position of the first dot of `s`, or the length of `s` if it has none.
pub open spec fn first_dot(s: Seq<char>) -> int
    decreases s.len(),
{
    if s.len() == 0 || s[0] == '.' {
        0
    } else {
        1 + first_dot(s.drop_first())
    }
}

/// The number that the digits of `s` write in base ten.
pub open spec fn whole_value(s: Seq<char>) -> nat
    decreases s.len(),
{
    if s.len() == 0 {
        0
    } else {
        whole_value(s.drop_last()) * 10 + digit_value(s.last())
    }
}

/// The value, in units of `10^-places`, of the digits `s` read as the digits
/// after a decimal point; digits beyond the first `places` are dropped.
pub open spec fn fraction_value(s: Seq<char>, places: nat) -> nat {
    if s.len() <= places {
        whole_value(s) * pow10((places - s.len()) as nat)
    } else {
        whole_value(s.subrange(0, places as int))
    }
}

/// A run that writes a decimal: only digits and dots, at least one digit, at
/// most one dot.
pub open spec fn is_literal(s: Seq<char>) -> bool {
    &&& forall|i: int| 0 <= i < s.len() ==> is_run_char(#[trigger] s[i])
    &&& count_dots(s) <= 1
    &&& count_digits(s) >= 1
}

/// The digits of `s` after its first dot.
pub open spec fn after_dot(s: Seq<char>) -> Seq<char> {
    if first_dot(s) < s.len() {
        s.subrange(first_dot(s) + 1, s.len() as int)
    } else {
        Seq::empty()
    }
}

/// The decimal that the run `s` writes, if it is a literal whose whole part
/// fits in 64 bits.
pub open spec fn literal_number(s: Seq<char>) -> Option<Decimal> {
    if is_literal(s) && whole_value(s.subrange(0, first_dot(s))) <= u64::MAX {
        Some(
            Decimal {
                whole: whole_value(s.subrange(0, first_dot(s))),
                frac: fraction_value(after_dot(s), FRACTION_PLACES as nat),
            },
        )
    } else {
        None
    }
}

/// How a decimal is written: the whole part, then, unless the fractional
/// part is zero, a dot and the fractional digits without zeros at the end.
pub open spec fn decimal_text(d: Decimal) -> Seq<char> {
    if d.frac == 0 {
        decimal_digits(d.whole)
    } else {
        decimal_digits(d.whole) + seq!['.'] + without_trailing_zeros(
            padded_digits(d.frac, FRACTION_PLACES as nat),
        )
    }
}

/// A chapter number: a non-negative fixed-point decimal.
#[derive(Clone, Copy, Debug, PartialEq, Eq, Structural, Hash)]
pub struct ChapterNumber {
    whole: u64,
    frac: u64,
}

impl View for ChapterNumber {
    type V = Decimal;

    closed spec fn view(&self) -> Decimal {
        Decimal { whole: self.whole as nat, frac: self.frac as nat }
    }
}

impl ChapterNumber {
    #[verifier::type_invariant]
    closed spec fn inv(self) -> bool {
        self.frac < FRACTION_UNITS
    }

    /// The number zero, under which files without a readable number are kept.
    pub fn zero() -> (n: ChapterNumber)
        ensures
            n@ == (Decimal { whole: 0, frac: 0 }),
    {
        ChapterNumber { whole: 0, frac: 0 }
    }

    /// The whole number `whole`.
    pub fn from_whole(whole: u64) -> (n: ChapterNumber)
        ensures
            n@ == (Decimal { whole: whole as nat, frac: 0 }),
    {
        ChapterNumber { whole, frac: 0 }
    }

    /// The number `whole + frac / 10^18`, if `frac` is below `10^18`.
    pub fn from_parts(whole: u64, frac: u64) -> (n: Option<ChapterNumber>)
        ensures
            match n {
                Some(n) => frac < FRACTION_UNITS && n@ == (Decimal {
                    whole: whole as nat,
                    frac: frac as nat,
                }),
                None => frac >= FRACTION_UNITS,
            },
    {
        if frac < FRACTION_UNITS {
            Some(ChapterNumber { whole, frac })
        } else {
            None
        }
    }

    /// Recalls what holds of every chapter number: its fractional part is
    /// below one whole.
    pub fn recall_bounds(&self)
        ensures
            self@.fits(),
    {
        proof {
            use_type_invariant(self);
        }
    }

    /// The whole part.
    pub fn whole(&self) -> (w: u64)
        ensures
            w == self@.whole,
            self@.fits(),
    {
        proof {
            use_type_invariant(self);
        }
        self.whole
    }

    /// The fractional part, in units of `10^-18`.
    pub fn fraction(&self) -> (f: u64)
        ensures
            f == self@.frac,
            f < FRACTION_UNITS,
    {
        proof {
            use_type_invariant(self);
        }
        self.frac
    }

    /// Appends the number, as it is written, to `out`.
    pub fn push_to(&self, out: &mut Vec<char>)
        ensures
            final(out)@ == old(out)@ + decimal_text(self@),
    {
        proof {
            use_type_invariant(self);
        }
        push_decimal(out, self.whole);
        if self.frac != 0 {
            out.push('.');
            let mut f: u64 = self.frac;
            let mut width: usize = FRACTION_PLACES;
            while width > 0 && f % 10 == 0
                invariant
                    f != 0,
                    width <= FRACTION_PLACES,
                    without_trailing_zeros(padded_digits(self.frac as nat, FRACTION_PLACES as nat))
                        == without_trailing_zeros(padded_digits(f as nat, width as nat)),
                decreases width,
            {
                proof {
                    let rest = padded_digits((f / 10) as nat, (width - 1) as nat);
                    assert(padded_digits(f as nat, width as nat) == rest.push('0'));
                    assert(rest.push('0').drop_last() =~= rest);
                }
                f = f / 10;
                width = width - 1;
            }
            proof {
                let shown = padded_digits(f as nat, width as nat);
                if width > 0 {
                    assert(shown.last() == digit_char((f % 10) as nat));
                    assert(shown.last() != '0');
                }
                assert(without_trailing_zeros(shown) == shown);
            }
            push_padded(out, f, width);
            proof {
                assert(final(out)@ =~= old(out)@ + decimal_text(self@));
            }
        }
    }

    /// The number as it is written: "12" for twelve, "12.5" for twelve and a
    /// half.
    pub fn text(&self) -> (s: String)
        ensures
            s@ == decimal_text(self@),
    {
        let mut out: Vec<char> = Vec::new();
        self.push_to(&mut out);
        assert(out@ =~= decimal_text(self@));
        string_of(&out)
    }

    /// Whether this number is smaller than `other`.
    pub fn lt(&self, other: &ChapterNumber) -> (b: bool)
        ensures
            b == (self@.scaled() < other@.scaled()),
    {
        proof {
            use_type_invariant(self);
            use_type_invariant(other);
            lemma_scaled_order(self@, other@);
        }
        self.whole < other.whole || (self.whole == other.whole && self.frac < other.frac)
    }

    /// Whether this number and `other` are the same number.
    pub fn same(&self, other: &ChapterNumber) -> (b: bool)
        ensures
            b == (self@ == other@),
            b == (self@.scaled() == other@.scaled()),
            b == (*self == *other),
    {
        proof {
            use_type_invariant(self);
            use_type_invariant(other);
            lemma_scaled_order(self@, other@);
        }
        self.whole == other.whole && self.frac == other.frac
    }
}

/// Decimals that fit are ordered by their scaled values exactly as their
/// (whole, fraction) pairs are ordered lexicographically, and two of them have
/// the same scaled value only if they are the same decimal.
pub proof fn lemma_scaled_order(a: Decimal, b: Decimal)
    requires
        a.frac < FRACTION_UNITS,
        b.frac < FRACTION_UNITS,
    ensures
        a.scaled() < b.scaled() <==> (a.whole < b.whole || (a.whole == b.whole && a.frac
            < b.frac)),
        a.scaled() == b.scaled() <==> a == b,
{
    let u = FRACTION_UNITS as int;
    if a.whole < b.whole {
        assert((a.whole + 1) * u <= b.whole * u) by (nonlinear_arith)
            requires
                a.whole + 1 <= b.whole,
                u > 0,
        ;
        assert((a.whole + 1) * u == a.whole * u + u) by (nonlinear_arith);
    } else if b.whole < a.whole {
        assert((b.whole + 1) * u <= a.whole * u) by (nonlinear_arith)
            requires
                b.whole + 1 <= a.whole,
                u > 0,
        ;
        assert((b.whole + 1) * u == b.whole * u + u) by (nonlinear_arith);
    }
}

/// The first powers of ten, up to the one that `FRACTION_UNITS` holds.
pub proof fn lemma_pow10_values()
    ensures
        pow10(0) == 1,
        pow10(1) == 10,
        pow10(2) == 100,
        pow10(3) == 1_000,
        pow10(6) == 1_000_000,
        pow10(9) == 1_000_000_000,
        pow10(12) == 1_000_000_000_000,
        pow10(15) == 1_000_000_000_000_000,
        pow10(18) == FRACTION_UNITS,
{
    reveal_with_fuel(pow10, 4);
    assert(pow10(3) == 1_000);
    assert(pow10(6) == 1_000 * pow10(3));
    assert(pow10(9) == 1_000 * pow10(6));
    assert(pow10(12) == 1_000 * pow10(9));
    assert(pow10(15) == 1_000 * pow10(12));
    assert(pow10(18) == 1_000 * pow10(15));
}

/// Powers of ten grow with the exponent.
pub proof fn lemma_pow10_monotone(a: nat, b: nat)
    requires
        a <= b,
    ensures
        1 <= pow10(a) <= pow10(b),
    decreases b,
{
    if b == 0 {
    } else if a == b {
        lemma_pow10_monotone(0, (b - 1) as nat);
    } else {
        lemma_pow10_monotone(a, (b - 1) as nat);
    }
}

/// A run of `n` characters writes a number below `10^n`.
pub proof fn lemma_whole_value_bound(s: Seq<char>)
    ensures
        whole_value(s) < pow10(s.len()),
    decreases s.len(),
{
    if s.len() > 0 {
        lemma_whole_value_bound(s.drop_last());
    }
}

/// A longer prefix of a run writes a number that is at least as large.
pub proof fn lemma_whole_value_monotone(s: Seq<char>, j: int, k: int)
    requires
        0 <= j <= k <= s.len(),
    ensures
        whole_value(s.subrange(0, j)) <= whole_value(s.subrange(0, k)),
    decreases k - j,
{
    if j < k {
        lemma_whole_value_monotone(s, j, k - 1);
        assert(s.subrange(0, k).drop_last() =~= s.subrange(0, k - 1));
    }
}

/// A prefix of a run holds no more dots than the run.
pub proof fn lemma_count_dots_monotone(s: Seq<char>, j: int)
    requires
        0 <= j <= s.len(),
    ensures
        count_dots(s.subrange(0, j)) <= count_dots(s),
    decreases s.len() - j,
{
    if j < s.len() {
        lemma_count_dots_monotone(s, j + 1);
        assert(s.subrange(0, j + 1).drop_last() =~= s.subrange(0, j));
    } else {
        assert(s.subrange(0, j) =~= s);
    }
}

/// The first dot of a run stands where a dot stands with no dot before it, and
/// at the end of a run without dots.
pub proof fn lemma_first_dot(s: Seq<char>, p: int)
    requires
        0 <= p <= s.len(),
        forall|i: int| 0 <= i < p ==> s[i] != '.',
        p < s.len() ==> s[p] == '.',
    ensures
        first_dot(s) == p,
    decreases s.len(),
{
    if s.len() == 0 || s[0] == '.' {
    } else {
        let rest = s.drop_first();
        assert forall|i: int| 0 <= i < p - 1 implies rest[i] != '.' by {
            assert(rest[i] == s[i + 1]);
        }
        lemma_first_dot(rest, p - 1);
    }
}

/// The first dot of a run does not stand before a dotless prefix of it, nor
/// beyond its end.
pub proof fn lemma_first_dot_bounds(s: Seq<char>, j: int)
    requires
        0 <= j <= s.len(),
        forall|i: int| 0 <= i < j ==> s[i] != '.',
    ensures
        j <= first_dot(s) <= s.len(),
    decreases s.len(),
{
    if s.len() == 0 || s[0] == '.' {
    } else {
        let rest = s.drop_first();
        if j > 0 {
            assert forall|i: int| 0 <= i < j - 1 implies rest[i] != '.' by {
                assert(rest[i] == s[i + 1]);
            }
            lemma_first_dot_bounds(rest, j - 1);
        } else {
            lemma_first_dot_bounds(rest, 0);
        }
    }
}

/// The value of the digit `c`.
pub fn digit_of(c: char) -> (d: u64)
    requires
        is_digit(c),
    ensures
        d == digit_value(c),
        d <= 9,
{
    (c as u32 - '0' as u32) as u64
}

/// Reads the run `chars[from..to]` as a decimal.
///
/// Returns the number that the run writes when it holds only digits and dots,
/// at least one digit and at most one dot, and its whole part fits in 64 bits;
/// returns `None` for every other run.
pub fn parse_literal(chars: &Vec<char>, from: usize, to: usize) -> (n: Option<ChapterNumber>)
    requires
        from <= to <= chars@.len(),
    ensures
        match n {
            Some(n) => literal_number(chars@.subrange(from as int, to as int)) == Some(n@),
            None => literal_number(chars@.subrange(from as int, to as int)) is None,
        },
{
    let ghost s = chars@.subrange(from as int, to as int);
    let len: usize = to - from;
    let mut k: usize = 0;
    let mut seen_dot: bool = false;
    let mut seen_digit: bool = false;
    let mut whole: u64 = 0;
    let mut frac: u64 = 0;
    let mut frac_len: usize = 0;
    let ghost mut dot_at: int = 0;
    while k < len
        invariant
            s == chars@.subrange(from as int, to as int),
            from + len == to,
            to <= chars@.len(),
            k <= len,
            len == s.len(),
            forall|i: int| 0 <= i < k ==> is_run_char(#[trigger] s[i]),
            count_dots(s.subrange(0, k as int)) == if seen_dot { 1nat } else { 0nat },
            seen_digit == (count_digits(s.subrange(0, k as int)) >= 1),
            !seen_dot ==> whole == whole_value(s.subrange(0, k as int)) && (forall|i: int|
                0 <= i < k ==> s[i] != '.') && frac == 0 && frac_len == 0,
            seen_dot ==> 0 <= dot_at < k && s[dot_at] == '.' && (forall|i: int|
                0 <= i < dot_at ==> s[i] != '.') && whole == whole_value(s.subrange(0, dot_at)),
            seen_dot ==> frac_len <= FRACTION_PLACES && (k - dot_at - 1 <= FRACTION_PLACES
                ==> frac_len == k - dot_at - 1) && (k - dot_at - 1 > FRACTION_PLACES ==> frac_len
                == FRACTION_PLACES),
            seen_dot ==> frac == whole_value(s.subrange(dot_at + 1, dot_at + 1 + frac_len)),
        decreases len - k,
    {
        let c = chars[from + k];
        assert(c == s[k as int]);
        assert(s.subrange(0, k + 1).drop_last() =~= s.subrange(0, k as int));
        if c == '.' {
            if seen_dot {
                proof {
                    lemma_count_dots_monotone(s, k + 1);
                }
                return None;
            }
            seen_dot = true;
            proof {
                dot_at = k as int;
                assert(s.subrange(dot_at + 1, dot_at + 1) =~= Seq::<char>::empty());
            }
        } else if char_is_digit(c) {
            let d = digit_of(c);
            seen_digit = true;
            if !seen_dot {
                if whole > 1844674407370955161 || whole * 10 > u64::MAX - d {
                    proof {
                        assert(whole_value(s.subrange(0, k + 1)) > u64::MAX);
                        assert forall|i: int| 0 <= i < k + 1 implies s[i] != '.' by {}
                        lemma_first_dot_bounds(s, k + 1);
                        lemma_whole_value_monotone(s, k + 1, first_dot(s));
                    }
                    return None;
                }
                whole = whole * 10 + d;
            } else if frac_len < FRACTION_PLACES {
                proof {
                    let taken = s.subrange(dot_at + 1, dot_at + 1 + frac_len);
                    lemma_whole_value_bound(taken);
                    lemma_pow10_monotone(frac_len as nat, 17);
                    lemma_pow10_values();
                    assert(pow10(18) == 10 * pow10(17));
                    assert(s.subrange(dot_at + 1, dot_at + 2 + frac_len).drop_last() =~= taken);
                }
                frac = frac * 10 + d;
                frac_len += 1;
            }
        } else {
            assert(!is_run_char(s[k as int]));
            return None;
        }
        k += 1;
    }
    assert(s.subrange(0, len as int) =~= s);
    if !seen_digit {
        return None;
    }
    proof {
        if seen_dot {
            lemma_first_dot(s, dot_at);
        } else {
            lemma_first_dot(s, len as int);
        }
    }
    let ghost digits = after_dot(s);
    let ghost taken = if seen_dot {
        s.subrange(dot_at + 1, dot_at + 1 + frac_len)
    } else {
        Seq::<char>::empty()
    };
    proof {
        if seen_dot {
            if digits.len() <= FRACTION_PLACES {
                assert(taken =~= digits);
            } else {
                assert(taken =~= digits.subrange(0, FRACTION_PLACES as int));
            }
        } else {
            assert(taken =~= digits);
        }
        lemma_whole_value_bound(taken);
        assert(pow10(0) == 1);
        assert(whole_value(taken) * 1 == whole_value(taken));
        assert(is_literal(s));
    }
    let mut j: usize = frac_len;
    while j < FRACTION_PLACES
        invariant
            s == chars@.subrange(from as int, to as int),
            is_literal(s),
            whole == whole_value(s.subrange(0, first_dot(s))),
            digits == after_dot(s),
            digits.len() <= FRACTION_PLACES ==> taken == digits,
            digits.len() > FRACTION_PLACES ==> taken == digits.subrange(0, FRACTION_PLACES as int),
            frac_len <= j <= FRACTION_PLACES,
            frac == whole_value(taken) * pow10((j - frac_len) as nat),
            frac < pow10(j as nat),
            taken.len() == frac_len,
        decreases FRACTION_PLACES - j,
    {
        proof {
            lemma_pow10_monotone(j as nat + 1, 18);
            lemma_pow10_values();
            assert(pow10((j + 1 - frac_len) as nat) == 10 * pow10((j - frac_len) as nat));
            assert(whole_value(taken) * (10 * pow10((j - frac_len) as nat)) == 10 * (whole_value(
                taken,
            ) * pow10((j - frac_len) as nat))) by (nonlinear_arith);
        }
        frac = frac * 10;
        j += 1;
    }
    proof {
        lemma_pow10_values();
        assert(pow10(0) == 1);
        assert(whole_value(taken) * 1 == whole_value(taken));
    }
    Some(ChapterNumber { whole, frac })
}


/// The fractional part that a run writes stays below one whole.
pub proof fn lemma_fraction_value_bound(s: Seq<char>)
    ensures
        fraction_value(s, FRACTION_PLACES as nat) < FRACTION_UNITS,
{
    lemma_pow10_values();
    if s.len() <= FRACTION_PLACES {
        let k = s.len();
        let rest = (FRACTION_PLACES - k) as nat;
        lemma_whole_value_bound(s);
        lemma_pow10_sum(k, rest);
        assert(whole_value(s) * pow10(rest) < pow10(k) * pow10(rest)) by (nonlinear_arith)
            requires
                whole_value(s) < pow10(k),
                pow10(rest) > 0,
        ;
    } else {
        lemma_whole_value_bound(s.subrange(0, FRACTION_PLACES as int));
    }
}

/// Powers of ten multiply as their exponents add.
pub proof fn lemma_pow10_sum(a: nat, b: nat)
    ensures
        pow10(a) * pow10(b) == pow10(a + b),
        pow10(b) > 0,
    decreases a,
{
    lemma_pow10_monotone(0, b);
    if a > 0 {
        let x = pow10((a - 1) as nat);
        let y = pow10(b);
        lemma_pow10_sum((a - 1) as nat, b);
        assert(pow10(a) == 10 * x);
        assert(pow10(a + b) == 10 * pow10((a - 1 + b) as nat));
        assert((10 * x) * y == 10 * (x * y)) by (nonlinear_arith);
    } else {
        assert(pow10(0) == 1);
        assert(1 * pow10(b) == pow10(b));
    }
}

/// Every decimal that a run writes fits a chapter number.
pub proof fn lemma_literal_number_fits(s: Seq<char>)
    ensures
        literal_number(s) matches Some(n) ==> n.fits(),
{
    lemma_fraction_value_bound(after_dot(s));
}

} // verus!
