//! Decimal numbers, and reading one from the text of a literal.

use vstd::prelude::*;

verus! {

/// A decimal number: `mantissa` times ten to the power `exponent`, with a
/// sign. Nothing is rounded: the number is exactly what was written.
#[derive(Debug, Clone, Copy, PartialEq, Eq)]
pub struct Decimal {
    pub positive: bool,
    pub mantissa: u64,
    pub exponent: i16,
}

impl Decimal {
    /// The number with the other sign.
    pub open spec fn negated(self) -> Decimal {
        Decimal { positive: !self.positive, mantissa: self.mantissa, exponent: self.exponent }
    }

    /// Changes the sign.
    pub fn negate(self) -> (d: Decimal)
        ensures
            d == self.negated(),
    {
        Decimal { positive: !self.positive, mantissa: self.mantissa, exponent: self.exponent }
    }
}

/// True for the ten digits.
pub open spec fn is_digit(c: char) -> bool {
    48 <= c as u32 <= 57
}

/// The number that the digit `c` writes.
pub open spec fn digit_of(c: char) -> nat {
    (c as u32 - 48) as nat
}

/// True when `s` holds digits only.
pub open spec fn all_digits(s: Seq<char>) -> bool {
    forall|i: int| 0 <= i < s.len() ==> is_digit(#[trigger] s[i])
}

/// The number that the digits `s` write in base ten.
pub open spec fn digits_value(s: Seq<char>) -> nat
    decreases s.len(),
{
    if s.len() == 0 {
        0
    } else {
        digits_value(s.drop_last()) * 10 + digit_of(s.last())
    }
}

/// True when `text` is digits, a point at index `k`, and digits again.
pub open spec fn has_point_at(text: Seq<char>, k: int) -> bool {
    &&& 0 < k < text.len() - 1
    &&& text[k] == '.'
    &&& all_digits(text.take(k))
    &&& all_digits(text.skip(k + 1))
}

/// The positive number with the given digits and that many of them after
/// the point, if it can be held.
pub open spec fn decimal_of(digits: nat, places: nat) -> Option<Decimal> {
    if digits <= u64::MAX && places <= 32768 {
        Some(Decimal { positive: true, mantissa: digits as u64, exponent: (-(places as int)) as i16 })
    } else {
        None
    }
}

/// The number that the literal `text` writes: digits, or digits with one
/// point among them that neither starts nor ends the text. The value is
/// exact: the digits without the point, divided by ten for each digit
/// after it. There is none where the digits exceed 64 bits.
pub open spec fn literal_value(text: Seq<char>) -> Option<Decimal> {
    if text.len() > 0 && all_digits(text) {
        decimal_of(digits_value(text), 0)
    } else if exists|k: int| has_point_at(text, k) {
        let k = choose|k: int| has_point_at(text, k);
        decimal_of(digits_value(text.take(k) + text.skip(k + 1)), (text.len() - k - 1) as nat)
    } else {
        None
    }
}

/// Ten to the power `n`.
pub open spec fn pow10(n: nat) -> nat
    decreases n,
{
    if n == 0 {
        1
    } else {
        10 * pow10((n - 1) as nat)
    }
}

/// Digits written one after the other: those in front count for ten to
/// the number of digits behind them.
pub proof fn lemma_digits_joined(front: Seq<char>, back: Seq<char>)
    ensures
        digits_value(front + back) == digits_value(front) * pow10(back.len()) + digits_value(back),
    decreases back.len(),
{
    let whole = front + back;
    let a = digits_value(front);
    if back.len() == 0 {
        assert(whole =~= front);
        assert(a * 1 == a);
    } else {
        let shorter = back.drop_last();
        assert(whole.drop_last() =~= front + shorter);
        assert(whole.last() == back.last());
        lemma_digits_joined(front, shorter);
        let p = pow10(shorter.len());
        let b = digits_value(shorter);
        let d = digit_of(back.last());
        assert(digits_value(whole) == digits_value(front + shorter) * 10 + d);
        assert(digits_value(front + shorter) == a * p + b);
        assert(digits_value(back) == b * 10 + d);
        assert(pow10(back.len()) == 10 * p);
        assert((a * p + b) * 10 + d == a * (10 * p) + (b * 10 + d)) by (nonlinear_arith);
    }
}

/// A literal is worth exactly what it writes. With `places` digits after
/// the point, the number read is the digits before the point, times ten to
/// the `places`, plus the digits after it, all of it divided by ten to the
/// `places`: nothing is rounded away.
pub proof fn law_literal_is_exact(text: Seq<char>, k: int)
    requires
        has_point_at(text, k),
        literal_value(text) is Some,
    ensures
        ({
            let number = literal_value(text)->Some_0;
            let places = (text.len() - k - 1) as nat;
            &&& number.positive
            &&& number.exponent == -places
            &&& number.mantissa == digits_value(text.take(k)) * pow10(places) + digits_value(
                text.skip(k + 1),
            )
        }),
{
    lemma_one_point(text, k);
    lemma_digits_joined(text.take(k), text.skip(k + 1));
}

/// A literal without a point is worth the number its digits write.
pub proof fn law_whole_literal_is_exact(text: Seq<char>)
    requires
        text.len() > 0,
        all_digits(text),
        digits_value(text) <= u64::MAX,
    ensures
        literal_value(text) == Some(
            Decimal { positive: true, mantissa: digits_value(text) as u64, exponent: 0 },
        ),
{
}

/// The digits among the first `i` characters of `text`, given where the
/// point stands, if one was met.
pub open spec fn digits_before(text: Seq<char>, point: Option<usize>, i: int) -> Seq<char> {
    match point {
        Some(k) => text.take(k as int) + text.subrange(k + 1, i),
        None => text.take(i),
    }
}

/// A text with a character that is neither a digit nor its only point
/// writes no number.
proof fn lemma_stray(text: Seq<char>, j: int)
    requires
        0 <= j < text.len(),
        !is_digit(text[j]),
        text[j] != '.' || j == 0 || j == text.len() - 1 || exists|other: int|
            0 <= other < text.len() && other != j && text[other] == '.',
    ensures
        literal_value(text) is None,
{
    assert forall|k: int| !has_point_at(text, k) by {
        if has_point_at(text, k) {
            let stray = if k != j {
                j
            } else {
                choose|other: int| 0 <= other < text.len() && other != j && text[other] == '.'
            };
            if stray < k {
                assert(text.take(k)[stray] == text[stray]);
            } else {
                assert(text.skip(k + 1)[stray - k - 1] == text[stray]);
            }
        }
    }
}

/// A literal has one point at most.
proof fn lemma_one_point(text: Seq<char>, k: int)
    requires
        has_point_at(text, k),
    ensures
        (choose|c: int| has_point_at(text, c)) == k,
        !all_digits(text),
{
    let c = choose|c: int| has_point_at(text, c);
    if c < k {
        assert(text.skip(c + 1)[k - c - 1] == text[k]);
    } else if c > k {
        assert(text.take(c)[k] == text[k]);
    }
}

/// Reads the number that a literal writes.
pub fn read_number(text: &str) -> (number: Option<Decimal>)
    ensures
        number == literal_value(text@),
{
    let n: usize = text.unicode_len();
    if n == 0 {
        return None;
    }
    let mut point: Option<usize> = None;
    let mut mantissa: u64 = 0;
    let mut exceeded = false;
    let mut i: usize = 0;
    while i < n
        invariant
            n == text@.len(),
            0 < n,
            i <= n,
            point matches Some(k) ==> 0 < k < i && k < n - 1 && text@[k as int] == '.',
            forall|j: int| 0 <= j < i && point != Some(j as usize) ==> is_digit(#[trigger] text@[j]),
            !exceeded ==> mantissa == digits_value(digits_before(text@, point, i as int)),
            exceeded ==> digits_value(digits_before(text@, point, i as int)) > u64::MAX,
        decreases n - i,
    {
        let c = text.get_char(i);
        let ghost before = digits_before(text@, point, i as int);
        if c == '.' {
            if point.is_some() || i == 0 || i == n - 1 {
                proof {
                    lemma_stray(text@, i as int);
                }
                return None;
            }
            point = Some(i);
            proof {
                assert(digits_before(text@, point, i + 1) =~= before);
            }
        } else {
            let code: u32 = c as u32;
            if code < 48 || code > 57 {
                proof {
                    lemma_stray(text@, i as int);
                }
                return None;
            }
            let digit: u64 = (code - 48) as u64;
            proof {
                let now = digits_before(text@, point, i + 1);
                assert(now =~= before.push(c));
                assert(now.drop_last() =~= before);
            }
            if !exceeded {
                if mantissa > (u64::MAX - digit) / 10 {
                    exceeded = true;
                } else {
                    mantissa = mantissa * 10 + digit;
                }
            }
        }
        i += 1;
    }
    let places: usize = match point {
        Some(k) => n - k - 1,
        None => 0,
    };
    proof {
        match point {
            Some(k) => {
                assert(text@.subrange(k + 1, n as int) =~= text@.skip(k + 1));
                assert forall|j: int| 0 <= j < text@.take(k as int).len() implies is_digit(
                    #[trigger] text@.take(k as int)[j],
                ) by {
                    assert(text@.take(k as int)[j] == text@[j]);
                }
                assert forall|j: int| 0 <= j < text@.skip(k + 1).len() implies is_digit(
                    #[trigger] text@.skip(k + 1)[j],
                ) by {
                    assert(text@.skip(k + 1)[j] == text@[j + k + 1]);
                }
                assert(has_point_at(text@, k as int));
                lemma_one_point(text@, k as int);
            },
            None => {
                assert(text@.take(n as int) =~= text@);
                assert(all_digits(text@));
            },
        }
    }
    if exceeded || places > 32768 {
        return None;
    }
    let exponent: i16 = if places == 32768 {
        i16::MIN
    } else {
        -(places as i16)
    };
    Some(Decimal { positive: true, mantissa, exponent })
}

} // verus!
