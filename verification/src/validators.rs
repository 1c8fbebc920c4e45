//! Validation of candidate identifier strings.
//!
//! Both validators share one convention: every ASCII decimal digit of the
//! input is kept, in order, and every other character (spaces, hyphens,
//! letters, anything non-ASCII) is silently ignored. The verdict is then a
//! function of the extracted digit sequence alone.

use vstd::prelude::*;

verus! {

/// An ASCII decimal digit, `'0'` through `'9'`.
pub open spec fn is_digit_char(c: char) -> bool {
    48 <= c as u32 <= 57
}

/// The numeric value of an ASCII decimal digit character.
pub open spec fn digit_value(c: char) -> u32 {
    (c as u32 - 48) as u32
}

/// The ordered sequence of digit values extracted from `s`: ASCII decimal
/// digits are kept and converted, every other character is dropped.
pub open spec fn digits_of(s: Seq<char>) -> Seq<u32>
    decreases s.len(),
{
    if s.len() == 0 {
        Seq::empty()
    } else if is_digit_char(s.last()) {
        digits_of(s.drop_last()).push(digit_value(s.last()))
    } else {
        digits_of(s.drop_last())
    }
}

/// Every extracted digit value is at most 9.
pub proof fn lemma_digits_of_bounded(s: Seq<char>)
    ensures
        forall|j: int| 0 <= j < digits_of(s).len() ==> digits_of(s)[j] <= 9,
    decreases s.len(),
{
    if s.len() > 0 {
        lemma_digits_of_bounded(s.drop_last());
        assert forall|j: int| 0 <= j < digits_of(s).len() implies digits_of(s)[j] <= 9 by {
            if is_digit_char(s.last()) && j == digits_of(s).len() - 1 {
                assert(digits_of(s)[j] == digit_value(s.last()));
            } else {
                assert(digits_of(s)[j] == digits_of(s.drop_last())[j]);
            }
        }
    }
}

fn extract_digits(s: &str) -> (digits: Vec<u32>)
    ensures
        digits@ == digits_of(s@),
{
    let n: usize = s.unicode_len();
    let mut digits: Vec<u32> = Vec::new();
    let mut i: usize = 0;
    while i < n
        invariant
            n == s@.len(),
            i <= n,
            digits@ == digits_of(s@.take(i as int)),
        decreases n - i,
    {
        let c: char = s.get_char(i);
        let u: u32 = c as u32;
        if 48 <= u && u <= 57 {
            digits.push(u - 48);
        }
        proof {
            assert(s@.take(i + 1) =~= s@.take(i as int).push(s@[i as int]));
            assert(s@.take(i + 1).drop_last() =~= s@.take(i as int));
        }
        i = i + 1;
    }
    proof {
        assert(s@.take(n as int) =~= s@);
    }
    digits
}

/// The Luhn contribution of one digit: digits at odd positions (counting from
/// the right, 0-indexed) are doubled, with 9 subtracted when the double
/// exceeds 9; digits at even positions count as themselves.
pub open spec fn luhn_digit(d: u32, pos_from_right: int) -> int {
    if pos_from_right % 2 == 1 {
        if 2 * d > 9 {
            2 * d - 9
        } else {
            2 * d
        }
    } else {
        d as int
    }
}

/// The Luhn checksum of a digit sequence: the sum of each digit's
/// contribution, where the last digit sits at position 0 from the right.
pub open spec fn luhn_sum(digits: Seq<u32>) -> int
    decreases digits.len(),
{
    if digits.len() == 0 {
        0
    } else {
        luhn_digit(digits.first(), digits.len() - 1) + luhn_sum(digits.drop_first())
    }
}

/// A string passes the Luhn validator exactly when its digit content has a
/// plausible payment-card length (13 to 19 digits) and a checksum divisible
/// by 10.
pub open spec fn luhn_valid(s: Seq<char>) -> bool {
    let d = digits_of(s);
    &&& 13 <= d.len() <= 19
    &&& luhn_sum(d) % 10 == 0
}

/// Validate a payment-card candidate with the Luhn algorithm.
///
/// Non-digit characters are ignored, so dash- or space-formatted numbers
/// validate identically to unformatted ones. Total over all inputs: any
/// string whose digit content fails the length gate or the checksum simply
/// yields `false`. The result depends on the input string alone, so repeated
/// calls on the same input agree.
pub fn luhn(number: &str) -> (r: bool)
    ensures
        r == luhn_valid(number@),
{
    let digits: Vec<u32> = extract_digits(number);
    proof {
        lemma_digits_of_bounded(number@);
    }
    let n: usize = digits.len();
    if n < 13 || n > 19 {
        return false;
    }
    let mut sum: u32 = 0;
    let mut i: usize = 0;
    while i < n
        invariant
            n == digits@.len(),
            13 <= n <= 19,
            i <= n,
            forall|j: int| 0 <= j < n ==> digits@[j] <= 9,
            sum <= 9 * i,
            sum == luhn_sum(digits@.skip(n - i)),
        decreases n - i,
    {
        let idx: usize = n - 1 - i;
        let d: u32 = digits[idx];
        let term: u32 = if i % 2 == 1 {
            let doubled: u32 = d * 2;
            if doubled > 9 {
                doubled - 9
            } else {
                doubled
            }
        } else {
            d
        };
        proof {
            let t = digits@.skip(n - i - 1);
            assert(t.first() == digits@[idx as int]);
            assert(t.drop_first() =~= digits@.skip(n - i));
            assert(term == luhn_digit(digits@[idx as int], i as int));
        }
        sum = sum + term;
        i = i + 1;
    }
    proof {
        assert(digits@.skip(0) =~= digits@);
    }
    sum % 10 == 0
}

/// The 3-digit area field of a 9-digit sequence.
pub open spec fn area_of(d: Seq<u32>) -> int {
    d[0] * 100 + d[1] * 10 + d[2]
}

/// The 2-digit group field of a 9-digit sequence.
pub open spec fn group_of(d: Seq<u32>) -> int {
    d[3] * 10 + d[4]
}

/// The 4-digit serial field of a 9-digit sequence.
pub open spec fn serial_of(d: Seq<u32>) -> int {
    d[5] * 1000 + d[6] * 100 + d[7] * 10 + d[8]
}

/// A string passes the national-ID format validator exactly when its digit
/// content is 9 digits long, the area field is neither 0 nor 666 nor 900 or
/// above, and the group and serial fields are both nonzero.
pub open spec fn ssn_format_valid(s: Seq<char>) -> bool {
    let d = digits_of(s);
    &&& d.len() == 9
    &&& area_of(d) != 0
    &&& area_of(d) != 666
    &&& area_of(d) < 900
    &&& group_of(d) > 0
    &&& serial_of(d) > 0
}

/// Validate the structure of a 9-digit national-identifier candidate.
///
/// This checks format only, not whether the number was ever issued.
/// Non-digit characters are ignored, so `"123-45-6789"` validates exactly as
/// `"123456789"` does. Total over all inputs: any string whose digit content
/// is not exactly 9 digits, or whose fields break the reserved-value rules,
/// yields `false`. The result depends on the input string alone, so repeated
/// calls on the same input agree.
pub fn ssn_format(ssn: &str) -> (r: bool)
    ensures
        r == ssn_format_valid(ssn@),
{
    let digits: Vec<u32> = extract_digits(ssn);
    proof {
        lemma_digits_of_bounded(ssn@);
    }
    if digits.len() != 9 {
        return false;
    }
    let area: u32 = digits[0] * 100 + digits[1] * 10 + digits[2];
    let group: u32 = digits[3] * 10 + digits[4];
    let serial: u32 = digits[5] * 1000 + digits[6] * 100 + digits[7] * 10 + digits[8];
    if area == 0 || area == 666 || area >= 900 {
        return false;
    }
    group > 0 && serial > 0
}

/// Punctuation invariance, first half: inserting a non-digit separator
/// character anywhere in a string leaves its extracted digit sequence
/// unchanged. Any interleaving of separators into a digit sequence is a
/// series of such insertions.
pub proof fn lemma_digits_of_insert_separator(s: Seq<char>, k: int, c: char)
    requires
        0 <= k <= s.len(),
        !is_digit_char(c),
    ensures
        digits_of(s.insert(k, c)) == digits_of(s),
    decreases s.len(),
{
    let t = s.insert(k, c);
    if k == s.len() {
        assert(t.last() == c);
        assert(t.drop_last() =~= s);
    } else {
        assert(t.last() == s.last());
        assert(t.drop_last() =~= s.drop_last().insert(k, c));
        lemma_digits_of_insert_separator(s.drop_last(), k, c);
    }
}

/// Punctuation invariance, second half: two strings with the same extracted
/// digit sequence receive the same verdict from both validators. In
/// particular, a digit sequence with separators interleaved validates exactly
/// as the bare digit sequence does.
pub proof fn lemma_same_digits_same_verdict(s: Seq<char>, t: Seq<char>)
    requires
        digits_of(s) == digits_of(t),
    ensures
        luhn_valid(s) == luhn_valid(t),
        ssn_format_valid(s) == ssn_format_valid(t),
{
}

/// Luhn length boundary: digit contents shorter than 13 or longer than 19
/// digits fail regardless of checksum, while lengths 13 through 19 are
/// decided by the checksum alone.
pub proof fn lemma_luhn_length_gate(s: Seq<char>)
    ensures
        digits_of(s).len() < 13 ==> !luhn_valid(s),
        digits_of(s).len() > 19 ==> !luhn_valid(s),
        13 <= digits_of(s).len() <= 19 ==> (luhn_valid(s) <==> luhn_sum(digits_of(s)) % 10
            == 0),
{
}

/// Area partition exhaustiveness: a string with exactly 9 extracted digits
/// passes the national-ID format validator exactly when its area lies in
/// 1 to 665 or 667 to 899 and its group and serial fields are nonzero.
pub proof fn lemma_ssn_area_partition(s: Seq<char>)
    requires
        digits_of(s).len() == 9,
    ensures
        ssn_format_valid(s) <==> (1 <= area_of(digits_of(s)) <= 899 && area_of(digits_of(s))
            != 666 && group_of(digits_of(s)) > 0 && serial_of(digits_of(s)) > 0),
{
}

} // verus!
