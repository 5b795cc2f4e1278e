//! Decimal rendering and parsing of node numbers.
//!
//! Node identifiers cross the analytics result boundary as decimal strings
//! and are parsed back to integers; a string that does not parse falls back
//! to 0 rather than failing, which keeps a malformed key from aborting a
//! whole result set.

use vstd::prelude::*;
use vstd::string::StrSliceExecFns;
use vstd::string::StringExecFns;

verus! {

/// The decimal digit character for a value below ten.
pub open spec fn digit_char(d: int) -> char {
    if d == 0 {
        '0'
    } else if d == 1 {
        '1'
    } else if d == 2 {
        '2'
    } else if d == 3 {
        '3'
    } else if d == 4 {
        '4'
    } else if d == 5 {
        '5'
    } else if d == 6 {
        '6'
    } else if d == 7 {
        '7'
    } else if d == 8 {
        '8'
    } else {
        '9'
    }
}

/// The value of a decimal digit character, or 10 for any other character.
pub open spec fn char_digit_value(c: char) -> int {
    if c == '0' {
        0
    } else if c == '1' {
        1
    } else if c == '2' {
        2
    } else if c == '3' {
        3
    } else if c == '4' {
        4
    } else if c == '5' {
        5
    } else if c == '6' {
        6
    } else if c == '7' {
        7
    } else if c == '8' {
        8
    } else if c == '9' {
        9
    } else {
        10
    }
}

/// The canonical decimal rendering of a natural number, most significant
/// digit first.
pub open spec fn decimal_digits(n: nat) -> Seq<char>
    decreases n,
{
    if n < 10 {
        seq![digit_char(n as int)]
    } else {
        decimal_digits(n / 10).push(digit_char((n % 10) as int))
    }
}

/// Every character is a decimal digit.
pub open spec fn all_digits(s: Seq<char>) -> bool {
    forall|i: int| 0 <= i < s.len() ==> char_digit_value(s[i]) < 10
}

/// The number a digit string denotes, most significant digit first.
/// Characters other than digits contribute their fallback value; callers
/// only rely on this function where `all_digits` holds.
pub open spec fn digits_value(s: Seq<char>) -> int
    decreases s.len(),
{
    if s.len() == 0 {
        0
    } else {
        digits_value(s.drop_last()) * 10 + char_digit_value(s.last())
    }
}

/// What parsing a node-number string yields: the denoted value when the
/// string is a nonempty digit string whose value fits in `u32`, and the
/// fallback 0 otherwise.
pub open spec fn spec_parse_u32_or_zero(s: Seq<char>) -> u32 {
    if s.len() > 0 && all_digits(s) && digits_value(s) <= u32::MAX {
        digits_value(s) as u32
    } else {
        0
    }
}

/// `digit_char` and `char_digit_value` are inverse on digit values.
pub proof fn lemma_digit_char_value(d: int)
    requires
        0 <= d < 10,
    ensures
        char_digit_value(digit_char(d)) == d,
{
}

/// A digit string never denotes a negative number.
pub proof fn lemma_digits_value_nonneg(s: Seq<char>)
    ensures
        digits_value(s) >= 0,
    decreases s.len(),
{
    if s.len() > 0 {
        lemma_digits_value_nonneg(s.drop_last());
    }
}

/// Extending a digit string on the right multiplies its value by ten and
/// adds the new digit.
pub proof fn lemma_digits_value_snoc(s: Seq<char>, c: char)
    ensures
        digits_value(s.push(c)) == digits_value(s) * 10 + char_digit_value(c),
{
    assert(s.push(c).drop_last() =~= s);
    assert(s.push(c).last() == c);
}

/// The value a prefix denotes never exceeds the value of the whole string.
pub proof fn lemma_digits_value_prefix_le(s: Seq<char>, j: int, k: int)
    requires
        0 <= j <= k <= s.len(),
    ensures
        digits_value(s.subrange(0, j)) <= digits_value(s.subrange(0, k)),
    decreases k - j,
{
    if j < k {
        lemma_digits_value_prefix_le(s, j, k - 1);
        let p = s.subrange(0, k - 1);
        assert(s.subrange(0, k) =~= p.push(s[k - 1]));
        lemma_digits_value_snoc(p, s[k - 1]);
        lemma_digits_value_nonneg(p);
    }
}

/// The canonical rendering consists of digits only and is never empty.
pub proof fn lemma_decimal_digits_wf(n: nat)
    ensures
        decimal_digits(n).len() >= 1,
        all_digits(decimal_digits(n)),
    decreases n,
{
    if n < 10 {
        lemma_digit_char_value(n as int);
    } else {
        lemma_decimal_digits_wf(n / 10);
        lemma_digit_char_value((n % 10) as int);
        assert forall|i: int| 0 <= i < decimal_digits(n).len()
            implies char_digit_value(decimal_digits(n)[i]) < 10 by {
            if i < decimal_digits(n / 10).len() {
                assert(decimal_digits(n)[i] == decimal_digits(n / 10)[i]);
            }
        }
    }
}

/// The canonical rendering denotes the number it was rendered from.
pub proof fn lemma_decimal_digits_value(n: nat)
    ensures
        digits_value(decimal_digits(n)) == n,
    decreases n,
{
    if n < 10 {
        lemma_digit_char_value(n as int);
        assert(decimal_digits(n).drop_last() =~= Seq::<char>::empty());
        assert(digits_value(Seq::<char>::empty()) == 0);
        assert(decimal_digits(n).last() == digit_char(n as int));
        assert(digits_value(decimal_digits(n)) == 0 * 10 + char_digit_value(digit_char(n as int)));
    } else {
        lemma_decimal_digits_value(n / 10);
        lemma_digit_char_value((n % 10) as int);
        lemma_digits_value_snoc(decimal_digits(n / 10), digit_char((n % 10) as int));
        vstd::arithmetic::div_mod::lemma_fundamental_div_mod(n as int, 10);
        assert((n / 10) * 10 + (n % 10) == n);
    }
}

/// Rendering a number and parsing the result gives the number back.
pub proof fn lemma_parse_render_round_trip(n: u32)
    ensures
        spec_parse_u32_or_zero(decimal_digits(n as nat)) == n,
{
    lemma_decimal_digits_wf(n as nat);
    lemma_decimal_digits_value(n as nat);
}

/// The decimal digit character for a value below ten.
fn digit_str(d: u32) -> (r: &'static str)
    requires
        d < 10,
    ensures
        r@ == seq![digit_char(d as int)],
{
    let r: &'static str = match d {
        0u32 => "0",
        1u32 => "1",
        2u32 => "2",
        3u32 => "3",
        4u32 => "4",
        5u32 => "5",
        6u32 => "6",
        7u32 => "7",
        8u32 => "8",
        _ => "9",
    };
    proof {
        reveal_strlit("0");
        reveal_strlit("1");
        reveal_strlit("2");
        reveal_strlit("3");
        reveal_strlit("4");
        reveal_strlit("5");
        reveal_strlit("6");
        reveal_strlit("7");
        reveal_strlit("8");
        reveal_strlit("9");
        assert(r@ =~= seq![digit_char(d as int)]);
    }
    r
}

/// Render a node number as its canonical decimal string.
pub fn u32_to_string(n: u32) -> (s: String)
    ensures
        s@ == decimal_digits(n as nat),
    decreases n,
{
    if n < 10 {
        digit_str(n).to_owned()
    } else {
        let mut s = u32_to_string(n / 10);
        s.append(digit_str(n % 10));
        proof {
            assert(s@ =~= decimal_digits(n as nat));
        }
        s
    }
}

/// Render a time-step counter as its canonical decimal string.
pub fn u64_to_string(n: u64) -> (s: String)
    ensures
        s@ == decimal_digits(n as nat),
    decreases n,
{
    if n < 10 {
        digit_str(n as u32).to_owned()
    } else {
        let mut s = u64_to_string(n / 10);
        s.append(digit_str((n % 10) as u32));
        proof {
            assert(s@ =~= decimal_digits(n as nat));
        }
        s
    }
}

/// The value of a decimal digit character, or 10 for any other character.
fn char_to_digit(c: char) -> (r: u32)
    ensures
        r as int == char_digit_value(c),
{
    match c {
        '0' => 0,
        '1' => 1,
        '2' => 2,
        '3' => 3,
        '4' => 4,
        '5' => 5,
        '6' => 6,
        '7' => 7,
        '8' => 8,
        '9' => 9,
        _ => 10,
    }
}

/// Parse a node number from its decimal rendering, falling back to 0 for
/// anything that is not a nonempty digit string with a value that fits.
pub fn parse_u32_or_zero(s: &str) -> (r: u32)
    ensures
        r == spec_parse_u32_or_zero(s@),
{
    let len = s.unicode_len();
    if len == 0 {
        return 0;
    }
    let mut acc: u32 = 0;
    let mut i: usize = 0;
    while i < len
        invariant
            0 < len == s@.len(),
            i <= len,
            all_digits(s@.subrange(0, i as int)),
            acc as int == digits_value(s@.subrange(0, i as int)),
        decreases len - i,
    {
        let c = s.get_char(i);
        let d = char_to_digit(c);
        let ghost prefix = s@.subrange(0, i as int);
        proof {
            assert(s@.subrange(0, i + 1) =~= prefix.push(s@[i as int]));
            lemma_digits_value_snoc(prefix, s@[i as int]);
        }
        if d >= 10 {
            // A non-digit character: the whole string is unparsable.
            return 0;
        }
        let next = match acc.checked_mul(10) {
            Some(m) => m.checked_add(d),
            None => None,
        };
        match next {
            Some(v) => {
                acc = v;
            },
            None => {
                // The denoted value already exceeds u32::MAX here, so the
                // value of the whole string does too.
                proof {
                    lemma_digits_value_prefix_le(s@, i + 1, len as int);
                    assert(s@.subrange(0, len as int) =~= s@);
                }
                return 0;
            },
        }
        i = i + 1;
    }
    proof {
        assert(s@.subrange(0, len as int) =~= s@);
    }
    acc
}

} // verus!
