//! Small text routines that the rest of the crate builds on: decimal numerals,
//! boolean literals and ASCII case-insensitive comparison.

use vstd::prelude::*;
use vstd::string::*;

verus! {

/// The numeral of a single decimal digit.
pub open spec fn digit_text(d: int) -> Seq<char> {
    if d == 0 {
        "0"@
    } else if d == 1 {
        "1"@
    } else if d == 2 {
        "2"@
    } else if d == 3 {
        "3"@
    } else if d == 4 {
        "4"@
    } else if d == 5 {
        "5"@
    } else if d == 6 {
        "6"@
    } else if d == 7 {
        "7"@
    } else if d == 8 {
        "8"@
    } else {
        "9"@
    }
}

/// The decimal numeral of a natural number, without leading zeros.
pub open spec fn nat_text(n: nat) -> Seq<char>
    decreases n,
{
    if n < 10 {
        digit_text(n as int)
    } else {
        nat_text(n / 10) + digit_text((n % 10) as int)
    }
}

/// The decimal numeral of an integer: a minus sign before the numeral of the
/// magnitude when the integer is negative.
pub open spec fn int_text(n: int) -> Seq<char> {
    if n < 0 {
        "-"@ + nat_text((-n) as nat)
    } else {
        nat_text(n as nat)
    }
}

/// The literal that stands for a boolean in a request parameter.
pub open spec fn bool_text(b: bool) -> Seq<char> {
    if b {
        "true"@
    } else {
        "false"@
    }
}

fn digit_str(d: u64) -> (s: &'static str)
    requires
        d < 10,
    ensures
        s@ == digit_text(d as int),
{
    if d == 0 {
        "0"
    } else if d == 1 {
        "1"
    } else if d == 2 {
        "2"
    } else if d == 3 {
        "3"
    } else if d == 4 {
        "4"
    } else if d == 5 {
        "5"
    } else if d == 6 {
        "6"
    } else if d == 7 {
        "7"
    } else if d == 8 {
        "8"
    } else {
        "9"
    }
}

/// Appends the decimal numeral of `n` to `out`.
pub fn push_nat(out: &mut String, n: u64)
    ensures
        final(out)@ == old(out)@ + nat_text(n as nat),
    decreases n,
{
    if n >= 10 {
        push_nat(out, n / 10);
    }
    out.append(digit_str(n % 10));
    assert(final(out)@ == old(out)@ + nat_text(n as nat)) by {
        if n >= 10 {
            assert((old(out)@ + nat_text((n / 10) as nat)) + digit_text((n % 10) as int)
                =~= old(out)@ + (nat_text((n / 10) as nat) + digit_text((n % 10) as int)));
        }
    }
}

/// The decimal numeral of an unsigned number.
pub fn nat_to_string(n: u64) -> (s: String)
    ensures
        s@ == nat_text(n as nat),
{
    let mut s = String::new();
    push_nat(&mut s, n);
    assert(Seq::<char>::empty() + nat_text(n as nat) =~= nat_text(n as nat));
    s
}

/// The decimal numeral of a signed 32-bit number.
pub fn i32_to_string(n: i32) -> (s: String)
    ensures
        s@ == int_text(n as int),
{
    let mut s = String::new();
    if n < 0 {
        s.append("-");
        let magnitude: u64 = (-(n as i64)) as u64;
        push_nat(&mut s, magnitude);
        assert(Seq::<char>::empty() + "-"@ =~= "-"@);
    } else {
        push_nat(&mut s, n as u64);
        assert(Seq::<char>::empty() + nat_text(n as nat) =~= nat_text(n as nat));
    }
    s
}

/// The literal `true` or `false`.
pub fn bool_to_string(b: bool) -> (s: String)
    ensures
        s@ == bool_text(b),
{
    if b {
        String::from_str("true")
    } else {
        String::from_str("false")
    }
}

/// An optional text as a sequence of characters.
pub open spec fn opt_text(text: Option<String>) -> Option<Seq<char>> {
    match text {
        Some(text) => Some(text@),
        None => None,
    }
}

/// A text, or the empty text where there is none.
pub open spec fn or_empty(text: Option<Seq<char>>) -> Seq<char> {
    match text {
        Some(text) => text,
        None => Seq::empty(),
    }
}

/// The lower-case form of an ASCII upper-case letter; any other character
/// unchanged.
pub open spec fn ascii_lower(c: char) -> char {
    if 'A' <= c <= 'Z' {
        ((c as u8) + 32) as char
    } else {
        c
    }
}

/// Whether two texts are equal once their ASCII letters are put in lower case.
pub open spec fn eq_ignore_ascii_case_text(a: Seq<char>, b: Seq<char>) -> bool {
    &&& a.len() == b.len()
    &&& forall|i: int| 0 <= i < a.len() ==> ascii_lower(#[trigger] a[i]) == ascii_lower(b[i])
}

/// Puts an ASCII upper-case letter in lower case.
pub fn to_ascii_lower(c: char) -> (r: char)
    ensures
        r == ascii_lower(c),
{
    if 'A' <= c && c <= 'Z' {
        ((c as u8) + 32) as char
    } else {
        c
    }
}

/// Whether `a` and `b` are equal but for the case of their ASCII letters.
pub fn eq_ignore_ascii_case(a: &str, b: &str) -> (r: bool)
    ensures
        r == eq_ignore_ascii_case_text(a@, b@),
{
    let n = a.unicode_len();
    if n != b.unicode_len() {
        return false;
    }
    let mut i: usize = 0;
    while i < n
        invariant
            i <= n,
            n == a@.len(),
            n == b@.len(),
            forall|k: int| 0 <= k < i ==> ascii_lower(#[trigger] a@[k]) == ascii_lower(b@[k]),
        decreases n - i,
    {
        if to_ascii_lower(a.get_char(i)) != to_ascii_lower(b.get_char(i)) {
            return false;
        }
        i += 1;
    }
    true
}

} // verus!
