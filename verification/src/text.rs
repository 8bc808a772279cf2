//! Building owned text in verified code: appending single characters,
//! converting ASCII byte buffers to strings, and rendering integers in
//! decimal.

use vstd::prelude::*;

use crate::grammar::{all_digits, digit_val, digits_val, is_digit};

verus! {

/// Relies on `String::push`: appends exactly the one character to the end of
/// the string.
#[verifier::external_body]
pub fn push_char(s: &mut String, c: char) -> (r: ())
    ensures
        final(s)@ == old(s)@.push(c),
{
    s.push(c)
}

/// The characters an ASCII byte buffer spells, one character per byte.
pub open spec fn ascii_chars_of(bs: Seq<u8>) -> Seq<char> {
    bs.map_values(|b: u8| b as char)
}

/// Build the string an ASCII byte buffer spells.
pub fn ascii_string_of(v: &Vec<u8>) -> (s: String)
    requires
        forall|i: int| 0 <= i < v@.len() ==> #[trigger] v@[i] < 0x80,
    ensures
        s@ == ascii_chars_of(v@),
{
    let mut s = String::new();
    let n = v.len();
    let mut i: usize = 0;
    while i < n
        invariant
            0 <= i <= n,
            n == v@.len(),
            forall|j: int| 0 <= j < v@.len() ==> #[trigger] v@[j] < 0x80,
            s@ == ascii_chars_of(v@.take(i as int)),
        decreases n - i,
    {
        let b = v[i];
        push_char(&mut s, b as char);
        proof {
            assert(v@.take(i as int + 1).drop_last() =~= v@.take(i as int));
            assert(s@ =~= ascii_chars_of(v@.take(i as int + 1)));
        }
        i = i + 1;
    }
    proof {
        assert(v@.take(n as int) =~= v@);
    }
    s
}

/// The character that renders one decimal digit.
pub open spec fn digit_char(d: int) -> char {
    if d == 0 {
        '0'
    } else if d == 1 {
        '1'
    } else if d == 2 {
        '2'
    } else if d == 3 {
        '3'
    } else if d == 4 {
        '4'
    } else if d == 5 {
        '5'
    } else if d == 6 {
        '6'
    } else if d == 7 {
        '7'
    } else if d == 8 {
        '8'
    } else {
        '9'
    }
}

/// The decimal rendering of a non-negative integer, most significant digit
/// first, without leading zeros (except for zero itself).
pub open spec fn decimal_of(n: int) -> Seq<char>
    recommends
        n >= 0,
    decreases n,
{
    if n < 10 {
        seq![digit_char(n)]
    } else {
        decimal_of(n / 10).push(digit_char(n % 10))
    }
}

/// The decimal rendering of a signed integer: a minus sign before the
/// rendering of the magnitude.
pub open spec fn signed_decimal_of(n: int) -> Seq<char> {
    if n < 0 {
        seq!['-'] + decimal_of(-n)
    } else {
        decimal_of(n)
    }
}

/// Law: decimal rendering inverts digit parsing. The rendering of a
/// non-negative integer consists of digit characters and parses back, under
/// the grammar's digit-run value, to the integer itself — so a message id a
/// command line carries is exactly the id the caller gave.
pub proof fn lemma_decimal_of_round_trip(n: int)
    requires
        n >= 0,
    ensures
        all_digits(decimal_of(n)),
        digits_val(decimal_of(n)) == n,
    decreases n,
{
    if n < 10 {
        let s = seq![digit_char(n)];
        assert(is_digit(digit_char(n)));
        assert(s.take(s.len() - 1) =~= Seq::<char>::empty());
        assert(digits_val(Seq::<char>::empty()) == 0);
        assert(s.last() == digit_char(n));
        assert(digits_val(s) == digit_val(digit_char(n)));
        assert(digit_val(digit_char(n)) == n);
    } else {
        lemma_decimal_of_round_trip(n / 10);
        let front = decimal_of(n / 10);
        let s = front.push(digit_char(n % 10));
        assert(is_digit(digit_char(n % 10)));
        assert(all_digits(s));
        assert(s.take(s.len() - 1) =~= front);
        assert(digits_val(s) == digits_val(front) * 10 + digit_val(digit_char(n % 10)));
        assert(digit_val(digit_char(n % 10)) == n % 10);
    }
}

/// The character of one decimal digit.
fn digit_to_char(d: u32) -> (c: char)
    requires
        d < 10,
    ensures
        c == digit_char(d as int),
{
    if d == 0 {
        '0'
    } else if d == 1 {
        '1'
    } else if d == 2 {
        '2'
    } else if d == 3 {
        '3'
    } else if d == 4 {
        '4'
    } else if d == 5 {
        '5'
    } else if d == 6 {
        '6'
    } else if d == 7 {
        '7'
    } else if d == 8 {
        '8'
    } else {
        '9'
    }
}

/// Render an unsigned integer in decimal.
pub fn format_u32(n: u32) -> (s: String)
    ensures
        s@ == decimal_of(n as int),
    decreases n,
{
    if n < 10 {
        let mut s = String::new();
        push_char(&mut s, digit_to_char(n));
        proof {
            assert(s@ =~= seq![digit_char(n as int)]);
        }
        s
    } else {
        let mut s = format_u32(n / 10);
        push_char(&mut s, digit_to_char(n % 10));
        s
    }
}

/// Render a signed integer in decimal, with a minus sign where negative.
pub fn format_i32(n: i32) -> (s: String)
    ensures
        s@ == signed_decimal_of(n as int),
{
    if n >= 0 {
        format_u32(n as u32)
    } else {
        let mag = (-(n as i64)) as u32;
        let mut s = String::new();
        push_char(&mut s, '-');
        let rest = format_u32(mag);
        s.append(rest.as_str());
        proof {
            assert(s@ =~= seq!['-'] + decimal_of(mag as int));
        }
        s
    }
}

} // verus!
