//! The line grammar of the protocol: status markers, the multi-line
//! terminator, and the numeric / token payload shapes that status and body
//! lines may carry.
//!
//! Spec functions define each shape over `Seq<char>`; the executable parsers
//! are proved to decide exactly those shapes.

use vstd::prelude::*;

verus! {

/// A decimal digit character.
pub open spec fn is_digit(c: char) -> bool {
    '0' <= c && c <= '9'
}

/// The numeric value of a digit character.
pub open spec fn digit_val(c: char) -> int {
    c as u32 - '0' as u32
}

/// A printable-ASCII character other than space: what a unique-id token may
/// consist of.
pub open spec fn is_token_char(c: char) -> bool {
    0x21 <= c as u32 && c as u32 <= 0x7e
}

/// The three-character marker that begins every success status line.
pub open spec fn ok_marker() -> Seq<char> {
    seq!['+', 'O', 'K']
}

/// The success marker followed by the space that separates it from a payload.
pub open spec fn ok_marker_space() -> Seq<char> {
    seq!['+', 'O', 'K', ' ']
}

/// The four-character marker that begins every failure status line.
pub open spec fn err_marker() -> Seq<char> {
    seq!['-', 'E', 'R', 'R']
}

/// The two-character line ending.
pub open spec fn crlf() -> Seq<char> {
    seq!['\r', '\n']
}

/// The line that terminates a multi-line body: a single dot and the line
/// ending.
pub open spec fn terminator_line() -> Seq<char> {
    seq!['.', '\r', '\n']
}

/// A success status line: begins with the success marker.
pub open spec fn is_ok_line(l: Seq<char>) -> bool {
    l.len() >= 3 && l.subrange(0, 3) == ok_marker()
}

/// A failure status line: begins with the failure marker.
pub open spec fn is_err_line(l: Seq<char>) -> bool {
    l.len() >= 4 && l.subrange(0, 4) == err_marker()
}

/// The body terminator line, exactly.
pub open spec fn is_terminator_line(l: Seq<char>) -> bool {
    l == terminator_line()
}

/// Every character of `s` is a digit.
pub open spec fn all_digits(s: Seq<char>) -> bool {
    forall|i: int| 0 <= i < s.len() ==> is_digit(#[trigger] s[i])
}

/// The value of a run of digit characters, most significant first.
pub open spec fn digits_val(s: Seq<char>) -> int
    decreases s.len(),
{
    if s.len() == 0 {
        0
    } else {
        digits_val(s.take(s.len() - 1)) * 10 + digit_val(s.last())
    }
}

/// The length of the longest digit run at the front of `s`.
pub open spec fn digit_run_len(s: Seq<char>) -> int
    decreases s.len(),
{
    if s.len() == 0 || !is_digit(s[0]) {
        0
    } else {
        1 + digit_run_len(s.skip(1))
    }
}

/// The length of the longest token-character run at the front of `s`.
pub open spec fn token_run_len(s: Seq<char>) -> int
    decreases s.len(),
{
    if s.len() == 0 || !is_token_char(s[0]) {
        0
    } else {
        1 + token_run_len(s.skip(1))
    }
}

/// A payload of the shape `<digits> <digits>\r\n`, as the values of its two
/// numbers; `None` if `s` is not of that shape.
pub open spec fn parse_pair_num_num(s: Seq<char>) -> Option<(int, int)> {
    let n1 = digit_run_len(s);
    if n1 < 1 {
        None
    } else if !(n1 < s.len() && s[n1] == ' ') {
        None
    } else {
        let rest = s.skip(n1 + 1);
        let n2 = digit_run_len(rest);
        if n2 < 1 {
            None
        } else if rest.skip(n2) != crlf() {
            None
        } else {
            Some((digits_val(s.take(n1)), digits_val(rest.take(n2))))
        }
    }
}

/// A payload of the shape `<digits> <token>\r\n`, as the value of its number
/// and the characters of its token; `None` if `s` is not of that shape.
pub open spec fn parse_pair_num_token(s: Seq<char>) -> Option<(int, Seq<char>)> {
    let n1 = digit_run_len(s);
    if n1 < 1 {
        None
    } else if !(n1 < s.len() && s[n1] == ' ') {
        None
    } else {
        let rest = s.skip(n1 + 1);
        let n2 = token_run_len(rest);
        if n2 < 1 {
            None
        } else if rest.skip(n2) != crlf() {
            None
        } else {
            Some((digits_val(s.take(n1)), rest.take(n2)))
        }
    }
}

/// A status line carrying two numbers, as the stat and single-entry listing
/// replies do: the success marker, a space, then `<digits> <digits>\r\n`.
pub open spec fn parse_stat_line(l: Seq<char>) -> Option<(int, int)> {
    if l.len() >= 4 && l.subrange(0, 4) == ok_marker_space() {
        parse_pair_num_num(l.skip(4))
    } else {
        None
    }
}

/// A status line carrying a number and a token, as the single-entry
/// unique-id reply does.
pub open spec fn parse_uidl_one_line(l: Seq<char>) -> Option<(int, Seq<char>)> {
    if l.len() >= 4 && l.subrange(0, 4) == ok_marker_space() {
        parse_pair_num_token(l.skip(4))
    } else {
        None
    }
}

/// Whether a mathematical integer fits the signed 32-bit payload fields of
/// the result model.
pub open spec fn fits_i32(n: int) -> bool {
    0 <= n <= i32::MAX
}

/// A line with its trailing CRLF removed; a line without one is unchanged.
pub open spec fn strip_crlf(l: Seq<char>) -> Seq<char> {
    if l.len() >= 2 && l.skip(l.len() - 2) == crlf() {
        l.take(l.len() - 2)
    } else {
        l
    }
}

/// The value of a digit run is never negative.
pub proof fn lemma_digits_val_nonneg(s: Seq<char>)
    requires
        all_digits(s),
    ensures
        digits_val(s) >= 0,
    decreases s.len(),
{
    if s.len() > 0 {
        assert(all_digits(s.take(s.len() - 1)));
        lemma_digits_val_nonneg(s.take(s.len() - 1));
    }
}

/// The value of a digit run is at least the value of any of its prefixes.
pub proof fn lemma_digits_val_prefix_mono(s: Seq<char>, n: int)
    requires
        all_digits(s),
        0 <= n <= s.len(),
    ensures
        digits_val(s.take(n)) <= digits_val(s),
    decreases s.len(),
{
    if n == s.len() {
        assert(s.take(n) =~= s);
    } else {
        let front = s.take(s.len() - 1);
        assert(all_digits(front));
        assert(front.take(n) =~= s.take(n));
        lemma_digits_val_prefix_mono(front, n);
        lemma_digits_val_nonneg(front);
    }
}

/// `digit_run_len` is the unique boundary between a leading digit run and a
/// non-digit (or the end).
pub proof fn lemma_digit_run_len_is(s: Seq<char>, n: int)
    requires
        0 <= n <= s.len(),
        forall|i: int| 0 <= i < n ==> is_digit(#[trigger] s[i]),
        n < s.len() ==> !is_digit(s[n]),
    ensures
        digit_run_len(s) == n,
    decreases s.len(),
{
    if n == 0 {
    } else {
        assert(is_digit(s[0]));
        lemma_digit_run_len_is(s.skip(1), n - 1);
    }
}

/// Counterpart of `lemma_digit_run_len_is` for token runs.
pub proof fn lemma_token_run_len_is(s: Seq<char>, n: int)
    requires
        0 <= n <= s.len(),
        forall|i: int| 0 <= i < n ==> is_token_char(#[trigger] s[i]),
        n < s.len() ==> !is_token_char(s[n]),
    ensures
        token_run_len(s) == n,
    decreases s.len(),
{
    if n == 0 {
    } else {
        assert(is_token_char(s[0]));
        lemma_token_run_len_is(s.skip(1), n - 1);
    }
}

/// Exec check for a success status line.
pub fn is_ok_line_exec(s: &str) -> (r: bool)
    ensures
        r == is_ok_line(s@),
{
    let n = s.unicode_len();
    if n < 3 {
        assert(!is_ok_line(s@));
        return false;
    }
    let r = s.get_char(0) == '+' && s.get_char(1) == 'O' && s.get_char(2) == 'K';
    proof {
        if r {
            assert(s@.subrange(0, 3) =~= ok_marker());
        } else {
            assert(s@.subrange(0, 3) != ok_marker());
        }
    }
    r
}

/// Exec check for a failure status line.
pub fn is_err_line_exec(s: &str) -> (r: bool)
    ensures
        r == is_err_line(s@),
{
    let n = s.unicode_len();
    if n < 4 {
        assert(!is_err_line(s@));
        return false;
    }
    let r = s.get_char(0) == '-' && s.get_char(1) == 'E' && s.get_char(2) == 'R' && s.get_char(3)
        == 'R';
    proof {
        if r {
            assert(s@.subrange(0, 4) =~= err_marker());
        } else {
            assert(s@.subrange(0, 4) != err_marker());
        }
    }
    r
}

/// Exec check for the body terminator line.
pub fn is_terminator_line_exec(s: &str) -> (r: bool)
    ensures
        r == is_terminator_line(s@),
{
    let n = s.unicode_len();
    if n != 3 {
        assert(s@ != terminator_line());
        return false;
    }
    let r = s.get_char(0) == '.' && s.get_char(1) == '\r' && s.get_char(2) == '\n';
    proof {
        if r {
            assert(s@ =~= terminator_line());
        } else {
            assert(s@ != terminator_line());
        }
    }
    r
}

/// Remove the trailing CRLF of a line; a line without one is returned
/// unchanged.
pub fn strip_crlf_exec(s: &String) -> (r: String)
    ensures
        r@ == strip_crlf(s@),
{
    let n = s.as_str().unicode_len();
    if n >= 2 && s.as_str().get_char(n - 2) == '\r' && s.as_str().get_char(n - 1) == '\n' {
        proof {
            assert(s@.skip(n - 2) =~= crlf());
        }
        s.as_str().substring_char(0, n - 2).to_owned()
    } else {
        proof {
            if s@.len() >= 2 {
                assert(s@.skip(s@.len() - 2)[0] == s@[s@.len() - 2]);
                assert(s@.skip(s@.len() - 2)[1] == s@[s@.len() - 1]);
                assert(s@.skip(s@.len() - 2) != crlf());
            }
            assert(strip_crlf(s@) == s@);
        }
        s.clone()
    }
}

/// Scan forward from `from` to the end of the digit run that starts there.
fn run_end_digits(s: &str, from: usize) -> (e: usize)
    requires
        from <= s@.len(),
    ensures
        from <= e <= s@.len(),
        e - from == digit_run_len(s@.skip(from as int)),
        forall|j: int| from <= j < e ==> is_digit(#[trigger] s@[j]),
        e < s@.len() ==> !is_digit(s@[e as int]),
{
    let n = s.unicode_len();
    let mut i: usize = from;
    while i < n && digit_check(s.get_char(i))
        invariant
            from <= i <= n,
            n == s@.len(),
            forall|j: int| from <= j < i ==> is_digit(#[trigger] s@[j]),
        decreases n - i,
    {
        i = i + 1;
    }
    proof {
        let rest = s@.skip(from as int);
        assert forall|k: int| 0 <= k < i - from implies is_digit(#[trigger] rest[k]) by {
            assert(is_digit(s@[from + k]));
        }
        lemma_digit_run_len_is(rest, i - from);
    }
    i
}

/// Scan forward from `from` to the end of the token-character run that
/// starts there.
fn run_end_tokens(s: &str, from: usize) -> (e: usize)
    requires
        from <= s@.len(),
    ensures
        from <= e <= s@.len(),
        e - from == token_run_len(s@.skip(from as int)),
        forall|j: int| from <= j < e ==> is_token_char(#[trigger] s@[j]),
        e < s@.len() ==> !is_token_char(s@[e as int]),
{
    let n = s.unicode_len();
    let mut i: usize = from;
    while i < n && token_char_check(s.get_char(i))
        invariant
            from <= i <= n,
            n == s@.len(),
            forall|j: int| from <= j < i ==> is_token_char(#[trigger] s@[j]),
        decreases n - i,
    {
        i = i + 1;
    }
    proof {
        let rest = s@.skip(from as int);
        assert forall|k: int| 0 <= k < i - from implies is_token_char(#[trigger] rest[k]) by {
            assert(is_token_char(s@[from + k]));
        }
        lemma_token_run_len_is(rest, i - from);
    }
    i
}

/// Exec check that a character is a decimal digit.
fn digit_check(c: char) -> (r: bool)
    ensures
        r == is_digit(c),
{
    '0' <= c && c <= '9'
}

/// Exec check that a character may stand in a unique-id token.
fn token_char_check(c: char) -> (r: bool)
    ensures
        r == is_token_char(c),
{
    let v = c as u32;
    0x21 <= v && v <= 0x7e
}

/// The value of the digit run `s[from..to]`, or `None` if it does not fit a
/// signed 32-bit integer.
fn digits_to_i32(s: &str, from: usize, to: usize) -> (r: Option<i32>)
    requires
        from <= to <= s@.len(),
        forall|j: int| from <= j < to ==> is_digit(#[trigger] s@[j]),
    ensures
        match r {
            Some(v) => fits_i32(digits_val(s@.subrange(from as int, to as int))) && v as int
                == digits_val(s@.subrange(from as int, to as int)),
            None => !fits_i32(digits_val(s@.subrange(from as int, to as int))),
        },
{
    let ghost whole = s@.subrange(from as int, to as int);
    proof {
        assert(all_digits(whole));
    }
    let mut v: i64 = 0;
    let mut i: usize = from;
    while i < to
        invariant
            from <= i <= to <= s@.len(),
            forall|j: int| from <= j < to ==> is_digit(#[trigger] s@[j]),
            whole == s@.subrange(from as int, to as int),
            0 <= v <= i32::MAX,
            v as int == digits_val(s@.subrange(from as int, i as int)),
        decreases to - i,
    {
        let c = s.get_char(i);
        assert(is_digit(s@[i as int]));
        let d = c as u32 - '0' as u32;
        let next = v * 10 + d as i64;
        proof {
            let prefix = s@.subrange(from as int, i as int + 1);
            assert(prefix.take(prefix.len() - 1) =~= s@.subrange(from as int, i as int));
            assert(digits_val(prefix) == next);
            if next > i32::MAX {
                assert(whole.take(i + 1 - from) =~= prefix);
                lemma_digits_val_prefix_mono(whole, i + 1 - from);
            }
        }
        if next > i32::MAX as i64 {
            return None;
        }
        v = next;
        i = i + 1;
    }
    assert(s@.subrange(from as int, i as int) =~= whole);
    Some(v as i32)
}

/// Parse a `<digits> <digits>\r\n` payload beginning at `from`, as the pair
/// of its numbers, failing exactly where the spec-level parse fails or a
/// number does not fit a signed 32-bit integer.
pub fn parse_num_num(s: &str, from: usize) -> (r: Option<(i32, i32)>)
    requires
        from <= s@.len(),
    ensures
        match parse_pair_num_num(s@.skip(from as int)) {
            Some(p) => if fits_i32(p.0) && fits_i32(p.1) {
                r == Some(((p.0 as i32), (p.1 as i32)))
            } else {
                r is None
            },
            None => r is None,
        },
{
    let ghost rest0 = s@.skip(from as int);
    let n = s.unicode_len();
    let e1 = run_end_digits(s, from);
    if e1 == from || e1 == n {
        return None;
    }
    if s.get_char(e1) != ' ' {
        assert(rest0[e1 - from] == s@[e1 as int]);
        return None;
    }
    assert(rest0[e1 - from] == s@[e1 as int]);
    let ghost n1 = digit_run_len(rest0);
    let ghost rest = rest0.skip(n1 + 1);
    proof {
        assert(rest =~= s@.skip(e1 as int + 1));
    }
    let e2 = run_end_digits(s, e1 + 1);
    if e2 == e1 + 1 {
        return None;
    }
    let ghost n2 = digit_run_len(rest);
    if n - e2 != 2 {
        proof {
            assert(rest.skip(n2) =~= s@.skip(e2 as int));
            assert(rest.skip(n2).len() != 2);
        }
        return None;
    }
    proof {
        assert(rest.skip(n2) =~= s@.skip(e2 as int));
    }
    if s.get_char(e2) != '\r' || s.get_char(e2 + 1) != '\n' {
        assert(s@.skip(e2 as int) != crlf());
        return None;
    }
    proof {
        assert(s@.skip(e2 as int) =~= crlf());
        assert(rest0.take(n1) =~= s@.subrange(from as int, e1 as int));
        assert(rest.take(n2) =~= s@.subrange(e1 as int + 1, e2 as int));
    }
    let v1 = digits_to_i32(s, from, e1);
    let v2 = digits_to_i32(s, e1 + 1, e2);
    match (v1, v2) {
        (Some(a), Some(b)) => Some((a, b)),
        _ => None,
    }
}

/// Parse a `<digits> <token>\r\n` payload beginning at `from`, as its number
/// and its token, failing exactly where the spec-level parse fails or the
/// number does not fit a signed 32-bit integer.
pub fn parse_num_token(s: &str, from: usize) -> (r: Option<(i32, String)>)
    requires
        from <= s@.len(),
    ensures
        match parse_pair_num_token(s@.skip(from as int)) {
            Some(p) => if fits_i32(p.0) {
                r matches Some(q) && q.0 as int == p.0 && q.1@ == p.1
            } else {
                r is None
            },
            None => r is None,
        },
{
    let ghost rest0 = s@.skip(from as int);
    let n = s.unicode_len();
    let e1 = run_end_digits(s, from);
    if e1 == from || e1 == n {
        return None;
    }
    if s.get_char(e1) != ' ' {
        assert(rest0[e1 - from] == s@[e1 as int]);
        return None;
    }
    assert(rest0[e1 - from] == s@[e1 as int]);
    let ghost n1 = digit_run_len(rest0);
    let ghost rest = rest0.skip(n1 + 1);
    proof {
        assert(rest =~= s@.skip(e1 as int + 1));
    }
    let e2 = run_end_tokens(s, e1 + 1);
    if e2 == e1 + 1 {
        return None;
    }
    let ghost n2 = token_run_len(rest);
    if n - e2 != 2 {
        proof {
            assert(rest.skip(n2) =~= s@.skip(e2 as int));
            assert(rest.skip(n2).len() != 2);
        }
        return None;
    }
    proof {
        assert(rest.skip(n2) =~= s@.skip(e2 as int));
    }
    if s.get_char(e2) != '\r' || s.get_char(e2 + 1) != '\n' {
        assert(s@.skip(e2 as int) != crlf());
        return None;
    }
    proof {
        assert(s@.skip(e2 as int) =~= crlf());
        assert(rest0.take(n1) =~= s@.subrange(from as int, e1 as int));
        assert(rest.take(n2) =~= s@.subrange(e1 as int + 1, e2 as int));
    }
    let v1 = digits_to_i32(s, from, e1);
    match v1 {
        Some(a) => {
            let tok = s.substring_char(e1 + 1, e2).to_owned();
            Some((a, tok))
        },
        None => None,
    }
}

/// Check that `l` begins with the success marker and a space: the prefix of
/// every status line that carries a payload.
fn has_ok_space_prefix(s: &str) -> (r: bool)
    ensures
        r == (s@.len() >= 4 && s@.subrange(0, 4) == ok_marker_space()),
{
    let n = s.unicode_len();
    if n < 4 {
        return false;
    }
    let r = s.get_char(0) == '+' && s.get_char(1) == 'O' && s.get_char(2) == 'K' && s.get_char(3)
        == ' ';
    proof {
        if r {
            assert(s@.subrange(0, 4) =~= ok_marker_space());
        } else {
            assert(s@.subrange(0, 4) != ok_marker_space());
        }
    }
    r
}

/// Parse a status line of the stat / single-entry listing shape.
pub fn parse_ok_num_num(s: &str) -> (r: Option<(i32, i32)>)
    ensures
        match parse_stat_line(s@) {
            Some(p) => if fits_i32(p.0) && fits_i32(p.1) {
                r == Some(((p.0 as i32), (p.1 as i32)))
            } else {
                r is None
            },
            None => r is None,
        },
{
    if !has_ok_space_prefix(s) {
        return None;
    }
    parse_num_num(s, 4)
}

/// Parse a status line of the single-entry unique-id shape.
pub fn parse_ok_num_token(s: &str) -> (r: Option<(i32, String)>)
    ensures
        match parse_uidl_one_line(s@) {
            Some(p) => if fits_i32(p.0) {
                r matches Some(q) && q.0 as int == p.0 && q.1@ == p.1
            } else {
                r is None
            },
            None => r is None,
        },
{
    if !has_ok_space_prefix(s) {
        return None;
    }
    parse_num_token(s, 4)
}

} // verus!
