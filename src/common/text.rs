//! String helpers: specified access to the parts of std's string handling
//! that the library relies on, and decimal numbers read and written.
use crate::common::server_command::strings_view;
use vstd::prelude::*;
use vstd::string::*;
use vstd::utf8::*;

verus! {

/// Relies on `String::from_utf8`: it succeeds exactly when the bytes are valid
/// UTF-8, and the string then holds the characters those bytes encode.
#[verifier::external_body]
pub(crate) fn string_from_utf8(bytes: Vec<u8>) -> (r: Option<String>)
    ensures
        match r {
            Some(s) => valid_utf8(bytes@) && s@ == decode_utf8(bytes@),
            None => !valid_utf8(bytes@),
        },
{
    String::from_utf8(bytes).ok()
}

/// Relies on `String::push`: appends one character.
#[verifier::external_body]
pub(crate) fn push_char(s: &mut String, c: char)
    ensures
        final(s)@ == old(s)@.push(c),
{
    s.push(c)
}

/// What `str::lines` gives for a text: its lines, without line terminators.
pub uninterp spec fn lines_of(s: Seq<char>) -> Seq<Seq<char>>;

/// What `str::trim` gives for a text: the text without leading and trailing
/// whitespace.
pub uninterp spec fn trimmed(s: Seq<char>) -> Seq<char>;

/// What `str::to_lowercase` gives for a text.
pub uninterp spec fn lower_of(s: Seq<char>) -> Seq<char>;

/// Relies on `str::lines`: the lines of a text, each copied into a `String`.
#[verifier::external_body]
pub(crate) fn split_lines(s: &str) -> (r: Vec<String>)
    ensures
        r@.map_values(|l: String| l@) == lines_of(s@),
{
    s.lines().map(str::to_owned).collect()
}

/// Relies on `str::trim`: the text without leading and trailing whitespace;
/// text that is already empty stays empty.
#[verifier::external_body]
pub(crate) fn trim(s: &str) -> (r: &str)
    ensures
        r@ == trimmed(s@),
        s@.len() == 0 ==> r@.len() == 0,
{
    s.trim()
}

/// Relies on `str::to_lowercase`: the lowercase form of a text.
#[verifier::external_body]
pub(crate) fn to_lowercase(s: &str) -> (r: String)
    ensures
        r@ == lower_of(s@),
{
    s.to_lowercase()
}

/// Whether a string holds exactly the characters of `lit`.
pub fn equals_str(s: &String, lit: &str) -> (r: bool)
    ensures
        r == (s@ == lit@),
{
    let other = lit.to_owned();
    s.eq(&other)
}

/// The character of a decimal digit.
pub open spec fn digit_char(d: nat) -> char {
    seq!['0', '1', '2', '3', '4', '5', '6', '7', '8', '9'][d as int]
}

/// The decimal digits of `n`, most significant first, without leading zeros.
pub open spec fn digits_of(n: nat) -> Seq<char>
    decreases n,
{
    if n < 10 {
        seq![digit_char(n)]
    } else {
        digits_of(n / 10).push(digit_char(n % 10))
    }
}

/// The decimal form of an integer, with a leading `-` when it is negative.
pub open spec fn decimal(n: int) -> Seq<char> {
    if n < 0 {
        seq!['-'] + digits_of((-n) as nat)
    } else {
        digits_of(n as nat)
    }
}

fn digit(d: u64) -> (c: char)
    requires
        d < 10,
    ensures
        c == digit_char(d as nat),
{
    let table = ['0', '1', '2', '3', '4', '5', '6', '7', '8', '9'];
    let c = table[d as usize];
    assert(table@ =~= seq!['0', '1', '2', '3', '4', '5', '6', '7', '8', '9']);
    c
}

fn push_digits(s: &mut String, n: u64)
    ensures
        final(s)@ == old(s)@ + digits_of(n as nat),
    decreases n,
{
    if n >= 10 {
        push_digits(s, n / 10);
    }
    push_char(s, digit(n % 10));
    assert(final(s)@ =~= old(s)@ + digits_of(n as nat));
}

/// Appends the decimal form of `n`.
pub fn push_decimal(s: &mut String, n: i32)
    ensures
        final(s)@ == old(s)@ + decimal(n as int),
{
    if n < 0 {
        push_char(s, '-');
        let magnitude: u64 = (-(n as i64)) as u64;
        push_digits(s, magnitude);
    } else {
        push_digits(s, n as u64);
    }
    assert(final(s)@ =~= old(s)@ + decimal(n as int));
}

/// Whether a character is an ASCII decimal digit.
pub open spec fn is_digit(c: char) -> bool {
    '0' <= c <= '9'
}

/// The number that a sequence of decimal digits denotes.
pub open spec fn digits_value(s: Seq<char>) -> nat
    decreases s.len(),
{
    if s.len() == 0 {
        0
    } else {
        digits_value(s.drop_last()) * 10 + ((s.last() as u32 - '0' as u32) as nat)
    }
}

/// A text without its leading `+`, if it has one.
pub open spec fn without_plus(s: Seq<char>) -> Seq<char> {
    if s.len() > 0 && s[0] == '+' {
        s.drop_first()
    } else {
        s
    }
}

/// The unsigned number a text denotes: an optional `+`, then one or more
/// decimal digits; no other character, sign or whitespace is accepted.
pub open spec fn unsigned_value(s: Seq<char>) -> Option<nat> {
    let digits = without_plus(s);
    if digits.len() > 0 && forall|i: int| 0 <= i < digits.len() ==> is_digit(#[trigger] digits[i]) {
        Some(digits_value(digits))
    } else {
        None
    }
}

/// Reads an unsigned decimal number no larger than `max`.
pub fn parse_unsigned(s: &str, max: u64) -> (r: Option<u64>)
    ensures
        match unsigned_value(s@) {
            Some(v) => if v <= max {
                r == Some(v as u64)
            } else {
                r is None
            },
            None => r is None,
        },
{
    let n = s.unicode_len();
    let mut i: usize = 0;
    if n > 0 && s.get_char(0) == '+' {
        i = 1;
    }
    let start = i;
    let ghost digits = s@.subrange(start as int, n as int);
    proof {
        if start == 1 {
            assert(digits =~= s@.drop_first());
        } else {
            assert(digits =~= s@);
        }
        assert(digits == without_plus(s@));
    }
    if start == n {
        return None;
    }
    let mut value: u64 = 0;
    let mut too_large = false;
    while i < n
        invariant
            start <= i <= n,
            n == s@.len(),
            digits == s@.subrange(start as int, n as int),
            digits == without_plus(s@),
            forall|j: int| start <= j < i ==> is_digit(#[trigger] s@[j]),
            !too_large ==> value as nat == digits_value(s@.subrange(start as int, i as int)),
            !too_large ==> value <= max,
            too_large ==> digits_value(s@.subrange(start as int, i as int)) > max,
        decreases n - i,
    {
        let c = s.get_char(i);
        if !('0' <= c && c <= '9') {
            assert(digits[i - start] == c);
            assert(!is_digit(digits[i - start]));
            return None;
        }
        let d = (c as u32 - '0' as u32) as u64;
        let ghost prefix = s@.subrange(start as int, i + 1);
        proof {
            assert(prefix.drop_last() =~= s@.subrange(start as int, i as int));
            assert(prefix.last() == c);
        }
        if !too_large {
            if d > max || value > (max - d) / 10 {
                too_large = true;
                assert(digits_value(prefix) > max) by (nonlinear_arith)
                    requires
                        d > max || value > (max - d) / 10,
                        digits_value(prefix) == value * 10 + d,
                ;
            } else {
                assert(value * 10 + d <= max) by (nonlinear_arith)
                    requires
                        d <= max,
                        value <= (max - d) / 10,
                ;
                value = value * 10 + d;
            }
        } else {
            assert(digits_value(prefix) >= digits_value(s@.subrange(start as int, i as int)))
                by (nonlinear_arith)
                requires
                    digits_value(prefix) == digits_value(s@.subrange(start as int, i as int)) * 10
                        + d,
            ;
        }
        i = i + 1;
    }
    assert(s@.subrange(start as int, n as int) == digits);
    if too_large {
        None
    } else {
        Some(value)
    }
}

/// Lines joined with `\n` between them.
pub open spec fn join_lines(lines: Seq<Seq<char>>) -> Seq<char>
    decreases lines.len(),
{
    if lines.len() == 0 {
        Seq::empty()
    } else if lines.len() == 1 {
        lines[0]
    } else {
        join_lines(lines.drop_last()) + seq!['\n'] + lines.last()
    }
}

/// Lines joined with `\n` between them.
pub fn join_with_newlines(lines: &Vec<String>) -> (r: String)
    ensures
        r@ == join_lines(strings_view(lines@)),
{
    let ghost all = strings_view(lines@);
    let mut r = String::new();
    let mut i: usize = 0;
    while i < lines.len()
        invariant
            i <= lines@.len(),
            all == strings_view(lines@),
            r@ == join_lines(all.subrange(0, i as int)),
        decreases lines@.len() - i,
    {
        let ghost next = all.subrange(0, i + 1);
        assert(next.drop_last() =~= all.subrange(0, i as int));
        if i > 0 {
            push_char(&mut r, '\n');
        }
        r.append(lines[i].as_str());
        i = i + 1;
        assert(r@ =~= join_lines(all.subrange(0, i as int)));
    }
    assert(all.subrange(0, all.len() as int) =~= all);
    r
}

} // verus!
