//! Character-level string helpers shared by the naming, path and UI logic.
use vstd::prelude::*;

verus! {

/// Unicode `Alphabetic || Numeric`, as `char::is_alphanumeric` decides it.
pub uninterp spec fn spec_is_alphanumeric(c: char) -> bool;

/// Unicode `White_Space`, as `char::is_whitespace` decides it.
pub uninterp spec fn spec_is_whitespace(c: char) -> bool;

/// The Unicode `Cc` category, as `char::is_control` decides it: the code points up to
/// U+001F and those from U+007F to U+009F.
pub open spec fn spec_is_control(c: char) -> bool {
    (c as u32) <= 0x1f || (0x7f <= (c as u32) && (c as u32) <= 0x9f)
}

/// The characters of `str::to_lowercase` applied to a string.
pub uninterp spec fn spec_lowercase(s: Seq<char>) -> Seq<char>;

/// The characters of `str::to_uppercase` applied to a string.
pub uninterp spec fn spec_uppercase(s: Seq<char>) -> Seq<char>;

/// The characters that `char::to_uppercase` yields for one character.
pub uninterp spec fn spec_char_uppercase(c: char) -> Seq<char>;

/// The digit character for `d` below ten.
pub open spec fn digit_char(d: nat) -> char {
    if d == 0 { '0' } else if d == 1 { '1' } else if d == 2 { '2' } else if d == 3 { '3' } else if d == 4 { '4' }
    else if d == 5 { '5' } else if d == 6 { '6' } else if d == 7 { '7' } else if d == 8 { '8' } else { '9' }
}

/// The decimal digits of a number, most significant first, without leading zeros.
pub open spec fn decimal_digits(n: nat) -> Seq<char>
    decreases n,
{
    if n < 10 {
        seq![digit_char(n)]
    } else {
        decimal_digits(n / 10).push(digit_char(n % 10))
    }
}

/// The text that `u64`'s `Display` writes: its decimal digits.
pub open spec fn spec_decimal(n: u64) -> Seq<char> {
    decimal_digits(n as nat)
}

/// An ASCII letter or digit.
pub open spec fn is_ascii_alnum(c: char) -> bool {
    ('a' <= c && c <= 'z') || ('A' <= c && c <= 'Z') || ('0' <= c && c <= '9')
}

/// Wraps `char::is_alphanumeric`. Its documentation gives the ASCII case,
/// stated here; outside ASCII only the name is claimed.
#[verifier::external_body]
pub(crate) fn char_is_alphanumeric(c: char) -> (b: bool)
    ensures
        b == spec_is_alphanumeric(c),
        (c as u32) < 128 ==> (b <==> is_ascii_alnum(c)),
{
    c.is_alphanumeric()
}

/// Wraps `char::is_whitespace`; for ASCII it holds exactly of space, tab,
/// line feed, vertical tab, form feed and carriage return.
#[verifier::external_body]
pub(crate) fn char_is_whitespace(c: char) -> (b: bool)
    ensures
        b == spec_is_whitespace(c),
        (c as u32) < 128 ==> (b <==> (c == ' ' || c == '\t' || c == '\n' || c == '\x0B' || c
            == '\x0C' || c == '\r')),
{
    c.is_whitespace()
}

/// Wraps `char::is_control`, which holds exactly of the `Cc` category.
#[verifier::external_body]
pub(crate) fn char_is_control(c: char) -> (b: bool)
    ensures
        b == spec_is_control(c),
{
    c.is_control()
}

/// Wraps `str::to_lowercase`; only the name is claimed.
#[verifier::external_body]
pub(crate) fn str_to_lowercase(s: &str) -> (r: String)
    ensures
        r@ == spec_lowercase(s@),
{
    s.to_lowercase()
}

/// Wraps `str::to_uppercase`; only the name is claimed.
#[verifier::external_body]
pub(crate) fn str_to_uppercase(s: &str) -> (r: String)
    ensures
        r@ == spec_uppercase(s@),
{
    s.to_uppercase()
}

/// Wraps `char::to_uppercase` collected into a `String`; only the name is claimed.
#[verifier::external_body]
pub(crate) fn char_to_uppercase(c: char) -> (r: String)
    ensures
        r@ == spec_char_uppercase(c),
{
    c.to_uppercase().to_string()
}

/// The digit character for `d`, below ten.
fn digit_of(d: u64) -> (c: char)
    requires
        d < 10,
    ensures
        c == digit_char(d as nat),
{
    if d == 0 { '0' } else if d == 1 { '1' } else if d == 2 { '2' } else if d == 3 { '3' } else if d == 4 { '4' }
    else if d == 5 { '5' } else if d == 6 { '6' } else if d == 7 { '7' } else if d == 8 { '8' } else { '9' }
}

/// Appends the decimal digits of `n`.
fn push_decimal(n: u64, out: &mut Vec<char>)
    ensures
        final(out)@ == old(out)@ + decimal_digits(n as nat),
    decreases n,
{
    if n >= 10 {
        push_decimal(n / 10, out);
        out.push(digit_of(n % 10));
        assert(out@ =~= old(out)@ + decimal_digits((n / 10) as nat).push(digit_char((n % 10) as nat)));
    } else {
        out.push(digit_of(n));
        assert(out@ =~= old(out)@ + decimal_digits(n as nat));
    }
}

/// The decimal digits of `n`, as `u64`'s `Display` writes them.
pub(crate) fn u64_to_decimal(n: u64) -> (r: String)
    ensures
        r@ == spec_decimal(n),
{
    let mut digits: Vec<char> = Vec::new();
    push_decimal(n, &mut digits);
    assert(digits@ =~= decimal_digits(n as nat));
    string_from(&digits)
}

/// Wraps `String::push`: the character is appended.
#[verifier::external_body]
pub(crate) fn push_char(s: &mut String, c: char)
    ensures
        final(s)@ == old(s)@.push(c),
{
    s.push(c)
}

/// Wraps `String::pop`: the last character is taken off, when there is one.
#[verifier::external_body]
pub(crate) fn pop_char(s: &mut String)
    ensures
        old(s)@.len() > 0 ==> final(s)@ == old(s)@.drop_last(),
        old(s)@.len() == 0 ==> final(s)@ == old(s)@,
{
    s.pop();
}

/// Wraps `String::push_str`: the text is appended.
#[verifier::external_body]
pub(crate) fn push_str(s: &mut String, t: &str)
    ensures
        final(s)@ == old(s)@ + t@,
{
    s.push_str(t)
}

/// Wraps `str::to_string`: the copy holds the same characters.
#[verifier::external_body]
pub(crate) fn str_to_string(s: &str) -> (r: String)
    ensures
        r@ == s@,
{
    s.to_string()
}

/// The characters of a string, in order.
pub fn chars_of(s: &str) -> (v: Vec<char>)
    ensures
        v@ == s@,
{
    let mut v: Vec<char> = Vec::new();
    for c in it: s.chars()
        invariant
            v@ == it.seq().take(it.index() as int),
            it.seq() == s@,
    {
        v.push(c);
        assert(it.seq().take(it.index() + 1) == it.seq().take(it.index() as int).push(c));
    }
    v
}

/// A string holding the given characters.
pub fn string_from(v: &Vec<char>) -> (s: String)
    ensures
        s@ == v@,
{
    let mut s = String::new();
    let mut i: usize = 0;
    while i < v.len()
        invariant
            i <= v.len(),
            s@ == v@.take(i as int),
        decreases v.len() - i,
    {
        push_char(&mut s, v[i]);
        assert(v@.take(i + 1) == v@.take(i as int).push(v@[i as int]));
        i += 1;
    }
    assert(v@.take(v.len() as int) == v@);
    s
}


/// The number of characters of a string.
pub fn char_count(s: &str) -> (n: usize)
    ensures
        n == s@.len(),
{
    chars_of(s).len()
}

} // verus!
