//! Text operations of std that the request handlers rely on: trimming,
//! reading a decimal number, and writing one.
use vstd::prelude::*;

verus! {

/// `c` has the Unicode White_Space property.
pub open spec fn is_white_space(c: char) -> bool {
    let v = c as u32;
    ||| 0x09 <= v <= 0x0D
    ||| v == 0x20
    ||| v == 0x85
    ||| v == 0xA0
    ||| v == 0x1680
    ||| 0x2000 <= v <= 0x200A
    ||| v == 0x2028
    ||| v == 0x2029
    ||| v == 0x202F
    ||| v == 0x205F
    ||| v == 0x3000
}

/// `s` without its leading white space.
pub open spec fn trim_start(s: Seq<char>) -> Seq<char>
    decreases s.len(),
{
    if s.len() > 0 && is_white_space(s[0]) {
        trim_start(s.drop_first())
    } else {
        s
    }
}

/// `s` without its trailing white space.
pub open spec fn trim_end(s: Seq<char>) -> Seq<char>
    decreases s.len(),
{
    if s.len() > 0 && is_white_space(s.last()) {
        trim_end(s.drop_last())
    } else {
        s
    }
}

/// `s` without leading and trailing white space.
pub open spec fn trimmed(s: Seq<char>) -> Seq<char> {
    trim_end(trim_start(s))
}

/// `str::trim`: the slice without leading and trailing characters that
/// have the Unicode White_Space property.
#[verifier::external_body]
pub(crate) fn trim(s: &str) -> (r: &str)
    ensures
        r@ == trimmed(s@),
{
    s.trim()
}

/// `c` is one of the ASCII digits `0` to `9`.
pub open spec fn is_ascii_digit(c: char) -> bool {
    48 <= (c as u32) <= 57
}

/// The value of the ASCII digit `c`.
pub open spec fn digit_value(c: char) -> nat {
    ((c as u32) - 48) as nat
}

/// The number that the digits `s` write in base ten.
pub open spec fn digits_value(s: Seq<char>) -> nat
    decreases s.len(),
{
    if s.len() == 0 {
        0
    } else {
        digits_value(s.drop_last()) * 10 + digit_value(s.last())
    }
}

/// `s` without one leading `+`.
pub open spec fn unsigned_digits(s: Seq<char>) -> Seq<char> {
    if s.len() > 0 && s[0] == '+' {
        s.drop_first()
    } else {
        s
    }
}

/// The number `s` writes, if `s` is an optional `+` followed by at least
/// one ASCII digit and nothing else, and the number is at most `max`.
pub open spec fn parse_unsigned(s: Seq<char>, max: nat) -> Option<nat> {
    let d = unsigned_digits(s);
    if d.len() > 0 && (forall|i: int| 0 <= i < d.len() ==> #[trigger] is_ascii_digit(d[i]))
        && digits_value(d) <= max {
        Some(digits_value(d))
    } else {
        None
    }
}

/// `u32::from_str`: the number `s` writes in base ten, as `parse_unsigned`
/// states with `u32::MAX` as the bound; `None` for any error.
#[verifier::external_body]
pub(crate) fn parse_u32(s: &str) -> (r: Option<u32>)
    ensures
        r matches Some(v) ==> parse_unsigned(s@, u32::MAX as nat) == Some(v as nat),
        r is None ==> parse_unsigned(s@, u32::MAX as nat) is None,
{
    s.parse::<u32>().ok()
}

/// `usize::from_str`: the number `s` writes in base ten, as
/// `parse_unsigned` states with `usize::MAX` as the bound; `None` for any
/// error.
#[verifier::external_body]
pub(crate) fn parse_usize(s: &str) -> (r: Option<usize>)
    ensures
        r matches Some(v) ==> parse_unsigned(s@, usize::MAX as nat) == Some(v as nat),
        r is None ==> parse_unsigned(s@, usize::MAX as nat) is None,
{
    s.parse::<usize>().ok()
}

/// The ASCII digit of `d`, below ten.
pub open spec fn digit_char(d: nat) -> char {
    (48 + d) as char
}

/// `n` written in base ten, without leading zeros.
pub open spec fn decimal_string(n: nat) -> Seq<char>
    decreases n,
{
    if n < 10 {
        seq![digit_char(n)]
    } else {
        decimal_string(n / 10).push(digit_char(n % 10))
    }
}

/// `u32` as `Display` writes it: base ten, without leading zeros.
#[verifier::external_body]
pub(crate) fn u32_to_string(n: u32) -> (r: String)
    ensures
        r@ == decimal_string(n as nat),
{
    n.to_string()
}

/// A number written by `decimal_string` consists of digits and reads back
/// as the same number.
pub proof fn lemma_decimal_string_digits(n: nat)
    ensures
        decimal_string(n).len() > 0,
        forall|i: int|
            0 <= i < decimal_string(n).len() ==> #[trigger] is_ascii_digit(decimal_string(n)[i]),
        digits_value(decimal_string(n)) == n,
    decreases n,
{
    if n < 10 {
        let s = decimal_string(n);
        assert(s.drop_last() =~= Seq::<char>::empty());
        assert(digit_char(n) as u32 == 48 + n);
        assert(digit_value(digit_char(n)) == n);
        assert(digits_value(s) == digits_value(s.drop_last()) * 10 + digit_value(s.last()));
    } else {
        lemma_decimal_string_digits(n / 10);
        let s = decimal_string(n);
        let p = decimal_string(n / 10);
        assert(s.drop_last() =~= p);
        assert(digit_char(n % 10) as u32 == 48 + n % 10);
        assert(digit_value(digit_char(n % 10)) == n % 10);
        assert(digits_value(s) == digits_value(p) * 10 + digit_value(s.last()));
        assert(n == (n / 10) * 10 + n % 10);
        assert forall|i: int| 0 <= i < s.len() implies #[trigger] is_ascii_digit(s[i]) by {
            if i < p.len() {
                assert(s[i] == p[i]);
            }
        }
    }
}

/// Reading back what `u32_to_string` writes gives the number again: the
/// baud rate shown in a status line is the one that is parsed from it.
pub proof fn law_decimal_round_trip(n: u32)
    ensures
        parse_unsigned(decimal_string(n as nat), u32::MAX as nat) == Some(n as nat),
{
    lemma_decimal_string_digits(n as nat);
    let s = decimal_string(n as nat);
    assert(is_ascii_digit(s[0]));
    assert(unsigned_digits(s) == s);
}

/// `s` without its leading `c` characters.
pub open spec fn drop_leading(s: Seq<char>, c: char) -> Seq<char>
    decreases s.len(),
{
    if s.len() > 0 && s[0] == c {
        drop_leading(s.drop_first(), c)
    } else {
        s
    }
}

/// `str::trim_start_matches('/')`: the slice without its leading slashes.
#[verifier::external_body]
pub(crate) fn trim_leading_slashes(s: &str) -> (r: &str)
    ensures
        r@ == drop_leading(s@, '/'),
{
    s.trim_start_matches('/')
}

/// Whether `c` occurs in `s`.
pub(crate) fn contains_char(s: &str, c: char) -> (r: bool)
    ensures
        r == s@.contains(c),
{
    broadcast use vstd::string::axiom_spec_iter;
    for x in it: s.chars()
        invariant
            it.seq() == s@,
            forall|j: int| 0 <= j < it.index() ==> #[trigger] it.seq()[j] != c,
    {
        if x == c {
            return true;
        }
    }
    false
}

/// The text that `String::from_utf8_lossy` decodes from `bytes`: valid
/// UTF-8 decoded, each invalid sequence replaced by U+FFFD.
pub uninterp spec fn utf8_lossy(bytes: Seq<u8>) -> Seq<char>;

/// `String::from_utf8_lossy`: the bytes decoded as UTF-8, with each invalid
/// sequence replaced by U+FFFD; the result is named by `utf8_lossy`.
#[verifier::external_body]
pub(crate) fn lossy_string(b: &[u8]) -> (r: String)
    ensures
        r@ == utf8_lossy(b@),
{
    String::from_utf8_lossy(b).into_owned()
}

/// `s` with every match of `from` replaced by `to`, scanning from the left:
/// where `from` begins, it is replaced and the scan goes on after it;
/// elsewhere one character is kept.
pub open spec fn replace_all(s: Seq<char>, from: Seq<char>, to: Seq<char>) -> Seq<char>
    decreases s.len(),
{
    if from.len() == 0 || s.len() == 0 {
        s
    } else if s.len() >= from.len() && s.take(from.len() as int) == from {
        to + replace_all(s.skip(from.len() as int), from, to)
    } else {
        seq![s[0]] + replace_all(s.drop_first(), from, to)
    }
}

/// `str::replace` with a non-empty pattern: every leftmost non-overlapping
/// match of `from` replaced by `to`, as `replace_all` states.
#[verifier::external_body]
pub(crate) fn replace_str(s: &str, from: &str, to: &str) -> (r: String)
    requires
        from@.len() > 0,
    ensures
        r@ == replace_all(s@, from@, to@),
{
    s.replace(from, to)
}

/// `from` occurs nowhere in `s`.
pub open spec fn occurs_nowhere(s: Seq<char>, from: Seq<char>) -> bool {
    forall|i: int|
        0 <= i && i + from.len() <= s.len() ==> #[trigger] s.subrange(i, i + from.len()) != from
}

/// Replacing a pattern that occurs nowhere leaves the text as it is: a page
/// without a closing body tag is served unchanged.
pub proof fn law_replace_without_match(s: Seq<char>, from: Seq<char>, to: Seq<char>)
    requires
        from.len() > 0,
        occurs_nowhere(s, from),
    ensures
        replace_all(s, from, to) == s,
    decreases s.len(),
{
    if s.len() > 0 {
        if s.len() >= from.len() {
            assert(s.subrange(0int, 0int + from.len()) =~= s.take(from.len() as int));
            assert(s.subrange(0int, 0int + from.len()) != from);
        }
        assert(!(s.len() >= from.len() && s.take(from.len() as int) == from));
        let t = s.drop_first();
        assert forall|i: int| 0 <= i && i + from.len() <= t.len() implies #[trigger] t.subrange(
            i,
            i + from.len(),
        ) != from by {
            assert(t.subrange(i, i + from.len()) =~= s.subrange(i + 1, i + 1 + from.len()));
        }
        law_replace_without_match(t, from, to);
        assert(replace_all(s, from, to) == seq![s[0]] + replace_all(t, from, to));
        assert(seq![s[0]] + t =~= s);
    }
}

/// The replacement text takes the place of a match that starts the text.
pub proof fn law_replace_leading_match(rest: Seq<char>, from: Seq<char>, to: Seq<char>)
    requires
        from.len() > 0,
    ensures
        replace_all(from + rest, from, to) == to + replace_all(rest, from, to),
{
    let s = from + rest;
    assert(s.take(from.len() as int) =~= from);
    assert(s.skip(from.len() as int) =~= rest);
}

} // verus!
