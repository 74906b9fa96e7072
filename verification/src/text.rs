//! Characters and character sequences: classification, conversion between
//! strings and vectors of characters, and the reading of decimal numbers.
use vstd::prelude::*;

verus! {

/// The characters with the Unicode property `White_Space`.
pub open spec fn is_whitespace(c: char) -> bool {
    ||| '\u{9}' <= c <= '\u{d}'
    ||| c == ' '
    ||| c == '\u{85}'
    ||| c == '\u{a0}'
    ||| c == '\u{1680}'
    ||| '\u{2000}' <= c <= '\u{200a}'
    ||| c == '\u{2028}'
    ||| c == '\u{2029}'
    ||| c == '\u{202f}'
    ||| c == '\u{205f}'
    ||| c == '\u{3000}'
}

/// Tells whether `c` is white space.
pub fn char_is_whitespace(c: char) -> (b: bool)
    ensures
        b == is_whitespace(c),
{
    ('\u{9}' <= c && c <= '\u{d}') || c == ' ' || c == '\u{85}' || c == '\u{a0}' || c
        == '\u{1680}' || ('\u{2000}' <= c && c <= '\u{200a}') || c == '\u{2028}' || c
        == '\u{2029}' || c == '\u{202f}' || c == '\u{205f}' || c == '\u{3000}'
}

/// A run of `n` copies of `c`.
pub open spec fn repeated(c: char, n: nat) -> Seq<char> {
    Seq::new(n, |i: int| c)
}

/// The characters of `s`, in order.
pub fn chars_of(s: &str) -> (v: Vec<char>)
    ensures
        v@ == s@,
{
    let mut v: Vec<char> = Vec::new();
    for c in it: s.chars()
        invariant
            v@ == it.seq().take(it.index() as int),
            it.seq() == s@,
    {
        v.push(c);
    }
    assert(v@ =~= s@);
    v
}

/// `String::push` of the standard library: the string afterwards is the string
/// before with the one character `c` appended. Taken from its documentation,
/// not proved here.
pub assume_specification[ String::push ](s: &mut String, c: char)
    ensures
        final(s)@ == old(s)@.push(c),
;

/// Appends the characters `chars[from..to]` to `out`.
pub fn push_range(out: &mut String, chars: &Vec<char>, from: usize, to: usize)
    requires
        from <= to <= chars@.len(),
    ensures
        final(out)@ == old(out)@ + chars@.subrange(from as int, to as int),
{
    let mut i: usize = from;
    while i < to
        invariant
            from <= i <= to <= chars@.len(),
            out@ == old(out)@ + chars@.subrange(from as int, i as int),
        decreases to - i,
    {
        out.push(chars[i]);
        i += 1;
        assert(out@ =~= old(out)@ + chars@.subrange(from as int, i as int));
    }
}

/// The string made of the characters `chars[from..to]`.
pub fn string_of_range(chars: &Vec<char>, from: usize, to: usize) -> (s: String)
    requires
        from <= to <= chars@.len(),
    ensures
        s@ == chars@.subrange(from as int, to as int),
{
    let mut s = String::new();
    push_range(&mut s, chars, from, to);
    assert(s@ =~= chars@.subrange(from as int, to as int));
    s
}

/// The string made of all of `chars`.
pub fn string_of(chars: &Vec<char>) -> (s: String)
    ensures
        s@ == chars@,
{
    let s = string_of_range(chars, 0, chars.len());
    assert(chars@.subrange(0, chars@.len() as int) =~= chars@);
    s
}

/// Appends the characters of `s` to `out`.
pub fn push_chars(out: &mut Vec<char>, s: &str)
    ensures
        final(out)@ == old(out)@ + s@,
{
    for c in it: s.chars()
        invariant
            out@ == old(out)@ + it.seq().take(it.index() as int),
            it.seq() == s@,
    {
        out.push(c);
        assert(out@ =~= old(out)@ + it.seq().take(it.index() + 1));
    }
    assert(s@.take(s@.len() as int) =~= s@);
}

/// Tells whether two strings hold the same characters.
pub fn str_eq(a: &str, b: &str) -> (same: bool)
    ensures
        same == (a@ == b@),
{
    let len = b.unicode_len();
    let mut at: usize = 0;
    for c in it: a.chars()
        invariant
            it.seq() == a@,
            at == it.index(),
            at <= len,
            len == b@.len(),
            a@.take(at as int) == b@.take(at as int),
    {
        if at >= len || b.get_char(at) != c {
            return false;
        }
        at += 1;
        assert(a@.take(at as int) =~= a@.take(at - 1).push(a@[at - 1]));
        assert(b@.take(at as int) =~= b@.take(at - 1).push(b@[at - 1]));
    }
    assert(a@ =~= a@.take(at as int));
    if at == len {
        assert(b@ =~= b@.take(at as int));
    }
    at == len
}

/// Tells whether `chars` begins with the characters of `prefix`.
pub fn starts_with(chars: &Vec<char>, prefix: &str) -> (starts: bool)
    ensures
        starts == prefix@.is_prefix_of(chars@),
{
    let len = chars.len();
    let mut at: usize = 0;
    for c in it: prefix.chars()
        invariant
            it.seq() == prefix@,
            at == it.index(),
            at <= len,
            len == chars@.len(),
            prefix@.take(at as int) == chars@.take(at as int),
    {
        if at >= len || chars[at] != c {
            assert(!prefix@.is_prefix_of(chars@)) by {
                if at < len && prefix@.is_prefix_of(chars@) {
                    assert(chars@.subrange(0, prefix@.len() as int)[at as int] == prefix@[at as int]);
                }
            }
            return false;
        }
        at += 1;
        assert(prefix@.take(at as int) =~= prefix@.take(at - 1).push(prefix@[at - 1]));
        assert(chars@.take(at as int) =~= chars@.take(at - 1).push(chars@[at - 1]));
    }
    assert(prefix@ =~= prefix@.take(at as int));
    assert(chars@.take(at as int) =~= chars@.subrange(0, prefix@.len() as int));
    true
}

/// Whether `c` is one of the digits `0` to `9`.
pub open spec fn is_digit(c: char) -> bool {
    '0' <= c <= '9'
}

/// The number that the digit `c` stands for.
pub open spec fn digit_value(c: char) -> nat
    recommends
        is_digit(c),
{
    (c as int - '0' as int) as nat
}

/// Whether `s` holds digits only.
pub open spec fn all_digits(s: Seq<char>) -> bool {
    forall|i: int| 0 <= i < s.len() ==> is_digit(#[trigger] s[i])
}

/// The number that the digits `s` stand for in base ten; 0 for no digits.
pub open spec fn digits_value(s: Seq<char>) -> nat
    decreases s.len(),
{
    if s.len() == 0 {
        0
    } else {
        digits_value(s.drop_last()) * 10 + digit_value(s.last())
    }
}

/// `s` without a leading `+`.
pub open spec fn unsigned_part(s: Seq<char>) -> Seq<char> {
    if s.len() > 0 && s[0] == '+' {
        s.skip(1)
    } else {
        s
    }
}

/// The number that `s` stands for, if `s` is one or more digits, with or
/// without a `+` before them.
pub open spec fn decimal_number(s: Seq<char>) -> Option<nat> {
    let digits = unsigned_part(s);
    if digits.len() > 0 && all_digits(digits) {
        Some(digits_value(digits))
    } else {
        None
    }
}

/// [`decimal_number`], as far as it can be held: `None` as well where the
/// number is greater than `usize::MAX`.
pub open spec fn decimal_usize(s: Seq<char>) -> Option<usize> {
    match decimal_number(s) {
        Some(number) => if number <= usize::MAX {
            Some(number as usize)
        } else {
            None
        },
        None => None,
    }
}

/// The position of the first `.` of `s`, or the length of `s`.
pub open spec fn point_position(s: Seq<char>) -> int
    decreases s.len(),
{
    if s.len() == 0 {
        0
    } else if s[0] == '.' {
        0
    } else {
        1 + point_position(s.skip(1))
    }
}

/// The whole part of the decimal fraction that `s` stands for, the fraction
/// cut off; `None` where `s` is no decimal fraction.
///
/// A decimal fraction is written as digits, a `.` and digits, with or without
/// a `+` before them. Either run of digits may be missing, but not both, and
/// without digits behind it the `.` may be missing too.
pub open spec fn truncated_decimal(s: Seq<char>) -> Option<nat> {
    let body = unsigned_part(s);
    let point = point_position(body);
    let whole = body.take(point);
    let fraction = if point < body.len() {
        body.skip(point + 1)
    } else {
        seq![]
    };
    if all_digits(whole) && all_digits(fraction) && whole.len() + fraction.len() > 0 {
        Some(digits_value(whole))
    } else {
        None
    }
}

/// [`point_position`] lies within `s`, no `.` stands before it, and one
/// stands at it unless it is the length of `s`.
pub proof fn lemma_point_position(s: Seq<char>)
    ensures
        0 <= point_position(s) <= s.len(),
        forall|i: int| 0 <= i < point_position(s) ==> s[i] != '.',
        point_position(s) < s.len() ==> s[point_position(s)] == '.',
    decreases s.len(),
{
    if s.len() > 0 && s[0] != '.' {
        lemma_point_position(s.skip(1));
        assert forall|i: int| 0 <= i < point_position(s) implies s[i] != '.' by {
            if i > 0 {
                assert(s[i] == s.skip(1)[i - 1]);
            }
        }
    }
}

/// The number that the digits `chars[from..to]` stand for, or the greatest
/// number that can be held if it is greater. `None` where a character is no
/// digit.
fn read_digits(chars: &Vec<char>, from: usize, to: usize) -> (number: Option<(usize, bool)>)
    requires
        from <= to <= chars@.len(),
    ensures
        match number {
            Some((value, exact)) => {
                &&& all_digits(chars@.subrange(from as int, to as int))
                &&& exact ==> value == digits_value(chars@.subrange(from as int, to as int))
                &&& !exact ==> value == usize::MAX && digits_value(
                    chars@.subrange(from as int, to as int),
                ) > usize::MAX
            },
            None => !all_digits(chars@.subrange(from as int, to as int)),
        },
{
    let ghost digits = chars@.subrange(from as int, to as int);
    let mut value: usize = 0;
    let mut exact = true;
    let mut at: usize = from;
    assert(digits.take(0) =~= seq![]);
    while at < to
        invariant
            from <= at <= to <= chars@.len(),
            digits == chars@.subrange(from as int, to as int),
            all_digits(digits.take(at - from)),
            exact ==> value == digits_value(digits.take(at - from)),
            !exact ==> value == usize::MAX && digits_value(digits.take(at - from)) > usize::MAX,
        decreases to - at,
    {
        let c = chars[at];
        assert(c == digits[at - from]);
        if !('0' <= c && c <= '9') {
            return None;
        }
        let digit = (c as u32 - '0' as u32) as usize;
        let ghost taken = digits.take(at - from + 1);
        assert(taken.drop_last() =~= digits.take(at - from));
        assert(taken.last() == c);
        assert(digits_value(taken) == digits_value(digits.take(at - from)) * 10 + digit);
        if exact {
            if value > (usize::MAX - digit) / 10 {
                exact = false;
                value = usize::MAX;
            } else {
                value = value * 10 + digit;
            }
        }
        at += 1;
    }
    assert(digits.take(to - from) =~= digits);
    Some((value, exact))
}

/// Reads `text` as a number: one or more digits, which a `+` may precede.
/// `None` where `text` is not of that form, or the number cannot be held.
pub fn parse_decimal(text: &str) -> (number: Option<usize>)
    ensures
        number == decimal_usize(text@),
{
    let chars = chars_of(text);
    let len = chars.len();
    let from: usize = if len > 0 && chars[0] == '+' {
        1
    } else {
        0
    };
    assert(chars@.subrange(from as int, len as int) =~= unsigned_part(text@));
    if from == len {
        return None;
    }
    match read_digits(&chars, from, len) {
        Some((value, exact)) => if exact {
            Some(value)
        } else {
            None
        },
        None => None,
    }
}

/// Reads `text` as a decimal fraction and returns its whole part, or the
/// greatest number that can be held if that is less. `None` where `text` is
/// no decimal fraction.
pub fn parse_truncated(text: &str) -> (number: Option<usize>)
    ensures
        match truncated_decimal(text@) {
            Some(whole) => number == Some(
                if whole <= usize::MAX {
                    whole as usize
                } else {
                    usize::MAX
                },
            ),
            None => number is None,
        },
{
    let chars = chars_of(text);
    let len = chars.len();
    let from: usize = if len > 0 && chars[0] == '+' {
        1
    } else {
        0
    };
    let ghost body = unsigned_part(text@);
    assert(chars@.subrange(from as int, len as int) =~= body);
    let mut point: usize = from;
    proof {
        lemma_point_position(body);
    }
    while point < len && chars[point] != '.'
        invariant
            from <= point <= len,
            len == chars@.len(),
            body == chars@.subrange(from as int, len as int),
            forall|i: int| from <= i < point ==> chars@[i] != '.',
        decreases len - point,
    {
        point += 1;
    }
    proof {
        let p = point_position(body);
        if p < point - from {
            assert(body[p] == chars@[from + p]);
        }
        if p > point - from {
            assert(body[point - from] == chars@[point as int]);
        }
        assert(p == point - from);
        assert(chars@.subrange(from as int, point as int) =~= body.take(p));
        if point < len {
            assert(chars@.subrange(point + 1, len as int) =~= body.skip(p + 1));
        }
    }
    let whole = read_digits(&chars, from, point);
    let fraction_from = if point < len {
        point + 1
    } else {
        len
    };
    assert(chars@.subrange(len as int, len as int) =~= seq![]);
    let fraction = read_digits(&chars, fraction_from, len);
    if point - from + (len - fraction_from) == 0 {
        return None;
    }
    match (whole, fraction) {
        (Some((value, _)), Some(_)) => Some(value),
        _ => None,
    }
}

/// The lower case letter for an upper case letter of the ASCII alphabet; any
/// other character is kept.
pub open spec fn ascii_lower(c: char) -> char {
    if 'A' <= c <= 'Z' {
        ((c as int) + 32) as char
    } else {
        c
    }
}

/// Whether `a` and `b` are the same but for the case of ASCII letters.
pub open spec fn same_ignoring_case(a: Seq<char>, b: Seq<char>) -> bool {
    a.map_values(|c: char| ascii_lower(c)) == b.map_values(|c: char| ascii_lower(c))
}

/// The lower case letter for an upper case letter of the ASCII alphabet; any
/// other character is kept.
pub fn to_ascii_lower(c: char) -> (lower: char)
    ensures
        lower == ascii_lower(c),
{
    if 'A' <= c && c <= 'Z' {
        ((c as u8) + 32) as char
    } else {
        c
    }
}

/// Tells whether two strings are the same but for the case of ASCII letters.
pub fn str_eq_ignoring_case(a: &str, b: &str) -> (same: bool)
    ensures
        same == same_ignoring_case(a@, b@),
{
    let len = b.unicode_len();
    let mut at: usize = 0;
    let ghost la = a@.map_values(|c: char| ascii_lower(c));
    let ghost lb = b@.map_values(|c: char| ascii_lower(c));
    for c in it: a.chars()
        invariant
            it.seq() == a@,
            at == it.index(),
            at <= len,
            len == b@.len(),
            la == a@.map_values(|c: char| ascii_lower(c)),
            lb == b@.map_values(|c: char| ascii_lower(c)),
            la.take(at as int) == lb.take(at as int),
    {
        if at >= len || to_ascii_lower(b.get_char(at)) != to_ascii_lower(c) {
            assert(la != lb) by {
                assert(la.len() == a@.len() && lb.len() == b@.len());
                assert(at < a@.len());
                if at < len {
                    assert(la[at as int] == ascii_lower(a@[at as int]));
                    assert(lb[at as int] == ascii_lower(b@[at as int]));
                }
            }
            return false;
        }
        at += 1;
        assert(la.take(at as int) =~= la.take(at - 1).push(la[at - 1]));
        assert(lb.take(at as int) =~= lb.take(at - 1).push(lb[at - 1]));
    }
    assert(la =~= la.take(at as int));
    if at == len {
        assert(lb =~= lb.take(at as int));
    }
    at == len
}

} // verus!
