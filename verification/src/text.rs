//! Text: the UTF-16 that Win32 takes, decimal numbers, and the few string operations that the
//! settings and the messages of the system tools need.

use vstd::arithmetic::power::pow;
use vstd::prelude::*;

verus! {

/// The UTF-16 code units of one character: itself, or a surrogate pair.
pub open spec fn utf16_units(c: char) -> Seq<u16> {
    let v = c as u32;
    if v < 0x10000 {
        seq![v as u16]
    } else {
        seq![(0xD800 + (v - 0x10000) / 0x400) as u16, (0xDC00 + (v - 0x10000) % 0x400) as u16]
    }
}

/// A text in UTF-16.
pub open spec fn utf16(s: Seq<char>) -> Seq<u16>
    decreases s.len(),
{
    if s.len() == 0 {
        seq![]
    } else {
        utf16(s.drop_last()) + utf16_units(s.last())
    }
}

/// The characters of a string, for access by index.
pub(crate) fn chars_of(s: &str) -> (v: Vec<char>)
    ensures
        v@ == s@,
{
    let mut v: Vec<char> = Vec::new();
    for c in it: s.chars()
        invariant
            it.seq() == s@,
            v@ == it.seq().take(it.index() as int),
    {
        v.push(c);
    }
    v
}

/// NUL-terminated UTF-16 for Win32 string parameters.
pub fn wide(s: &str) -> (units: Vec<u16>)
    ensures
        units@ == utf16(s@).push(0),
{
    let chars = chars_of(s);
    let mut units: Vec<u16> = Vec::new();
    assert(s@.take(0) =~= seq![]);
    for i in 0..chars.len()
        invariant
            chars@ == s@,
            units@ == utf16(s@.take(i as int)),
    {
        let c = chars[i];
        let v: u32 = c as u32;
        proof {
            assert(s@.take(i + 1).drop_last() =~= s@.take(i as int));
            vstd::utf8::char_is_scalar(c);
        }
        if v < 0x10000 {
            units.push(v as u16);
        } else {
            units.push((0xD800 + (v - 0x10000) / 0x400) as u16);
            units.push((0xDC00 + (v - 0x10000) % 0x400) as u16);
        }
        assert(units@ =~= utf16(s@.take(i as int)) + utf16_units(c));
    }
    assert(s@.take(chars.len() as int) =~= s@);
    units.push(0);
    units
}

/// Win32 reads a string up to its first NUL. A text without one reaches it whole: the unit that
/// [`wide`] appends is the only zero.
pub proof fn law_wide_is_read_whole(s: Seq<char>)
    requires
        forall|i: int| 0 <= i < s.len() ==> #[trigger] s[i] != '\0',
    ensures
        forall|i: int| 0 <= i < utf16(s).len() ==> #[trigger] utf16(s).push(0)[i] != 0,
        utf16(s).push(0)[utf16(s).len() as int] == 0,
    decreases s.len(),
{
    if s.len() > 0 {
        let rest = s.drop_last();
        let c = s.last();
        assert forall|i: int| 0 <= i < rest.len() implies #[trigger] rest[i] != '\0' by {
            assert(rest[i] == s[i]);
        }
        law_wide_is_read_whole(rest);
        vstd::utf8::char_is_scalar(c);
        assert(s[s.len() - 1] != '\0');
        vstd::utf8::char_u32_cast(c, c as u32);
        assert(c as u32 != 0);
        assert forall|i: int| 0 <= i < utf16(s).len() implies #[trigger] utf16(s).push(0)[i]
            != 0 by {
            if i < utf16(rest).len() {
                assert(utf16(s).push(0)[i] == utf16(rest).push(0)[i]);
            } else {
                assert(utf16(s).push(0)[i] == utf16_units(c)[i - utf16(rest).len()]);
            }
        }
    }
}

/// Two texts with the same UTF-16 are the same text.
pub proof fn law_wide_is_injective(a: Seq<char>, b: Seq<char>)
    requires
        utf16(a) == utf16(b),
    ensures
        a == b,
    decreases a.len(),
{
    if a.len() == 0 {
        if b.len() > 0 {
            assert(utf16(b).len() > 0);
        }
        assert(a =~= b);
    } else if b.len() == 0 {
        assert(utf16(a).len() > 0);
    } else {
        let ua = utf16_units(a.last());
        let ub = utf16_units(b.last());
        let w = utf16(a);
        vstd::utf8::char_is_scalar(a.last());
        vstd::utf8::char_is_scalar(b.last());
        assert(w.last() == ua.last());
        assert(w.last() == ub.last());
        if ua.len() == 2 {
            assert(w[w.len() - 2] == ua[0]);
        }
        if ub.len() == 2 {
            assert(w[w.len() - 2] == ub[0]);
        }
        assert(a.last() as u32 == b.last() as u32);
        vstd::utf8::char_u32_cast(a.last(), a.last() as u32);
        vstd::utf8::char_u32_cast(b.last(), b.last() as u32);
        assert(a.last() == b.last());
        assert(utf16(a.drop_last()) =~= w.take(w.len() - ua.len()));
        assert(utf16(b.drop_last()) =~= w.take(w.len() - ub.len()));
        law_wide_is_injective(a.drop_last(), b.drop_last());
        assert(a =~= a.drop_last().push(a.last()));
        assert(b =~= b.drop_last().push(b.last()));
    }
}

/// A character up to U+FFFF is its own unit. Any other is a high and a low surrogate, which hold
/// its distance from U+10000: ten bits each, the upper ones first.
pub proof fn law_wide_encodes_characters(c: char)
    ensures
        c as u32 <= 0xFFFF ==> utf16(seq![c]).len() == 1 && utf16(seq![c])[0] == c as u32,
        c as u32 > 0xFFFF ==> {
            let units = utf16(seq![c]);
            &&& units.len() == 2
            &&& 0xD800 <= units[0] <= 0xDBFF
            &&& 0xDC00 <= units[1] <= 0xDFFF
            &&& c as u32 == 0x10000 + (units[0] - 0xD800) * 0x400 + (units[1] - 0xDC00)
        },
{
    vstd::utf8::char_is_scalar(c);
    assert(seq![c].drop_last() =~= seq![]);
    assert(utf16(seq![c].drop_last()) =~= seq![]);
    assert(utf16(seq![c]) =~= utf16_units(c));
}

/// The UTF-16 of two texts in a row is that of the one, then that of the other.
pub proof fn law_wide_appends(a: Seq<char>, b: Seq<char>)
    ensures
        utf16(a + b) == utf16(a) + utf16(b),
    decreases b.len(),
{
    if b.len() == 0 {
        assert(a + b =~= a);
        assert(utf16(a) + utf16(b) =~= utf16(a));
    } else {
        assert((a + b).drop_last() =~= a + b.drop_last());
        law_wide_appends(a, b.drop_last());
        assert(utf16(a + b) =~= utf16(a) + utf16(b));
    }
}

/// A text of characters up to U+FFFF has one unit for each: the character itself.
pub proof fn law_wide_of_plain_text(s: Seq<char>)
    requires
        forall|i: int| 0 <= i < s.len() ==> (#[trigger] s[i]) as u32 <= 0xFFFF,
    ensures
        utf16(s).len() == s.len(),
        forall|i: int| 0 <= i < s.len() ==> #[trigger] utf16(s)[i] == s[i] as u32,
    decreases s.len(),
{
    if s.len() > 0 {
        let rest = s.drop_last();
        assert forall|i: int| 0 <= i < rest.len() implies (#[trigger] rest[i]) as u32 <= 0xFFFF by {
            assert(rest[i] == s[i]);
        }
        law_wide_of_plain_text(rest);
        vstd::utf8::char_is_scalar(s.last());
        assert(s[s.len() - 1] as u32 <= 0xFFFF);
        assert forall|i: int| 0 <= i < s.len() implies #[trigger] utf16(s)[i] == s[i] as u32 by {
            if i < rest.len() {
                assert(utf16(s)[i] == utf16(rest)[i]);
            }
        }
    }
}

/// The decimal digit of a number below ten.
pub open spec fn digit_char(n: int) -> char {
    (0x30 + n) as u8 as char
}

/// A number in decimal, without leading zeros.
pub open spec fn decimal_text(n: nat) -> Seq<char>
    decreases n,
{
    if n < 10 {
        seq![digit_char(n as int)]
    } else {
        decimal_text(n / 10).push(digit_char((n % 10) as int))
    }
}

/// One decimal digit as text.
pub(crate) fn digit(n: u64) -> (s: &'static str)
    requires
        n < 10,
    ensures
        s@ == seq![digit_char(n as int)],
{
    proof {
        reveal_strlit("0");
        reveal_strlit("1");
        reveal_strlit("2");
        reveal_strlit("3");
        reveal_strlit("4");
        reveal_strlit("5");
        reveal_strlit("6");
        reveal_strlit("7");
        reveal_strlit("8");
        reveal_strlit("9");
    }
    let s = match n {
        0 => "0",
        1 => "1",
        2 => "2",
        3 => "3",
        4 => "4",
        5 => "5",
        6 => "6",
        7 => "7",
        8 => "8",
        _ => "9",
    };
    assert(s@ =~= seq![digit_char(n as int)]);
    s
}

/// A number in decimal, as every message shows it.
pub fn decimal(n: u64) -> (s: String)
    ensures
        s@ == decimal_text(n as nat),
    decreases n,
{
    if n < 10 {
        digit(n).to_owned()
    } else {
        let s = decimal(n / 10).concat(digit(n % 10));
        assert(s@ =~= decimal_text(n as nat));
        s
    }
}

/// Unicode's `White_Space` property.
pub open spec fn is_white_space(c: char) -> bool {
    let v = c as u32;
    ||| 0x09 <= v <= 0x0D
    ||| v == 0x20
    ||| v == 0x85
    ||| v == 0xA0
    ||| v == 0x1680
    ||| 0x2000 <= v <= 0x200A
    ||| v == 0x2028
    ||| v == 0x2029
    ||| v == 0x202F
    ||| v == 0x205F
    ||| v == 0x3000
}

/// A text without the white space at its two ends.
pub open spec fn trimmed(s: Seq<char>) -> Seq<char>
    decreases s.len(),
{
    if s.len() > 0 && is_white_space(s[0]) {
        trimmed(s.drop_first())
    } else if s.len() > 0 && is_white_space(s.last()) {
        trimmed(s.drop_last())
    } else {
        s
    }
}

fn white_space(c: char) -> (yes: bool)
    ensures
        yes == is_white_space(c),
{
    let v: u32 = c as u32;
    (0x09 <= v && v <= 0x0D) || v == 0x20 || v == 0x85 || v == 0xA0 || v == 0x1680 || (0x2000 <= v
        && v <= 0x200A) || v == 0x2028 || v == 0x2029 || v == 0x202F || v == 0x205F || v == 0x3000
}

/// Drops the white space at both ends.
pub fn trim(s: &str) -> (t: &str)
    ensures
        t@ == trimmed(s@),
{
    let chars = chars_of(s);
    let mut from: usize = 0;
    let mut to: usize = chars.len();
    assert(s@.subrange(0, chars.len() as int) =~= s@);
    while from < to && white_space(chars[from])
        invariant
            chars@ == s@,
            from <= to == chars.len(),
            trimmed(s@.subrange(from as int, to as int)) == trimmed(s@),
        decreases to - from,
    {
        assert(s@.subrange(from as int, to as int).drop_first() =~= s@.subrange(
            from + 1,
            to as int,
        ));
        from = from + 1;
    }
    while from < to && white_space(chars[to - 1])
        invariant
            chars@ == s@,
            from <= to <= chars.len(),
            from < to ==> !is_white_space(s@[from as int]),
            trimmed(s@.subrange(from as int, to as int)) == trimmed(s@),
        decreases to - from,
    {
        assert(s@.subrange(from as int, to as int).drop_last() =~= s@.subrange(
            from as int,
            to - 1,
        ));
        to = to - 1;
    }
    s.substring_char(from, to)
}

/// True of the ten ASCII digits.
pub open spec fn is_digit(c: char) -> bool {
    '0' <= c <= '9'
}

/// The number that a sequence of digits spells.
pub open spec fn digits_value(s: Seq<char>) -> nat
    decreases s.len(),
{
    if s.len() == 0 {
        0
    } else {
        (digits_value(s.drop_last()) * 10 + (s.last() as u32 - 0x30)) as nat
    }
}

/// True of a sequence of digits.
pub open spec fn all_digits(s: Seq<char>) -> bool {
    forall|i: int| 0 <= i < s.len() ==> is_digit(#[trigger] s[i])
}

/// A text without the plus sign that it may start with.
pub open spec fn unsigned_part(s: Seq<char>) -> Seq<char> {
    if s.len() > 0 && s[0] == '+' {
        s.drop_first()
    } else {
        s
    }
}

/// The number that a text spells if it is one: an optional plus sign, then digits, at least one.
pub open spec fn number_value(s: Seq<char>) -> Option<nat> {
    let digits = unsigned_part(s);
    if digits.len() > 0 && all_digits(digits) {
        Some(digits_value(digits))
    } else {
        None
    }
}

proof fn lemma_prefix_value(s: Seq<char>, n: int)
    requires
        0 <= n <= s.len(),
        all_digits(s),
    ensures
        digits_value(s.take(n)) <= digits_value(s),
    decreases s.len(),
{
    if n == s.len() {
        assert(s.take(n) =~= s);
    } else {
        lemma_prefix_value(s.drop_last(), n);
        assert(s.drop_last().take(n) =~= s.take(n));
        assert(is_digit(s[s.len() - 1]));
    }
}

/// The number that a text spells, if it is one of at most `max`.
pub open spec fn number_up_to(s: Seq<char>, max: u64) -> Option<u64> {
    match number_value(s) {
        Some(v) => if v <= max {
            Some(v as u64)
        } else {
            None
        },
        None => None,
    }
}

/// A number is read if and only if the text spells one that is not too great, and as that number.
pub proof fn law_number_is_read_up_to(s: Seq<char>, max: u64, n: u64)
    ensures
        number_up_to(s, max) == Some(n) <==> number_value(s) == Some(n as nat) && n <= max,
{
}

/// Reads a number of at most `max`.
pub fn parse_number(s: &str, max: u64) -> (n: Option<u64>)
    ensures
        n == number_up_to(s@, max),
{
    let chars = chars_of(s);
    let from: usize = if chars.len() > 0 && chars[0] == '+' {
        1
    } else {
        0
    };
    let ghost digits = unsigned_part(s@);
    assert(digits =~= s@.skip(from as int));
    if from == chars.len() {
        return None;
    }
    let mut value: u64 = 0;
    assert(digits.take(0) =~= seq![]);
    for i in from..chars.len()
        invariant
            chars@ == s@,
            from < chars.len(),
            digits == unsigned_part(s@),
            digits == s@.skip(from as int),
            forall|j: int| 0 <= j < i - from ==> is_digit(#[trigger] digits[j]),
            value == digits_value(digits.take(i - from)),
            value <= max,
    {
        let c = chars[i];
        assert(digits[i - from] == c);
        if !('0' <= c && c <= '9') {
            assert(!is_digit(digits[i - from]));
            return None;
        }
        let d: u64 = c as u64 - 0x30;
        let ghost next = digits.take(i - from + 1);
        proof {
            assert(next.drop_last() =~= digits.take(i - from));
            assert(next.last() == c);
            assert(digits_value(next) == value * 10 + d);
        }
        if d > max || value > (max - d) / 10 {
            proof {
                assert(value * 10 + d > max);
                if number_value(s@) is Some {
                    lemma_prefix_value(digits, i - from + 1);
                }
            }
            return None;
        }
        value = value * 10 + d;
    }
    assert(digits.take(digits.len() as int) =~= digits);
    Some(value)
}

proof fn lemma_decimal_digits(n: nat)
    ensures
        decimal_text(n).len() > 0,
        all_digits(decimal_text(n)),
        digits_value(decimal_text(n)) == n,
    decreases n,
{
    let s = decimal_text(n);
    if n < 10 {
        assert(s.drop_last() =~= seq![]);
        assert(digits_value(s.drop_last()) == 0);
    } else {
        lemma_decimal_digits(n / 10);
        assert(s.drop_last() =~= decimal_text(n / 10));
        assert forall|i: int| 0 <= i < s.len() implies is_digit(#[trigger] s[i]) by {
            if i < s.len() - 1 {
                assert(s[i] == decimal_text(n / 10)[i]);
            }
        }
    }
}

/// A number in decimal is made of digits, which spell it, and starts with a zero only if it is zero.
pub proof fn law_decimal_has_no_leading_zero(n: nat)
    ensures
        decimal_text(n).len() > 0,
        all_digits(decimal_text(n)),
        digits_value(decimal_text(n)) == n,
        decimal_text(n)[0] == '0' ==> n == 0,
    decreases n,
{
    lemma_decimal_digits(n);
    if n >= 10 {
        law_decimal_has_no_leading_zero(n / 10);
        assert(decimal_text(n)[0] == decimal_text(n / 10)[0]);
    }
}

/// A number below a power of ten has no more digits than that power has zeros.
pub proof fn law_decimal_length(n: nat, digits: nat)
    requires
        n < pow(10, digits),
        digits > 0,
    ensures
        decimal_text(n).len() <= digits,
    decreases digits,
{
    reveal(pow);
    if n >= 10 {
        if digits == 1 {
            assert(pow(10, 0) == 1);
        }
        law_decimal_length(n / 10, (digits - 1) as nat);
    }
}

/// The numbers are the texts of digits, at least one, with or without a plus sign before them.
pub proof fn law_numbers_are_digits(s: Seq<char>)
    ensures
        number_value(s) is Some <==> {
            &&& s.len() > 0
            &&& s[0] == '+' ==> s.len() > 1
            &&& forall|i: int|
                0 <= i < s.len() ==> '0' <= #[trigger] s[i] <= '9' || (i == 0 && s[i] == '+')
        },
{
    let digits = unsigned_part(s);
    let from = s.len() - digits.len();
    assert(forall|i: int| 0 <= i < digits.len() ==> #[trigger] digits[i] == s[i + from]);
    if number_value(s) is Some {
        assert forall|i: int| 0 <= i < s.len() implies '0' <= #[trigger] s[i] <= '9' || (i == 0
            && s[i] == '+') by {
            if i >= from {
                assert(is_digit(digits[i - from]));
            }
        }
    }
}

/// A digit is the number that it stands for; one more digit makes a number ten times as great and
/// adds itself; a plus sign before a digit changes nothing.
pub proof fn law_numbers_are_decimal(s: Seq<char>, c: char)
    requires
        '0' <= c <= '9',
    ensures
        number_value(seq![c]) == Some((c as u32 - '0' as u32) as nat),
        number_value(s) matches Some(n) ==> number_value(s.push(c)) == Some(
            (10 * n + (c as u32 - '0' as u32)) as nat,
        ),
        number_value(seq!['+', c]) == number_value(seq![c]),
{
    let one = seq![c];
    assert(one.drop_last() =~= seq![]);
    assert(digits_value(one.drop_last()) == 0);
    assert(unsigned_part(one) == one);
    assert(all_digits(one));
    assert(unsigned_part(seq!['+', c]) =~= one);
    if number_value(s) is Some {
        let digits = unsigned_part(s);
        let more = unsigned_part(s.push(c));
        assert(more =~= digits.push(c));
        assert(more.drop_last() =~= digits);
        assert forall|i: int| 0 <= i < more.len() implies is_digit(#[trigger] more[i]) by {
            if i < digits.len() {
                assert(more[i] == digits[i]);
            }
        }
    }
}

/// A number reads back as itself from its decimal text, with or without white space around it.
pub proof fn law_decimal_reads_back(n: nat, s: Seq<char>)
    requires
        trimmed(s) == decimal_text(n),
    ensures
        number_value(trimmed(s)) == Some(n),
        trimmed(decimal_text(n)) == decimal_text(n),
{
    lemma_decimal_digits(n);
    let t = decimal_text(n);
    assert(is_digit(t[0]));
    assert(is_digit(t[t.len() - 1]));
}

/// A trimmed text has no white space at either end, and trimming it again changes nothing.
pub proof fn law_trimmed_ends(s: Seq<char>)
    ensures
        trimmed(s).len() > 0 ==> !is_white_space(trimmed(s)[0]) && !is_white_space(
            trimmed(s).last(),
        ),
        trimmed(trimmed(s)) == trimmed(s),
    decreases s.len(),
{
    if s.len() > 0 && is_white_space(s[0]) {
        law_trimmed_ends(s.drop_first());
    } else if s.len() > 0 && is_white_space(s.last()) {
        law_trimmed_ends(s.drop_last());
    }
}

/// Trimming takes white space away, and nothing else, and only from the two ends.
pub proof fn law_trim_drops_only_space(s: Seq<char>) -> (ends: (int, int))
    ensures
        0 <= ends.0 <= ends.1 <= s.len(),
        trimmed(s) == s.subrange(ends.0, ends.1),
        forall|i: int|
            0 <= i < ends.0 || ends.1 <= i < s.len() ==> is_white_space(#[trigger] s[i]),
    decreases s.len(),
{
    if s.len() > 0 && is_white_space(s[0]) {
        let rest = s.drop_first();
        let (a, b) = law_trim_drops_only_space(rest);
        assert(rest.subrange(a, b) =~= s.subrange(a + 1, b + 1));
        assert forall|i: int| 0 <= i < a + 1 || b + 1 <= i < s.len() implies is_white_space(
            #[trigger] s[i],
        ) by {
            if i > 0 {
                assert(s[i] == rest[i - 1]);
            }
        }
        (a + 1, b + 1)
    } else if s.len() > 0 && is_white_space(s.last()) {
        let rest = s.drop_last();
        let (a, b) = law_trim_drops_only_space(rest);
        assert(rest.subrange(a, b) =~= s.subrange(a, b));
        assert forall|i: int| 0 <= i < a || b <= i < s.len() implies is_white_space(
            #[trigger] s[i],
        ) by {
            if i < rest.len() {
                assert(s[i] == rest[i]);
            }
        }
        (a, b)
    } else {
        assert(s.subrange(0, s.len() as int) =~= s);
        (0, s.len() as int)
    }
}

/// White space is the space, the tabs, the ends of lines and pages, and the spaces of other scripts
/// and widths; nothing that leaves a mark is.
pub proof fn law_white_space(c: char)
    ensures
        is_white_space(c) <==> {
            ||| c == ' ' || c == '\t' || c == '\n' || c == '\r' || c == '\u{B}' || c == '\u{C}'
            ||| c == '\u{85}' || c == '\u{A0}' || c == '\u{1680}' || c == '\u{3000}'
            ||| c == '\u{2028}' || c == '\u{2029}' || c == '\u{202F}' || c == '\u{205F}'
            ||| '\u{2000}' <= c <= '\u{200A}'
        },
{
    vstd::utf8::char_u32_cast(c, c as u32);
}

/// A part occurs in a text if and only if the text is something, then the part, then something.
pub proof fn law_occurs_within(s: Seq<char>, part: Seq<char>, before: Seq<char>, after: Seq<char>)
    ensures
        occurs(before + part + after, part),
        occurs(s, part) ==> exists|a: Seq<char>, b: Seq<char>| s == #[trigger] (a + part + b),
{
    let text = before + part + after;
    assert(text.subrange(before.len() as int, before.len() as int + part.len()) =~= part);
    if occurs(s, part) {
        let at = choose|at: int|
            0 <= at <= s.len() - part.len() && #[trigger] s.subrange(at, at + part.len()) == part;
        let (a, b) = (s.take(at), s.skip(at + part.len()));
        let found = s.subrange(at, at + part.len());
        assert forall|i: int| 0 <= i < part.len() implies s[at + i] == #[trigger] part[i] by {
            assert(found[i] == part[i]);
        }
        assert(s =~= a + part + b);
    }
}

/// True when `part` occurs in `s`.
pub open spec fn occurs(s: Seq<char>, part: Seq<char>) -> bool {
    exists|at: int|
        0 <= at <= s.len() - part.len() && #[trigger] s.subrange(at, at + part.len()) == part
}

/// Trimming a text loses no word in it.
pub proof fn law_trim_keeps_words(s: Seq<char>, part: Seq<char>)
    requires
        part.len() > 0,
        !is_white_space(part[0]),
        !is_white_space(part.last()),
        occurs(s, part),
    ensures
        occurs(trimmed(s), part),
    decreases s.len(),
{
    let at = choose|at: int|
        0 <= at <= s.len() - part.len() && #[trigger] s.subrange(at, at + part.len()) == part;
    let found = s.subrange(at, at + part.len());
    assert(found[0] == s[at]);
    assert(found[part.len() - 1] == s[at + part.len() - 1]);
    if is_white_space(s[0]) {
        let rest = s.drop_first();
        assert(rest.subrange(at - 1, at - 1 + part.len()) =~= part);
        law_trim_keeps_words(rest, part);
    } else if is_white_space(s.last()) {
        let rest = s.drop_last();
        assert(rest.subrange(at, at + part.len()) =~= part);
        law_trim_keeps_words(rest, part);
    }
}

/// Tells whether `part` occurs in `s`.
pub fn contains(s: &str, part: &str) -> (yes: bool)
    ensures
        yes == occurs(s@, part@),
{
    let text = chars_of(s);
    let word = chars_of(part);
    if word.len() > text.len() {
        return false;
    }
    let last: usize = text.len() - word.len();
    let mut at: usize = 0;
    loop
        invariant
            text@ == s@,
            word@ == part@,
            last + word.len() == text.len(),
            at <= last,
            forall|k: int|
                0 <= k < at ==> #[trigger] s@.subrange(k, k + part@.len()) != part@,
        decreases last - at,
    {
        let mut n: usize = 0;
        while n < word.len() && text[at + n] == word[n]
            invariant
                text@ == s@,
                word@ == part@,
                n <= word.len(),
                at + word.len() <= text.len(),
                forall|j: int| 0 <= j < n ==> s@[at + j] == #[trigger] part@[j],
            decreases word.len() - n,
        {
            n = n + 1;
        }
        if n == word.len() {
            assert(s@.subrange(at as int, at + part@.len()) =~= part@);
            return true;
        }
        assert(s@.subrange(at as int, at + part@.len())[n as int] != part@[n as int]);
        if at == last {
            return false;
        }
        at = at + 1;
    }
}

/// Tells whether two texts are the same.
pub fn same_text(a: &str, b: &str) -> (yes: bool)
    ensures
        yes == (a@ == b@),
{
    a.to_owned() == b.to_owned()
}

} // verus!
