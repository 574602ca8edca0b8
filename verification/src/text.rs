//! Text as sequences of characters: numbers, white space, search and replacement.

use vstd::prelude::*;

verus! {

/// `String::push` appends one character at the end.
pub assume_specification[ String::push ](s: &mut String, c: char)
    ensures
        final(s)@ == old(s)@.push(c),
;

/// The text that `format!("{:?}", text)` yields for a string: the text in
/// double quotes with its special characters escaped.
pub uninterp spec fn quoted(text: Seq<char>) -> Seq<char>;

/// Calls `format!` with `{:?}` on a string. The result is a function of the
/// text alone, which `quoted` names.
#[verifier::external_body]
pub(crate) fn quote(text: &str) -> (result: String)
    ensures
        result@ == quoted(text@),
{
    format!("{:?}", text)
}

/// The characters of a string, in order.
pub fn chars_of(text: &str) -> (result: Vec<char>)
    ensures
        result@ == text@,
{
    let mut result: Vec<char> = Vec::new();
    for c in iter: text.chars()
        invariant
            iter.seq() == text@,
            result@ == iter.seq().take(iter.index()),
    {
        result.push(c);
    }
    assert(text@.take(text@.len() as int) == text@);
    result
}

/// The string made of `chars[from..to]`.
pub fn string_between(chars: &Vec<char>, from: usize, to: usize) -> (result: String)
    requires
        from <= to <= chars@.len(),
    ensures
        result@ == chars@.subrange(from as int, to as int),
{
    let mut result = String::new();
    let mut i: usize = from;
    while i < to
        invariant
            from <= i <= to <= chars@.len(),
            result@ == chars@.subrange(from as int, i as int),
        decreases to - i,
    {
        result.push(chars[i]);
        i = i + 1;
    }
    result
}

/// The string made of all the given characters.
pub fn string_of(chars: &Vec<char>) -> (result: String)
    ensures
        result@ == chars@,
{
    let result = string_between(chars, 0, chars.len());
    assert(chars@.subrange(0, chars@.len() as int) == chars@);
    result
}

/// Whether two strings hold the same characters.
pub fn same(a: &str, b: &str) -> (result: bool)
    ensures
        result == (a@ == b@),
{
    let left = chars_of(a);
    let right = chars_of(b);
    if left.len() != right.len() {
        return false;
    }
    let mut i: usize = 0;
    while i < left.len()
        invariant
            i <= left@.len() == right@.len(),
            left@ == a@,
            right@ == b@,
            forall|k: int| 0 <= k < i ==> left@[k] == right@[k],
        decreases left@.len() - i,
    {
        if left[i] != right[i] {
            return false;
        }
        i = i + 1;
    }
    assert(a@ =~= b@);
    true
}

/// White space as Unicode defines it.
pub open spec fn white_space(c: char) -> bool {
    ||| '\u{9}' <= c <= '\u{d}'
    ||| c == ' '
    ||| c == '\u{85}'
    ||| c == '\u{a0}'
    ||| c == '\u{1680}'
    ||| '\u{2000}' <= c <= '\u{200a}'
    ||| c == '\u{2028}'
    ||| c == '\u{2029}'
    ||| c == '\u{202f}'
    ||| c == '\u{205f}'
    ||| c == '\u{3000}'
}

pub fn is_white_space(c: char) -> (result: bool)
    ensures
        result == white_space(c),
{
    ('\u{9}' <= c && c <= '\u{d}') || c == ' ' || c == '\u{85}' || c == '\u{a0}' || c == '\u{1680}'
        || ('\u{2000}' <= c && c <= '\u{200a}') || c == '\u{2028}' || c == '\u{2029}' || c
        == '\u{202f}' || c == '\u{205f}' || c == '\u{3000}'
}

/// The control characters of Unicode: C0, delete and C1.
pub open spec fn control_char(c: char) -> bool {
    c < '\u{20}' || '\u{7f}' <= c < '\u{a0}'
}

pub fn is_control_char(c: char) -> (result: bool)
    ensures
        result == control_char(c),
{
    c < '\u{20}' || ('\u{7f}' <= c && c < '\u{a0}')
}

/// `c` with an ASCII capital letter turned into its small one.
pub open spec fn lower(c: char) -> char {
    if 'A' <= c <= 'Z' {
        (c as u8 + 32) as char
    } else {
        c
    }
}

pub open spec fn lowered(s: Seq<char>) -> Seq<char> {
    s.map_values(|c: char| lower(c))
}

pub fn lower_char(c: char) -> (result: char)
    ensures
        result == lower(c),
{
    if 'A' <= c && c <= 'Z' {
        (c as u8 + 32) as char
    } else {
        c
    }
}

pub fn lower_string(text: &str) -> (result: String)
    ensures
        result@ == lowered(text@),
{
    let chars = chars_of(text);
    let mut result = String::new();
    let mut i: usize = 0;
    while i < chars.len()
        invariant
            i <= chars@.len(),
            chars@ == text@,
            result@ == lowered(text@.take(i as int)),
        decreases chars@.len() - i,
    {
        result.push(lower_char(chars[i]));
        i = i + 1;
        assert(lowered(text@.take(i as int)) =~= lowered(text@.take(i - 1)).push(
            lower(text@[i - 1]),
        ));
    }
    assert(text@.take(text@.len() as int) == text@);
    result
}

pub open spec fn digit_char(n: nat) -> char {
    (48 + n) as char
}

/// A natural number written in decimal.
pub open spec fn decimal(n: nat) -> Seq<char>
    decreases n,
{
    if n < 10 {
        seq![digit_char(n)]
    } else {
        decimal(n / 10).push(digit_char(n % 10))
    }
}

pub fn decimal_string(n: u128) -> (result: String)
    ensures
        result@ == decimal(n as nat),
    decreases n,
{
    let mut result = if n < 10 {
        String::new()
    } else {
        decimal_string(n / 10)
    };
    let digit: u8 = (n % 10) as u8;
    result.push((48 + digit) as char);
    assert(result@ =~= decimal(n as nat));
    result
}

pub open spec fn is_digit(c: char) -> bool {
    '0' <= c <= '9'
}

pub open spec fn all_digits(s: Seq<char>) -> bool {
    forall|i: int| 0 <= i < s.len() ==> is_digit(#[trigger] s[i])
}

/// The number that decimal digits stand for.
pub open spec fn digits_value(s: Seq<char>) -> nat
    decreases s.len(),
{
    if s.len() == 0 {
        0
    } else {
        digits_value(s.drop_last()) * 10 + (s.last() as nat - 48) as nat
    }
}

/// The digits of a number without the plus sign that may stand before them.
pub open spec fn number_digits(s: Seq<char>) -> Seq<char> {
    if s.len() > 0 && s[0] == '+' {
        s.skip(1)
    } else {
        s
    }
}

/// The number that a text writes: an optional plus sign and at least one
/// digit, with a value of at most `limit`.
pub open spec fn number_within(s: Seq<char>, limit: nat) -> Option<nat> {
    let digits = number_digits(s);
    if digits.len() > 0 && all_digits(digits) && digits_value(digits) <= limit {
        Some(digits_value(digits))
    } else {
        None
    }
}

proof fn lemma_digits_value_grows(s: Seq<char>, i: int)
    requires
        0 <= i <= s.len(),
    ensures
        digits_value(s.take(i)) <= digits_value(s),
    decreases s.len(),
{
    if i == s.len() {
        assert(s.take(i) == s);
    } else {
        lemma_digits_value_grows(s.drop_last(), i);
        assert(s.drop_last().take(i) == s.take(i));
    }
}

pub fn parse_u64(text: &str) -> (result: Option<u64>)
    ensures
        match result {
            Some(n) => number_within(text@, u64::MAX as nat) == Some(n as nat),
            None => number_within(text@, u64::MAX as nat) is None,
        },
{
    let chars = chars_of(text);
    let start: usize = if chars.len() > 0 && chars[0] == '+' {
        1
    } else {
        0
    };
    let ghost digits = number_digits(text@);
    assert(digits == chars@.skip(start as int));
    if chars.len() == start {
        return None;
    }
    let mut value: u64 = 0;
    let mut i: usize = start;
    while i < chars.len()
        invariant
            start <= i <= chars@.len(),
            digits == chars@.skip(start as int),
            digits == number_digits(text@),
            digits.len() > 0,
            all_digits(digits.take(i - start)),
            value == digits_value(digits.take(i - start)),
        decreases chars@.len() - i,
    {
        let c = chars[i];
        assert(c == digits[i - start]);
        if c < '0' || '9' < c {
            return None;
        }
        let digit: u64 = (c as u8 - 48) as u64;
        let ghost next = digits.take(i - start + 1);
        assert(next.drop_last() == digits.take(i - start));
        proof {
            lemma_digits_value_grows(digits, i - start + 1);
        }
        if value > u64::MAX / 10 {
            return None;
        }
        if value * 10 > u64::MAX - digit {
            return None;
        }
        value = value * 10 + digit;
        i = i + 1;
        assert(digits.take(i - start) == next);
        assert forall|k: int| 0 <= k < next.len() implies is_digit(#[trigger] next[k]) by {
            if k < next.len() - 1 {
                assert(next[k] == digits.take(i - start - 1)[k]);
            }
        }
    }
    assert(digits.take(digits.len() as int) == digits);
    Some(value)
}

pub fn parse_usize(text: &str) -> (result: Option<usize>)
    ensures
        match result {
            Some(n) => number_within(text@, usize::MAX as nat) == Some(n as nat),
            None => number_within(text@, usize::MAX as nat) is None,
        },
{
    match parse_u64(text) {
        Some(n) => if n <= usize::MAX as u64 {
            Some(n as usize)
        } else {
            None
        },
        None => None,
    }
}

/// `s` without the white space at its start.
pub open spec fn trimmed_start(s: Seq<char>) -> Seq<char>
    decreases s.len(),
{
    if s.len() > 0 && white_space(s[0]) {
        trimmed_start(s.skip(1))
    } else {
        s
    }
}

/// `s` without the white space at its end.
pub open spec fn trimmed_end(s: Seq<char>) -> Seq<char>
    decreases s.len(),
{
    if s.len() > 0 && white_space(s.last()) {
        trimmed_end(s.drop_last())
    } else {
        s
    }
}

/// `s` without the white space at either end.
pub open spec fn trimmed(s: Seq<char>) -> Seq<char> {
    trimmed_end(trimmed_start(s))
}

pub fn trim_end(text: &str) -> (result: String)
    ensures
        result@ == trimmed_end(text@),
{
    let chars = chars_of(text);
    let mut end: usize = chars.len();
    assert(chars@.take(chars@.len() as int) == chars@);
    while end > 0 && is_white_space(chars[end - 1])
        invariant
            end <= chars@.len(),
            trimmed_end(chars@.take(end as int)) == trimmed_end(chars@),
        decreases end,
    {
        assert(chars@.take(end as int).drop_last() == chars@.take(end - 1));
        end = end - 1;
    }
    assert(chars@.subrange(0, end as int) == chars@.take(end as int));
    string_between(&chars, 0, end)
}

pub fn trim_start(text: &str) -> (result: String)
    ensures
        result@ == trimmed_start(text@),
{
    let chars = chars_of(text);
    let mut start: usize = 0;
    assert(chars@.skip(0) == chars@);
    while start < chars.len() && is_white_space(chars[start])
        invariant
            start <= chars@.len(),
            trimmed_start(chars@.skip(start as int)) == trimmed_start(chars@),
        decreases chars@.len() - start,
    {
        assert(chars@.skip(start as int).skip(1) == chars@.skip(start + 1));
        start = start + 1;
    }
    assert(chars@.subrange(start as int, chars@.len() as int) == chars@.skip(start as int));
    string_between(&chars, start, chars.len())
}

pub fn trim(text: &str) -> (result: String)
    ensures
        result@ == trimmed(text@),
{
    trim_end(trim_start(text).as_str())
}

/// Whether `pattern` stands in `s` from position `i` on.
pub open spec fn stands_at(s: Seq<char>, i: int, pattern: Seq<char>) -> bool {
    &&& 0 <= i
    &&& i + pattern.len() <= s.len()
    &&& s.subrange(i, i + pattern.len()) == pattern
}

/// Whether `pattern` stands anywhere in `s`.
pub open spec fn holds_text(s: Seq<char>, pattern: Seq<char>) -> bool {
    exists|i: int| stands_at(s, i, pattern)
}

pub fn text_stands_at(chars: &Vec<char>, i: usize, pattern: &Vec<char>) -> (result: bool)
    requires
        i <= chars@.len(),
    ensures
        result == stands_at(chars@, i as int, pattern@),
{
    if pattern.len() > chars.len() - i {
        return false;
    }
    let mut k: usize = 0;
    while k < pattern.len()
        invariant
            k <= pattern@.len(),
            i + pattern.len() <= chars.len(),
            forall|j: int| 0 <= j < k ==> chars@[i + j] == pattern@[j],
        decreases pattern@.len() - k,
    {
        if chars[i + k] != pattern[k] {
            assert(chars@.subrange(i as int, i + pattern@.len())[k as int] != pattern@[k as int]);
            return false;
        }
        k = k + 1;
    }
    assert(chars@.subrange(i as int, i + pattern@.len()) =~= pattern@);
    true
}

pub fn contains_text(text: &str, pattern: &str) -> (result: bool)
    ensures
        result == holds_text(text@, pattern@),
{
    let chars = chars_of(text);
    let wanted = chars_of(pattern);
    let mut i: usize = 0;
    loop
        invariant
            i <= chars@.len(),
            chars@ == text@,
            wanted@ == pattern@,
            forall|j: int| 0 <= j < i ==> !stands_at(text@, j, pattern@),
        decreases chars@.len() - i,
    {
        if text_stands_at(&chars, i, &wanted) {
            return true;
        }
        if i == chars.len() {
            return false;
        }
        i = i + 1;
    }
}

/// `s` with every `needle` replaced by `value`, searched from the left and
/// never inside what was put in.
pub open spec fn replaced(s: Seq<char>, needle: Seq<char>, value: Seq<char>) -> Seq<char>
    recommends
        needle.len() > 0,
    decreases s.len(),
{
    if needle.len() == 0 || s.len() < needle.len() {
        s
    } else if stands_at(s, 0, needle) {
        value + replaced(s.skip(needle.len() as int), needle, value)
    } else {
        seq![s[0]] + replaced(s.skip(1), needle, value)
    }
}

pub fn replace_all(text: &str, needle: &str, value: &str) -> (result: String)
    requires
        needle@.len() > 0,
    ensures
        result@ == replaced(text@, needle@, value@),
{
    let chars = chars_of(text);
    let wanted = chars_of(needle);
    let mut result = String::new();
    let mut i: usize = 0;
    assert(chars@.skip(0) == chars@);
    while i < chars.len()
        invariant
            i <= chars@.len(),
            wanted@ == needle@,
            needle@.len() > 0,
            replaced(chars@, needle@, value@) == result@ + replaced(
                chars@.skip(i as int),
                needle@,
                value@,
            ),
        decreases chars@.len() - i,
    {
        let ghost rest = chars@.skip(i as int);
        if text_stands_at(&chars, i, &wanted) {
            assert(rest.subrange(0, needle@.len() as int) == chars@.subrange(
                i as int,
                i + needle@.len(),
            ));
            assert(rest.skip(needle@.len() as int) == chars@.skip(i + needle@.len()));
            result.append(value);
            i = i + wanted.len();
        } else {
            assert(!stands_at(rest, 0, needle@)) by {
                if stands_at(rest, 0, needle@) {
                    assert(rest.subrange(0, needle@.len() as int) == chars@.subrange(
                        i as int,
                        i + needle@.len(),
                    ));
                }
            }
            assert(rest.skip(1) == chars@.skip(i + 1));
            assert(rest.len() < needle@.len() ==> rest =~= seq![rest[0]] + rest.skip(1));
            result.push(chars[i]);
            i = i + 1;
        }
        assert(replaced(chars@, needle@, value@) =~= result@ + replaced(
            chars@.skip(i as int),
            needle@,
            value@,
        ));
    }
    assert(replaced(chars@.skip(i as int), needle@, value@) =~= Seq::<char>::empty());
    result
}

/// The position of the first `c` in `s`, or the length of `s` where it holds none.
pub open spec fn position_of(s: Seq<char>, c: char) -> nat
    decreases s.len(),
{
    if s.len() == 0 || s[0] == c {
        0
    } else {
        1 + position_of(s.skip(1), c)
    }
}

/// What stands before and after the first `c` in `s`; all of `s` and nothing
/// where it holds none.
pub open spec fn split_text(s: Seq<char>, c: char) -> (Seq<char>, Seq<char>) {
    let at = position_of(s, c) as int;
    if at < s.len() {
        (s.take(at), s.skip(at + 1))
    } else {
        (s, seq![])
    }
}

pub proof fn lemma_position_of(s: Seq<char>, c: char)
    ensures
        position_of(s, c) <= s.len(),
        position_of(s, c) < s.len() ==> s[position_of(s, c) as int] == c,
        forall|i: int| 0 <= i < position_of(s, c) ==> s[i] != c,
    decreases s.len(),
{
    if s.len() > 0 && s[0] != c {
        lemma_position_of(s.skip(1), c);
        assert forall|i: int| 0 <= i < position_of(s, c) implies s[i] != c by {
            if i > 0 {
                assert(s[i] == s.skip(1)[i - 1]);
            }
        }
    }
}

pub fn split_once(text: &str, c: char) -> (result: (String, String))
    ensures
        (result.0@, result.1@) == split_text(text@, c),
{
    let chars = chars_of(text);
    let mut at: usize = 0;
    assert(chars@.skip(0) == chars@);
    while at < chars.len() && chars[at] != c
        invariant
            at <= chars@.len(),
            position_of(chars@, c) == at + position_of(chars@.skip(at as int), c),
        decreases chars@.len() - at,
    {
        assert(chars@.skip(at as int).skip(1) == chars@.skip(at + 1));
        at = at + 1;
    }
    if at < chars.len() {
        assert(chars@.subrange(0, at as int) == chars@.take(at as int));
        assert(chars@.subrange(at + 1, chars@.len() as int) == chars@.skip(at + 1));
        (string_between(&chars, 0, at), string_between(&chars, at + 1, chars.len()))
    } else {
        (string_of(&chars), String::new())
    }
}

/// A number written in decimal reads back as itself.
pub proof fn law_decimal_reads_back(n: nat, limit: nat)
    requires
        n <= limit,
    ensures
        number_within(decimal(n), limit) == Some(n),
{
    lemma_decimal_digits(n);
}

proof fn lemma_decimal_digits(n: nat)
    ensures
        decimal(n).len() > 0,
        all_digits(decimal(n)),
        digits_value(decimal(n)) == n,
    decreases n,
{
    let s = decimal(n);
    if n < 10 {
        assert(s.drop_last() =~= Seq::<char>::empty());
        assert(digits_value(s.drop_last()) == 0);
    } else {
        lemma_decimal_digits(n / 10);
        assert(s.drop_last() =~= decimal(n / 10));
        assert forall|i: int| 0 <= i < s.len() implies is_digit(#[trigger] s[i]) by {
            if i < s.len() - 1 {
                assert(s[i] == decimal(n / 10)[i]);
            }
        }
    }
}

/// A number written in decimal is made of digits, at least one of them.
pub proof fn lemma_decimal_is_digits(n: nat)
    ensures
        decimal(n).len() > 0,
        all_digits(decimal(n)),
{
    lemma_decimal_digits(n);
}

/// A text is split at the first place of a character.
pub proof fn lemma_split_text(front: Seq<char>, c: char, back: Seq<char>)
    requires
        !front.contains(c),
    ensures
        split_text(front + seq![c] + back, c) == (front, back),
{
    let s = front + seq![c] + back;
    lemma_position_of(s, c);
    let at = position_of(s, c);
    assert(s[front.len() as int] == c);
    if at < front.len() {
        assert(s[at as int] == front[at as int]);
        assert(front.contains(c));
    }
    assert(at == front.len());
    assert(s.take(at as int) =~= front);
    assert(s.skip(at as int + 1) =~= back);
}

/// A text that does not hold a character is not split at it.
pub proof fn lemma_unsplit_text(s: Seq<char>, c: char)
    requires
        !s.contains(c),
    ensures
        split_text(s, c) == (s, Seq::<char>::empty()),
{
    lemma_position_of(s, c);
}

} // verus!
