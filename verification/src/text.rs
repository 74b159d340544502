//! Text helpers: Unicode whitespace trimming, splitting on a separator,
//! decimal numbers, and short fixed messages.
use vstd::prelude::*;

use crate::bytes::push_char;

verus! {

/// `char::is_whitespace`: the Unicode `White_Space` property.
pub open spec fn is_whitespace(c: char) -> bool {
    ('\u{9}' <= c <= '\u{d}') || c == ' ' || c == '\u{85}' || c == '\u{a0}' || c == '\u{1680}'
        || ('\u{2000}' <= c <= '\u{200a}') || c == '\u{2028}' || c == '\u{2029}' || c
        == '\u{202f}' || c == '\u{205f}' || c == '\u{3000}'
}

/// A text without its leading whitespace.
pub open spec fn trim_start(text: Seq<char>) -> Seq<char>
    decreases text.len(),
{
    if text.len() > 0 && is_whitespace(text[0]) {
        trim_start(text.drop_first())
    } else {
        text
    }
}

/// A text without its trailing whitespace.
pub open spec fn trim_end(text: Seq<char>) -> Seq<char>
    decreases text.len(),
{
    if text.len() > 0 && is_whitespace(text.last()) {
        trim_end(text.drop_last())
    } else {
        text
    }
}

/// A text without its leading and trailing whitespace, as `str::trim` gives it.
pub open spec fn trimmed(text: Seq<char>) -> Seq<char> {
    trim_end(trim_start(text))
}

/// Whether a character is Unicode whitespace, as `char::is_whitespace` decides.
pub fn char_is_whitespace(c: char) -> (white: bool)
    ensures
        white == is_whitespace(c),
{
    ('\u{9}' <= c && c <= '\u{d}') || c == ' ' || c == '\u{85}' || c == '\u{a0}' || c
        == '\u{1680}' || ('\u{2000}' <= c && c <= '\u{200a}') || c == '\u{2028}' || c
        == '\u{2029}' || c == '\u{202f}' || c == '\u{205f}' || c == '\u{3000}'
}

/// The text without leading and trailing Unicode whitespace (what `str::trim` gives).
pub fn trim(text: &str) -> (result: &str)
    ensures
        result@ == trimmed(text@),
{
    let len = text.unicode_len();
    let mut start: usize = 0;
    assert(text@.skip(0) =~= text@);
    while start < len && char_is_whitespace(text.get_char(start))
        invariant
            start <= len,
            len == text@.len(),
            trim_start(text@.skip(start as int)) == trim_start(text@),
        decreases len - start,
    {
        assert(text@.skip(start as int).drop_first() =~= text@.skip(start + 1));
        start = start + 1;
    }
    assert(trim_start(text@) == text@.subrange(start as int, len as int)) by {
        assert(text@.skip(start as int) =~= text@.subrange(start as int, len as int));
    }
    let mut end: usize = len;
    while end > start && char_is_whitespace(text.get_char(end - 1))
        invariant
            start <= end <= len,
            len == text@.len(),
            trim_end(text@.subrange(start as int, end as int)) == trim_end(
                text@.subrange(start as int, len as int),
            ),
        decreases end,
    {
        assert(text@.subrange(start as int, end as int).drop_last() =~= text@.subrange(
            start as int,
            end - 1,
        ));
        end = end - 1;
    }
    text.substring_char(start, end)
}

/// The pieces of a text between occurrences of a separator, as `str::split` gives them.
pub open spec fn split_on(text: Seq<char>, separator: char) -> Seq<Seq<char>>
    decreases text.len(),
{
    if text.len() == 0 {
        seq![Seq::<char>::empty()]
    } else {
        let pieces = split_on(text.drop_last(), separator);
        if text.last() == separator {
            pieces.push(Seq::<char>::empty())
        } else {
            pieces.update(pieces.len() - 1, pieces.last().push(text.last()))
        }
    }
}

/// A split always has at least one piece.
pub proof fn lemma_split_on_nonempty(text: Seq<char>, separator: char)
    ensures
        split_on(text, separator).len() > 0,
    decreases text.len(),
{
    if text.len() > 0 {
        lemma_split_on_nonempty(text.drop_last(), separator);
    }
}

/// The views of a list of strings.
pub open spec fn views(strings: Seq<String>) -> Seq<Seq<char>> {
    strings.map_values(|s: String| s@)
}

/// Splits a text on a separator character.
pub fn split_text(text: &str, separator: char) -> (pieces: Vec<String>)
    ensures
        views(pieces@) == split_on(text@, separator),
{
    let ghost whole = text@;
    let mut pieces: Vec<String> = Vec::new();
    let mut current = String::new();
    assert(whole.take(0) =~= Seq::<char>::empty());
    for c in it: text.chars()
        invariant
            it.seq() == whole,
            it.index() <= whole.len(),
            views(pieces@).push(current@) == split_on(whole.take(it.index() as int), separator),
    {
        let ghost before = views(pieces@).push(current@);
        let ghost i = it.index() as int;
        assert(whole.take(i + 1).drop_last() =~= whole.take(i));
        assert(whole.take(i + 1).last() == c);
        if c == separator {
            pieces.push(current);
            current = String::new();
            assert(views(pieces@).push(current@) =~= before.push(Seq::<char>::empty()));
        } else {
            push_char(&mut current, c);
            assert(views(pieces@).push(current@) =~= before.update(
                before.len() - 1,
                before.last().push(c),
            ));
        }
    }
    pieces.push(current);
    assert(whole.take(whole.len() as int) =~= whole);
    assert(views(pieces@) =~= split_on(whole, separator));
    pieces
}

/// The first `count` characters of a text.
pub fn take_chars(text: &str, count: usize) -> (prefix: String)
    requires
        count <= text@.len(),
    ensures
        prefix@ == text@.take(count as int),
{
    let ghost whole = text@;
    let mut prefix = String::new();
    let mut taken: usize = 0;
    for c in it: text.chars()
        invariant
            it.seq() == whole,
            count <= whole.len(),
            it.index() <= whole.len(),
            taken == if it.index() < count { it.index() } else { count as int },
            prefix@ == whole.take(taken as int),
    {
        if taken < count {
            push_char(&mut prefix, c);
            taken = taken + 1;
            assert(prefix@ =~= whole.take(taken as int));
        }
    }
    prefix
}

/// The decimal digit character of a value below ten.
pub open spec fn digit_char(value: nat) -> char {
    ((value % 10) + 48) as char
}

/// The decimal text of a number, without leading zeros, as `u64::to_string` gives it.
pub open spec fn decimal(value: nat) -> Seq<char>
    decreases value,
{
    if value < 10 {
        seq![digit_char(value)]
    } else {
        decimal(value / 10).push(digit_char(value % 10))
    }
}

/// The decimal text of a `u64`.
pub fn decimal_text(value: u64) -> (text: String)
    ensures
        text@ == decimal(value as nat),
{
    let mut digits: Vec<char> = Vec::new();
    let mut rest: u64 = value;
    loop
        invariant_except_break
            decimal(value as nat) == decimal(rest as nat) + digits@.reverse(),
        ensures
            decimal(value as nat) == digits@.reverse(),
        decreases rest,
    {
        let digit = (rest % 10) as u8;
        let c = (digit + 48) as char;
        proof {
            if rest >= 10 {
                assert(decimal(rest as nat) == decimal((rest / 10) as nat).push(digit_char(
                    (rest % 10) as nat,
                )));
            }
        }
        let ghost before = digits@;
        digits.push(c);
        assert(digits@.reverse() =~= seq![c] + before.reverse());
        if rest < 10 {
            assert(decimal(rest as nat) =~= seq![c]);
            break;
        }
        rest = rest / 10;
        assert(decimal(value as nat) =~= decimal(rest as nat) + digits@.reverse());
    }
    let mut text = String::new();
    let mut i: usize = digits.len();
    while i > 0
        invariant
            i <= digits@.len(),
            text@ == digits@.reverse().take(digits@.len() - i),
        decreases i,
    {
        i = i - 1;
        push_char(&mut text, digits[i]);
        assert(text@ =~= digits@.reverse().take(digits@.len() - i));
    }
    assert(digits@.reverse().take(digits@.len() as int) =~= digits@.reverse());
    text
}

/// A `String` with the given fixed text.
pub fn message(text: &str) -> (owned: String)
    ensures
        owned@ == text@,
{
    text.to_owned()
}

/// Whether a text is exactly the given one.
pub fn text_is(value: &str, expected: &str) -> (same: bool)
    ensures
        same == (value@ == expected@),
{
    message(value) == message(expected)
}

/// What follows a prefix, if the text begins with it (`str::strip_prefix`).
pub open spec fn after_prefix(text: Seq<char>, prefix: Seq<char>) -> Option<Seq<char>> {
    if text.len() >= prefix.len() && text.take(prefix.len() as int) == prefix {
        Some(text.skip(prefix.len() as int))
    } else {
        None
    }
}

/// The text after `prefix`, if it begins with it.
pub fn strip_prefix_text<'a>(value: &'a str, prefix: &str) -> (rest: Option<&'a str>)
    ensures
        match after_prefix(value@, prefix@) {
            Some(r) => rest is Some && rest->0@ == r,
            None => rest is None,
        },
{
    let n = prefix.unicode_len();
    let len = value.unicode_len();
    if len < n {
        return None;
    }
    let head = value.substring_char(0, n);
    assert(value@.subrange(0, n as int) =~= value@.take(n as int));
    if !text_is(head, prefix) {
        return None;
    }
    let rest = value.substring_char(n, len);
    assert(value@.subrange(n as int, len as int) =~= value@.skip(n as int));
    Some(rest)
}

/// A text without any trailing `c` (`str::trim_end_matches` with a character).
pub open spec fn trim_end_char(text: Seq<char>, c: char) -> Seq<char>
    decreases text.len(),
{
    if text.len() > 0 && text.last() == c {
        trim_end_char(text.drop_last(), c)
    } else {
        text
    }
}

/// The text without any trailing `c`.
pub fn trim_end_matching<'a>(value: &'a str, c: char) -> (rest: &'a str)
    ensures
        rest@ == trim_end_char(value@, c),
{
    let mut end = value.unicode_len();
    assert(value@.take(end as int) =~= value@);
    while end > 0 && value.get_char(end - 1) == c
        invariant
            end <= value@.len(),
            trim_end_char(value@.take(end as int), c) == trim_end_char(value@, c),
        decreases end,
    {
        assert(value@.take(end as int).drop_last() =~= value@.take(end - 1));
        end = end - 1;
    }
    assert(value@.take(end as int) =~= value@.subrange(0, end as int));
    value.substring_char(0, end)
}

/// Whether an optional text is present and exactly the given one.
pub fn option_text_is(value: &Option<String>, expected: &str) -> (same: bool)
    ensures
        same == (value is Some && value->0@ == expected@),
{
    match value {
        Some(v) => text_is(v.as_str(), expected),
        None => false,
    }
}

} // verus!
