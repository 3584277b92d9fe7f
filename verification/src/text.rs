//! Character-level helpers shared by the rest of the crate: conversion between
//! strings and character vectors, pattern tests, and splitting into words.

use vstd::prelude::*;

verus! {

/// Whether `c` counts as white space for `char::is_whitespace`.
pub uninterp spec fn char_is_whitespace(c: char) -> bool;

/// `char::is_whitespace`: the answer depends on `c` alone (the Unicode
/// `White_Space` property).
#[verifier::external_body]
pub(crate) fn is_whitespace(c: char) -> (b: bool)
    ensures
        b == char_is_whitespace(c),
{
    c.is_whitespace()
}

/// `String::push` appends one character to the end of the string.
pub assume_specification[ String::push ](s: &mut String, ch: char)
    ensures
        final(s)@ == old(s)@.push(ch),
;

/// `pattern` occurs in `text` starting at position `at`.
pub open spec fn occurs_at(text: Seq<char>, pattern: Seq<char>, at: int) -> bool {
    &&& 0 <= at
    &&& at + pattern.len() <= text.len()
    &&& text.subrange(at, at + pattern.len()) == pattern
}

/// `text` begins with `pattern`.
pub open spec fn starts_with(text: Seq<char>, pattern: Seq<char>) -> bool {
    occurs_at(text, pattern, 0)
}

/// `pattern` occurs somewhere in `text`.
pub open spec fn contains(text: Seq<char>, pattern: Seq<char>) -> bool {
    exists|at: int| occurs_at(text, pattern, at)
}

/// The characters of a text that may be absent.
pub open spec fn text_view(text: Option<String>) -> Option<Seq<char>> {
    match text {
        Some(t) => Some(t@),
        None => None,
    }
}

/// Every character of `text` is white space.
pub open spec fn is_blank(text: Seq<char>) -> bool {
    forall|i: int| 0 <= i < text.len() ==> char_is_whitespace(#[trigger] text[i])
}

/// The words of `text`: its maximal runs of characters that are not white
/// space, in order. Reading `text` one character at a time, a white-space
/// character adds nothing, a character after a non-white-space one extends the
/// last word, and any other character starts a new word.
pub open spec fn words(text: Seq<char>) -> Seq<Seq<char>>
    decreases text.len(),
{
    if text.len() == 0 {
        Seq::empty()
    } else {
        let before = words(text.drop_last());
        let c = text.last();
        if char_is_whitespace(c) {
            before
        } else if ends_in_word(text.drop_last()) {
            before.drop_last().push(before.last().push(c))
        } else {
            before.push(seq![c])
        }
    }
}

/// `text` is not empty and its last character is not white space.
pub open spec fn ends_in_word(text: Seq<char>) -> bool {
    text.len() > 0 && !char_is_whitespace(text.last())
}

/// A text that ends inside a word has at least one word, and no word is empty.
pub proof fn lemma_words_nonempty(text: Seq<char>)
    ensures
        ends_in_word(text) ==> words(text).len() > 0,
        forall|i: int| 0 <= i < words(text).len() ==> (#[trigger] words(text)[i]).len() > 0,
    decreases text.len(),
{
    if text.len() > 0 {
        lemma_words_nonempty(text.drop_last());
    }
}

/// No word holds a white-space character.
pub proof fn lemma_words_hold_no_whitespace(text: Seq<char>)
    ensures
        forall|i: int, j: int|
            0 <= i < words(text).len() && 0 <= j < words(text)[i].len()
                ==> !char_is_whitespace(#[trigger] words(text)[i][j]),
    decreases text.len(),
{
    if text.len() > 0 {
        let init = text.drop_last();
        let before = words(init);
        lemma_words_hold_no_whitespace(init);
        lemma_words_nonempty(init);
        assert forall|i: int, j: int|
            0 <= i < words(text).len() && 0 <= j < words(text)[i].len() implies !char_is_whitespace(
            #[trigger] words(text)[i][j],
        ) by {
            if !char_is_whitespace(text.last()) && ends_in_word(init) {
                if i < before.len() - 1 {
                    assert(words(text)[i] == before[i]);
                } else if j < before.last().len() {
                    assert(words(text)[i][j] == before[before.len() - 1][j]);
                }
            } else if !char_is_whitespace(text.last()) {
                if i < before.len() {
                    assert(words(text)[i] == before[i]);
                }
            }
        }
    }
}

/// The decimal digit for a number below ten.
pub open spec fn digit(d: nat) -> char {
    if d == 0 {
        '0'
    } else if d == 1 {
        '1'
    } else if d == 2 {
        '2'
    } else if d == 3 {
        '3'
    } else if d == 4 {
        '4'
    } else if d == 5 {
        '5'
    } else if d == 6 {
        '6'
    } else if d == 7 {
        '7'
    } else if d == 8 {
        '8'
    } else {
        '9'
    }
}

/// The decimal numeral of `n`, without leading zeros.
pub open spec fn decimal(n: nat) -> Seq<char>
    decreases n,
{
    if n < 10 {
        seq![digit(n)]
    } else {
        decimal(n / 10).push(digit(n % 10))
    }
}

/// The decimal digit for `d`.
pub fn digit_char(d: u64) -> (c: char)
    requires
        d < 10,
    ensures
        c == digit(d as nat),
{
    if d == 0 {
        '0'
    } else if d == 1 {
        '1'
    } else if d == 2 {
        '2'
    } else if d == 3 {
        '3'
    } else if d == 4 {
        '4'
    } else if d == 5 {
        '5'
    } else if d == 6 {
        '6'
    } else if d == 7 {
        '7'
    } else if d == 8 {
        '8'
    } else {
        '9'
    }
}

/// Writes `n` as a decimal numeral.
pub fn decimal_string(n: u64) -> (text: String)
    ensures
        text@ == decimal(n as nat),
    decreases n,
{
    if n < 10 {
        let mut text = String::new();
        text.push(digit_char(n));
        assert(text@ =~= seq![digit(n as nat)]);
        text
    } else {
        let mut text = decimal_string(n / 10);
        text.push(digit_char(n % 10));
        text
    }
}

/// The characters of `s`, in order.
pub fn chars_of(s: &str) -> (v: Vec<char>)
    ensures
        v@ == s@,
{
    let mut v: Vec<char> = Vec::new();
    for c in it: s.chars()
        invariant
            v@ == it.seq().take(it.index() as int),
    {
        v.push(c);
    }
    v
}

/// The string made of the characters of `v`.
pub fn string_of(v: &Vec<char>) -> (s: String)
    ensures
        s@ == v@,
{
    let mut s = String::new();
    let mut i: usize = 0;
    while i < v.len()
        invariant
            i <= v.len(),
            s@ == v@.take(i as int),
        decreases v.len() - i,
    {
        s.push(v[i]);
        i += 1;
    }
    s
}

/// Tests whether `pattern` occurs in `text` at position `at`.
pub fn matches_at(text: &Vec<char>, pattern: &Vec<char>, at: usize) -> (b: bool)
    ensures
        b == occurs_at(text@, pattern@, at as int),
{
    if at > text.len() || pattern.len() > text.len() - at {
        return false;
    }
    let mut i: usize = 0;
    while i < pattern.len()
        invariant
            i <= pattern.len(),
            at + pattern.len() <= text.len(),
            forall|k: int| 0 <= k < i ==> text@[at + k] == pattern@[k],
        decreases pattern.len() - i,
    {
        if text[at + i] != pattern[i] {
            assert(text@.subrange(at as int, at + pattern.len())[i as int] != pattern@[i as int]);
            return false;
        }
        i += 1;
    }
    assert(text@.subrange(at as int, at + pattern.len()) =~= pattern@);
    true
}

/// Tests whether `text` begins with `pattern`.
pub fn begins_with(text: &Vec<char>, pattern: &Vec<char>) -> (b: bool)
    ensures
        b == starts_with(text@, pattern@),
{
    matches_at(text, pattern, 0)
}

/// Tests whether `pattern` occurs somewhere in `text`.
pub fn has_substring(text: &Vec<char>, pattern: &Vec<char>) -> (b: bool)
    ensures
        b == contains(text@, pattern@),
{
    if pattern.len() > text.len() {
        return false;
    }
    if pattern.len() == 0 {
        assert(occurs_at(text@, pattern@, 0)) by {
            assert(text@.subrange(0, 0) =~= pattern@);
        }
        return true;
    }
    let last: usize = text.len() - pattern.len();
    let mut at: usize = 0;
    while at <= last
        invariant
            last == text.len() - pattern.len(),
            last < text.len(),
            at <= last + 1,
            forall|k: int| 0 <= k < at ==> !occurs_at(text@, pattern@, k),
        decreases last + 1 - at,
    {
        if matches_at(text, pattern, at) {
            return true;
        }
        at += 1;
    }
    false
}

/// Tests whether every character of `text` is white space.
pub fn blank(text: &str) -> (b: bool)
    ensures
        b == is_blank(text@),
{
    let v = chars_of(text);
    let mut i: usize = 0;
    while i < v.len()
        invariant
            i <= v.len(),
            v@ == text@,
            forall|k: int| 0 <= k < i ==> char_is_whitespace(#[trigger] v@[k]),
        decreases v.len() - i,
    {
        if !is_whitespace(v[i]) {
            return false;
        }
        i += 1;
    }
    true
}

/// The character sequences held by a vector of words.
pub open spec fn word_views(ws: Seq<Vec<char>>) -> Seq<Seq<char>> {
    Seq::new(ws.len(), |i: int| ws[i]@)
}

/// Splits `text` into its words.
pub fn split_words(text: &Vec<char>) -> (out: Vec<Vec<char>>)
    ensures
        word_views(out@) == words(text@),
{
    let mut out: Vec<Vec<char>> = Vec::new();
    let mut current: Vec<char> = Vec::new();
    let mut i: usize = 0;
    while i < text.len()
        invariant
            i <= text.len(),
            current@.len() > 0 <==> ends_in_word(text@.take(i as int)),
            words(text@.take(i as int)) == if current@.len() > 0 {
                word_views(out@).push(current@)
            } else {
                word_views(out@)
            },
        decreases text.len() - i,
    {
        let c = text[i];
        proof {
            assert(text@.take(i + 1).drop_last() == text@.take(i as int));
            assert(text@.take(i + 1).last() == c);
        }
        if is_whitespace(c) {
            if current.len() > 0 {
                let ghost before = word_views(out@);
                let ghost word = current@;
                out.push(current);
                assert(word_views(out@) =~= before.push(word));
                current = Vec::new();
            }
        } else {
            let ghost before = current@;
            current.push(c);
            proof {
                let so_far = words(text@.take(i as int));
                if before.len() > 0 {
                    assert(so_far.drop_last() =~= word_views(out@));
                    assert(so_far.last() == before);
                } else {
                    assert(current@ =~= seq![c]);
                }
                assert(words(text@.take(i + 1)) == word_views(out@).push(current@));
            }
        }
        i += 1;
    }
    assert(text@.take(i as int) == text@);
    if current.len() > 0 {
        let ghost before = word_views(out@);
        let ghost word = current@;
        out.push(current);
        assert(word_views(out@) =~= before.push(word));
    }
    out
}

} // verus!
