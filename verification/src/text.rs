//! Texts as sequences of characters: reading them character by character,
//! and taking the white space off their ends.

use vstd::prelude::*;
use vstd::string::*;

verus! {

/// Whether a character has the Unicode property `White_Space`.
pub open spec fn is_white_space(c: char) -> bool {
    ||| '\u{9}' <= c <= '\u{d}'
    ||| c == '\u{20}'
    ||| c == '\u{85}'
    ||| c == '\u{a0}'
    ||| c == '\u{1680}'
    ||| '\u{2000}' <= c <= '\u{200a}'
    ||| c == '\u{2028}'
    ||| c == '\u{2029}'
    ||| c == '\u{202f}'
    ||| c == '\u{205f}'
    ||| c == '\u{3000}'
}

/// How many white-space characters a text begins with.
pub open spec fn leading_white_space(text: Seq<char>) -> nat
    decreases text.len(),
{
    if text.len() > 0 && is_white_space(text[0]) {
        1 + leading_white_space(text.drop_first())
    } else {
        0
    }
}

/// How many white-space characters a text ends with.
pub open spec fn trailing_white_space(text: Seq<char>) -> nat
    decreases text.len(),
{
    if text.len() > 0 && is_white_space(text.last()) {
        1 + trailing_white_space(text.drop_last())
    } else {
        0
    }
}

/// A text without the white space it begins and ends with.
pub open spec fn trimmed(text: Seq<char>) -> Seq<char> {
    let start = leading_white_space(text);
    if start >= text.len() {
        Seq::empty()
    } else {
        text.subrange(start as int, text.len() - trailing_white_space(text))
    }
}

/// A text whose first `count` characters are white space, and whose next
/// character is not, begins with `count` white-space characters.
proof fn lemma_leading_count(text: Seq<char>, count: int)
    requires
        0 <= count <= text.len(),
        forall|k: int| 0 <= k < count ==> is_white_space(#[trigger] text[k]),
        count == text.len() || !is_white_space(text[count]),
    ensures
        leading_white_space(text) == count,
    decreases count,
{
    if count > 0 {
        let rest = text.drop_first();
        assert forall|k: int| 0 <= k < count - 1 implies is_white_space(#[trigger] rest[k]) by {
            assert(rest[k] == text[k + 1]);
        }
        lemma_leading_count(rest, count - 1);
    }
}

/// A text whose characters from `end` on are white space, and whose
/// character before `end` is not, ends with as many white-space characters
/// as stand from `end` on.
proof fn lemma_trailing_count(text: Seq<char>, end: int)
    requires
        0 <= end <= text.len(),
        forall|k: int| end <= k < text.len() ==> is_white_space(#[trigger] text[k]),
        end == 0 || !is_white_space(text[end - 1]),
    ensures
        trailing_white_space(text) == text.len() - end,
    decreases text.len() - end,
{
    if end < text.len() {
        let rest = text.drop_last();
        assert(is_white_space(text[text.len() - 1]));
        assert forall|k: int| end <= k < rest.len() implies is_white_space(#[trigger] rest[k]) by {
            assert(rest[k] == text[k]);
        }
        lemma_trailing_count(rest, end);
    }
}

/// The characters of a text, one by one.
pub fn characters(text: &str) -> (chars: Vec<char>)
    ensures
        chars@ == text@,
{
    broadcast use vstd::string::group_string_axioms;

    let mut chars: Vec<char> = Vec::new();
    for c in it: text.chars()
        invariant
            chars@ == it.seq().take(it.index() as int),
            it.seq() == text@,
    {
        chars.push(c);
    }
    chars
}

/// Whether a character is white space.
pub fn char_is_white_space(c: char) -> (yes: bool)
    ensures
        yes == is_white_space(c),
{
    ('\u{9}' <= c && c <= '\u{d}') || c == '\u{20}' || c == '\u{85}' || c == '\u{a0}' || c
        == '\u{1680}' || ('\u{2000}' <= c && c <= '\u{200a}') || c == '\u{2028}' || c == '\u{2029}'
        || c == '\u{202f}' || c == '\u{205f}' || c == '\u{3000}'
}

/// Takes the white space off both ends of a text.
pub fn trim(text: &str) -> (body: &str)
    ensures
        body@ == trimmed(text@),
{
    let chars = characters(text);
    let length = chars.len();
    let mut start: usize = 0;
    while start < length && char_is_white_space(chars[start])
        invariant
            start <= length,
            length == chars.len(),
            forall|k: int| 0 <= k < start ==> is_white_space(#[trigger] chars@[k]),
        decreases length - start,
    {
        start += 1;
    }
    let mut end: usize = length;
    while end > start && char_is_white_space(chars[end - 1])
        invariant
            start <= end <= length,
            length == chars.len(),
            forall|k: int| end <= k < length ==> is_white_space(#[trigger] chars@[k]),
        decreases end,
    {
        end -= 1;
    }
    proof {
        lemma_leading_count(text@, start as int);
        if start < length {
            lemma_trailing_count(text@, end as int);
        } else {
            assert(text@.subrange(start as int, end as int) =~= Seq::<char>::empty());
        }
    }
    text.substring_char(start, end)
}

} // verus!
