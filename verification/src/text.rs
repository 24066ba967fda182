//! Searching and comparing text without regard to ASCII case.

use vstd::prelude::*;

verus! {

/// `c`, in lower case if it is an ASCII letter.
pub open spec fn lower(c: char) -> char {
    if 'A' <= c <= 'Z' {
        (c as u8 + 32) as char
    } else {
        c
    }
}

/// `text` with its ASCII letters in lower case.
pub open spec fn lower_case(text: Seq<char>) -> Seq<char> {
    text.map_values(|c: char| lower(c))
}

/// `word` stands in `text` at place `at`.
pub open spec fn stands_at(text: Seq<char>, word: Seq<char>, at: int) -> bool {
    0 <= at <= text.len() - word.len() && text.subrange(at, at + word.len()) == word
}

/// `word` stands somewhere in `text`.
pub open spec fn has_word(text: Seq<char>, word: Seq<char>) -> bool {
    exists|at: int| stands_at(text, word, at)
}

/// The characters of a string.
pub fn characters(text: &str) -> (result: Vec<char>)
    ensures
        result@ == text@,
{
    let mut result: Vec<char> = Vec::new();
    for c in it: text.chars()
        invariant
            result@ == it.seq().take(it.index() as int),
            it.seq() == text@,
    {
        result.push(c);
        assert(it.seq().take(it.index() + 1) == it.seq().take(it.index() as int).push(c));
    }
    result
}

/// Puts the ASCII letters of a text in lower case.
pub fn to_lower_case(text: &Vec<char>) -> (result: Vec<char>)
    ensures
        result@ == lower_case(text@),
{
    let mut result: Vec<char> = Vec::new();
    let mut i: usize = 0;
    while i < text.len()
        invariant
            i <= text@.len(),
            result@ == lower_case(text@.take(i as int)),
        decreases text@.len() - i,
    {
        let c: char = text[i];
        if 'A' <= c && c <= 'Z' {
            result.push((c as u8 + 32) as char);
        } else {
            result.push(c);
        }
        i += 1;
        assert(result@ == lower_case(text@.take(i as int)));
    }
    assert(text@.take(i as int) == text@);
    result
}

/// Whether `word` stands in `text` at place `at`.
fn matches_at(text: &Vec<char>, word: &Vec<char>, at: usize) -> (result: bool)
    requires
        at + word@.len() <= text@.len(),
    ensures
        result == stands_at(text@, word@, at as int),
{
    let end: usize = text.len();
    let mut i: usize = 0;
    while i < word.len()
        invariant
            i <= word@.len(),
            at + word@.len() <= end == text@.len(),
            forall|j: int| 0 <= j < i ==> text@[at + j] == word@[j],
        decreases word@.len() - i,
    {
        if text[at + i] != word[i] {
            assert(text@.subrange(at as int, at + word@.len())[i as int] != word@[i as int]);
            return false;
        }
        i += 1;
    }
    assert(text@.subrange(at as int, at + word@.len()) == word@);
    true
}

/// Whether `word` stands somewhere in `text`.
pub fn contains(text: &Vec<char>, word: &str) -> (result: bool)
    ensures
        result == has_word(text@, word@),
{
    let letters = characters(word);
    if letters.len() > text.len() {
        return false;
    }
    let last: usize = text.len() - letters.len();
    let mut at: usize = 0;
    while at < last
        invariant
            at <= last,
            letters@ == word@,
            last + letters@.len() == text@.len(),
            forall|j: int| 0 <= j < at ==> !stands_at(text@, word@, j),
        decreases last - at,
    {
        if matches_at(text, &letters, at) {
            return true;
        }
        at += 1;
    }
    matches_at(text, &letters, last)
}

/// Whether two texts are the same but for the case of their ASCII letters.
pub fn same_but_for_case(a: &str, b: &str) -> (result: bool)
    ensures
        result == (lower_case(a@) == lower_case(b@)),
{
    let a = to_lower_case(&characters(a));
    let b = to_lower_case(&characters(b));
    assert(a@.subrange(0, a@.len() as int) == a@);
    a.len() == b.len() && matches_at(&a, &b, 0)
}

/// Case is taken away from the twenty-six ASCII letters and from nothing else,
/// letter by letter.
pub proof fn law_lower_case(text: Seq<char>)
    ensures
        lower_case(text).len() == text.len(),
        forall|i: int|
            0 <= i < text.len() ==> if 0x41 <= text[i] as u32 <= 0x5a {
                #[trigger] lower_case(text)[i] as u32 == text[i] as u32 + 32
            } else {
                lower_case(text)[i] == text[i]
            },
        lower_case(lower_case(text)) == lower_case(text),
{
    assert forall|i: int| 0 <= i < text.len() implies if 0x41 <= text[i] as u32 <= 0x5a {
        #[trigger] lower_case(text)[i] as u32 == text[i] as u32 + 32
    } else {
        lower_case(text)[i] == text[i]
    } by {
        assert(lower_case(text)[i] == lower(text[i]));
    }
    assert(lower_case(lower_case(text)) =~= lower_case(text));
}

/// A word stands in a text if and only if the text is something, the word and
/// something more.
pub proof fn law_words_are_found(text: Seq<char>, word: Seq<char>)
    ensures
        has_word(text, word) <==> exists|before: Seq<char>, behind: Seq<char>|
            text == #[trigger] (before + word + behind),
{
    if has_word(text, word) {
        let at = choose|at: int| stands_at(text, word, at);
        let before = text.take(at);
        let behind = text.skip(at + word.len());
        assert(text =~= before + word + behind);
    }
    if exists|before: Seq<char>, behind: Seq<char>| text == #[trigger] (before + word + behind) {
        let (before, behind) = choose|before: Seq<char>, behind: Seq<char>|
            text == #[trigger] (before + word + behind);
        assert(text.subrange(before.len() as int, before.len() as int + word.len()) =~= word);
        assert(stands_at(text, word, before.len() as int));
    }
}

} // verus!
