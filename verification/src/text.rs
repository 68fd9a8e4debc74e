//! Character-level helpers for names and paths.

use vstd::prelude::*;
use vstd::utf8::*;
use vstd::string::*;

verus! {

/// The characters of `s`, in order.
pub fn chars_of(s: &str) -> (out: Vec<char>)
    ensures
        out@ == s@,
{
    let mut out: Vec<char> = Vec::new();
    for c in it: s.chars()
        invariant
            out@ == it.seq().take(it.index() as int),
            it.seq() == s@,
    {
        out.push(c);
    }
    out
}

/// Whether two strings hold the same characters.
pub fn str_eq(a: &str, b: &str) -> (same: bool)
    ensures
        same == (a@ == b@),
{
    let x = a.as_bytes();
    let y = b.as_bytes();
    proof {
        encode_utf8_decode_utf8(a@);
        encode_utf8_decode_utf8(b@);
    }
    if x.len() != y.len() {
        return false;
    }
    let mut i: usize = 0;
    while i < x.len()
        invariant
            i <= x.len(),
            x.len() == y.len(),
            forall|j: int| 0 <= j < i ==> x@[j] == y@[j],
            x@ == a.spec_bytes(),
            y@ == b.spec_bytes(),
            decode_utf8(a.spec_bytes()) == a@,
            decode_utf8(b.spec_bytes()) == b@,
        decreases x.len() - i,
    {
        if x[i] != y[i] {
            return false;
        }
        i += 1;
    }
    assert(x@ =~= y@);
    true
}

/// The texts of a list of strings.
pub open spec fn texts_of(strings: Seq<String>) -> Seq<Seq<char>> {
    strings.map_values(|s: String| s@)
}

/// Appending a string to a list appends its text to the texts.
pub proof fn lemma_texts_of_push(strings: Seq<String>, last: String)
    ensures
        texts_of(strings.push(last)) == texts_of(strings).push(last@),
{
    assert(texts_of(strings.push(last)) =~= texts_of(strings).push(last@));
}

/// Whether `text` is one of the strings.
pub fn contains_text(strings: &Vec<String>, text: &str) -> (found: bool)
    ensures
        found == texts_of(strings@).contains(text@),
{
    let mut i: usize = 0;
    while i < strings.len()
        invariant
            i <= strings.len(),
            forall|j: int| 0 <= j < i ==> texts_of(strings@)[j] != text@,
        decreases strings.len() - i,
    {
        if str_eq(strings[i].as_str(), text) {
            assert(texts_of(strings@)[i as int] == text@);
            return true;
        }
        i += 1;
    }
    false
}

/// A copy of a list of strings.
pub fn clone_strings(strings: &Vec<String>) -> (copy: Vec<String>)
    ensures
        texts_of(copy@) == texts_of(strings@),
        copy.len() == strings.len(),
{
    let mut copy: Vec<String> = Vec::new();
    let mut i: usize = 0;
    while i < strings.len()
        invariant
            i <= strings.len(),
            copy.len() == i,
            texts_of(copy@) == texts_of(strings@.take(i as int)),
        decreases strings.len() - i,
    {
        proof {
            lemma_texts_of_push(copy@, strings@[i as int]);
            assert(strings@.take(i + 1) =~= strings@.take(i as int).push(strings@[i as int]));
            lemma_texts_of_push(strings@.take(i as int), strings@[i as int]);
        }
        copy.push(strings[i].clone());
        i += 1;
    }
    proof {
        assert(strings@.take(i as int) =~= strings@);
    }
    copy
}

/// Whether `text` ends with `suffix`.
pub open spec fn ends_with(text: Seq<char>, suffix: Seq<char>) -> bool {
    suffix.len() <= text.len() && text.subrange(text.len() - suffix.len(), text.len() as int)
        == suffix
}

/// Whether `text` ends with `suffix`.
pub fn has_suffix(text: &Vec<char>, suffix: &Vec<char>) -> (found: bool)
    ensures
        found == ends_with(text@, suffix@),
{
    if suffix.len() > text.len() {
        return false;
    }
    let start = text.len() - suffix.len();
    let ghost tail = text@.subrange(start as int, text.len() as int);
    let mut i: usize = 0;
    while i < suffix.len()
        invariant
            i <= suffix.len(),
            start + suffix.len() == text.len(),
            tail == text@.subrange(start as int, text.len() as int),
            forall|j: int| 0 <= j < i ==> tail[j] == suffix@[j],
        decreases suffix.len() - i,
    {
        if text[start + i] != suffix[i] {
            assert(tail[i as int] != suffix@[i as int]);
            return false;
        }
        i += 1;
    }
    assert(tail =~= suffix@);
    true
}

/// The index of the last `needle` in `text`, if it holds one.
pub open spec fn last_index_of(text: Seq<char>, needle: char) -> Option<int>
    decreases text.len(),
{
    if text.len() == 0 {
        None
    } else if text.last() == needle {
        Some(text.len() - 1)
    } else {
        last_index_of(text.drop_last(), needle)
    }
}

/// The last index of `needle` is an index of `text` at which `needle` stands, and
/// `needle` stands nowhere after it.
pub proof fn lemma_last_index_of(text: Seq<char>, needle: char)
    ensures
        match last_index_of(text, needle) {
            Some(i) => 0 <= i < text.len() && text[i] == needle && forall|j: int|
                i < j < text.len() ==> text[j] != needle,
            None => forall|j: int| 0 <= j < text.len() ==> text[j] != needle,
        },
    decreases text.len(),
{
    if text.len() > 0 && text.last() != needle {
        let front = text.drop_last();
        lemma_last_index_of(front, needle);
        assert forall|j: int| 0 <= j < front.len() implies front[j] == text[j] by {}
        match last_index_of(front, needle) {
            Some(i) => {
                assert forall|j: int| i < j < text.len() implies text[j] != needle by {
                    if j < front.len() {
                        assert(front[j] != needle);
                    }
                }
            },
            None => {
                assert forall|j: int| 0 <= j < text.len() implies text[j] != needle by {
                    if j < front.len() {
                        assert(front[j] != needle);
                    }
                }
            },
        }
    }
}

/// The index of the last `needle` in `text`, if it holds one.
pub fn find_last(text: &Vec<char>, needle: char) -> (found: Option<usize>)
    ensures
        match found {
            Some(i) => last_index_of(text@, needle) == Some(i as int),
            None => last_index_of(text@, needle) is None,
        },
{
    let mut end: usize = text.len();
    assert(text@.take(end as int) =~= text@);
    while end > 0
        invariant
            end <= text.len(),
            last_index_of(text@, needle) == last_index_of(text@.take(end as int), needle),
        decreases end,
    {
        let ghost prefix = text@.take(end as int);
        proof {
            assert(prefix.last() == text@[end - 1]);
            assert(prefix.drop_last() =~= text@.take(end - 1));
        }
        if text[end - 1] == needle {
            return Some(end - 1);
        }
        end -= 1;
    }
    None
}

/// Whether two lists hold the same characters.
pub fn same_chars(a: &Vec<char>, b: &Vec<char>) -> (same: bool)
    ensures
        same == (a@ == b@),
{
    if a.len() != b.len() {
        return false;
    }
    let mut i: usize = 0;
    while i < a.len()
        invariant
            i <= a.len(),
            a.len() == b.len(),
            forall|j: int| 0 <= j < i ==> a@[j] == b@[j],
        decreases a.len() - i,
    {
        if a[i] != b[i] {
            return false;
        }
        i += 1;
    }
    assert(a@ =~= b@);
    true
}

/// The lower-case form of an ASCII character: the letters `A` to `Z` become `a` to
/// `z`, every other character stays.
pub open spec fn ascii_lower_char(c: char) -> char {
    if 'A' <= c <= 'Z' {
        ((c as u8) + 32) as char
    } else {
        c
    }
}

/// The text with each of its characters in ASCII lower case.
pub open spec fn ascii_lower(text: Seq<char>) -> Seq<char> {
    text.map_values(|c: char| ascii_lower_char(c))
}

/// The text with each of its characters in ASCII lower case.
pub fn lower_ascii(text: &Vec<char>) -> (lower: Vec<char>)
    ensures
        lower@ == ascii_lower(text@),
{
    let mut lower: Vec<char> = Vec::new();
    let mut i: usize = 0;
    while i < text.len()
        invariant
            i <= text.len(),
            lower@ == ascii_lower(text@.take(i as int)),
        decreases text.len() - i,
    {
        let c = text[i];
        let low = if 'A' <= c && c <= 'Z' {
            ((c as u8) + 32) as char
        } else {
            c
        };
        proof {
            assert(text@.take(i + 1) =~= text@.take(i as int).push(c));
            assert(ascii_lower(text@.take(i as int).push(c)) =~= ascii_lower(
                text@.take(i as int),
            ).push(ascii_lower_char(c)));
        }
        lower.push(low);
        i += 1;
    }
    proof {
        assert(text@.take(i as int) =~= text@);
    }
    lower
}

} // verus!
