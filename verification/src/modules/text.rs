use crate::modules::types::text_views;
use vstd::prelude::*;
use vstd::string::StrSliceExecFns;

verus! {

/// Whether `c` is white space in the sense of Unicode's `White_Space`
/// property, as `char::is_whitespace` reports it.
pub uninterp spec fn white_space(c: char) -> bool;

/// The lower-case form of `text`, as `str::to_lowercase` computes it.
pub uninterp spec fn lowercase(text: Seq<char>) -> Seq<char>;

/// Calls `char::is_whitespace`. The contract gives the answer a name and
/// claims nothing else about it.
#[verifier::external_body]
fn is_white_space(c: char) -> (white: bool)
    ensures
        white == white_space(c),
{
    c.is_whitespace()
}

/// Calls `str::to_lowercase`. The contract gives the result a name and
/// claims nothing else about it.
#[verifier::external_body]
pub(crate) fn to_lowercase(text: &str) -> (lower: String)
    ensures
        lower@ == lowercase(text@),
{
    text.to_lowercase()
}

/// The number of bytes that `text` takes in UTF-8.
pub open spec fn byte_len(text: Seq<char>) -> nat {
    vstd::utf8::encode_utf8(text).len()
}

/// `pattern` stands in `text` at offset `at`.
pub open spec fn occurs_at(text: Seq<char>, pattern: Seq<char>, at: int) -> bool {
    &&& 0 <= at
    &&& at + pattern.len() <= text.len()
    &&& text.subrange(at, at + pattern.len()) == pattern
}

/// `pattern` stands somewhere in `text`.
pub open spec fn contains(text: Seq<char>, pattern: Seq<char>) -> bool {
    exists|at: int| occurs_at(text, pattern, at)
}

/// `text` without the characters `c` that it ends with.
pub open spec fn trim_end(text: Seq<char>, c: char) -> Seq<char>
    decreases text.len(),
{
    if text.len() > 0 && text.last() == c {
        trim_end(text.drop_last(), c)
    } else {
        text
    }
}

/// The words of `text`: its maximal runs of characters that are not white
/// space, from left to right.
pub open spec fn words(text: Seq<char>) -> Seq<Seq<char>>
    decreases text.len(),
{
    if text.len() == 0 {
        Seq::empty()
    } else {
        let before = words(text.drop_last());
        if white_space(text.last()) {
            before
        } else if text.len() >= 2 && !white_space(text[text.len() - 2]) {
            before.drop_last().push(before.last().push(text.last()))
        } else {
            before.push(seq![text.last()])
        }
    }
}

/// `word` is not empty and holds no white space.
pub open spec fn is_run(word: Seq<char>) -> bool {
    &&& word.len() > 0
    &&& forall|j: int| 0 <= j < word.len() ==> !white_space(#[trigger] word[j])
}

/// Every word is a run of characters that are not white space, and a text
/// that ends outside white space has a word.
pub proof fn lemma_words_are_runs(text: Seq<char>)
    ensures
        forall|k: int| 0 <= k < words(text).len() ==> is_run(#[trigger] words(text)[k]),
        text.len() > 0 && !white_space(text.last()) ==> words(text).len() > 0,
    decreases text.len(),
{
    if text.len() > 0 {
        let before = words(text.drop_last());
        lemma_words_are_runs(text.drop_last());
        assert(text.len() >= 2 ==> text.drop_last().last() == text[text.len() - 2]);
        assert forall|k: int| 0 <= k < words(text).len() implies is_run(
            #[trigger] words(text)[k],
        ) by {
            if white_space(text.last()) {
            } else if text.len() >= 2 && !white_space(text[text.len() - 2]) {
                if k == before.len() - 1 {
                    let grown = before.last().push(text.last());
                    assert(is_run(before[before.len() - 1]));
                    assert forall|j: int| 0 <= j < grown.len() implies !white_space(
                        #[trigger] grown[j],
                    ) by {
                        if j < before.last().len() {
                            assert(grown[j] == before.last()[j]);
                        }
                    }
                } else {
                    assert(words(text)[k] == before[k]);
                }
            } else {
                if k == before.len() {
                    assert(words(text)[k] =~= seq![text.last()]);
                } else {
                    assert(words(text)[k] == before[k]);
                }
            }
        }
    }
}

/// The characters of `text`, one by one.
pub fn chars_of(text: &str) -> (chars: Vec<char>)
    ensures
        chars@ == text@,
{
    broadcast use vstd::string::group_string_axioms;

    let mut chars: Vec<char> = Vec::new();
    for c in it: text.chars()
        invariant
            it.seq() == text@,
            chars@ =~= text@.take(it.index()),
    {
        chars.push(c);
    }
    chars
}

/// Whether `pattern` stands in `text` at offset `at`.
fn matches_at(text: &Vec<char>, pattern: &Vec<char>, at: usize) -> (found: bool)
    requires
        at + pattern.len() <= text.len(),
    ensures
        found == occurs_at(text@, pattern@, at as int),
{
    let mut k: usize = 0;
    while k < pattern.len()
        invariant
            k <= pattern.len(),
            at + pattern.len() <= text.len(),
            forall|j: int| 0 <= j < k ==> text@[at + j] == pattern@[j],
        decreases pattern.len() - k,
    {
        if text[at + k] != pattern[k] {
            assert(text@.subrange(at as int, at + pattern.len())[k as int] != pattern@[k as int]);
            return false;
        }
        k += 1;
    }
    assert(text@.subrange(at as int, at + pattern.len()) =~= pattern@);
    true
}

/// Whether `pattern` stands somewhere in `text`.
pub fn contains_chars(text: &Vec<char>, pattern: &Vec<char>) -> (found: bool)
    ensures
        found == contains(text@, pattern@),
{
    if pattern.len() > text.len() {
        return false;
    }
    let last: usize = text.len() - pattern.len();
    let mut at: usize = 0;
    while at < last
        invariant
            last == text.len() - pattern.len(),
            at <= last,
            forall|i: int| 0 <= i < at ==> !occurs_at(text@, pattern@, i),
        decreases last - at,
    {
        if matches_at(text, pattern, at) {
            return true;
        }
        at += 1;
    }
    matches_at(text, pattern, last)
}

/// Whether `pattern` stands somewhere in `text`.
pub fn contains_text(text: &str, pattern: &str) -> (found: bool)
    ensures
        found == contains(text@, pattern@),
{
    let text_chars = chars_of(text);
    let pattern_chars = chars_of(pattern);
    contains_chars(&text_chars, &pattern_chars)
}

/// `text` without the characters `c` that it ends with.
pub fn trim_end_matches(text: &str, c: char) -> (trimmed: String)
    ensures
        trimmed@ == trim_end(text@, c),
{
    let chars = chars_of(text);
    let mut end: usize = chars.len();
    assert(text@.take(end as int) =~= text@);
    while end > 0 && chars[end - 1] == c
        invariant
            end <= chars.len(),
            chars@ == text@,
            trim_end(text@, c) == trim_end(text@.take(end as int), c),
        decreases end,
    {
        assert(text@.take(end as int).drop_last() =~= text@.take(end - 1));
        end -= 1;
    }
    text.substring_char(0, end).to_owned()
}

/// The words of `text`, from left to right.
pub fn split_words(text: &str) -> (found: Vec<String>)
    ensures
        text_views(found@) == words(text@),
{
    let chars = chars_of(text);
    let mut found: Vec<String> = Vec::new();
    let mut start: usize = 0;
    let mut inside: bool = false;
    let mut i: usize = 0;
    while i < chars.len()
        invariant
            chars@ == text@,
            i <= chars.len(),
            start <= i,
            inside == (i > 0 && !white_space(text@[i - 1])),
            inside ==> {
                &&& start < i
                &&& words(text@.take(i as int)).len() > 0
                &&& text_views(found@) == words(text@.take(i as int)).drop_last()
                &&& words(text@.take(i as int)).last() == text@.subrange(start as int, i as int)
            },
            !inside ==> text_views(found@) == words(text@.take(i as int)),
        decreases chars.len() - i,
    {
        let ghost before = text@.take(i as int);
        let ghost now = text@.take(i + 1);
        assert(now.drop_last() =~= before);
        assert(now.last() == text@[i as int]);
        assert(i > 0 ==> now[now.len() - 2] == text@[i - 1]);
        if is_white_space(chars[i]) {
            if inside {
                let word = text.substring_char(start, i).to_owned();
                proof {
                    let ghost old_views = text_views(found@);
                    assert(text_views(found@.push(word)) =~= old_views.push(word@));
                    assert(words(before) =~= words(before).drop_last().push(words(before).last()));
                }
                found.push(word);
            }
            inside = false;
        } else {
            if inside {
                assert(text@.subrange(start as int, i + 1) =~= text@.subrange(
                    start as int,
                    i as int,
                ).push(text@[i as int]));
            } else {
                start = i;
                assert(text@.subrange(i as int, i + 1) =~= seq![text@[i as int]]);
            }
            inside = true;
        }
        i += 1;
    }
    assert(text@.take(chars.len() as int) =~= text@);
    if inside {
        let word = text.substring_char(start, i).to_owned();
        proof {
            let ghost old_views = text_views(found@);
            assert(text_views(found@.push(word)) =~= old_views.push(word@));
            assert(words(text@) =~= words(text@).drop_last().push(words(text@).last()));
        }
        found.push(word);
    }
    found
}

/// The end of `text` in UTF-8: all of its bytes where it has at most `max`
/// of them, else the last `max`.
pub open spec fn tail_bytes(text: Seq<char>, max: nat) -> Seq<u8> {
    let bytes = vstd::utf8::encode_utf8(text);
    if bytes.len() <= max {
        bytes
    } else {
        bytes.subrange(bytes.len() - max, bytes.len() as int)
    }
}

/// The last `max` bytes of `text` start with a whole character.
pub open spec fn tail_is_text(text: Seq<char>, max: nat) -> bool {
    let bytes = vstd::utf8::encode_utf8(text);
    bytes.len() > max ==> vstd::utf8::is_char_boundary(bytes, bytes.len() - max)
}

/// The end of `text`: all of it where it has at most `max_chars` bytes, else
/// its last `max_chars` bytes, which must start with a whole character.
pub fn limit_tail(text: &str, max_chars: usize) -> (tail: String)
    requires
        tail_is_text(text@, max_chars as nat),
    ensures
        vstd::utf8::encode_utf8(tail@) == tail_bytes(text@, max_chars as nat),
        vstd::utf8::encode_utf8(text@).len() <= max_chars ==> tail@ == text@,
{
    let len: usize = text.as_bytes().len();
    if len <= max_chars {
        return text.to_owned();
    }
    let start: usize = len - max_chars;
    let (_, end) = text.split_at(start);
    end.to_owned()
}

} // verus!
