//! Text as it comes from the driver and from sysfs: white space, words, C strings.

use vstd::prelude::*;
use vstd::slice::slice_subrange;
use vstd::string::StrSliceExecFns;
use vstd::utf8::{
    decode_utf8, encode_utf8, encode_utf8_decode_utf8, encode_utf8_valid_utf8, valid_utf8,
};

verus! {

/// The characters with the Unicode property `White_Space`.
pub open spec fn is_space(c: char) -> bool {
    let code = c as u32;
    ||| 0x9 <= code <= 0xd
    ||| code == 0x20
    ||| code == 0x85
    ||| code == 0xa0
    ||| code == 0x1680
    ||| 0x2000 <= code <= 0x200a
    ||| code == 0x2028
    ||| code == 0x2029
    ||| code == 0x202f
    ||| code == 0x205f
    ||| code == 0x3000
}

/// The text without the white space at its ends.
pub open spec fn trimmed(text: Seq<char>) -> Seq<char>
    decreases text.len(),
{
    if text.len() == 0 {
        text
    } else if is_space(text[0]) {
        trimmed(text.drop_first())
    } else if is_space(text.last()) {
        trimmed(text.drop_last())
    } else {
        text
    }
}

/// The characters from `start` up to `end` are a word: a run without white space that
/// reaches, to both sides, up to white space or the end of the text.
pub open spec fn is_word_at(text: Seq<char>, start: int, end: int) -> bool {
    &&& 0 <= start < end <= text.len()
    &&& forall|k: int| start <= k < end ==> !is_space(#[trigger] text[k])
    &&& start == 0 || is_space(text[start - 1])
    &&& end == text.len() || is_space(text[end])
}

/// `word` is one of the words of the text.
pub open spec fn has_word(text: Seq<char>, word: Seq<char>) -> bool {
    exists|start: int, end: int|
        #[trigger] is_word_at(text, start, end) && text.subrange(start, end) == word
}

/// Tells white space from other characters.
pub fn is_whitespace(c: char) -> (space: bool)
    ensures
        space == is_space(c),
{
    let code: u32 = c as u32;
    (0x9 <= code && code <= 0xd) || code == 0x20 || code == 0x85 || code == 0xa0 || code == 0x1680
        || (0x2000 <= code && code <= 0x200a) || code == 0x2028 || code == 0x2029 || code == 0x202f
        || code == 0x205f || code == 0x3000
}

/// The characters of a string.
pub fn chars_of(text: &str) -> (chars: Vec<char>)
    ensures
        chars@ == text@,
{
    let mut chars: Vec<char> = Vec::new();
    for c in iter: text.chars()
        invariant
            iter.seq() == text@,
            chars@ == text@.take(iter.index()),
    {
        chars.push(c);
    }
    chars
}

/// The text without the white space at its ends.
pub fn trim(text: &str) -> (inner: &str)
    ensures
        inner@ == trimmed(text@),
{
    let chars = chars_of(text);
    let mut start: usize = 0;
    let mut end: usize = chars.len();
    assert(text@.subrange(0, end as int) == text@);
    while start < end && is_whitespace(chars[start])
        invariant
            chars@ == text@,
            0 <= start <= end == chars.len(),
            trimmed(text@) == trimmed(text@.subrange(start as int, end as int)),
        decreases end - start,
    {
        assert(text@.subrange(start as int, end as int).drop_first() == text@.subrange(
            start + 1,
            end as int,
        ));
        start += 1;
    }
    while start < end && is_whitespace(chars[end - 1])
        invariant
            chars@ == text@,
            0 <= start <= end <= chars.len(),
            start < end ==> !is_space(text@[start as int]),
            trimmed(text@) == trimmed(text@.subrange(start as int, end as int)),
        decreases end - start,
    {
        assert(text@.subrange(start as int, end as int).drop_last() == text@.subrange(
            start as int,
            end - 1,
        ));
        end -= 1;
    }
    text.substring_char(start, end)
}

fn equal_range(chars: &Vec<char>, start: usize, end: usize, word: &Vec<char>) -> (equal: bool)
    requires
        start <= end <= chars.len(),
    ensures
        equal == (chars@.subrange(start as int, end as int) == word@),
{
    if end - start != word.len() {
        return false;
    }
    for k in 0..word.len()
        invariant
            end - start == word.len(),
            end <= chars.len(),
            forall|m: int| 0 <= m < k ==> chars@[start + m] == #[trigger] word@[m],
    {
        if chars[start + k] != word[k] {
            assert(chars@.subrange(start as int, end as int)[k as int] != word@[k as int]);
            return false;
        }
    }
    assert(chars@.subrange(start as int, end as int) == word@);
    true
}

/// Whether `word` is one of the words that white space separates in `text`.
pub fn contains_word(text: &str, word: &str) -> (found: bool)
    ensures
        found == has_word(text@, word@),
{
    let chars = chars_of(text);
    let wanted = chars_of(word);
    let mut i: usize = 0;
    while i < chars.len()
        invariant
            chars@ == text@,
            wanted@ == word@,
            i <= chars.len(),
            i == 0 || i == chars.len() || is_space(text@[i as int]) || is_space(text@[i - 1]),
            forall|a: int, b: int| #[trigger]
                is_word_at(text@, a, b) && a < i ==> text@.subrange(a, b) != word@,
        decreases chars.len() - i,
    {
        if is_whitespace(chars[i]) {
            i += 1;
        } else {
            let mut j: usize = i + 1;
            while j < chars.len() && !is_whitespace(chars[j])
                invariant
                    chars@ == text@,
                    i < j <= chars.len(),
                    forall|k: int| i <= k < j ==> !is_space(#[trigger] text@[k]),
                decreases chars.len() - j,
            {
                j += 1;
            }
            assert(is_word_at(text@, i as int, j as int));
            if equal_range(&chars, i, j, &wanted) {
                return true;
            }
            assert forall|a: int, b: int|
                #[trigger] is_word_at(text@, a, b) && a < j implies text@.subrange(a, b)
                != word@ by {
                if a >= i {
                    if a > i {
                        assert(!is_space(text@[a - 1]));
                    }
                    if b < j {
                        assert(!is_space(text@[b]));
                    }
                    if b > j {
                        assert(is_space(text@[j as int]));
                    }
                    assert(a == i && b == j);
                }
            }
            i = j;
        }
    }
    false
}

/// The bytes before the first zero byte, or all of them where there is none.
pub open spec fn before_nul(bytes: Seq<u8>) -> Seq<u8>
    decreases bytes.len(),
{
    if bytes.len() == 0 || bytes[0] == 0 {
        Seq::empty()
    } else {
        seq![bytes[0]] + before_nul(bytes.drop_first())
    }
}

/// What `String::from_utf8_lossy` makes of bytes that are not UTF-8.
pub uninterp spec fn utf8_lossy(bytes: Seq<u8>) -> Seq<char>;

/// The bytes read as UTF-8, with replacements for what is not UTF-8.
pub open spec fn decoded(bytes: Seq<u8>) -> Seq<char> {
    if valid_utf8(bytes) {
        decode_utf8(bytes)
    } else {
        utf8_lossy(bytes)
    }
}

/// Calls `String::from_utf8_lossy`. Bytes that are UTF-8 come back as the characters they
/// encode; what comes back for other bytes depends on the bytes alone.
#[verifier::external_body]
fn from_utf8_lossy(bytes: &[u8]) -> (text: String)
    ensures
        valid_utf8(bytes@) ==> text@ == decode_utf8(bytes@),
        !valid_utf8(bytes@) ==> text@ == utf8_lossy(bytes@),
{
    String::from_utf8_lossy(bytes).into_owned()
}

/// The text in a buffer that the driver filled: up to the first zero byte, without the white
/// space at its ends.
pub fn buffer_text(bytes: &[u8]) -> (text: String)
    ensures
        text@ == trimmed(decoded(before_nul(bytes@))),
{
    let mut end: usize = 0;
    assert(bytes@.take(0) + before_nul(bytes@.skip(0)) == before_nul(bytes@)) by {
        assert(bytes@.skip(0) == bytes@);
    }
    while end < bytes.len() && bytes[end] != 0
        invariant
            end <= bytes.len(),
            bytes@.take(end as int) + before_nul(bytes@.skip(end as int)) == before_nul(bytes@),
        decreases bytes.len() - end,
    {
        assert(bytes@.skip(end as int).drop_first() == bytes@.skip(end + 1));
        assert(bytes@.take(end + 1) == bytes@.take(end as int) + seq![bytes@[end as int]]);
        end += 1;
    }
    assert(before_nul(bytes@) == bytes@.subrange(0, end as int));
    let text = from_utf8_lossy(slice_subrange(bytes, 0, end));
    trim(text.as_str()).to_owned()
}

/// Trimmed text neither begins nor ends with white space.
pub proof fn law_trimmed_ends(text: Seq<char>)
    ensures
        trimmed(text).len() > 0 ==> !is_space(trimmed(text)[0]) && !is_space(trimmed(text).last()),
    decreases text.len(),
{
    if text.len() > 0 {
        if is_space(text[0]) {
            law_trimmed_ends(text.drop_first());
        } else if is_space(text.last()) {
            law_trimmed_ends(text.drop_last());
        }
    }
}

/// Trimming a second time changes nothing.
pub proof fn law_trim_idempotent(text: Seq<char>)
    ensures
        trimmed(trimmed(text)) == trimmed(text),
{
    law_trimmed_ends(text);
}

/// A line feed after trimmed text is taken off again by trimming.
pub proof fn law_trim_undoes_line_feed(text: Seq<char>)
    requires
        trimmed(text) == text,
    ensures
        trimmed(text.push('\n')) == text,
{
    law_trimmed_ends(text);
    let line = text.push('\n');
    assert(line.drop_last() == text);
    if text.len() == 0 {
        assert(line.drop_first() == text);
    }
}

/// Trimming takes off white space around a text and leaves what neither begins nor ends with
/// it.
pub proof fn law_trim_takes_off_padding(before: Seq<char>, inner: Seq<char>, behind: Seq<char>)
    requires
        forall|k: int| 0 <= k < before.len() ==> is_space(#[trigger] before[k]),
        forall|k: int| 0 <= k < behind.len() ==> is_space(#[trigger] behind[k]),
        inner.len() > 0 ==> !is_space(inner[0]) && !is_space(inner.last()),
    ensures
        trimmed(before + inner + behind) == inner,
    decreases before.len() + behind.len(),
{
    let text = before + inner + behind;
    if before.len() > 0 {
        assert(is_space(before[0]) && text[0] == before[0]);
        let rest = before.drop_first();
        assert forall|k: int| 0 <= k < rest.len() implies is_space(#[trigger] rest[k]) by {
            assert(rest[k] == before[k + 1]);
        }
        assert(text.drop_first() == rest + inner + behind);
        law_trim_takes_off_padding(rest, inner, behind);
    } else if behind.len() > 0 {
        assert(is_space(behind.last()) && text.last() == behind.last());
        let rest = behind.drop_last();
        if inner.len() > 0 {
            assert(text[0] == inner[0]);
            assert(text.drop_last() == before + inner + rest);
            law_trim_takes_off_padding(before, inner, rest);
        } else {
            assert(is_space(behind[0]) && text[0] == behind[0]);
            let shorter = behind.drop_first();
            assert forall|k: int| 0 <= k < shorter.len() implies is_space(
                #[trigger] shorter[k],
            ) by {
                assert(shorter[k] == behind[k + 1]);
            }
            assert(text.drop_first() == before + inner + shorter);
            law_trim_takes_off_padding(before, inner, shorter);
        }
    } else {
        assert(text == inner);
    }
}

/// Every text is its trimmed part with white space before and behind it.
pub proof fn law_trim_keeps_the_rest(text: Seq<char>) -> (ends: (int, int))
    ensures
        0 <= ends.0 <= ends.1 <= text.len(),
        trimmed(text) == text.subrange(ends.0, ends.1),
        forall|k: int| 0 <= k < ends.0 ==> is_space(#[trigger] text[k]),
        forall|k: int| ends.1 <= k < text.len() ==> is_space(#[trigger] text[k]),
    decreases text.len(),
{
    if text.len() == 0 {
        assert(text.subrange(0, 0) == text);
        (0, 0)
    } else if is_space(text[0]) {
        let rest = text.drop_first();
        let (start, end) = law_trim_keeps_the_rest(rest);
        assert(rest.subrange(start, end) == text.subrange(start + 1, end + 1));
        assert forall|k: int| 0 <= k < start + 1 implies is_space(#[trigger] text[k]) by {
            if k > 0 {
                assert(rest[k - 1] == text[k]);
            }
        }
        assert forall|k: int| end + 1 <= k < text.len() implies is_space(#[trigger] text[k]) by {
            assert(rest[k - 1] == text[k]);
        }
        (start + 1, end + 1)
    } else if is_space(text.last()) {
        let rest = text.drop_last();
        let (start, end) = law_trim_keeps_the_rest(rest);
        assert(rest.subrange(start, end) == text.subrange(start, end));
        assert forall|k: int| 0 <= k < start implies is_space(#[trigger] text[k]) by {
            assert(rest[k] == text[k]);
        }
        assert forall|k: int| end <= k < text.len() implies is_space(#[trigger] text[k]) by {
            if k < rest.len() {
                assert(rest[k] == text[k]);
            }
        }
        (start, end)
    } else {
        assert(text.subrange(0, text.len() as int) == text);
        (0, text.len() as int)
    }
}

/// A row of characters without white space, with white space or nothing to both sides of it, is
/// one of the words of the text.
pub proof fn law_word_is_found(before: Seq<char>, word: Seq<char>, behind: Seq<char>)
    requires
        word.len() > 0,
        forall|k: int| 0 <= k < word.len() ==> !is_space(#[trigger] word[k]),
        before.len() == 0 || is_space(before.last()),
        behind.len() == 0 || is_space(behind[0]),
    ensures
        has_word(before + word + behind, word),
{
    let text = before + word + behind;
    let start = before.len() as int;
    let end = start + word.len();
    assert forall|k: int| start <= k < end implies !is_space(#[trigger] text[k]) by {
        assert(text[k] == word[k - start]);
    }
    assert(start > 0 ==> text[start - 1] == before.last());
    assert(end < text.len() ==> text[end] == behind[0]);
    assert(is_word_at(text, start, end));
    assert(text.subrange(start, end) == word);
}

/// A word of a text stands in it, is not empty, holds no white space, and has white space or
/// nothing to both sides of it.
pub proof fn law_word_stands_apart(text: Seq<char>, word: Seq<char>) -> (start: int)
    requires
        has_word(text, word),
    ensures
        0 <= start < start + word.len() <= text.len(),
        text.subrange(start, start + word.len()) == word,
        forall|k: int| 0 <= k < word.len() ==> !is_space(#[trigger] word[k]),
        start > 0 ==> is_space(text[start - 1]),
        start + word.len() < text.len() ==> is_space(text[start + word.len()]),
{
    let (start, end) = choose|start: int, end: int| #[trigger]
        is_word_at(text, start, end) && text.subrange(start, end) == word;
    assert forall|k: int| 0 <= k < word.len() implies !is_space(#[trigger] word[k]) by {
        assert(word[k] == text[start + k]);
    }
    start
}

/// Of a buffer, what stands before the first zero byte counts, and all of it where there is
/// none.
pub proof fn law_buffer_ends_at_nul(head: Seq<u8>, tail: Seq<u8>)
    requires
        forall|k: int| 0 <= k < head.len() ==> #[trigger] head[k] != 0,
    ensures
        before_nul(head) == head,
        before_nul(head + seq![0u8] + tail) == head,
    decreases head.len(),
{
    let whole = head + seq![0u8] + tail;
    if head.len() > 0 {
        let rest = head.drop_first();
        assert forall|k: int| 0 <= k < rest.len() implies #[trigger] rest[k] != 0 by {
            assert(rest[k] == head[k + 1]);
        }
        law_buffer_ends_at_nul(rest, tail);
        assert(head[0] != 0 && whole[0] == head[0]);
        assert(whole.drop_first() == rest + seq![0u8] + tail);
        assert(seq![head[0]] + rest == head);
    } else {
        assert(whole[0] == 0);
    }
}

/// Text that was put into bytes as UTF-8 is read from them again.
pub proof fn law_utf8_reads_back(text: Seq<char>)
    ensures
        decoded(encode_utf8(text)) == text,
{
    encode_utf8_valid_utf8(text);
    encode_utf8_decode_utf8(text);
}

} // verus!
