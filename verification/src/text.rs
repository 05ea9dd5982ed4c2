//! Searching and comparing text. The work is done on the UTF-8 encoding;
//! the contracts speak of characters.

use vstd::prelude::*;
use vstd::utf8::*;
use vstd::string::*;

verus! {

/// `needle` stands in `hay` from position `at` on.
pub open spec fn occurs_at(hay: Seq<u8>, needle: Seq<u8>, at: int) -> bool {
    &&& 0 <= at
    &&& at + needle.len() <= hay.len()
    &&& hay.subrange(at, at + needle.len()) == needle
}

/// `needle` stands somewhere in `hay` as an unbroken run.
pub open spec fn has_run(hay: Seq<u8>, needle: Seq<u8>) -> bool {
    exists|at: int| occurs_at(hay, needle, at)
}

/// `phrase` stands in `text` from character `at` on.
pub open spec fn stands_at(text: Seq<char>, phrase: Seq<char>, at: int) -> bool {
    &&& 0 <= at
    &&& at + phrase.len() <= text.len()
    &&& text.subrange(at, at + phrase.len()) == phrase
}

/// `phrase` stands somewhere in `text`, character for character.
pub open spec fn mentions(text: Seq<char>, phrase: Seq<char>) -> bool {
    exists|at: int| stands_at(text, phrase, at)
}

/// The encoding of two texts in a row is the two encodings in a row.
pub proof fn lemma_encode_concat(first: Seq<char>, second: Seq<char>)
    ensures
        encode_utf8(first + second) == encode_utf8(first) + encode_utf8(second),
    decreases first.len(),
{
    if first.len() == 0 {
        assert(first + second == second);
        assert(encode_utf8(first) + encode_utf8(second) == encode_utf8(second));
    } else {
        let both = first + second;
        assert(both.drop_first() == first.drop_first() + second);
        assert(both[0] == first[0]);
        lemma_encode_concat(first.drop_first(), second);
        assert(encode_utf8(both) == encode_scalar(first[0] as u32) + (encode_utf8(
            first.drop_first(),
        ) + encode_utf8(second)));
        assert(encode_utf8(both) == encode_utf8(first) + encode_utf8(second));
    }
}

/// Where the first `len` bytes of an encoding are an encoding themselves, a
/// character ends at `len`.
proof fn lemma_valid_prefix_ends_a_char(bytes: Seq<u8>, len: int)
    requires
        valid_utf8(bytes),
        0 <= len <= bytes.len(),
        valid_utf8(bytes.subrange(0, len)),
    ensures
        is_char_boundary(bytes, len),
    decreases bytes.len(),
{
    if len > 0 {
        let prefix = bytes.subrange(0, len);
        assert(prefix[0] == bytes[0]);
        assert(valid_first_scalar(prefix));
        let width = length_of_first_scalar(prefix);
        assert(width == length_of_first_scalar(bytes));
        assert(width <= len);
        assert(pop_first_scalar(prefix) == pop_first_scalar(bytes).subrange(0, len - width));
        lemma_valid_prefix_ends_a_char(pop_first_scalar(bytes), len - width);
    }
}

/// A run of the phrase's bytes in the text's bytes is the phrase itself in
/// the text.
proof fn lemma_run_is_a_mention(text: Seq<char>, phrase: Seq<char>, at: int)
    requires
        occurs_at(encode_utf8(text), encode_utf8(phrase), at),
    ensures
        mentions(text, phrase),
{
    let hay = encode_utf8(text);
    let needle = encode_utf8(phrase);
    encode_utf8_valid_utf8(text);
    encode_utf8_valid_utf8(phrase);
    encode_utf8_decode_utf8(text);
    encode_utf8_decode_utf8(phrase);
    if needle.len() == 0 {
        assert(phrase.len() == 0);
        assert(text.subrange(0, 0) == phrase);
        assert(stands_at(text, phrase, 0));
    } else {
        assert(hay.subrange(at, at + needle.len())[0] == hay[at]);
        is_char_boundary_start_end_of_seq(needle);
        is_char_boundary_iff_not_is_continuation_byte(needle, 0);
        is_char_boundary_iff_not_is_continuation_byte(hay, at);
        valid_utf8_split(hay, at);
        decode_utf8_split(hay, at);
        let tail = hay.subrange(at, hay.len() as int);
        assert(tail.subrange(0, needle.len() as int) == needle);
        lemma_valid_prefix_ends_a_char(tail, needle.len() as int);
        decode_utf8_split(tail, needle.len() as int);
        let before = decode_utf8(hay.subrange(0, at));
        let after = decode_utf8(tail.subrange(needle.len() as int, tail.len() as int));
        assert(text == before + (phrase + after));
        assert(text.subrange(before.len() as int, (before.len() + phrase.len()) as int) == phrase);
        assert(stands_at(text, phrase, before.len() as int));
    }
}

/// Where the phrase stands in the text, its bytes are a run of the text's
/// bytes.
proof fn lemma_mention_is_a_run(text: Seq<char>, phrase: Seq<char>, at: int)
    requires
        stands_at(text, phrase, at),
    ensures
        has_run(encode_utf8(text), encode_utf8(phrase)),
{
    let before = text.subrange(0, at);
    let after = text.subrange(at + phrase.len(), text.len() as int);
    assert(text == before + (phrase + after));
    lemma_encode_concat(phrase, after);
    lemma_encode_concat(before, phrase + after);
    let hay = encode_utf8(text);
    let needle = encode_utf8(phrase);
    let start = encode_utf8(before).len() as int;
    assert(hay == encode_utf8(before) + (needle + encode_utf8(after)));
    assert(hay.subrange(start, start + needle.len()) == needle);
    assert(occurs_at(hay, needle, start));
}

/// A phrase stands in a text exactly when the bytes of its encoding are a
/// run of the bytes of the text's encoding.
pub proof fn lemma_mentions_by_bytes(text: Seq<char>, phrase: Seq<char>)
    ensures
        mentions(text, phrase) <==> has_run(encode_utf8(text), encode_utf8(phrase)),
{
    if mentions(text, phrase) {
        let at = choose|at: int| stands_at(text, phrase, at);
        lemma_mention_is_a_run(text, phrase, at);
    }
    if has_run(encode_utf8(text), encode_utf8(phrase)) {
        let at = choose|at: int| occurs_at(encode_utf8(text), encode_utf8(phrase), at);
        lemma_run_is_a_mention(text, phrase, at);
    }
}

/// Whether `needle` stands in `hay` from position `at` on.
fn matches_at(hay: &[u8], needle: &[u8], at: usize) -> (found: bool)
    requires
        at + needle@.len() <= hay@.len(),
    ensures
        found == occurs_at(hay@, needle@, at as int),
{
    let mut i: usize = 0;
    let end: usize = hay.len();
    while i < needle.len()
        invariant
            i <= needle@.len(),
            at + needle@.len() <= hay@.len(),
            hay@.len() == end,
            forall|k: int| 0 <= k < i ==> hay@[at + k] == needle@[k],
        decreases needle@.len() - i,
    {
        if hay[at + i] != needle[i] {
            proof {
                assert(hay@.subrange(at as int, at + needle@.len())[i as int] == hay@[at + i]);
            }
            return false;
        }
        i += 1;
    }
    proof {
        assert(hay@.subrange(at as int, at + needle@.len()) =~= needle@);
    }
    true
}

/// Whether `needle` stands somewhere in `hay` as an unbroken run.
pub fn find_run(hay: &[u8], needle: &[u8]) -> (found: bool)
    ensures
        found == has_run(hay@, needle@),
{
    if needle.len() > hay.len() {
        return false;
    }
    let last: usize = hay.len() - needle.len();
    let mut at: usize = 0;
    while at < last
        invariant
            at <= last,
            last == hay@.len() - needle@.len(),
            forall|k: int| 0 <= k < at ==> !occurs_at(hay@, needle@, k),
        decreases last - at,
    {
        if matches_at(hay, needle, at) {
            return true;
        }
        at += 1;
    }
    matches_at(hay, needle, last)
}

/// Whether `phrase` occurs in `text`.
pub fn contains_text(text: &str, phrase: &str) -> (found: bool)
    ensures
        found == mentions(text@, phrase@),
{
    proof {
        lemma_mentions_by_bytes(text@, phrase@);
    }
    find_run(text.as_bytes(), phrase.as_bytes())
}

/// Whether two texts are the same.
pub fn same_text(a: &str, b: &str) -> (same: bool)
    ensures
        same == (a@ == b@),
{
    let x = a.as_bytes();
    let y = b.as_bytes();
    proof {
        encode_utf8_decode_utf8(a@);
        encode_utf8_decode_utf8(b@);
    }
    if x.len() != y.len() {
        return false;
    }
    let found = matches_at(x, y, 0);
    proof {
        assert(x@.subrange(0, y@.len() as int) == x@);
    }
    found
}

} // verus!
