//! The few operations on text that the line protocol needs.

use vstd::prelude::*;
use vstd::string::StrSliceExecFns;
use vstd::utf8::{decode_utf8, encode_utf8, valid_utf8};

verus! {

/// The characters with the Unicode property `White_Space`.
pub open spec fn white_space(c: char) -> bool {
    let code = c as u32;
    ||| 0x9 <= code <= 0xd
    ||| code == 0x20
    ||| code == 0x85
    ||| code == 0xa0
    ||| code == 0x1680
    ||| 0x2000 <= code <= 0x200a
    ||| code == 0x2028
    ||| code == 0x2029
    ||| code == 0x202f
    ||| code == 0x205f
    ||| code == 0x3000
}

/// Whether a character is white space.
pub fn is_white_space(c: char) -> (white: bool)
    ensures
        white == white_space(c),
{
    let code: u32 = c as u32;
    (0x9 <= code && code <= 0xd) || code == 0x20 || code == 0x85 || code == 0xa0 || code == 0x1680
        || (0x2000 <= code && code <= 0x200a) || code == 0x2028 || code == 0x2029 || code == 0x202f
        || code == 0x205f || code == 0x3000
}

/// `text` without the white space it starts with.
pub open spec fn trimmed_start(text: Seq<char>) -> Seq<char>
    decreases text.len(),
{
    if text.len() > 0 && white_space(text.first()) {
        trimmed_start(text.drop_first())
    } else {
        text
    }
}

/// `text` without the white space it ends with.
pub open spec fn trimmed_end(text: Seq<char>) -> Seq<char>
    decreases text.len(),
{
    if text.len() > 0 && white_space(text.last()) {
        trimmed_end(text.drop_last())
    } else {
        text
    }
}

/// `text` without the white space around it.
pub open spec fn trimmed(text: Seq<char>) -> Seq<char> {
    trimmed_end(trimmed_start(text))
}

/// `text` starts with `prefix`.
pub open spec fn has_prefix(text: Seq<char>, prefix: Seq<char>) -> bool {
    prefix.len() <= text.len() && text.take(prefix.len() as int) == prefix
}

/// `pattern` stands somewhere in `text`.
pub open spec fn occurs_in(pattern: Seq<char>, text: Seq<char>) -> bool {
    exists|at: int| #[trigger] occurs_at(pattern, text, at)
}

/// `pattern` stands in `text` from position `at` on.
pub open spec fn occurs_at(pattern: Seq<char>, text: Seq<char>, at: int) -> bool {
    0 <= at && at + pattern.len() <= text.len() && text.subrange(at, at + pattern.len()) == pattern
}

/// The characters of a string.
pub fn chars_of(text: &str) -> (chars: Vec<char>)
    ensures
        chars@ == text@,
{
    let mut chars: Vec<char> = Vec::new();
    for c in iter: text.chars()
        invariant
            iter.seq() == text@,
            chars@ == text@.take(iter.index()),
    {
        chars.push(c);
    }
    assert(text@.take(text@.len() as int) == text@);
    chars
}

/// The string without the white space around it.
pub fn trim(text: &str) -> (inner: &str)
    ensures
        inner@ == trimmed(text@),
{
    let chars: Vec<char> = chars_of(text);
    let mut from: usize = 0;
    assert(text@.skip(0) == text@);
    while from < chars.len() && is_white_space(chars[from])
        invariant
            chars@ == text@,
            from <= chars.len(),
            trimmed_start(text@) == trimmed_start(text@.skip(from as int)),
        decreases chars.len() - from,
    {
        assert(text@.skip(from as int).drop_first() == text@.skip(from + 1));
        from = from + 1;
    }
    let ghost started = text@.skip(from as int);
    assert(started == trimmed_start(text@));
    let mut to: usize = chars.len();
    assert(text@.subrange(from as int, to as int) == started);
    while from < to && is_white_space(chars[to - 1])
        invariant
            chars@ == text@,
            from <= to <= chars.len(),
            trimmed_end(started) == trimmed_end(text@.subrange(from as int, to as int)),
        decreases to - from,
    {
        assert(text@.subrange(from as int, to as int).drop_last() == text@.subrange(
            from as int,
            to - 1,
        ));
        to = to - 1;
    }
    text.substring_char(from, to)
}

/// Whether `pattern` stands in `text` from position `at` on.
fn stands_at(pattern: &Vec<char>, text: &Vec<char>, at: usize) -> (found: bool)
    requires
        at + pattern@.len() <= text@.len(),
    ensures
        found == occurs_at(pattern@, text@, at as int),
{
    let length: usize = text.len();
    let mut i: usize = 0;
    while i < pattern.len()
        invariant
            i <= pattern.len(),
            length == text@.len(),
            at + pattern@.len() <= length,
            forall|k: int| 0 <= k < i ==> pattern@[k] == text@[at + k],
        decreases pattern.len() - i,
    {
        if pattern[i] != text[at + i] {
            assert(text@.subrange(at as int, at + pattern@.len())[i as int] == text@[at + i]);
            return false;
        }
        i = i + 1;
    }
    assert(text@.subrange(at as int, at + pattern@.len()) == pattern@);
    true
}

/// What follows `prefix` in `text`, where `text` starts with it.
pub fn strip_prefix<'a>(text: &'a str, prefix: &str) -> (rest: Option<&'a str>)
    ensures
        rest is Some <==> has_prefix(text@, prefix@),
        rest matches Some(rest) ==> rest@ == text@.skip(prefix@.len() as int),
{
    let chars: Vec<char> = chars_of(text);
    let start: Vec<char> = chars_of(prefix);
    if start.len() <= chars.len() && stands_at(&start, &chars, 0) {
        assert(text@.subrange(0, prefix@.len() as int) == text@.take(prefix@.len() as int));
        Some(text.substring_char(start.len(), chars.len()))
    } else {
        assert(prefix@.len() <= text@.len() ==> text@.subrange(0, prefix@.len() as int)
            == text@.take(prefix@.len() as int));
        None
    }
}

/// Whether `pattern` stands somewhere in `text`.
pub fn contains(text: &str, pattern: &str) -> (found: bool)
    ensures
        found == occurs_in(pattern@, text@),
{
    let chars: Vec<char> = chars_of(text);
    let wanted: Vec<char> = chars_of(pattern);
    if wanted.len() > chars.len() {
        return false;
    }
    let last: usize = chars.len() - wanted.len();
    let mut at: usize = 0;
    while at < last
        invariant
            chars@ == text@,
            wanted@ == pattern@,
            last + wanted@.len() == chars@.len(),
            at <= last,
            forall|k: int| 0 <= k < at ==> !occurs_at(pattern@, text@, k),
        decreases last - at,
    {
        if stands_at(&wanted, &chars, at) {
            return true;
        }
        at = at + 1;
    }
    stands_at(&wanted, &chars, last)
}

/// The text that `String::from_utf8_lossy` reads in bytes that are not valid
/// UTF-8: what cannot be read is replaced by U+FFFD.
pub uninterp spec fn repaired_utf8(bytes: Seq<u8>) -> Seq<char>;

/// The text in some bytes, with replacement characters where they are not
/// valid UTF-8.
pub open spec fn utf8_text(bytes: Seq<u8>) -> Seq<char> {
    if valid_utf8(bytes) {
        decode_utf8(bytes)
    } else {
        repaired_utf8(bytes)
    }
}

/// Calls `String::from_utf8_lossy`. Trusted: bytes that are valid UTF-8 are
/// decoded, and the text read in other bytes depends on those bytes alone. How
/// many replacement characters stand for an invalid sequence is not stated.
#[verifier::external_body]
pub(crate) fn from_utf8_lossy(bytes: &[u8]) -> (text: String)
    ensures
        text@ == (if valid_utf8(bytes@) {
            decode_utf8(bytes@)
        } else {
            repaired_utf8(bytes@)
        }),
{
    String::from_utf8_lossy(bytes).into_owned()
}

proof fn trimmed_start_begins_well(text: Seq<char>)
    ensures
        trimmed_start(text).len() > 0 ==> !white_space(trimmed_start(text).first()),
    decreases text.len(),
{
    if text.len() > 0 && white_space(text.first()) {
        trimmed_start_begins_well(text.drop_first());
    }
}

proof fn trimmed_end_ends_well(text: Seq<char>)
    ensures
        trimmed_end(text).len() > 0 ==> {
            &&& !white_space(trimmed_end(text).last())
            &&& trimmed_end(text).first() == text.first()
        },
    decreases text.len(),
{
    if text.len() > 0 && white_space(text.last()) {
        trimmed_end_ends_well(text.drop_last());
    }
}

/// Trimmed text neither starts nor ends with white space, so trimming it again
/// changes nothing.
pub proof fn trimmed_is_clean(text: Seq<char>)
    ensures
        trimmed(text).len() > 0 ==> {
            &&& !white_space(trimmed(text).first())
            &&& !white_space(trimmed(text).last())
        },
        trimmed(trimmed(text)) == trimmed(text),
{
    trimmed_start_begins_well(text);
    trimmed_end_ends_well(trimmed_start(text));
}

/// The twenty-five characters that Unicode gives the property `White_Space`, by
/// their numbers.
pub open spec fn white_space_codes() -> Seq<u32> {
    seq![
        9u32, 10, 11, 12, 13, 32, 133, 160, 5760, 8192, 8193, 8194, 8195, 8196, 8197, 8198, 8199,
        8200, 8201, 8202, 8232, 8233, 8239, 8287, 12288,
    ]
}

/// White space is what is on the list of Unicode, and nothing else.
pub proof fn white_space_is_what_unicode_lists(c: char)
    ensures
        white_space(c) <==> white_space_codes().contains(c as u32),
{
    let codes = white_space_codes();
    let code = c as u32;
    if white_space(c) {
        let at: int = if code <= 13 {
            code - 9
        } else if code == 32 {
            5
        } else if code == 133 {
            6
        } else if code == 160 {
            7
        } else if code == 5760 {
            8
        } else if code <= 8202 {
            code - 8192 + 9
        } else if code == 8232 {
            20
        } else if code == 8233 {
            21
        } else if code == 8239 {
            22
        } else if code == 8287 {
            23
        } else {
            24
        };
        assert(codes[at] == code);
    }
}

/// There is nothing but white space in `text`.
pub open spec fn all_white(text: Seq<char>) -> bool {
    forall|i: int| 0 <= i < text.len() ==> white_space(#[trigger] text[i])
}

/// `text` neither starts nor ends with white space.
pub open spec fn clean_at_its_ends(text: Seq<char>) -> bool {
    text.len() > 0 ==> !white_space(text[0]) && !white_space(text[text.len() - 1])
}

proof fn white_start_is_trimmed(before: Seq<char>, text: Seq<char>)
    requires
        all_white(before),
    ensures
        trimmed_start(before + text) == trimmed_start(text),
    decreases before.len(),
{
    if before.len() == 0 {
        assert(before + text =~= text);
    } else {
        assert((before + text).first() == before[0]);
        assert((before + text).drop_first() =~= before.drop_first() + text);
        assert forall|i: int| 0 <= i < before.drop_first().len() implies white_space(
            #[trigger] before.drop_first()[i],
        ) by {
            assert(white_space(before[i + 1]));
        }
        white_start_is_trimmed(before.drop_first(), text);
    }
}

proof fn white_end_is_trimmed(text: Seq<char>, after: Seq<char>)
    requires
        all_white(after),
    ensures
        trimmed_end(text + after) == trimmed_end(text),
    decreases after.len(),
{
    if after.len() == 0 {
        assert(text + after =~= text);
    } else {
        assert((text + after).last() == after[after.len() - 1]);
        assert((text + after).drop_last() =~= text + after.drop_last());
        assert forall|i: int| 0 <= i < after.drop_last().len() implies white_space(
            #[trigger] after.drop_last()[i],
        ) by {
            assert(white_space(after[i]));
        }
        white_end_is_trimmed(text, after.drop_last());
    }
}

/// Trimming undoes padding: text that neither starts nor ends with white space
/// comes back as it was, whatever white space is put around it.
pub proof fn trimming_undoes_padding(before: Seq<char>, inner: Seq<char>, after: Seq<char>)
    requires
        all_white(before),
        all_white(after),
        clean_at_its_ends(inner),
    ensures
        trimmed(before + inner + after) == inner,
{
    assert(before + inner + after =~= before + (inner + after));
    white_start_is_trimmed(before, inner + after);
    if inner.len() > 0 {
        assert((inner + after).first() == inner[0]);
        assert(trimmed_start(inner + after) == inner + after);
        white_end_is_trimmed(inner, after);
        assert(inner.last() == inner[inner.len() - 1]);
        assert(trimmed_end(inner) == inner);
    } else {
        assert(inner + after =~= after + inner);
        white_start_is_trimmed(after, inner);
        assert(inner =~= Seq::empty());
    }
}

/// How much of `text` is white space at its start.
proof fn white_start_length(text: Seq<char>) -> (length: int)
    ensures
        0 <= length <= text.len(),
        all_white(text.take(length)),
        trimmed_start(text) == text.skip(length),
    decreases text.len(),
{
    if text.len() > 0 && white_space(text.first()) {
        let rest = text.drop_first();
        let length = white_start_length(rest);
        assert forall|i: int| 0 <= i < length + 1 implies white_space(
            #[trigger] text.take(length + 1)[i],
        ) by {
            if i > 0 {
                assert(rest.take(length)[i - 1] == text[i]);
            }
        }
        assert(rest.skip(length) =~= text.skip(length + 1));
        length + 1
    } else {
        assert(text.skip(0) =~= text);
        0
    }
}

/// Where the white space at the end of `text` starts.
proof fn white_end_start(text: Seq<char>) -> (start: int)
    ensures
        0 <= start <= text.len(),
        all_white(text.skip(start)),
        trimmed_end(text) == text.take(start),
    decreases text.len(),
{
    if text.len() > 0 && white_space(text.last()) {
        let rest = text.drop_last();
        let start = white_end_start(rest);
        assert forall|i: int| 0 <= i < text.len() - start implies white_space(
            #[trigger] text.skip(start)[i],
        ) by {
            if i < rest.len() - start {
                assert(rest.skip(start)[i] == text[start + i]);
            }
        }
        assert(rest.take(start) =~= text.take(start));
        start
    } else {
        assert(text.take(text.len() as int) =~= text);
        text.len() as int
    }
}

/// Trimming takes off white space and nothing else: every text is white space,
/// then its trimmed text, then white space.
pub proof fn trimming_takes_off_white_space_only(text: Seq<char>)
    ensures
        exists|from: int, to: int|
            {
                &&& 0 <= from <= to <= text.len()
                &&& trimmed(text) == #[trigger] text.subrange(from, to)
                &&& all_white(text.take(from))
                &&& all_white(text.skip(to))
            },
        clean_at_its_ends(trimmed(text)),
{
    let from = white_start_length(text);
    let started = text.skip(from);
    let length = white_end_start(started);
    let to = from + length;
    assert(started.take(length) =~= text.subrange(from, to));
    assert(started.skip(length) =~= text.skip(to));
    trimmed_is_clean(text);
}

/// Text starts with a prefix if and only if it is the prefix and some rest.
pub proof fn prefix_is_followed_by_a_rest(text: Seq<char>, prefix: Seq<char>, rest: Seq<char>)
    ensures
        has_prefix(prefix + rest, prefix),
        has_prefix(text, prefix) ==> text == prefix + text.skip(prefix.len() as int),
{
    assert((prefix + rest).take(prefix.len() as int) =~= prefix);
    if has_prefix(text, prefix) {
        assert(text =~= text.take(prefix.len() as int) + text.skip(prefix.len() as int));
    }
}

/// A pattern stands in some text if and only if the text is something, then
/// the pattern, then something.
pub proof fn pattern_stands_between_the_rest(
    text: Seq<char>,
    pattern: Seq<char>,
    before: Seq<char>,
    after: Seq<char>,
)
    ensures
        occurs_in(pattern, before + pattern + after),
        occurs_in(pattern, text) ==> exists|first: Seq<char>, last: Seq<char>|
            text == #[trigger] (first + pattern + last),
{
    let whole = before + pattern + after;
    assert(whole.subrange(before.len() as int, (before.len() + pattern.len()) as int) =~= pattern);
    assert(occurs_at(pattern, whole, before.len() as int));
    if occurs_in(pattern, text) {
        let at = choose|at: int| #[trigger] occurs_at(pattern, text, at);
        let first = text.take(at);
        let last = text.skip(at + pattern.len());
        assert(text =~= first + pattern + last);
    }
}

/// Text that was written in UTF-8 is read as it was, and bytes that are not
/// UTF-8 are read with the replacement characters in them.
pub proof fn utf8_is_read_as_written(text: Seq<char>, bytes: Seq<u8>)
    ensures
        utf8_text(encode_utf8(text)) == text,
        !valid_utf8(bytes) ==> utf8_text(bytes) == repaired_utf8(bytes),
{
    vstd::utf8::encode_utf8_valid_utf8(text);
    vstd::utf8::encode_utf8_decode_utf8(text);
}

} // verus!
