//! From free text to a slug.

use crate::text::{ascii_lower, ascii_lowercase, lowercase, push_char, to_lowercase};
use vstd::prelude::*;

verus! {

/// The character that stands for whitespace in a slug.
pub const SEPARATOR: char = '-';

/// The code points that Unicode counts as white space (`White_Space`).
pub open spec fn is_space(c: char) -> bool {
    let u = c as u32;
    ||| 0x0009 <= u <= 0x000D
    ||| u == 0x0020
    ||| u == 0x0085
    ||| u == 0x00A0
    ||| u == 0x1680
    ||| 0x2000 <= u <= 0x200A
    ||| u == 0x2028
    ||| u == 0x2029
    ||| u == 0x202F
    ||| u == 0x205F
    ||| u == 0x3000
}

/// The characters a slug is made of: `a` to `z`, `0` to `9` and the separator.
pub open spec fn is_slug_char(c: char) -> bool {
    ||| 'a' <= c <= 'z'
    ||| '0' <= c <= '9'
    ||| c == SEPARATOR
}

/// Whether `c` is Unicode whitespace.
pub fn is_whitespace(c: char) -> (b: bool)
    ensures
        b == is_space(c),
{
    let u: u32 = c as u32;
    (0x0009 <= u && u <= 0x000D) || u == 0x0020 || u == 0x0085 || u == 0x00A0 || u == 0x1680 || (
    0x2000 <= u && u <= 0x200A) || u == 0x2028 || u == 0x2029 || u == 0x202F || u == 0x205F || u
        == 0x3000
}

/// Whether a slug may hold `c`.
pub fn is_slug_character(c: char) -> (b: bool)
    ensures
        b == is_slug_char(c),
{
    ('a' <= c && c <= 'z') || ('0' <= c && c <= '9') || c == SEPARATOR
}

/// What one character of the lowered text leaves in the slug: whitespace leaves
/// the separator, a slug character leaves itself, anything else leaves nothing.
pub open spec fn slug_image(c: char) -> Option<char> {
    if is_space(c) {
        Some(SEPARATOR)
    } else if is_slug_char(c) {
        Some(c)
    } else {
        None
    }
}

/// `slug_image` as a function value.
pub open spec fn slug_image_fn() -> spec_fn(char) -> Option<char> {
    |c: char| slug_image(c)
}

/// The images of the characters of `text`, in order, before trimming.
pub open spec fn raw_slug(text: Seq<char>) -> Seq<char> {
    text.filter_map(slug_image_fn())
}

/// `text` without its leading separators.
pub open spec fn trim_start(text: Seq<char>) -> Seq<char>
    decreases text.len(),
{
    if text.len() > 0 && text[0] == SEPARATOR {
        trim_start(text.drop_first())
    } else {
        text
    }
}

/// `text` without its trailing separators.
pub open spec fn trim_end(text: Seq<char>) -> Seq<char>
    decreases text.len(),
{
    if text.len() > 0 && text.last() == SEPARATOR {
        trim_end(text.drop_last())
    } else {
        text
    }
}

/// `text` without its leading and trailing separators.
pub open spec fn trim(text: Seq<char>) -> Seq<char> {
    trim_end(trim_start(text))
}

/// The slug of a text that is already in lowercase.
pub open spec fn slug_of_lowercase(lowered: Seq<char>) -> Seq<char> {
    trim(raw_slug(lowered))
}

/// The slug of `text`.
pub open spec fn slug_of(text: Seq<char>) -> Seq<char> {
    slug_of_lowercase(lowercase(text))
}

/// A well-formed slug: slug characters only, and no separator at either end.
pub open spec fn is_slug(text: Seq<char>) -> bool {
    &&& forall|i: int| 0 <= i < text.len() ==> is_slug_char(#[trigger] text[i])
    &&& text.len() > 0 ==> text[0] != SEPARATOR && text.last() != SEPARATOR
}

/// Maps each character of `lowered` to its image and collects the images.
fn collect_raw_slug(lowered: &str) -> (raw: Vec<char>)
    ensures
        raw@ == raw_slug(lowered@),
{
    let mut raw: Vec<char> = Vec::new();
    for c in it: lowered.chars()
        invariant
            it.seq() == lowered@,
            raw@ == raw_slug(lowered@.take(it.index())),
    {
        proof {
            lowered@.lemma_filter_map_take_succ(slug_image_fn(), it.index());
        }
        if is_whitespace(c) {
            raw.push(SEPARATOR);
        } else if is_slug_character(c) {
            raw.push(c);
        }
    }
    assert(lowered@.take(lowered@.len() as int) == lowered@);
    raw
}

/// Builds the slug of a text that is already in lowercase.
pub fn slug_from_lowercase(lowered: &str) -> (slug: String)
    ensures
        slug@ == slug_of_lowercase(lowered@),
        is_slug(slug@),
{
    proof {
        lemma_slug_is_well_formed(lowered@);
    }
    let raw = collect_raw_slug(lowered);
    let mut start: usize = 0;
    assert(raw@.skip(0) == raw@);
    while start < raw.len() && raw[start] == SEPARATOR
        invariant
            start <= raw.len(),
            trim_start(raw@) == trim_start(raw@.skip(start as int)),
        decreases raw.len() - start,
    {
        assert(raw@.skip(start as int).drop_first() == raw@.skip(start + 1));
        start += 1;
    }
    let ghost front = raw@.skip(start as int);
    assert(trim_start(raw@) == front);
    let mut end: usize = raw.len();
    while end > start && raw[end - 1] == SEPARATOR
        invariant
            start <= end <= raw.len(),
            front == raw@.skip(start as int),
            trim_end(front) == trim_end(raw@.subrange(start as int, end as int)),
        decreases end,
    {
        assert(raw@.subrange(start as int, end as int).drop_last() == raw@.subrange(
            start as int,
            end - 1,
        ));
        end -= 1;
    }
    assert(trim(raw@) == raw@.subrange(start as int, end as int));
    let mut slug = String::new();
    for i in start..end
        invariant
            start <= end <= raw.len(),
            slug@ == raw@.subrange(start as int, i as int),
    {
        push_char(&mut slug, raw[i]);
        assert(raw@.subrange(start as int, i + 1) == raw@.subrange(start as int, i as int).push(
            raw@[i as int],
        ));
    }
    slug
}

/// Builds the slug of `text`: the text is put in lowercase, whitespace becomes
/// the separator, characters other than `a` to `z`, `0` to `9` and the separator
/// are dropped, and separators at either end are removed.
pub fn slugify(text: &str) -> (slug: String)
    ensures
        slug@ == slug_of(text@),
        is_slug(slug@),
{
    let lowered = to_lowercase(text);
    slug_from_lowercase(lowered.as_str())
}

/// Before trimming, a slug holds slug characters only.
pub proof fn lemma_raw_slug_chars(text: Seq<char>)
    ensures
        forall|i: int| 0 <= i < raw_slug(text).len() ==> is_slug_char(#[trigger] raw_slug(text)[i]),
    decreases text.len(),
{
    if text.len() > 0 {
        lemma_raw_slug_chars(text.drop_last());
        let rest = raw_slug(text.drop_last());
        assert forall|i: int| 0 <= i < raw_slug(text).len() implies is_slug_char(
            #[trigger] raw_slug(text)[i],
        ) by {
            if i < rest.len() {
                assert(raw_slug(text)[i] == rest[i]);
            }
        }
    }
}

/// A text of slug characters is its own raw slug.
pub proof fn lemma_raw_slug_keeps_slug_chars(text: Seq<char>)
    requires
        forall|i: int| 0 <= i < text.len() ==> is_slug_char(#[trigger] text[i]),
    ensures
        raw_slug(text) == text,
    decreases text.len(),
{
    if text.len() > 0 {
        lemma_raw_slug_keeps_slug_chars(text.drop_last());
        assert(is_slug_char(text.last()));
        assert(text.drop_last() + seq![text.last()] == text);
    }
}

/// `trim_start` drops a run of separators from the front and stops at the
/// first character that is none.
pub proof fn lemma_trim_start(text: Seq<char>)
    ensures
        trim_start(text).len() <= text.len(),
        trim_start(text) == text.skip(text.len() - trim_start(text).len()),
        forall|i: int|
            0 <= i < text.len() - trim_start(text).len() ==> #[trigger] text[i] == SEPARATOR,
        trim_start(text).len() > 0 ==> trim_start(text)[0] != SEPARATOR,
    decreases text.len(),
{
    if text.len() > 0 && text[0] == SEPARATOR {
        let rest = text.drop_first();
        lemma_trim_start(rest);
        let dropped = rest.len() - trim_start(rest).len();
        assert(rest.skip(dropped) == text.skip(dropped + 1));
        assert forall|i: int| 0 <= i < dropped + 1 implies #[trigger] text[i] == SEPARATOR by {
            if i > 0 {
                assert(rest[i - 1] == SEPARATOR);
            }
        }
    } else {
        assert(text.skip(0) == text);
    }
}

/// `trim_end` drops a run of separators from the back and stops at the last
/// character that is none.
pub proof fn lemma_trim_end(text: Seq<char>)
    ensures
        trim_end(text).len() <= text.len(),
        trim_end(text) == text.take(trim_end(text).len() as int),
        forall|i: int| trim_end(text).len() <= i < text.len() ==> #[trigger] text[i] == SEPARATOR,
        trim_end(text).len() > 0 ==> trim_end(text).last() != SEPARATOR,
    decreases text.len(),
{
    if text.len() > 0 && text.last() == SEPARATOR {
        let rest = text.drop_last();
        lemma_trim_end(rest);
        assert(rest.take(trim_end(rest).len() as int) == text.take(trim_end(rest).len() as int));
        assert forall|i: int| trim_end(rest).len() <= i < text.len() implies #[trigger] text[i]
            == SEPARATOR by {
            if i < rest.len() {
                assert(rest[i] == SEPARATOR);
            }
        }
    } else {
        assert(text.take(text.len() as int) == text);
    }
}

/// Trimming keeps a stretch of the text that neither starts nor ends with a
/// separator, and drops separators only.
pub proof fn lemma_trim(text: Seq<char>)
    ensures
        trim(text).len() > 0 ==> trim(text)[0] != SEPARATOR && trim(text).last() != SEPARATOR,
        exists|from: int|
            {
                &&& 0 <= from <= from + trim(text).len() <= text.len()
                &&& trim(text) == #[trigger] text.subrange(from, from + trim(text).len())
                &&& forall|i: int|
                    0 <= i < from || from + trim(text).len() <= i < text.len() ==> #[trigger] text[i]
                        == SEPARATOR
            },
{
    let front = trim_start(text);
    lemma_trim_start(text);
    lemma_trim_end(front);
    let from = text.len() - front.len();
    let kept = trim(text);
    assert(kept == text.subrange(from, from + kept.len()));
    assert forall|i: int| 0 <= i < from || from + kept.len() <= i < text.len() implies #[trigger] text[i]
        == SEPARATOR by {
        if i >= from {
            assert(front[i - from] == SEPARATOR);
        }
    }
    if kept.len() > 0 {
        assert(kept[0] == front[0]);
    }
}

/// A text that neither starts nor ends with a separator is left as it is.
pub proof fn lemma_trim_keeps_trimmed(text: Seq<char>)
    requires
        text.len() > 0 ==> text[0] != SEPARATOR && text.last() != SEPARATOR,
    ensures
        trim(text) == text,
{
}

/// Every slug is well formed: it holds `a` to `z`, `0` to `9` and separators
/// only, and no separator stands at either end.
pub proof fn lemma_slug_is_well_formed(text: Seq<char>)
    ensures
        is_slug(slug_of_lowercase(text)),
        is_slug(slug_of(text)),
{
    lemma_slug_of_lowercase_is_well_formed(text);
    lemma_slug_of_lowercase_is_well_formed(lowercase(text));
}

proof fn lemma_slug_of_lowercase_is_well_formed(lowered: Seq<char>)
    ensures
        is_slug(slug_of_lowercase(lowered)),
{
    let raw = raw_slug(lowered);
    lemma_raw_slug_chars(lowered);
    lemma_trim(raw);
    let slug = trim(raw);
    let from = choose|from: int|
        0 <= from <= from + slug.len() <= raw.len() && slug == #[trigger] raw.subrange(
            from,
            from + slug.len(),
        );
    assert forall|i: int| 0 <= i < slug.len() implies is_slug_char(#[trigger] slug[i]) by {
        assert(slug[i] == raw[from + i]);
    }
}

/// A well-formed slug is its own slug.
pub proof fn lemma_slug_of_slug(slug: Seq<char>)
    requires
        is_slug(slug),
    ensures
        slug_of(slug) == slug,
{
    assert forall|i: int| 0 <= i < slug.len() implies '\0' <= #[trigger] slug[i] <= '\u{7f}' by {
        assert(is_slug_char(slug[i]));
    }
    assert(lowercase(slug) == slug) by {
        assert forall|i: int| 0 <= i < slug.len() implies ascii_lower(slug[i]) == slug[i] by {
            assert(is_slug_char(slug[i]));
        }
        assert(ascii_lowercase(slug) =~= slug);
    }
    lemma_raw_slug_keeps_slug_chars(slug);
    lemma_trim_keeps_trimmed(slug);
}

/// Taking the slug of a slug changes nothing.
pub proof fn lemma_slugify_idempotent(text: Seq<char>)
    ensures
        slug_of(slug_of(text)) == slug_of(text),
{
    lemma_slug_is_well_formed(text);
    lemma_slug_of_slug(slug_of(text));
}

} // verus!
