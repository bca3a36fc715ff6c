//! From a title, an excerpt and a timestamp to a file path and the block of
//! metadata that opens the file.

use crate::frontmatter::{
    date_label_at, excerpt_label_at, frontmatter, frontmatter_text, is_label, label_free,
    lemma_frontmatter_labels_once, lemma_label_chars, occurs_at, slug_label_at, title_label_at,
};
use crate::slug::{is_slug_char, lemma_slug_is_well_formed, slug_of, slugify, SEPARATOR};
use crate::timestamp::{
    lemma_iso_date_chars, lemma_iso_date_of_common_years, Moment, Timestamp,
};
use vstd::prelude::*;

verus! {

/// The slug of a post: the date, a separator, and the slug of the title.
pub open spec fn dated_slug(title: Seq<char>, date: Moment) -> Seq<char> {
    date.date_text() + seq!['-'] + slug_of(title)
}

/// The name of the file of a post: its slug, a dot, and the extension.
pub open spec fn file_name(title: Seq<char>, extension: Seq<char>, date: Moment) -> Seq<char> {
    dated_slug(title, date) + seq!['.'] + extension
}

/// The path of the file of a post: the directory as given, a slash, and the
/// name of the file.
pub open spec fn entry_path(
    directory: Seq<char>,
    title: Seq<char>,
    extension: Seq<char>,
    date: Moment,
) -> Seq<char> {
    directory + seq!['/'] + file_name(title, extension, date)
}

/// The two slugs of a post.
#[derive(Debug, PartialEq, Eq)]
pub struct Slugs {
    /// The name of the file: `raw`, a dot and the extension.
    pub file: String,
    /// The date, a separator and the slug of the title.
    pub raw: String,
}

/// A post that is ready to be written: where it goes and what it starts with.
#[derive(Debug, PartialEq, Eq)]
pub struct Entry {
    /// The path of the file: the directory, a slash and the name of the file.
    pub path: String,
    /// The frontmatter of the post.
    pub content: String,
}

/// The extensions a post may have, the one that is offered first in front.
pub fn extensions() -> (list: Vec<&'static str>)
    ensures
        list@.len() == 2,
        list@[0]@ == "mdx"@,
        list@[1]@ == "md"@,
{
    vec!["mdx", "md"]
}

/// Derives the slug of a post and the name of its file from the title, the
/// extension and the date. Where the title leaves an empty slug, `raw` ends
/// with the separator.
pub fn gen_slugs(title: &str, ext: &str, date: &Timestamp) -> (slugs: Slugs)
    ensures
        slugs.raw@ == dated_slug(title@, date@),
        slugs.file@ == file_name(title@, ext@, date@),
        0 <= date@.year <= 9999 ==> forall|i: int|
            0 <= i < slugs.raw@.len() ==> is_slug_char(#[trigger] slugs.raw@[i]),
{
    proof {
        use_type_invariant(date);
        if 0 <= date@.year <= 9999 {
            lemma_dated_slug_chars(title@, date@);
        }
    }
    let mut raw = date.date_string();
    let title_slug = slugify(title);
    proof {
        reveal_strlit("-");
        reveal_strlit(".");
        assert("-"@ == seq!['-']);
        assert("."@ == seq!['.']);
    }
    raw.append("-");
    raw.append(title_slug.as_str());
    let mut file = String::from_str(raw.as_str());
    file.append(".");
    file.append(ext);
    Slugs { file, raw }
}

/// Builds the entry of a post: the path of its file under `directory`, and
/// its frontmatter. The one timestamp gives both the date in the slug and the
/// date in the frontmatter, which therefore begins with the date of the slug.
pub fn build(title: &str, excerpt: &str, extension: &str, directory: &str, now: &Timestamp) -> (entry:
    Entry)
    ensures
        entry.path@ == entry_path(directory@, title@, extension@, now@),
        entry.content@ == frontmatter_text(title@, excerpt@, now@.text(), dated_slug(title@, now@)),
        (now@.date_text() + seq![' ']).is_prefix_of(now@.text()),
{
    let slugs = gen_slugs(title, extension, now);
    let mut path = String::from_str(directory);
    proof {
        reveal_strlit("/");
        assert("/"@ == seq!['/']);
    }
    path.append("/");
    path.append(slugs.file.as_str());
    let date = now.to_text();
    let content = frontmatter(title, excerpt, date.as_str(), slugs.raw.as_str());
    Entry { path, content }
}

/// On the second of January 2024, a post with the extension `md` under `/out`
/// goes to `/out/2024-01-02-`, the slug of its title, `.md`.
pub proof fn lemma_path_on_a_given_day(title: Seq<char>, now: Moment)
    requires
        now.valid(),
        now.year == 2024,
        now.month == 1,
        now.day == 2,
    ensures
        entry_path("/out"@, title, "md"@, now) == "/out/2024-01-02-"@ + slug_of(title) + ".md"@,
{
    reveal_strlit("/out");
    reveal_strlit("md");
    reveal_strlit("/out/2024-01-02-");
    reveal_strlit(".md");
    lemma_iso_date_of_common_years(2024, 1, 2);
    assert(entry_path("/out"@, title, "md"@, now) =~= "/out/2024-01-02-"@ + slug_of(title) + ".md"@);
}

/// From the year 0 to the year 9999 the slug of a post holds slug characters
/// only and begins with a digit. It ends with the separator where the title
/// leaves an empty slug, and only then.
pub proof fn lemma_dated_slug_chars(title: Seq<char>, date: Moment)
    requires
        date.valid(),
        0 <= date.year <= 9999,
    ensures
        forall|i: int|
            0 <= i < dated_slug(title, date).len() ==> is_slug_char(#[trigger] dated_slug(title, date)[i]),
        '0' <= dated_slug(title, date)[0] <= '9',
        dated_slug(title, date).last() == SEPARATOR <==> slug_of(title).len() == 0,
{
    let day = date.date_text();
    let slug = slug_of(title);
    let whole = dated_slug(title, date);
    lemma_iso_date_chars(date.year, date.month, date.day);
    lemma_slug_is_well_formed(title);
    assert forall|i: int| 0 <= i < whole.len() implies is_slug_char(#[trigger] whole[i]) by {
        if i < day.len() {
            assert(whole[i] == day[i]);
        } else if i > day.len() {
            assert(whole[i] == slug[i - day.len() - 1]);
        }
    }
    assert(whole[0] == day[0]);
    if slug.len() > 0 {
        assert(whole.last() == slug.last());
    }
}

/// The slug of a post holds no label of the frontmatter, in whatever year: it
/// holds no colon.
pub proof fn lemma_dated_slug_label_free(title: Seq<char>, date: Moment)
    requires
        date.valid(),
    ensures
        label_free(dated_slug(title, date)),
{
    let day = date.date_text();
    let slug = slug_of(title);
    let whole = dated_slug(title, date);
    lemma_iso_date_chars(date.year, date.month, date.day);
    lemma_slug_is_well_formed(title);
    assert forall|i: int| 0 <= i < whole.len() implies #[trigger] whole[i] != ':' by {
        if i < day.len() {
            assert(whole[i] == day[i]);
        } else if i > day.len() {
            assert(whole[i] == slug[i - day.len() - 1]);
            assert(is_slug_char(slug[i - day.len() - 1]));
        }
    }
    assert forall|label: Seq<char>, at: int| is_label(label) implies !occurs_at(
        whole,
        label,
        at,
    ) by {
        lemma_label_chars(label);
        if occurs_at(whole, label, at) {
            let last = label.len() - 1;
            assert(whole.subrange(at, at + label.len())[last] == whole[at + last]);
        }
    }
}

/// The frontmatter of an entry holds each label exactly once, at the head of
/// the line of its field, where neither the title, nor the excerpt, nor the
/// text of the date holds a label. The slug never holds one.
pub proof fn lemma_entry_labels_once(
    title: Seq<char>,
    excerpt: Seq<char>,
    date_text: Seq<char>,
    date: Moment,
)
    requires
        date.valid(),
        label_free(title),
        label_free(excerpt),
        label_free(date_text),
    ensures
        forall|at: int| #[trigger]
            occurs_at(
                frontmatter_text(title, excerpt, date_text, dated_slug(title, date)),
                "title:"@,
                at,
            ) <==> at == title_label_at(),
        forall|at: int| #[trigger]
            occurs_at(
                frontmatter_text(title, excerpt, date_text, dated_slug(title, date)),
                "excerpt:"@,
                at,
            ) <==> at == excerpt_label_at(title),
        forall|at: int| #[trigger]
            occurs_at(
                frontmatter_text(title, excerpt, date_text, dated_slug(title, date)),
                "date:"@,
                at,
            ) <==> at == date_label_at(title, excerpt),
        forall|at: int| #[trigger]
            occurs_at(
                frontmatter_text(title, excerpt, date_text, dated_slug(title, date)),
                "slug:"@,
                at,
            ) <==> at == slug_label_at(title, excerpt, date_text),
{
    lemma_dated_slug_label_free(title, date);
    lemma_frontmatter_labels_once(title, excerpt, date_text, dated_slug(title, date));
}

} // verus!
