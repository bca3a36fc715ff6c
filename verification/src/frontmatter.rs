//! The block of metadata that opens the file of a post.

use vstd::prelude::*;

verus! {

/// The frontmatter: a line of three dashes, the four fields, each on a line of
/// its own behind its label, and three dashes with no line break after them.
pub open spec fn frontmatter_text(
    title: Seq<char>,
    excerpt: Seq<char>,
    date: Seq<char>,
    slug: Seq<char>,
) -> Seq<char> {
    "---\ntitle: "@ + title + "\nexcerpt: "@ + excerpt + "\ndate: "@ + date + "\nslug: "@ + slug
        + "\n---"@
}

/// Whether `needle` stands in `text` from the index `at` on.
pub open spec fn occurs_at(text: Seq<char>, needle: Seq<char>, at: int) -> bool {
    &&& 0 <= at
    &&& at + needle.len() <= text.len()
    &&& text.subrange(at, at + needle.len()) == needle
}

/// Whether `needle` stands somewhere in `text`.
pub open spec fn occurs_in(text: Seq<char>, needle: Seq<char>) -> bool {
    exists|at: int| occurs_at(text, needle, at)
}

/// One of the four labels of the frontmatter.
pub open spec fn is_label(text: Seq<char>) -> bool {
    text == "title:"@ || text == "excerpt:"@ || text == "date:"@ || text == "slug:"@
}

/// Whether `text` holds none of the four labels.
pub open spec fn label_free(text: Seq<char>) -> bool {
    &&& !occurs_in(text, "title:"@)
    &&& !occurs_in(text, "excerpt:"@)
    &&& !occurs_in(text, "date:"@)
    &&& !occurs_in(text, "slug:"@)
}

/// Where the label of the title stands in every frontmatter.
pub open spec fn title_label_at() -> int {
    4
}

/// Where the label of the excerpt stands.
pub open spec fn excerpt_label_at(title: Seq<char>) -> int {
    (12 + title.len()) as int
}

/// Where the label of the date stands.
pub open spec fn date_label_at(title: Seq<char>, excerpt: Seq<char>) -> int {
    (22 + title.len() + excerpt.len()) as int
}

/// Where the label of the slug stands.
pub open spec fn slug_label_at(title: Seq<char>, excerpt: Seq<char>, date: Seq<char>) -> int {
    (29 + title.len() + excerpt.len() + date.len()) as int
}

/// Writes the frontmatter of a post from its four fields, each taken as it is.
pub fn frontmatter(title: &str, excerpt: &str, date: &str, slug: &str) -> (content: String)
    ensures
        content@ == frontmatter_text(title@, excerpt@, date@, slug@),
{
    let mut content = String::from_str("---\ntitle: ");
    content.append(title);
    content.append("\nexcerpt: ");
    content.append(excerpt);
    content.append("\ndate: ");
    content.append(date);
    content.append("\nslug: ");
    content.append(slug);
    content.append("\n---");
    content
}

/// Every frontmatter starts with three dashes and a line break, ends with
/// three dashes, and holds the four labels in the order title, excerpt, date,
/// slug.
pub proof fn lemma_frontmatter_frame(
    title: Seq<char>,
    excerpt: Seq<char>,
    date: Seq<char>,
    slug: Seq<char>,
)
    ensures
        "---\n"@.is_prefix_of(frontmatter_text(title, excerpt, date, slug)),
        "---"@.is_suffix_of(frontmatter_text(title, excerpt, date, slug)),
        frontmatter_text(title, excerpt, date, slug).len() == 39 + title.len() + excerpt.len()
            + date.len() + slug.len(),
        occurs_at(frontmatter_text(title, excerpt, date, slug), "title:"@, title_label_at()),
        occurs_at(frontmatter_text(title, excerpt, date, slug), "excerpt:"@, excerpt_label_at(title)),
        occurs_at(
            frontmatter_text(title, excerpt, date, slug),
            "date:"@,
            date_label_at(title, excerpt),
        ),
        occurs_at(
            frontmatter_text(title, excerpt, date, slug),
            "slug:"@,
            slug_label_at(title, excerpt, date),
        ),
        title_label_at() < excerpt_label_at(title) < date_label_at(title, excerpt) < slug_label_at(
            title,
            excerpt,
            date,
        ),
{
    let text = frontmatter_text(title, excerpt, date, slug);
    reveal_strlit("---\ntitle: ");
    reveal_strlit("\nexcerpt: ");
    reveal_strlit("\ndate: ");
    reveal_strlit("\nslug: ");
    reveal_strlit("\n---");
    reveal_strlit("---\n");
    reveal_strlit("---");
    reveal_strlit("title:");
    reveal_strlit("excerpt:");
    reveal_strlit("date:");
    reveal_strlit("slug:");
    assert(text.subrange(0, 4) =~= "---\n"@);
    assert(text.subrange(text.len() - 3, text.len() as int) =~= "---"@);
    assert(text.subrange(4, 10) =~= "title:"@);
    let at_excerpt = excerpt_label_at(title);
    assert(text.subrange(at_excerpt, at_excerpt + 8) =~= "excerpt:"@);
    let at_date = date_label_at(title, excerpt);
    assert(text.subrange(at_date, at_date + 5) =~= "date:"@);
    let at_slug = slug_label_at(title, excerpt, date);
    assert(text.subrange(at_slug, at_slug + 5) =~= "slug:"@);
}

/// A label holds no line break and no space, and ends with its only colon.
pub proof fn lemma_label_chars(label: Seq<char>)
    requires
        is_label(label),
    ensures
        label.len() >= 5,
        label.last() == ':',
        forall|k: int|
            0 <= k < label.len() ==> #[trigger] label[k] != '\n' && label[k] != ' ' && (label[k]
                == ':' ==> k == label.len() - 1),
{
    reveal_strlit("title:");
    reveal_strlit("excerpt:");
    reveal_strlit("date:");
    reveal_strlit("slug:");
}

/// A label that stands in a label is that label.
proof fn lemma_label_in_label(chunk: Seq<char>, label: Seq<char>, at: int)
    requires
        is_label(chunk),
        is_label(label),
        occurs_at(chunk, label, at),
    ensures
        chunk == label,
        at == 0,
{
    let window = chunk.subrange(at, at + label.len());
    lemma_label_chars(chunk);
    lemma_label_chars(label);
    assert(window[label.len() - 1] == chunk[at + label.len() - 1]);
    assert(at == chunk.len() - label.len());
    assert(window[0] == chunk[at]);
    reveal_strlit("title:");
    reveal_strlit("excerpt:");
    reveal_strlit("date:");
    reveal_strlit("slug:");
}

/// What stands in `a`, `sep`, `b` and does not hold `sep` stands in `a` or in `b`.
proof fn lemma_occurrence_splits(
    a: Seq<char>,
    sep: char,
    b: Seq<char>,
    needle: Seq<char>,
    at: int,
)
    requires
        occurs_at(a + seq![sep] + b, needle, at),
        forall|k: int| 0 <= k < needle.len() ==> #[trigger] needle[k] != sep,
    ensures
        occurs_at(a, needle, at) || occurs_at(b, needle, at - a.len() - 1),
{
    let text = a + seq![sep] + b;
    let window = text.subrange(at, at + needle.len());
    if at + needle.len() <= a.len() {
        assert(a.subrange(at, at + needle.len()) =~= window);
    } else if at > a.len() {
        assert(b.subrange(at - a.len() - 1, at - a.len() - 1 + needle.len()) =~= window);
    } else {
        assert(window[a.len() - at] == text[a.len() as int]);
        assert(needle[a.len() - at] != sep);
    }
}

/// In a frontmatter whose fields hold no label, a label stands at its own
/// place and nowhere else.
proof fn lemma_label_position(
    title: Seq<char>,
    excerpt: Seq<char>,
    date: Seq<char>,
    slug: Seq<char>,
    label: Seq<char>,
    at: int,
)
    requires
        label_free(title),
        label_free(excerpt),
        label_free(date),
        label_free(slug),
        is_label(label),
        occurs_at(frontmatter_text(title, excerpt, date, slug), label, at),
    ensures
        label == "title:"@ ==> at == title_label_at(),
        label == "excerpt:"@ ==> at == excerpt_label_at(title),
        label == "date:"@ ==> at == date_label_at(title, excerpt),
        label == "slug:"@ ==> at == slug_label_at(title, excerpt, date),
{
    lemma_label_chars(label);
    reveal_strlit("---\ntitle: ");
    reveal_strlit("\nexcerpt: ");
    reveal_strlit("\ndate: ");
    reveal_strlit("\nslug: ");
    reveal_strlit("\n---");
    reveal_strlit("---");
    reveal_strlit("title:");
    reveal_strlit("excerpt:");
    reveal_strlit("date:");
    reveal_strlit("slug:");
    assert("date:"@[0] != "slug:"@[0]);
    let after_slug = slug + seq!['\n'] + "---"@;
    let from_slug = "slug:"@ + seq![' '] + after_slug;
    let after_date = date + seq!['\n'] + from_slug;
    let from_date = "date:"@ + seq![' '] + after_date;
    let after_excerpt = excerpt + seq!['\n'] + from_date;
    let from_excerpt = "excerpt:"@ + seq![' '] + after_excerpt;
    let after_title = title + seq!['\n'] + from_excerpt;
    let from_title = "title:"@ + seq![' '] + after_title;
    assert(frontmatter_text(title, excerpt, date, slug) =~= "---"@ + seq!['\n'] + from_title);
    lemma_occurrence_splits("---"@, '\n', from_title, label, at);
    let at_title = at - 4;
    assert(occurs_at(from_title, label, at_title));
    lemma_occurrence_splits("title:"@, ' ', after_title, label, at_title);
    if occurs_at("title:"@, label, at_title) {
        lemma_label_in_label("title:"@, label, at_title);
    } else {
        let in_title = at_title - 7;
        lemma_occurrence_splits(title, '\n', from_excerpt, label, in_title);
        if occurs_at(title, label, in_title) {
            assert(occurs_in(title, label));
        } else {
            let at_excerpt = in_title - title.len() - 1;
            lemma_occurrence_splits("excerpt:"@, ' ', after_excerpt, label, at_excerpt);
            if occurs_at("excerpt:"@, label, at_excerpt) {
                lemma_label_in_label("excerpt:"@, label, at_excerpt);
            } else {
                let in_excerpt = at_excerpt - 9;
                lemma_occurrence_splits(excerpt, '\n', from_date, label, in_excerpt);
                if occurs_at(excerpt, label, in_excerpt) {
                    assert(occurs_in(excerpt, label));
                } else {
                    let at_date = in_excerpt - excerpt.len() - 1;
                    lemma_occurrence_splits("date:"@, ' ', after_date, label, at_date);
                    if occurs_at("date:"@, label, at_date) {
                        lemma_label_in_label("date:"@, label, at_date);
                    } else {
                        let in_date = at_date - 6;
                        lemma_occurrence_splits(date, '\n', from_slug, label, in_date);
                        if occurs_at(date, label, in_date) {
                            assert(occurs_in(date, label));
                        } else {
                            let at_slug = in_date - date.len() - 1;
                            lemma_occurrence_splits("slug:"@, ' ', after_slug, label, at_slug);
                            if occurs_at("slug:"@, label, at_slug) {
                                lemma_label_in_label("slug:"@, label, at_slug);
                            } else {
                                let in_slug = at_slug - 6;
                                lemma_occurrence_splits(slug, '\n', "---"@, label, in_slug);
                                if occurs_at(slug, label, in_slug) {
                                    assert(occurs_in(slug, label));
                                }
                            }
                        }
                    }
                }
            }
        }
    }
}

/// Where no field holds a label, the frontmatter holds each label exactly
/// once: at the head of the line of its field.
pub proof fn lemma_frontmatter_labels_once(
    title: Seq<char>,
    excerpt: Seq<char>,
    date: Seq<char>,
    slug: Seq<char>,
)
    requires
        label_free(title),
        label_free(excerpt),
        label_free(date),
        label_free(slug),
    ensures
        forall|at: int| #[trigger]
            occurs_at(frontmatter_text(title, excerpt, date, slug), "title:"@, at) <==> at
                == title_label_at(),
        forall|at: int| #[trigger]
            occurs_at(frontmatter_text(title, excerpt, date, slug), "excerpt:"@, at) <==> at
                == excerpt_label_at(title),
        forall|at: int| #[trigger]
            occurs_at(frontmatter_text(title, excerpt, date, slug), "date:"@, at) <==> at
                == date_label_at(title, excerpt),
        forall|at: int| #[trigger]
            occurs_at(frontmatter_text(title, excerpt, date, slug), "slug:"@, at) <==> at
                == slug_label_at(title, excerpt, date),
{
    let text = frontmatter_text(title, excerpt, date, slug);
    lemma_frontmatter_frame(title, excerpt, date, slug);
    assert forall|at: int| #[trigger] occurs_at(text, "title:"@, at) implies at
        == title_label_at() by {
        lemma_label_position(title, excerpt, date, slug, "title:"@, at);
    }
    assert forall|at: int| #[trigger] occurs_at(text, "excerpt:"@, at) implies at
        == excerpt_label_at(title) by {
        lemma_label_position(title, excerpt, date, slug, "excerpt:"@, at);
    }
    assert forall|at: int| #[trigger] occurs_at(text, "date:"@, at) implies at == date_label_at(
        title,
        excerpt,
    ) by {
        lemma_label_position(title, excerpt, date, slug, "date:"@, at);
    }
    assert forall|at: int| #[trigger] occurs_at(text, "slug:"@, at) implies at == slug_label_at(
        title,
        excerpt,
        date,
    ) by {
        lemma_label_position(title, excerpt, date, slug, "slug:"@, at);
    }
}

} // verus!
