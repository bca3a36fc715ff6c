use post_gen::entry::{build, extensions, Entry};
use post_gen::frontmatter::frontmatter;
use post_gen::slug::slugify;
use post_gen::timestamp::Timestamp;

fn on(year: i32, month: u32, day: u32) -> Timestamp {
    Timestamp::new(year, month, day, 0, 0, 0, 0, 0).unwrap()
}

fn places(text: &str, needle: &str) -> Vec<usize> {
    text.match_indices(needle).map(|found| found.0).collect()
}

fn chars_before(text: &str, byte: usize) -> usize {
    text[..byte].chars().count()
}

#[test]
fn build_of_launch_day() {
    let entry = build("Launch Day", "We shipped", "mdx", "/posts", &on(2023, 5, 1));
    assert_eq!(entry.path, "/posts/2023-05-01-launch-day.mdx");
    assert_eq!(
        entry.content,
        "---\ntitle: Launch Day\nexcerpt: We shipped\ndate: 2023-05-01 00:00:00 +00:00\nslug: 2023-05-01-launch-day\n---"
    );
    let lines: Vec<&str> = entry.content.lines().collect();
    assert_eq!(lines.len(), 6);
    assert_eq!(lines[0], "---");
    assert_eq!(lines[1], "title: Launch Day");
    assert_eq!(lines[2], "excerpt: We shipped");
    assert!(lines[3].starts_with("date: 2023-05-01 "));
    assert_eq!(lines[4], "slug: 2023-05-01-launch-day");
    assert_eq!(lines[5], "---");
}

#[test]
fn build_puts_the_file_under_the_directory() {
    for title in ["Hello World", "", "!!!", "A  b", "Crème Brûlée", "x-y", "  padded  "] {
        let entry = build(title, "whatever", "md", "/out", &on(2024, 1, 2));
        assert_eq!(entry.path, format!("/out/2024-01-02-{}.md", slugify(title)));
    }
    assert_eq!(
        build("Hello World", "", "md", "/out", &on(2024, 1, 2)).path,
        "/out/2024-01-02-hello-world.md"
    );
}

#[test]
fn build_of_an_empty_title_leaves_the_separator_at_the_end() {
    let entry = build("", "", "md", "/out", &on(2024, 1, 2));
    assert_eq!(entry.path, "/out/2024-01-02-.md");
    assert_eq!(
        entry.content,
        "---\ntitle: \nexcerpt: \ndate: 2024-01-02 00:00:00 +00:00\nslug: 2024-01-02-\n---"
    );
}

#[test]
fn build_takes_the_directory_as_it_is() {
    let now = on(2024, 1, 2);
    assert_eq!(build("a", "", "md", "", &now).path, "/2024-01-02-a.md");
    assert_eq!(build("a", "", "md", ".", &now).path, "./2024-01-02-a.md");
    assert_eq!(build("a", "", "md", "posts/", &now).path, "posts//2024-01-02-a.md");
    assert_eq!(build("a", "", "md", "My Posts", &now).path, "My Posts/2024-01-02-a.md");
    assert_eq!(build("a", "", "md", "../x y/Ü", &now).path, "../x y/Ü/2024-01-02-a.md");
}

#[test]
fn build_keeps_title_and_excerpt_as_they_are() {
    let entry = build("  Ünïcödé: Tïtle!  ", "line one\nline two", "md", "/out", &on(2024, 1, 2));
    assert_eq!(entry.path, "/out/2024-01-02-ncd-ttle.md");
    assert_eq!(
        entry.content,
        "---\ntitle:   Ünïcödé: Tïtle!  \nexcerpt: line one\nline two\ndate: 2024-01-02 00:00:00 +00:00\nslug: 2024-01-02-ncd-ttle\n---"
    );
}

#[test]
fn build_gives_path_and_content_of_one_entry() {
    let entry = build("a", "b", "md", "/out", &on(2024, 1, 2));
    let expected = Entry {
        path: "/out/2024-01-02-a.md".to_string(),
        content: "---\ntitle: a\nexcerpt: b\ndate: 2024-01-02 00:00:00 +00:00\nslug: 2024-01-02-a\n---"
            .to_string(),
    };
    assert_eq!(entry, expected);
}

#[test]
fn frontmatter_writes_the_five_lines_and_the_closing_dashes() {
    assert_eq!(
        frontmatter("T", "E", "D", "S"),
        "---\ntitle: T\nexcerpt: E\ndate: D\nslug: S\n---"
    );
    assert_eq!(frontmatter("", "", "", ""), "---\ntitle: \nexcerpt: \ndate: \nslug: \n---");
}

#[test]
fn frontmatter_starts_and_ends_with_dashes() {
    for (title, excerpt) in [("", ""), ("Launch Day", "We shipped"), ("---", "---\n"), ("title: x", "slug:")] {
        let content = build(title, excerpt, "md", "/out", &on(2024, 1, 2)).content;
        assert!(content.starts_with("---\n"));
        assert!(content.ends_with("---"));
        assert!(!content.ends_with('\n'));
    }
}

#[test]
fn frontmatter_holds_each_label_once_and_in_order() {
    for (title, excerpt) in [("Launch Day", "We shipped"), ("", ""), ("a b", "title excerpt date slug"), ("Ünï", "é: ")] {
        let content = build(title, excerpt, "mdx", "/posts", &on(2023, 5, 1)).content;
        let title_at = places(&content, "title:");
        let excerpt_at = places(&content, "excerpt:");
        let date_at = places(&content, "date:");
        let slug_at = places(&content, "slug:");
        assert_eq!(title_at.len(), 1);
        assert_eq!(excerpt_at.len(), 1);
        assert_eq!(date_at.len(), 1);
        assert_eq!(slug_at.len(), 1);
        assert!(title_at[0] < excerpt_at[0]);
        assert!(excerpt_at[0] < date_at[0]);
        assert!(date_at[0] < slug_at[0]);
        assert_eq!(chars_before(&content, title_at[0]), 4);
        assert_eq!(chars_before(&content, excerpt_at[0]), 12 + title.chars().count());
        assert_eq!(
            chars_before(&content, date_at[0]),
            22 + title.chars().count() + excerpt.chars().count()
        );
    }
}

#[test]
fn frontmatter_places_the_labels_by_the_lengths_of_the_fields() {
    let content = frontmatter("Ti", "Exc", "Date", "S");
    assert_eq!(content.chars().count(), 39 + 2 + 3 + 4 + 1);
    assert_eq!(places(&content, "title:"), vec![4]);
    assert_eq!(places(&content, "excerpt:"), vec![12 + 2]);
    assert_eq!(places(&content, "date:"), vec![22 + 2 + 3]);
    assert_eq!(places(&content, "slug:"), vec![29 + 2 + 3 + 4]);
}

#[test]
fn frontmatter_repeats_a_label_that_a_field_holds() {
    let content = build("title: again", "see the slug: below", "md", "/out", &on(2024, 1, 2)).content;
    assert_eq!(places(&content, "title:").len(), 2);
    assert_eq!(places(&content, "slug:").len(), 2);
    assert_eq!(places(&content, "excerpt:").len(), 1);
    assert_eq!(places(&content, "date:").len(), 1);
}

#[test]
fn extensions_are_mdx_and_md() {
    assert_eq!(extensions(), vec!["mdx", "md"]);
}
