use chrono::{Datelike, Local, Timelike};
use post_gen::entry::{gen_slugs, Slugs};
use post_gen::slug::{is_slug_character, is_whitespace, slug_from_lowercase, slugify};
use post_gen::timestamp::Timestamp;

fn timestamp_of(now: &chrono::DateTime<Local>) -> Timestamp {
    Timestamp::new(
        now.year(),
        now.month(),
        now.day(),
        now.hour(),
        now.minute(),
        now.second(),
        now.nanosecond(),
        now.offset().local_minus_utc(),
    )
    .unwrap()
}

fn on(year: i32, month: u32, day: u32) -> Timestamp {
    Timestamp::new(year, month, day, 0, 0, 0, 0, 0).unwrap()
}

#[test]
fn gen_slugs_test() {
    let slugs: Slugs = gen_slugs("slug test", "md", &timestamp_of(&Local::now()));
    assert_eq!(
        slugs.file,
        format!("{}-{}", Local::now().format("%Y-%m-%d"), "slug-test.md")
    );
    assert_eq!(
        slugs.raw,
        format!("{}-{}", Local::now().format("%Y-%m-%d"), "slug-test")
    );

    let slugs: Slugs = gen_slugs("slug! test.", "md", &timestamp_of(&Local::now()));
    assert_eq!(
        slugs.file,
        format!("{}-{}", Local::now().format("%Y-%m-%d"), "slug-test.md")
    );
    assert_eq!(
        slugs.raw,
        format!("{}-{}", Local::now().format("%Y-%m-%d"), "slug-test")
    );
}

#[test]
fn slugify_replaces_spaces() {
    assert_eq!(slugify("Hello World"), "hello-world");
}

#[test]
fn slugify_drops_punctuation() {
    assert_eq!(slugify("!hello world."), "hello-world");
}

#[test]
fn slugify_lowers_mixed_case() {
    assert_eq!(slugify("HeLLo WorlD"), "hello-world");
}

#[test]
fn slugify_of_empty_text_is_empty() {
    assert_eq!(slugify(""), "");
}

#[test]
fn slugify_of_punctuation_only_is_empty() {
    assert_eq!(slugify("!?.,;:@#$%^&*()"), "");
    assert_eq!(slugify("***"), "");
}

#[test]
fn slugify_of_whitespace_only_is_empty() {
    assert_eq!(slugify("   "), "");
    assert_eq!(slugify(" \t\n "), "");
}

#[test]
fn slugify_keeps_every_separator_between_words() {
    assert_eq!(slugify("a!  b"), "a--b");
    assert_eq!(slugify("a - b"), "a---b");
    assert_eq!(slugify("a--b"), "a--b");
}

#[test]
fn slugify_does_not_join_what_a_dropped_character_parted() {
    assert_eq!(slugify("a!b"), "ab");
    assert_eq!(slugify("rock&roll"), "rockroll");
    assert_eq!(slugify("a ! b"), "a--b");
}

#[test]
fn slugify_trims_separators_at_both_ends() {
    assert_eq!(slugify("  hello  "), "hello");
    assert_eq!(slugify("--hello--"), "hello");
    assert_eq!(slugify("- -hello world- -"), "hello-world");
    assert_eq!(slugify("!-a-!"), "a");
    assert_eq!(slugify("-"), "");
}

#[test]
fn slugify_keeps_digits() {
    assert_eq!(slugify("Top 10 of 2024"), "top-10-of-2024");
    assert_eq!(slugify("0123456789"), "0123456789");
}

#[test]
fn slugify_takes_every_unicode_space_for_a_separator() {
    assert_eq!(slugify("a\tb"), "a-b");
    assert_eq!(slugify("a\nb"), "a-b");
    assert_eq!(slugify("a\u{b}b\u{c}c\rd"), "a-b-c-d");
    assert_eq!(slugify("a\u{85}b"), "a-b");
    assert_eq!(slugify("a\u{a0}b"), "a-b");
    assert_eq!(slugify("a\u{1680}b"), "a-b");
    assert_eq!(slugify("a\u{2003}b"), "a-b");
    assert_eq!(slugify("a\u{2028}b\u{2029}c"), "a-b-c");
    assert_eq!(slugify("a\u{202f}b\u{205f}c"), "a-b-c");
    assert_eq!(slugify("a\u{3000}b"), "a-b");
}

#[test]
fn slugify_drops_what_is_no_space_though_it_looks_like_one() {
    assert_eq!(slugify("a\u{200b}b"), "ab");
    assert_eq!(slugify("a\u{180e}b"), "ab");
    assert_eq!(slugify("a\u{feff}b"), "ab");
    assert_eq!(slugify("a\u{0}b\u{1f}c"), "abc");
}

#[test]
fn slugify_drops_letters_outside_ascii() {
    assert_eq!(slugify("Crème Brûlée"), "crme-brle");
    assert_eq!(slugify("ÉCOLE"), "cole");
    assert_eq!(slugify("日本語 text"), "text");
    assert_eq!(slugify("naïve café"), "nave-caf");
}

#[test]
fn slugify_lowers_by_the_unicode_tables() {
    // The Kelvin sign is an uppercase letter whose lowercase form is the ASCII `k`.
    assert_eq!(slugify("\u{212a}"), "k");
    assert_eq!(slugify("5 \u{212a}"), "5-k");
    // The dotted capital I becomes `i` and a combining dot, which is dropped.
    assert_eq!(slugify("\u{130}stanbul"), "istanbul");
}

#[test]
fn slugify_is_idempotent_on_slugs() {
    for slug in ["hello-world", "a--b", "x", "", "2024-01-02-launch-day", "0", "a-1-b-2"] {
        assert_eq!(slugify(slug), slug);
        assert_eq!(slugify(&slugify(slug)), slugify(slug));
    }
}

#[test]
fn slugify_is_idempotent_on_any_text() {
    for text in ["Hello World", "!hello world.", "  A  B  ", "Crème Brûlée", "--", "a!  b", "\u{212a}"] {
        let once = slugify(text);
        assert_eq!(slugify(&once), once);
    }
}

#[test]
fn slugify_gives_well_formed_slugs() {
    for text in ["Hello World", " - x - ", "ÀB c", "___", "a\u{3000}-\u{3000}", "Ünïcödé Tïtle 42!"] {
        let slug = slugify(text);
        assert!(slug.chars().all(|c| c.is_ascii_lowercase() || c.is_ascii_digit() || c == '-'));
        assert!(!slug.starts_with('-'));
        assert!(!slug.ends_with('-'));
    }
}

#[test]
fn slug_from_lowercase_does_not_lower() {
    assert_eq!(slug_from_lowercase("hello world"), "hello-world");
    assert_eq!(slug_from_lowercase("Hello World"), "ello-orld");
    assert_eq!(slug_from_lowercase("ABC"), "");
    assert_eq!(slug_from_lowercase("- a b -"), "a-b");
}

#[test]
fn slugify_agrees_with_trim_matches_of_the_standard_library() {
    for text in ["--a--", "-", "", "a", "a-", "-a", "- - -", "-a-b-", "----x----y----"] {
        assert_eq!(slugify(text), text.replace(' ', "-").trim_matches('-'));
    }
}

#[test]
fn is_whitespace_agrees_with_the_standard_library_on_every_character() {
    for code in 0..=0x10FFFFu32 {
        if let Some(c) = char::from_u32(code) {
            assert_eq!(is_whitespace(c), c.is_whitespace(), "U+{:04X}", code);
        }
    }
}

#[test]
fn is_slug_character_takes_lowercase_letters_digits_and_the_separator() {
    for code in 0..=0x10FFFFu32 {
        if let Some(c) = char::from_u32(code) {
            let expected = c.is_ascii_lowercase() || c.is_ascii_digit() || c == '-';
            assert_eq!(is_slug_character(c), expected, "U+{:04X}", code);
        }
    }
}

#[test]
fn slugify_lowers_ascii_letter_by_letter() {
    let upper: String = (0u8..128).map(|b| b as char).collect();
    let lowered = upper.to_ascii_lowercase();
    assert_eq!(slugify(&upper), slug_from_lowercase(&lowered));
    assert_eq!(slugify("ABCDEFGHIJKLMNOPQRSTUVWXYZ"), "abcdefghijklmnopqrstuvwxyz");
}

#[test]
fn gen_slugs_puts_the_date_in_front() {
    let slugs = gen_slugs("Launch Day", "mdx", &on(2023, 5, 1));
    assert_eq!(slugs.raw, "2023-05-01-launch-day");
    assert_eq!(slugs.file, "2023-05-01-launch-day.mdx");
}

#[test]
fn gen_slugs_of_an_empty_title_ends_with_the_separator() {
    let slugs = gen_slugs("", "md", &on(2024, 1, 2));
    assert_eq!(slugs.raw, "2024-01-02-");
    assert_eq!(slugs.file, "2024-01-02-.md");
    let slugs = gen_slugs("?!", "md", &on(2024, 1, 2));
    assert_eq!(slugs.raw, "2024-01-02-");
}

#[test]
fn gen_slugs_takes_the_extension_as_it_is() {
    let slugs = gen_slugs("a", "", &on(2024, 12, 31));
    assert_eq!(slugs.file, "2024-12-31-a.");
    let slugs = gen_slugs("a", "Tar.GZ", &on(2024, 12, 31));
    assert_eq!(slugs.file, "2024-12-31-a.Tar.GZ");
    assert_eq!(slugs.raw, "2024-12-31-a");
}

#[test]
fn gen_slugs_writes_early_years_in_four_digits() {
    assert_eq!(gen_slugs("a", "md", &on(0, 1, 1)).raw, "0000-01-01-a");
    assert_eq!(gen_slugs("a", "md", &on(7, 3, 9)).raw, "0007-03-09-a");
    assert_eq!(gen_slugs("a", "md", &on(999, 10, 10)).raw, "0999-10-10-a");
    assert_eq!(gen_slugs("a", "md", &on(1000, 10, 10)).raw, "1000-10-10-a");
    assert_eq!(gen_slugs("a", "md", &on(9999, 12, 31)).raw, "9999-12-31-a");
}

#[test]
fn gen_slugs_writes_a_sign_outside_four_digit_years() {
    assert_eq!(gen_slugs("a", "md", &on(-1, 1, 1)).raw, "-0001-01-01-a");
    assert_eq!(gen_slugs("a", "md", &on(-999, 1, 1)).raw, "-0999-01-01-a");
    assert_eq!(gen_slugs("a", "md", &on(-12345, 6, 7)).raw, "-12345-06-07-a");
    assert_eq!(gen_slugs("a", "md", &on(10000, 1, 1)).raw, "+10000-01-01-a");
    assert_eq!(gen_slugs("a", "md", &on(262141, 12, 31)).raw, "+262141-12-31-a");
    assert_eq!(gen_slugs("a", "md", &on(-262142, 1, 1)).raw, "-262142-01-01-a");
}

#[test]
fn gen_slugs_agrees_with_chrono_on_every_day_of_some_years() {
    for year in [-401, -4, 0, 1, 999, 1900, 2000, 2023, 2024, 9999, 10000] {
        for month in 1..=12u32 {
            for day in 1..=31u32 {
                let made = Timestamp::new(year, month, day, 0, 0, 0, 0, 0);
                let date = chrono::NaiveDate::from_ymd_opt(year, month, day);
                assert_eq!(made.is_some(), date.is_some());
                if let (Some(made), Some(date)) = (made, date) {
                    let expected = format!("{}-x", date.format("%Y-%m-%d"));
                    assert_eq!(gen_slugs("x", "md", &made).raw, expected);
                }
            }
        }
    }
}
