use cargo_wizard::diff::{render_diff, render_groups, DiffLine, DiffSpan, DiffStyle, LineTag};
use cargo_wizard::known_options::parse_target_cpu_list;
use cargo_wizard::text::{
    contains_text, copy_texts, find_char, first_word_bounds, integer_text, join_texts,
    natural_text, parse_integer, split_at_first,
};

fn plain(spans: &[DiffSpan]) -> String {
    spans.iter().map(|span| span.text.as_str()).collect()
}

fn line(
    tag: LineTag,
    old_index: Option<usize>,
    new_index: Option<usize>,
    pieces: &[(bool, &str)],
    missing_newline: bool,
) -> DiffLine {
    DiffLine {
        tag,
        old_index,
        new_index,
        pieces: pieces.iter().map(|(changed, text)| (*changed, text.to_string())).collect(),
        missing_newline,
    }
}

#[test]
fn integers_are_written_in_decimal() {
    assert_eq!(integer_text(0), "0");
    assert_eq!(integer_text(7), "7");
    assert_eq!(integer_text(10), "10");
    assert_eq!(integer_text(256), "256");
    assert_eq!(integer_text(-1), "-1");
    assert_eq!(integer_text(-120), "-120");
    assert_eq!(integer_text(i64::MAX), "9223372036854775807");
    assert_eq!(integer_text(i64::MIN), "-9223372036854775808");
    assert_eq!(natural_text(0), "0");
    assert_eq!(natural_text(u128::MAX), "340282366920938463463374607431768211455");
}

#[test]
fn integers_are_read_from_decimal() {
    assert_eq!(parse_integer("0"), Some(0));
    assert_eq!(parse_integer("007"), Some(7));
    assert_eq!(parse_integer("+5"), Some(5));
    assert_eq!(parse_integer("-5"), Some(-5));
    assert_eq!(parse_integer("-0"), Some(0));
    assert_eq!(parse_integer("9223372036854775807"), Some(i64::MAX));
    assert_eq!(parse_integer("9223372036854775808"), None);
    assert_eq!(parse_integer("-9223372036854775808"), Some(i64::MIN));
    assert_eq!(parse_integer("-9223372036854775809"), None);
    assert_eq!(parse_integer("99999999999999999999999999999999999999999999"), None);
    assert_eq!(parse_integer(""), None);
    assert_eq!(parse_integer("+"), None);
    assert_eq!(parse_integer("-"), None);
    assert_eq!(parse_integer("--1"), None);
    assert_eq!(parse_integer("1-"), None);
    assert_eq!(parse_integer(" 1"), None);
    assert_eq!(parse_integer("1 "), None);
    assert_eq!(parse_integer("12a"), None);
    assert_eq!(parse_integer("١٢"), None);
}

#[test]
fn reading_gives_back_what_was_written() {
    for number in [0, 1, -1, 9, 10, 99, 100, -1000, i64::MAX, i64::MIN] {
        assert_eq!(parse_integer(&integer_text(number)), Some(number));
    }
}

#[test]
fn characters_are_found_by_their_place_not_their_bytes() {
    assert_eq!(find_char("a=b=c", '='), Some(1));
    assert_eq!(find_char("é=b", '='), Some(1));
    assert_eq!(find_char("abc", '='), None);
    assert_eq!(find_char("", '='), None);
    assert_eq!(find_char("=", '='), Some(0));
}

#[test]
fn texts_are_split_at_the_first_of_a_character() {
    let parts = |head: &str, tail: &str| Some((head.to_string(), tail.to_string()));
    assert_eq!(split_at_first("-Clink-arg=-fuse-ld=lld", '='), parts("-Clink-arg", "-fuse-ld=lld"));
    assert_eq!(split_at_first("key=", '='), parts("key", ""));
    assert_eq!(split_at_first("=value", '='), parts("", "value"));
    assert_eq!(split_at_first("ключ=значение", '='), parts("ключ", "значение"));
    assert_eq!(split_at_first("-g", '='), None);
}

#[test]
fn texts_are_searched_for_other_texts() {
    assert!(contains_text("-g -Ctarget-cpu=native", "-Ctarget-cpu=native"));
    assert!(contains_text("abc", ""));
    assert!(contains_text("", ""));
    assert!(contains_text("abc", "abc"));
    assert!(contains_text("aab", "ab"));
    assert!(!contains_text("abc", "abcd"));
    assert!(!contains_text("abc", "ac"));
    assert!(!contains_text("", "a"));
    assert!(contains_text("naïve café", "ve ca"));
}

#[test]
fn texts_are_joined_with_a_separator() {
    let texts = |parts: &[&str]| parts.iter().map(|part| part.to_string()).collect::<Vec<_>>();
    assert_eq!(join_texts(&texts(&[]), " "), "");
    assert_eq!(join_texts(&texts(&["a"]), " "), "a");
    assert_eq!(join_texts(&texts(&["a", "b", "c"]), ", "), "a, b, c");
    assert_eq!(join_texts(&texts(&["", ""]), "-"), "-");
    assert_eq!(copy_texts(&texts(&["x", "y"])), ["x", "y"]);
}

#[test]
fn first_word_stands_between_white_space() {
    let word = |line: &str| {
        let chars: Vec<char> = line.chars().collect();
        let (from, to) = first_word_bounds(&chars, 0, chars.len());
        chars[from..to].iter().collect::<String>()
    };
    assert_eq!(word("  native   - the host"), "native");
    assert_eq!(word("znver4"), "znver4");
    assert_eq!(word("\t x \r"), "x");
    assert_eq!(word("   "), "");
    assert_eq!(word(""), "");
    // a no-break space is trimmed at the ends but ends no word
    assert_eq!(word("\u{a0}a\u{a0}b c\u{a0}"), "a\u{a0}b");
    assert_eq!(word("abc\u{a0}"), "abc");
}

#[test]
fn cpu_list_skips_the_heading_and_empty_lines() {
    assert_eq!(parse_target_cpu_list("Available CPUs:\n  a - x\n\n  b\r\n\tc"), ["a", "b", "c"]);
    assert!(parse_target_cpu_list("").is_empty());
    assert!(parse_target_cpu_list("only a heading").is_empty());
    assert!(parse_target_cpu_list("heading\n").is_empty());
    assert!(parse_target_cpu_list("heading\n   \n").is_empty());
    assert_eq!(parse_target_cpu_list("\nfirst"), ["first"]);
}

#[test]
fn lines_of_a_difference_are_laid_out_with_numbers_and_signs() {
    let groups = vec![
        vec![
            line(LineTag::Equal, Some(0), Some(0), &[(false, "[profile.dev]\n")], false),
            line(LineTag::Delete, Some(1), None, &[(false, "debug = "), (true, "1"), (false, "\n")], false),
            line(LineTag::Insert, None, Some(1), &[(false, "debug = "), (true, "0")], true),
        ],
        vec![line(LineTag::Equal, Some(998), Some(9999), &[(false, "x\n")], false)],
    ];
    let spans = render_groups(&groups);
    let rule = "-".repeat(80);
    assert_eq!(
        plain(&spans),
        format!(
            "1   1    | [profile.dev]\n2        - debug = 1\n    2    + debug = 0\n{rule}999 10000 | x\n"
        )
    );
    let styles: Vec<DiffStyle> = spans.iter().map(|span| span.style).collect();
    assert_eq!(
        styles[..6],
        [
            DiffStyle::Dim,
            DiffStyle::Dim,
            DiffStyle::Plain,
            DiffStyle::Sign(LineTag::Equal),
            DiffStyle::Plain,
            DiffStyle::Text(LineTag::Equal),
        ]
    );
    assert_eq!(styles[12], DiffStyle::Emphasized(LineTag::Delete));
    assert!(render_groups(&Vec::new()).is_empty());
}

#[test]
fn difference_of_two_texts_shows_what_changed() {
    let old = "[profile.dev]\ndebug = 1\n";
    let new = "[profile.dev]\ndebug = 0\n";
    let shown = plain(&render_diff(old, new));
    assert!(shown.contains("1   1    | [profile.dev]\n"));
    assert!(shown.contains("2        - debug = 1\n"));
    assert!(shown.contains("    2    + debug = 0\n"));
    assert_eq!(plain(&render_diff(old, old)), "");
}
