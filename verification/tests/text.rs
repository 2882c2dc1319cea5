use chat_manager::text::{
    begins_with, chars_of, contains, first_line_of, replace_char, same_text, shorten, split_lines,
    str_begins_with, str_equals, string_between, string_of, tail_start_of, trim, trim_bounds,
};

fn chars(text: &str) -> Vec<char> {
    text.chars().collect()
}

#[test]
fn chars_and_strings_convert_both_ways() {
    assert_eq!(chars_of("añb"), vec!['a', 'ñ', 'b']);
    assert_eq!(string_of(&vec!['a', 'ñ', 'b']), "añb");
    assert_eq!(string_between(&chars("hello"), 1, 3), "el");
    assert_eq!(string_between(&chars("hello"), 2, 2), "");
}

#[test]
fn lines_end_at_line_feeds() {
    assert_eq!(split_lines("a\nb\nc"), vec!["a", "b", "c"]);
    assert_eq!(split_lines("a\nb\n"), vec!["a", "b"]);
    assert_eq!(split_lines("a\r\nb\r\n"), vec!["a", "b"]);
    assert_eq!(split_lines("a\n\nb"), vec!["a", "", "b"]);
    assert_eq!(split_lines("\n"), vec![""]);
    assert_eq!(split_lines(""), Vec::<String>::new());
}

#[test]
fn lines_keep_a_carriage_return_that_ends_no_line() {
    assert_eq!(split_lines("a\rb\nc\r"), vec!["a\rb", "c\r"]);
    assert_eq!(split_lines("a\r\r\n"), vec!["a\r"]);
}

#[test]
fn lines_agree_with_the_standard_library() {
    let samples = ["", "x", "x\n", "\r\n", "\r", "a\r\n\r\nb", "a\nb\r", "\n\n\n", "é\nü\r\n"];
    for sample in samples {
        let expected: Vec<String> = sample.lines().map(|line| line.to_string()).collect();
        assert_eq!(split_lines(sample), expected);
    }
}

#[test]
fn first_line_stops_at_the_line_end() {
    assert_eq!(first_line_of(&chars("one\ntwo")), chars("one"));
    assert_eq!(first_line_of(&chars("one\r\ntwo")), chars("one"));
    assert_eq!(first_line_of(&chars("one\r")), chars("one\r"));
    assert_eq!(first_line_of(&chars("\ntwo")), chars(""));
    assert_eq!(first_line_of(&chars("")), chars(""));
}

#[test]
fn trim_cuts_whitespace_at_both_ends() {
    assert_eq!(trim(&chars("  a b \t\n")), chars("a b"));
    assert_eq!(trim(&chars("\u{a0}x\u{3000}")), chars("x"));
    assert_eq!(trim(&chars(" \t ")), chars(""));
    assert_eq!(trim(&chars("")), chars(""));
    assert_eq!(trim(&chars("x")), chars("x"));
}

#[test]
fn trim_bounds_follow_the_flags() {
    assert_eq!(trim_bounds(&vec![true, true, false, true, false, true]), (2, 5));
    assert_eq!(trim_bounds(&vec![false]), (0, 1));
    assert_eq!(trim_bounds(&vec![true, true]), (2, 2));
    assert_eq!(trim_bounds(&Vec::new()), (0, 0));
}

#[test]
fn replace_turns_every_occurrence() {
    assert_eq!(replace_char(&chars("a\tb\t"), '\t', ' '), chars("a b "));
    assert_eq!(replace_char(&chars("abc"), 'x', 'y'), chars("abc"));
}

#[test]
fn shorten_cuts_behind_the_limit() {
    assert_eq!(shorten(&chars("abcdef"), 3), "abc...");
    assert_eq!(shorten(&chars("abc"), 3), "abc");
    assert_eq!(shorten(&chars(""), 0), "");
    assert_eq!(shorten(&chars("a"), 0), "...");
}

#[test]
fn prefixes_and_equality() {
    assert!(begins_with(&chars("agent-1"), &chars("agent-")));
    assert!(!begins_with(&chars("agent"), &chars("agent-")));
    assert!(begins_with(&chars("x"), &chars("")));
    assert!(str_begins_with("<ide_x", "<ide_"));
    assert!(!str_begins_with("<idea", "<ide_"));
    assert!(same_text(&chars("ab"), &chars("ab")));
    assert!(!same_text(&chars("ab"), &chars("abc")));
    assert!(!same_text(&chars("ab"), &chars("ac")));
    assert!(str_equals("user", "user"));
    assert!(!str_equals("user", "User"));
}

#[test]
fn contains_finds_a_text_anywhere() {
    assert!(contains(&chars("hello world"), &chars("lo w")));
    assert!(contains(&chars("hello"), &chars("hello")));
    assert!(contains(&chars("hello"), &chars("")));
    assert!(contains(&chars(""), &chars("")));
    assert!(contains(&chars("aab"), &chars("ab")));
    assert!(!contains(&chars("hello"), &chars("hellos")));
    assert!(!contains(&chars("hello"), &chars("Hello")));
    assert!(!contains(&chars(""), &chars("a")));
}

#[test]
fn tail_starts_behind_the_last_separator() {
    assert_eq!(tail_start_of(&chars("a/b/c"), '/'), 4);
    assert_eq!(tail_start_of(&chars("abc"), '/'), 0);
    assert_eq!(tail_start_of(&chars("abc/"), '/'), 4);
    assert_eq!(tail_start_of(&chars(""), '/'), 0);
}
