use grt::text::{
    affirmative, chars_of, digit_runs_within_str, decimal_str, ends_with, first_word_str, is_yes, join_strs, lines_of,
    replace_char_str, same_text, split_str, starts_with, string_of_range, strip_prefix_all_str,
    strip_suffix_all_str, trim_str, whitespace, words_of,
};

fn owned(parts: &[&str]) -> Vec<String> {
    parts.iter().map(|s| s.to_string()).collect()
}

#[test]
fn split_cuts_at_every_separator() {
    assert_eq!(split_str("a/b/c", '/'), owned(&["a", "b", "c"]));
    assert_eq!(split_str("", '/'), owned(&[""]));
    assert_eq!(split_str("/", '/'), owned(&["", ""]));
    assert_eq!(split_str("a//b/", '/'), owned(&["a", "", "b", ""]));
    assert_eq!(split_str("abc", '/'), owned(&["abc"]));
    assert_eq!(split_str("\u{e9}-\u{4e2d}", '-'), owned(&["\u{e9}", "\u{4e2d}"]));
}

#[test]
fn split_agrees_with_std() {
    for s in ["", "a", "/", "a/b", "//", "/a/", "refs/changes/41/41/1", "x y  z "] {
        for sep in ['/', ' '] {
            let expected: Vec<String> = s.split(sep).map(|p| p.to_string()).collect();
            assert_eq!(split_str(s, sep), expected, "{:?} {:?}", s, sep);
        }
    }
}

#[test]
fn join_puts_the_separator_between() {
    assert_eq!(join_strs(&owned(&["a", "b", "c"]), ", "), "a, b, c");
    assert_eq!(join_strs(&owned(&["a"]), ", "), "a");
    assert_eq!(join_strs(&owned(&[]), ", "), "");
    assert_eq!(join_strs(&owned(&["", ""]), "/"), "/");
    assert_eq!(join_strs(&owned(&["a", "b"]), ""), "ab");
}

#[test]
fn joining_a_split_restores_the_text() {
    for s in ["", "a", "/", "a/b", "//", "/a/", "refs/changes/41/41/1"] {
        assert_eq!(join_strs(&split_str(s, '/'), "/"), s);
    }
}

#[test]
fn lines_end_at_line_feeds() {
    assert_eq!(lines_of("a\nb\n"), owned(&["a", "b"]));
    assert_eq!(lines_of("a\nb"), owned(&["a", "b"]));
    assert_eq!(lines_of(""), owned(&[]));
    assert_eq!(lines_of("\n"), owned(&[""]));
    assert_eq!(lines_of("a\r\nb\r\n"), owned(&["a", "b"]));
    assert_eq!(lines_of("a\r\n\r\nb\r"), owned(&["a", "", "b\r"]));
    assert_eq!(lines_of("a\r\r\n"), owned(&["a\r"]));
}

#[test]
fn lines_agree_with_std() {
    for s in ["", "\n", "a", "a\n", "a\nb", "a\r\nb\r", "\r", "\r\n", "\n\n", "x\n\ny\n", "a\rb\n"] {
        let expected: Vec<String> = s.lines().map(|l| l.to_string()).collect();
        assert_eq!(lines_of(s), expected, "{:?}", s);
    }
}

#[test]
fn trim_takes_white_space_off_both_ends() {
    assert_eq!(trim_str("  yes \n"), "yes");
    assert_eq!(trim_str("\t a b \r\n"), "a b");
    assert_eq!(trim_str(""), "");
    assert_eq!(trim_str(" \n\t "), "");
    assert_eq!(trim_str("\u{a0}x\u{3000}"), "x");
    assert_eq!(trim_str("\u{200b}x"), "\u{200b}x");
}

#[test]
fn whitespace_agrees_with_std() {
    let mut n: u32 = 0;
    while n < 0x11_0000 {
        if let Some(c) = char::from_u32(n) {
            assert_eq!(whitespace(c), c.is_whitespace(), "{:x}", n);
        }
        n += 1;
    }
}

#[test]
fn first_word_is_the_first_run_without_white_space() {
    assert_eq!(first_word_str(".repo/manifests : manifest.git\n"), ".repo/manifests");
    assert_eq!(first_word_str("  \n one two"), "one");
    assert_eq!(first_word_str("one"), "one");
    assert_eq!(first_word_str(""), "");
    assert_eq!(first_word_str(" \t\n"), "");
}

#[test]
fn first_word_agrees_with_std() {
    for s in ["", " ", "a", " a", "a ", "  ab  cd ", "\n\tx\u{a0}y", "manifest"] {
        let expected = s.trim().split_whitespace().next().unwrap_or("");
        assert_eq!(first_word_str(s), expected, "{:?}", s);
    }
}

#[test]
fn strip_suffix_all_takes_every_copy_off_the_end() {
    assert_eq!(strip_suffix_all_str("project.git", ".git"), "project");
    assert_eq!(strip_suffix_all_str("project.git.git", ".git"), "project");
    assert_eq!(strip_suffix_all_str("project.gitx", ".git"), "project.gitx");
    assert_eq!(strip_suffix_all_str(".git", ".git"), "");
    assert_eq!(strip_suffix_all_str("git", ".git"), "git");
    assert_eq!(strip_suffix_all_str("abc", ""), "abc");
    assert_eq!(strip_suffix_all_str("", ".git"), "");
}

#[test]
fn strip_prefix_all_takes_every_copy_off_the_start() {
    assert_eq!(strip_prefix_all_str("///a/b", "/"), "a/b");
    assert_eq!(strip_prefix_all_str("ababc", "ab"), "c");
    assert_eq!(strip_prefix_all_str("ssh://h/p", "ssh://h"), "/p");
    assert_eq!(strip_prefix_all_str("abc", ""), "abc");
    assert_eq!(strip_prefix_all_str("abc", "abcd"), "abc");
    assert_eq!(strip_prefix_all_str("", "a"), "");
}

#[test]
fn stripping_agrees_with_std() {
    for s in ["", "a", "aa", "aaa", "ab", "aab", "baa", "abab", "x.git.git", "/"] {
        for pat in ["a", "ab", "aa", ".git", "/"] {
            assert_eq!(strip_suffix_all_str(s, pat), s.trim_end_matches(pat), "{:?} {:?}", s, pat);
            assert_eq!(strip_prefix_all_str(s, pat), s.trim_start_matches(pat), "{:?} {:?}", s, pat);
        }
    }
}

#[test]
fn starts_and_ends() {
    assert!(starts_with("ssh://host", "ssh://"));
    assert!(starts_with("ssh://", "ssh://"));
    assert!(starts_with("x", ""));
    assert!(!starts_with("ssh:/", "ssh://"));
    assert!(!starts_with("", "a"));
    assert!(ends_with("http://h/", "/"));
    assert!(ends_with("/", "/"));
    assert!(!ends_with("http://h", "/"));
    assert!(!ends_with("", "/"));
    assert!(ends_with("", ""));
}

#[test]
fn replace_char_replaces_every_occurrence() {
    assert_eq!(replace_char_str("a b  c ", ' ', '+'), "a+b++c+");
    assert_eq!(replace_char_str("", ' ', '+'), "");
    assert_eq!(replace_char_str("a+b", ' ', '+'), "a+b");
}

#[test]
fn decimal_writes_the_digits() {
    assert_eq!(decimal_str(0), "0");
    assert_eq!(decimal_str(7), "7");
    assert_eq!(decimal_str(10), "10");
    assert_eq!(decimal_str(-1), "-1");
    assert_eq!(decimal_str(1234567890), "1234567890");
    assert_eq!(decimal_str(i32::MAX), "2147483647");
    assert_eq!(decimal_str(i32::MIN), "-2147483648");
}

#[test]
fn decimal_agrees_with_std() {
    for n in [0, 1, -1, 9, 10, 99, 100, -100, 65535, -65536, i32::MAX, i32::MIN] {
        assert_eq!(decimal_str(n), n.to_string());
    }
}

#[test]
fn yes_is_y_or_yes_in_any_case() {
    for line in ["y", "Y", "yes", "YES", "Yes\n", "  y  ", "yEs\r\n"] {
        assert!(is_yes(line), "{:?}", line);
    }
    for line in ["", "\n", "n", "no", "ye", "yess", "y es", "yes!", "j"] {
        assert!(!is_yes(line), "{:?}", line);
    }
}

#[test]
fn affirmative_takes_the_answer_as_it_stands() {
    assert!(affirmative("y"));
    assert!(affirmative("yes"));
    assert!(!affirmative("Y"));
    assert!(!affirmative(" yes"));
    assert!(!affirmative(""));
}

#[test]
fn same_text_compares_characters() {
    assert!(same_text("", ""));
    assert!(same_text("abc", "abc"));
    assert!(!same_text("abc", "abd"));
    assert!(!same_text("abc", "ab"));
    assert!(!same_text("", "a"));
}

#[test]
fn chars_and_ranges() {
    assert_eq!(chars_of("a\u{e9}b"), vec!['a', '\u{e9}', 'b']);
    assert_eq!(chars_of(""), Vec::<char>::new());
    let v = chars_of("hello");
    assert_eq!(string_of_range(&v, 1, 4), "ell");
    assert_eq!(string_of_range(&v, 0, 5), "hello");
    assert_eq!(string_of_range(&v, 2, 2), "");
}

#[test]
fn words_are_the_runs_without_white_space() {
    assert_eq!(words_of("ssh://h gerrit query  --files x"), owned(&["ssh://h", "gerrit", "query", "--files", "x"]));
    assert_eq!(words_of("  a\t\nb  "), owned(&["a", "b"]));
    assert_eq!(words_of(""), owned(&[]));
    assert_eq!(words_of(" \n "), owned(&[]));
    assert_eq!(words_of("one"), owned(&["one"]));
}

#[test]
fn words_agree_with_std() {
    for s in ["", " ", "a", " a", "a ", "  ab  cd ", "\n\tx\u{a0}y", "a b c", "\u{3000}z\u{2003}"] {
        let expected: Vec<String> = s.split_whitespace().map(|w| w.to_string()).collect();
        assert_eq!(words_of(s), expected, "{:?}", s);
    }
}

#[test]
fn digit_runs_are_measured_by_the_longest() {
    assert!(digit_runs_within_str("", 0));
    assert!(digit_runs_within_str("abc", 0));
    assert!(!digit_runs_within_str("a1", 0));
    assert!(digit_runs_within_str("12a345b6", 3));
    assert!(!digit_runs_within_str("12a345b6", 2));
    assert!(digit_runs_within_str("1.2.3", 1));
    assert!(!digit_runs_within_str("x0123456789", 9));
    assert!(digit_runs_within_str("x0123456789", 10));
    assert!(digit_runs_within_str("\u{661}\u{662}\u{663}", 0));
    assert!(digit_runs_within_str(&"9".repeat(1000), usize::MAX));
}
