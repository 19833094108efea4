// The text helpers, each held against what the standard library does on
// the same values.

use crabshell::utils::number::parse_i32;
use crabshell::utils::path_utils::{candidate_path, search_directories};
use crabshell::utils::separated::{join, split};
use crabshell::utils::string_utils::{same_text, trim};
use crabshell::utils::substring::{chars_of, contains, skip_chars, starts_with};
use crabshell::utils::words::words;

const SAMPLES: [&str; 14] = [
    "",
    " ",
    "a",
    "  a  ",
    "\t\n a b \r\n",
    "\u{A0}x\u{3000}",
    "x\u{A0}",
    "\u{2003}\u{2003}",
    " inner  space ",
    "no-trim",
    "\u{200B} zero width \u{200B}",
    "越 南 ",
    "\u{85}y",
    "  \\  ",
];

#[test]
fn trim_agrees_with_the_standard_library() {
    for sample in SAMPLES {
        assert_eq!(trim(sample), sample.trim(), "{:?}", sample);
    }
}

#[test]
fn trim_removes_both_ends_and_nothing_inside() {
    assert_eq!(trim("  a  b  "), "a  b");
    assert_eq!(trim("\t\t"), "");
    assert_eq!(trim(""), "");
    assert_eq!(trim("x"), "x");
}

#[test]
fn parse_i32_agrees_with_the_standard_library() {
    let samples = [
        "", "+", "-", "0", "-0", "+0", "7", "+7", "-7", "42", "0042", "-0042", "2147483647",
        "2147483648", "-2147483648", "-2147483649", "+2147483647", "+2147483648",
        "99999999999999999999999", "-99999999999999999999999", "00000000000000000000001",
        "1_000", " 1", "1 ", "1.0", "0x10", "--1", "+-1", "-+1", "1-", "1+", "a", "12a", "a12",
        "\u{663}", "1\u{663}", "١٢", "-", "notanumber", "4 2",
    ];
    for sample in samples {
        assert_eq!(parse_i32(sample), sample.parse::<i32>().ok(), "{:?}", sample);
    }
}

#[test]
fn parse_i32_reads_the_bounds() {
    assert_eq!(parse_i32("2147483647"), Some(i32::MAX));
    assert_eq!(parse_i32("-2147483648"), Some(i32::MIN));
    assert_eq!(parse_i32("2147483648"), None);
    assert_eq!(parse_i32("-2147483649"), None);
    assert_eq!(parse_i32("-12"), Some(-12));
    assert_eq!(parse_i32("+12"), Some(12));
}

#[test]
fn join_puts_the_separator_between_neighbours() {
    let parts = vec!["a".to_string(), "".to_string(), "b c".to_string()];
    assert_eq!(join(&parts, " "), "a  b c");
    assert_eq!(join(&parts, ", "), parts.join(", "));
    assert_eq!(join(&parts[..1], " "), "a");
    assert_eq!(join(&parts[..0], " "), "");
    assert_eq!(join(&parts, ""), "ab c");
}

#[test]
fn same_text_is_equality_of_strings() {
    assert!(same_text("", ""));
    assert!(same_text("echo", "echo"));
    assert!(!same_text("echo", "Echo"));
    assert!(!same_text("echo", "ech"));
    assert!(!same_text("ech", "echo"));
    assert!(!same_text("", "x"));
    assert!(same_text("越南", "越南"));
}

#[test]
fn contains_agrees_with_the_standard_library() {
    let hays = ["", "exit", "an exit here", "exi", "exiexit", "xexitx", "EXIT", "e x i t", "越exit"];
    let needles = ["exit", "", "x", "exitx", "越"];
    for hay in hays {
        for needle in needles {
            assert_eq!(contains(hay, needle), hay.contains(needle), "{:?} in {:?}", needle, hay);
        }
    }
}

#[test]
fn starts_with_agrees_with_the_standard_library() {
    let texts = ["", "echo ", "echo hi", "echo", " echo hi", "echoo", "type x"];
    let prefixes = ["echo ", "", "type ", "e"];
    for text in texts {
        for prefix in prefixes {
            assert_eq!(starts_with(text, prefix), text.starts_with(prefix));
        }
    }
}

#[test]
fn skip_chars_counts_characters() {
    assert_eq!(skip_chars("echo hi", 5), "hi");
    assert_eq!(skip_chars("越南 x", 2), " x");
    assert_eq!(skip_chars("abc", 3), "");
    assert_eq!(skip_chars("abc", 4), "");
    assert_eq!(skip_chars("abc", 0), "abc");
}

#[test]
fn chars_of_lists_the_characters() {
    assert_eq!(chars_of("a越b"), vec!['a', '越', 'b']);
    assert!(chars_of("").is_empty());
}

#[test]
fn split_agrees_with_the_standard_library() {
    let samples = ["", ":", "a", "a:b", ":a", "a:", "a::b", "::", "/usr/bin:/bin", "越:南"];
    for sample in samples {
        let expected: Vec<&str> = sample.split(':').collect();
        assert_eq!(split(sample, ':'), expected, "{:?}", sample);
        assert_eq!(search_directories(sample), expected, "{:?}", sample);
    }
    let by_space: Vec<&str> = "a  b ".split(' ').collect();
    assert_eq!(split("a  b ", ' '), by_space);
}

#[test]
fn split_pieces_rejoin_to_the_whole() {
    for sample in ["", ":", "a::b:", "/usr/local/bin:/usr/bin:/bin"] {
        assert_eq!(join(&split(sample, ':'), ":"), sample);
    }
}

#[test]
fn candidate_path_puts_a_slash_between_directory_and_name() {
    assert_eq!(candidate_path("/usr/bin", "ls"), "/usr/bin/ls");
    assert_eq!(candidate_path("", "ls"), "/ls");
    assert_eq!(candidate_path("/bin/", "ls"), "/bin//ls");
    assert_eq!(candidate_path("rel", "my exe"), "rel/my exe");
}

#[test]
fn words_agree_with_split_whitespace() {
    for sample in SAMPLES {
        let expected: Vec<&str> = sample.split_whitespace().collect();
        assert_eq!(words(sample), expected, "{:?}", sample);
    }
    for sample in ["a b", "a\tb", "  a  b\n", "-la /tmp", "x\u{3000}y\u{85}z", "'q r'"] {
        let expected: Vec<&str> = sample.split_whitespace().collect();
        assert_eq!(words(sample), expected, "{:?}", sample);
    }
}

#[test]
fn words_of_nothing_are_none() {
    assert!(words("").is_empty());
    assert!(words(" \t\n").is_empty());
    assert_eq!(words("one"), vec!["one"]);
    assert_eq!(words(" a\\ b "), vec!["a\\", "b"]);
}
