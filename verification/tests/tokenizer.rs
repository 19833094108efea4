// The tokenizer on concrete lines: quoting, escaping, whitespace and the
// lenient treatment of lines that end inside a quote or after a backslash.

use crabshell::utils::separated::join;
use crabshell::utils::string_utils::{char_is_whitespace, tokenize};

fn strings(items: &[&str]) -> Vec<String> {
    items.iter().map(|item| item.to_string()).collect()
}

#[test]
fn empty_line_has_no_tokens() {
    assert!(tokenize("").is_empty());
}

#[test]
fn whitespace_only_line_has_no_tokens() {
    assert!(tokenize(" \t \n\r ").is_empty());
}

#[test]
fn plain_line_splits_on_whitespace_runs() {
    assert_eq!(tokenize("  alpha\t beta \n gamma  "), vec!["alpha", "beta", "gamma"]);
    let expected: Vec<&str> = "  alpha\t beta \n gamma  ".split_whitespace().collect();
    assert_eq!(tokenize("  alpha\t beta \n gamma  "), expected);
}

#[test]
fn plain_line_keeps_every_character_that_is_no_whitespace() {
    let line = "x1  y-2\t\tz_3 ";
    let kept: String = line.chars().filter(|c| !c.is_whitespace()).collect();
    assert_eq!(tokenize(line).concat(), kept);
}

#[test]
fn unicode_whitespace_separates_tokens() {
    assert_eq!(tokenize("a\u{A0}b"), vec!["a", "b"]);
    assert_eq!(tokenize("a\u{85}b"), vec!["a", "b"]);
    assert_eq!(tokenize("a\u{1680}b"), vec!["a", "b"]);
    assert_eq!(tokenize("a\u{2003}b"), vec!["a", "b"]);
    assert_eq!(tokenize("a\u{2028}b\u{2029}c"), vec!["a", "b", "c"]);
    assert_eq!(tokenize("a\u{202F}b\u{205F}c\u{3000}d"), vec!["a", "b", "c", "d"]);
    assert_eq!(tokenize("a\u{B}b\u{C}c"), vec!["a", "b", "c"]);
}

#[test]
fn characters_next_to_whitespace_ranges_stay_in_the_token() {
    assert_eq!(tokenize("a\u{8}b"), vec!["a\u{8}b"]);
    assert_eq!(tokenize("a\u{E}b"), vec!["a\u{E}b"]);
    assert_eq!(tokenize("a\u{1F}b"), vec!["a\u{1F}b"]);
    assert_eq!(tokenize("a\u{180E}b"), vec!["a\u{180E}b"]);
    assert_eq!(tokenize("a\u{1FFF}b"), vec!["a\u{1FFF}b"]);
    assert_eq!(tokenize("a\u{200B}b"), vec!["a\u{200B}b"]);
    assert_eq!(tokenize("a\u{FEFF}b"), vec!["a\u{FEFF}b"]);
}

#[test]
fn whitespace_test_agrees_with_the_standard_library_on_every_character() {
    let mut code: u32 = 0;
    while code <= 0x10FFFF {
        if let Some(c) = char::from_u32(code) {
            assert_eq!(char_is_whitespace(c), c.is_whitespace(), "U+{:04X}", code);
        }
        code += 1;
    }
}

#[test]
fn joined_plain_tokens_come_back() {
    let tokens = strings(&["ls", "-la", "/tmp", "x=1", "a,b;c"]);
    assert_eq!(tokenize(&tokens.join(" ")), tokens);
    assert_eq!(tokenize(&join(&tokens, " ")), tokens);
    let one = strings(&["single"]);
    assert_eq!(tokenize(&one.join(" ")), one);
    let none: Vec<String> = Vec::new();
    assert_eq!(tokenize(&none.join(" ")), none);
}

#[test]
fn joined_tokens_with_an_empty_one_do_not_come_back() {
    let tokens = strings(&["a", "", "b"]);
    assert_eq!(tokenize(&tokens.join(" ")), vec!["a", "b"]);
}

#[test]
fn whitespace_run_is_as_good_as_one_space() {
    assert_eq!(tokenize("a \t\n  b"), tokenize("a b"));
    assert_eq!(tokenize("'x y'\u{3000}\u{A0}z"), tokenize("'x y' z"));
    assert_eq!(tokenize("a\\\\\t\tb"), tokenize("a\\\\ b"));
    assert_eq!(tokenize("   a"), tokenize(" a"));
    assert_eq!(tokenize("a   "), tokenize("a "));
}

#[test]
fn whitespace_run_inside_quotes_or_after_backslash_is_kept() {
    assert_eq!(tokenize("'a   b'"), vec!["a   b"]);
    assert_eq!(tokenize("\"a \t b\""), vec!["a \t b"]);
    assert_eq!(tokenize("a\\  b"), vec!["a ", "b"]);
    assert_eq!(tokenize("a\\\tb"), vec!["a\tb"]);
}

#[test]
fn single_quoted_content_is_literal() {
    assert_eq!(tokenize("'a\\b\"c'"), vec!["a\\b\"c"]);
    assert_eq!(tokenize("'\\n \\' x"), vec!["\\n \\", "x"]);
}

#[test]
fn double_quoted_content_is_literal() {
    assert_eq!(tokenize("\"a\\b'c d\""), vec!["a\\b'c d"]);
    assert_eq!(tokenize("\"a\\\" b"), vec!["a\\", "b"]);
}

#[test]
fn backslash_keeps_exactly_the_next_character() {
    assert_eq!(tokenize("foo\\ bar baz"), vec!["foo bar", "baz"]);
    assert_eq!(tokenize("\\'a\\' \\\"b\\\""), vec!["'a'", "\"b\""]);
    assert_eq!(tokenize("a\\\\b"), vec!["a\\b"]);
    assert_eq!(tokenize("\\a\\b"), vec!["ab"]);
    assert_eq!(tokenize("\\ "), vec![" "]);
}

#[test]
fn trailing_backslash_stands_for_itself() {
    assert_eq!(tokenize("abc\\"), vec!["abc\\"]);
    assert_eq!(tokenize("\\"), vec!["\\"]);
    assert_eq!(tokenize("a \\"), vec!["a", "\\"]);
    assert_eq!(tokenize("a\\\\\\"), vec!["a\\\\"]);
}

#[test]
fn adjacent_segments_make_one_token() {
    assert_eq!(tokenize("foo\"bar\"baz"), vec!["foobarbaz"]);
    assert_eq!(tokenize("foo'bar'baz"), vec!["foobarbaz"]);
    assert_eq!(tokenize("'a'\"b\"'c'd\\e"), vec!["abcde"]);
    assert_eq!(tokenize("pre'in side'post next"), vec!["prein sidepost", "next"]);
}

#[test]
fn empty_quotes_add_nothing_and_split_nothing() {
    assert!(tokenize("''").is_empty());
    assert!(tokenize("\"\"").is_empty());
    assert!(tokenize("'' \"\" ''").is_empty());
    assert_eq!(tokenize("a''b"), vec!["ab"]);
    assert_eq!(tokenize("a\"\"b ''c"), vec!["ab", "c"]);
}

#[test]
fn the_other_quote_is_literal_inside_quotes() {
    assert_eq!(tokenize("'say \"hi\"'"), vec!["say \"hi\""]);
    assert_eq!(tokenize("\"it's\""), vec!["it's"]);
}

#[test]
fn line_ending_inside_quotes_is_flushed() {
    assert_eq!(tokenize("'abc def"), vec!["abc def"]);
    assert_eq!(tokenize("x \"abc def"), vec!["x", "abc def"]);
    assert_eq!(tokenize("'abc\\"), vec!["abc\\"]);
    assert!(tokenize("'").is_empty());
    assert!(tokenize("\"").is_empty());
}

#[test]
fn tokens_are_never_empty() {
    for line in ["", " ", "''", "a '' b", "\"\" x", "a  b  ", "\\", "' '"] {
        for token in tokenize(line) {
            assert!(!token.is_empty(), "{:?}", line);
        }
    }
}

#[test]
fn tokens_keep_input_order() {
    assert_eq!(tokenize("3 1 2 1"), vec!["3", "1", "2", "1"]);
}

#[test]
fn characters_beyond_ascii_are_kept_whole() {
    assert_eq!(tokenize("héllo 'wörld ünï' 越\\ 南"), vec!["héllo", "wörld ünï", "越 南"]);
}
