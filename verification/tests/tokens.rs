use tfs::tokenfile::{chars_of, is_whitespace, split_whitespace, trim_matches_quote};
use tfs::{tokens_from_path, SplitWhitespaceOwned};

#[test]
fn split_at_any_run_of_spaces() {
    assert_eq!(split_whitespace("  a  bc\td \n"), vec!["a", "bc", "d"]);
    assert_eq!(split_whitespace("abc"), vec!["abc"]);
    assert_eq!(split_whitespace(""), Vec::<String>::new());
    assert_eq!(split_whitespace(" \t "), Vec::<String>::new());
    assert_eq!(split_whitespace("x\u{a0}y\u{3000}z\u{2003}w"), vec!["x", "y", "z", "w"]);
    assert_eq!(split_whitespace("\u{e9}t\u{e9} d\u{fc}nn"), vec!["\u{e9}t\u{e9}", "d\u{fc}nn"]);
}

#[test]
fn split_as_std_splits() {
    for line in ["@ NAME %s \"a b\"", " 1.0\t2.0  3.0 ", "\u{85}a\u{2028}b", "\u{200b}a b", "* $ @"] {
        let expected: Vec<String> = line.split_whitespace().map(String::from).collect();
        assert_eq!(split_whitespace(line), expected);
    }
}

#[test]
fn spaces_are_the_white_space_of_unicode() {
    for code in 0u32..0x3100 {
        if let Some(c) = char::from_u32(code) {
            assert_eq!(is_whitespace(c), c.is_whitespace(), "U+{:04X}", code);
        }
    }
}

#[test]
fn characters_one_by_one() {
    assert_eq!(chars_of("a\u{e9}z"), vec!['a', '\u{e9}', 'z']);
    assert_eq!(chars_of(""), Vec::<char>::new());
}

#[test]
fn quotes_at_both_ends_are_taken_off() {
    assert_eq!(trim_matches_quote("\"abc\""), "abc");
    assert_eq!(trim_matches_quote("abc"), "abc");
    assert_eq!(trim_matches_quote("\"\"abc\""), "abc");
    assert_eq!(trim_matches_quote("\"a\"b\""), "a\"b");
    assert_eq!(trim_matches_quote("\"abc"), "abc");
    assert_eq!(trim_matches_quote("\"\""), "");
    assert_eq!(trim_matches_quote("\""), "");
    assert_eq!(trim_matches_quote(""), "");
    assert_eq!(trim_matches_quote("'abc'"), "'abc'");
    for token in ["\"x\"", "\"\"\"", "a\"", "\"\u{e9}\""] {
        assert_eq!(trim_matches_quote(token), token.trim_matches('"'));
    }
}

#[test]
fn lines_wait_to_be_split() {
    let lines = vec!["a b".to_string(), "".to_string(), " c ".to_string()];
    let split = tokens_from_path(&lines);
    assert_eq!(split.len(), 3);
    assert_eq!(split[0].into_iter(), vec!["a", "b"]);
    assert_eq!(split[1].into_iter(), Vec::<String>::new());
    assert_eq!(split[2].into_iter(), vec!["c"]);
    assert_eq!(SplitWhitespaceOwned::new("x  y".to_string()).into_iter(), vec!["x", "y"]);
}
