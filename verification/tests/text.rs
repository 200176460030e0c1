use spider::modules::text::{chars_of, contains_chars, contains_text, split_words, trim_end_matches};

#[test]
fn chars_are_taken_one_by_one() {
    assert_eq!(chars_of("a\u{e9}z"), vec!['a', '\u{e9}', 'z']);
    assert_eq!(chars_of(""), Vec::<char>::new());
}

#[test]
fn words_are_split_at_any_white_space() {
    assert_eq!(split_words("Show S01  E09"), vec!["Show", "S01", "E09"]);
    assert_eq!(split_words("  lead\tand\ntrail \u{a0} "), vec!["lead", "and", "trail"]);
    assert_eq!(split_words("one"), vec!["one"]);
}

#[test]
fn text_of_white_space_has_no_words() {
    assert_eq!(split_words(""), Vec::<String>::new());
    assert_eq!(split_words(" \t\r\n"), Vec::<String>::new());
}

#[test]
fn words_agree_with_the_standard_split() {
    for text in ["a b", " a", "a ", "\u{3000}x\u{2003}y", "S01E01", "x  y   z ", "\u{e9}t\u{e9} hiver"] {
        let expected: Vec<String> = text.split_whitespace().map(String::from).collect();
        assert_eq!(split_words(text), expected);
    }
}

#[test]
fn contains_finds_a_pattern_anywhere() {
    assert!(contains_text("abc-foo-bar", "foo"));
    assert!(contains_text("abc-foo-bar", "abc"));
    assert!(contains_text("abc-foo-bar", "bar"));
    assert!(contains_text("abc-foo-bar", "abc-foo-bar"));
    assert!(contains_text("aab", "ab"));
}

#[test]
fn contains_compares_as_written() {
    assert!(!contains_text("ABC-FOO-BAR", "foo"));
    assert!(!contains_text("abc", "abcd"));
    assert!(!contains_text("abc", "ac"));
    assert!(!contains_text("", "a"));
}

#[test]
fn every_text_contains_the_empty_pattern() {
    assert!(contains_text("abc", ""));
    assert!(contains_text("", ""));
    assert!(contains_chars(&vec!['x'], &Vec::new()));
}

#[test]
fn trailing_characters_are_trimmed() {
    assert_eq!(trim_end_matches("http://host:8080///", '/'), "http://host:8080");
    assert_eq!(trim_end_matches("http://host/a", '/'), "http://host/a");
    assert_eq!(trim_end_matches("///", '/'), "");
    assert_eq!(trim_end_matches("", '/'), "");
    assert_eq!(trim_end_matches("/a/", '/'), "/a");
}

#[test]
fn short_text_is_its_own_tail() {
    use_limit("abc", 3, "abc");
    use_limit("abc", 10, "abc");
    use_limit("", 0, "");
}

#[test]
fn long_text_is_cut_to_its_last_bytes() {
    use_limit("abcdef", 3, "def");
    use_limit("abcdef", 0, "");
    use_limit("a\u{e9}", 2, "\u{e9}");
    use_limit("line one\nline two\n", 9, "line two\n");
}

fn use_limit(text: &str, max: usize, expected: &str) {
    assert!(text.len() <= max || text.is_char_boundary(text.len() - max));
    assert_eq!(spider::modules::text::limit_tail(text, max), expected);
}

fn small_texts() -> Vec<String> {
    let letters = ['a', 'b', ' ', '/'];
    let mut texts = vec![String::new()];
    let mut last = vec![String::new()];
    for _ in 0..4 {
        let mut next = Vec::new();
        for text in &last {
            for letter in letters {
                let mut longer = text.clone();
                longer.push(letter);
                next.push(longer);
            }
        }
        texts.extend(next.iter().cloned());
        last = next;
    }
    texts
}

#[test]
fn contains_agrees_with_the_standard_search() {
    let texts = small_texts();
    for text in &texts {
        for pattern in texts.iter().filter(|p| p.len() <= 3) {
            assert_eq!(contains_text(text, pattern), text.contains(pattern.as_str()));
        }
    }
}

#[test]
fn trimming_and_splitting_agree_with_the_standard_functions() {
    for text in small_texts() {
        assert_eq!(trim_end_matches(&text, '/'), text.trim_end_matches('/'));
        let expected: Vec<String> = text.split_whitespace().map(String::from).collect();
        assert_eq!(split_words(&text), expected);
    }
}
