use word_book::search::{is_blank_query, is_white_space_char, phrase_prefix, plan_word_search, WordSearch};

fn phrase_of(query: &str) -> Option<String> {
    match plan_word_search(query) {
        WordSearch::Top => None,
        WordSearch::Phrase(s) => Some(s),
    }
}

#[test]
fn blank_queries_list_the_top_words() {
    assert_eq!(phrase_of(""), None);
    assert_eq!(phrase_of("   "), None);
    assert_eq!(phrase_of(" \t\n\r"), None);
    assert_eq!(phrase_of("\u{3000}\u{a0}\u{2009}"), None);
}

#[test]
fn a_word_becomes_a_prefix_phrase() {
    assert_eq!(phrase_of("cat"), Some("\"cat\"*".to_string()));
    assert_eq!(phrase_of("take off"), Some("\"take off\"*".to_string()));
}

#[test]
fn the_query_is_kept_untrimmed() {
    assert_eq!(phrase_of(" take off "), Some("\" take off \"*".to_string()));
}

#[test]
fn quotes_are_doubled() {
    assert_eq!(phrase_of("say \"hi\""), Some("\"say \"\"hi\"\"\"*".to_string()));
    assert_eq!(phrase_of("\""), Some("\"\"\"\"*".to_string()));
    assert_eq!(phrase_prefix("a\"b"), "\"a\"\"b\"*");
}

#[test]
fn non_ascii_queries_are_kept() {
    assert_eq!(phrase_of("café"), Some("\"café\"*".to_string()));
}

#[test]
fn whitespace_matches_std() {
    for u in 0u32..0x3100 {
        if let Some(c) = char::from_u32(u) {
            assert_eq!(is_white_space_char(c), c.is_whitespace(), "char {:x}", u);
        }
    }
    for q in ["", " ", "a", " a ", "\u{85}", "\u{200b}", "\u{feff}"] {
        assert_eq!(is_blank_query(q), q.trim().is_empty(), "query {:?}", q);
    }
}

/// Reads the body of a quoted full-text string back: `""` stands for `"`.
fn read_back(phrase: &str) -> String {
    let body = &phrase[1..phrase.len() - 2];
    assert!(phrase.ends_with("\"*"));
    let mut out = String::new();
    let mut chars = body.chars().peekable();
    while let Some(c) = chars.next() {
        if c == '"' {
            assert_eq!(chars.next(), Some('"'), "lone quote in {:?}", phrase);
        }
        out.push(c);
    }
    out
}

#[test]
fn the_phrase_reads_back_as_the_query() {
    for q in ["cat", "say \"hi\"", "\"\"", " a\"b \" c", "it's"] {
        assert_eq!(read_back(&phrase_prefix(q)), q);
    }
}
