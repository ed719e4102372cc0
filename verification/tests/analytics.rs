use book_analytics::book::Analytics;
use book_analytics::stop_words::is_stopword;
use book_analytics::text::tokenize;

#[test]
fn test_normal() {
    let analytics = Analytics::new(&"Hello, world! Hello, everyone!".to_string());

    assert_eq!(analytics.get_count(&"hello".to_string()), Some(2));
    assert_eq!(analytics.get_count(&"world".to_string()), Some(1));
    assert_eq!(analytics.get_count(&"everyone".to_string()), Some(1));
    assert_eq!(analytics.sorted_words[0], ("hello".to_string(), 2));
}

#[test]
fn test_empty() {
    let analytics = Analytics::new(&"".to_string());

    assert_eq!(analytics.word_map.len(), 0);
    assert_eq!(analytics.sorted_words.len(), 0);
}

#[test]
fn test_special_characters() {
    let content = "Hello, world! Hello, world! Hello, world!".to_string();
    let analytics = Analytics::new(&content);

    assert_eq!(analytics.get_count(&"hello".to_string()), Some(3));
    assert_eq!(analytics.get_count(&"world".to_string()), Some(3));

    assert!(analytics
        .sorted_words
        .iter()
        .any(|&(ref s, count)| s == "hello" && count == 3));
    assert!(analytics
        .sorted_words
        .iter()
        .any(|&(ref s, count)| s == "world" && count == 3));
}

#[test]
fn test_stopwords() {
    let content = "the quick brown fox jumps over the lazy dog".to_string();
    let analytics = Analytics::new(&content);
    assert_eq!(analytics.get_count(&"the".to_string()), Some(2));
    let in_sorted = analytics.sorted_words.iter().any(|(word, _)| word == "the");
    assert_eq!(in_sorted, false);
}

#[test]
fn test_get_count() {
    let content = "Hello hello world world world".to_string();
    let analytics = Analytics::new(&content);

    let count = analytics.get_count(&"hello".to_string());
    assert_eq!(count, Some(2));

    let count = analytics.get_count(&"WORLD".to_string());
    assert_eq!(count, Some(3));

    let count = analytics.get_count(&"goodbye".to_string());
    assert_eq!(count, None);
}

#[test]
fn test_get_top_words() {
    let content = "hello world hello world hello test".to_string();
    let analytics = Analytics::new(&content);

    let top_2_words = analytics.get_top_words(2);
    assert_eq!(top_2_words.len(), 2);
    assert_eq!(
        top_2_words,
        vec![
            (1, ("hello".to_string(), 3)),
            (2, ("world".to_string(), 2))
        ]
    );
}

#[test]
fn test_get_top_words_more_than_exists() {
    let content = "hello world hello world hello test".to_string();
    let analytics = Analytics::new(&content);

    let top_5_words = analytics.get_top_words(5);
    assert_eq!(top_5_words.len(), 3); // only 3 unique words in content
    assert_eq!(
        top_5_words,
        vec![
            (1, ("hello".to_string(), 3)),
            (2, ("world".to_string(), 2)),
            (3, ("test".to_string(), 1)),
        ]
    );
}

#[test]
fn test_total_word_count() {
    let content = "hello world hello world hello test".to_string();
    let analytics = Analytics::new(&content);
    assert_eq!(analytics.get_total_word_count(), 6);
}

#[test]
fn test_total_character_count() {
    let content = "hello world hello world hello test".to_string();
    let analytics = Analytics::new(&content);
    assert_eq!(analytics.get_character_count(), 29);
}

#[test]
fn test_empty_token_artifact() {
    // chunks with no alphabetic character normalize to the empty word, which
    // is counted in the word map but never ranked
    let analytics = Analytics::new(&"123 456 !!!".to_string());
    assert_eq!(analytics.get_total_word_count(), 3);
    assert_eq!(analytics.get_count(&"".to_string()), Some(3));
    assert_eq!(analytics.sorted_words.len(), 0);
    assert_eq!(analytics.get_character_count(), 0);
}

#[test]
fn test_character_count_graphemes() {
    // 'e' followed by a combining acute accent is one grapheme cluster of two
    // characters; a code-point or byte count would differ
    let content = "e\u{301}e\u{301}".to_string();
    let analytics = Analytics::new(&content);
    assert_eq!(analytics.get_character_count(), 2);
}

#[test]
fn test_whitespace_kinds() {
    let analytics = Analytics::new(&"hello\tworld\nhello\r\n  hello".to_string());
    assert_eq!(analytics.get_count(&"hello".to_string()), Some(3));
    assert_eq!(analytics.get_count(&"world".to_string()), Some(1));
    assert_eq!(analytics.get_total_word_count(), 4);
}

#[test]
fn test_punctuation_stripped_inside() {
    let analytics = Analytics::new(&"don't stop".to_string());
    assert_eq!(analytics.get_count(&"dont".to_string()), Some(1));
    assert_eq!(analytics.get_count(&"don't".to_string()), None);
}

#[test]
fn test_get_count_does_not_strip() {
    // lookup only lowercases; a query still carrying punctuation misses
    let analytics = Analytics::new(&"world".to_string());
    assert_eq!(analytics.get_count(&"world".to_string()), Some(1));
    assert_eq!(analytics.get_count(&"world!".to_string()), None);
}

#[test]
fn test_top_zero() {
    let analytics = Analytics::new(&"hello world".to_string());
    assert_eq!(analytics.get_top_words(0).len(), 0);
}

#[test]
fn test_ranking_descending() {
    let analytics = Analytics::new(&"zz yy zz xx zz yy".to_string());
    let top = analytics.get_top_words(10);
    assert_eq!(top.len(), 3);
    assert_eq!(top[0], (1, ("zz".to_string(), 3)));
    assert_eq!(top[1], (2, ("yy".to_string(), 2)));
    assert_eq!(top[2], (3, ("xx".to_string(), 1)));
}

#[test]
fn test_top_words_pure_read() {
    let analytics = Analytics::new(&"hello world hello".to_string());
    let first = analytics.get_top_words(2);
    let second = analytics.get_top_words(2);
    assert_eq!(first, second);
}

#[test]
fn test_stopword_predicate() {
    assert!(is_stopword("the"));
    assert!(is_stopword("The"));
    assert!(is_stopword("OVER"));
    assert!(is_stopword(""));
    assert!(!is_stopword("hello"));
    assert!(!is_stopword("fox"));
}

#[test]
fn test_tokenize_normalizes() {
    let toks = tokenize("  Hello, World!  123 ");
    assert_eq!(
        toks,
        vec!["hello".to_string(), "world".to_string(), "".to_string()]
    );
}
