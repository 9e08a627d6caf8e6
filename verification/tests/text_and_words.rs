use memory::text::{chars_of, contains_chars, push_decimal, str_contains, to_lowercase, u128_to_decimal, u64_to_decimal};
use memory::words::{contains_word, count_shared, dedup_words, split_words, union_words};

fn words(s: &str) -> Vec<String> {
    s.split(' ').filter(|w| !w.is_empty()).map(|w| w.to_string()).collect()
}

#[test]
fn decimal_rendering() {
    assert_eq!(u64_to_decimal(0), "0");
    assert_eq!(u64_to_decimal(1234), "1234");
    assert_eq!(u128_to_decimal(340282366920938463463374607431768211455), "340282366920938463463374607431768211455");
    assert_eq!(u64_to_decimal(u64::MAX), u64::MAX.to_string());
    assert_eq!(u64_to_decimal(10), "10");
    let mut s = "n=".to_string();
    push_decimal(&mut s, 77);
    assert_eq!(s, "n=77");
}

#[test]
fn substring_search_on_characters() {
    let hay = chars_of("Ошибка: database is locked");
    assert!(str_contains(&hay, "locked"));
    assert!(!str_contains(&hay, "Locked"));
    assert!(contains_chars(&hay, &Vec::new()));
    assert!(!contains_chars(&chars_of("ab"), &chars_of("abc")));
    assert_eq!(to_lowercase("HNSW Не Инициализирован"), "hnsw не инициализирован");
}

#[test]
fn splitting_agrees_with_unicode_white_space() {
    assert_eq!(split_words("a\u{3000}b\u{a0}c\u{2028}d\u{85}e\u{200b}f"), vec!["a", "b", "c", "d", "e\u{200b}f"]);
    assert!(split_words("").is_empty());
    assert!(split_words(" \t\r\n\u{1680}\u{202f}").is_empty());
    for text in ["  a\tb\n c  ", "один  два\u{2003}три", "x", "\u{205f}y\u{2029}", "a\u{b}b\u{c}c\u{1c}d"] {
        let expected: Vec<String> = text.split_whitespace().map(|w| w.to_string()).collect();
        assert_eq!(split_words(text), expected, "{:?}", text);
    }
}

#[test]
fn words_are_split_deduplicated_and_compared() {
    assert_eq!(split_words("  a\tb\n c  "), vec!["a", "b", "c"]);
    assert_eq!(dedup_words(&words("b a b c a")), vec!["b", "a", "c"]);
    let q = words("x y z");
    let d = words("y w y");
    assert!(contains_word(&q, &"z".to_string()));
    assert!(!contains_word(&d, &"z".to_string()));
    assert_eq!(count_shared(&q, &d), 1);
    assert_eq!(union_words(&q, &d).len(), 4);
    assert_eq!(union_words(&q, &dedup_words(&d)).len(), 4);
}
