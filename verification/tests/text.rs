use passclip::text::{char_frequencies, chars_of, contains_char, is_affirmative, is_white_space_char, trim_text};

fn entropy(s: &str) -> f64 {
    if s.is_empty() {
        return 0.0;
    }
    let len = s.len() as f64;
    char_frequencies(s)
        .iter()
        .map(|&(_, count)| {
            let p = count as f64 / len;
            -p * p.log2()
        })
        .sum()
}

#[test]
fn test_entropy_calculation() {
    let low_entropy = entropy("aaaaaaa");
    let high_entropy = entropy("g8#K!v9$XzP2");

    assert!(
        high_entropy > low_entropy,
        "Random string must have higher entropy than repeated char"
    );
    assert_eq!(low_entropy, 0.0);
}

#[test]
fn char_frequencies_counts_in_first_occurrence_order() {
    assert_eq!(char_frequencies("abracadabra"), vec![('a', 5), ('b', 2), ('r', 2), ('c', 1), ('d', 1)]);
    assert!(char_frequencies("").is_empty());
    assert_eq!(char_frequencies("ééa"), vec![('é', 2), ('a', 1)]);
}

#[test]
fn affirmative_replies() {
    assert!(is_affirmative("y"));
    assert!(is_affirmative("yes"));
    assert!(is_affirmative("  YeS\n"));
    assert!(is_affirmative("Y\r\n"));
    assert!(!is_affirmative("no"));
    assert!(!is_affirmative(""));
    assert!(!is_affirmative("yes please"));
    assert!(!is_affirmative("ye"));
    assert!(!is_affirmative("yess"));
}

#[test]
fn trim_removes_unicode_white_space_at_both_ends() {
    assert_eq!(trim_text("\u{3000} a b \t"), vec!['a', ' ', 'b']);
    assert!(trim_text(" \n ").is_empty());
    let s = "\u{a0}x\u{2009}";
    assert_eq!(trim_text(s).into_iter().collect::<String>(), s.trim());
}

#[test]
fn white_space_agrees_with_std() {
    for c in ['\t', '\n', ' ', '\u{85}', '\u{a0}', '\u{1680}', '\u{2000}', '\u{200a}', '\u{3000}', 'a', '\u{200b}', '_'] {
        assert_eq!(is_white_space_char(c), c.is_whitespace(), "{:?}", c);
    }
}

#[test]
fn contains_and_chars() {
    assert!(contains_char("a b", ' '));
    assert!(!contains_char("ab", ' '));
    assert_eq!(chars_of("hé"), vec!['h', 'é']);
}
