use evil::text::{ends_with, range_ends_with, split, to_chars};

#[test]
fn to_chars_gives_every_character_once() {
    assert_eq!(to_chars("añ€"), vec!['a', 'ñ', '€']);
    assert_eq!(to_chars(""), Vec::<char>::new());
}

#[test]
fn split_of_empty_text_is_one_empty_piece() {
    assert_eq!(split("", ' '), vec![String::new()]);
}

#[test]
fn split_of_text_without_separator_is_the_text() {
    assert_eq!(split("Joker", ' '), vec![String::from("Joker")]);
}

#[test]
fn split_cuts_at_every_separator() {
    assert_eq!(split("Lex Luthor", ' '), vec![String::from("Lex"), String::from("Luthor")]);
    assert_eq!(
        split("The Green Goblin", ' '),
        vec![String::from("The"), String::from("Green"), String::from("Goblin")]
    );
}

#[test]
fn split_keeps_empty_pieces() {
    assert_eq!(split(" ", ' '), vec![String::new(), String::new()]);
    assert_eq!(split("a  b", ' '), vec![String::from("a"), String::new(), String::from("b")]);
    assert_eq!(split(" a", ' '), vec![String::new(), String::from("a")]);
    assert_eq!(split("a ", ' '), vec![String::from("a"), String::new()]);
}

#[test]
fn split_counts_characters_not_bytes() {
    assert_eq!(split("Señor Ñu", ' '), vec![String::from("Señor"), String::from("Ñu")]);
}

#[test]
fn split_agrees_with_the_standard_library() {
    for text in ["", " ", "a", "a b", "a b c", "  ", " a  b ", "ñ €"] {
        let expected: Vec<String> = text.split(' ').map(String::from).collect();
        assert_eq!(split(text, ' '), expected, "for {text:?}");
    }
}

#[test]
fn joining_the_pieces_gives_the_text_back() {
    for text in ["", " ", "a", "a b", "a b c", "  ", " a  b "] {
        assert_eq!(split(text, ' ').join(" "), text);
    }
}

#[test]
fn ends_with_tests_the_end_only() {
    assert!(ends_with("Las Vegas,weak", "weak"));
    assert!(ends_with("weak", "weak"));
    assert!(ends_with("anything", ""));
    assert!(!ends_with("weak,strong", "weak"));
    assert!(!ends_with("eak", "weak"));
    assert!(!ends_with("", "weak"));
}

#[test]
fn range_ends_with_looks_at_the_range_only() {
    let chars = to_chars("xweak,weakx");
    let weak = to_chars("weak");
    assert!(range_ends_with(&chars, 0, 5, &weak));
    assert!(range_ends_with(&chars, 1, 5, &weak));
    assert!(!range_ends_with(&chars, 2, 5, &weak));
    assert!(range_ends_with(&chars, 0, 10, &weak));
    assert!(!range_ends_with(&chars, 0, 11, &weak));
    assert!(range_ends_with(&chars, 3, 3, &Vec::new()));
}
