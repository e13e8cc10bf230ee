use inflections::case::{
    break_camel, capitalize_words, fold_lowercase, fold_uppercase, is_separator, normalize,
    scan_to_camel, swap_separator, swap_separators,
};
use inflections::text::{chars_of, string_of};

fn chars(s: &str) -> Vec<char> {
    s.chars().collect()
}

#[test]
fn three_separators() {
    assert!(is_separator(' '));
    assert!(is_separator('-'));
    assert!(is_separator('_'));
    assert!(!is_separator('a'));
    assert!(!is_separator('.'));
    assert!(!is_separator('\t'));
    assert!(!is_separator('\u{2013}'));
}

#[test]
fn swapping_one_character() {
    assert_eq!(swap_separator(' ', '_'), '_');
    assert_eq!(swap_separator('-', '_'), '_');
    assert_eq!(swap_separator('_', ' '), ' ');
    assert_eq!(swap_separator('a', '_'), 'a');
    assert_eq!(swap_separator('.', '-'), '.');
}

#[test]
fn swapping_all_characters() {
    assert_eq!(swap_separators(&chars("a b-c_d.e"), '-'), chars("a-b-c-d.e"));
    assert_eq!(swap_separators(&chars(""), '-'), chars(""));
}

#[test]
fn break_camel_hands_out_one_character_at_a_time() {
    let mut scanner = break_camel(chars("aBc"), '_');
    assert_eq!(scanner.next(), Some('a'));
    assert_eq!(scanner.next(), Some('_'));
    assert_eq!(scanner.next(), Some('B'));
    assert_eq!(scanner.next(), Some('c'));
    assert_eq!(scanner.next(), None);
    assert_eq!(scanner.next(), None);
}

#[test]
fn break_camel_collects_the_rest() {
    let mut scanner = break_camel(chars("helloWorld"), ' ');
    assert_eq!(scanner.next(), Some('h'));
    assert_eq!(scanner.collect(), chars("ello World"));
    assert_eq!(break_camel(chars("fooBarBaz"), '-').collect(), chars("foo-Bar-Baz"));
    assert_eq!(break_camel(chars("FOOBar"), '-').collect(), chars("FOOBar"));
    assert_eq!(break_camel(chars("foo"), '-').collect(), chars("foo"));
    assert_eq!(break_camel(chars("fooB"), '-').collect(), chars("foo-B"));
    assert_eq!(break_camel(chars(""), '-').collect(), chars(""));
}

#[test]
fn break_camel_leaves_separators_alone() {
    assert_eq!(break_camel(chars("a_B c-D"), '+').collect(), chars("a_B c-D"));
}

#[test]
fn capitalize_words_hands_out_one_character_at_a_time() {
    let mut scanner = capitalize_words(chars("ßa b"));
    assert_eq!(scanner.next(), Some('S'));
    assert_eq!(scanner.next(), Some('S'));
    assert_eq!(scanner.next(), Some('a'));
    assert_eq!(scanner.next(), Some(' '));
    assert_eq!(scanner.next(), Some('B'));
    assert_eq!(scanner.next(), None);
    assert_eq!(scanner.next(), None);
}

#[test]
fn capitalize_words_collects_the_rest() {
    assert_eq!(capitalize_words(chars("hello world")).collect(), chars("Hello World"));
    assert_eq!(capitalize_words(chars("hello-world_again")).collect(), chars("Hello-World_Again"));
    assert_eq!(capitalize_words(chars(" hello")).collect(), chars(" Hello"));
    assert_eq!(capitalize_words(chars("a  b")).collect(), chars("A  B"));
    assert_eq!(capitalize_words(chars("a_")).collect(), chars("A_"));
    assert_eq!(capitalize_words(chars("__")).collect(), chars("__"));
    assert_eq!(capitalize_words(chars("")).collect(), chars(""));
    assert_eq!(capitalize_words(chars("hELLO")).collect(), chars("HELLO"));
}

#[test]
fn folding_case() {
    assert_eq!(fold_lowercase(&chars("Hello World İ")), chars("hello world i\u{307}"));
    assert_eq!(fold_uppercase(&chars("Hello World ß")), chars("HELLO WORLD SS"));
}

#[test]
fn normalizing() {
    assert_eq!(normalize("helloWorld foo-bar", '_'), chars("hello_World_foo_bar"));
    assert_eq!(normalize("", '_'), chars(""));
}

#[test]
fn one_step_of_the_camel_scan() {
    let mut state = (true, None);
    assert_eq!(scan_to_camel(&mut state, 'a'), Some("A".to_owned()));
    assert_eq!(state, (false, Some('a')));
    assert_eq!(scan_to_camel(&mut state, 'B'), Some("B".to_owned()));
    assert_eq!(state, (false, Some('B')));
    assert_eq!(scan_to_camel(&mut state, 'C'), Some("c".to_owned()));
    assert_eq!(state, (false, Some('C')));
    assert_eq!(scan_to_camel(&mut state, '-'), Some("".to_owned()));
    assert_eq!(state, (true, Some('-')));
    assert_eq!(scan_to_camel(&mut state, '-'), Some("-".to_owned()));
    assert_eq!(state, (false, Some('-')));
    assert_eq!(scan_to_camel(&mut state, 'ß'), Some("ß".to_owned()));
    assert_eq!(scan_to_camel(&mut state, ' '), Some("".to_owned()));
    assert_eq!(scan_to_camel(&mut state, 'ß'), Some("SS".to_owned()));
}

#[test]
fn strings_and_characters() {
    assert_eq!(chars_of("héllo"), vec!['h', 'é', 'l', 'l', 'o']);
    assert_eq!(chars_of(""), Vec::<char>::new());
    assert_eq!(string_of(&vec!['h', 'é', 'l', 'l', 'o']), "héllo");
    assert_eq!(string_of(&Vec::new()), "");
}
