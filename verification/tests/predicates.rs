use inflections::case::{
    is_camel_case, is_constant_case, is_kebab_case, is_lower_case, is_pascal_case,
    is_sentence_case, is_snake_case, is_title_case, is_train_case, is_upper_case, to_camel_case,
    to_constant_case, to_kebab_case, to_lower_case, to_pascal_case, to_sentence_case,
    to_snake_case, to_title_case, to_train_case, to_upper_case,
};

const SPELLINGS: [&str; 9] = [
    "hello world",
    "HELLO WORLD",
    "Hello World",
    "helloWorld",
    "HelloWorld",
    "hello-world",
    "Hello-World",
    "hello_world",
    "HELLO_WORLD",
];

/// Checks that `is` holds of exactly those spellings that are listed.
fn holds_only_of(is: fn(&str) -> bool, conforming: &[&str]) {
    for s in SPELLINGS {
        assert_eq!(is(s), conforming.contains(&s), "of {}", s);
    }
}

#[test]
fn lower_case_predicate() {
    holds_only_of(is_lower_case, &["hello world", "hello-world", "hello_world"]);
    assert_eq!(is_lower_case("hello-world"), true);
    assert_eq!(is_lower_case("Hello-World"), false);
}

#[test]
fn upper_case_predicate() {
    holds_only_of(is_upper_case, &["HELLO WORLD", "HELLO_WORLD"]);
}

#[test]
fn sentence_case_predicate() {
    holds_only_of(is_sentence_case, &["hello world"]);
}

#[test]
fn title_case_predicate() {
    holds_only_of(is_title_case, &["Hello World"]);
}

#[test]
fn camel_case_predicate() {
    holds_only_of(is_camel_case, &["helloWorld"]);
}

#[test]
fn pascal_case_predicate() {
    holds_only_of(is_pascal_case, &["HelloWorld"]);
}

#[test]
fn kebab_case_predicate() {
    holds_only_of(is_kebab_case, &["hello-world"]);
}

#[test]
fn train_case_predicate() {
    holds_only_of(is_train_case, &["Hello-World"]);
}

#[test]
fn snake_case_predicate() {
    holds_only_of(is_snake_case, &["hello_world"]);
}

#[test]
fn constant_case_predicate() {
    holds_only_of(is_constant_case, &["HELLO_WORLD"]);
}

#[test]
fn predicates_hold_of_the_empty_string() {
    assert!(is_lower_case(""));
    assert!(is_upper_case(""));
    assert!(is_sentence_case(""));
    assert!(is_title_case(""));
    assert!(is_camel_case(""));
    assert!(is_pascal_case(""));
    assert!(is_kebab_case(""));
    assert!(is_train_case(""));
    assert!(is_snake_case(""));
    assert!(is_constant_case(""));
}

#[test]
fn predicates_are_strict_about_capitals_inside_words() {
    assert!(!is_train_case("Hello-WOrld"));
    assert!(!is_title_case("Hello wOrld"));
    assert!(!is_kebab_case("hello-worlD"));
    assert!(!is_camel_case("helloWORLD"));
    assert!(!is_camel_case("helloWOrld"));
    assert!(is_camel_case("helloWoRld"));
}

#[test]
fn a_predicate_holds_exactly_of_the_fixed_points() {
    let pairs: [(fn(&str) -> bool, fn(&str) -> String); 10] = [
        (is_lower_case, to_lower_case),
        (is_upper_case, to_upper_case),
        (is_sentence_case, to_sentence_case),
        (is_title_case, to_title_case),
        (is_camel_case, to_camel_case),
        (is_pascal_case, to_pascal_case),
        (is_kebab_case, to_kebab_case),
        (is_train_case, to_train_case),
        (is_snake_case, to_snake_case),
        (is_constant_case, to_constant_case),
    ];
    let inputs = [
        "", "a", "A", "_", "a_b", "a__b", "aB", "AB", "Ab", "ß", "SS", "hello  world", " x",
        "x ", "abc2Def", "İ", "中文",
    ];
    for (is, to) in pairs {
        for s in SPELLINGS.iter().chain(inputs.iter()) {
            assert_eq!(is(s), to(s) == *s, "of {}", s);
        }
    }
}
