use inflections::case::{
    to_camel_case, to_constant_case, to_kebab_case, to_lower_case, to_pascal_case,
    to_sentence_case, to_snake_case, to_title_case, to_train_case, to_upper_case,
};

#[derive(Clone, Copy, PartialEq)]
enum Casing {
    Lower,
    Upper,
    Capitalized,
}

/// How words are written: what stands between them, the casing of the first
/// word and the casing of the others.
type Spelling = (Option<char>, Casing, Casing);

fn cased(word: &str, casing: Casing) -> String {
    match casing {
        Casing::Lower => word.to_owned(),
        Casing::Upper => word.to_ascii_uppercase(),
        Casing::Capitalized => {
            let mut out = word[..1].to_ascii_uppercase();
            out.push_str(&word[1..]);
            out
        }
    }
}

fn spelled(words: &[&str], spelling: Spelling) -> String {
    let mut out = String::new();
    for (k, word) in words.iter().enumerate() {
        if k > 0 {
            if let Some(sep) = spelling.0 {
                out.push(sep);
            }
        }
        out.push_str(&cased(word, if k == 0 { spelling.1 } else { spelling.2 }));
    }
    out
}

const SENTENCE: Spelling = (Some(' '), Casing::Lower, Casing::Lower);
const TITLE: Spelling = (Some(' '), Casing::Capitalized, Casing::Capitalized);
const CAMEL: Spelling = (None, Casing::Lower, Casing::Capitalized);
const PASCAL: Spelling = (None, Casing::Capitalized, Casing::Capitalized);
const KEBAB: Spelling = (Some('-'), Casing::Lower, Casing::Lower);
const TRAIN: Spelling = (Some('-'), Casing::Capitalized, Casing::Capitalized);
const SNAKE: Spelling = (Some('_'), Casing::Lower, Casing::Lower);
const CONSTANT: Spelling = (Some('_'), Casing::Upper, Casing::Upper);

/// Every spelling with a separator, and the two without.
fn spellings() -> Vec<Spelling> {
    let casings = [Casing::Lower, Casing::Upper, Casing::Capitalized];
    let mut all = vec![CAMEL, PASCAL];
    for sep in [' ', '-', '_'] {
        for first in casings {
            for rest in casings {
                all.push((Some(sep), first, rest));
            }
        }
    }
    all
}

fn converts_to_the_spelling_of_each_convention(words: &[&str], from: Spelling) {
    let s = spelled(words, from);
    assert_eq!(to_sentence_case(&s), spelled(words, SENTENCE), "from {}", s);
    assert_eq!(to_title_case(&s), spelled(words, TITLE), "from {}", s);
    assert_eq!(to_camel_case(&s), spelled(words, CAMEL), "from {}", s);
    assert_eq!(to_pascal_case(&s), spelled(words, PASCAL), "from {}", s);
    assert_eq!(to_kebab_case(&s), spelled(words, KEBAB), "from {}", s);
    assert_eq!(to_train_case(&s), spelled(words, TRAIN), "from {}", s);
    assert_eq!(to_snake_case(&s), spelled(words, SNAKE), "from {}", s);
    assert_eq!(to_constant_case(&s), spelled(words, CONSTANT), "from {}", s);
}

#[test]
fn spelling_helper_writes_words_as_expected() {
    let words = ["hello", "big", "world"];
    assert_eq!(spelled(&words, SENTENCE), "hello big world");
    assert_eq!(spelled(&words, TITLE), "Hello Big World");
    assert_eq!(spelled(&words, CAMEL), "helloBigWorld");
    assert_eq!(spelled(&words, PASCAL), "HelloBigWorld");
    assert_eq!(spelled(&words, KEBAB), "hello-big-world");
    assert_eq!(spelled(&words, TRAIN), "Hello-Big-World");
    assert_eq!(spelled(&words, SNAKE), "hello_big_world");
    assert_eq!(spelled(&words, CONSTANT), "HELLO_BIG_WORLD");
    assert_eq!(spelled(&[], CONSTANT), "");
}

#[test]
fn words_convert_alike_from_every_spelling() {
    let lists: [&[&str]; 5] =
        [&[], &["hello"], &["hello", "world"], &["ab", "cd", "ef", "gh"], &["one", "to", "three"]];
    for words in lists {
        for from in spellings() {
            converts_to_the_spelling_of_each_convention(words, from);
        }
    }
}

#[test]
fn single_letters_convert_alike_from_spellings_with_separators() {
    let lists: [&[&str]; 3] = [&["a"], &["a", "b"], &["x", "yz", "w"]];
    for words in lists {
        for from in spellings() {
            if from.0.is_some() {
                converts_to_the_spelling_of_each_convention(words, from);
            }
        }
    }
}

#[test]
fn a_single_letter_may_start_or_end_words_run_together() {
    converts_to_the_spelling_of_each_convention(&["a", "bc", "d"], CAMEL);
    converts_to_the_spelling_of_each_convention(&["ab", "c"], PASCAL);
    converts_to_the_spelling_of_each_convention(&["a"], PASCAL);
}

#[test]
fn single_letters_run_together_are_not_kept_apart() {
    assert_eq!(spelled(&["a", "b"], PASCAL), "AB");
    assert_eq!(to_snake_case("AB"), "ab");
    assert_eq!(spelled(&["a", "b", "c"], CAMEL), "aBC");
    assert_eq!(to_snake_case("aBC"), "a_bc");
}

#[test]
fn folding_case_keeps_the_separator_of_the_spelling() {
    let words = ["hello", "world"];
    for from in spellings() {
        let s = spelled(&words, from);
        assert_eq!(to_lower_case(&s), spelled(&words, (from.0, Casing::Lower, Casing::Lower)));
        assert_eq!(to_upper_case(&s), spelled(&words, (from.0, Casing::Upper, Casing::Upper)));
    }
    assert_ne!(to_lower_case("hello world"), to_lower_case("hello_world"));
    assert_ne!(to_upper_case("hello-world"), to_upper_case("helloWorld"));
}

#[test]
fn converting_words_twice_is_converting_once() {
    let fns: [fn(&str) -> String; 8] = [
        to_sentence_case,
        to_title_case,
        to_camel_case,
        to_pascal_case,
        to_kebab_case,
        to_train_case,
        to_snake_case,
        to_constant_case,
    ];
    let words = ["ab", "cd", "ef"];
    for from in spellings() {
        let s = spelled(&words, from);
        for f in fns {
            let once = f(&s);
            assert_eq!(f(&once), once, "from {}", s);
        }
    }
}
