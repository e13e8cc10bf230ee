use inflections::case::{
    capitalize_words, is_camel_case, is_constant_case, is_kebab_case, is_lower_case,
    is_pascal_case, is_sentence_case, is_snake_case, is_title_case, is_train_case, is_upper_case,
    to_camel_case, to_constant_case, to_kebab_case, to_lower_case, to_pascal_case,
    to_sentence_case, to_snake_case, to_title_case, to_train_case, to_upper_case,
};

/// Every string of up to `max` characters over the alphabet.
fn strings_over(alphabet: &[char], max: usize) -> Vec<String> {
    let mut all = vec![String::new()];
    let mut last = vec![String::new()];
    for _ in 0..max {
        let mut next = Vec::new();
        for s in &last {
            for c in alphabet {
                let mut longer = s.clone();
                longer.push(*c);
                next.push(longer);
            }
        }
        all.extend(next.iter().cloned());
        last = next;
    }
    all
}

fn ascii_strings() -> Vec<String> {
    strings_over(&['a', 'b', 'A', 'B', '_', '-', ' ', '1'], 5)
}

fn is_separator(c: char) -> bool {
    c == ' ' || c == '-' || c == '_'
}

/// Every separator is `sep`, and no letter is uppercase.
fn lower_delimited(s: &str, sep: char) -> bool {
    s.chars().all(|c| (!is_separator(c) || c == sep) && !c.is_ascii_uppercase())
}

/// Every separator is `sep`, and no letter is lowercase.
fn upper_delimited(s: &str, sep: char) -> bool {
    s.chars().all(|c| (!is_separator(c) || c == sep) && !c.is_ascii_lowercase())
}

/// Every separator is `sep`, no word starts with a lowercase letter and no
/// other character is an uppercase letter.
fn capital_delimited(s: &str, sep: char) -> bool {
    let chars: Vec<char> = s.chars().collect();
    (0..chars.len()).all(|i| {
        let c = chars[i];
        if is_separator(c) {
            c == sep
        } else if i == 0 || is_separator(chars[i - 1]) {
            !c.is_ascii_lowercase()
        } else {
            !c.is_ascii_uppercase()
        }
    })
}

/// No separators, and every uppercase letter follows a lowercase letter.
fn camel_shaped(s: &str) -> bool {
    let chars: Vec<char> = s.chars().collect();
    (0..chars.len()).all(|i| {
        !is_separator(chars[i])
            && (!chars[i].is_ascii_uppercase() || (i > 0 && chars[i - 1].is_ascii_lowercase()))
    })
}

/// The first character is no lowercase letter; after it come no separators,
/// and every uppercase letter follows a lowercase letter.
fn pascal_shaped(s: &str) -> bool {
    let chars: Vec<char> = s.chars().collect();
    (0..chars.len()).all(|i| {
        if i == 0 {
            !chars[i].is_ascii_lowercase()
        } else {
            !is_separator(chars[i])
                && (!chars[i].is_ascii_uppercase() || chars[i - 1].is_ascii_lowercase())
        }
    })
}

#[test]
fn predicates_are_the_fixed_points_on_short_strings() {
    for s in strings_over(&['a', 'B', '_', ' ', '1', 'ß', 'É'], 4) {
        assert_eq!(is_lower_case(&s), to_lower_case(&s) == s);
        assert_eq!(is_upper_case(&s), to_upper_case(&s) == s);
        assert_eq!(is_sentence_case(&s), to_sentence_case(&s) == s);
        assert_eq!(is_title_case(&s), to_title_case(&s) == s);
        assert_eq!(is_camel_case(&s), to_camel_case(&s) == s);
        assert_eq!(is_pascal_case(&s), to_pascal_case(&s) == s);
        assert_eq!(is_kebab_case(&s), to_kebab_case(&s) == s);
        assert_eq!(is_train_case(&s), to_train_case(&s) == s);
        assert_eq!(is_snake_case(&s), to_snake_case(&s) == s);
        assert_eq!(is_constant_case(&s), to_constant_case(&s) == s);
    }
}

#[test]
fn predicates_describe_the_shape_of_short_ascii_strings() {
    for s in ascii_strings() {
        assert_eq!(is_lower_case(&s), !s.chars().any(|c| c.is_ascii_uppercase()), "of {:?}", s);
        assert_eq!(is_upper_case(&s), !s.chars().any(|c| c.is_ascii_lowercase()), "of {:?}", s);
        assert_eq!(is_sentence_case(&s), lower_delimited(&s, ' '), "of {:?}", s);
        assert_eq!(is_kebab_case(&s), lower_delimited(&s, '-'), "of {:?}", s);
        assert_eq!(is_snake_case(&s), lower_delimited(&s, '_'), "of {:?}", s);
        assert_eq!(is_constant_case(&s), upper_delimited(&s, '_'), "of {:?}", s);
        assert_eq!(is_title_case(&s), capital_delimited(&s, ' '), "of {:?}", s);
        assert_eq!(is_train_case(&s), capital_delimited(&s, '-'), "of {:?}", s);
        assert_eq!(is_camel_case(&s), camel_shaped(&s), "of {:?}", s);
        assert_eq!(is_pascal_case(&s), pascal_shaped(&s), "of {:?}", s);
    }
}

#[test]
fn converting_short_ascii_strings_twice_is_converting_once() {
    let fns: [fn(&str) -> String; 8] = [
        to_lower_case,
        to_upper_case,
        to_sentence_case,
        to_title_case,
        to_kebab_case,
        to_train_case,
        to_snake_case,
        to_constant_case,
    ];
    for s in ascii_strings() {
        for f in fns {
            let once = f(&s);
            assert_eq!(f(&once), once, "from {:?}", s);
        }
    }
}

#[test]
fn the_camel_scan_is_idempotent_exactly_where_its_result_has_the_shape() {
    for s in ascii_strings() {
        let camel = to_camel_case(&s);
        assert_eq!(to_camel_case(&camel) == camel, camel_shaped(&camel), "from {:?}", s);
        let pascal = to_pascal_case(&s);
        assert_eq!(to_pascal_case(&pascal) == pascal, pascal_shaped(&pascal), "from {:?}", s);
    }
}

#[test]
fn constant_case_is_snake_case_in_uppercase_on_short_ascii_strings() {
    for s in ascii_strings() {
        assert_eq!(to_constant_case(&s), to_upper_case(&to_snake_case(&s)), "from {:?}", s);
        assert_eq!(to_snake_case(&s), to_lower_case(&to_constant_case(&s)), "from {:?}", s);
    }
}

#[test]
fn swapping_separators_does_not_change_the_conversion_of_short_strings() {
    for s in strings_over(&['a', 'B', '_', '-', ' ', 'é'], 4) {
        for sep in [' ', '-', '_'] {
            let swapped: String =
                s.chars().map(|c| if is_separator(c) { sep } else { c }).collect();
            assert_eq!(to_snake_case(&swapped), to_snake_case(&s));
            assert_eq!(to_constant_case(&swapped), to_constant_case(&s));
            assert_eq!(to_kebab_case(&swapped), to_kebab_case(&s));
            assert_eq!(to_train_case(&swapped), to_train_case(&s));
            assert_eq!(to_sentence_case(&swapped), to_sentence_case(&s));
            assert_eq!(to_title_case(&swapped), to_title_case(&s));
        }
    }
}

#[test]
fn conventions_differ_only_in_separator_and_case_on_short_strings() {
    for s in strings_over(&['a', 'B', '_', '-', ' ', 'ß'], 4) {
        let snake = to_snake_case(&s);
        assert_eq!(to_kebab_case(&s), snake.replace('_', "-"));
        assert_eq!(to_sentence_case(&s), snake.replace('_', " "));
        assert_eq!(to_train_case(&s), to_title_case(&s).replace(' ', "-"));
        let sentence: Vec<char> = to_sentence_case(&s).chars().collect();
        let title: String = capitalize_words(sentence).collect().into_iter().collect();
        assert_eq!(to_title_case(&s), title);
        let without: String = s.chars().filter(|c| !is_separator(*c)).collect();
        let kept: String = snake.chars().filter(|c| !is_separator(*c)).collect();
        assert_eq!(kept, to_lower_case(&without));
    }
}
