use inflections::case::{break_camel, fold_lowercase, fold_uppercase, to_lower_case, to_upper_case};

#[test]
fn ascii_letters_fold_to_their_counterparts() {
    for (lower, upper) in ('a'..='z').zip('A'..='Z') {
        assert_eq!(fold_lowercase(&vec![upper]), vec![lower]);
        assert_eq!(fold_lowercase(&vec![lower]), vec![lower]);
        assert_eq!(fold_uppercase(&vec![lower]), vec![upper]);
        assert_eq!(fold_uppercase(&vec![upper]), vec![upper]);
    }
}

#[test]
fn other_ascii_characters_fold_to_themselves() {
    for code in 0u8..128 {
        let c = code as char;
        if !c.is_ascii_alphabetic() {
            assert_eq!(fold_lowercase(&vec![c]), vec![c], "of {:?}", c);
            assert_eq!(fold_uppercase(&vec![c]), vec![c], "of {:?}", c);
        }
    }
    assert_eq!(to_lower_case("\0"), "\0");
    assert_eq!(to_upper_case("\0"), "\0");
}

#[test]
fn ascii_folding_agrees_with_the_ascii_methods() {
    for code in 0u8..128 {
        let c = code as char;
        assert_eq!(fold_lowercase(&vec![c]), vec![c.to_ascii_lowercase()]);
        assert_eq!(fold_uppercase(&vec![c]), vec![c.to_ascii_uppercase()]);
    }
}

#[test]
fn only_a_to_z_are_lowercase_in_ascii() {
    for code in 0u8..128 {
        let c = code as char;
        let broken = break_camel(vec![c, 'A'], '+').collect();
        if ('a'..='z').contains(&c) {
            assert_eq!(broken, vec![c, '+', 'A']);
        } else {
            assert_eq!(broken, vec![c, 'A'], "of {:?}", c);
        }
    }
}

#[test]
fn only_capital_a_to_z_are_uppercase_in_ascii() {
    for code in 0u8..128 {
        let c = code as char;
        let broken = break_camel(vec!['a', c], '+').collect();
        if ('A'..='Z').contains(&c) {
            assert_eq!(broken, vec!['a', '+', c]);
        } else {
            assert_eq!(broken, vec!['a', c], "of {:?}", c);
        }
    }
}

#[test]
fn case_outside_ascii_is_that_of_the_standard_library() {
    for c in ['é', 'É', 'ß', 'İ', 'ǅ', 'ª', '中', '\u{1d400}', '\u{1d41a}', '\u{ff21}'] {
        let lower: Vec<char> = c.to_lowercase().collect();
        let upper: Vec<char> = c.to_uppercase().collect();
        assert_eq!(fold_lowercase(&vec![c]), lower);
        assert_eq!(fold_uppercase(&vec![c]), upper);
        let after_lower = break_camel(vec![c, 'A'], '+').collect();
        assert_eq!(after_lower.len() == 3, c.is_lowercase(), "of {:?}", c);
        let before_upper = break_camel(vec!['a', c], '+').collect();
        assert_eq!(before_upper.len() == 3, c.is_uppercase(), "of {:?}", c);
    }
}
