use inflections::case::{fold_lowercase, fold_uppercase};

/// Every character, in order of code point.
fn every_character() -> impl Iterator<Item = char> {
    (0u32..=0x10ffff).filter_map(char::from_u32)
}

#[test]
fn lowercasing_twice_is_lowercasing_once_for_every_character() {
    for c in every_character() {
        let once = fold_lowercase(&vec![c]);
        assert_eq!(fold_lowercase(&once), once, "of {:?}", c);
    }
}

#[test]
fn uppercasing_twice_is_uppercasing_once_for_every_character() {
    for c in every_character() {
        let once = fold_uppercase(&vec![c]);
        assert_eq!(fold_uppercase(&once), once, "of {:?}", c);
    }
}

#[test]
fn no_case_mapping_is_empty_or_yields_a_separator() {
    for c in every_character() {
        let lower = fold_lowercase(&vec![c]);
        let upper = fold_uppercase(&vec![c]);
        assert!(!lower.is_empty() && !upper.is_empty(), "of {:?}", c);
        if !matches!(c, ' ' | '-' | '_') {
            assert!(!lower.iter().any(|d| matches!(d, ' ' | '-' | '_')), "of {:?}", c);
            assert!(!upper.iter().any(|d| matches!(d, ' ' | '-' | '_')), "of {:?}", c);
        }
    }
}
