use inflections::Inflect;

#[test]
fn test_str() {
    assert_eq!("foo".to_title_case(), "Foo".to_owned());
}

#[test]
fn test_string() {
    assert_eq!("foo".to_owned().to_title_case(), "Foo".to_owned());
}

#[test]
fn methods_agree_with_functions() {
    let inputs = ["", "hello world", "HELLO_WORLD", "Hello-World", "helloWorld", "a__b", "ß x"];
    for s in inputs {
        assert_eq!(s.to_upper_case(), inflections::case::to_upper_case(s));
        assert_eq!(s.is_upper_case(), inflections::case::is_upper_case(s));
        assert_eq!(s.to_lower_case(), inflections::case::to_lower_case(s));
        assert_eq!(s.is_lower_case(), inflections::case::is_lower_case(s));
        assert_eq!(s.to_sentence_case(), inflections::case::to_sentence_case(s));
        assert_eq!(s.is_sentence_case(), inflections::case::is_sentence_case(s));
        assert_eq!(s.to_title_case(), inflections::case::to_title_case(s));
        assert_eq!(s.is_title_case(), inflections::case::is_title_case(s));
        assert_eq!(s.to_camel_case(), inflections::case::to_camel_case(s));
        assert_eq!(s.is_camel_case(), inflections::case::is_camel_case(s));
        assert_eq!(s.to_pascal_case(), inflections::case::to_pascal_case(s));
        assert_eq!(s.is_pascal_case(), inflections::case::is_pascal_case(s));
        assert_eq!(s.to_kebab_case(), inflections::case::to_kebab_case(s));
        assert_eq!(s.is_kebab_case(), inflections::case::is_kebab_case(s));
        assert_eq!(s.to_train_case(), inflections::case::to_train_case(s));
        assert_eq!(s.is_train_case(), inflections::case::is_train_case(s));
        assert_eq!(s.to_snake_case(), inflections::case::to_snake_case(s));
        assert_eq!(s.is_snake_case(), inflections::case::is_snake_case(s));
        assert_eq!(s.to_constant_case(), inflections::case::to_constant_case(s));
        assert_eq!(s.is_constant_case(), inflections::case::is_constant_case(s));
    }
}

#[test]
fn method_results() {
    assert_eq!("Hello World".to_camel_case(), "helloWorld".to_owned());
    assert_eq!("helloWorld".to_constant_case(), "HELLO_WORLD".to_owned());
    assert!("hello_world".is_snake_case());
    assert!(!"hello_world".is_kebab_case());
}
