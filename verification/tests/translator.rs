use trng::translator::{Translator, TranslatorErrorType};

#[test]
fn translate_is_empty_test() {
    let translated =
        Translator::translate("").expect("should have translated and returned an empty vector");
    assert_eq!(translated.len(), 0);
}

#[test]
fn translate_is_not_empty_test() {
    let translated = Translator::translate("pfw 10")
        .expect("should have translated and returned a vector with 2 tokens");
    assert_ne!(translated.len(), 0)
}

#[test]
fn translate_refuses_unsupported_token_test() {
    let err = Translator::translate("pfw 1 set Hi").unwrap_err();

    assert!(matches!(err._type, TranslatorErrorType::NotSupported));
    assert_eq!(
        err.description.as_str(),
        "The token 'set' is not supported in translation."
    );
}
