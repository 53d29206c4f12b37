use pure_lang_binary::Error;

#[test]
fn every_error_has_its_message() {
    assert_eq!(Error::ShortRead.message(), "unexpected end of data");
    assert_eq!(Error::StringNotFound { index: 3 }.message(), "string position out of range");
    assert_eq!(Error::EnumOutOfBounds("Visibility").message(), "value matches no variant");
    assert_eq!(Error::InvalidFlagBits.message(), "undefined flag bits");
    assert_eq!(Error::MalformedReference.message(), "malformed reference");
    assert_eq!(Error::WrongFileFormat.message(), "wrong file format");
}

#[test]
fn errors_compare_by_kind_and_content() {
    assert_eq!(Error::StringNotFound { index: 1 }, Error::StringNotFound { index: 1 });
    assert_ne!(Error::StringNotFound { index: 1 }, Error::StringNotFound { index: 2 });
    assert_ne!(Error::EnumOutOfBounds("A"), Error::EnumOutOfBounds("B"));
    assert_ne!(Error::ShortRead, Error::WrongFileFormat);
}
