use autobib_entry::error::{DataError, TokenError};
use autobib_entry::ident::braces_fit;
use autobib_entry::{
    EntryType, EntryTypeRef, FieldKey, FieldKeyRef, FieldValue, FieldValueRef, StandardEntryType,
    StandardFieldKey,
};

#[test]
fn entry_type_validation() {
    assert!(EntryType::validate("article").is_ok());
    assert!(EntryType::validate("my-type_2").is_ok());
    assert_eq!(EntryType::validate(""), Err(DataError::Token(TokenError::Empty)));
    assert_eq!(EntryType::validate("comment"), Err(DataError::EntryTypeReserved));
    assert_eq!(EntryType::validate("preamble"), Err(DataError::EntryTypeReserved));
    assert_eq!(EntryType::validate("string"), Err(DataError::EntryTypeReserved));
    assert_eq!(
        EntryType::validate("Article"),
        Err(DataError::Token(TokenError::InvalidChar('A')))
    );
    assert_eq!(
        EntryType::validate("a{b"),
        Err(DataError::Token(TokenError::InvalidChar('{')))
    );
}

#[test]
fn entry_type_new_lowercases() {
    let t = EntryType::new("ArTiCle".to_owned()).unwrap();
    assert_eq!(t.as_str(), "article");
    assert_eq!(t.as_standard(), Some(StandardEntryType::Article));
    assert!(t.is_standard());
    assert_eq!(EntryType::new("STRING".to_owned()), Err(DataError::EntryTypeReserved));
    let custom = EntryType::new("custom".to_owned()).unwrap();
    assert_eq!(custom.as_standard(), None);
    assert!(!custom.is_standard());
    assert_eq!(custom.by_ref().inner(), "custom");
    assert_eq!(custom.clone(), custom);
}

#[test]
fn non_ascii_identifier_reports_non_ascii() {
    // a non-ASCII byte is reported as such
    assert_eq!(FieldKey::validate("café"), Err(DataError::NonAscii));
    assert_eq!(EntryType::validate("é"), Err(DataError::NonAscii));
    // the first disallowed byte decides
    assert_eq!(
        FieldKey::validate("a=é"),
        Err(DataError::Token(TokenError::InvalidChar('=')))
    );
    assert_eq!(
        FieldKey::validate("tab\tkey"),
        Err(DataError::Token(TokenError::InvalidChar('\t')))
    );
}

#[test]
fn field_key_validation() {
    assert!(FieldKey::validate("author").is_ok());
    assert_eq!(FieldKey::validate(""), Err(DataError::Token(TokenError::Empty)));
    assert!(FieldKey::validate("comment").is_ok());
    let k = FieldKey::new("AUTHOR".to_owned()).unwrap();
    assert_eq!(k.as_str(), "author");
    assert_eq!(k.as_standard(), Some(StandardFieldKey::Author));
    assert!(k.is_standard());
    assert_eq!(k.clone().into_value().as_str(), "author");
    assert_eq!(
        FieldKey::new("a=b".to_owned()),
        Err(DataError::Token(TokenError::InvalidChar('=')))
    );
}

#[test]
fn field_value_validation() {
    assert!(FieldValue::validate("").is_ok());
    assert!(FieldValue::validate("A {nested {value}}").is_ok());
    assert_eq!(
        FieldValue::validate("}{"),
        Err(DataError::Token(TokenError::ExtraClosingBracket))
    );
    assert_eq!(
        FieldValue::validate("{{}"),
        Err(DataError::Token(TokenError::ExtraOpeningBracket))
    );
    let v = FieldValue::new("x {y}".to_owned()).unwrap();
    assert_eq!(v.as_str(), "x {y}");
    assert_eq!(v.by_ref().inner(), "x {y}");
    assert!(FieldValue::new("{".to_owned()).is_err());
}

#[test]
fn field_value_any_text_with_balanced_braces() {
    for ok in ["", "\u{1f344}", "A {B} c", "{{}}"] {
        assert!(braces_fit(ok));
        let v = FieldValue::new(ok.to_owned()).unwrap();
        assert_eq!(v.as_str(), ok);
    }
    assert_eq!(
        FieldValue::new("{".to_owned()).err(),
        Some(DataError::Token(TokenError::ExtraOpeningBracket))
    );
    assert_eq!(
        FieldValue::new("a}".to_owned()).err(),
        Some(DataError::Token(TokenError::ExtraClosingBracket))
    );
    // a `}` with nothing open ends the count
    assert!(braces_fit("}{{"));
}

#[test]
fn borrowed_identifiers() {
    let t = EntryTypeRef::new("book").unwrap();
    assert_eq!(t.inner(), "book");
    assert_eq!(t.as_standard(), Some(StandardEntryType::Book));
    assert!(t.is_standard());
    assert_eq!(t.to_owned_type().as_str(), "book");
    // borrowed constructors do not change case
    assert!(EntryTypeRef::new("Book").is_err());
    assert_eq!(EntryTypeRef::new("preamble"), Err(DataError::EntryTypeReserved));

    let k = FieldKeyRef::new("eprint").unwrap();
    assert_eq!(k.as_standard(), Some(StandardFieldKey::EPrint));
    assert_eq!(k.as_value().inner(), "eprint");
    assert_eq!(k.to_owned_key().as_str(), "eprint");
    assert!(FieldKeyRef::new("e print").is_err());

    let v = FieldValueRef::new("{a}").unwrap();
    assert_eq!(v.to_owned_value().as_str(), "{a}");
    assert!(FieldValueRef::new("{a").is_err());

    assert_eq!(EntryTypeRef::standard(StandardEntryType::Misc).inner(), "misc");
    assert_eq!(FieldKeyRef::standard(StandardFieldKey::Title).inner(), "title");
    assert!(FieldKeyRef::standard(StandardFieldKey::Title).is_standard());
    assert!(!FieldKeyRef::new("custom").unwrap().is_standard());
}

#[test]
fn lowercasing_twice_is_lowercasing_once() {
    let once = EntryType::new("MiXeD".to_owned()).unwrap();
    let twice = EntryType::new(once.as_str().to_owned()).unwrap();
    assert_eq!(once, twice);
    let key = FieldKey::new("TiTle".to_owned()).unwrap();
    assert_eq!(FieldKey::new(key.as_str().to_owned()).unwrap(), key);
}

#[test]
fn deserialized_identifiers() {
    let t = EntryType::from_deserialized("Article".to_owned()).unwrap();
    assert_eq!(t.as_str(), "article");
    assert!(EntryType::from_deserialized("\u{e9}".to_owned()).is_none());
    let k = FieldKey::from_deserialized("TITLE".to_owned()).unwrap();
    assert_eq!(k.as_str(), "title");
    assert!(FieldKey::from_deserialized("t\u{ed}tle".to_owned()).is_none());
    assert_eq!(FieldValue::from_deserialized("Any {text}".to_owned()).as_str(), "Any {text}");
}
