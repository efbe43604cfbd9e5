use autobib_entry::data::mutable::SetFieldError;
use autobib_entry::data::{ConflictResolved, EntryEditCommand, MutableEntryData, SetFieldCommand};
use autobib_entry::error::{DataError, TokenError};
use autobib_entry::{
    EntryData, EntryType, FieldKey, FieldValue, StandardEntryType, StandardFieldKey,
};

fn key(s: &str) -> FieldKey {
    FieldKey::new(s.to_owned()).unwrap()
}

fn value(s: &str) -> FieldValue {
    FieldValue::new(s.to_owned()).unwrap()
}

fn fields_of(data: &MutableEntryData) -> Vec<(String, String)> {
    data.fields()
        .into_iter()
        .map(|(k, v)| (k.inner().to_owned(), v.inner().to_owned()))
        .collect()
}

#[test]
fn insert_get_remove() {
    let mut data = MutableEntryData::new(EntryType::new("article".to_owned()).unwrap());
    assert_eq!(data.insert(key("title"), value("T")), None);
    assert_eq!(data.insert(key("author"), value("A")), None);
    let old = data.insert(key("title"), value("U")).unwrap();
    assert_eq!(old.as_str(), "T");
    assert_eq!(data.get_str("title"), Some("U"));
    assert_eq!(data.get("author").map(|v| v.inner()), Some("A"));
    assert_eq!(data.get_str("year"), None);
    assert_eq!(data.count_fields(), 2);
    assert!(data.contains_field("author"));
    assert!(!data.contains_field("year"));
    // sorted by key
    assert_eq!(
        fields_of(&data),
        vec![("author".to_owned(), "A".to_owned()), ("title".to_owned(), "U".to_owned())]
    );
    assert_eq!(data.remove("author").unwrap().as_str(), "A");
    assert!(data.remove("author").is_none());
    assert_eq!(data.count_fields(), 1);
}

#[test]
fn constructors() {
    let data = MutableEntryData::new_standard(StandardEntryType::Book);
    assert_eq!(data.entry_type().inner(), "book");
    assert_eq!(data.count_fields(), 0);

    let data = MutableEntryData::try_new("ArTicle").unwrap();
    assert_eq!(data.entry_type().inner(), "article");

    assert_eq!(MutableEntryData::try_new("Comment").unwrap_err(), DataError::EntryTypeReserved);
    assert_eq!(
        MutableEntryData::try_new("").unwrap_err(),
        DataError::Token(TokenError::Empty)
    );
    assert_eq!(
        MutableEntryData::try_new("a b").unwrap_err(),
        DataError::Token(TokenError::InvalidChar(' '))
    );
    assert_eq!(MutableEntryData::default().entry_type().inner(), "misc");
}

#[test]
fn insert_variants() {
    let mut data = MutableEntryData::default();
    assert!(data.insert_standard(StandardFieldKey::Author, value("A")).is_none());
    assert_eq!(data.get_str("author"), Some("A"));
    assert!(data.insert_standard_key(StandardFieldKey::Year, "2024").unwrap().is_none());
    assert_eq!(
        data.insert_standard_key(StandardFieldKey::Title, "{").unwrap_err(),
        DataError::Token(TokenError::ExtraOpeningBracket)
    );
    assert_eq!(data.try_insert("Journal", "J").unwrap(), None);
    assert_eq!(data.get_str("journal"), Some("J"));
    assert_eq!(
        data.try_insert("bad key", "x").unwrap_err(),
        DataError::Token(TokenError::InvalidChar(' '))
    );
    assert_eq!(
        data.try_insert("note", "}{").unwrap_err(),
        DataError::Token(TokenError::ExtraClosingBracket)
    );
    assert_eq!(data.count_fields(), 3);
}

#[test]
fn update_and_set_field() {
    let mut data = MutableEntryData::try_new("article").unwrap();
    assert!(!data.update_entry_type(&EntryType::new("article".to_owned()).unwrap()));
    assert!(data.update_entry_type(&EntryType::new("book".to_owned()).unwrap()));
    assert_eq!(data.entry_type().inner(), "book");

    let cmd = SetFieldCommand { field_key: key("year"), field_value: value("2020") };
    assert!(data.set_field(&cmd));
    assert!(!data.set_field(&cmd));
    let cmd = SetFieldCommand { field_key: key("year"), field_value: value("2021") };
    assert!(data.set_field(&cmd));
    assert_eq!(data.get_str("year"), Some("2021"));
}

#[test]
fn edit_commands() {
    let mut data = MutableEntryData::try_new("article").unwrap();
    data.try_insert("title", "T").unwrap();
    data.try_insert("year", "2020").unwrap();

    let identity = EntryEditCommand::default();
    assert!(identity.is_identity());
    assert!(!data.edit(&identity));

    let cmd = EntryEditCommand {
        update_entry_type: Some(EntryType::new("book".to_owned()).unwrap()),
        delete_field: vec![key("year"), key("missing")],
        set_field: vec![SetFieldCommand { field_key: key("note"), field_value: value("N") }],
    };
    assert!(!cmd.is_identity());
    assert!(data.edit(&cmd));
    assert_eq!(data.entry_type().inner(), "book");
    assert_eq!(data.get_str("year"), None);
    assert_eq!(data.get_str("note"), Some("N"));
    assert_eq!(data.get_str("title"), Some("T"));
    // applying the same edit again changes nothing
    assert!(!data.edit(&cmd));

    // deleting a missing key only is no change
    let cmd = EntryEditCommand {
        update_entry_type: None,
        delete_field: vec![key("missing")],
        set_field: vec![],
    };
    assert!(!data.edit(&cmd));
}

#[test]
fn merge_variants() {
    let mut base = MutableEntryData::try_new("article").unwrap();
    base.try_insert("title", "T").unwrap();
    base.try_insert("year", "2020").unwrap();

    let mut other = MutableEntryData::try_new("book").unwrap();
    other.try_insert("year", "2021").unwrap();
    other.try_insert("note", "N").unwrap();

    let mut skip = MutableEntryData::from_entry_data(&base);
    skip.merge_or_skip(&other);
    assert_eq!(skip.entry_type().inner(), "article");
    assert_eq!(skip.get_str("year"), Some("2020"));
    assert_eq!(skip.get_str("note"), Some("N"));
    assert_eq!(skip.get_str("title"), Some("T"));

    let mut over = MutableEntryData::from_entry_data(&base);
    over.merge_or_overwrite(&other);
    assert_eq!(over.entry_type().inner(), "article");
    assert_eq!(over.get_str("year"), Some("2021"));
    assert_eq!(over.get_str("note"), Some("N"));
    assert_eq!(over.get_str("title"), Some("T"));

    let mut updated = MutableEntryData::from_entry_data(&base);
    updated.update_from(&other);
    assert_eq!(updated.entry_type().inner(), "book");
    assert_eq!(fields_of(&updated), fields_of(&over));

    let mut custom = MutableEntryData::from_entry_data(&base);
    custom.merge_with_callback(
        &other,
        |_, _| ConflictResolved::New(EntryType::new("misc".to_owned()).unwrap()),
        |_, current, incoming| {
            let joined = format!("{}-{}", current.inner(), incoming.inner());
            ConflictResolved::New(FieldValue::new(joined).unwrap())
        },
    );
    assert_eq!(custom.entry_type().inner(), "misc");
    assert_eq!(custom.get_str("year"), Some("2020-2021"));
    assert_eq!(custom.get_str("note"), Some("N"));
    assert_eq!(custom.get_str("title"), Some("T"));
}

#[test]
fn resolve_conflicts() {
    let mut data = MutableEntryData::try_new("article").unwrap();
    data.try_insert("year", "2020").unwrap();
    let other = MutableEntryData::try_new("book").unwrap();
    data.resolve_entry_type(other.entry_type(), ConflictResolved::Current);
    assert_eq!(data.entry_type().inner(), "article");
    data.resolve_entry_type(other.entry_type(), ConflictResolved::Incoming);
    assert_eq!(data.entry_type().inner(), "book");

    let k = key("year");
    let incoming = value("2021");
    data.resolve_field(k.by_ref(), incoming.by_ref(), ConflictResolved::Current);
    assert_eq!(data.get_str("year"), Some("2020"));
    data.resolve_field(k.by_ref(), incoming.by_ref(), ConflictResolved::Incoming);
    assert_eq!(data.get_str("year"), Some("2021"));
    data.resolve_field(k.by_ref(), incoming.by_ref(), ConflictResolved::New(value("1999")));
    assert_eq!(data.get_str("year"), Some("1999"));
}

#[test]
fn set_eprint_records_first_key() {
    let mut data = MutableEntryData::try_new("article").unwrap();
    data.try_insert("doi", "10.1/x").unwrap();
    data.try_insert("arxiv", "1234.5678").unwrap();
    assert!(data.set_eprint(&["zbmath", "arxiv", "doi"]));
    assert_eq!(data.get_str("eprint"), Some("1234.5678"));
    assert_eq!(data.get_str("eprinttype"), Some("arxiv"));
    // idempotent
    assert!(!data.set_eprint(&["zbmath", "arxiv", "doi"]));
    // a different first key
    assert!(data.set_eprint(&["doi", "arxiv"]));
    assert_eq!(data.get_str("eprint"), Some("10.1/x"));
    assert_eq!(data.get_str("eprinttype"), Some("doi"));
    // no key present
    assert!(!data.set_eprint(&["isbn"]));
    assert!(!data.set_eprint(&[]));
}

#[test]
fn strip_journal_series() {
    let mut data = MutableEntryData::try_new("article").unwrap();
    assert!(!data.strip_journal_series());

    data.try_insert("journal", "Annals of Mathematics  (2)").unwrap();
    assert!(data.strip_journal_series());
    assert_eq!(data.get_str("journal"), Some("Annals of Mathematics"));
    assert!(!data.strip_journal_series());

    data.try_insert("journal", "Journal (0)").unwrap();
    assert!(!data.strip_journal_series());
    data.try_insert("journal", "Journal (12) x").unwrap();
    assert!(!data.strip_journal_series());
    data.try_insert("journal", "Über (10)").unwrap();
    assert!(data.strip_journal_series());
    assert_eq!(data.get_str("journal"), Some("Über"));
}

#[test]
fn strip_journal_series_at() {
    let mut data = MutableEntryData::try_new("article").unwrap();
    assert!(!data.strip_journal_series_at(Some(0)));
    data.try_insert("journal", "abcdef").unwrap();
    assert!(!data.strip_journal_series_at(None));
    assert!(data.strip_journal_series_at(Some(3)));
    assert_eq!(data.get_str("journal"), Some("abc"));
}

#[test]
fn validate_untrusted() {
    let mut data = MutableEntryData::try_new("article").unwrap();
    data.try_insert("title", "T").unwrap();
    assert!(data.validate_untrusted().is_ok());
    let cmd = SetFieldCommand {
        field_key: key("year"),
        field_value: value("2020"),
    };
    assert!(data.set_field(&cmd));
    assert!(data.validate_untrusted().is_ok());
}

#[test]
fn equality_and_clone_of_commands() {
    let cmd = SetFieldCommand { field_key: key("a"), field_value: value("b") };
    let copy = cmd.clone();
    assert_eq!(copy.field_key, cmd.field_key);
    assert_eq!(copy.field_value, cmd.field_value);
    let a = MutableEntryData::try_new("article").unwrap();
    let b = MutableEntryData::try_new("book").unwrap();
    assert_ne!(a, b);
}

#[test]
fn set_field_command_parse() {
    let c = SetFieldCommand::parse("Title = {A {nested} title}").unwrap();
    assert_eq!(c.field_key.as_str(), "title");
    assert_eq!(c.field_value.as_str(), "A {nested} title");
    let c = SetFieldCommand::parse("  year=2024").unwrap();
    assert_eq!(c.field_key.as_str(), "year");
    assert_eq!(c.field_value.as_str(), "2024");
    let c = SetFieldCommand::parse("note = \"quoted\"").unwrap();
    assert_eq!(c.field_value.as_str(), "quoted");
    assert!(matches!(SetFieldCommand::parse("title {x}"), Err(SetFieldError::Syntax(_))));
    assert!(matches!(SetFieldCommand::parse("title = var"), Err(SetFieldError::Syntax(_))));
    assert!(matches!(SetFieldCommand::parse(""), Err(SetFieldError::Syntax(_))));
    assert!(matches!(
        SetFieldCommand::parse("\u{e9} = {x}"),
        Err(SetFieldError::Data(DataError::NonAscii))
    ));
}

#[test]
fn set_field_command_from_parts() {
    let c = SetFieldCommand::from_parts("DOI", "10.1/x").unwrap();
    assert_eq!(c.field_key.as_str(), "doi");
    assert_eq!(c.field_value.as_str(), "10.1/x");
    assert_eq!(
        SetFieldCommand::from_parts("doi", "{").unwrap_err(),
        DataError::Token(TokenError::ExtraOpeningBracket)
    );
    assert_eq!(
        SetFieldCommand::from_parts("", "x").unwrap_err(),
        DataError::Token(TokenError::Empty)
    );
}

#[test]
fn merge_laws_on_values() {
    // merge_or_skip keeps present keys and adds the others
    let mut a = MutableEntryData::try_new("article").unwrap();
    a.try_insert("a", "1").unwrap();
    a.try_insert("b", "2").unwrap();
    let mut b = MutableEntryData::try_new("article").unwrap();
    b.try_insert("b", "3").unwrap();
    b.try_insert("c", "4").unwrap();
    let mut skip = MutableEntryData::from_entry_data(&a);
    skip.merge_or_skip(&b);
    assert_eq!(fields_of(&skip), vec![
        ("a".to_owned(), "1".to_owned()),
        ("b".to_owned(), "2".to_owned()),
        ("c".to_owned(), "4".to_owned()),
    ]);
    // merge_or_overwrite lets the incoming values win
    let mut over = MutableEntryData::from_entry_data(&a);
    over.merge_or_overwrite(&b);
    assert_eq!(fields_of(&over), vec![
        ("a".to_owned(), "1".to_owned()),
        ("b".to_owned(), "3".to_owned()),
        ("c".to_owned(), "4".to_owned()),
    ]);
}

#[test]
fn from_entry_data_is_canonical() {
    let mut a = MutableEntryData::try_new("article").unwrap();
    a.try_insert("z", "1").unwrap();
    a.try_insert("m", "2").unwrap();
    let mut b = MutableEntryData::try_new("article").unwrap();
    b.try_insert("m", "2").unwrap();
    b.try_insert("z", "1").unwrap();
    assert_eq!(a, b);
    assert_eq!(MutableEntryData::from_entry_data(&a), b);
}

#[test]
fn merge_repeated_keys_in_order() {
    // raw data with entry type `a` and the fields `k = 1`, then `k = 2`
    let mut bytes = vec![1, 0, 0, 0, 2, 0, 0, 0];
    for (idx, len) in [(41u32, 1u32), (42, 1), (43, 1), (44, 1)] {
        bytes.extend_from_slice(&idx.to_le_bytes());
        bytes.extend_from_slice(&len.to_le_bytes());
    }
    bytes.extend_from_slice(b"ak1k2");
    let other = autobib_entry::raw::RawEntryData::access(&bytes).unwrap();

    let mut data = MutableEntryData::try_new("a").unwrap();
    data.try_insert("k", "0").unwrap();
    data.merge_with_callback(
        &other,
        |_, _| ConflictResolved::Current,
        |_, current, incoming| {
            let joined = format!("{}-{}", current.inner(), incoming.inner());
            ConflictResolved::New(FieldValue::new(joined).unwrap())
        },
    );
    assert_eq!(data.get_str("k"), Some("0-1-2"));
}
