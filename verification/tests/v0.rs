use autobib_entry::data::MutableEntryData;
use autobib_entry::v0::{archive, InvalidBytesError, LegacyEntryData, RecordDataError};
use autobib_entry::EntryData;

/// Check that conversion into the raw form and back results in identical data.
#[test]
fn test_data_round_trip() {
    let mut record_data = MutableEntryData::try_new("article").unwrap();
    record_data.try_insert("year", "2024").unwrap();
    record_data.try_insert("title", "A title").unwrap();
    record_data.try_insert("field", "").unwrap();
    record_data.try_insert(&"a".repeat(255), "🍄").unwrap();
    record_data.try_insert("a", &"b".repeat(65_535)).unwrap();

    let raw_data = LegacyEntryData::from_entry_data(&record_data);

    let mut record_data_clone = MutableEntryData::try_new(raw_data.entry_type().inner()).unwrap();

    for (key, value) in raw_data.fields() {
        record_data_clone.try_insert(key.inner(), value.inner()).unwrap();
    }

    assert_eq!(record_data, record_data_clone);
    assert_eq!(
        raw_data.as_bytes(),
        LegacyEntryData::from_entry_data(&record_data_clone).as_bytes()
    );
}

#[test]
fn test_round_trip() {
    fn check(keys: &[(&'static str, &'static str)]) {
        let mut data = MutableEntryData::default();
        for (k, v) in keys {
            data.try_insert(k, v).unwrap();
        }
        assert_eq!(data.fields().into_iter().count(), keys.len());

        let raw_data = LegacyEntryData::from_entry_data(&data);
        assert_eq!(raw_data.fields().into_iter().count(), keys.len());

        let new_data = MutableEntryData::from_entry_data(&raw_data);
        assert_eq!(new_data.fields().into_iter().count(), keys.len());

        for (k, v) in keys {
            assert_eq!(raw_data.get_field_str(k), Some(*v));
            assert_eq!(data.get_field_str(k), Some(*v));
            assert_eq!(new_data.get_field_str(k), Some(*v));
        }
    }
    check(&[("a", "A"), ("b", "B")]);
    check(&[("a", "A"), ("c", ""), ("b", "C")]);
    check(&[]);
    check(&[("b", "a")]);
}

#[test]
fn test_format_manual() {
    let mut record_data = MutableEntryData::try_new("article").unwrap();
    record_data.try_insert("year", "2023").unwrap();
    record_data.try_insert("title", "The Title").unwrap();

    let data = LegacyEntryData::from_entry_data(&record_data);
    let expected = vec![
        0, 7, b'a', b'r', b't', b'i', b'c', b'l', b'e', 5, 9, 0, b't', b'i', b't', b'l', b'e',
        b'T', b'h', b'e', b' ', b'T', b'i', b't', b'l', b'e', 4, 4, 0, b'y', b'e', b'a', b'r',
        b'2', b'0', b'2', b'3',
    ];

    assert_eq!(expected, data.as_bytes());
}

#[test]
fn test_validate_data_ok() {
    for data in [
        // usual example
        vec![
            0, 7, b'a', b'r', b't', b'i', b'c', b'l', b'e', 5, 9, 0, b't', b'i', b't', b'l', b'e',
            b'T', b'h', b'e', b' ', b'T', b'i', b't', b'l', b'e', 4, 4, 0, b'y', b'e', b'a', b'r',
            b'2', b'0', b'2', b'3',
        ],
        // no keys is OK
        vec![0, 7, b'a', b'r', b't', b'i', b'c', b'l', b'e'],
        // field value can have length 0
        vec![0, 1, b'a', 1, 0, 0, b'b'],
        // usual example
        vec![
            0, 7, b'a', b'r', b't', b'i', b'c', b'l', b'e', 5, 9, 0, b't', b'i', b't', b'l', b'e',
            b'T', b'h', b'e', b' ', b'T', b'i', b't', b'l', b'e', 4, 4, 0, b'y', b'e', b'a', b'r',
            b'2', b'0', b'2', b'3',
        ],
    ] {
        assert!(LegacyEntryData::access(&data).is_ok());
    }
}

#[test]
fn test_validate_data_err() {
    // invalid version
    let malformed_data = vec![
        2, 7, b'a', b'r', b't', b'i', b'c', b'l', b'e', 5, 9, 0, b't', b'i', b't', b'l', b'e', b'T',
        b'h', b'e', b' ', b'T', b'i', b't', b'l', b'e', 4, 4, 0, b'y', b'e', b'a', b'r', b'2', b'0',
        b'2', b'3',
    ];
    let parsed = LegacyEntryData::access(&malformed_data);
    assert!(matches!(
        parsed,
        Err(InvalidBytesError {
            position: 0,
            message: "invalid version"
        })
    ));

    // entry type is not valid utf-8
    let malformed_data = vec![
        0, 7, b'a', b'r', b't', 255, b'c', b'l', b'e', 5, 9, 0, b't', b'i', b't', b'l', b'e', b'T',
        b'h', b'e', b' ', b'T', b'i', b't', b'l', b'e', 4, 4, 0, b'y', b'e', b'a', b'r', b'2', b'0',
        b'2', b'3',
    ];
    let parsed = LegacyEntryData::access(&malformed_data);
    assert!(matches!(parsed, Err(InvalidBytesError { position: 2, .. })));

    // bad length header
    let malformed_data = vec![
        0, 7, b'a', b'r', b't', b'i', b'c', b'l', b'e', 5, 100, 0, b't', b'i', b't', b'l', b'e',
        b'T', b'h', b'e', b' ', b'T', b'i', b't', b'l', b'e', 4, 4, 0, b'y', b'e', b'a', b'r', b'2',
        b'0', b'2', b'3',
    ];
    let parsed = LegacyEntryData::access(&malformed_data);
    assert!(matches!(
        parsed,
        Err(InvalidBytesError {
            position: 17,
            message: "value block shorter than header"
        })
    ));

    // trailing bytes
    let malformed_data = vec![0, 7, b'a', b'r', b't', b'i', b'c', b'l', b'e', 1];
    let parsed = LegacyEntryData::access(&malformed_data);
    assert!(parsed.is_err());

    // entry type cannot have length 0
    let malformed_data = vec![0, 0];
    let parsed = LegacyEntryData::access(&malformed_data);
    assert!(parsed.is_err());

    // field key cannot have length 0
    let malformed_data = vec![0, 1, b'a', 0, 0, 0];
    let parsed = LegacyEntryData::access(&malformed_data);
    assert!(parsed.is_err());
}

#[test]
fn legacy_unsorted_blocks() {
    // entry type `a`, then blocks `z = x` and `b = y`: not sorted by key
    let data = [0, 1, b'a', 1, 1, 0, b'z', b'x', 1, 1, 0, b'b', b'y'];
    assert_eq!(
        LegacyEntryData::validate(&data),
        Err(InvalidBytesError::new(11, "data blocks are not sorted by key"))
    );
    // a repeated key is not sorted either
    let data = [0, 1, b'a', 1, 1, 0, b'b', b'x', 1, 1, 0, b'b', b'y'];
    assert!(LegacyEntryData::validate(&data).is_err());
    // the same blocks, sorted
    let data = [0, 1, b'a', 1, 1, 0, b'b', b'y', 1, 1, 0, b'z', b'x'];
    assert_eq!(LegacyEntryData::validate(&data), Ok(()));
}

#[test]
fn legacy_empty_data() {
    assert_eq!(
        LegacyEntryData::validate(&[]),
        Err(InvalidBytesError::new(0, "data was empty"))
    );
}

#[test]
fn legacy_load_and_iterate() {
    let bytes = vec![0, 1, b'a', 1, 2, 0, b'k', b'v', b'w', 2, 0, 0, b'l', b'm'];
    let data = LegacyEntryData::load(bytes.clone()).unwrap();
    assert_eq!(data.entry_type().inner(), "a");
    assert_eq!(data.count_fields(), 2);
    assert_eq!(data.get_field_str("k"), Some("vw"));
    assert_eq!(data.get_field_str("lm"), Some(""));
    let mut it = data.raw_fields();
    let (k, v) = it.next().unwrap();
    assert_eq!((k.inner(), v.inner()), ("k", "vw"));
    let (k, v) = it.next().unwrap();
    assert_eq!((k.inner(), v.inner()), ("lm", ""));
    assert!(it.next().is_none());
    assert_eq!(data.as_bytes(), bytes.as_slice());
}

#[test]
fn legacy_archive_function() {
    let mut record_data = MutableEntryData::try_new("misc").unwrap();
    record_data.try_insert("note", "x").unwrap();
    let bytes = archive(&record_data);
    assert_eq!(bytes, vec![0, 4, b'm', b'i', b's', b'c', 4, 1, 0, b'n', b'o', b't', b'e', b'x']);
    let loaded = LegacyEntryData::load(bytes).unwrap();
    assert_eq!(loaded.get_field_str("note"), Some("x"));
}

#[test]
fn legacy_record_error_from() {
    let e = RecordDataError::from(InvalidBytesError::new(3, "invalid"));
    assert_eq!(e, RecordDataError::InvalidBytes(InvalidBytesError::new(3, "invalid")));
}
