use autobib_entry::data::{archive, ArchivedEntryData, MutableEntryData};
use autobib_entry::error::AccessError;
use autobib_entry::EntryData;

#[test]
fn archive_basic() {
    let mut data = MutableEntryData::default();
    let fields = [
        ("author", "Alex Rutar"),
        ("journal", "Journal of Great Papers"),
        ("month", "Dec"),
        ("title", "A wonderful title"),
        ("year", "2036"),
    ];

    for (k, v) in fields {
        data.try_insert(k, v).unwrap();
    }

    let archived = ArchivedEntryData::from_entry_data(&data);
    assert_eq!(archived.count_fields(), fields.len());
    for (k, v) in fields {
        assert_eq!(archived.get_field_str(k), Some(v));
    }
    for ((k, v), (ser_k, ser_v)) in fields.iter().zip(archived.fields()) {
        assert_eq!(k, &ser_k.inner());
        assert_eq!(v, &ser_v.inner());
    }
}

#[test]
fn round_trip() {
    let mut record_data = MutableEntryData::try_new("article").unwrap();
    let long_key = "a".repeat(255);
    let long_value = "b".repeat(65_535);
    let fields = [
        ("year", "2024"),
        ("title", "A title"),
        ("field", ""),
        ("weird", "🍄"),
        (long_key.as_str(), long_value.as_str()),
    ];

    for (k, v) in fields {
        record_data.try_insert(k, v).unwrap();
    }

    let raw_data = ArchivedEntryData::from_entry_data(&record_data);

    let mut record_data_clone = MutableEntryData::try_new(raw_data.entry_type().inner()).unwrap();

    for (key, value) in raw_data.fields() {
        record_data_clone.try_insert(key.inner(), value.inner()).unwrap();
    }

    assert_eq!(record_data, record_data_clone);
    assert_eq!(
        raw_data.as_bytes(),
        ArchivedEntryData::from_entry_data(&record_data_clone).as_bytes()
    );
}

#[test]
fn archive_format_consistency() {
    let mut data = MutableEntryData::default();
    let fields = [
        ("author", "Alex Rutar"),
        ("journal", "Journal of Great Papers"),
        ("title", "A wonderful title"),
        ("year", "2036"),
    ];

    for (k, v) in fields {
        data.try_insert(k, v).unwrap();
    }

    let archived = ArchivedEntryData::from_entry_data(&data);
    assert!(ArchivedEntryData::validate(archived.as_bytes()).is_ok());
    assert_eq!(
        archived.as_bytes(),
        [
            1, 0, 0, 0, // meta
            4, 0, 0, 0, // 4 fields
            80, 0, 0, 0, 4, 0, 0, 0, // entry type
            84, 0, 0, 0, 6, 0, 0, 0, 90, 0, 0, 0, 10, 0, 0, 0, // field 1
            100, 0, 0, 0, 7, 0, 0, 0, 107, 0, 0, 0, 23, 0, 0, 0, // field 2
            130, 0, 0, 0, 5, 0, 0, 0, 135, 0, 0, 0, 17, 0, 0, 0, // field 3
            152, 0, 0, 0, 4, 0, 0, 0, 156, 0, 0, 0, 4, 0, 0, 0, // field 4
            b'm', b'i', b's', b'c', // entry type
            b'a', b'u', b't', b'h', b'o', b'r', // key 1
            b'A', b'l', b'e', b'x', b' ', b'R', b'u', b't', b'a', b'r', // val 1
            b'j', b'o', b'u', b'r', b'n', b'a', b'l', // key 2
            b'J', b'o', b'u', b'r', b'n', b'a', b'l', b' ', b'o', b'f', b' ', b'G', b'r', b'e',
            b'a', b't', b' ', b'P', b'a', b'p', b'e', b'r', b's', // val 2
            b't', b'i', b't', b'l', b'e', // key 3
            b'A', b' ', b'w', b'o', b'n', b'd', b'e', b'r', b'f', b'u', b'l', b' ', b't', b'i',
            b't', b'l', b'e', // val 3
            b'y', b'e', b'a', b'r', // key 4
            b'2', b'0', b'3', b'6' // val 4
        ]
    );

    let data = MutableEntryData::try_new("article").unwrap();

    let archived = ArchivedEntryData::from_entry_data(&data);
    assert!(ArchivedEntryData::validate(archived.as_bytes()).is_ok());
    assert_eq!(
        archived.as_bytes(),
        [
            1, 0, 0, 0, // meta
            0, 0, 0, 0, // 0 fields
            16, 0, 0, 0, 7, 0, 0, 0, // entry type
            b'a', b'r', b't', b'i', b'c', b'l', b'e'
        ]
    );
}

/// The archive of an entry with one field `a = {b}` and entry type `t`.
fn small_archive() -> Vec<u8> {
    vec![
        1, 0, 0, 0, // meta
        1, 0, 0, 0, // 1 field
        32, 0, 0, 0, 1, 0, 0, 0, // entry type
        33, 0, 0, 0, 1, 0, 0, 0, 34, 0, 0, 0, 1, 0, 0, 0, // field
        b't', b'a', b'b',
    ]
}

#[test]
fn archive_validate_errors() {
    assert!(ArchivedEntryData::validate(&small_archive()).is_ok());

    // too short for the header
    assert_eq!(ArchivedEntryData::validate(&[1, 0, 0]), Err(AccessError::InvalidHeader));

    // wrong format marker
    let mut bytes = small_archive();
    bytes[0] = 0;
    assert_eq!(ArchivedEntryData::validate(&bytes), Err(AccessError::InvalidHeader));

    // the field metadata does not fit
    let mut bytes = small_archive();
    bytes[4] = 3;
    assert_eq!(ArchivedEntryData::validate(&bytes), Err(AccessError::IncompleteFields));

    // the data is not Utf-8
    let mut bytes = small_archive();
    bytes[33] = 0xff;
    assert!(matches!(
        ArchivedEntryData::validate(&bytes),
        Err(AccessError::InvalidUtf8(_))
    ));

    // the gap before the key holds a byte that is not null
    let mut bytes = small_archive();
    bytes[16] = 34;
    assert_eq!(ArchivedEntryData::validate(&bytes), Err(AccessError::InvalidIndex(0)));

    // the gap before the value holds a byte that is not null
    let mut bytes = small_archive();
    bytes[24] = 35;
    assert_eq!(ArchivedEntryData::validate(&bytes), Err(AccessError::InvalidIndex(0)));

    // the value starts past the end of the buffer
    let mut bytes = small_archive();
    bytes[20] = 3;
    bytes[24] = 36;
    assert_eq!(ArchivedEntryData::validate(&bytes), Err(AccessError::InvalidStrOffset(0)));

    // the last value ends past the end of the buffer
    let mut bytes = small_archive();
    bytes[28] = 5;
    assert_eq!(ArchivedEntryData::validate(&bytes), Err(AccessError::TrailingBytes(39)));

    // the entry type runs into the key
    let mut bytes = small_archive();
    bytes[12] = 5;
    assert_eq!(ArchivedEntryData::validate(&bytes), Err(AccessError::InvalidIndex(0)));

    // trailing bytes after the last value
    let mut bytes = small_archive();
    bytes.push(b'c');
    assert_eq!(ArchivedEntryData::validate(&bytes), Err(AccessError::TrailingBytes(35)));
}

#[test]
fn archive_validate_meta_first_byte_only() {
    let mut bytes = vec![1, 5, 0, 0, 0, 0, 0, 0, 16, 0, 0, 0, 7, 0, 0, 0];
    bytes.extend_from_slice(b"article");
    assert_eq!(ArchivedEntryData::validate(&bytes), Ok(()));
    let mut bytes = small_archive();
    bytes[3] = 9;
    assert_eq!(ArchivedEntryData::validate(&bytes), Ok(()));
}

#[test]
fn archive_validate_entry_type_pointer() {
    // the entry type points outside the buffer
    let bytes = vec![1, 0, 0, 0, 0, 0, 0, 0, 232, 3, 0, 0, 1, 0, 0, 0, b'a'];
    assert_eq!(ArchivedEntryData::validate(&bytes), Err(AccessError::InvalidEntryType));

    // the entry type points into the header
    let bytes = vec![1, 0, 0, 0, 0, 0, 0, 0, 0, 0, 0, 0, 1, 0, 0, 0, b'a'];
    assert_eq!(ArchivedEntryData::validate(&bytes), Err(AccessError::InvalidEntryType));

    // the entry type starts inside a char
    let bytes = vec![1, 0, 0, 0, 0, 0, 0, 0, 17, 0, 0, 0, 1, 0, 0, 0, 0xc3, 0xa9];
    assert_eq!(ArchivedEntryData::validate(&bytes), Err(AccessError::InvalidEntryType));

    // the entry type ends inside a char: the data after it is not null padding
    let bytes = vec![1, 0, 0, 0, 0, 0, 0, 0, 16, 0, 0, 0, 1, 0, 0, 0, 0xc3, 0xa9];
    assert_eq!(ArchivedEntryData::validate(&bytes), Err(AccessError::TrailingBytes(17)));

    // the entry type need not start the data block when null bytes come before it
    let bytes = vec![1, 0, 0, 0, 0, 0, 0, 0, 18, 0, 0, 0, 1, 0, 0, 0, 0, 0, b'a'];
    assert_eq!(ArchivedEntryData::validate(&bytes), Ok(()));
    let archived = ArchivedEntryData::access(&bytes).unwrap();
    assert_eq!(archived.entry_type().inner(), "a");
}

#[test]
fn archive_validate_null_padding() {
    // entry type `a`, one null byte, then the field `b = {c}`
    let bytes = vec![
        1, 0, 0, 0, 1, 0, 0, 0, 32, 0, 0, 0, 1, 0, 0, 0, 34, 0, 0, 0, 1, 0, 0, 0, 35, 0, 0, 0, 1,
        0, 0, 0, b'a', 0, b'b', b'c',
    ];
    assert_eq!(ArchivedEntryData::validate(&bytes), Ok(()));
    let archived = ArchivedEntryData::access(&bytes).unwrap();
    assert_eq!(archived.entry_type().inner(), "a");
    assert_eq!(archived.get_field("b").map(|v| v.inner()), Some("c"));

    // trailing null bytes are padding too
    let mut bytes = small_archive();
    bytes.push(0);
    bytes.push(0);
    assert_eq!(ArchivedEntryData::validate(&bytes), Ok(()));
}

#[test]
fn archive_validate_unsorted_fields() {
    // entry type `a`, then `z = {1}` and `b = {2}`: contiguous, but not sorted by key
    let mut bytes = vec![
        1, 0, 0, 0, 2, 0, 0, 0, 48, 0, 0, 0, 1, 0, 0, 0, 49, 0, 0, 0, 1, 0, 0, 0, 50, 0, 0, 0, 1,
        0, 0, 0, 51, 0, 0, 0, 1, 0, 0, 0, 52, 0, 0, 0, 1, 0, 0, 0,
    ];
    bytes.extend_from_slice(b"az1b2");
    assert_eq!(ArchivedEntryData::validate(&bytes), Err(AccessError::UnsortedFields(1)));

    // the same two fields, sorted
    let mut bytes = vec![
        1, 0, 0, 0, 2, 0, 0, 0, 48, 0, 0, 0, 1, 0, 0, 0, 49, 0, 0, 0, 1, 0, 0, 0, 50, 0, 0, 0, 1,
        0, 0, 0, 51, 0, 0, 0, 1, 0, 0, 0, 52, 0, 0, 0, 1, 0, 0, 0,
    ];
    bytes.extend_from_slice(b"ab2z1");
    assert_eq!(ArchivedEntryData::validate(&bytes), Ok(()));
}

#[test]
fn archive_validate_char_boundary() {
    // entry type `t`, then a key that ends inside the char `é`
    let bytes = vec![
        1, 0, 0, 0, // meta
        1, 0, 0, 0, // 1 field
        32, 0, 0, 0, 1, 0, 0, 0, // entry type
        33, 0, 0, 0, 1, 0, 0, 0, 34, 0, 0, 0, 1, 0, 0, 0, // field
        b't', 0xc3, 0xa9,
    ];
    assert_eq!(ArchivedEntryData::validate(&bytes), Err(AccessError::InvalidStrOffset(0)));
}

#[test]
fn archive_load_and_access() {
    let loaded = ArchivedEntryData::load(small_archive()).unwrap();
    assert_eq!(loaded.entry_type().inner(), "t");
    assert_eq!(loaded.get_field_str("a"), Some("b"));
    assert_eq!(loaded.get_field_str("b"), None);
    assert!(loaded.contains_field("a"));
    assert_eq!(loaded.as_bytes(), small_archive().as_slice());

    let accessed = ArchivedEntryData::access(&small_archive()).unwrap();
    assert_eq!(accessed, loaded);
    assert_eq!(loaded.into_boxed_bytes(), small_archive());

    assert!(ArchivedEntryData::load(vec![0; 16]).is_err());
    assert!(ArchivedEntryData::access(&[1, 0, 0, 0]).is_err());
}

#[test]
fn archive_get_field_many() {
    let mut data = MutableEntryData::try_new("book").unwrap();
    let keys = ["a", "b", "c", "d", "e", "f", "g", "h", "i", "j"];
    for (i, k) in keys.iter().enumerate() {
        data.try_insert(k, &i.to_string()).unwrap();
    }
    let archived = ArchivedEntryData::from_entry_data(&data);
    for (i, k) in keys.iter().enumerate() {
        assert_eq!(archived.get_field_str(k), Some(i.to_string().as_str()));
    }
    assert_eq!(archived.get_field_str("aa"), None);
    assert_eq!(archived.get_field_str("z"), None);
    assert!(archived.validate_untrusted().is_ok());
}

#[test]
fn archive_generic() {
    let mut data = MutableEntryData::try_new("article").unwrap();
    data.try_insert("title", "A title").unwrap();
    let direct = ArchivedEntryData::from_entry_data(&data);
    let bytes = archive::<ArchivedEntryData, MutableEntryData>(data);
    assert_eq!(bytes.as_slice(), direct.as_bytes());
}

#[test]
fn archive_through_references() {
    let mut data = MutableEntryData::try_new("article").unwrap();
    data.try_insert("year", "1999").unwrap();
    let by_ref = archive::<ArchivedEntryData, &MutableEntryData>(&data);
    assert_eq!(by_ref.as_slice(), ArchivedEntryData::from_entry_data(&data).as_bytes());
    let boxed: Box<MutableEntryData> = Box::new(MutableEntryData::from_entry_data(&data));
    assert_eq!(boxed.count_fields(), 1);
    assert_eq!(boxed.get_field_str("year"), Some("1999"));
    let archived = ArchivedEntryData::from_entry_data(&boxed);
    assert_eq!(archived.as_bytes(), by_ref.as_slice());
}
