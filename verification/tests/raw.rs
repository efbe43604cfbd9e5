use autobib_entry::data::{archive, MutableEntryData};
use autobib_entry::error::AccessError;
use autobib_entry::raw::{serialize, RawEntryData};
use autobib_entry::EntryData;

#[test]
fn raw_format_consistency() {
    let mut data = MutableEntryData::default();
    let fields = [
        ("author", "Alex Rutar"),
        ("journal", "Journal of Great Papers"),
        ("title", "A wonderful title"),
        ("year", "2036"),
    ];

    for (k, v) in fields {
        data.try_insert(k, v).unwrap();
    }

    let serialized = RawEntryData::from_entry_data(&data);
    assert!(RawEntryData::validate(serialized.as_bytes()).is_ok());
    assert_eq!(
        serialized.as_bytes(),
        [
            4, 0, 0, 0, // entry length 4
            4, 0, 0, 0, // 4 fields
            76, 0, 0, 0, 6, 0, 0, 0, 82, 0, 0, 0, 10, 0, 0, 0, // field 1
            92, 0, 0, 0, 7, 0, 0, 0, 99, 0, 0, 0, 23, 0, 0, 0, // field 2
            122, 0, 0, 0, 5, 0, 0, 0, 127, 0, 0, 0, 17, 0, 0, 0, // field 3
            144, 0, 0, 0, 4, 0, 0, 0, 148, 0, 0, 0, 4, 0, 0, 0, // field 4
            b'm', b'i', b's', b'c', // entry type
            b'a', b'u', b't', b'h', b'o', b'r', // key 1
            b'A', b'l', b'e', b'x', b' ', b'R', b'u', b't', b'a', b'r', // val 1
            b'j', b'o', b'u', b'r', b'n', b'a', b'l', // key 2
            b'J', b'o', b'u', b'r', b'n', b'a', b'l', b' ', b'o', b'f', b' ', b'G', b'r', b'e',
            b'a', b't', b' ', b'P', b'a', b'p', b'e', b'r', b's', // val 2
            b't', b'i', b't', b'l', b'e', // key 3
            b'A', b' ', b'w', b'o', b'n', b'd', b'e', b'r', b'f', b'u', b'l', b' ', b't', b'i',
            b't', b'l', b'e', // val 3
            b'y', b'e', b'a', b'r', // key 4
            b'2', b'0', b'3', b'6' // val 4
        ]
    );

    let data = MutableEntryData::try_new("article").unwrap();

    let serialized = RawEntryData::from_entry_data(&data);
    assert!(RawEntryData::validate(serialized.as_bytes()).is_ok());
    assert_eq!(
        serialized.as_bytes(),
        [7, 0, 0, 0, 0, 0, 0, 0, b'a', b'r', b't', b'i', b'c', b'l', b'e']
    );
}

#[test]
fn raw_basic() {
    let mut data = MutableEntryData::default();
    let fields = [
        ("author", "Alex Rutar"),
        ("journal", "Journal of Great Papers"),
        ("month", "Dec"),
        ("title", "A wonderful title"),
        ("year", "2036"),
    ];

    for (k, v) in fields {
        data.try_insert(k, v).unwrap();
    }

    let serialized = RawEntryData::from_entry_data(&data);
    assert_eq!(serialized.count_fields(), fields.len());
    for (k, v) in fields {
        assert_eq!(serialized.get_field_str(k), Some(v));
    }
    for ((k, v), (ser_k, ser_v)) in fields.iter().zip(serialized.fields()) {
        assert_eq!(k, &ser_k.inner());
        assert_eq!(v, &ser_v.inner());
    }
}

/// The raw bytes of an entry with one field `a = {b}` and entry type `t`.
fn small_raw() -> Vec<u8> {
    vec![
        1, 0, 0, 0, // entry type length
        1, 0, 0, 0, // 1 field
        25, 0, 0, 0, 1, 0, 0, 0, 26, 0, 0, 0, 1, 0, 0, 0, // field
        b't', b'a', b'b',
    ]
}

#[test]
fn raw_validate_errors() {
    assert!(RawEntryData::validate(&small_raw()).is_ok());
    assert_eq!(RawEntryData::validate(&[1, 0, 0, 0]), Err(AccessError::InvalidHeader));

    let mut bytes = small_raw();
    bytes[4] = 2;
    assert_eq!(RawEntryData::validate(&bytes), Err(AccessError::IncompleteFields));

    let mut bytes = small_raw();
    bytes[25] = 0x80;
    assert!(matches!(RawEntryData::validate(&bytes), Err(AccessError::InvalidUtf8(_))));

    let mut bytes = small_raw();
    bytes[8] = 24;
    assert_eq!(RawEntryData::validate(&bytes), Err(AccessError::InvalidIndex(0)));

    let mut bytes = small_raw();
    bytes.push(b'c');
    assert_eq!(RawEntryData::validate(&bytes), Err(AccessError::TrailingBytes(27)));

    // the entry type length is wrong: the key index no longer follows it
    let mut bytes = small_raw();
    bytes[0] = 0;
    assert_eq!(RawEntryData::validate(&bytes), Err(AccessError::InvalidIndex(0)));
}

#[test]
fn raw_load_and_access() {
    let loaded = RawEntryData::load(small_raw()).unwrap();
    assert_eq!(loaded.entry_type().inner(), "t");
    assert_eq!(loaded.get_field_str("a"), Some("b"));
    assert_eq!(loaded.get_field_str("c"), None);
    let accessed = RawEntryData::access(&small_raw()).unwrap();
    assert_eq!(accessed, loaded);
    assert!(RawEntryData::load(vec![0, 0, 0]).is_err());
}

#[test]
fn raw_serialize_matches() {
    let mut data = MutableEntryData::try_new("article").unwrap();
    data.try_insert("year", "2024").unwrap();
    data.try_insert("title", "🍄").unwrap();
    let bytes = serialize(&data);
    let raw = RawEntryData::from_entry_data(&data);
    assert_eq!(bytes.as_slice(), raw.as_bytes());
    assert_eq!(archive::<RawEntryData, MutableEntryData>(data), bytes);
    let back = MutableEntryData::from_entry_data(&raw);
    assert_eq!(back.get_str("title"), Some("🍄"));
    assert_eq!(back.entry_type().inner(), "article");
}
