//! Entry data types.
//!
//! - [`EntryData`]: types which hold the data content of a single BibTeX entry.
//! - [`MutableEntryData`]: an [`EntryData`] implementation which permits mutation.
//! - [`ArchivedEntryData`]: the binary archive format used to store entry data.
//! - [`EntryDataSerializer`]: a wrapper around an [`EntryData`] implementation, serialized by
//!   the application layer.

pub mod archive;
pub mod mutable;

use crate::encoding::{bytes_lt, compare_bytes, str_eq, ByteOrder, lex_order};
use crate::error::{AccessError, DataError};
use crate::ident::{
    entry_type_check, field_key_check, field_value_check, value_depth_ok, EntryType, EntryTypeRef,
    FieldKey, FieldKeyRef, FieldValue, FieldValueRef,
};
use vstd::prelude::*;
use vstd::string::StringSliceAdditionalSpecFns;
use vstd::utf8::encode_utf8;

pub use self::archive::ArchivedEntryData;
pub use self::mutable::{ConflictResolved, EntryEditCommand, MutableEntryData, SetFieldCommand};

verus! {

/// The `(key, value)` pairs of entry data, in order, as strings.
pub type FieldsView = Seq<(Seq<char>, Seq<char>)>;

/// Key `a` sorts strictly before key `b`, comparing their Utf-8 bytes.
pub open spec fn key_lt(a: Seq<char>, b: Seq<char>) -> bool {
    bytes_lt(encode_utf8(a), encode_utf8(b))
}

/// The field keys are strictly increasing.
pub open spec fn keys_sorted(f: FieldsView) -> bool {
    forall|i: int, j: int| 0 <= i < j < f.len() ==> key_lt(#[trigger] f[i].0, #[trigger] f[j].0)
}

/// No field key sorts before the key just before it.
pub open spec fn keys_nondecreasing(f: FieldsView) -> bool {
    forall|i: int| 0 < i < f.len() ==> !key_lt(#[trigger] f[i].0, f[i - 1].0)
}

/// The field key `name` occurs among the fields.
pub open spec fn has_key(f: FieldsView, name: Seq<char>) -> bool {
    exists|i: int| 0 <= i < f.len() && #[trigger] f[i].0 == name
}

/// The map from each field key to the value of its last occurrence.
pub open spec fn fields_map(f: FieldsView) -> Map<Seq<char>, Seq<char>>
    decreases f.len(),
{
    if f.len() == 0 {
        Map::empty()
    } else {
        fields_map(f.drop_last()).insert(f.last().0, f.last().1)
    }
}

/// The value found by scanning the fields in order from position `i`: the first field whose
/// key equals `name`, stopping with nothing at the first key which sorts after `name`.
pub open spec fn scan_get_from(f: FieldsView, name: Seq<char>, i: int) -> Option<Seq<char>>
    decreases f.len() - i,
{
    if i < 0 || i >= f.len() {
        None
    } else if key_lt(name, f[i].0) {
        None
    } else if f[i].0 == name {
        Some(f[i].1)
    } else {
        scan_get_from(f, name, i + 1)
    }
}

/// The value of the first field, from position `i`, whose key equals `name`.
pub open spec fn first_match_from(f: FieldsView, name: Seq<char>, i: int) -> Option<Seq<char>>
    decreases f.len() - i,
{
    if i < 0 || i >= f.len() {
        None
    } else if f[i].0 == name {
        Some(f[i].1)
    } else {
        first_match_from(f, name, i + 1)
    }
}

/// The string held by an optional borrowed field value.
pub open spec fn value_view(r: Option<FieldValueRef<'_>>) -> Option<Seq<char>> {
    match r {
        Some(v) => Some(v@),
        None => None,
    }
}

/// The string held by an optional string slice.
pub open spec fn str_view(r: Option<&str>) -> Option<Seq<char>> {
    match r {
        Some(v) => Some(v@),
        None => None,
    }
}

/// The outcome of checking every field from position `i`: each key, then its value.
pub open spec fn fields_check_from(f: FieldsView, i: int) -> Result<(), DataError>
    decreases f.len() - i,
{
    if i < 0 || i >= f.len() {
        Ok(())
    } else {
        match field_key_check(f[i].0) {
            Err(e) => Err(e),
            Ok(()) => match field_value_check(f[i].1) {
                Err(e) => Err(e),
                Ok(()) => fields_check_from(f, i + 1),
            },
        }
    }
}

proof fn lemma_fields_check_ok(f: FieldsView, i: int)
    requires
        0 <= i,
    ensures
        fields_check_from(f, i) is Ok <==> forall|j: int|
            i <= j < f.len() ==> field_key_check((#[trigger] f[j]).0) is Ok && field_value_check(
                f[j].1,
            ) is Ok,
    decreases f.len() - i,
{
    if i < f.len() {
        lemma_fields_check_ok(f, i + 1);
        if fields_check_from(f, i) is Ok {
            assert forall|j: int| i <= j < f.len() implies field_key_check((#[trigger] f[j]).0) is Ok
                && field_value_check(f[j].1) is Ok by {
                if j > i {
                    assert(fields_check_from(f, i + 1) is Ok);
                }
            }
        } else {
            assert(!(field_key_check(f[i].0) is Ok && field_value_check(f[i].1) is Ok)
                || fields_check_from(f, i + 1) is Err);
        }
    }
}

/// Untrusted entry data passes the check exactly when its keys are in order, its entry type
/// is valid, and every key and every value is valid: in particular every value has balanced
/// `{` and `}`.
pub proof fn lemma_untrusted_check_ok(entry_type: Seq<char>, f: FieldsView)
    ensures
        untrusted_check(entry_type, f) is Ok <==> {
            &&& keys_nondecreasing(f)
            &&& entry_type_check(entry_type) is Ok
            &&& forall|j: int|
                0 <= j < f.len() ==> field_key_check((#[trigger] f[j]).0) is Ok
                    && field_value_check(f[j].1) is Ok
        },
{
    lemma_fields_check_ok(f, 0);
}

/// The outcome of checking untrusted entry data: the keys must be sorted, then the entry
/// type, the keys and the values must be valid.
pub open spec fn untrusted_check(entry_type: Seq<char>, f: FieldsView) -> Result<(), DataError> {
    if !keys_nondecreasing(f) {
        Err(DataError::Unsorted)
    } else {
        match entry_type_check(entry_type) {
            Err(e) => Err(e),
            Ok(()) => fields_check_from(f, 0),
        }
    }
}

/// Every field value can be checked for balanced `{}`.
pub open spec fn values_depth_ok(f: FieldsView) -> bool {
    forall|i: int| 0 <= i < f.len() ==> value_depth_ok(#[trigger] f[i].1)
}

/// No key sorts before itself.
pub proof fn lemma_key_lt_irreflexive(a: Seq<char>)
    ensures
        !key_lt(a, a),
{
    crate::encoding::lemma_lex_order_equal(encode_utf8(a), encode_utf8(a));
}

/// The order on keys is transitive.
pub proof fn lemma_key_lt_transitive(a: Seq<char>, b: Seq<char>, c: Seq<char>)
    requires
        key_lt(a, b),
        key_lt(b, c),
    ensures
        key_lt(a, c),
{
    crate::encoding::lemma_bytes_lt_transitive(encode_utf8(a), encode_utf8(b), encode_utf8(c));
}

/// Two distinct keys are ordered one way or the other, and not both.
pub proof fn lemma_key_lt_total(a: Seq<char>, b: Seq<char>)
    ensures
        a != b ==> (key_lt(a, b) || key_lt(b, a)),
        !(key_lt(a, b) && key_lt(b, a)),
        key_lt(a, b) ==> a != b,
{
    crate::encoding::lemma_lex_order_equal(encode_utf8(a), encode_utf8(b));
    crate::encoding::lemma_lex_order_flip(encode_utf8(a), encode_utf8(b));
    crate::encoding::lemma_encode_injective(a, b);
}

/// With no key equal to `name` from position `i` on, nothing matches.
pub proof fn lemma_first_match_none(f: FieldsView, name: Seq<char>, i: int)
    requires
        0 <= i,
        forall|j: int| i <= j < f.len() ==> #[trigger] f[j].0 != name,
    ensures
        first_match_from(f, name, i) is None,
    decreases f.len() - i,
{
    if i < f.len() {
        lemma_first_match_none(f, name, i + 1);
    }
}

/// The first key equal to `name` from position `i` on, at `m`, is the one matched.
pub proof fn lemma_first_match_at(f: FieldsView, name: Seq<char>, i: int, m: int)
    requires
        0 <= i <= m < f.len(),
        f[m].0 == name,
        forall|j: int| i <= j < m ==> #[trigger] f[j].0 != name,
    ensures
        first_match_from(f, name, i) == Some(f[m].1),
    decreases m - i,
{
    if i < m {
        lemma_first_match_at(f, name, i + 1, m);
    }
}

/// On sorted keys, scanning with an early stop finds the same value as looking for the first match.
pub proof fn lemma_scan_sorted(f: FieldsView, name: Seq<char>, i: int)
    requires
        keys_sorted(f),
        0 <= i,
    ensures
        scan_get_from(f, name, i) == first_match_from(f, name, i),
    decreases f.len() - i,
{
    if i < f.len() {
        if key_lt(name, f[i].0) {
            assert forall|j: int| i <= j < f.len() implies #[trigger] f[j].0 != name by {
                lemma_key_lt_total(name, f[i].0);
                if j > i {
                    lemma_key_lt_transitive(name, f[i].0, f[j].0);
                    lemma_key_lt_total(name, f[j].0);
                }
            }
            lemma_first_match_none(f, name, i);
        } else if f[i].0 != name {
            lemma_scan_sorted(f, name, i + 1);
        }
    }
}

/// On sorted keys, the value of a key found at `m` is what a scan finds.
pub proof fn lemma_sorted_match(f: FieldsView, name: Seq<char>, m: int)
    requires
        keys_sorted(f),
        0 <= m < f.len(),
        f[m].0 == name,
    ensures
        scan_get_from(f, name, 0) == Some(f[m].1),
        first_match_from(f, name, 0) == Some(f[m].1),
{
    assert forall|j: int| 0 <= j < m implies #[trigger] f[j].0 != name by {
        lemma_key_lt_total(f[j].0, f[m].0);
    }
    lemma_first_match_at(f, name, 0, m);
    lemma_scan_sorted(f, name, 0);
}

/// On sorted keys, a key equal to none of the keys is not found.
pub proof fn lemma_sorted_no_match(f: FieldsView, name: Seq<char>)
    requires
        keys_sorted(f),
        forall|j: int| 0 <= j < f.len() ==> #[trigger] f[j].0 != name,
    ensures
        scan_get_from(f, name, 0) is None,
        first_match_from(f, name, 0) is None,
{
    lemma_first_match_none(f, name, 0);
    lemma_scan_sorted(f, name, 0);
}

/// Compares two keys by their Utf-8 bytes.
pub fn compare_keys(a: &str, b: &str) -> (r: ByteOrder)
    ensures
        r == lex_order(encode_utf8(a@), encode_utf8(b@)),
{
    compare_bytes(a.as_bytes(), b.as_bytes())
}

/// Types which hold the data content of a single BibTeX entry: an entry type, and a sequence
/// of `(key, value)` fields.
pub trait EntryData {
    /// The entry type.
    spec fn entry_type_view(&self) -> Seq<char>;

    /// The fields, in order.
    spec fn fields_view(&self) -> FieldsView;

    /// Get the entry type.
    fn entry_type(&self) -> (r: EntryTypeRef<'_>)
        ensures
            r@ == self.entry_type_view(),
    ;

    /// Count the number of fields.
    fn count_fields(&self) -> (r: usize)
        ensures
            r == self.fields_view().len(),
    ;

    /// Get the field at position `i`.
    fn field_at(&self, i: usize) -> (r: (FieldKeyRef<'_>, FieldValueRef<'_>))
        requires
            i < self.fields_view().len(),
        ensures
            r.0@ == self.fields_view()[i as int].0,
            r.1@ == self.fields_view()[i as int].1,
    ;

    /// The `(key, value)` pairs in order.
    fn fields(&self) -> (r: Vec<(FieldKeyRef<'_>, FieldValueRef<'_>)>)
        ensures
            r@.len() == self.fields_view().len(),
            forall|i: int|
                0 <= i < r@.len() ==> (#[trigger] r@[i]).0@ == self.fields_view()[i].0 && r@[i].1@
                    == self.fields_view()[i].1,
    {
        let n = self.count_fields();
        let mut out: Vec<(FieldKeyRef<'_>, FieldValueRef<'_>)> = Vec::new();
        let mut i: usize = 0;
        while i < n
            invariant
                n == self.fields_view().len(),
                i <= n,
                out@.len() == i,
                forall|j: int|
                    0 <= j < i ==> (#[trigger] out@[j]).0@ == self.fields_view()[j].0 && out@[j].1@
                        == self.fields_view()[j].1,
            decreases n - i,
        {
            out.push(self.field_at(i));
            i = i + 1;
        }
        out
    }

    /// Get the value of a given field.
    ///
    /// When the keys are sorted, this is the value of the field with that key. The default
    /// implementation scans the fields in order.
    fn get_field(&self, field_name: &str) -> (r: Option<FieldValueRef<'_>>)
        ensures
            r matches Some(v) ==> exists|i: int|
                0 <= i < self.fields_view().len() && #[trigger] self.fields_view()[i] == (
                field_name@,
                v@,
            ),
            keys_sorted(self.fields_view()) ==> value_view(r) == scan_get_from(
                self.fields_view(),
                field_name@,
                0,
            ),
        default_ensures
            value_view(r) == scan_get_from(self.fields_view(), field_name@, 0),
    {
        let n = self.count_fields();
        let mut i: usize = 0;
        while i < n
            invariant
                n == self.fields_view().len(),
                i <= n,
                scan_get_from(self.fields_view(), field_name@, 0) == scan_get_from(
                    self.fields_view(),
                    field_name@,
                    i as int,
                ),
            decreases n - i,
        {
            let (key, val) = self.field_at(i);
            match compare_keys(field_name, key.inner()) {
                ByteOrder::Less => {
                    return None;
                },
                ByteOrder::Equal => {
                    proof {
                        crate::encoding::lemma_lex_order_equal(encode_utf8(field_name@), encode_utf8(key@));
                        crate::encoding::lemma_encode_injective(field_name@, key@);
                    }
                    return Some(val);
                },
                ByteOrder::Greater => {
                    proof {
                        crate::encoding::lemma_lex_order_equal(encode_utf8(field_name@), encode_utf8(key@));
                        crate::encoding::lemma_encode_injective(field_name@, key@);
                    }
                },
            }
            i = i + 1;
        }
        None
    }

    /// Get the value of the field as a string.
    fn get_field_str(&self, field_name: &str) -> (r: Option<&str>)
        ensures
            r matches Some(v) ==> exists|i: int|
                0 <= i < self.fields_view().len() && #[trigger] self.fields_view()[i] == (
                field_name@,
                v@,
            ),
            keys_sorted(self.fields_view()) ==> str_view(r) == scan_get_from(
                self.fields_view(),
                field_name@,
                0,
            ),
    {
        match self.get_field(field_name) {
            Some(v) => Some(v.inner()),
            None => None,
        }
    }

    /// Check if a given field exists.
    fn contains_field(&self, field_name: &str) -> (r: bool)
        ensures
            r ==> has_key(self.fields_view(), field_name@),
            keys_sorted(self.fields_view()) ==> r == scan_get_from(
                self.fields_view(),
                field_name@,
                0,
            ) is Some,
    {
        match self.get_field(field_name) {
            Some(v) => {
                proof {
                    let i = choose|i: int|
                        0 <= i < self.fields_view().len() && #[trigger] self.fields_view()[i] == (
                        field_name@,
                        v@,
                    );
                    assert(self.fields_view()[i].0 == field_name@);
                }
                true
            },
            None => false,
        }
    }

    /// Validate that this entry data is correct: the keys must be sorted, and the entry type,
    /// every key and every value must be valid.
    fn validate_untrusted(&self) -> (r: Result<(), DataError>)
        requires
            values_depth_ok(self.fields_view()),
        ensures
            r == untrusted_check(self.entry_type_view(), self.fields_view()),
            r is Ok ==> forall|j: int|
                0 <= j < self.fields_view().len() ==> field_key_check(
                    (#[trigger] self.fields_view()[j]).0,
                ) is Ok && field_value_check(self.fields_view()[j].1) is Ok,
    {
        proof {
            lemma_untrusted_check_ok(self.entry_type_view(), self.fields_view());
        }
        let ghost f = self.fields_view();
        let n = self.count_fields();
        let mut i: usize = 1;
        while i < n
            invariant
                n == f.len(),
                f == self.fields_view(),
                1 <= i,
                forall|j: int| 0 < j < i && j < n ==> !key_lt(#[trigger] f[j].0, f[j - 1].0),
            decreases n - i,
        {
            let (prev, _) = self.field_at(i - 1);
            let (key, _) = self.field_at(i);
            match compare_keys(key.inner(), prev.inner()) {
                ByteOrder::Less => {
                    assert(key_lt(f[i as int].0, f[i - 1].0));
                    return Err(DataError::Unsorted);
                },
                _ => {},
            }
            i = i + 1;
        }
        assert(keys_nondecreasing(f));
        let et = self.entry_type();
        match EntryType::validate(et.inner()) {
            Err(e) => {
                return Err(e);
            },
            Ok(()) => {},
        }
        let mut i: usize = 0;
        while i < n
            invariant
                n == f.len(),
                f == self.fields_view(),
                values_depth_ok(f),
                keys_nondecreasing(f),
                entry_type_check(self.entry_type_view()) is Ok,
                i <= n,
                fields_check_from(f, 0) == fields_check_from(f, i as int),
            decreases n - i,
        {
            let (key, val) = self.field_at(i);
            match FieldKey::validate(key.inner()) {
                Err(e) => {
                    return Err(e);
                },
                Ok(()) => {},
            }
            assert(value_depth_ok(f[i as int].1));
            match FieldValue::validate(val.inner()) {
                Err(e) => {
                    return Err(e);
                },
                Ok(()) => {},
            }
            i = i + 1;
        }
        Ok(())
    }
}

/// A reference to entry data is entry data.
impl<'a, D: EntryData + ?Sized> EntryData for &'a D {
    open spec fn entry_type_view(&self) -> Seq<char> {
        (**self).entry_type_view()
    }

    open spec fn fields_view(&self) -> FieldsView {
        (**self).fields_view()
    }

    fn entry_type(&self) -> (r: EntryTypeRef<'_>) {
        (**self).entry_type()
    }

    fn count_fields(&self) -> (r: usize) {
        (**self).count_fields()
    }

    fn field_at(&self, i: usize) -> (r: (FieldKeyRef<'_>, FieldValueRef<'_>)) {
        (**self).field_at(i)
    }

    fn get_field(&self, field_name: &str) -> (r: Option<FieldValueRef<'_>>) {
        (**self).get_field(field_name)
    }

    fn get_field_str(&self, field_name: &str) -> (r: Option<&str>) {
        (**self).get_field_str(field_name)
    }

    fn contains_field(&self, field_name: &str) -> (r: bool) {
        (**self).contains_field(field_name)
    }
}

/// Boxed entry data is entry data.
impl<D: EntryData + ?Sized> EntryData for Box<D> {
    open spec fn entry_type_view(&self) -> Seq<char> {
        (**self).entry_type_view()
    }

    open spec fn fields_view(&self) -> FieldsView {
        (**self).fields_view()
    }

    fn entry_type(&self) -> (r: EntryTypeRef<'_>) {
        (**self).entry_type()
    }

    fn count_fields(&self) -> (r: usize) {
        (**self).count_fields()
    }

    fn field_at(&self, i: usize) -> (r: (FieldKeyRef<'_>, FieldValueRef<'_>)) {
        (**self).field_at(i)
    }

    fn get_field(&self, field_name: &str) -> (r: Option<FieldValueRef<'_>>) {
        (**self).get_field(field_name)
    }

    fn get_field_str(&self, field_name: &str) -> (r: Option<&str>) {
        (**self).get_field_str(field_name)
    }

    fn contains_field(&self, field_name: &str) -> (r: bool) {
        (**self).contains_field(field_name)
    }
}

/// Types that can be converted to raw bytes, which can be loaded from raw bytes, and for which
/// data can be read from a byte slice.
pub trait Archive: Sized {
    /// The bytes held.
    spec fn archive_view(&self) -> Seq<u8>;

    /// The bytes are in the format of this type.
    spec fn format_ok(bytes: Seq<u8>) -> bool;

    /// Entry data with this entry type and these fields fits the format of this type.
    spec fn fits(entry_type: Seq<char>, fields: FieldsView) -> bool;

    /// The bytes, in the format of this type, of entry data with this entry type and these
    /// fields.
    spec fn encoding(entry_type: Seq<char>, fields: FieldsView) -> Seq<u8>;

    /// Obtain the underlying bytes.
    fn as_bytes(&self) -> (r: &[u8])
        ensures
            r@ == self.archive_view(),
            Self::format_ok(r@),
    ;

    /// Convert into the underlying bytes.
    fn into_archive(archive: Self) -> (r: Vec<u8>)
        ensures
            r@ == archive.archive_view(),
    ;

    /// Check that bytes are in the format of this type.
    fn validate(bytes: &[u8]) -> (r: Result<(), AccessError>)
        ensures
            r is Ok <==> Self::format_ok(bytes@),
    ;

    /// Construct a new instance from entry data which fits the format.
    fn from_entry_data<D: EntryData>(data: D) -> (r: Self)
        requires
            Self::fits(data.entry_type_view(), data.fields_view()),
        ensures
            r.archive_view() == Self::encoding(data.entry_type_view(), data.fields_view()),
    ;

    /// Load bytes which the caller knows to be in the format.
    fn load_unchecked(bytes: Vec<u8>) -> (r: Self)
        requires
            Self::format_ok(bytes@),
        ensures
            r.archive_view() == bytes@,
    ;

    /// Access bytes which the caller knows to be in the format.
    fn access_unchecked(bytes: &[u8]) -> (r: Self)
        requires
            Self::format_ok(bytes@),
        ensures
            r.archive_view() == bytes@,
    ;

    /// Load the provided bytes, first checking that they are in the format.
    fn load(bytes: Vec<u8>) -> (r: Result<Self, AccessError>)
        ensures
            r is Ok <==> Self::format_ok(bytes@),
            r matches Ok(a) ==> a.archive_view() == bytes@,
    {
        match Self::validate(bytes.as_slice()) {
            Ok(()) => Ok(Self::load_unchecked(bytes)),
            Err(e) => Err(e),
        }
    }

    /// Access the provided bytes, first checking that they are in the format.
    fn access(bytes: &[u8]) -> (r: Result<Self, AccessError>)
        ensures
            r is Ok <==> Self::format_ok(bytes@),
            r matches Ok(a) ==> a.archive_view() == bytes@,
    {
        match Self::validate(bytes) {
            Ok(()) => Ok(Self::access_unchecked(bytes)),
            Err(e) => Err(e),
        }
    }
}

/// Serialize entry data as raw bytes in the format of `A`.
pub fn archive<A: Archive, D: EntryData>(data: D) -> (r: Vec<u8>)
    requires
        A::fits(data.entry_type_view(), data.fields_view()),
    ensures
        r@ == A::encoding(data.entry_type_view(), data.fields_view()),
{
    A::into_archive(A::from_entry_data(data))
}

/// A wrapper around an [`EntryData`] implementation, from which the application layer
/// serializes the entry type and the fields.
pub struct EntryDataSerializer<'a, D: ?Sized> {
    data: &'a D,
}

impl<'a, D: EntryData + ?Sized> EntryDataSerializer<'a, D> {
    /// Wrap an entry data implementation.
    pub fn new(data: &'a D) -> (r: Self)
        ensures
            r.data() == data,
    {
        EntryDataSerializer { data }
    }

    /// The wrapped entry data.
    pub closed spec fn data(&self) -> &'a D {
        self.data
    }

    /// Obtain the wrapped entry data.
    pub fn inner(&self) -> (r: &'a D)
        ensures
            r == self.data(),
    {
        self.data
    }
}

} // verus!
