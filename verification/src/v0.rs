//! The legacy archived data format.
//!
//! The first byte is a version byte, `0`. Then follow the entry type block and the field
//! blocks:
//! ```txt
//! HEADER, TYPE, DATA1, DATA2, ...
//! ```
//! `TYPE` is `[entry_type_len: u8, entry_type: [u8..]]`, and each `DATA` block is
//! `[key_len: u8, value_len: u16, key: [u8..], value: [u8..]]`, with `value_len` stored
//! little-endian. The entry type and every key are ASCII identifiers and every value is Utf-8
//! with balanced `{}`.

use crate::data::archive::{checked_str, ByteFields, encode_fields};
use crate::data::{
    compare_keys, first_match_from, key_lt, keys_sorted, scan_get_from, value_view, EntryData,
    FieldsView,
};
use crate::encoding::{bytes_lt, compare_bytes, extend_bytes, is_valid_up_to, lemma_valid_up_to_unique, str_from_utf8, valid_up_to, ByteOrder};
use crate::ident::{
    brace_check, field_key_check, field_value_check, identifier_check, is_balanced,
    lemma_depth_fits_short, lemma_identifier_valid_utf8, validate_ascii_identifier, EntryTypeRef,
    FieldKeyRef, FieldValueRef,
};
use vstd::prelude::*;
use vstd::slice::slice_subrange;
use vstd::utf8::{decode_utf8, encode_utf8, valid_utf8};

verus! {

/// An error found while checking legacy bytes: where, and what.
#[derive(Debug, PartialEq)]
pub struct InvalidBytesError {
    pub position: usize,
    pub message: &'static str,
}

impl InvalidBytesError {
    /// Construct an error.
    pub fn new(position: usize, message: &'static str) -> (r: Self)
        ensures
            r.position == position,
            r.message == message,
    {
        InvalidBytesError { position, message }
    }
}

/// An error while building legacy entry data.
#[derive(Debug, PartialEq)]
pub enum RecordDataError {
    /// Identifier contains invalid character.
    ContainsInvalidChar,
    /// Key has invalid size; it must be at least 1 and at most 255.
    KeyInvalidLength(usize),
    /// Entry type has invalid size; it must be at least 1 and at most 255.
    EntryTypeInvalidLength(usize),
    /// Entry type must not be one of the reserved names: comment, preamble, string.
    EntryTypeReserved,
    /// Value has invalid size; it must be at most 65535.
    ValueInvalidLength(usize),
    /// Value does not contain balanced `{ }` braces.
    ValueNotBalanced,
    /// Invalid bytes.
    InvalidBytes(InvalidBytesError),
}

impl From<InvalidBytesError> for RecordDataError {
    fn from(e: InvalidBytesError) -> (r: Self)
        ensures
            r == RecordDataError::InvalidBytes(e),
    {
        RecordDataError::InvalidBytes(e)
    }
}

impl vstd::std_specs::convert::FromSpecImpl<InvalidBytesError> for RecordDataError {
    open spec fn obeys_from_spec() -> bool {
        true
    }

    open spec fn from_spec(e: InvalidBytesError) -> Self {
        RecordDataError::InvalidBytes(e)
    }
}

/// The error at `position` with `message`.
pub open spec fn ibe(position: int, message: &'static str) -> InvalidBytesError {
    InvalidBytesError { position: position as usize, message }
}

/// The outcome of checking the entry type block at `cursor`: where it ends.
pub open spec fn legacy_type_check(b: Seq<u8>, cursor: int) -> Result<int, InvalidBytesError> {
    if cursor >= b.len() {
        Err(ibe(cursor, "missing entry type"))
    } else if b[cursor] == 0 {
        Err(ibe(cursor, "entry type cannot have length zero"))
    } else if cursor + 1 + b[cursor] > b.len() {
        Err(ibe(cursor + 1, "entry type shorter than header"))
    } else if identifier_check(b.subrange(cursor + 1, cursor + 1 + b[cursor])) is Err {
        Err(
            ibe(
                cursor + 1,
                "entry type contains non-ASCII chararacters or invalid ASCII characters",
            ),
        )
    } else {
        Ok(cursor + 1 + b[cursor])
    }
}

/// The value length in the block header at `cursor`.
pub open spec fn block_value_len(b: Seq<u8>, cursor: int) -> int {
    b[cursor + 1] + 256 * b[cursor + 2]
}

/// The outcome of checking the data block at `cursor`, after a block with key `prev` (empty
/// for the first block): `None` at the end of the bytes, and otherwise where the block ends.
pub open spec fn legacy_block_check(b: Seq<u8>, cursor: int, prev: Seq<u8>) -> Result<
    Option<int>,
    InvalidBytesError,
> {
    let rest = b.len() - cursor;
    if rest == 0 {
        Ok(None)
    } else if rest < 3 {
        Err(ibe(cursor, "incomplete data block header"))
    } else if b[cursor] == 0 {
        Err(ibe(cursor, "key cannot have length zero"))
    } else {
        let ks = cursor + 3;
        let vs = ks + b[cursor];
        let ve = vs + block_value_len(b, cursor);
        if vs > b.len() {
            Err(ibe(ks, "key block shorter than header"))
        } else if ve > b.len() {
            Err(ibe(vs, "value block shorter than header"))
        } else if brace_check(b.subrange(vs, ve)) is Err {
            Err(ibe(vs, "value has unbalanced `{}`"))
        } else if identifier_check(b.subrange(ks, vs)) is Err {
            Err(
                ibe(
                    ks,
                    "field key contains non-ASCII chararacters or invalid ASCII characters",
                ),
            )
        } else if !valid_utf8(b.subrange(vs, ve)) {
            Err(
                ibe(
                    vs + valid_up_to(b.subrange(vs, ve)),
                    "value block has invalid utf-8 starting at position",
                ),
            )
        } else if !bytes_lt(prev, b.subrange(ks, vs)) {
            Err(ibe(ks, "data blocks are not sorted by key"))
        } else {
            Ok(Some(ve))
        }
    }
}

/// The outcome of checking the data blocks from `cursor` to the end, after a block with key
/// `prev`: each key must sort after the key before it.
pub open spec fn legacy_blocks_check(b: Seq<u8>, cursor: int, prev: Seq<u8>) -> Result<
    (),
    InvalidBytesError,
>
    decreases b.len() - cursor,
{
    if cursor < 0 || cursor > b.len() {
        Ok(())
    } else {
        match legacy_block_check(b, cursor, prev) {
            Err(e) => Err(e),
            Ok(None) => Ok(()),
            Ok(Some(next)) => legacy_blocks_check(b, next, b.subrange(cursor + 3, cursor + 3 + b[cursor])),
        }
    }
}

/// The outcome of checking that `b` is in the legacy format.
pub open spec fn legacy_check(b: Seq<u8>) -> Result<(), InvalidBytesError> {
    if b.len() == 0 {
        Err(ibe(0, "data was empty"))
    } else if b[0] != 0 {
        Err(ibe(0, "invalid version"))
    } else {
        match legacy_type_check(b, 1) {
            Err(e) => Err(e),
            Ok(end) => legacy_blocks_check(b, end, Seq::empty()),
        }
    }
}

/// Where the entry type block of legacy bytes ends.
pub open spec fn legacy_type_end(b: Seq<u8>) -> int {
    2 + b[1]
}

/// The entry type held by legacy bytes.
pub open spec fn legacy_entry_type(b: Seq<u8>) -> Seq<char> {
    decode_utf8(b.subrange(2, legacy_type_end(b)))
}

/// The fields held by the data blocks of legacy bytes from `cursor` on.
pub open spec fn legacy_fields_from(b: Seq<u8>, cursor: int) -> FieldsView
    decreases b.len() - cursor,
{
    if cursor < 0 || cursor + 3 > b.len() {
        Seq::empty()
    } else {
        let ks = cursor + 3;
        let vs = ks + b[cursor];
        let ve = vs + block_value_len(b, cursor);
        if ve > b.len() {
            Seq::empty()
        } else {
            seq![(decode_utf8(b.subrange(ks, vs)), decode_utf8(b.subrange(vs, ve)))]
                + legacy_fields_from(b, ve)
        }
    }
}

/// Each data block takes at least three bytes.
proof fn lemma_legacy_fields_len(b: Seq<u8>, cursor: int)
    requires
        0 <= cursor,
    ensures
        cursor + 3 * legacy_fields_from(b, cursor).len() <= b.len() || legacy_fields_from(
            b,
            cursor,
        ).len() == 0,
    decreases b.len() - cursor,
{
    if cursor + 3 <= b.len() {
        let ve = cursor + 3 + b[cursor] + block_value_len(b, cursor);
        if ve <= b.len() {
            lemma_legacy_fields_len(b, ve);
        }
    }
}

/// Legacy bytes whose data blocks from `cursor` on are valid.
pub open spec fn blocks_ok(b: Seq<u8>, cursor: int) -> bool {
    0 <= cursor <= b.len() && exists|prev: Seq<u8>| #[trigger] legacy_blocks_check(b, cursor, prev) is Ok
}

/// The data block at `cursor` of valid blocks: its key and value are valid Utf-8.
proof fn lemma_block_ok(b: Seq<u8>, cursor: int)
    requires
        blocks_ok(b, cursor),
        cursor < b.len(),
    ensures
        cursor + 3 <= b.len(),
        ({
            let ks = cursor + 3;
            let vs = ks + b[cursor];
            let ve = vs + block_value_len(b, cursor);
            &&& ve <= b.len()
            &&& valid_utf8(b.subrange(ks, vs))
            &&& valid_utf8(b.subrange(vs, ve))
            &&& blocks_ok(b, ve)
            &&& legacy_fields_from(b, cursor) == seq![
                (decode_utf8(b.subrange(ks, vs)), decode_utf8(b.subrange(vs, ve))),
            ] + legacy_fields_from(b, ve)
        }),
{
    let ks = cursor + 3;
    let vs = ks + b[cursor];
    let prev = choose|prev: Seq<u8>| #[trigger] legacy_blocks_check(b, cursor, prev) is Ok;
    lemma_identifier_valid_utf8(b.subrange(ks, vs));
    let ve = vs + block_value_len(b, cursor);
    assert(legacy_blocks_check(b, ve, b.subrange(ks, vs)) is Ok);
}

proof fn lemma_blocks_sorted(b: Seq<u8>, cursor: int, prev: Seq<u8>)
    requires
        0 <= cursor <= b.len(),
        legacy_blocks_check(b, cursor, prev) is Ok,
    ensures
        keys_sorted(legacy_fields_from(b, cursor)),
        forall|i: int|
            0 <= i < legacy_fields_from(b, cursor).len() ==> bytes_lt(
                prev,
                encode_utf8(#[trigger] legacy_fields_from(b, cursor)[i].0),
            ),
    decreases b.len() - cursor,
{
    if cursor < b.len() {
        let ks = cursor + 3;
        let vs = ks + b[cursor];
        let ve = vs + block_value_len(b, cursor);
        let key = b.subrange(ks, vs);
        lemma_identifier_valid_utf8(key);
        vstd::utf8::decode_utf8_encode_utf8(key);
        lemma_blocks_sorted(b, ve, key);
        let f = legacy_fields_from(b, cursor);
        let rest = legacy_fields_from(b, ve);
        assert(f == seq![(decode_utf8(key), decode_utf8(b.subrange(vs, ve)))] + rest);
        assert(encode_utf8(f[0].0) == key);
        assert forall|i: int| 0 <= i < f.len() implies bytes_lt(prev, encode_utf8(#[trigger] f[i].0)) by {
            if i > 0 {
                assert(f[i] == rest[i - 1]);
                crate::encoding::lemma_bytes_lt_transitive(prev, key, encode_utf8(rest[i - 1].0));
            }
        }
        assert forall|i: int, j: int| 0 <= i < j < f.len() implies key_lt(
            #[trigger] f[i].0,
            #[trigger] f[j].0,
        ) by {
            assert(f[j] == rest[j - 1]);
            if i > 0 {
                assert(f[i] == rest[i - 1]);
            }
        }
    } else {
        assert(legacy_fields_from(b, cursor) =~= Seq::<(Seq<char>, Seq<char>)>::empty());
    }
}

/// The fields of checked legacy bytes are sorted by key.
pub proof fn lemma_legacy_sorted(b: Seq<u8>)
    requires
        legacy_check(b) is Ok,
    ensures
        keys_sorted(legacy_fields_from(b, legacy_type_end(b))),
{
    lemma_legacy_ok(b);
    lemma_blocks_sorted(b, legacy_type_end(b), Seq::empty());
}

proof fn lemma_blocks_valid(b: Seq<u8>, cursor: int, prev: Seq<u8>)
    requires
        0 <= cursor <= b.len(),
        legacy_blocks_check(b, cursor, prev) is Ok,
    ensures
        forall|i: int|
            0 <= i < legacy_fields_from(b, cursor).len() ==> field_key_check(
                (#[trigger] legacy_fields_from(b, cursor)[i]).0,
            ) is Ok && field_value_check(legacy_fields_from(b, cursor)[i].1) is Ok,
    decreases b.len() - cursor,
{
    if cursor < b.len() {
        let ks = cursor + 3;
        let vs = ks + b[cursor];
        let ve = vs + block_value_len(b, cursor);
        let key = b.subrange(ks, vs);
        let value = b.subrange(vs, ve);
        lemma_identifier_valid_utf8(key);
        vstd::utf8::decode_utf8_encode_utf8(key);
        vstd::utf8::decode_utf8_encode_utf8(value);
        lemma_blocks_valid(b, ve, key);
        let f = legacy_fields_from(b, cursor);
        let rest = legacy_fields_from(b, ve);
        assert(f == seq![(decode_utf8(key), decode_utf8(value))] + rest);
        assert forall|i: int| 0 <= i < f.len() implies field_key_check((#[trigger] f[i]).0) is Ok
            && field_value_check(f[i].1) is Ok by {
            if i > 0 {
                assert(f[i] == rest[i - 1]);
            }
        }
    } else {
        assert(legacy_fields_from(b, cursor) =~= Seq::<(Seq<char>, Seq<char>)>::empty());
    }
}

/// Legacy bytes that pass the format check hold only valid field keys and field values whose
/// `{` and `}` are balanced.
pub proof fn lemma_legacy_fields_valid(b: Seq<u8>)
    requires
        legacy_check(b) is Ok,
    ensures
        forall|i: int|
            0 <= i < legacy_fields_from(b, legacy_type_end(b)).len() ==> field_key_check(
                (#[trigger] legacy_fields_from(b, legacy_type_end(b))[i]).0,
            ) is Ok && field_value_check(legacy_fields_from(b, legacy_type_end(b))[i].1) is Ok,
{
    lemma_legacy_ok(b);
    lemma_blocks_valid(b, legacy_type_end(b), Seq::empty());
}

/// Raw legacy entry data: the format is checked when the value is made.
#[derive(Debug, PartialEq)]
pub struct LegacyEntryData {
    bytes: Vec<u8>,
}

impl View for LegacyEntryData {
    type V = Seq<u8>;

    closed spec fn view(&self) -> Seq<u8> {
        self.bytes@
    }
}

/// Checked legacy bytes: the entry type block and the data blocks are valid.
proof fn lemma_legacy_ok(b: Seq<u8>)
    requires
        legacy_check(b) is Ok,
    ensures
        b.len() >= 2,
        legacy_type_end(b) <= b.len(),
        valid_utf8(b.subrange(2, legacy_type_end(b))),
        blocks_ok(b, legacy_type_end(b)),
{
    lemma_identifier_valid_utf8(b.subrange(2, legacy_type_end(b)));
    assert(legacy_blocks_check(b, legacy_type_end(b), Seq::empty()) is Ok);
}

/// Serialize entry data in the legacy format.
pub open spec fn legacy_blocks(f: ByteFields) -> Seq<u8>
    decreases f.len(),
{
    if f.len() == 0 {
        Seq::empty()
    } else {
        let k = f.last().0;
        let v = f.last().1;
        legacy_blocks(f.drop_last()) + seq![
            k.len() as u8,
            (v.len() % 256) as u8,
            (v.len() / 256) as u8,
        ] + k + v
    }
}

/// The legacy bytes of an entry type and fields.
pub open spec fn legacy_bytes(et: Seq<u8>, f: ByteFields) -> Seq<u8> {
    seq![0u8, et.len() as u8] + et + legacy_blocks(f)
}

/// The legacy bytes of entry data.
pub open spec fn legacy_of<D: EntryData + ?Sized>(d: &D) -> Seq<u8> {
    legacy_bytes(encode_utf8(d.entry_type_view()), encode_fields(d.fields_view()))
}

/// The lengths fit the headers of the legacy format.
pub open spec fn legacy_fits(et: Seq<u8>, f: ByteFields) -> bool {
    &&& et.len() <= 255
    &&& forall|i: int| 0 <= i < f.len() ==> (#[trigger] f[i]).0.len() <= 255 && f[i].1.len() <= 65535
}

/// The data block of one field.
pub open spec fn legacy_block(p: (Seq<u8>, Seq<u8>)) -> Seq<u8> {
    seq![p.0.len() as u8, (p.1.len() % 256) as u8, (p.1.len() / 256) as u8] + p.0 + p.1
}

proof fn lemma_legacy_blocks_split(f: ByteFields, i: int)
    requires
        0 <= i <= f.len(),
    ensures
        legacy_blocks(f) == legacy_blocks(f.take(i)) + legacy_blocks(f.skip(i)),
    decreases f.len(),
{
    if i == f.len() {
        assert(f.take(i) =~= f);
        assert(f.skip(i) =~= Seq::<(Seq<u8>, Seq<u8>)>::empty());
        assert(legacy_blocks(f) =~= legacy_blocks(f.take(i)) + legacy_blocks(f.skip(i)));
    } else {
        let prev = f.drop_last();
        lemma_legacy_blocks_split(prev, i);
        assert(prev.take(i) =~= f.take(i));
        assert(f.skip(i).drop_last() =~= prev.skip(i));
        assert(f.skip(i).last() == f.last());
        assert(legacy_blocks(f) =~= legacy_blocks(f.take(i)) + legacy_blocks(f.skip(i)));
    }
}

proof fn lemma_legacy_blocks_first(g: ByteFields)
    requires
        g.len() > 0,
    ensures
        legacy_blocks(g) == legacy_block(g[0]) + legacy_blocks(g.skip(1)),
{
    lemma_legacy_blocks_split(g, 1);
    let t = g.take(1);
    assert(t.drop_last() =~= Seq::<(Seq<u8>, Seq<u8>)>::empty());
    assert(legacy_blocks(t.drop_last()) =~= Seq::<u8>::empty());
    assert(t.last() == g[0]);
    assert(legacy_blocks(t) =~= legacy_block(g[0]));
}

proof fn lemma_legacy_blocks_len(f: ByteFields)
    ensures
        legacy_blocks(f).len() >= 3 * f.len(),
    decreases f.len(),
{
    if f.len() > 0 {
        lemma_legacy_blocks_len(f.drop_last());
    }
}

/// Entry data that the legacy format can store: identifiers for the entry type and the keys,
/// keys sorted, values with balanced `{}`, and lengths that fit the block headers.
pub open spec fn legacy_storable(et: Seq<char>, f: FieldsView) -> bool {
    &&& keys_sorted(f)
    &&& identifier_check(encode_utf8(et)) is Ok
    &&& encode_utf8(et).len() <= 255
    &&& forall|i: int|
        0 <= i < f.len() ==> {
            &&& identifier_check(encode_utf8(#[trigger] f[i].0)) is Ok
            &&& encode_utf8(f[i].0).len() <= 255
            &&& brace_check(encode_utf8(f[i].1)) is Ok
            &&& encode_utf8(f[i].1).len() <= 65535
        }
}

proof fn lemma_legacy_read_block(
    b: Seq<u8>,
    c: int,
    p: (Seq<u8>, Seq<u8>),
    rest: Seq<u8>,
)
    requires
        0 <= c <= b.len(),
        b.subrange(c, b.len() as int) == legacy_block(p) + rest,
        1 <= p.0.len() <= 255,
        p.1.len() <= 65535,
    ensures
        c + 3 <= b.len(),
        b[c] == p.0.len(),
        block_value_len(b, c) == p.1.len(),
        b.subrange(c + 3, c + 3 + p.0.len()) == p.0,
        b.subrange(c + 3 + p.0.len(), c + 3 + p.0.len() + p.1.len()) == p.1,
        c + 3 + p.0.len() + p.1.len() + rest.len() == b.len(),
{
    let blk = legacy_block(p);
    let tail = b.subrange(c, b.len() as int);
    assert(blk.len() == 3 + p.0.len() + p.1.len());
    assert(tail.len() == blk.len() + rest.len());
    assert(tail[0] == b[c]);
    assert(tail[1] == b[c + 1]);
    assert(tail[2] == b[c + 2]);
    assert(b.subrange(c + 3, c + 3 + p.0.len()) =~= p.0) by {
        assert forall|j: int| 0 <= j < p.0.len() implies b.subrange(c + 3, c + 3 + p.0.len())[j]
            == p.0[j] by {
            assert(b[c + 3 + j] == tail[3 + j]);
        }
    }
    let vs = c + 3 + p.0.len();
    assert(b.subrange(vs, vs + p.1.len()) =~= p.1) by {
        assert forall|j: int| 0 <= j < p.1.len() implies b.subrange(vs, vs + p.1.len())[j]
            == p.1[j] by {
            assert(b[vs + j] == tail[3 + p.0.len() + j]);
        }
    }
}

proof fn lemma_legacy_blocks_from(
    b: Seq<u8>,
    c: int,
    f: ByteFields,
    fv: FieldsView,
    prev: Seq<u8>,
)
    requires
        keys_sorted(fv),
        fv.len() > 0 ==> bytes_lt(prev, encode_utf8(fv[0].0)),
        0 <= c <= b.len(),
        b.subrange(c, b.len() as int) == legacy_blocks(f),
        f == encode_fields(fv),
        forall|i: int|
            0 <= i < fv.len() ==> {
                &&& identifier_check(encode_utf8(#[trigger] fv[i].0)) is Ok
                &&& encode_utf8(fv[i].0).len() <= 255
                &&& brace_check(encode_utf8(fv[i].1)) is Ok
                &&& encode_utf8(fv[i].1).len() <= 65535
            },
    ensures
        legacy_blocks_check(b, c, prev) is Ok,
        legacy_fields_from(b, c) == fv,
    decreases f.len(),
{
    if f.len() == 0 {
        assert(b.subrange(c, b.len() as int).len() == 0);
        assert(fv.len() == 0);
        assert(legacy_fields_from(b, c) =~= fv);
    } else {
        let p = f[0];
        lemma_legacy_blocks_first(f);
        assert(p == (encode_utf8(fv[0].0), encode_utf8(fv[0].1)));
        assert(identifier_check(encode_utf8(fv[0].0)) is Ok);
        crate::ident::lemma_identifier_check_ok(encode_utf8(fv[0].0));
        lemma_legacy_read_block(b, c, p, legacy_blocks(f.skip(1)));
        let ve = c + 3 + p.0.len() + p.1.len();
        vstd::utf8::encode_utf8_valid_utf8(fv[0].1);
        vstd::utf8::encode_utf8_decode_utf8(fv[0].0);
        vstd::utf8::encode_utf8_decode_utf8(fv[0].1);
        let fv2 = fv.skip(1);
        assert(f.skip(1) =~= encode_fields(fv2));
        assert(b.subrange(ve, b.len() as int) =~= legacy_blocks(f.skip(1))) by {
            let tail = b.subrange(c, b.len() as int);
            assert forall|j: int| 0 <= j < b.len() - ve implies b.subrange(ve, b.len() as int)[j]
                == legacy_blocks(f.skip(1))[j] by {
                assert(b[ve + j] == tail[ve - c + j]);
            }
        }
        assert forall|i: int| 0 <= i < fv2.len() implies {
            &&& identifier_check(encode_utf8(#[trigger] fv2[i].0)) is Ok
            &&& encode_utf8(fv2[i].0).len() <= 255
            &&& brace_check(encode_utf8(fv2[i].1)) is Ok
            &&& encode_utf8(fv2[i].1).len() <= 65535
        } by {
            assert(fv2[i] == fv[i + 1]);
        }
        assert(keys_sorted(fv2)) by {
            assert forall|i: int, j: int| 0 <= i < j < fv2.len() implies key_lt(
                #[trigger] fv2[i].0,
                #[trigger] fv2[j].0,
            ) by {
                assert(fv2[i] == fv[i + 1] && fv2[j] == fv[j + 1]);
            }
        }
        if fv2.len() > 0 {
            assert(fv2[0] == fv[1]);
            assert(key_lt(fv[0].0, fv[1].0));
        }
        lemma_legacy_blocks_from(b, ve, f.skip(1), fv2, p.0);
        assert(legacy_fields_from(b, c) =~= seq![fv[0]] + fv2);
        assert(fv =~= seq![fv[0]] + fv2);
    }
}

/// Legacy bytes written for storable entry data pass the format check and read back as the
/// entry type and fields that were written.
pub proof fn lemma_legacy_roundtrip(et: Seq<char>, fv: FieldsView)
    requires
        legacy_storable(et, fv),
    ensures
        ({
            let b = legacy_bytes(encode_utf8(et), encode_fields(fv));
            &&& legacy_check(b) is Ok
            &&& legacy_entry_type(b) == et
            &&& legacy_fields_from(b, legacy_type_end(b)) == fv
        }),
{
    let e = encode_utf8(et);
    let f = encode_fields(fv);
    let b = legacy_bytes(e, f);
    crate::ident::lemma_identifier_check_ok(e);
    vstd::utf8::encode_utf8_decode_utf8(et);
    assert(b.subrange(2, 2 + e.len() as int) =~= e);
    assert(b[1] == e.len());
    let c: int = 2 + e.len() as int;
    assert(b.subrange(c, b.len() as int) =~= legacy_blocks(f));
    if fv.len() > 0 {
        crate::ident::lemma_identifier_check_ok(encode_utf8(fv[0].0));
        assert(bytes_lt(Seq::empty(), encode_utf8(fv[0].0)));
    }
    lemma_legacy_blocks_from(b, c, f, fv, Seq::empty());
}

/// Serialize entry data in the legacy format.
pub fn archive<D: EntryData + ?Sized>(entry_data: &D) -> (r: Vec<u8>)
    requires
        legacy_fits(encode_utf8(entry_data.entry_type_view()), encode_fields(entry_data.fields_view())),
    ensures
        r@ == legacy_of(entry_data),
{
    let ghost ef = encode_fields(entry_data.fields_view());
    let mut data: Vec<u8> = Vec::new();
    data.push(0);
    let entry_type = entry_data.entry_type();
    let etb = entry_type.inner().as_bytes();
    data.push(etb.len() as u8);
    extend_bytes(&mut data, etb);
    let ghost head = data@;
    let n = entry_data.count_fields();
    let mut i: usize = 0;
    assert(ef.take(0) =~= Seq::<(Seq<u8>, Seq<u8>)>::empty());
    while i < n
        invariant
            n == ef.len(),
            ef == encode_fields(entry_data.fields_view()),
            legacy_fits(encode_utf8(entry_data.entry_type_view()), ef),
            i <= n,
            data@ == head + legacy_blocks(ef.take(i as int)),
        decreases n - i,
    {
        let (key, value) = entry_data.field_at(i);
        let kb = key.inner().as_bytes();
        let vb = value.inner().as_bytes();
        proof {
            assert(ef.take(i + 1).drop_last() =~= ef.take(i as int));
            assert(ef.take(i + 1).last() == ef[i as int]);
            assert(ef[i as int].0.len() <= 255 && ef[i as int].1.len() <= 65535);
        }
        let vl = vb.len();
        data.push(kb.len() as u8);
        data.push((vl % 256) as u8);
        data.push((vl / 256) as u8);
        extend_bytes(&mut data, kb);
        extend_bytes(&mut data, vb);
        i = i + 1;
        assert(data@ =~= head + legacy_blocks(ef.take(i as int)));
    }
    assert(ef.take(n as int) =~= ef);
    assert(data@ =~= legacy_of(entry_data));
    data
}

impl LegacyEntryData {
    #[verifier::type_invariant]
    spec fn inv(self) -> bool {
        legacy_check(self.bytes@) is Ok
    }

    /// Obtain the underlying bytes.
    pub fn as_bytes(&self) -> (r: &[u8])
        ensures
            r@ == self@,
            legacy_check(r@) is Ok,
    {
        proof {
            use_type_invariant(self);
        }
        self.bytes.as_slice()
    }

    /// Check that bytes are in the legacy format.
    pub fn validate(bytes: &[u8]) -> (r: Result<(), InvalidBytesError>)
        ensures
            r == legacy_check(bytes@),
    {
        if bytes.len() == 0 {
            return Err(InvalidBytesError::new(0, "data was empty"));
        }
        if bytes[0] != 0 {
            return Err(InvalidBytesError::new(0, "invalid version"));
        }
        let mut cursor = match Self::check_type(bytes, 1) {
            Ok(c) => c,
            Err(e) => return Err(e),
        };
        let mut prev_start: usize = 0;
        let mut prev_end: usize = 0;
        assert(bytes@.subrange(0, 0) =~= Seq::<u8>::empty());
        loop
            invariant
                cursor <= bytes@.len(),
                prev_start <= prev_end <= bytes@.len(),
                legacy_check(bytes@) == legacy_blocks_check(
                    bytes@,
                    cursor as int,
                    bytes@.subrange(prev_start as int, prev_end as int),
                ),
            decreases bytes@.len() - cursor,
        {
            match Self::check_data_block(bytes, cursor, prev_start, prev_end) {
                Err(e) => return Err(e),
                Ok(None) => return Ok(()),
                Ok(Some(next)) => {
                    prev_start = cursor + 3;
                    prev_end = cursor + 3 + bytes[cursor] as usize;
                    cursor = next;
                },
            }
        }
    }

    /// Load the provided bytes, first checking that they are valid.
    pub fn load(bytes: Vec<u8>) -> (r: Result<Self, InvalidBytesError>)
        ensures
            r is Ok <==> legacy_check(bytes@) is Ok,
            r matches Ok(d) ==> d@ == bytes@,
            r matches Err(e) ==> legacy_check(bytes@) == Err::<(), InvalidBytesError>(e),
    {
        match Self::validate(bytes.as_slice()) {
            Ok(()) => Ok(LegacyEntryData { bytes }),
            Err(e) => Err(e),
        }
    }

    /// Load bytes which the caller knows to be in the legacy format.
    pub fn load_unchecked(buf: Vec<u8>) -> (r: Self)
        requires
            legacy_check(buf@) is Ok,
        ensures
            r@ == buf@,
    {
        LegacyEntryData { bytes: buf }
    }

    /// Access the provided bytes, first checking that they are valid. The bytes are copied.
    pub fn access(bytes: &[u8]) -> (r: Result<Self, InvalidBytesError>)
        ensures
            r is Ok <==> legacy_check(bytes@) is Ok,
            r matches Ok(d) ==> d@ == bytes@,
            r matches Err(e) ==> legacy_check(bytes@) == Err::<(), InvalidBytesError>(e),
    {
        match Self::validate(bytes) {
            Ok(()) => Ok(LegacyEntryData { bytes: vstd::slice::slice_to_vec(bytes) }),
            Err(e) => Err(e),
        }
    }

    /// Access bytes which the caller knows to be in the legacy format. The bytes are copied.
    pub fn access_unchecked(b: &[u8]) -> (r: Self)
        requires
            legacy_check(b@) is Ok,
        ensures
            r@ == b@,
    {
        LegacyEntryData { bytes: vstd::slice::slice_to_vec(b) }
    }

    /// Construct the legacy representation of entry data which the format can store.
    pub fn from_entry_data<D: EntryData + ?Sized>(data: &D) -> (r: Self)
        requires
            legacy_storable(data.entry_type_view(), data.fields_view()),
        ensures
            r@ == legacy_of(data),
            r.entry_type_view() == data.entry_type_view(),
            r.fields_view() == data.fields_view(),
    {
        proof {
            let ef = encode_fields(data.fields_view());
            assert forall|i: int| 0 <= i < ef.len() implies (#[trigger] ef[i]).0.len() <= 255
                && ef[i].1.len() <= 65535 by {
                assert(ef[i] == (encode_utf8(data.fields_view()[i].0), encode_utf8(
                    data.fields_view()[i].1,
                )));
            }
            lemma_legacy_roundtrip(data.entry_type_view(), data.fields_view());
        }
        let bytes = archive(data);
        LegacyEntryData { bytes }
    }

    /// Check that the entry type block at `cursor` is valid, returning where it ends.
    fn check_type(data: &[u8], cursor: usize) -> (r: Result<usize, InvalidBytesError>)
        requires
            cursor <= data@.len(),
        ensures
            match r {
                Ok(e) => legacy_type_check(data@, cursor as int) == Ok::<int, InvalidBytesError>(
                    e as int,
                ),
                Err(x) => legacy_type_check(data@, cursor as int) == Err::<int, InvalidBytesError>(x),
            },
    {
        if cursor >= data.len() {
            return Err(InvalidBytesError::new(cursor, "missing entry type"));
        }
        let entry_type_len = data[cursor] as usize;
        if entry_type_len == 0 {
            return Err(InvalidBytesError::new(cursor, "entry type cannot have length zero"));
        }
        let entry_type_start = cursor + 1;
        if entry_type_len > data.len() - entry_type_start {
            return Err(InvalidBytesError::new(entry_type_start, "entry type shorter than header"));
        }
        let entry_type_end = entry_type_start + entry_type_len;
        let entry_type_bytes = slice_subrange(data, entry_type_start, entry_type_end);
        if validate_ascii_identifier(entry_type_bytes).is_err() {
            return Err(
                InvalidBytesError::new(
                    entry_type_start,
                    "entry type contains non-ASCII chararacters or invalid ASCII characters",
                ),
            );
        }
        Ok(entry_type_end)
    }

    /// Check that the data block at `cursor` is valid: `None` when there are no more blocks,
    /// and otherwise where the block ends.
    fn check_data_block(data: &[u8], cursor: usize, prev_start: usize, prev_end: usize) -> (r: Result<
        Option<usize>,
        InvalidBytesError,
    >)
        requires
            cursor <= data@.len(),
            prev_start <= prev_end <= data@.len(),
        ensures
            match r {
                Ok(None) => legacy_block_check(data@, cursor as int, data@.subrange(prev_start as int, prev_end as int)) == Ok::<
                    Option<int>,
                    InvalidBytesError,
                >(None),
                Ok(Some(e)) => legacy_block_check(data@, cursor as int, data@.subrange(prev_start as int, prev_end as int)) == Ok::<
                    Option<int>,
                    InvalidBytesError,
                >(Some(e as int)) && cursor + 3 + data@[cursor as int] <= e <= data@.len() && cursor < e,
                Err(x) => legacy_block_check(data@, cursor as int, data@.subrange(prev_start as int, prev_end as int)) == Err::<
                    Option<int>,
                    InvalidBytesError,
                >(x),
            },
    {
        let rest = data.len() - cursor;
        if rest == 0 {
            return Ok(None);
        }
        if rest < 3 {
            return Err(InvalidBytesError::new(cursor, "incomplete data block header"));
        }
        let key_len = data[cursor] as usize;
        if key_len == 0 {
            return Err(InvalidBytesError::new(cursor, "key cannot have length zero"));
        }
        let value_len = data[cursor + 1] as usize + 256 * (data[cursor + 2] as usize);
        let key_block_start = cursor + 3;
        if key_len > data.len() - key_block_start {
            return Err(InvalidBytesError::new(key_block_start, "key block shorter than header"));
        }
        let value_block_start = key_block_start + key_len;
        if value_len > data.len() - value_block_start {
            return Err(
                InvalidBytesError::new(value_block_start, "value block shorter than header"),
            );
        }
        let value_block_end = value_block_start + value_len;
        let key_bytes = slice_subrange(data, key_block_start, value_block_start);
        let value_bytes = slice_subrange(data, value_block_start, value_block_end);
        proof {
            lemma_depth_fits_short(value_bytes@);
        }
        if !is_balanced(value_bytes) {
            return Err(InvalidBytesError::new(value_block_start, "value has unbalanced `{}`"));
        }
        if validate_ascii_identifier(key_bytes).is_err() {
            return Err(
                InvalidBytesError::new(
                    key_block_start,
                    "field key contains non-ASCII chararacters or invalid ASCII characters",
                ),
            );
        }
        match str_from_utf8(value_bytes) {
            Ok(_) => {},
            Err(e) => {
                proof {
                    lemma_valid_up_to_unique(value_bytes@, e.1 as int);
                }
                return Err(
                    InvalidBytesError::new(
                        value_block_start + e.1,
                        "value block has invalid utf-8 starting at position",
                    ),
                );
            },
        }
        let prev = slice_subrange(data, prev_start, prev_end);
        match compare_bytes(prev, key_bytes) {
            ByteOrder::Less => {},
            _ => {
                return Err(InvalidBytesError::new(key_block_start, "data blocks are not sorted by key"));
            },
        }
        Ok(Some(value_block_end))
    }

    /// The data blocks of the bytes, for iteration over the fields.
    pub fn raw_fields(&self) -> (r: LegacyFieldsIter<'_>)
        ensures
            r@ == self.fields_view(),
    {
        proof {
            use_type_invariant(self);
            lemma_legacy_ok(self.bytes@);
        }
        let b = self.bytes.as_slice();
        let cursor = 2 + b[1] as usize;
        LegacyFieldsIter { data: b, cursor }
    }
}

/// Iterates over the `(key, value)` blocks of legacy data.
pub struct LegacyFieldsIter<'a> {
    data: &'a [u8],
    cursor: usize,
}

impl<'a> View for LegacyFieldsIter<'a> {
    type V = FieldsView;

    closed spec fn view(&self) -> FieldsView {
        legacy_fields_from(self.data@, self.cursor as int)
    }
}

impl<'a> LegacyFieldsIter<'a> {
    #[verifier::type_invariant]
    spec fn inv(self) -> bool {
        blocks_ok(self.data@, self.cursor as int)
    }

    /// The next `(key, value)` block, if any.
    pub fn next(&mut self) -> (r: Option<(FieldKeyRef<'a>, FieldValueRef<'a>)>)
        ensures
            old(self)@.len() == 0 ==> r is None && final(self)@ == old(self)@,
            old(self)@.len() > 0 ==> (r matches Some(p) && (p.0@, p.1@) == old(self)@[0]
                && final(self)@ == old(self)@.drop_first()),
    {
        proof {
            use_type_invariant(&*self);
        }
        let b = self.data;
        let c = self.cursor;
        if c < b.len() {
            proof {
                lemma_block_ok(b@, c as int);
            }
            let key_len = b[c] as usize;
            let value_len = b[c + 1] as usize + 256 * (b[c + 2] as usize);
            let ks = c + 3;
            let vs = ks + key_len;
            let ve = vs + value_len;
            let key = checked_str(slice_subrange(b, ks, vs));
            let value = checked_str(slice_subrange(b, vs, ve));
            self.cursor = ve;
            Some((FieldKeyRef::from_str_unchecked(key), FieldValueRef::from_str_unchecked(value)))
        } else {
            None
        }
    }
}

impl EntryData for LegacyEntryData {
    open spec fn entry_type_view(&self) -> Seq<char> {
        legacy_entry_type(self@)
    }

    open spec fn fields_view(&self) -> FieldsView {
        legacy_fields_from(self@, legacy_type_end(self@))
    }

    fn entry_type(&self) -> (r: EntryTypeRef<'_>) {
        proof {
            use_type_invariant(self);
            lemma_legacy_ok(self.bytes@);
        }
        let b = self.bytes.as_slice();
        let end = 2 + b[1] as usize;
        EntryTypeRef::from_str_unchecked(checked_str(slice_subrange(b, 2, end)))
    }

    fn count_fields(&self) -> (r: usize) {
        proof {
            use_type_invariant(self);
            lemma_legacy_ok(self.bytes@);
            lemma_legacy_fields_len(self.bytes@, legacy_type_end(self.bytes@));
        }
        let blen = self.bytes.len();
        let mut it = self.raw_fields();
        let mut n: usize = 0;
        loop
            invariant
                n + it@.len() == self.fields_view().len(),
                self.fields_view().len() <= self@.len(),
                self@.len() == blen,
            decreases it@.len(),
        {
            match it.next() {
                Some(_) => {
                    n = n + 1;
                },
                None => {
                    return n;
                },
            }
        }
    }

    fn field_at(&self, i: usize) -> (r: (FieldKeyRef<'_>, FieldValueRef<'_>)) {
        let mut it = self.raw_fields();
        let mut j: usize = 0;
        while j < i
            invariant
                j <= i,
                i < self.fields_view().len(),
                it@ == self.fields_view().skip(j as int),
            decreases i - j,
        {
            let _ = it.next();
            j = j + 1;
            assert(it@ =~= self.fields_view().skip(j as int));
        }
        match it.next() {
            Some(p) => p,
            None => {
                proof {
                    assert(false);
                }
                (FieldKeyRef::from_str_unchecked(""), FieldValueRef::from_str_unchecked(""))
            },
        }
    }
}

} // verus!
