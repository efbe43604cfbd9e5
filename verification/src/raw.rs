//! The raw binary format for entry data.
//!
//! All `u32` values are stored in little-endian order.
//! ```text
//! | <- HEADER                -> | <- FIELDS                          -> | <- DATA                 -> |
//! | entry_type_len | num_fields | (key_idx, key_len, val_idx, val_len)* | entry_type.. keys.. vals.. |
//! | u32            | u32        | (u32, u32, u32, u32)*                 | str
//! ```
//!
//! The `DATA` block is one contiguous Utf-8 string holding the entry type, then each key
//! followed by its value. The fields are contiguous and each index is a char boundary.

use crate::data::archive::{
    checked_str, encode_fields, field_table, lemma_boundary_concat, lemma_data_split,
    lemma_field_table_entry, lemma_field_table_len, lemma_le_same, lemma_payload_len_eq,
    lemma_payload_len_nonneg, lemma_payload_len_take, lemma_payload_valid, lemma_piece_valid,
    lemma_table_entry_values, lemma_table_step, payload, payload_len, piece_valid, pieces_valid,
    table_entry, ByteFields,
};
use crate::data::{
    compare_keys, key_lt, keys_sorted, lemma_key_lt_total, lemma_key_lt_transitive,
    lemma_sorted_match, lemma_sorted_no_match, Archive, EntryData, FieldsView,
};
use crate::encoding::{
    extend_bytes, le_bytes, le_u32_at, lemma_le_bytes_roundtrip, push_u32_le, read_u32_le,
    str_from_utf8, ByteOrder,
};
use crate::error::{AccessError, AccessFault};
use crate::ident::{EntryTypeRef, FieldKeyRef, FieldValueRef};
use vstd::prelude::*;
use vstd::slice::slice_subrange;
use vstd::string::StringSliceAdditionalSpecFns;
use vstd::utf8::{decode_utf8, encode_utf8, is_char_boundary, valid_utf8};

verus! {

/// The entry type length recorded in the header.
pub open spec fn raw_type_len(b: Seq<u8>) -> int {
    le_u32_at(b, 0)
}

/// The number of fields recorded in the header.
pub open spec fn raw_num_fields(b: Seq<u8>) -> int {
    le_u32_at(b, 4)
}

/// Where the `DATA` block starts.
pub open spec fn raw_data_start(b: Seq<u8>) -> int {
    8 + 16 * raw_num_fields(b)
}

/// The key index of field `i`.
pub open spec fn raw_key_idx(b: Seq<u8>, i: int) -> int {
    le_u32_at(b, 8 + 16 * i)
}

/// The key length of field `i`.
pub open spec fn raw_key_len(b: Seq<u8>, i: int) -> int {
    le_u32_at(b, 8 + 16 * i + 4)
}

/// The value index of field `i`.
pub open spec fn raw_val_idx(b: Seq<u8>, i: int) -> int {
    le_u32_at(b, 8 + 16 * i + 8)
}

/// The value length of field `i`.
pub open spec fn raw_val_len(b: Seq<u8>, i: int) -> int {
    le_u32_at(b, 8 + 16 * i + 12)
}

/// The outcome of checking the fields from `i` on, where the data of field `i` is expected
/// to start at `kv`; on success, where the data of the last field ends.
pub open spec fn raw_check_fields_from(b: Seq<u8>, i: int, kv: int) -> Result<int, AccessFault>
    decreases raw_num_fields(b) - i,
{
    if i < 0 || i >= raw_num_fields(b) {
        Ok(kv)
    } else {
        let ds = raw_data_start(b);
        let data = b.skip(ds);
        if kv != raw_key_idx(b, i) {
            Err(AccessFault::InvalidIndex(i as usize))
        } else if kv + raw_key_len(b, i) != raw_val_idx(b, i) {
            Err(AccessFault::InvalidIndex(i as usize))
        } else if !is_char_boundary(data, raw_key_idx(b, i) - ds) {
            Err(AccessFault::InvalidStrOffset(i as usize))
        } else if !is_char_boundary(data, raw_val_idx(b, i) - ds) {
            Err(AccessFault::InvalidStrOffset(i as usize))
        } else {
            raw_check_fields_from(b, i + 1, kv + raw_key_len(b, i) + raw_val_len(b, i))
        }
    }
}

/// The outcome of checking that `b` is in the raw format.
pub open spec fn raw_check(b: Seq<u8>) -> Result<(), AccessFault> {
    if b.len() < 8 {
        Err(AccessFault::InvalidHeader)
    } else if b.len() < raw_data_start(b) {
        Err(AccessFault::IncompleteFields)
    } else if !valid_utf8(b.skip(raw_data_start(b))) {
        Err(AccessFault::InvalidUtf8)
    } else {
        match raw_check_fields_from(b, 0, raw_data_start(b) + raw_type_len(b)) {
            Err(e) => Err(e),
            Ok(end) => if end != b.len() {
                Err(AccessFault::TrailingBytes(end as usize))
            } else {
                Ok(())
            },
        }
    }
}

/// Check that raw bytes are in the raw format.
fn validate(bytes: &[u8]) -> (r: Result<(), AccessError>)
    ensures
        r is Ok <==> raw_check(bytes@) is Ok,
        r matches Err(e) ==> raw_check(bytes@) == Err::<(), AccessFault>(e@),
{
    if bytes.len() < 8 {
        return Err(AccessError::InvalidHeader);
    }
    let type_len = read_u32_le(bytes, 0) as u64;
    let num_fields = read_u32_le(bytes, 4) as u64;
    let data_start: u64 = 8 + 16 * num_fields;
    if data_start > bytes.len() as u64 {
        return Err(AccessError::IncompleteFields);
    }
    let ds = data_start as usize;
    let data = slice_subrange(bytes, ds, bytes.len());
    let data_str = match str_from_utf8(data) {
        Ok(s) => s,
        Err(e) => {
            proof {
                assert(data@ =~= bytes@.skip(ds as int));
            }
            return Err(AccessError::InvalidUtf8(e.0));
        },
    };
    assert(data@ =~= bytes@.skip(ds as int));
    let ghost b = bytes@;
    let mut kv: u64 = data_start + type_len;
    let mut idx: u64 = 0;
    while idx < num_fields
        invariant
            b == bytes@,
            b.len() >= 8,
            num_fields == raw_num_fields(b),
            data_start == raw_data_start(b),
            data_start <= b.len(),
            data_str.spec_bytes() == b.skip(data_start as int),
            valid_utf8(b.skip(data_start as int)),
            idx <= num_fields,
            data_start <= kv <= data_start + 0x4_0000_0000,
            raw_check_fields_from(b, 0, data_start + raw_type_len(b)) == raw_check_fields_from(
                b,
                idx as int,
                kv as int,
            ),
        decreases num_fields - idx,
    {
        let off = (8 + 16 * idx) as usize;
        let k_idx = read_u32_le(bytes, off) as u64;
        let k_len = read_u32_le(bytes, off + 4) as u64;
        let v_idx = read_u32_le(bytes, off + 8) as u64;
        let v_len = read_u32_le(bytes, off + 12) as u64;
        if kv != k_idx {
            return Err(AccessError::InvalidIndex(idx as usize));
        }
        if kv + k_len != v_idx {
            return Err(AccessError::InvalidIndex(idx as usize));
        }
        if !data_str.is_char_boundary((k_idx - data_start) as usize) {
            return Err(AccessError::InvalidStrOffset(idx as usize));
        }
        if !data_str.is_char_boundary((v_idx - data_start) as usize) {
            return Err(AccessError::InvalidStrOffset(idx as usize));
        }
        kv = kv + k_len + v_len;
        idx = idx + 1;
    }
    if kv != bytes.len() as u64 {
        return Err(AccessError::TrailingBytes(kv as usize));
    }
    Ok(())
}

/// The length of the raw bytes of an entry type and fields.
pub open spec fn raw_len(et: Seq<u8>, f: ByteFields) -> int {
    8 + 16 * f.len() + et.len() + payload_len(f)
}

/// The header of the raw bytes of `et` and `f`.
pub open spec fn raw_header(et: Seq<u8>, f: ByteFields) -> Seq<u8> {
    le_bytes(et.len() as u32) + le_bytes(f.len() as u32)
}

/// The raw bytes of an entry type and fields.
#[verifier::opaque]
pub open spec fn raw_bytes(et: Seq<u8>, f: ByteFields) -> Seq<u8> {
    let ds: int = 8 + 16 * (f.len() as int);
    le_bytes(et.len() as u32) + le_bytes(f.len() as u32) + field_table(f, ds + et.len()) + et
        + payload(f)
}

/// The raw bytes of entry data.
pub open spec fn raw_of<D: EntryData + ?Sized>(data: &D) -> Seq<u8> {
    raw_bytes(encode_utf8(data.entry_type_view()), encode_fields(data.fields_view()))
}

/// Entry data that fits in the raw format.
pub open spec fn raw_fits<D: EntryData + ?Sized>(data: &D) -> bool {
    raw_len(encode_utf8(data.entry_type_view()), encode_fields(data.fields_view())) < u32::MAX
}

/// The entry type held by raw bytes, read from the start of the `DATA` block.
pub open spec fn raw_entry_type_of(b: Seq<u8>) -> Seq<char> {
    decode_utf8(b.subrange(raw_data_start(b), raw_data_start(b) + raw_type_len(b)))
}

/// The key and value of field `i` held by raw bytes.
pub open spec fn raw_field_of(b: Seq<u8>, i: int) -> (Seq<char>, Seq<char>) {
    (
        decode_utf8(b.subrange(raw_key_idx(b, i), raw_key_idx(b, i) + raw_key_len(b, i))),
        decode_utf8(b.subrange(raw_val_idx(b, i), raw_val_idx(b, i) + raw_val_len(b, i))),
    )
}

/// The fields held by raw bytes.
pub open spec fn raw_fields_of(b: Seq<u8>) -> FieldsView {
    Seq::new(raw_num_fields(b) as nat, |i: int| raw_field_of(b, i))
}

/// Serialize entry data in the raw format.
#[verifier::rlimit(30)]
pub fn serialize<D: EntryData + ?Sized>(data: &D) -> (r: Vec<u8>)
    requires
        raw_fits(data),
    ensures
        r@ == raw_of(data),
{
    let ghost ef = encode_fields(data.fields_view());
    let ghost etv = encode_utf8(data.entry_type_view());
    let et = data.entry_type();
    let etb = et.inner().as_bytes();
    let n = data.count_fields();
    proof {
        lemma_payload_len_nonneg(ef);
    }
    let mut out: Vec<u8> = Vec::new();
    push_u32_le(&mut out, etb.len() as u32);
    push_u32_le(&mut out, n as u32);
    let ghost header = out@;
    assert(header =~= le_bytes(etv.len() as u32) + le_bytes(n as u32));
    let ds: usize = 8 + 16 * n;
    let ghost base: int = ds + etv.len();
    let mut offset: usize = ds + etb.len();
    let mut i: usize = 0;
    assert(ef.take(0) =~= Seq::<(Seq<u8>, Seq<u8>)>::empty());
    while i < n
        invariant
            n == data.fields_view().len(),
            ef == encode_fields(data.fields_view()),
            etv == encode_utf8(data.entry_type_view()),
            raw_fits(data),
            ds == 8 + 16 * n,
            base == ds + etv.len(),
            i <= n,
            out@ == header + field_table(ef.take(i as int), base),
            offset == base + payload_len(ef.take(i as int)),
        decreases n - i,
    {
        let (k, v) = data.field_at(i);
        let kb = k.inner().as_bytes();
        let vb = v.inner().as_bytes();
        proof {
            lemma_table_step(ef, base, i as int);
            lemma_payload_len_take(ef, i + 1);
        }
        push_u32_le(&mut out, offset as u32);
        push_u32_le(&mut out, kb.len() as u32);
        push_u32_le(&mut out, (offset + kb.len()) as u32);
        push_u32_le(&mut out, vb.len() as u32);
        offset = offset + kb.len() + vb.len();
        i = i + 1;
        assert(out@ =~= header + field_table(ef.take(i as int), base));
    }
    assert(ef.take(n as int) =~= ef);
    extend_bytes(&mut out, etb);
    let ghost table = out@;
    i = 0;
    while i < n
        invariant
            n == data.fields_view().len(),
            ef == encode_fields(data.fields_view()),
            i <= n,
            out@ == table + payload(ef.take(i as int)),
        decreases n - i,
    {
        let (k, v) = data.field_at(i);
        proof {
            lemma_table_step(ef, 0, i as int);
        }
        extend_bytes(&mut out, k.inner().as_bytes());
        extend_bytes(&mut out, v.inner().as_bytes());
        i = i + 1;
        assert(out@ =~= table + payload(ef.take(i as int)));
    }
    assert(ef.take(n as int) =~= ef);
    proof {
        lemma_raw_split(etv, ef);
        assert(out@ =~= raw_header(etv, ef) + field_table(ef, base) + (etv + payload(ef)));
    }
    out
}

proof fn lemma_raw_split(et: Seq<u8>, f: ByteFields)
    ensures
        raw_bytes(et, f) == raw_header(et, f) + field_table(
            f,
            (8 + 16 * f.len() + et.len()) as int,
        ) + (et + payload(f)),
        raw_header(et, f).len() == 8,
        field_table(f, (8 + 16 * f.len() + et.len()) as int).len() == 16 * f.len(),
        payload(f).len() == payload_len(f),
        raw_bytes(et, f).len() == raw_len(et, f),
{
    lemma_field_table_len(f, (8 + 16 * f.len() + et.len()) as int);
    lemma_payload_len_eq(f);
    reveal(raw_bytes);
    assert(raw_bytes(et, f) =~= raw_header(et, f) + field_table(
        f,
        (8 + 16 * f.len() + et.len()) as int,
    ) + (et + payload(f)));
}

proof fn lemma_raw_read_entry(b: Seq<u8>, h: Seq<u8>, t: Seq<u8>, rest: Seq<u8>, e: Seq<u8>, i: int)
    requires
        b == h + t + rest,
        h.len() == 8,
        0 <= i,
        16 * i + 16 <= t.len(),
        t.subrange(16 * i, 16 * i + 16) == e,
    ensures
        le_u32_at(b, 8 + 16 * i) == le_u32_at(e, 0),
        le_u32_at(b, 8 + 16 * i + 4) == le_u32_at(e, 4),
        le_u32_at(b, 8 + 16 * i + 8) == le_u32_at(e, 8),
        le_u32_at(b, 8 + 16 * i + 12) == le_u32_at(e, 12),
{
    assert forall|k: int| 0 <= k < 16 implies b[8 + 16 * i + k] == #[trigger] e[k] by {
        assert(b[8 + 16 * i + k] == t[16 * i + k]);
        assert(t.subrange(16 * i, 16 * i + 16)[k] == t[16 * i + k]);
    }
    lemma_le_same(b, 8 + 16 * i, e, 0);
    lemma_le_same(b, 8 + 16 * i + 4, e, 4);
    lemma_le_same(b, 8 + 16 * i + 8, e, 8);
    lemma_le_same(b, 8 + 16 * i + 12, e, 12);
}

proof fn lemma_raw_field_meta(et: Seq<u8>, f: ByteFields, i: int)
    requires
        raw_len(et, f) < u32::MAX,
        0 <= i < f.len(),
    ensures
        ({
            let b = raw_bytes(et, f);
            let base: int = (8 + 16 * f.len() + et.len()) as int;
            &&& raw_key_idx(b, i) == base + payload_len(f.take(i))
            &&& raw_key_len(b, i) == f[i].0.len()
            &&& raw_val_idx(b, i) == base + payload_len(f.take(i)) + f[i].0.len()
            &&& raw_val_len(b, i) == f[i].1.len()
        }),
{
    let b = raw_bytes(et, f);
    let base: int = (8 + 16 * f.len() + et.len()) as int;
    lemma_raw_split(et, f);
    lemma_payload_len_nonneg(f);
    lemma_field_table_entry(f, base, i);
    lemma_raw_read_entry(
        b,
        raw_header(et, f),
        field_table(f, base),
        et + payload(f),
        table_entry(f, base, i),
        i,
    );
    lemma_table_entry_values(f, base, i);
}

proof fn lemma_raw_header_fields(et: Seq<u8>, f: ByteFields)
    requires
        raw_len(et, f) < u32::MAX,
    ensures
        ({
            let b = raw_bytes(et, f);
            let ds: int = (8 + 16 * f.len()) as int;
            &&& b.len() >= 8
            &&& raw_num_fields(b) == f.len()
            &&& raw_type_len(b) == et.len()
            &&& raw_data_start(b) == ds
            &&& b.skip(ds) == et + payload(f)
        }),
{
    let b = raw_bytes(et, f);
    let ds: int = (8 + 16 * f.len()) as int;
    lemma_raw_split(et, f);
    lemma_payload_len_nonneg(f);
    let h = raw_header(et, f);
    lemma_le_bytes_roundtrip(f.len() as u32);
    lemma_le_bytes_roundtrip(et.len() as u32);
    assert(b[0] == h[0] && b[1] == h[1] && b[2] == h[2] && b[3] == h[3]);
    assert(b[4] == h[4] && b[5] == h[5] && b[6] == h[6] && b[7] == h[7]);
    lemma_le_same(b, 0, le_bytes(et.len() as u32), 0);
    lemma_le_same(b, 4, le_bytes(f.len() as u32), 0);
    assert(b.skip(ds) =~= et + payload(f));
}

proof fn lemma_raw_boundaries(et: Seq<u8>, f: ByteFields, i: int)
    requires
        raw_len(et, f) < u32::MAX,
        valid_utf8(et),
        pieces_valid(f),
        0 <= i < f.len(),
    ensures
        ({
            let b = raw_bytes(et, f);
            let ds: int = (8 + 16 * f.len()) as int;
            &&& is_char_boundary(b.skip(ds), raw_key_idx(b, i) - ds)
            &&& is_char_boundary(b.skip(ds), raw_val_idx(b, i) - ds)
        }),
{
    let b = raw_bytes(et, f);
    let ds: int = (8 + 16 * f.len()) as int;
    lemma_raw_header_fields(et, f);
    lemma_raw_field_meta(et, f, i);
    lemma_data_split(et, f, i);
    let a = et + payload(f.take(i));
    let c = payload(f.skip(i + 1));
    let data = b.skip(ds);
    vstd::utf8::valid_utf8_concat(f[i].1, c);
    vstd::utf8::valid_utf8_concat(f[i].0, f[i].1 + c);
    lemma_boundary_concat(a, f[i].0 + (f[i].1 + c));
    assert(data =~= a + (f[i].0 + (f[i].1 + c)));
    vstd::utf8::valid_utf8_concat(a, f[i].0);
    lemma_boundary_concat(a + f[i].0, f[i].1 + c);
    assert(data =~= (a + f[i].0) + (f[i].1 + c));
}

#[verifier::rlimit(40)]
proof fn lemma_check_raw_from(et: Seq<u8>, f: ByteFields, i: int)
    requires
        raw_len(et, f) < u32::MAX,
        valid_utf8(et),
        pieces_valid(f),
        0 <= i <= f.len(),
    ensures
        raw_check_fields_from(
            raw_bytes(et, f),
            i,
            8 + 16 * f.len() + et.len() + payload_len(f.take(i)),
        ) == Ok::<int, AccessFault>(raw_len(et, f)),
    decreases f.len() - i,
{
    let b = raw_bytes(et, f);
    lemma_raw_header_fields(et, f);
    lemma_raw_split(et, f);
    if i == f.len() {
        assert(f.take(i) =~= f);
    } else {
        lemma_raw_field_meta(et, f, i);
        lemma_raw_boundaries(et, f, i);
        assert(f.take(i + 1).drop_last() =~= f.take(i));
        assert(f.take(i + 1).last() == f[i]);
        lemma_check_raw_from(et, f, i + 1);
    }
}

/// The bytes that a field key or value is read from hold its encoding.
proof fn lemma_raw_pieces(et: Seq<u8>, f: ByteFields, i: int)
    requires
        raw_len(et, f) < u32::MAX,
        valid_utf8(et),
        pieces_valid(f),
        0 <= i < f.len(),
    ensures
        ({
            let b = raw_bytes(et, f);
            &&& b.subrange(raw_key_idx(b, i), raw_key_idx(b, i) + raw_key_len(b, i)) == f[i].0
            &&& b.subrange(raw_val_idx(b, i), raw_val_idx(b, i) + raw_val_len(b, i)) == f[i].1
        }),
{
    let b = raw_bytes(et, f);
    let ds: int = (8 + 16 * f.len()) as int;
    lemma_raw_header_fields(et, f);
    lemma_raw_split(et, f);
    lemma_raw_field_meta(et, f, i);
    lemma_data_split(et, f, i);
    let a = et + payload(f.take(i));
    let c = payload(f.skip(i + 1));
    assert(b.skip(ds) =~= a + f[i].0 + f[i].1 + c);
    let k = raw_key_idx(b, i);
    assert(b.subrange(k, k + raw_key_len(b, i)) =~= f[i].0) by {
        assert forall|j: int| 0 <= j < f[i].0.len() implies b.subrange(
            k,
            k + raw_key_len(b, i),
        )[j] == f[i].0[j] by {
            assert(b[k + j] == b.skip(ds)[a.len() + j]);
        }
    }
    let v = raw_val_idx(b, i);
    assert(b.subrange(v, v + raw_val_len(b, i)) =~= f[i].1) by {
        assert forall|j: int| 0 <= j < f[i].1.len() implies b.subrange(
            v,
            v + raw_val_len(b, i),
        )[j] == f[i].1[j] by {
            assert(b[v + j] == b.skip(ds)[a.len() + f[i].0.len() + j]);
        }
    }
}

/// Serialized data is accepted by the format check, and reads back as the entry type and
/// the fields that were serialized.
pub proof fn lemma_raw_roundtrip(et: Seq<char>, fv: FieldsView)
    requires
        raw_len(encode_utf8(et), encode_fields(fv)) < u32::MAX,
    ensures
        ({
            let b = raw_bytes(encode_utf8(et), encode_fields(fv));
            &&& raw_check(b) is Ok
            &&& raw_entry_type_of(b) == et
            &&& raw_fields_of(b) == fv
        }),
{
    let e = encode_utf8(et);
    let f = encode_fields(fv);
    let b = raw_bytes(e, f);
    vstd::utf8::encode_utf8_valid_utf8(et);
    vstd::utf8::encode_utf8_decode_utf8(et);
    assert(pieces_valid(f)) by {
        assert forall|i: int| 0 <= i < f.len() implies #[trigger] piece_valid(f[i]) by {
            vstd::utf8::encode_utf8_valid_utf8(fv[i].0);
            vstd::utf8::encode_utf8_valid_utf8(fv[i].1);
        }
    }
    lemma_raw_header_fields(e, f);
    lemma_raw_split(e, f);
    lemma_payload_len_nonneg(f);
    lemma_payload_valid(f);
    vstd::utf8::valid_utf8_concat(e, payload(f));
    assert(f.take(0) =~= Seq::<(Seq<u8>, Seq<u8>)>::empty());
    lemma_check_raw_from(e, f, 0);
    let ds: int = (8 + 16 * f.len()) as int;
    assert(b.subrange(ds, ds + e.len()) =~= e) by {
        assert forall|j: int| 0 <= j < e.len() implies b.subrange(ds, ds + e.len())[j] == e[j] by {
            assert(b[ds + j] == b.skip(ds)[j]);
        }
    }
    assert forall|i: int| 0 <= i < fv.len() implies #[trigger] raw_fields_of(b)[i] == fv[i] by {
        lemma_raw_pieces(e, f, i);
        vstd::utf8::encode_utf8_decode_utf8(fv[i].0);
        vstd::utf8::encode_utf8_decode_utf8(fv[i].1);
    }
    assert(raw_fields_of(b) =~= fv);
}

/// Field `i` of checked raw bytes points inside the `DATA` block, at char boundaries.
pub open spec fn raw_field_ok(b: Seq<u8>, i: int) -> bool {
    let ds = raw_data_start(b);
    let data = b.skip(ds);
    &&& ds <= raw_key_idx(b, i)
    &&& raw_key_idx(b, i) + raw_key_len(b, i) == raw_val_idx(b, i)
    &&& raw_val_idx(b, i) + raw_val_len(b, i) <= b.len()
    &&& is_char_boundary(data, raw_key_idx(b, i) - ds)
    &&& is_char_boundary(data, raw_val_idx(b, i) - ds)
    &&& is_char_boundary(data, raw_val_idx(b, i) + raw_val_len(b, i) - ds)
}

/// Checked raw bytes: the entry type and every field point inside the `DATA` block.
pub open spec fn raw_layout_ok(b: Seq<u8>) -> bool {
    let ds = raw_data_start(b);
    &&& b.len() >= 8
    &&& 0 <= raw_num_fields(b)
    &&& ds <= b.len()
    &&& valid_utf8(b.skip(ds))
    &&& ds + raw_type_len(b) <= b.len()
    &&& is_char_boundary(b.skip(ds), raw_type_len(b))
    &&& forall|i: int| 0 <= i < raw_num_fields(b) ==> #[trigger] raw_field_ok(b, i)
}

proof fn lemma_raw_check_fields_layout(b: Seq<u8>, i: int, kv: int)
    requires
        b.len() >= 8,
        raw_data_start(b) <= b.len(),
        valid_utf8(b.skip(raw_data_start(b))),
        0 <= i <= raw_num_fields(b),
        raw_data_start(b) <= kv,
        raw_check_fields_from(b, i, kv) == Ok::<int, AccessFault>(b.len() as int),
    ensures
        kv <= b.len(),
        is_char_boundary(b.skip(raw_data_start(b)), kv - raw_data_start(b)),
        forall|j: int| i <= j < raw_num_fields(b) ==> #[trigger] raw_field_ok(b, j),
    decreases raw_num_fields(b) - i,
{
    let ds = raw_data_start(b);
    let data = b.skip(ds);
    if i == raw_num_fields(b) {
        vstd::utf8::is_char_boundary_start_end_of_seq(data);
    } else {
        let next = kv + raw_key_len(b, i) + raw_val_len(b, i);
        lemma_raw_check_fields_layout(b, i + 1, next);
    }
}

/// Raw bytes which pass the format check are laid out as the format describes.
pub proof fn lemma_raw_layout(b: Seq<u8>)
    requires
        raw_check(b) is Ok,
    ensures
        raw_layout_ok(b),
{
    lemma_raw_check_fields_layout(b, 0, raw_data_start(b) + raw_type_len(b));
}

/// The key and value of field `i` of checked raw bytes are valid Utf-8, and lie in order
/// inside the bytes.
pub proof fn lemma_raw_field_pieces(b: Seq<u8>, i: int)
    requires
        raw_check(b) is Ok,
        0 <= i < raw_num_fields(b),
    ensures
        8 + 16 * i + 16 <= raw_data_start(b),
        raw_data_start(b) <= raw_key_idx(b, i),
        raw_key_idx(b, i) + raw_key_len(b, i) == raw_val_idx(b, i),
        raw_val_idx(b, i) + raw_val_len(b, i) <= b.len(),
        valid_utf8(b.subrange(raw_key_idx(b, i), raw_key_idx(b, i) + raw_key_len(b, i))),
        valid_utf8(b.subrange(raw_val_idx(b, i), raw_val_idx(b, i) + raw_val_len(b, i))),
{
    lemma_raw_layout(b);
    assert(raw_field_ok(b, i));
    let ds = raw_data_start(b);
    let data = b.skip(ds);
    let ki = raw_key_idx(b, i);
    let vi = raw_val_idx(b, i);
    let ve = vi + raw_val_len(b, i);
    lemma_piece_valid(data, ki - ds, vi - ds);
    lemma_piece_valid(data, vi - ds, ve - ds);
    assert(b.subrange(ki, vi) =~= data.subrange(ki - ds, vi - ds));
    assert(b.subrange(vi, ve) =~= data.subrange(vi - ds, ve - ds));
}

/// The entry type of checked raw bytes is valid Utf-8 inside the bytes.
pub proof fn lemma_raw_entry_type_piece(b: Seq<u8>)
    requires
        raw_check(b) is Ok,
    ensures
        raw_data_start(b) + raw_type_len(b) <= b.len(),
        0 <= raw_num_fields(b),
        valid_utf8(b.subrange(raw_data_start(b), raw_data_start(b) + raw_type_len(b))),
{
    lemma_raw_layout(b);
    let ds = raw_data_start(b);
    let data = b.skip(ds);
    vstd::utf8::is_char_boundary_start_end_of_seq(data);
    lemma_piece_valid(data, 0, raw_type_len(b));
    assert(b.subrange(ds, ds + raw_type_len(b)) =~= data.subrange(0, raw_type_len(b)));
}

/// Entry data stored in the raw binary format.
#[derive(Debug, PartialEq)]
pub struct RawEntryData {
    bytes: Vec<u8>,
}

impl View for RawEntryData {
    type V = Seq<u8>;

    closed spec fn view(&self) -> Seq<u8> {
        self.bytes@
    }
}

/// Where the parts of checked raw bytes lie.
struct RawLayout {
    entry_type_len: usize,
    num_fields: usize,
    data_start: usize,
}

impl RawLayout {
    /// Where the entry type lies.
    fn entry_type_range(&self) -> (r: (usize, usize))
        requires
            self.data_start + self.entry_type_len <= usize::MAX,
        ensures
            r == (self.data_start, (self.data_start + self.entry_type_len) as usize),
    {
        (self.data_start, self.data_start + self.entry_type_len)
    }

    /// Where the field metadata lies.
    fn all_fields_range(&self) -> (r: (usize, usize))
        ensures
            r == (8usize, self.data_start),
    {
        (8, self.data_start)
    }
}

impl RawEntryData {
    #[verifier::type_invariant]
    spec fn inv(self) -> bool {
        raw_check(self.bytes@) is Ok
    }

    /// Obtain the underlying bytes.
    pub fn as_bytes(&self) -> (r: &[u8])
        ensures
            r@ == self@,
            raw_check(r@) is Ok,
    {
        proof {
            use_type_invariant(self);
        }
        self.bytes.as_slice()
    }

    /// Check that bytes are in the raw format.
    pub fn validate(bytes: &[u8]) -> (r: Result<(), AccessError>)
        ensures
            r is Ok <==> raw_check(bytes@) is Ok,
            r matches Err(e) ==> raw_check(bytes@) == Err::<(), AccessFault>(e@),
    {
        validate(bytes)
    }

    /// Load the provided bytes, first checking that they are valid.
    pub fn load(bytes: Vec<u8>) -> (r: Result<Self, AccessError>)
        ensures
            r is Ok <==> raw_check(bytes@) is Ok,
            r matches Ok(a) ==> a@ == bytes@,
            r matches Err(e) ==> raw_check(bytes@) == Err::<(), AccessFault>(e@),
    {
        match validate(bytes.as_slice()) {
            Ok(()) => Ok(RawEntryData { bytes }),
            Err(e) => Err(e),
        }
    }

    /// Load bytes which the caller knows to be in the raw format.
    pub fn load_unchecked(buf: Vec<u8>) -> (r: Self)
        requires
            raw_check(buf@) is Ok,
        ensures
            r@ == buf@,
    {
        RawEntryData { bytes: buf }
    }

    /// Access the provided bytes, first checking that they are valid. The bytes are copied.
    pub fn access(bytes: &[u8]) -> (r: Result<Self, AccessError>)
        ensures
            r is Ok <==> raw_check(bytes@) is Ok,
            r matches Ok(a) ==> a@ == bytes@,
            r matches Err(e) ==> raw_check(bytes@) == Err::<(), AccessFault>(e@),
    {
        match validate(bytes) {
            Ok(()) => Ok(RawEntryData { bytes: vstd::slice::slice_to_vec(bytes) }),
            Err(e) => Err(e),
        }
    }

    /// Access bytes which the caller knows to be in the raw format. The bytes are copied.
    pub fn access_unchecked(b: &[u8]) -> (r: Self)
        requires
            raw_check(b@) is Ok,
        ensures
            r@ == b@,
    {
        RawEntryData { bytes: vstd::slice::slice_to_vec(b) }
    }

    /// Construct the raw representation of any entry data which fits the format.
    pub fn from_entry_data<D: EntryData + ?Sized>(data: &D) -> (r: Self)
        requires
            raw_fits(data),
        ensures
            r@ == raw_of(data),
            r.entry_type_view() == data.entry_type_view(),
            r.fields_view() == data.fields_view(),
    {
        let bytes = serialize(data);
        proof {
            lemma_raw_roundtrip(data.entry_type_view(), data.fields_view());
        }
        RawEntryData { bytes }
    }

    /// Where the entry type and the fields lie.
    fn layout(&self) -> (r: RawLayout)
        ensures
            r.entry_type_len == raw_type_len(self@),
            r.num_fields == raw_num_fields(self@),
            r.data_start == raw_data_start(self@),
            r.data_start + r.entry_type_len <= self@.len(),
    {
        proof {
            use_type_invariant(self);
            lemma_raw_entry_type_piece(self.bytes@);
        }
        let b = self.bytes.as_slice();
        let entry_type_len = read_u32_le(b, 0) as usize;
        let num_fields = read_u32_le(b, 4) as usize;
        RawLayout { entry_type_len, num_fields, data_start: 8 + 16 * num_fields }
    }
}

impl EntryData for RawEntryData {
    open spec fn entry_type_view(&self) -> Seq<char> {
        raw_entry_type_of(self@)
    }

    open spec fn fields_view(&self) -> FieldsView {
        raw_fields_of(self@)
    }

    fn entry_type(&self) -> (r: EntryTypeRef<'_>) {
        proof {
            use_type_invariant(self);
            lemma_raw_entry_type_piece(self.bytes@);
        }
        let b = self.bytes.as_slice();
        let blen = b.len();
        let ly = self.layout();
        assert(ly.data_start + ly.entry_type_len <= blen);
        let (s, e) = ly.entry_type_range();
        let piece = slice_subrange(b, s, e);
        EntryTypeRef::from_str_unchecked(checked_str(piece))
    }

    fn count_fields(&self) -> (r: usize) {
        self.layout().num_fields
    }

    fn field_at(&self, i: usize) -> (r: (FieldKeyRef<'_>, FieldValueRef<'_>)) {
        proof {
            use_type_invariant(self);
            lemma_raw_field_pieces(self.bytes@, i as int);
        }
        let b = self.bytes.as_slice();
        let blen = b.len();
        assert(b@ == self.bytes@);
        let off = 8 + 16 * i;
        let ki = read_u32_le(b, off) as usize;
        let kl = read_u32_le(b, off + 4) as usize;
        let vi = read_u32_le(b, off + 8) as usize;
        let vl = read_u32_le(b, off + 12) as usize;
        assert(ki == raw_key_idx(b@, i as int));
        assert(kl == raw_key_len(b@, i as int));
        assert(vi == raw_val_idx(b@, i as int));
        assert(vl == raw_val_len(b@, i as int));
        assert(vi + vl <= blen);
        let kp = slice_subrange(b, ki, ki + kl);
        let vp = slice_subrange(b, vi, vi + vl);
        (
            FieldKeyRef::from_str_unchecked(checked_str(kp)),
            FieldValueRef::from_str_unchecked(checked_str(vp)),
        )
    }

    /// Found by binary search over the keys, which finds the value of the key when the keys
    /// are sorted.
    fn get_field(&self, field_name: &str) -> (r: Option<FieldValueRef<'_>>) {
        let ghost fv = self.fields_view();
        let ghost name = field_name@;
        let n = self.count_fields();
        let mut lo: usize = 0;
        let mut hi: usize = n;
        while lo < hi
            invariant
                n == fv.len(),
                fv == self.fields_view(),
                name == field_name@,
                lo <= hi <= n,
                keys_sorted(fv) ==> forall|j: int| 0 <= j < lo ==> key_lt(#[trigger] fv[j].0, name),
                keys_sorted(fv) ==> forall|j: int| hi <= j < n ==> key_lt(name, #[trigger] fv[j].0),
            decreases hi - lo,
        {
            let mid = lo + (hi - lo) / 2;
            let (k, v) = self.field_at(mid);
            match compare_keys(k.inner(), field_name) {
                ByteOrder::Less => {
                    proof {
                        if keys_sorted(fv) {
                            assert forall|j: int| 0 <= j < mid + 1 implies key_lt(
                                #[trigger] fv[j].0,
                                name,
                            ) by {
                                if j < mid {
                                    lemma_key_lt_transitive(fv[j].0, fv[mid as int].0, name);
                                }
                            }
                        }
                    }
                    lo = mid + 1;
                },
                ByteOrder::Greater => {
                    proof {
                        crate::encoding::lemma_lex_order_flip(encode_utf8(k@), encode_utf8(name));
                        if keys_sorted(fv) {
                            assert forall|j: int| mid <= j < n implies key_lt(
                                name,
                                #[trigger] fv[j].0,
                            ) by {
                                if j > mid {
                                    lemma_key_lt_transitive(name, fv[mid as int].0, fv[j].0);
                                }
                            }
                        }
                    }
                    hi = mid;
                },
                ByteOrder::Equal => {
                    proof {
                        crate::encoding::lemma_lex_order_equal(encode_utf8(k@), encode_utf8(name));
                        crate::encoding::lemma_encode_injective(k@, name);
                        assert(fv[mid as int] == (name, v@));
                        if keys_sorted(fv) {
                            lemma_sorted_match(fv, name, mid as int);
                        }
                    }
                    return Some(v);
                },
            }
        }
        proof {
            if keys_sorted(fv) {
                assert forall|j: int| 0 <= j < fv.len() implies #[trigger] fv[j].0 != name by {
                    if j < lo {
                        assert(key_lt(fv[j].0, name));
                    } else {
                        assert(key_lt(name, fv[j].0));
                    }
                    lemma_key_lt_total(fv[j].0, name);
                    lemma_key_lt_total(name, fv[j].0);
                }
                lemma_sorted_no_match(fv, name);
            }
        }
        None
    }
}

impl Archive for RawEntryData {
    open spec fn archive_view(&self) -> Seq<u8> {
        self@
    }

    open spec fn format_ok(bytes: Seq<u8>) -> bool {
        raw_check(bytes) is Ok
    }

    open spec fn fits(entry_type: Seq<char>, fields: FieldsView) -> bool {
        raw_len(encode_utf8(entry_type), encode_fields(fields)) < u32::MAX
    }

    open spec fn encoding(entry_type: Seq<char>, fields: FieldsView) -> Seq<u8> {
        raw_bytes(encode_utf8(entry_type), encode_fields(fields))
    }

    fn as_bytes(&self) -> (r: &[u8]) {
        RawEntryData::as_bytes(self)
    }

    fn into_archive(archive: Self) -> (r: Vec<u8>) {
        archive.bytes
    }

    fn validate(bytes: &[u8]) -> (r: Result<(), AccessError>) {
        validate(bytes)
    }

    fn from_entry_data<D: EntryData>(data: D) -> (r: Self) {
        RawEntryData::from_entry_data(&data)
    }

    fn load_unchecked(bytes: Vec<u8>) -> (r: Self) {
        RawEntryData::load_unchecked(bytes)
    }

    fn access_unchecked(bytes: &[u8]) -> (r: Self) {
        RawEntryData::access_unchecked(bytes)
    }
}

} // verus!
