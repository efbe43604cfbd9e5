//! The binary archive format for entry data.
//!
//! All `u32` values are stored in little-endian order.
//! ```text
//! | <- HEADER      -> | <- TYPE -> | <- FIELDS                          -> | <- DATA                 -> |
//! | meta | num_fields | (idx, len) | (key_idx, key_len, val_idx, val_len)* | entry_type.. keys.. vals.. |
//! | u32  | u32        | [u32, u32] | [u32, u32, u32, u32]*                 | str
//! ```
//!
//! - `meta` is written as `[1 0 0 0]`; only its first byte is checked.
//! - `num_fields` is the number of `key = {value}` fields.
//! - `(idx, len)` points to the entry type inside the `DATA` block.
//! - each field holds the index and length of its key and of its value.
//! - `DATA` is one Utf-8 string holding the entry type, then each key followed by its value,
//!   in that order; the fields are sorted by key and each index is a char boundary. Gaps
//!   between the strings, and after the last one, may hold null bytes only; the archive that
//!   is written has none.

use crate::data::{
    compare_keys, first_match_from, key_lt, keys_sorted, lemma_key_lt_total,
    lemma_key_lt_transitive, lemma_scan_sorted, lemma_sorted_match, lemma_sorted_no_match,
    scan_get_from, value_view, Archive, EntryData, FieldsView,
};
use crate::encoding::{bytes_lt, compare_bytes, str_eq, ByteOrder};
use crate::encoding::{
    le_bytes, le_u32_at, lemma_le_bytes_roundtrip, lemma_str_of_bytes, push_u32_le, read_u32_le,
    extend_bytes, str_from_utf8,
};
use crate::error::{AccessError, AccessFault};
use crate::ident::{EntryTypeRef, FieldKeyRef, FieldValueRef};
use vstd::prelude::*;
use vstd::slice::slice_subrange;
use vstd::string::StringSliceAdditionalSpecFns;
use vstd::utf8::{decode_utf8, encode_utf8, is_char_boundary, valid_utf8};

verus! {

/// The length of the header, entry type pointer included.
pub const HEADER_LEN: usize = 16;

/// The length of the metadata of one field.
pub const FIELD_LEN: usize = 16;

/// The header is complete and its first byte, the format marker, is `1`.
pub open spec fn header_ok(b: Seq<u8>) -> bool {
    &&& b.len() >= 16
    &&& b[0] == 1
}

/// The number of fields recorded in the header.
pub open spec fn num_fields_of(b: Seq<u8>) -> int {
    le_u32_at(b, 4)
}

/// The entry type index recorded in the header.
pub open spec fn type_idx_of(b: Seq<u8>) -> int {
    le_u32_at(b, 8)
}

/// The entry type length recorded in the header.
pub open spec fn type_len_of(b: Seq<u8>) -> int {
    le_u32_at(b, 12)
}

/// Where the `DATA` block starts.
pub open spec fn data_start_of(b: Seq<u8>) -> int {
    16 + 16 * num_fields_of(b)
}

/// The key index of field `i`.
pub open spec fn key_idx(b: Seq<u8>, i: int) -> int {
    le_u32_at(b, 16 + 16 * i)
}

/// The key length of field `i`.
pub open spec fn key_len(b: Seq<u8>, i: int) -> int {
    le_u32_at(b, 16 + 16 * i + 4)
}

/// The value index of field `i`.
pub open spec fn val_idx(b: Seq<u8>, i: int) -> int {
    le_u32_at(b, 16 + 16 * i + 8)
}

/// The value length of field `i`.
pub open spec fn val_len(b: Seq<u8>, i: int) -> int {
    le_u32_at(b, 16 + 16 * i + 12)
}

/// The bytes of the key of field `i`.
pub open spec fn key_bytes(b: Seq<u8>, i: int) -> Seq<u8> {
    b.subrange(key_idx(b, i), key_idx(b, i) + key_len(b, i))
}

/// Every byte from `s` up to `e` is zero.
pub open spec fn zeros(b: Seq<u8>, s: int, e: int) -> bool {
    forall|j: int| s <= j < e ==> #[trigger] b[j] == 0
}

/// The stretch from `s` to `e` is empty, or lies inside `b` and holds null bytes only.
pub open spec fn gap_ok(b: Seq<u8>, s: int, e: int) -> bool {
    s == e || (s <= e <= b.len() && zeros(b, s, e))
}

/// The outcome of checking the entry type pointer: it starts inside `DATA` at a char
/// boundary, after null padding only; on success, where the entry type ends. That end is
/// checked as the place where the first field, or else the end of the data, may start.
pub open spec fn check_type_of(b: Seq<u8>) -> Result<int, AccessFault> {
    let ds = data_start_of(b);
    let data = b.skip(ds);
    let t = type_idx_of(b);
    if t < ds || !gap_ok(b, ds, t) || !is_char_boundary(data, t - ds) {
        Err(AccessFault::InvalidEntryType)
    } else {
        Ok(t + type_len_of(b))
    }
}

/// The outcome of checking field `i`, whose data may start at `kv` after null padding: its key
/// and value lie in order, with only null bytes in between, its key and the start of its value
/// are char boundaries inside `DATA`, and its key sorts after the key of the field before it.
/// On success, where its value ends; that end is checked as the place where the next field,
/// or else the end of the data, may start.
pub open spec fn field_check(b: Seq<u8>, i: int, kv: int) -> Result<int, AccessFault> {
    let ds = data_start_of(b);
    let data = b.skip(ds);
    let ki = key_idx(b, i);
    let ke = ki + key_len(b, i);
    let vi = val_idx(b, i);
    let ve = vi + val_len(b, i);
    if ki < kv || vi < ke || !gap_ok(b, kv, ki) || !gap_ok(b, ke, vi) {
        Err(AccessFault::InvalidIndex(i as usize))
    } else if !is_char_boundary(data, ki - ds) || !is_char_boundary(data, ke - ds)
        || !is_char_boundary(data, vi - ds) {
        Err(AccessFault::InvalidStrOffset(i as usize))
    } else if i > 0 && !bytes_lt(key_bytes(b, i - 1), key_bytes(b, i)) {
        Err(AccessFault::UnsortedFields(i as usize))
    } else {
        Ok(ve)
    }
}

/// The outcome of checking the fields from `i` on, where the data of field `i` may start at
/// `kv`; on success, where the data of the last field ends.
pub open spec fn check_fields_from(b: Seq<u8>, i: int, kv: int) -> Result<int, AccessFault>
    decreases num_fields_of(b) - i,
{
    if i < 0 || i >= num_fields_of(b) {
        Ok(kv)
    } else {
        match field_check(b, i, kv) {
            Err(e) => Err(e),
            Ok(ve) => check_fields_from(b, i + 1, ve),
        }
    }
}

/// The outcome of checking that `b` is in the archive format.
pub open spec fn archive_check(b: Seq<u8>) -> Result<(), AccessFault> {
    if !header_ok(b) {
        Err(AccessFault::InvalidHeader)
    } else if b.len() < data_start_of(b) {
        Err(AccessFault::IncompleteFields)
    } else if !valid_utf8(b.skip(data_start_of(b))) {
        Err(AccessFault::InvalidUtf8)
    } else {
        match check_type_of(b) {
            Err(e) => Err(e),
            Ok(te) => match check_fields_from(b, 0, te) {
                Err(e) => Err(e),
                Ok(end) => if !gap_ok(b, end, b.len() as int) {
                    Err(AccessFault::TrailingBytes(end as usize))
                } else {
                    Ok(())
                },
            },
        }
    }
}

/// Whether every byte from `s` up to `e` is zero.
fn all_zero(b: &[u8], s: usize, e: usize) -> (r: bool)
    requires
        s <= e <= b@.len(),
    ensures
        r == zeros(b@, s as int, e as int),
{
    let mut j = s;
    while j < e
        invariant
            s <= j <= e <= b@.len(),
            zeros(b@, s as int, j as int),
        decreases e - j,
    {
        if b[j] != 0 {
            return false;
        }
        j = j + 1;
    }
    true
}

/// Whether the stretch from `s` to `e` is empty, or lies inside `b` and holds null bytes only.
fn gap_is_null(b: &[u8], s: u64, e: u64) -> (r: bool)
    requires
        s <= e,
    ensures
        r == gap_ok(b@, s as int, e as int),
{
    s == e || (e <= b.len() as u64 && all_zero(b, s as usize, e as usize))
}

/// A char boundary of valid Utf-8 lies inside it.
proof fn lemma_boundary_in(data: Seq<u8>, x: int)
    requires
        valid_utf8(data),
        is_char_boundary(data, x),
    ensures
        0 <= x <= data.len(),
{
}

/// Check field `idx`, whose data may start at `kv`.
#[verifier::rlimit(40)]
fn check_field(bytes: &[u8], data_str: &str, data_start: u64, idx: u64, kv: u64) -> (r: Result<
    u64,
    AccessError,
>)
    requires
        header_ok(bytes@),
        data_start == data_start_of(bytes@),
        data_start <= bytes@.len(),
        data_str.spec_bytes() == bytes@.skip(data_start as int),
        valid_utf8(bytes@.skip(data_start as int)),
        idx < num_fields_of(bytes@),
        data_start <= kv <= 0x2_0000_0000,
        idx > 0 ==> 0 <= key_idx(bytes@, idx - 1) <= key_idx(bytes@, idx - 1) + key_len(
            bytes@,
            idx - 1,
        ) <= bytes@.len(),
    ensures
        r matches Ok(ve) ==> field_check(bytes@, idx as int, kv as int) == Ok::<int, AccessFault>(
            ve as int,
        ) && kv <= ve <= 0x2_0000_0000 && 0 <= key_idx(bytes@, idx as int) <= key_idx(
            bytes@,
            idx as int,
        ) + key_len(bytes@, idx as int) <= bytes@.len(),
        r matches Err(e) ==> field_check(bytes@, idx as int, kv as int) == Err::<
            int,
            AccessFault,
        >(e@),
{
    let blen = bytes.len() as u64;
    let off = (16 + 16 * idx) as usize;
    let k_idx = read_u32_le(bytes, off) as u64;
    let k_len = read_u32_le(bytes, off + 4) as u64;
    let v_idx = read_u32_le(bytes, off + 8) as u64;
    let v_len = read_u32_le(bytes, off + 12) as u64;
    let k_end = k_idx + k_len;
    let v_end = v_idx + v_len;
    if k_idx < kv || v_idx < k_end {
        return Err(AccessError::InvalidIndex(idx as usize));
    }
    if !gap_is_null(bytes, kv, k_idx) || !gap_is_null(bytes, k_end, v_idx) {
        return Err(AccessError::InvalidIndex(idx as usize));
    }
    if !data_str.is_char_boundary((k_idx - data_start) as usize)
        || !data_str.is_char_boundary((k_end - data_start) as usize)
        || !data_str.is_char_boundary((v_idx - data_start) as usize) {
        return Err(AccessError::InvalidStrOffset(idx as usize));
    }
    proof {
        lemma_boundary_in(data_str.spec_bytes(), (k_end - data_start) as int);
    }
    if idx > 0 {
        let poff = (16 + 16 * (idx - 1)) as usize;
        let p_idx = read_u32_le(bytes, poff) as u64;
        let p_len = read_u32_le(bytes, poff + 4) as u64;
        let prev = slice_subrange(bytes, p_idx as usize, (p_idx + p_len) as usize);
        let key = slice_subrange(bytes, k_idx as usize, k_end as usize);
        match compare_bytes(prev, key) {
            ByteOrder::Less => {},
            _ => {
                return Err(AccessError::UnsortedFields(idx as usize));
            },
        }
    }
    Ok(v_end)
}

/// Check that raw bytes are in the archive format.
fn validate(bytes: &[u8]) -> (r: Result<(), AccessError>)
    ensures
        r is Ok <==> archive_check(bytes@) is Ok,
        r matches Err(e) ==> archive_check(bytes@) == Err::<(), AccessFault>(e@),
{
    if bytes.len() < HEADER_LEN {
        return Err(AccessError::InvalidHeader);
    }
    if bytes[0] != 1 {
        return Err(AccessError::InvalidHeader);
    }
    let num_fields = read_u32_le(bytes, 4) as u64;
    let type_idx = read_u32_le(bytes, 8) as u64;
    let type_len = read_u32_le(bytes, 12) as u64;
    let data_start: u64 = 16 + 16 * num_fields;
    let blen = bytes.len() as u64;
    if data_start > blen {
        return Err(AccessError::IncompleteFields);
    }
    let ds = data_start as usize;
    let data = slice_subrange(bytes, ds, bytes.len());
    let data_str = match str_from_utf8(data) {
        Ok(s) => s,
        Err(e) => {
            proof {
                assert(data@ =~= bytes@.skip(ds as int));
            }
            return Err(AccessError::InvalidUtf8(e.0));
        },
    };
    assert(data@ =~= bytes@.skip(ds as int));
    let ghost b = bytes@;
    let type_end = type_idx + type_len;
    if type_idx < data_start || !gap_is_null(bytes, data_start, type_idx)
        || !data_str.is_char_boundary((type_idx - data_start) as usize) {
        return Err(AccessError::InvalidEntryType);
    }
    assert(check_type_of(b) == Ok::<int, AccessFault>(type_end as int));
    let mut kv: u64 = type_end;
    let mut idx: u64 = 0;
    while idx < num_fields
        invariant
            b == bytes@,
            blen == b.len(),
            header_ok(b),
            num_fields == num_fields_of(b),
            data_start == data_start_of(b),
            data_start <= b.len(),
            data_str.spec_bytes() == b.skip(data_start as int),
            valid_utf8(b.skip(data_start as int)),
            idx <= num_fields,
            data_start <= kv <= 0x2_0000_0000,
            idx > 0 ==> 0 <= key_idx(b, idx - 1) <= key_idx(b, idx - 1) + key_len(b, idx - 1)
                <= b.len(),
            check_type_of(b) == Ok::<int, AccessFault>(type_end as int),
            check_fields_from(b, 0, type_end as int) == check_fields_from(
                b,
                idx as int,
                kv as int,
            ),
        decreases num_fields - idx,
    {
        match check_field(bytes, data_str, data_start, idx, kv) {
            Ok(ve) => {
                kv = ve;
            },
            Err(e) => {
                return Err(e);
            },
        }
        idx = idx + 1;
    }
    if kv > blen || !gap_is_null(bytes, kv, blen) {
        return Err(AccessError::TrailingBytes(kv as usize));
    }
    Ok(())
}

/// Fields as byte strings.
pub type ByteFields = Seq<(Seq<u8>, Seq<u8>)>;

/// The Utf-8 encodings of the keys and values.
pub open spec fn encode_fields(f: FieldsView) -> ByteFields {
    Seq::new(f.len(), |i: int| (encode_utf8(f[i].0), encode_utf8(f[i].1)))
}

/// The total length of the keys and values.
pub open spec fn payload_len(f: ByteFields) -> int
    decreases f.len(),
{
    if f.len() == 0 {
        0
    } else {
        payload_len(f.drop_last()) + f.last().0.len() + f.last().1.len()
    }
}

/// The keys and values, each key followed by its value.
pub open spec fn payload(f: ByteFields) -> Seq<u8>
    decreases f.len(),
{
    if f.len() == 0 {
        Seq::empty()
    } else {
        payload(f.drop_last()) + f.last().0 + f.last().1
    }
}

/// The metadata of the fields when their data starts at `base`.
pub open spec fn field_table(f: ByteFields, base: int) -> Seq<u8>
    decreases f.len(),
{
    if f.len() == 0 {
        Seq::empty()
    } else {
        let prev = f.drop_last();
        let at = base + payload_len(prev);
        field_table(prev, base) + le_bytes(at as u32) + le_bytes(f.last().0.len() as u32)
            + le_bytes((at + f.last().0.len()) as u32) + le_bytes(f.last().1.len() as u32)
    }
}

/// The length of the archive of an entry type and fields.
pub open spec fn archive_len(et: Seq<u8>, f: ByteFields) -> int {
    16 + 16 * f.len() + et.len() + payload_len(f)
}

/// The archive of an entry type and fields.
#[verifier::opaque]
pub open spec fn archive_bytes(et: Seq<u8>, f: ByteFields) -> Seq<u8> {
    let ds: int = 16 + 16 * (f.len() as int);
    seq![1u8, 0u8, 0u8, 0u8] + le_bytes(f.len() as u32) + le_bytes(ds as u32) + le_bytes(
        et.len() as u32,
    ) + field_table(f, ds + et.len()) + et + payload(f)
}

/// The archive of entry data.
pub open spec fn archive_of<D: EntryData + ?Sized>(data: &D) -> Seq<u8> {
    archive_bytes(encode_utf8(data.entry_type_view()), encode_fields(data.fields_view()))
}

/// Entry data that fits in the archive format.
pub open spec fn archive_fits<D: EntryData + ?Sized>(data: &D) -> bool {
    archive_len(encode_utf8(data.entry_type_view()), encode_fields(data.fields_view())) < u32::MAX
}

/// The payload of a prefix is no longer than the whole payload.
pub proof fn lemma_payload_len_take(f: ByteFields, i: int)
    requires
        0 <= i <= f.len(),
    ensures
        0 <= payload_len(f.take(i)) <= payload_len(f),
    decreases f.len(),
{
    if i == f.len() {
        assert(f.take(i) =~= f);
        lemma_payload_len_nonneg(f);
    } else {
        assert(f.take(i) =~= f.drop_last().take(i));
        lemma_payload_len_take(f.drop_last(), i);
    }
}

/// Payload lengths are not negative.
pub proof fn lemma_payload_len_nonneg(f: ByteFields)
    ensures
        payload_len(f) >= 0,
    decreases f.len(),
{
    if f.len() > 0 {
        lemma_payload_len_nonneg(f.drop_last());
    }
}

pub(crate) proof fn lemma_table_step(f: ByteFields, base: int, i: int)
    requires
        0 <= i < f.len(),
    ensures
        field_table(f.take(i + 1), base) == field_table(f.take(i), base) + le_bytes(
            (base + payload_len(f.take(i))) as u32,
        ) + le_bytes(f[i].0.len() as u32) + le_bytes(
            (base + payload_len(f.take(i)) + f[i].0.len()) as u32,
        ) + le_bytes(f[i].1.len() as u32),
        payload_len(f.take(i + 1)) == payload_len(f.take(i)) + f[i].0.len() + f[i].1.len(),
        payload(f.take(i + 1)) == payload(f.take(i)) + f[i].0 + f[i].1,
{
    assert(f.take(i + 1).drop_last() =~= f.take(i));
    assert(f.take(i + 1).last() == f[i]);
}

/// Serialize entry data in the archive format.
#[verifier::rlimit(60)]
pub fn archive<D: EntryData + ?Sized>(data: &D) -> (r: Vec<u8>)
    requires
        archive_fits(data),
    ensures
        r@ == archive_of(data),
{
    let ghost ef = encode_fields(data.fields_view());
    let ghost etv = encode_utf8(data.entry_type_view());
    let et = data.entry_type();
    let etb = et.inner().as_bytes();
    let n = data.count_fields();
    proof {
        lemma_payload_len_nonneg(ef);
    }
    let mut out: Vec<u8> = Vec::new();
    out.push(1);
    out.push(0);
    out.push(0);
    out.push(0);
    push_u32_le(&mut out, n as u32);
    let ds: usize = 16 + 16 * n;
    push_u32_le(&mut out, ds as u32);
    push_u32_le(&mut out, etb.len() as u32);
    let ghost header = out@;
    assert(header =~= seq![1u8, 0u8, 0u8, 0u8] + le_bytes(n as u32) + le_bytes(ds as u32)
        + le_bytes(etv.len() as u32));
    let ghost base: int = ds + etv.len();
    let mut offset: usize = ds + etb.len();
    let mut i: usize = 0;
    assert(ef.take(0) =~= Seq::<(Seq<u8>, Seq<u8>)>::empty());
    while i < n
        invariant
            n == data.fields_view().len(),
            ef == encode_fields(data.fields_view()),
            etv == encode_utf8(data.entry_type_view()),
            archive_fits(data),
            ds == 16 + 16 * n,
            base == ds + etv.len(),
            i <= n,
            out@ == header + field_table(ef.take(i as int), base),
            offset == base + payload_len(ef.take(i as int)),
        decreases n - i,
    {
        let (k, v) = data.field_at(i);
        let kb = k.inner().as_bytes();
        let vb = v.inner().as_bytes();
        proof {
            lemma_table_step(ef, base, i as int);
            lemma_payload_len_take(ef, i + 1);
        }
        push_u32_le(&mut out, offset as u32);
        push_u32_le(&mut out, kb.len() as u32);
        push_u32_le(&mut out, (offset + kb.len()) as u32);
        push_u32_le(&mut out, vb.len() as u32);
        offset = offset + kb.len() + vb.len();
        i = i + 1;
        assert(out@ =~= header + field_table(ef.take(i as int), base));
    }
    assert(ef.take(n as int) =~= ef);
    extend_bytes(&mut out, etb);
    let ghost table = out@;
    i = 0;
    while i < n
        invariant
            n == data.fields_view().len(),
            ef == encode_fields(data.fields_view()),
            i <= n,
            out@ == table + payload(ef.take(i as int)),
        decreases n - i,
    {
        let (k, v) = data.field_at(i);
        proof {
            lemma_table_step(ef, 0, i as int);
        }
        extend_bytes(&mut out, k.inner().as_bytes());
        extend_bytes(&mut out, v.inner().as_bytes());
        i = i + 1;
        assert(out@ =~= table + payload(ef.take(i as int)));
    }
    assert(ef.take(n as int) =~= ef);
    proof {
        lemma_archive_split(etv, ef);
        assert(out@ =~= archive_header(etv, ef) + field_table(ef, base) + (etv + payload(ef)));
    }
    out
}

/// The entry type held by archived bytes, read where the entry type pointer points.
pub open spec fn archived_entry_type(b: Seq<u8>) -> Seq<char> {
    decode_utf8(b.subrange(type_idx_of(b), type_idx_of(b) + type_len_of(b)))
}

/// The key and value of field `i` held by archived bytes.
pub open spec fn archived_field(b: Seq<u8>, i: int) -> (Seq<char>, Seq<char>) {
    (
        decode_utf8(b.subrange(key_idx(b, i), key_idx(b, i) + key_len(b, i))),
        decode_utf8(b.subrange(val_idx(b, i), val_idx(b, i) + val_len(b, i))),
    )
}

/// The fields held by archived bytes.
pub open spec fn archived_fields(b: Seq<u8>) -> FieldsView {
    Seq::new(num_fields_of(b) as nat, |i: int| archived_field(b, i))
}

/// The metadata written for field `i` when the field data starts at `base`.
pub open spec fn table_entry(f: ByteFields, base: int, i: int) -> Seq<u8> {
    let at = base + payload_len(f.take(i));
    le_bytes(at as u32) + le_bytes(f[i].0.len() as u32) + le_bytes((at + f[i].0.len()) as u32)
        + le_bytes(f[i].1.len() as u32)
}

/// A key and a value which are both valid Utf-8.
pub open spec fn piece_valid(p: (Seq<u8>, Seq<u8>)) -> bool {
    valid_utf8(p.0) && valid_utf8(p.1)
}

/// Every key and value is valid Utf-8.
pub open spec fn pieces_valid(f: ByteFields) -> bool {
    forall|i: int| 0 <= i < f.len() ==> #[trigger] piece_valid(f[i])
}

pub(crate) proof fn lemma_payload_len_eq(f: ByteFields)
    ensures
        payload(f).len() == payload_len(f),
    decreases f.len(),
{
    if f.len() > 0 {
        lemma_payload_len_eq(f.drop_last());
    }
}

pub(crate) proof fn lemma_field_table_len(f: ByteFields, base: int)
    ensures
        field_table(f, base).len() == 16 * f.len(),
    decreases f.len(),
{
    if f.len() > 0 {
        lemma_field_table_len(f.drop_last(), base);
    }
}

pub(crate) proof fn lemma_field_table_entry(f: ByteFields, base: int, i: int)
    requires
        0 <= i < f.len(),
    ensures
        field_table(f, base).subrange(16 * i, 16 * i + 16) == table_entry(f, base, i),
    decreases f.len(),
{
    let prev = f.drop_last();
    lemma_field_table_len(prev, base);
    if i == f.len() - 1 {
        assert(f.take(i) =~= prev);
        assert(field_table(f, base).subrange(16 * i, 16 * i + 16) =~= table_entry(f, base, i));
    } else {
        lemma_field_table_entry(prev, base, i);
        assert(prev.take(i) =~= f.take(i));
        assert(field_table(f, base).subrange(16 * i, 16 * i + 16) =~= field_table(
            prev,
            base,
        ).subrange(16 * i, 16 * i + 16));
    }
}

pub(crate) proof fn lemma_payload_split(f: ByteFields, i: int)
    requires
        0 <= i <= f.len(),
    ensures
        payload(f) == payload(f.take(i)) + payload(f.skip(i)),
    decreases f.len(),
{
    if i == f.len() {
        assert(f.take(i) =~= f);
        assert(f.skip(i) =~= Seq::<(Seq<u8>, Seq<u8>)>::empty());
        assert(payload(f) =~= payload(f.take(i)) + payload(f.skip(i)));
    } else {
        let prev = f.drop_last();
        lemma_payload_split(prev, i);
        assert(prev.take(i) =~= f.take(i));
        assert(f.skip(i).drop_last() =~= prev.skip(i));
        assert(f.skip(i).last() == f.last());
        assert(payload(f) =~= payload(f.take(i)) + payload(f.skip(i)));
    }
}

pub(crate) proof fn lemma_payload_first(f: ByteFields)
    requires
        f.len() > 0,
    ensures
        payload(f) == f[0].0 + f[0].1 + payload(f.skip(1)),
{
    lemma_payload_split(f, 1);
    let t = f.take(1);
    assert(t.drop_last() =~= Seq::<(Seq<u8>, Seq<u8>)>::empty());
    assert(payload(t.drop_last()) =~= Seq::<u8>::empty());
    assert(t.last() == f[0]);
    assert(payload(t) =~= f[0].0 + f[0].1);
    assert(payload(f) =~= f[0].0 + f[0].1 + payload(f.skip(1)));
}

pub(crate) proof fn lemma_payload_valid(f: ByteFields)
    requires
        pieces_valid(f),
    ensures
        valid_utf8(payload(f)),
    decreases f.len(),
{
    if f.len() > 0 {
        let prev = f.drop_last();
        assert(pieces_valid(prev)) by {
            assert forall|i: int| 0 <= i < prev.len() implies #[trigger] piece_valid(prev[i]) by {
                assert(prev[i] == f[i]);
                assert(piece_valid(f[i]));
            }
        }
        lemma_payload_valid(prev);
        assert(piece_valid(f[f.len() - 1]));
        assert(f.last() == f[f.len() - 1]);
        vstd::utf8::valid_utf8_concat(payload(prev), f.last().0);
        vstd::utf8::valid_utf8_concat(payload(prev) + f.last().0, f.last().1);
    }
}

/// The end of a valid Utf-8 string is a char boundary of it followed by another.
pub proof fn lemma_boundary_concat(a: Seq<u8>, c: Seq<u8>)
    requires
        valid_utf8(a),
        valid_utf8(c),
    ensures
        valid_utf8(a + c),
        is_char_boundary(a + c, a.len() as int),
{
    vstd::utf8::valid_utf8_concat(a, c);
    if c.len() == 0 {
        assert(a + c =~= a);
        vstd::utf8::is_char_boundary_start_end_of_seq(a);
    } else {
        vstd::utf8::is_char_boundary_start_end_of_seq(c);
        vstd::utf8::is_char_boundary_iff_not_is_continuation_byte(c, 0);
        vstd::utf8::is_char_boundary_iff_not_is_continuation_byte(a + c, a.len() as int);
        assert((a + c)[a.len() as int] == c[0]);
    }
}

pub(crate) proof fn lemma_le_same(b: Seq<u8>, p: int, e: Seq<u8>, q: int)
    requires
        0 <= p,
        p + 4 <= b.len(),
        0 <= q,
        q + 4 <= e.len(),
        b[p] == e[q],
        b[p + 1] == e[q + 1],
        b[p + 2] == e[q + 2],
        b[p + 3] == e[q + 3],
    ensures
        le_u32_at(b, p) == le_u32_at(e, q),
{
}

/// The header of the archive of `et` and `f`.
pub open spec fn archive_header(et: Seq<u8>, f: ByteFields) -> Seq<u8> {
    seq![1u8, 0u8, 0u8, 0u8] + le_bytes(f.len() as u32) + le_bytes((16 + 16 * f.len()) as u32)
        + le_bytes(et.len() as u32)
}

proof fn lemma_archive_split(et: Seq<u8>, f: ByteFields)
    ensures
        archive_bytes(et, f) == archive_header(et, f) + field_table(f, (16 + 16 * f.len() + et.len()) as int) + (et + payload(f)),
        archive_header(et, f).len() == 16,
        field_table(f, (16 + 16 * f.len() + et.len()) as int).len() == 16 * f.len(),
        payload(f).len() == payload_len(f),
        archive_bytes(et, f).len() == archive_len(et, f),
{
    lemma_field_table_len(f, (16 + 16 * f.len() + et.len()) as int);
    lemma_payload_len_eq(f);
    reveal(archive_bytes);
    assert(archive_bytes(et, f) =~= archive_header(et, f) + field_table(f, (16 + 16 * f.len() + et.len()) as int) + (et + payload(f)));
}

proof fn lemma_read_entry(b: Seq<u8>, h: Seq<u8>, t: Seq<u8>, rest: Seq<u8>, e: Seq<u8>, i: int)
    requires
        b == h + t + rest,
        h.len() == 16,
        0 <= i,
        16 * i + 16 <= t.len(),
        t.subrange(16 * i, 16 * i + 16) == e,
    ensures
        le_u32_at(b, 16 + 16 * i) == le_u32_at(e, 0),
        le_u32_at(b, 16 + 16 * i + 4) == le_u32_at(e, 4),
        le_u32_at(b, 16 + 16 * i + 8) == le_u32_at(e, 8),
        le_u32_at(b, 16 + 16 * i + 12) == le_u32_at(e, 12),
{
    assert forall|k: int| 0 <= k < 16 implies b[16 + 16 * i + k] == #[trigger] e[k] by {
        assert(b[16 + 16 * i + k] == t[16 * i + k]);
        assert(t.subrange(16 * i, 16 * i + 16)[k] == t[16 * i + k]);
    }
    lemma_le_same(b, 16 + 16 * i, e, 0);
    lemma_le_same(b, 16 + 16 * i + 4, e, 4);
    lemma_le_same(b, 16 + 16 * i + 8, e, 8);
    lemma_le_same(b, 16 + 16 * i + 12, e, 12);
}

pub(crate) proof fn lemma_table_entry_values(f: ByteFields, base: int, i: int)
    requires
        0 <= i < f.len(),
        0 <= base,
        base + payload_len(f) < u32::MAX,
    ensures
        ({
            let e = table_entry(f, base, i);
            let at = base + payload_len(f.take(i));
            &&& e.len() == 16
            &&& le_u32_at(e, 0) == at
            &&& le_u32_at(e, 4) == f[i].0.len()
            &&& le_u32_at(e, 8) == at + f[i].0.len()
            &&& le_u32_at(e, 12) == f[i].1.len()
        }),
{
    let at = base + payload_len(f.take(i));
    lemma_payload_len_take(f, i);
    lemma_payload_len_take(f, i + 1);
    assert(f.take(i + 1).drop_last() =~= f.take(i));
    assert(f.take(i + 1).last() == f[i]);
    lemma_le_bytes_roundtrip(at as u32);
    lemma_le_bytes_roundtrip(f[i].0.len() as u32);
    lemma_le_bytes_roundtrip((at + f[i].0.len()) as u32);
    lemma_le_bytes_roundtrip(f[i].1.len() as u32);
    let e = table_entry(f, base, i);
    lemma_le_same(e, 4, le_bytes(f[i].0.len() as u32), 0);
    lemma_le_same(e, 8, le_bytes((at + f[i].0.len()) as u32), 0);
    lemma_le_same(e, 12, le_bytes(f[i].1.len() as u32), 0);
    lemma_le_same(e, 0, le_bytes(at as u32), 0);
}

proof fn lemma_archive_field_meta(et: Seq<u8>, f: ByteFields, i: int)
    requires
        archive_len(et, f) < u32::MAX,
        0 <= i < f.len(),
    ensures
        ({
            let b = archive_bytes(et, f);
            let base: int = (16 + 16 * f.len() + et.len()) as int;
            &&& key_idx(b, i) == base + payload_len(f.take(i))
            &&& key_len(b, i) == f[i].0.len()
            &&& val_idx(b, i) == base + payload_len(f.take(i)) + f[i].0.len()
            &&& val_len(b, i) == f[i].1.len()
        }),
{
    let b = archive_bytes(et, f);
    let base: int = (16 + 16 * f.len() + et.len()) as int;
    lemma_archive_split(et, f);
    lemma_payload_len_nonneg(f);
    lemma_field_table_entry(f, base, i);
    lemma_read_entry(
        b,
        archive_header(et, f),
        field_table(f, base),
        et + payload(f),
        table_entry(f, base, i),
        i,
    );
    lemma_table_entry_values(f, base, i);
}

proof fn lemma_archive_header_fields(et: Seq<u8>, f: ByteFields)
    requires
        archive_len(et, f) < u32::MAX,
    ensures
        ({
            let b = archive_bytes(et, f);
            let ds: int = (16 + 16 * f.len()) as int;
            &&& header_ok(b)
            &&& num_fields_of(b) == f.len()
            &&& type_len_of(b) == et.len()
            &&& type_idx_of(b) == ds
            &&& data_start_of(b) == ds
            &&& b.skip(ds) == et + payload(f)
        }),
{
    let b = archive_bytes(et, f);
    let ds: int = (16 + 16 * f.len()) as int;
    lemma_archive_split(et, f);
    lemma_payload_len_nonneg(f);
    let h = archive_header(et, f);
    lemma_le_bytes_roundtrip(f.len() as u32);
    lemma_le_bytes_roundtrip(et.len() as u32);
    lemma_le_bytes_roundtrip(ds as u32);
    assert(b[4] == h[4] && b[5] == h[5] && b[6] == h[6] && b[7] == h[7]);
    assert(b[8] == h[8] && b[9] == h[9] && b[10] == h[10] && b[11] == h[11]);
    assert(b[12] == h[12] && b[13] == h[13] && b[14] == h[14] && b[15] == h[15]);
    lemma_le_same(b, 8, le_bytes(ds as u32), 0);
    lemma_le_same(b, 4, le_bytes(f.len() as u32), 0);
    lemma_le_same(b, 12, le_bytes(et.len() as u32), 0);
    assert(b.skip(ds) =~= et + payload(f));
}

pub(crate) proof fn lemma_pieces_valid_sub(f: ByteFields, i: int, j: int)
    requires
        pieces_valid(f),
        0 <= i <= j <= f.len(),
    ensures
        pieces_valid(f.subrange(i, j)),
{
    assert forall|k: int| 0 <= k < f.subrange(i, j).len() implies #[trigger] piece_valid(
        f.subrange(i, j)[k],
    ) by {
        let m = i + k;
        assert(f.subrange(i, j)[k] == f[m]);
        assert(piece_valid(f[m]));
    }
}

/// The data of the archive splits, at field `i`, into the entry type and the earlier
/// fields, the key of field `i`, its value, and the later fields.
pub(crate) proof fn lemma_data_split(et: Seq<u8>, f: ByteFields, i: int)
    requires
        valid_utf8(et),
        pieces_valid(f),
        0 <= i < f.len(),
    ensures
        ({
            let a = et + payload(f.take(i));
            let c = payload(f.skip(i + 1));
            &&& et + payload(f) == a + f[i].0 + f[i].1 + c
            &&& a.len() == et.len() + payload_len(f.take(i))
            &&& valid_utf8(a)
            &&& valid_utf8(c)
            &&& valid_utf8(f[i].0)
            &&& valid_utf8(f[i].1)
        }),
{
    assert(piece_valid(f[i]));
    lemma_payload_split(f, i);
    let rest = f.skip(i);
    lemma_payload_first(rest);
    assert(rest.skip(1) =~= f.skip(i + 1));
    assert(rest[0] == f[i]);
    lemma_payload_len_eq(f.take(i));
    assert(f.take(i) =~= f.subrange(0, i));
    assert(f.skip(i + 1) =~= f.subrange(i + 1, f.len() as int));
    lemma_pieces_valid_sub(f, 0, i);
    lemma_pieces_valid_sub(f, i + 1, f.len() as int);
    lemma_payload_valid(f.take(i));
    lemma_payload_valid(f.skip(i + 1));
    vstd::utf8::valid_utf8_concat(et, payload(f.take(i)));
    assert(et + payload(f) =~= et + payload(f.take(i)) + f[i].0 + f[i].1 + payload(
        f.skip(i + 1),
    ));
}

proof fn lemma_archive_boundaries(et: Seq<u8>, f: ByteFields, i: int)
    requires
        archive_len(et, f) < u32::MAX,
        valid_utf8(et),
        pieces_valid(f),
        0 <= i < f.len(),
    ensures
        ({
            let b = archive_bytes(et, f);
            let ds: int = (16 + 16 * f.len()) as int;
            &&& is_char_boundary(b.skip(ds), key_idx(b, i) - ds)
            &&& is_char_boundary(b.skip(ds), val_idx(b, i) - ds)
            &&& is_char_boundary(b.skip(ds), val_idx(b, i) + val_len(b, i) - ds)
        }),
{
    let b = archive_bytes(et, f);
    let ds: int = (16 + 16 * f.len()) as int;
    lemma_archive_header_fields(et, f);
    lemma_archive_field_meta(et, f, i);
    lemma_data_split(et, f, i);
    let a = et + payload(f.take(i));
    let c = payload(f.skip(i + 1));
    let data = b.skip(ds);
    vstd::utf8::valid_utf8_concat(f[i].1, c);
    vstd::utf8::valid_utf8_concat(f[i].0, f[i].1 + c);
    lemma_boundary_concat(a, f[i].0 + (f[i].1 + c));
    assert(data =~= a + (f[i].0 + (f[i].1 + c)));
    vstd::utf8::valid_utf8_concat(a, f[i].0);
    lemma_boundary_concat(a + f[i].0, f[i].1 + c);
    assert(data =~= (a + f[i].0) + (f[i].1 + c));
    vstd::utf8::valid_utf8_concat(a + f[i].0, f[i].1);
    lemma_boundary_concat(a + f[i].0 + f[i].1, c);
    assert(data =~= (a + f[i].0 + f[i].1) + c);
}

/// Adjacent keys of byte fields are in increasing order.
pub open spec fn byte_keys_increasing(f: ByteFields) -> bool {
    forall|i: int| 0 < i < f.len() ==> bytes_lt(#[trigger] f[i - 1].0, f[i].0)
}

#[verifier::rlimit(100)]
#[verifier::spinoff_prover]
proof fn lemma_archive_field_check(et: Seq<u8>, f: ByteFields, i: int)
    requires
        archive_len(et, f) < u32::MAX,
        valid_utf8(et),
        pieces_valid(f),
        byte_keys_increasing(f),
        0 <= i < f.len(),
    ensures
        ({
            let kv = 16 + 16 * f.len() + et.len() + payload_len(f.take(i));
            field_check(archive_bytes(et, f), i, kv) == Ok::<int, AccessFault>(
                kv + f[i].0.len() + f[i].1.len(),
            )
        }),
        payload_len(f.take(i + 1)) == payload_len(f.take(i)) + f[i].0.len() + f[i].1.len(),
{
    let b = archive_bytes(et, f);
    let ds: int = (16 + 16 * f.len()) as int;
    let kv = 16 + 16 * f.len() + et.len() + payload_len(f.take(i));
    let ke = kv + f[i].0.len();
    let ve = ke + f[i].1.len();
    assert(f.take(i + 1).drop_last() =~= f.take(i));
    assert(f.take(i + 1).last() == f[i]);
    assert(ve <= b.len() && data_start_of(b) == ds) by {
        lemma_archive_header_fields(et, f);
        lemma_archive_split(et, f);
        lemma_payload_len_take(f, i + 1);
    }
    assert(key_idx(b, i) == kv && key_len(b, i) == f[i].0.len() && val_idx(b, i) == ke
        && val_len(b, i) == f[i].1.len()) by {
        lemma_archive_field_meta(et, f, i);
    }
    assert(is_char_boundary(b.skip(ds), kv - ds) && is_char_boundary(b.skip(ds), ke - ds)
        && is_char_boundary(b.skip(ds), ve - ds)) by {
        lemma_archive_boundaries(et, f, i);
    }
    assert(zeros(b, kv, kv));
    assert(zeros(b, ke, ke));
    assert(i > 0 ==> bytes_lt(key_bytes(b, i - 1), key_bytes(b, i))) by {
        if i > 0 {
            lemma_archive_pieces(et, f, i);
            lemma_archive_pieces(et, f, i - 1);
            assert(bytes_lt(f[i - 1].0, f[i].0));
        }
    }
}

proof fn lemma_check_archive_from(et: Seq<u8>, f: ByteFields, i: int)
    requires
        archive_len(et, f) < u32::MAX,
        valid_utf8(et),
        pieces_valid(f),
        byte_keys_increasing(f),
        0 <= i <= f.len(),
    ensures
        check_fields_from(
            archive_bytes(et, f),
            i,
            16 + 16 * f.len() + et.len() + payload_len(f.take(i)),
        ) == Ok::<int, AccessFault>(archive_len(et, f)),
    decreases f.len() - i,
{
    lemma_archive_header_fields(et, f);
    if i == f.len() {
        assert(f.take(i) =~= f);
    } else {
        lemma_archive_field_check(et, f, i);
        lemma_check_archive_from(et, f, i + 1);
    }
}

/// The bytes that a field key or value is read from hold its encoding.
proof fn lemma_archive_pieces(et: Seq<u8>, f: ByteFields, i: int)
    requires
        archive_len(et, f) < u32::MAX,
        valid_utf8(et),
        pieces_valid(f),
        0 <= i < f.len(),
    ensures
        ({
            let b = archive_bytes(et, f);
            &&& b.subrange(key_idx(b, i), key_idx(b, i) + key_len(b, i)) == f[i].0
            &&& b.subrange(val_idx(b, i), val_idx(b, i) + val_len(b, i)) == f[i].1
        }),
{
    let b = archive_bytes(et, f);
    let ds: int = (16 + 16 * f.len()) as int;
    lemma_archive_header_fields(et, f);
    lemma_archive_split(et, f);
    lemma_archive_field_meta(et, f, i);
    lemma_data_split(et, f, i);
    let a = et + payload(f.take(i));
    let c = payload(f.skip(i + 1));
    assert(b.skip(ds) =~= a + f[i].0 + f[i].1 + c);
    let k = key_idx(b, i);
    assert(b.subrange(k, k + key_len(b, i)) =~= f[i].0) by {
        assert forall|j: int| 0 <= j < f[i].0.len() implies b.subrange(
            k,
            k + key_len(b, i),
        )[j] == f[i].0[j] by {
            assert(b[k + j] == b.skip(ds)[a.len() + j]);
        }
    }
    let v = val_idx(b, i);
    assert(b.subrange(v, v + val_len(b, i)) =~= f[i].1) by {
        assert forall|j: int| 0 <= j < f[i].1.len() implies b.subrange(
            v,
            v + val_len(b, i),
        )[j] == f[i].1[j] by {
            assert(b[v + j] == b.skip(ds)[a.len() + f[i].0.len() + j]);
        }
    }
}

/// Archived data with keys sorted is accepted by the format check, and reads back as the entry
/// type and the fields that were archived.
pub proof fn lemma_archive_roundtrip(et: Seq<char>, fv: FieldsView)
    requires
        archive_len(encode_utf8(et), encode_fields(fv)) < u32::MAX,
        keys_sorted(fv),
    ensures
        ({
            let b = archive_bytes(encode_utf8(et), encode_fields(fv));
            &&& archive_check(b) is Ok
            &&& archived_entry_type(b) == et
            &&& archived_fields(b) == fv
        }),
{
    let e = encode_utf8(et);
    let f = encode_fields(fv);
    let b = archive_bytes(e, f);
    vstd::utf8::encode_utf8_valid_utf8(et);
    vstd::utf8::encode_utf8_decode_utf8(et);
    assert(pieces_valid(f)) by {
        assert forall|i: int| 0 <= i < f.len() implies #[trigger] piece_valid(f[i]) by {
            vstd::utf8::encode_utf8_valid_utf8(fv[i].0);
            vstd::utf8::encode_utf8_valid_utf8(fv[i].1);
        }
    }
    lemma_archive_header_fields(e, f);
    lemma_archive_split(e, f);
    lemma_payload_len_nonneg(f);
    lemma_payload_valid(f);
    vstd::utf8::valid_utf8_concat(e, payload(f));
    assert(f.take(0) =~= Seq::<(Seq<u8>, Seq<u8>)>::empty());
    assert(byte_keys_increasing(f)) by {
        assert forall|i: int| 0 < i < f.len() implies bytes_lt(#[trigger] f[i - 1].0, f[i].0) by {
            assert(key_lt(fv[i - 1].0, fv[i].0));
        }
    }
    lemma_check_archive_from(e, f, 0);
    let ds: int = (16 + 16 * f.len()) as int;
    vstd::utf8::is_char_boundary_start_end_of_seq(b.skip(ds));
    lemma_boundary_concat(e, payload(f));
    assert(check_type_of(b) == Ok::<int, AccessFault>(ds + e.len()));
    assert(b.subrange(ds, ds + e.len()) =~= e) by {
        assert forall|j: int| 0 <= j < e.len() implies b.subrange(ds, ds + e.len())[j] == e[j] by {
            assert(b[ds + j] == b.skip(ds)[j]);
        }
    }
    assert forall|i: int| 0 <= i < fv.len() implies #[trigger] archived_fields(b)[i] == fv[i] by {
        lemma_archive_pieces(e, f, i);
        vstd::utf8::encode_utf8_decode_utf8(fv[i].0);
        vstd::utf8::encode_utf8_decode_utf8(fv[i].1);
    }
    assert(archived_fields(b) =~= fv);
}

/// Field `i` of checked archive bytes points inside the `DATA` block, at char boundaries.
pub open spec fn field_ok(b: Seq<u8>, i: int) -> bool {
    let ds = data_start_of(b);
    let data = b.skip(ds);
    let ki = key_idx(b, i);
    let ke = ki + key_len(b, i);
    let vi = val_idx(b, i);
    let ve = vi + val_len(b, i);
    &&& ds <= ki <= ke <= vi <= ve <= b.len()
    &&& is_char_boundary(data, ki - ds)
    &&& is_char_boundary(data, ke - ds)
    &&& is_char_boundary(data, vi - ds)
    &&& is_char_boundary(data, ve - ds)
}

/// Checked archive bytes: the entry type and every field point inside the `DATA` block, and
/// each key sorts after the key before it.
pub open spec fn layout_ok(b: Seq<u8>) -> bool {
    let ds = data_start_of(b);
    let t = type_idx_of(b);
    &&& header_ok(b)
    &&& 0 <= num_fields_of(b)
    &&& ds <= b.len()
    &&& valid_utf8(b.skip(ds))
    &&& ds <= t <= t + type_len_of(b) <= b.len()
    &&& is_char_boundary(b.skip(ds), t - ds)
    &&& is_char_boundary(b.skip(ds), t + type_len_of(b) - ds)
    &&& forall|i: int| 0 <= i < num_fields_of(b) ==> #[trigger] field_ok(b, i)
    &&& forall|i: int|
        0 < i < num_fields_of(b) ==> bytes_lt(key_bytes(b, i - 1), #[trigger] key_bytes(b, i))
}

/// Where a later string may start after null padding at a char boundary, the place `p` is a
/// char boundary too.
proof fn lemma_gap_boundary(b: Seq<u8>, p: int, q: int)
    requires
        data_start_of(b) <= p <= q,
        data_start_of(b) <= b.len(),
        valid_utf8(b.skip(data_start_of(b))),
        gap_ok(b, p, q),
        is_char_boundary(b.skip(data_start_of(b)), q - data_start_of(b)),
    ensures
        p <= b.len(),
        is_char_boundary(b.skip(data_start_of(b)), p - data_start_of(b)),
{
    let ds = data_start_of(b);
    let data = b.skip(ds);
    lemma_boundary_in(data, q - ds);
    if p < q {
        assert(b[p] == 0);
        assert(data[p - ds] == b[p]);
        vstd::utf8::is_char_boundary_iff_not_is_continuation_byte(data, p - ds);
    }
}

proof fn lemma_check_fields_layout(b: Seq<u8>, i: int, kv: int, end: int)
    requires
        header_ok(b),
        data_start_of(b) <= b.len(),
        valid_utf8(b.skip(data_start_of(b))),
        0 <= i <= num_fields_of(b),
        data_start_of(b) <= kv,
        check_fields_from(b, i, kv) == Ok::<int, AccessFault>(end),
        end <= b.len(),
        is_char_boundary(b.skip(data_start_of(b)), end - data_start_of(b)),
    ensures
        kv <= b.len(),
        is_char_boundary(b.skip(data_start_of(b)), kv - data_start_of(b)),
        forall|j: int| i <= j < num_fields_of(b) ==> #[trigger] field_ok(b, j),
        forall|j: int|
            i <= j < num_fields_of(b) && 0 < j ==> bytes_lt(
                key_bytes(b, j - 1),
                #[trigger] key_bytes(b, j),
            ),
    decreases num_fields_of(b) - i,
{
    if i < num_fields_of(b) {
        let ki = key_idx(b, i);
        let ve = val_idx(b, i) + val_len(b, i);
        assert(field_check(b, i, kv) is Ok);
        lemma_check_fields_layout(b, i + 1, ve, end);
        lemma_gap_boundary(b, kv, ki);
        let data = b.skip(data_start_of(b));
        lemma_boundary_in(data, ki + key_len(b, i) - data_start_of(b));
        lemma_boundary_in(data, val_idx(b, i) - data_start_of(b));
    }
}

/// The parts of a passed format check.
proof fn lemma_check_parts(b: Seq<u8>)
    requires
        archive_check(b) is Ok,
    ensures
        header_ok(b),
        data_start_of(b) <= b.len(),
        valid_utf8(b.skip(data_start_of(b))),
        check_type_of(b) == Ok::<int, AccessFault>(type_idx_of(b) + type_len_of(b)),
        check_fields_from(b, 0, type_idx_of(b) + type_len_of(b)) is Ok,
        gap_ok(
            b,
            check_fields_from(b, 0, type_idx_of(b) + type_len_of(b))->Ok_0,
            b.len() as int,
        ),
{
}

/// Archive bytes which pass the format check are laid out as the format describes.
#[verifier::spinoff_prover]
pub proof fn lemma_layout(b: Seq<u8>)
    requires
        archive_check(b) is Ok,
    ensures
        layout_ok(b),
{
    let ds = data_start_of(b);
    let data = b.skip(ds);
    let t = type_idx_of(b);
    let te = t + type_len_of(b);
    lemma_check_parts(b);
    assert(ds <= t && is_char_boundary(data, t - ds));
    let end = check_fields_from(b, 0, te)->Ok_0;
    lemma_fields_end(b, 0, te);
    assert(is_char_boundary(data, b.len() - ds)) by {
        vstd::utf8::is_char_boundary_start_end_of_seq(data);
    }
    lemma_gap_boundary(b, end, b.len() as int);
    lemma_check_fields_layout(b, 0, te, end);
}

/// The data of the checked fields ends no earlier than it may start.
proof fn lemma_fields_end(b: Seq<u8>, i: int, kv: int)
    requires
        0 <= i,
        check_fields_from(b, i, kv) is Ok,
    ensures
        kv <= check_fields_from(b, i, kv)->Ok_0,
    decreases num_fields_of(b) - i,
{
    if i < num_fields_of(b) {
        let ve = val_idx(b, i) + val_len(b, i);
        assert(field_check(b, i, kv) is Ok);
        lemma_fields_end(b, i + 1, ve);
    }
}

/// The bytes between two char boundaries of valid Utf-8 are valid Utf-8.
pub proof fn lemma_piece_valid(data: Seq<u8>, s: int, e: int)
    requires
        valid_utf8(data),
        0 <= s <= e <= data.len(),
        is_char_boundary(data, s),
        is_char_boundary(data, e),
    ensures
        valid_utf8(data.subrange(s, e)),
{
    vstd::utf8::valid_utf8_split(data, e);
    let pre = data.subrange(0, e);
    if s < e {
        vstd::utf8::is_char_boundary_iff_not_is_continuation_byte(pre, s);
        if s < data.len() {
            vstd::utf8::is_char_boundary_iff_not_is_continuation_byte(data, s);
        }
    } else {
        vstd::utf8::is_char_boundary_start_end_of_seq(pre);
    }
    vstd::utf8::valid_utf8_split(pre, s);
    assert(pre.subrange(s, pre.len() as int) =~= data.subrange(s, e));
}

/// The key and value of field `i` of checked archive bytes are valid Utf-8, and lie in order
/// inside the bytes.
pub proof fn lemma_field_pieces(b: Seq<u8>, i: int)
    requires
        archive_check(b) is Ok,
        0 <= i < num_fields_of(b),
    ensures
        16 + 16 * i + 16 <= data_start_of(b),
        data_start_of(b) <= key_idx(b, i),
        key_idx(b, i) + key_len(b, i) <= val_idx(b, i),
        val_idx(b, i) + val_len(b, i) <= b.len(),
        valid_utf8(b.subrange(key_idx(b, i), key_idx(b, i) + key_len(b, i))),
        valid_utf8(b.subrange(val_idx(b, i), val_idx(b, i) + val_len(b, i))),
{
    lemma_layout(b);
    assert(field_ok(b, i));
    let ds = data_start_of(b);
    let data = b.skip(ds);
    let ki = key_idx(b, i);
    let ke = ki + key_len(b, i);
    let vi = val_idx(b, i);
    let ve = vi + val_len(b, i);
    lemma_piece_valid(data, ki - ds, ke - ds);
    lemma_piece_valid(data, vi - ds, ve - ds);
    assert(b.subrange(ki, ke) =~= data.subrange(ki - ds, ke - ds));
    assert(b.subrange(vi, ve) =~= data.subrange(vi - ds, ve - ds));
}

/// The entry type of checked archive bytes is valid Utf-8 inside the bytes.
pub proof fn lemma_entry_type_piece(b: Seq<u8>)
    requires
        archive_check(b) is Ok,
    ensures
        data_start_of(b) <= type_idx_of(b),
        type_idx_of(b) + type_len_of(b) <= b.len(),
        0 <= num_fields_of(b),
        valid_utf8(b.subrange(type_idx_of(b), type_idx_of(b) + type_len_of(b))),
{
    lemma_layout(b);
    let ds = data_start_of(b);
    let data = b.skip(ds);
    let t = type_idx_of(b);
    let e = t + type_len_of(b);
    lemma_piece_valid(data, t - ds, e - ds);
    assert(b.subrange(t, e) =~= data.subrange(t - ds, e - ds));
}

/// The fields of checked archive bytes are sorted by key.
pub proof fn lemma_archived_sorted(b: Seq<u8>)
    requires
        archive_check(b) is Ok,
    ensures
        keys_sorted(archived_fields(b)),
{
    lemma_layout(b);
    let f = archived_fields(b);
    assert forall|i: int| 0 <= i < f.len() implies encode_utf8(#[trigger] f[i].0) == key_bytes(b, i) by {
        lemma_field_pieces(b, i);
        vstd::utf8::decode_utf8_encode_utf8(key_bytes(b, i));
    }
    assert forall|i: int, j: int| 0 <= i < j < f.len() implies key_lt(
        #[trigger] f[i].0,
        #[trigger] f[j].0,
    ) by {
        lemma_key_bytes_increasing(b, i, j);
    }
}

proof fn lemma_key_bytes_increasing(b: Seq<u8>, i: int, j: int)
    requires
        layout_ok(b),
        0 <= i < j < num_fields_of(b),
    ensures
        bytes_lt(key_bytes(b, i), key_bytes(b, j)),
    decreases j - i,
{
    assert(bytes_lt(key_bytes(b, j - 1), key_bytes(b, j)));
    if i < j - 1 {
        lemma_key_bytes_increasing(b, i, j - 1);
        crate::encoding::lemma_bytes_lt_transitive(key_bytes(b, i), key_bytes(b, j - 1), key_bytes(b, j));
    }
}

/// The string held by bytes known to be valid Utf-8.
pub fn checked_str(v: &[u8]) -> (r: &str)
    requires
        valid_utf8(v@),
    ensures
        r@ == decode_utf8(v@),
        r.spec_bytes() == v@,
{
    match str_from_utf8(v) {
        Ok(s) => {
            proof {
                lemma_str_of_bytes(s, v@);
            }
            s
        },
        Err(_) => {
            proof {
                assert(false);
            }
            ""
        },
    }
}

/// Entry data stored in the binary archive format.
///
/// The entry type and the fields are read where their pointers point.
#[derive(Debug, PartialEq)]
pub struct ArchivedEntryData {
    bytes: Vec<u8>,
}

impl View for ArchivedEntryData {
    type V = Seq<u8>;

    closed spec fn view(&self) -> Seq<u8> {
        self.bytes@
    }
}

impl ArchivedEntryData {
    #[verifier::type_invariant]
    spec fn inv(self) -> bool {
        archive_check(self.bytes@) is Ok
    }

    /// Obtain the underlying bytes.
    pub fn as_bytes(&self) -> (r: &[u8])
        ensures
            r@ == self@,
            archive_check(r@) is Ok,
    {
        proof {
            use_type_invariant(self);
        }
        self.bytes.as_slice()
    }

    /// Check that raw bytes are in the archive format.
    pub fn validate(bytes: &[u8]) -> (r: Result<(), AccessError>)
        ensures
            r is Ok <==> archive_check(bytes@) is Ok,
            r matches Err(e) ==> archive_check(bytes@) == Err::<(), AccessFault>(e@),
    {
        validate(bytes)
    }

    /// Load the provided byte buffer, first checking that the bytes are valid.
    pub fn load(bytes: Vec<u8>) -> (r: Result<Self, AccessError>)
        ensures
            r is Ok <==> archive_check(bytes@) is Ok,
            r matches Ok(a) ==> a@ == bytes@,
            r matches Err(e) ==> archive_check(bytes@) == Err::<(), AccessFault>(e@),
    {
        match validate(bytes.as_slice()) {
            Ok(()) => Ok(ArchivedEntryData { bytes }),
            Err(e) => Err(e),
        }
    }

    /// Load the provided byte buffer, which the caller knows to be in the archive format.
    pub fn load_unchecked(bytes: Vec<u8>) -> (r: Self)
        requires
            archive_check(bytes@) is Ok,
        ensures
            r@ == bytes@,
    {
        ArchivedEntryData { bytes }
    }

    /// Access data from the provided bytes, first checking that they are valid.
    ///
    /// The bytes are copied into the returned value.
    pub fn access(bytes: &[u8]) -> (r: Result<Self, AccessError>)
        ensures
            r is Ok <==> archive_check(bytes@) is Ok,
            r matches Ok(a) ==> a@ == bytes@,
            r matches Err(e) ==> archive_check(bytes@) == Err::<(), AccessFault>(e@),
    {
        match validate(bytes) {
            Ok(()) => Ok(ArchivedEntryData { bytes: vstd::slice::slice_to_vec(bytes) }),
            Err(e) => Err(e),
        }
    }

    /// Access data from bytes which the caller knows to be in the archive format.
    ///
    /// The bytes are copied into the returned value.
    pub fn access_unchecked(bytes: &[u8]) -> (r: Self)
        requires
            archive_check(bytes@) is Ok,
        ensures
            r@ == bytes@,
    {
        ArchivedEntryData { bytes: vstd::slice::slice_to_vec(bytes) }
    }

    /// Construct the archive of any entry data.
    pub fn from_entry_data<D: EntryData + ?Sized>(data: &D) -> (r: Self)
        requires
            archive_fits(data),
            keys_sorted(data.fields_view()),
        ensures
            r@ == archive_of(data),
            r.entry_type_view() == data.entry_type_view(),
            r.fields_view() == data.fields_view(),
    {
        let bytes = archive(data);
        proof {
            lemma_archive_roundtrip(data.entry_type_view(), data.fields_view());
        }
        ArchivedEntryData { bytes }
    }

    /// Convert into the underlying bytes.
    pub fn into_boxed_bytes(self) -> (r: Vec<u8>)
        ensures
            r@ == self@,
    {
        self.bytes
    }

    fn num_fields(&self) -> (r: usize)
        ensures
            r == num_fields_of(self@),
    {
        proof {
            use_type_invariant(self);
        }
        read_u32_le(self.bytes.as_slice(), 4) as usize
    }
}

impl EntryData for ArchivedEntryData {
    open spec fn entry_type_view(&self) -> Seq<char> {
        archived_entry_type(self@)
    }

    open spec fn fields_view(&self) -> FieldsView {
        archived_fields(self@)
    }

    fn entry_type(&self) -> (r: EntryTypeRef<'_>) {
        proof {
            use_type_invariant(self);
            lemma_entry_type_piece(self.bytes@);
        }
        let b = self.bytes.as_slice();
        let blen = b.len();
        assert(b@ == self.bytes@);
        let t = read_u32_le(b, 8) as usize;
        let tl = read_u32_le(b, 12) as usize;
        assert(t == type_idx_of(b@));
        assert(tl == type_len_of(b@));
        assert(t + tl <= b@.len());
        let piece = slice_subrange(b, t, t + tl);
        EntryTypeRef::from_str_unchecked(checked_str(piece))
    }

    fn count_fields(&self) -> (r: usize)
        ensures
            keys_sorted(self.fields_view()),
    {
        proof {
            use_type_invariant(self);
            lemma_archived_sorted(self.bytes@);
        }
        self.num_fields()
    }

    fn field_at(&self, i: usize) -> (r: (FieldKeyRef<'_>, FieldValueRef<'_>)) {
        proof {
            use_type_invariant(self);
            lemma_field_pieces(self.bytes@, i as int);
        }
        let b = self.bytes.as_slice();
        let blen = b.len();
        assert(b@ == self.bytes@);
        let off = 16 + 16 * i;
        let ki = read_u32_le(b, off) as usize;
        let kl = read_u32_le(b, off + 4) as usize;
        let vi = read_u32_le(b, off + 8) as usize;
        let vl = read_u32_le(b, off + 12) as usize;
        assert(ki == key_idx(b@, i as int));
        assert(kl == key_len(b@, i as int));
        assert(vi == val_idx(b@, i as int));
        assert(vl == val_len(b@, i as int));
        assert(vi + vl <= blen);
        let kp = slice_subrange(b, ki, ki + kl);
        let vp = slice_subrange(b, vi, vi + vl);
        let ks = checked_str(kp);
        let vs = checked_str(vp);
        (FieldKeyRef::from_str_unchecked(ks), FieldValueRef::from_str_unchecked(vs))
    }

    /// With at most six fields, a scan; otherwise a binary search over the keys, which the
    /// archive keeps sorted. Either way the result is the value of the field with the key.
    fn get_field(&self, field_name: &str) -> (r: Option<FieldValueRef<'_>>)
        ensures
            keys_sorted(self.fields_view()),
            value_view(r) == first_match_from(self.fields_view(), field_name@, 0),
    {
        proof {
            use_type_invariant(self);
            lemma_archived_sorted(self.bytes@);
            lemma_scan_sorted(self.fields_view(), field_name@, 0);
        }
        let ghost fv = self.fields_view();
        let ghost name = field_name@;
        let n = self.num_fields();
        if n <= 6 {
            let mut i: usize = 0;
            while i < n
                invariant
                    n == fv.len(),
                    fv == self.fields_view(),
                    name == field_name@,
                    i <= n,
                    keys_sorted(fv),
                    first_match_from(fv, name, 0) == first_match_from(fv, name, i as int),
                decreases n - i,
            {
                let (k, v) = self.field_at(i);
                if str_eq(k.inner(), field_name) {
                    proof {
                        assert(fv[i as int] == (name, v@));
                        lemma_scan_sorted(fv, name, 0);
                    }
                    return Some(v);
                }
                i = i + 1;
            }
            proof {
                lemma_scan_sorted(fv, name, 0);
            }
            None
        } else {
            let mut lo: usize = 0;
            let mut hi: usize = n;
            while lo < hi
                invariant
                    n == fv.len(),
                    n > 6,
                    keys_sorted(fv),
                    fv == self.fields_view(),
                    name == field_name@,
                    lo <= hi <= n,
                    forall|j: int| 0 <= j < lo ==> key_lt(#[trigger] fv[j].0, name),
                    forall|j: int| hi <= j < n ==> key_lt(name, #[trigger] fv[j].0),
                decreases hi - lo,
            {
                let mid = lo + (hi - lo) / 2;
                let (k, v) = self.field_at(mid);
                match compare_keys(k.inner(), field_name) {
                    ByteOrder::Less => {
                        proof {
                            assert forall|j: int| 0 <= j < mid + 1 implies key_lt(
                                #[trigger] fv[j].0,
                                name,
                            ) by {
                                if j < mid {
                                    lemma_key_lt_transitive(fv[j].0, fv[mid as int].0, name);
                                }
                            }
                        }
                        lo = mid + 1;
                    },
                    ByteOrder::Greater => {
                        proof {
                            crate::encoding::lemma_lex_order_flip(encode_utf8(k@), encode_utf8(name));
                            assert forall|j: int| mid <= j < n implies key_lt(
                                name,
                                #[trigger] fv[j].0,
                            ) by {
                                if j > mid {
                                    lemma_key_lt_transitive(name, fv[mid as int].0, fv[j].0);
                                }
                            }
                        }
                        hi = mid;
                    },
                    ByteOrder::Equal => {
                        proof {
                            crate::encoding::lemma_lex_order_equal(encode_utf8(k@), encode_utf8(name));
                            crate::encoding::lemma_encode_injective(k@, name);
                            assert(fv[mid as int] == (name, v@));
                            lemma_sorted_match(fv, name, mid as int);
                        }
                        return Some(v);
                    },
                }
            }
            proof {
                assert forall|j: int| 0 <= j < fv.len() implies #[trigger] fv[j].0 != name by {
                    if j < lo {
                        assert(key_lt(fv[j].0, name));
                    } else {
                        assert(key_lt(name, fv[j].0));
                    }
                    lemma_key_lt_total(fv[j].0, name);
                    lemma_key_lt_total(name, fv[j].0);
                }
                lemma_sorted_no_match(fv, name);
            }
            None
        }
    }
}

impl Archive for ArchivedEntryData {
    open spec fn archive_view(&self) -> Seq<u8> {
        self@
    }

    open spec fn format_ok(bytes: Seq<u8>) -> bool {
        archive_check(bytes) is Ok
    }

    open spec fn fits(entry_type: Seq<char>, fields: FieldsView) -> bool {
        &&& archive_len(encode_utf8(entry_type), encode_fields(fields)) < u32::MAX
        &&& keys_sorted(fields)
    }

    open spec fn encoding(entry_type: Seq<char>, fields: FieldsView) -> Seq<u8> {
        archive_bytes(encode_utf8(entry_type), encode_fields(fields))
    }

    fn as_bytes(&self) -> (r: &[u8]) {
        ArchivedEntryData::as_bytes(self)
    }

    fn into_archive(archive: Self) -> (r: Vec<u8>) {
        archive.into_boxed_bytes()
    }

    fn validate(bytes: &[u8]) -> (r: Result<(), AccessError>) {
        validate(bytes)
    }

    fn from_entry_data<D: EntryData>(data: D) -> (r: Self) {
        ArchivedEntryData::from_entry_data(&data)
    }

    fn load_unchecked(bytes: Vec<u8>) -> (r: Self) {
        ArchivedEntryData::load_unchecked(bytes)
    }

    fn access_unchecked(bytes: &[u8]) -> (r: Self) {
        ArchivedEntryData::access_unchecked(bytes)
    }
}

} // verus!
