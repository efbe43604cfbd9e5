//! Entry data which permits mutation.
//!
//! The fields are kept sorted by key, with each key present at most once.

use crate::data::{
    compare_keys, fields_map, has_key, key_lt, keys_sorted, lemma_key_lt_total,
    lemma_key_lt_transitive, lemma_scan_sorted, lemma_sorted_match, lemma_sorted_no_match,
    first_match_from, scan_get_from, str_view, value_view, EntryData, FieldsView,
};
use crate::encoding::{lex_order, str_eq, ByteOrder};
use crate::error::DataError;
use crate::ident::{
    entry_type_check, field_key_check, field_value_check, lemma_depth_fits_short, lowercase,
    no_braces_from, value_depth_ok, value_len_ok, EntryType, EntryTypeRef, FieldKey, FieldKeyRef,
    FieldValue, FieldValueRef, StandardEntryType, StandardFieldKey,
};
use vstd::prelude::*;
use vstd::utf8::{decode_utf8, encode_utf8, is_char_boundary};

verus! {

/// The strings held by a sequence of owned fields.
pub open spec fn owned_fields_view(s: Seq<(FieldKey, FieldValue)>) -> FieldsView {
    s.map_values(|p: (FieldKey, FieldValue)| (p.0@, p.1@))
}

/// A command to set a field.
#[derive(Debug)]
pub struct SetFieldCommand {
    pub field_key: FieldKey,
    pub field_value: FieldValue,
}

impl View for SetFieldCommand {
    type V = (Seq<char>, Seq<char>);

    open spec fn view(&self) -> (Seq<char>, Seq<char>) {
        (self.field_key@, self.field_value@)
    }
}

impl Clone for SetFieldCommand {
    fn clone(&self) -> (r: Self)
        ensures
            r@ == self@,
    {
        SetFieldCommand { field_key: self.field_key.clone(), field_value: self.field_value.clone() }
    }
}

#[verifier::external_type_specification]
#[verifier::external_body]
pub struct ExBibtexError(serde_bibtex::Error);

/// An error while reading a field assignment.
#[derive(Debug)]
pub enum SetFieldError {
    /// The text does not start with a field assignment `key = value`.
    Syntax(serde_bibtex::Error),
    /// The key or the value is not valid.
    Data(DataError),
}

/// The key and the value token that a BibTeX reader finds at the start of `s`, read as a
/// field assignment `key = value`; `None` when the reader fails.
pub uninterp spec fn field_assignment(s: Seq<char>) -> Option<(Seq<char>, Seq<char>)>;

/// The strings of a read field assignment.
pub open spec fn assignment_view(r: Result<(&str, &str), serde_bibtex::Error>) -> Option<
    (Seq<char>, Seq<char>),
> {
    match r {
        Ok((k, v)) => Some((k@, v@)),
        Err(_) => None,
    }
}

/// Reads `s` with a `serde_bibtex::StrReader`: `read_field_key`, then `skip_field_sep`, then
/// `read_text_token`, which accepts `{text}`, `"text"` or a number. The contract claims that
/// the key and the text read are `field_assignment` of `s`, and that the text is a slice of
/// `s`, as its lifetime in the reader's source shows; what the grammar accepts is left unsaid.
/// The reader counts the depth of `{` in an `i32`, so `s` is kept within `i32::MAX` bytes.
#[verifier::external_body]
fn read_field_assignment(s: &str) -> (r: Result<(&str, &str), serde_bibtex::Error>)
    requires
        value_len_ok(s@),
    ensures
        assignment_view(r) == field_assignment(s@),
        r matches Ok((k, v)) ==> encode_utf8(v@).len() <= encode_utf8(s@).len(),
{
    let mut reader = serde_bibtex::StrReader::new(s);
    let key = reader.read_field_key()?;
    reader.skip_field_sep()?;
    let value = reader.read_text_token()?;
    Ok((key.into_inner(), value))
}

impl SetFieldCommand {
    /// A command to set the key `key`, made ASCII lowercase, to `value`; fails if the key,
    /// then the value, is not valid.
    pub fn from_parts(key: &str, value: &str) -> (r: Result<Self, DataError>)
        requires
            value_depth_ok(value@),
        ensures
            r is Ok <==> field_key_check(lowercase(key@)) is Ok && field_value_check(value@) is Ok,
            r matches Ok(c) ==> c@ == (lowercase(key@), value@),
            r matches Err(e) ==> match field_key_check(lowercase(key@)) {
                Err(x) => e == x,
                Ok(()) => field_value_check(value@) == Err::<(), DataError>(e),
            },
    {
        let field_key = match FieldKey::new(key.to_owned()) {
            Ok(k) => k,
            Err(e) => {
                return Err(e);
            },
        };
        let field_value = match FieldValue::new(value.to_owned()) {
            Ok(v) => v,
            Err(e) => {
                return Err(e);
            },
        };
        Ok(SetFieldCommand { field_key, field_value })
    }

    /// Read a command from a field assignment `key = value`, where the value is one text
    /// token: `{text}`, `"text"` or a number. The key is made ASCII lowercase.
    pub fn parse(s: &str) -> (r: Result<Self, SetFieldError>)
        requires
            value_len_ok(s@),
        ensures
            match field_assignment(s@) {
                None => r matches Err(SetFieldError::Syntax(_)),
                Some((k, v)) => match field_key_check(lowercase(k)) {
                    Err(e) => r matches Err(SetFieldError::Data(x)) && x == e,
                    Ok(()) => match field_value_check(v) {
                        Err(e) => r matches Err(SetFieldError::Data(x)) && x == e,
                        Ok(()) => r matches Ok(c) && c@ == (lowercase(k), v),
                    },
                },
            },
    {
        match read_field_assignment(s) {
            Err(e) => Err(SetFieldError::Syntax(e)),
            Ok((k, v)) => match {
                proof {
                    lemma_depth_fits_short(encode_utf8(v@));
                }
                Self::from_parts(k, v)
            } {
                Ok(c) => Ok(c),
                Err(e) => Err(SetFieldError::Data(e)),
            },
        }
    }
}

/// A command to edit entry data: update the entry type, delete fields, and set fields.
#[derive(Debug)]
pub struct EntryEditCommand {
    pub update_entry_type: Option<EntryType>,
    pub delete_field: Vec<FieldKey>,
    pub set_field: Vec<SetFieldCommand>,
}

impl EntryEditCommand {
    /// The keys to delete, in order.
    pub open spec fn deletes_view(&self) -> Seq<Seq<char>> {
        self.delete_field@.map_values(|k: FieldKey| k@)
    }

    /// The fields to set, in order.
    pub open spec fn sets_view(&self) -> FieldsView {
        self.set_field@.map_values(|c: SetFieldCommand| c@)
    }

    /// Whether the command does nothing.
    pub fn is_identity(&self) -> (r: bool)
        ensures
            r == (self.set_field@.len() == 0 && self.delete_field@.len() == 0
                && self.update_entry_type is None),
    {
        self.set_field.len() == 0 && self.delete_field.len() == 0
            && self.update_entry_type.is_none()
    }
}

impl Default for EntryEditCommand {
    fn default() -> (r: Self)
        ensures
            r.update_entry_type is None,
            r.delete_field@.len() == 0,
            r.set_field@.len() == 0,
    {
        EntryEditCommand { update_entry_type: None, delete_field: Vec::new(), set_field: Vec::new() }
    }
}

/// The outcome of resolving a conflict while merging entry data.
pub enum ConflictResolved<T> {
    /// Keep the current data.
    Current,
    /// Replace with incoming data.
    Incoming,
    /// Use new data.
    New(T),
}

/// An [`EntryData`] implementation which supports addition and deletion of fields.
#[derive(Debug)]
pub struct MutableEntryData {
    entry_type: EntryType,
    fields: Vec<(FieldKey, FieldValue)>,
}

/// Each field of sorted fields is in their map.
pub proof fn lemma_fields_map_index(f: FieldsView, i: int)
    requires
        keys_sorted(f),
        0 <= i < f.len(),
    ensures
        fields_map(f).dom().contains(f[i].0),
        fields_map(f)[f[i].0] == f[i].1,
    decreases f.len(),
{
    let prev = f.drop_last();
    assert(keys_sorted(prev));
    if i < f.len() - 1 {
        lemma_fields_map_index(prev, i);
        lemma_key_lt_total(f[i].0, f.last().0);
        assert(prev[i] == f[i]);
    }
}

/// The keys of the map of fields are the keys of the fields.
pub proof fn lemma_fields_map_dom(f: FieldsView, k: Seq<char>)
    ensures
        fields_map(f).dom().contains(k) <==> has_key(f, k),
    decreases f.len(),
{
    if f.len() > 0 {
        let prev = f.drop_last();
        lemma_fields_map_dom(prev, k);
        if has_key(prev, k) {
            let j = choose|j: int| 0 <= j < prev.len() && #[trigger] prev[j].0 == k;
            assert(f[j].0 == k);
        }
        if has_key(f, k) {
            let j = choose|j: int| 0 <= j < f.len() && #[trigger] f[j].0 == k;
            if j < f.len() - 1 {
                assert(prev[j].0 == k);
            }
        }
    }
}

/// Two sorted field sequences with the same map are the same sequence.
#[verifier::spinoff_prover]
pub proof fn lemma_sorted_fields_canonical(f: FieldsView, g: FieldsView)
    requires
        keys_sorted(f),
        keys_sorted(g),
        fields_map(f) == fields_map(g),
    ensures
        f == g,
    decreases f.len() + g.len(),
{
    if f.len() == 0 || g.len() == 0 {
        if f.len() > 0 {
            lemma_fields_map_index(f, 0);
            lemma_fields_map_dom(g, f[0].0);
        }
        if g.len() > 0 {
            lemma_fields_map_index(g, 0);
            lemma_fields_map_dom(f, g[0].0);
        }
        assert(f =~= g);
    } else {
        let a = f.last().0;
        let b = g.last().0;
        lemma_fields_map_index(f, f.len() - 1);
        lemma_fields_map_index(g, g.len() - 1);
        lemma_fields_map_dom(g, a);
        lemma_fields_map_dom(f, b);
        let ja = choose|j: int| 0 <= j < g.len() && #[trigger] g[j].0 == a;
        let jb = choose|j: int| 0 <= j < f.len() && #[trigger] f[j].0 == b;
        if a != b {
            lemma_key_lt_total(a, b);
            if key_lt(a, b) {
                // b is in f, before the last key a, so b < a
                if jb < f.len() - 1 {
                    lemma_key_lt_total(b, a);
                }
            } else {
                if ja < g.len() - 1 {
                    lemma_key_lt_total(a, b);
                }
            }
        }
        assert(a == b);
        let fp = f.drop_last();
        let gp = g.drop_last();
        assert(keys_sorted(fp));
        assert(keys_sorted(gp));
        lemma_fields_map_not_last(f);
        lemma_fields_map_not_last(g);
        assert(fields_map(fp) =~= fields_map(gp));
        lemma_sorted_fields_canonical(fp, gp);
        assert(f =~= fp.push(f.last()));
        assert(g =~= gp.push(g.last()));
    }
}

/// In sorted fields the last key occurs only last, so the map of the earlier fields is the
/// whole map without it.
proof fn lemma_fields_map_not_last(f: FieldsView)
    requires
        keys_sorted(f),
        f.len() > 0,
    ensures
        fields_map(f.drop_last()) == fields_map(f).remove(f.last().0),
{
    let prev = f.drop_last();
    let a = f.last().0;
    assert(!fields_map(prev).dom().contains(a)) by {
        lemma_fields_map_dom(prev, a);
        if has_key(prev, a) {
            let j = choose|j: int| 0 <= j < prev.len() && #[trigger] prev[j].0 == a;
            assert(f[j].0 == a);
            lemma_key_lt_total(f[j].0, a);
        }
    }
    assert(fields_map(prev) =~= fields_map(f).remove(a));
}

/// Replacing the value of a key updates the map at that key.
pub proof fn lemma_map_update(f: FieldsView, i: int, v: Seq<char>)
    requires
        keys_sorted(f),
        0 <= i < f.len(),
    ensures
        keys_sorted(f.update(i, (f[i].0, v))),
        fields_map(f.update(i, (f[i].0, v))) == fields_map(f).insert(f[i].0, v),
{
    let k = f[i].0;
    let g = f.update(i, (k, v));
    assert(keys_sorted(g)) by {
        assert forall|a: int, b: int| 0 <= a < b < g.len() implies key_lt(
            #[trigger] g[a].0,
            #[trigger] g[b].0,
        ) by {
            assert(g[a].0 == f[a].0 && g[b].0 == f[b].0);
        }
    }
    assert forall|x: Seq<char>| #[trigger] fields_map(g).dom().contains(x) <==> fields_map(
        f,
    ).insert(k, v).dom().contains(x) by {
        lemma_fields_map_dom(g, x);
        lemma_fields_map_dom(f, x);
        if has_key(f, x) {
            let j = choose|j: int| 0 <= j < f.len() && #[trigger] f[j].0 == x;
            assert(g[j].0 == x);
        }
        if has_key(g, x) {
            let j = choose|j: int| 0 <= j < g.len() && #[trigger] g[j].0 == x;
            assert(f[j].0 == x);
        }
        if x == k {
            assert(g[i].0 == x);
        }
    }
    assert forall|x: Seq<char>| #[trigger] fields_map(g).dom().contains(x) implies fields_map(
        g,
    )[x] == fields_map(f).insert(k, v)[x] by {
        lemma_fields_map_dom(g, x);
        let j = choose|j: int| 0 <= j < g.len() && #[trigger] g[j].0 == x;
        lemma_fields_map_index(g, j);
        if x != k {
            assert(f[j] == g[j]);
            lemma_fields_map_index(f, j);
        } else {
            lemma_fields_map_index(g, i);
        }
    }
    assert(fields_map(g) =~= fields_map(f).insert(k, v));
}

/// Inserting a new key where it sorts updates the map at that key.
pub proof fn lemma_map_insert(f: FieldsView, i: int, k: Seq<char>, v: Seq<char>)
    requires
        keys_sorted(f),
        0 <= i <= f.len(),
        forall|j: int| 0 <= j < i ==> key_lt(#[trigger] f[j].0, k),
        forall|j: int| i <= j < f.len() ==> key_lt(k, #[trigger] f[j].0),
    ensures
        keys_sorted(f.insert(i, (k, v))),
        fields_map(f.insert(i, (k, v))) == fields_map(f).insert(k, v),
        !fields_map(f).dom().contains(k),
{
    let g = f.insert(i, (k, v));
    assert(keys_sorted(g)) by {
        assert forall|a: int, b: int| 0 <= a < b < g.len() implies key_lt(
            #[trigger] g[a].0,
            #[trigger] g[b].0,
        ) by {
            if b < i {
                assert(g[a] == f[a] && g[b] == f[b]);
            } else if b == i {
                assert(g[a] == f[a]);
            } else if a < i {
                assert(g[a] == f[a] && g[b] == f[b - 1]);
                lemma_key_lt_transitive(f[a].0, k, f[b - 1].0);
            } else if a == i {
                assert(g[b] == f[b - 1]);
            } else {
                assert(g[a] == f[a - 1] && g[b] == f[b - 1]);
            }
        }
    }
    assert forall|j: int| 0 <= j < f.len() implies #[trigger] f[j].0 != k by {
        lemma_key_lt_total(f[j].0, k);
        lemma_key_lt_total(k, f[j].0);
    }
    lemma_fields_map_dom(f, k);
    assert forall|x: Seq<char>| #[trigger] fields_map(g).dom().contains(x) <==> fields_map(
        f,
    ).insert(k, v).dom().contains(x) by {
        lemma_fields_map_dom(g, x);
        lemma_fields_map_dom(f, x);
        if has_key(f, x) {
            let j = choose|j: int| 0 <= j < f.len() && #[trigger] f[j].0 == x;
            if j < i {
                assert(g[j].0 == x);
            } else {
                assert(g[j + 1].0 == x);
            }
        }
        if has_key(g, x) {
            let j = choose|j: int| 0 <= j < g.len() && #[trigger] g[j].0 == x;
            if j < i {
                assert(f[j].0 == x);
            } else if j > i {
                assert(f[j - 1].0 == x);
            }
        }
        if x == k {
            assert(g[i].0 == x);
        }
    }
    assert forall|x: Seq<char>| #[trigger] fields_map(g).dom().contains(x) implies fields_map(
        g,
    )[x] == fields_map(f).insert(k, v)[x] by {
        lemma_fields_map_dom(g, x);
        let j = choose|j: int| 0 <= j < g.len() && #[trigger] g[j].0 == x;
        lemma_fields_map_index(g, j);
        if x != k {
            if j < i {
                assert(f[j] == g[j]);
                lemma_fields_map_index(f, j);
            } else if j > i {
                assert(f[j - 1] == g[j]);
                lemma_fields_map_index(f, j - 1);
            }
        } else {
            lemma_fields_map_index(g, i);
        }
    }
    assert(fields_map(g) =~= fields_map(f).insert(k, v));
}

/// Removing the field at `i` removes its key from the map.
pub proof fn lemma_map_remove(f: FieldsView, i: int)
    requires
        keys_sorted(f),
        0 <= i < f.len(),
    ensures
        keys_sorted(f.remove(i)),
        fields_map(f.remove(i)) == fields_map(f).remove(f[i].0),
{
    let k = f[i].0;
    let g = f.remove(i);
    assert(keys_sorted(g)) by {
        assert forall|a: int, b: int| 0 <= a < b < g.len() implies key_lt(
            #[trigger] g[a].0,
            #[trigger] g[b].0,
        ) by {
            if b < i {
                assert(g[a] == f[a] && g[b] == f[b]);
            } else if a < i {
                assert(g[a] == f[a] && g[b] == f[b + 1]);
            } else {
                assert(g[a] == f[a + 1] && g[b] == f[b + 1]);
            }
        }
    }
    assert forall|x: Seq<char>| #[trigger] fields_map(g).dom().contains(x) <==> fields_map(
        f,
    ).remove(k).dom().contains(x) by {
        lemma_fields_map_dom(g, x);
        lemma_fields_map_dom(f, x);
        if has_key(f, x) && x != k {
            let j = choose|j: int| 0 <= j < f.len() && #[trigger] f[j].0 == x;
            if j < i {
                assert(g[j].0 == x);
            } else {
                assert(j != i);
                assert(g[j - 1].0 == x);
            }
        }
        if has_key(g, x) {
            let j = choose|j: int| 0 <= j < g.len() && #[trigger] g[j].0 == x;
            if j < i {
                assert(f[j].0 == x);
                lemma_key_lt_total(f[j].0, f[i].0);
            } else {
                assert(f[j + 1].0 == x);
                lemma_key_lt_total(f[i].0, f[j + 1].0);
            }
        }
    }
    assert forall|x: Seq<char>| #[trigger] fields_map(g).dom().contains(x) implies fields_map(
        g,
    )[x] == fields_map(f).remove(k)[x] by {
        lemma_fields_map_dom(g, x);
        let j = choose|j: int| 0 <= j < g.len() && #[trigger] g[j].0 == x;
        lemma_fields_map_index(g, j);
        if j < i {
            assert(f[j] == g[j]);
            lemma_fields_map_index(f, j);
        } else {
            assert(f[j + 1] == g[j]);
            lemma_fields_map_index(f, j + 1);
        }
    }
    assert(fields_map(g) =~= fields_map(f).remove(k));
}

/// The string held by an optional owned field value.
pub open spec fn owned_value_view(r: Option<FieldValue>) -> Option<Seq<char>> {
    match r {
        Some(v) => Some(v@),
        None => None,
    }
}

/// The entry type after a conflict between `current` and `incoming` is resolved as `res`.
pub open spec fn resolved_entry_type(
    current: Seq<char>,
    incoming: Seq<char>,
    res: ConflictResolved<EntryType>,
) -> Seq<char> {
    match res {
        ConflictResolved::Current => current,
        ConflictResolved::Incoming => incoming,
        ConflictResolved::New(t) => t@,
    }
}

/// The value after a conflict between `current` and `incoming` is resolved as `res`.
pub open spec fn resolved_value(
    current: Seq<char>,
    incoming: Seq<char>,
    res: ConflictResolved<FieldValue>,
) -> Seq<char> {
    match res {
        ConflictResolved::Current => current,
        ConflictResolved::Incoming => incoming,
        ConflictResolved::New(v) => v@,
    }
}

/// `value` is what merging the field `(key, incoming)` can give when the key currently has
/// the value `current`: the incoming value for a new key, the current value when the two
/// agree, and otherwise the resolution returned by a call of `resolve` on the key and the two
/// values.
pub open spec fn merge_outcome<F>(
    resolve: F,
    key: Seq<char>,
    current: Option<Seq<char>>,
    incoming: Seq<char>,
    value: Seq<char>,
) -> bool where
    F: Fn(FieldKeyRef<'_>, FieldValueRef<'_>, FieldValueRef<'_>) -> ConflictResolved<FieldValue>,
 {
    match current {
        None => value == incoming,
        Some(c) => if c == incoming {
            value == c
        } else {
            exists|
                kr: FieldKeyRef<'_>,
                cr: FieldValueRef<'_>,
                ir: FieldValueRef<'_>,
                res: ConflictResolved<FieldValue>,
            |
                #![trigger call_ensures(resolve, (kr, cr, ir), res)]
                kr@ == key && cr@ == c && ir@ == incoming && call_ensures(resolve, (kr, cr, ir), res)
                    && value == resolved_value(c, incoming, res)
        },
    }
}

/// `ms` is a run of merging the fields `f`, in order, into `m`: `ms[j]` is the map before
/// field `j` is merged, and each step sets the key of the field to a value that
/// `merge_outcome` allows against the value the key has at that point.
pub open spec fn merge_trace<F>(
    resolve: F,
    m: Map<Seq<char>, Seq<char>>,
    f: FieldsView,
    ms: Seq<Map<Seq<char>, Seq<char>>>,
) -> bool where
    F: Fn(FieldKeyRef<'_>, FieldValueRef<'_>, FieldValueRef<'_>) -> ConflictResolved<FieldValue>,
 {
    &&& ms.len() == f.len() + 1
    &&& ms[0] == m
    &&& forall|j: int|
        0 <= j < f.len() ==> #[trigger] ms[j + 1] == ms[j].insert(f[j].0, ms[j + 1][f[j].0])
            && merge_outcome(resolve, f[j].0, ms[j].get(f[j].0), f[j].1, ms[j + 1][f[j].0])
}

/// The map after setting each `(key, value)` in order.
pub open spec fn apply_sets(m: Map<Seq<char>, Seq<char>>, sets: FieldsView) -> Map<
    Seq<char>,
    Seq<char>,
>
    decreases sets.len(),
{
    if sets.len() == 0 {
        m
    } else {
        apply_sets(m, sets.drop_last()).insert(sets.last().0, sets.last().1)
    }
}

/// Some set, in order, gave a key a value it did not have.
pub open spec fn sets_change(m: Map<Seq<char>, Seq<char>>, sets: FieldsView) -> bool
    decreases sets.len(),
{
    if sets.len() == 0 {
        false
    } else {
        sets_change(m, sets.drop_last()) || apply_sets(m, sets.drop_last()).get(sets.last().0)
            != Some(sets.last().1)
    }
}

/// The map after removing each key in order.
pub open spec fn apply_deletes(m: Map<Seq<char>, Seq<char>>, keys: Seq<Seq<char>>) -> Map<
    Seq<char>,
    Seq<char>,
>
    decreases keys.len(),
{
    if keys.len() == 0 {
        m
    } else {
        apply_deletes(m, keys.drop_last()).remove(keys.last())
    }
}

/// Some removal, in order, removed a key that was present.
pub open spec fn deletes_change(m: Map<Seq<char>, Seq<char>>, keys: Seq<Seq<char>>) -> bool
    decreases keys.len(),
{
    if keys.len() == 0 {
        false
    } else {
        deletes_change(m, keys.drop_last()) || apply_deletes(m, keys.drop_last()).dom().contains(
            keys.last(),
        )
    }
}

/// The map after adding, in order, each `(key, value)` whose key is not present yet.
pub open spec fn apply_missing(m: Map<Seq<char>, Seq<char>>, f: FieldsView) -> Map<
    Seq<char>,
    Seq<char>,
>
    decreases f.len(),
{
    if f.len() == 0 {
        m
    } else {
        let prev = apply_missing(m, f.drop_last());
        if prev.dom().contains(f.last().0) {
            prev
        } else {
            prev.insert(f.last().0, f.last().1)
        }
    }
}

/// Setting the fields of a sequence in order gives the map of the sequence.
pub proof fn lemma_apply_sets_empty(f: FieldsView)
    ensures
        apply_sets(Map::empty(), f) == fields_map(f),
    decreases f.len(),
{
    if f.len() > 0 {
        lemma_apply_sets_empty(f.drop_last());
    }
}

impl MutableEntryData {
    #[verifier::type_invariant]
    spec fn inv(self) -> bool {
        keys_sorted(owned_fields_view(self.fields@))
    }
}

impl Default for MutableEntryData {
    fn default() -> (r: Self)
        ensures
            r.entry_type_view() == StandardEntryType::Misc.spec_name(),
            r.fields_view() == Seq::<(Seq<char>, Seq<char>)>::empty(),
    {
        Self::new(EntryType::default())
    }
}

impl PartialEq for MutableEntryData {
    fn eq(&self, other: &Self) -> (r: bool) {
        if !str_eq(self.entry_type.as_str(), other.entry_type.as_str()) {
            return false;
        }
        if self.fields.len() != other.fields.len() {
            proof {
                assert(self.fields_view().len() != other.fields_view().len());
            }
            return false;
        }
        let n = self.fields.len();
        let mut i: usize = 0;
        while i < n
            invariant
                n == self.fields_view().len(),
                n == other.fields_view().len(),
                i <= n,
                forall|j: int| 0 <= j < i ==> #[trigger] self.fields_view()[j] == other.fields_view()[j],
            decreases n - i,
        {
            let a = &self.fields[i];
            let b = &other.fields[i];
            if !str_eq(a.0.as_str(), b.0.as_str()) || !str_eq(a.1.as_str(), b.1.as_str()) {
                proof {
                    assert(self.fields_view()[i as int] != other.fields_view()[i as int]);
                }
                return false;
            }
            i = i + 1;
        }
        proof {
            assert(self.fields_view() =~= other.fields_view());
        }
        true
    }
}

impl vstd::std_specs::cmp::PartialEqSpecImpl for MutableEntryData {
    open spec fn obeys_eq_spec() -> bool {
        true
    }

    open spec fn eq_spec(&self, other: &Self) -> bool {
        self.entry_type_view() == other.entry_type_view() && self.fields_view()
            == other.fields_view()
    }
}

impl Eq for MutableEntryData {}

/// Two entry data compare equal with `==` exactly when they have the same entry type and the
/// same fields in order; since the fields are kept sorted by key, exactly when they have the
/// same entry type and give every key the same value.
pub proof fn lemma_eq_same_fields(a: &MutableEntryData, b: &MutableEntryData)
    requires
        keys_sorted(a.fields_view()),
        keys_sorted(b.fields_view()),
    ensures
        vstd::std_specs::cmp::PartialEqSpec::eq_spec(a, b) <==> a.entry_type_view()
            == b.entry_type_view() && a.fields_view() == b.fields_view(),
        vstd::std_specs::cmp::PartialEqSpec::eq_spec(a, b) <==> a.entry_type_view()
            == b.entry_type_view() && a.fields_view_map() == b.fields_view_map(),
{
    if a.fields_view_map() == b.fields_view_map() {
        lemma_sorted_fields_canonical(a.fields_view(), b.fields_view());
    }
}

impl EntryData for MutableEntryData {
    closed spec fn entry_type_view(&self) -> Seq<char> {
        self.entry_type@
    }

    closed spec fn fields_view(&self) -> FieldsView {
        owned_fields_view(self.fields@)
    }

    fn entry_type(&self) -> (r: EntryTypeRef<'_>)
        ensures
            keys_sorted(self.fields_view()),
    {
        proof {
            use_type_invariant(self);
        }
        self.entry_type.by_ref()
    }

    fn count_fields(&self) -> (r: usize)
        ensures
            keys_sorted(self.fields_view()),
    {
        proof {
            use_type_invariant(self);
        }
        self.fields.len()
    }

    fn field_at(&self, i: usize) -> (r: (FieldKeyRef<'_>, FieldValueRef<'_>))
        ensures
            keys_sorted(self.fields_view()),
    {
        proof {
            use_type_invariant(self);
        }
        let p = &self.fields[i];
        (p.0.by_ref(), p.1.by_ref())
    }

    /// The value of the field with the key.
    fn get_field(&self, field_name: &str) -> (r: Option<FieldValueRef<'_>>)
        ensures
            value_view(r) == scan_get_from(self.fields_view(), field_name@, 0),
            value_view(r) == self.fields_view_map().get(field_name@),
            keys_sorted(self.fields_view()),
    {
        self.get(field_name)
    }

    /// The value of the field with the key, as a string.
    fn get_field_str(&self, field_name: &str) -> (r: Option<&str>)
        ensures
            str_view(r) == self.fields_view_map().get(field_name@),
            keys_sorted(self.fields_view()),
    {
        match self.get(field_name) {
            Some(v) => Some(v.inner()),
            None => None,
        }
    }

    fn contains_field(&self, field_name: &str) -> (r: bool)
        ensures
            r == self.fields_view_map().dom().contains(field_name@),
            keys_sorted(self.fields_view()),
    {
        let (i, found) = self.find_slot(field_name);
        proof {
            use_type_invariant(self);
            lemma_fields_map_dom(self.fields_view(), field_name@);
            if !found {
                self.lemma_absent(field_name@, i as int);
                lemma_sorted_no_match(self.fields_view(), field_name@);
            } else {
                lemma_sorted_match(self.fields_view(), field_name@, i as int);
                assert(self.fields_view()[i as int].0 == field_name@);
            }
        }
        found
    }
}

impl MutableEntryData {
    /// The map from each key to its value.
    pub open spec fn fields_view_map(&self) -> Map<Seq<char>, Seq<char>> {
        fields_map(self.fields_view())
    }

    proof fn lemma_absent(&self, k: Seq<char>, i: int)
        requires
            keys_sorted(self.fields_view()),
            0 <= i <= self.fields_view().len(),
            forall|j: int| 0 <= j < i ==> key_lt(#[trigger] self.fields_view()[j].0, k),
            forall|j: int|
                i <= j < self.fields_view().len() ==> key_lt(k, #[trigger] self.fields_view()[j].0),
        ensures
            !has_key(self.fields_view(), k),
            forall|j: int|
                0 <= j < self.fields_view().len() ==> #[trigger] self.fields_view()[j].0 != k,
    {
        let f = self.fields_view();
        assert forall|j: int| 0 <= j < f.len() implies #[trigger] f[j].0 != k by {
            lemma_key_lt_total(f[j].0, k);
            lemma_key_lt_total(k, f[j].0);
        }
    }

    /// Finds where `key` is, or where it would be inserted: every key before the position is
    /// smaller, and every key from it on is larger unless it is `key` itself.
    fn find_slot(&self, key: &str) -> (r: (usize, bool))
        ensures
            r.0 <= self.fields_view().len(),
            forall|j: int| 0 <= j < r.0 ==> key_lt(#[trigger] self.fields_view()[j].0, key@),
            r.1 ==> r.0 < self.fields_view().len() && self.fields_view()[r.0 as int].0 == key@,
            !r.1 ==> forall|j: int|
                r.0 <= j < self.fields_view().len() ==> key_lt(
                    key@,
                    #[trigger] self.fields_view()[j].0,
                ),
    {
        proof {
            use_type_invariant(self);
        }
        let ghost fv = self.fields_view();
        let n = self.fields.len();
        let mut lo: usize = 0;
        let mut hi: usize = n;
        while lo < hi
            invariant
                n == fv.len(),
                fv == self.fields_view(),
                keys_sorted(fv),
                lo <= hi <= n,
                forall|j: int| 0 <= j < lo ==> key_lt(#[trigger] fv[j].0, key@),
                forall|j: int| hi <= j < n ==> key_lt(key@, #[trigger] fv[j].0),
            decreases hi - lo,
        {
            let mid = lo + (hi - lo) / 2;
            let k = self.fields[mid].0.as_str();
            match compare_keys(k, key) {
                ByteOrder::Less => {
                    proof {
                        assert forall|j: int| 0 <= j < mid + 1 implies key_lt(
                            #[trigger] fv[j].0,
                            key@,
                        ) by {
                            if j < mid {
                                lemma_key_lt_transitive(fv[j].0, fv[mid as int].0, key@);
                            }
                        }
                    }
                    lo = mid + 1;
                },
                ByteOrder::Greater => {
                    proof {
                        crate::encoding::lemma_lex_order_flip(encode_utf8(k@), encode_utf8(key@));
                        assert forall|j: int| mid <= j < n implies key_lt(
                            key@,
                            #[trigger] fv[j].0,
                        ) by {
                            if j > mid {
                                lemma_key_lt_transitive(key@, fv[mid as int].0, fv[j].0);
                            }
                        }
                    }
                    hi = mid;
                },
                ByteOrder::Equal => {
                    proof {
                        crate::encoding::lemma_lex_order_equal(encode_utf8(k@), encode_utf8(key@));
                        crate::encoding::lemma_encode_injective(k@, key@);
                        assert forall|j: int| 0 <= j < mid implies key_lt(
                            #[trigger] fv[j].0,
                            key@,
                        ) by {
                            assert(key_lt(fv[j].0, fv[mid as int].0));
                        }
                    }
                    return (mid, true);
                },
            }
        }
        (lo, false)
    }

    /// Get the value at the key.
    pub fn get(&self, key: &str) -> (r: Option<FieldValueRef<'_>>)
        ensures
            keys_sorted(self.fields_view()),
            value_view(r) == self.fields_view_map().get(key@),
            value_view(r) == scan_get_from(self.fields_view(), key@, 0),
            r matches Some(v) ==> exists|i: int|
                0 <= i < self.fields_view().len() && #[trigger] self.fields_view()[i] == (
                key@,
                v@,
            ),
    {
        proof {
            use_type_invariant(self);
        }
        let ghost fv = self.fields_view();
        let (i, found) = self.find_slot(key);
        if found {
            let v = self.fields[i].1.by_ref();
            proof {
                lemma_fields_map_index(fv, i as int);
                lemma_sorted_match(fv, key@, i as int);
                assert(fv[i as int] == (key@, v@));
            }
            Some(v)
        } else {
            proof {
                self.lemma_absent(key@, i as int);
                lemma_fields_map_dom(fv, key@);
                lemma_sorted_no_match(fv, key@);
            }
            None
        }
    }

    /// Insert a field key and field value, returning the value the key had before.
    pub fn insert(&mut self, key: FieldKey, value: FieldValue) -> (r: Option<FieldValue>)
        ensures
            final(self).fields_view_map() == old(self).fields_view_map().insert(key@, value@),
            owned_value_view(r) == old(self).fields_view_map().get(key@),
            keys_sorted(final(self).fields_view()),
            final(self).entry_type_view() == old(self).entry_type_view(),
    {
        proof {
            use_type_invariant(&*self);
        }
        let ghost f = self.fields_view();
        let ghost k = key@;
        let ghost v = value@;
        let (i, found) = self.find_slot(key.as_str());
        if found {
            proof {
                lemma_fields_map_index(f, i as int);
                lemma_map_update(f, i as int, v);
            }
            let mut fields = Vec::new();
            std::mem::swap(&mut fields, &mut self.fields);
            let old = fields.remove(i);
            fields.insert(i, (key, value));
            proof {
                assert(owned_fields_view(fields@) =~= f.update(i as int, (k, v)));
            }
            self.fields = fields;
            Some(old.1)
        } else {
            proof {
                lemma_map_insert(f, i as int, k, v);
            }
            let mut fields = Vec::new();
            std::mem::swap(&mut fields, &mut self.fields);
            fields.insert(i, (key, value));
            proof {
                assert(owned_fields_view(fields@) =~= f.insert(i as int, (k, v)));
            }
            self.fields = fields;
            None
        }
    }

    /// Remove the value at the given key, returning it.
    pub fn remove(&mut self, key: &str) -> (r: Option<FieldValue>)
        ensures
            final(self).fields_view_map() == old(self).fields_view_map().remove(key@),
            owned_value_view(r) == old(self).fields_view_map().get(key@),
            keys_sorted(final(self).fields_view()),
            final(self).entry_type_view() == old(self).entry_type_view(),
    {
        proof {
            use_type_invariant(&*self);
        }
        let ghost f = self.fields_view();
        let (i, found) = self.find_slot(key);
        if found {
            proof {
                lemma_fields_map_index(f, i as int);
                lemma_map_remove(f, i as int);
            }
            let mut fields = Vec::new();
            std::mem::swap(&mut fields, &mut self.fields);
            let old = fields.remove(i);
            proof {
                assert(owned_fields_view(fields@) =~= f.remove(i as int));
            }
            self.fields = fields;
            Some(old.1)
        } else {
            proof {
                self.lemma_absent(key@, i as int);
                lemma_fields_map_dom(f, key@);
                assert(self.fields_view_map().remove(key@) =~= self.fields_view_map());
            }
            None
        }
    }

    /// Initialize with a given entry type.
    pub fn new(entry_type: EntryType) -> (r: Self)
        ensures
            r.entry_type_view() == entry_type@,
            r.fields_view() == Seq::<(Seq<char>, Seq<char>)>::empty(),
    {
        let r = MutableEntryData { entry_type, fields: Vec::new() };
        assert(owned_fields_view(r.fields@) =~= Seq::<(Seq<char>, Seq<char>)>::empty());
        r
    }

    /// Initialize with a given standard entry type.
    pub fn new_standard(entry_type: StandardEntryType) -> (r: Self)
        ensures
            r.entry_type_view() == entry_type.spec_name(),
            r.fields_view() == Seq::<(Seq<char>, Seq<char>)>::empty(),
    {
        Self::new(EntryType::standard(entry_type))
    }

    /// Try to initialize a new instance, failing if the entry type is not valid.
    pub fn try_new(e: &str) -> (r: Result<Self, DataError>)
        ensures
            r is Ok <==> entry_type_check(lowercase(e@)) is Ok,
            r matches Ok(d) ==> d.entry_type_view() == lowercase(e@) && d.fields_view()
                == Seq::<(Seq<char>, Seq<char>)>::empty(),
            r matches Err(x) ==> entry_type_check(lowercase(e@)) == Err::<(), DataError>(x),
    {
        match EntryType::new(e.to_owned()) {
            Ok(t) => Ok(Self::new(t)),
            Err(x) => Err(x),
        }
    }

    /// Insert a standard field key and a field value.
    pub fn insert_standard(&mut self, key: StandardFieldKey, value: FieldValue) -> (r: Option<
        FieldValue,
    >)
        ensures
            final(self).fields_view_map() == old(self).fields_view_map().insert(
                key.spec_name(),
                value@,
            ),
            owned_value_view(r) == old(self).fields_view_map().get(key.spec_name()),
            keys_sorted(final(self).fields_view()),
            final(self).entry_type_view() == old(self).entry_type_view(),
    {
        self.insert(FieldKey::standard(key), value)
    }

    /// Insert a standard field key and a field value given as a string, failing if the value
    /// is not valid.
    pub fn insert_standard_key(&mut self, key: StandardFieldKey, value: &str) -> (r: Result<
        Option<FieldValue>,
        DataError,
    >)
        requires
            value_depth_ok(value@),
        ensures
            r is Ok <==> field_value_check(value@) is Ok,
            r matches Err(x) ==> field_value_check(value@) == Err::<(), DataError>(x)
                && final(self).fields_view() == old(self).fields_view(),
            r matches Ok(o) ==> final(self).fields_view_map() == old(self).fields_view_map().insert(key.spec_name(), value@) && owned_value_view(o) == old(self).fields_view_map().get(key.spec_name()),
            keys_sorted(final(self).fields_view()),
            final(self).entry_type_view() == old(self).entry_type_view(),
    {
        proof {
            use_type_invariant(&*self);
        }
        match FieldValue::new(value.to_owned()) {
            Ok(v) => Ok(self.insert(FieldKey::standard(key), v)),
            Err(x) => Err(x),
        }
    }

    /// Try to insert a field key and a field value given as strings; the key is made ASCII
    /// lowercase. Fails if the key, then the value, is not valid.
    pub fn try_insert(&mut self, k: &str, v: &str) -> (r: Result<Option<FieldValue>, DataError>)
        requires
            value_depth_ok(v@),
        ensures
            r is Ok <==> field_key_check(lowercase(k@)) is Ok && field_value_check(v@) is Ok,
            r matches Err(x) ==> final(self).fields_view() == old(self).fields_view() && (
            match field_key_check(lowercase(k@)) {
                Err(e) => x == e,
                Ok(()) => field_value_check(v@) == Err::<(), DataError>(x),
            }),
            r matches Ok(o) ==> final(self).fields_view_map() == old(self).fields_view_map().insert(lowercase(k@), v@) && owned_value_view(o) == old(self).fields_view_map().get(lowercase(k@)),
            keys_sorted(final(self).fields_view()),
            final(self).entry_type_view() == old(self).entry_type_view(),
    {
        proof {
            use_type_invariant(&*self);
        }
        let key = match FieldKey::new(k.to_owned()) {
            Ok(key) => key,
            Err(x) => return Err(x),
        };
        let value = match FieldValue::new(v.to_owned()) {
            Ok(value) => value,
            Err(x) => return Err(x),
        };
        Ok(self.insert(key, value))
    }

    /// Update the entry type to the given value, returning if it changed.
    pub fn update_entry_type(&mut self, ty: &EntryType) -> (r: bool)
        ensures
            r == (old(self).entry_type_view() != ty@),
            final(self).entry_type_view() == ty@,
            final(self).fields_view() == old(self).fields_view(),
    {
        proof {
            use_type_invariant(&*self);
        }
        if !str_eq(self.entry_type.as_str(), ty.as_str()) {
            self.entry_type = ty.clone();
            true
        } else {
            false
        }
    }

    /// Set a field using the provided command, returning if the data changed.
    pub fn set_field(&mut self, cmd: &SetFieldCommand) -> (r: bool)
        ensures
            r == (old(self).fields_view_map().get(cmd.field_key@) != Some(cmd.field_value@)),
            final(self).fields_view_map() == old(self).fields_view_map().insert(
                cmd.field_key@,
                cmd.field_value@,
            ),
            keys_sorted(final(self).fields_view()),
            final(self).entry_type_view() == old(self).entry_type_view(),
    {
        proof {
            use_type_invariant(&*self);
        }
        let changed = match self.get(cmd.field_key.as_str()) {
            Some(v) => !str_eq(v.inner(), cmd.field_value.as_str()),
            None => true,
        };
        if changed {
            self.insert(cmd.field_key.clone(), cmd.field_value.clone());
        } else {
            proof {
                assert(old(self).fields_view_map().insert(cmd.field_key@, cmd.field_value@)
                    =~= old(self).fields_view_map());
            }
        }
        changed
    }

    /// Apply an edit command: update the entry type, then delete fields, then set fields, in
    /// order. Returns if anything changed.
    pub fn edit(&mut self, cmd: &EntryEditCommand) -> (r: bool)
        ensures
            final(self).entry_type_view() == (match cmd.update_entry_type {
                Some(t) => t@,
                None => old(self).entry_type_view(),
            }),
            final(self).fields_view_map() == apply_sets(
                apply_deletes(old(self).fields_view_map(), cmd.deletes_view()),
                cmd.sets_view(),
            ),
            keys_sorted(final(self).fields_view()),
            r == ((match cmd.update_entry_type {
                Some(t) => t@ != old(self).entry_type_view(),
                None => false,
            }) || deletes_change(old(self).fields_view_map(), cmd.deletes_view()) || sets_change(
                apply_deletes(old(self).fields_view_map(), cmd.deletes_view()),
                cmd.sets_view(),
            )),
    {
        proof {
            use_type_invariant(&*self);
        }
        let mut changed = false;
        match &cmd.update_entry_type {
            Some(ty) => {
                changed = self.update_entry_type(ty);
            },
            None => {},
        }
        let ghost m0 = self.fields_view_map();
        let ghost dels = cmd.deletes_view();
        let ghost c0 = changed;
        let mut i: usize = 0;
        assert(dels.take(0) =~= Seq::<Seq<char>>::empty());
        while i < cmd.delete_field.len()
            invariant
                dels == cmd.deletes_view(),
                i <= dels.len(),
                self.fields_view_map() == apply_deletes(m0, dels.take(i as int)),
                keys_sorted(self.fields_view()),
                changed == (c0 || deletes_change(m0, dels.take(i as int))),
                self.entry_type_view() == (match cmd.update_entry_type {
                    Some(t) => t@,
                    None => old(self).entry_type_view(),
                }),
            decreases dels.len() - i,
        {
            proof {
                assert(dels.take(i + 1).drop_last() =~= dels.take(i as int));
                assert(dels.take(i + 1).last() == cmd.delete_field@[i as int]@);
            }
            let removed = self.remove(cmd.delete_field[i].as_str());
            changed = changed || removed.is_some();
            i = i + 1;
        }
        assert(dels.take(dels.len() as int) =~= dels);
        let ghost m1 = self.fields_view_map();
        let ghost sets = cmd.sets_view();
        let ghost c1 = changed;
        let mut j: usize = 0;
        assert(sets.take(0) =~= Seq::<(Seq<char>, Seq<char>)>::empty());
        while j < cmd.set_field.len()
            invariant
                sets == cmd.sets_view(),
                j <= sets.len(),
                self.fields_view_map() == apply_sets(m1, sets.take(j as int)),
                keys_sorted(self.fields_view()),
                changed == (c1 || sets_change(m1, sets.take(j as int))),
                self.entry_type_view() == (match cmd.update_entry_type {
                    Some(t) => t@,
                    None => old(self).entry_type_view(),
                }),
            decreases sets.len() - j,
        {
            proof {
                assert(sets.take(j + 1).drop_last() =~= sets.take(j as int));
                assert(sets.take(j + 1).last() == cmd.set_field@[j as int]@);
            }
            let c = self.set_field(&cmd.set_field[j]);
            changed = changed || c;
            j = j + 1;
        }
        assert(sets.take(sets.len() as int) =~= sets);
        changed
    }

    /// Construct entry data by copying the entry type and the fields of other entry data;
    /// a later field replaces an earlier one with the same key.
    pub fn from_entry_data<D: EntryData + ?Sized>(cont: &D) -> (r: Self)
        ensures
            r.entry_type_view() == cont.entry_type_view(),
            r.fields_view_map() == fields_map(cont.fields_view()),
            keys_sorted(r.fields_view()),
    {
        let mut new = Self::new(cont.entry_type().to_owned_type());
        proof {
            assert(new.fields_view_map() =~= Map::<Seq<char>, Seq<char>>::empty());
            lemma_apply_sets_empty(cont.fields_view());
        }
        new.update_fields_from(cont);
        new
    }

    /// Set each field of `data` in order.
    fn update_fields_from<D: EntryData + ?Sized>(&mut self, data: &D)
        ensures
            final(self).entry_type_view() == old(self).entry_type_view(),
            final(self).fields_view_map() == apply_sets(
                old(self).fields_view_map(),
                data.fields_view(),
            ),
            keys_sorted(final(self).fields_view()),
    {
        proof {
            use_type_invariant(&*self);
        }
        let ghost m0 = self.fields_view_map();
        let ghost f = data.fields_view();
        let n = data.count_fields();
        let mut i: usize = 0;
        assert(f.take(0) =~= Seq::<(Seq<char>, Seq<char>)>::empty());
        while i < n
            invariant
                n == f.len(),
                f == data.fields_view(),
                i <= n,
                self.fields_view_map() == apply_sets(m0, f.take(i as int)),
                keys_sorted(self.fields_view()),
                self.entry_type_view() == old(self).entry_type_view(),
            decreases n - i,
        {
            let (k, v) = data.field_at(i);
            proof {
                assert(f.take(i + 1).drop_last() =~= f.take(i as int));
                assert(f.take(i + 1).last() == f[i as int]);
            }
            self.insert(k.to_owned_key(), v.to_owned_value());
            i = i + 1;
        }
        assert(f.take(n as int) =~= f);
    }

    /// Update the entry type and overwrite every field of `data`.
    pub fn update_from<D: EntryData + ?Sized>(&mut self, data: &D)
        ensures
            final(self).entry_type_view() == data.entry_type_view(),
            final(self).fields_view_map() == apply_sets(
                old(self).fields_view_map(),
                data.fields_view(),
            ),
            keys_sorted(final(self).fields_view()),
    {
        proof {
            use_type_invariant(&*self);
        }
        self.entry_type = data.entry_type().to_owned_type();
        self.update_fields_from(data);
    }

    /// Apply the resolution of a conflict over the entry type.
    pub fn resolve_entry_type(&mut self, incoming: EntryTypeRef<'_>, res: ConflictResolved<EntryType>)
        ensures
            final(self).entry_type_view() == (match res {
                ConflictResolved::Current => old(self).entry_type_view(),
                ConflictResolved::Incoming => incoming@,
                ConflictResolved::New(t) => t@,
            }),
            final(self).fields_view() == old(self).fields_view(),
    {
        proof {
            use_type_invariant(&*self);
        }
        match res {
            ConflictResolved::Current => {},
            ConflictResolved::Incoming => {
                self.entry_type = incoming.to_owned_type();
            },
            ConflictResolved::New(t) => {
                self.entry_type = t;
            },
        }
    }

    /// Apply the resolution of a conflict over the value of `key`.
    pub fn resolve_field(
        &mut self,
        key: FieldKeyRef<'_>,
        incoming: FieldValueRef<'_>,
        res: ConflictResolved<FieldValue>,
    )
        ensures
            final(self).fields_view_map() == (match res {
                ConflictResolved::Current => old(self).fields_view_map(),
                ConflictResolved::Incoming => old(self).fields_view_map().insert(key@, incoming@),
                ConflictResolved::New(v) => old(self).fields_view_map().insert(key@, v@),
            }),
            keys_sorted(final(self).fields_view()),
            final(self).entry_type_view() == old(self).entry_type_view(),
    {
        proof {
            use_type_invariant(&*self);
        }
        match res {
            ConflictResolved::Current => {},
            ConflictResolved::Incoming => {
                self.insert(key.to_owned_key(), incoming.to_owned_value());
            },
            ConflictResolved::New(v) => {
                self.insert(key.to_owned_key(), v);
            },
        }
    }

    /// Merge data from `other`, asking the callbacks to resolve conflicts.
    ///
    /// `resolve_entry_type_conflict` is called with the current and the incoming entry type
    /// when they differ. `resolve_field_conflict` is called with the key, the current value
    /// and the incoming value when a key of `other` is present with a different value.
    /// Fields whose key is not present are added.
    pub fn merge_with_callback<D, T, F>(
        &mut self,
        other: &D,
        resolve_entry_type_conflict: T,
        resolve_field_conflict: F,
    ) where
        D: EntryData + ?Sized,
        T: FnOnce(EntryTypeRef<'_>, EntryTypeRef<'_>) -> ConflictResolved<EntryType>,
        F: Fn(FieldKeyRef<'_>, FieldValueRef<'_>, FieldValueRef<'_>) -> ConflictResolved<
            FieldValue,
        >,

        requires
            forall|a: EntryTypeRef<'_>, b: EntryTypeRef<'_>|
                call_requires(resolve_entry_type_conflict, (a, b)),
            forall|k: FieldKeyRef<'_>, c: FieldValueRef<'_>, n: FieldValueRef<'_>|
                call_requires(resolve_field_conflict, (k, c, n)),
        ensures
            old(self).entry_type_view() == other.entry_type_view() ==> final(self).entry_type_view()
                == old(self).entry_type_view(),
            old(self).entry_type_view() != other.entry_type_view() ==> exists|
                a: EntryTypeRef<'_>,
                b: EntryTypeRef<'_>,
                res: ConflictResolved<EntryType>,
            |
                #![trigger call_ensures(resolve_entry_type_conflict, (a, b), res)]
                a@ == old(self).entry_type_view() && b@ == other.entry_type_view()
                    && call_ensures(resolve_entry_type_conflict, (a, b), res)
                    && final(self).entry_type_view() == resolved_entry_type(
                    old(self).entry_type_view(),
                    other.entry_type_view(),
                    res,
                ),
            forall|k: Seq<char>|
                #![trigger final(self).fields_view_map().dom().contains(k)]
                final(self).fields_view_map().dom().contains(k) <==> (old(
                    self,
                ).fields_view_map().dom().contains(k) || has_key(other.fields_view(), k)),
            forall|k: Seq<char>|
                old(self).fields_view_map().dom().contains(k) && !has_key(other.fields_view(), k)
                    ==> #[trigger] final(self).fields_view_map()[k] == old(
                    self,
                ).fields_view_map()[k],
            keys_distinct(other.fields_view()) ==> forall|j: int|
                0 <= j < other.fields_view().len() ==> #[trigger] merge_outcome(
                    resolve_field_conflict,
                    other.fields_view()[j].0,
                    old(self).fields_view_map().get(other.fields_view()[j].0),
                    other.fields_view()[j].1,
                    final(self).fields_view_map()[other.fields_view()[j].0],
                ),
            exists|ms: Seq<Map<Seq<char>, Seq<char>>>|
                merge_trace(resolve_field_conflict, old(self).fields_view_map(), other.fields_view(), ms)
                    && #[trigger] ms.last() == final(self).fields_view_map(),
            keys_sorted(final(self).fields_view()),
    {
        proof {
            use_type_invariant(&*self);
        }
        let other_entry_type = other.entry_type();
        if !str_eq(self.entry_type.as_str(), other_entry_type.inner()) {
            let current = self.entry_type.by_ref();
            let res = resolve_entry_type_conflict(current, other_entry_type);
            let ghost r = res;
            self.resolve_entry_type(other_entry_type, res);
            assert(call_ensures(resolve_entry_type_conflict, (current, other_entry_type), r));
        }
        let ghost m0 = self.fields_view_map();
        let ghost et1 = self.entry_type_view();
        let ghost f = other.fields_view();
        let n = other.count_fields();
        let mut i: usize = 0;
        let ghost mut ms: Seq<Map<Seq<char>, Seq<char>>> = seq![m0];
        while i < n
            invariant
                n == f.len(),
                f == other.fields_view(),
                i <= n,
                m0 == old(self).fields_view_map(),
                ms.len() == i + 1,
                ms[0] == m0,
                ms.last() == self.fields_view_map(),
                forall|j: int|
                    0 <= j < i ==> #[trigger] ms[j + 1] == ms[j].insert(f[j].0, ms[j + 1][f[j].0])
                        && merge_outcome(
                        resolve_field_conflict,
                        f[j].0,
                        ms[j].get(f[j].0),
                        f[j].1,
                        ms[j + 1][f[j].0],
                    ),
                forall|a: FieldKeyRef<'_>, c: FieldValueRef<'_>, b: FieldValueRef<'_>|
                    call_requires(resolve_field_conflict, (a, c, b)),
                forall|k: Seq<char>|
                    #![trigger self.fields_view_map().dom().contains(k)]
                    self.fields_view_map().dom().contains(k) <==> (m0.dom().contains(k) || exists|
                        j: int,
                    |
                        0 <= j < i && #[trigger] f[j].0 == k),
                forall|k: Seq<char>|
                    m0.dom().contains(k) && !has_key(f, k) ==> #[trigger] self.fields_view_map()[k]
                        == m0[k],
                forall|k: Seq<char>|
                    (forall|j: int| 0 <= j < i ==> #[trigger] f[j].0 != k) ==> #[trigger] self.fields_view_map().get(k)
                        == m0.get(k),
                keys_distinct(f) ==> forall|j: int|
                    0 <= j < i ==> #[trigger] merge_outcome(
                        resolve_field_conflict,
                        f[j].0,
                        m0.get(f[j].0),
                        f[j].1,
                        self.fields_view_map()[f[j].0],
                    ),
                keys_sorted(self.fields_view()),
                self.entry_type_view() == et1,
                old(self).entry_type_view() == other.entry_type_view() ==> et1 == old(self).entry_type_view(),
                old(self).entry_type_view() != other.entry_type_view() ==> exists|
                    a: EntryTypeRef<'_>,
                    b: EntryTypeRef<'_>,
                    res: ConflictResolved<EntryType>,
                |
                    #![trigger call_ensures(resolve_entry_type_conflict, (a, b), res)]
                    a@ == old(self).entry_type_view() && b@ == other.entry_type_view()
                        && call_ensures(resolve_entry_type_conflict, (a, b), res) && et1
                        == resolved_entry_type(old(self).entry_type_view(), other.entry_type_view(), res),
            decreases n - i,
        {
            let (k, v) = other.field_at(i);
            let ghost before = self.fields_view_map();
            let current = match self.get(k.inner()) {
                Some(c) => Some(c.to_owned_value()),
                None => None,
            };
            proof {
                if keys_distinct(f) {
                    assert forall|j: int| 0 <= j < i implies #[trigger] f[j].0 != k@ by {
                        assert(f[j].0 != f[i as int].0);
                    }
                    assert(before.get(k@) == m0.get(k@));
                }
            }
            match current {
                None => {
                    self.insert(k.to_owned_key(), v.to_owned_value());
                },
                Some(c) => {
                    if !str_eq(c.as_str(), v.inner()) {
                        let cr = c.by_ref();
                        let res = resolve_field_conflict(k, cr, v);
                        let ghost r = res;
                        self.resolve_field(k, v, res);
                        proof {
                            assert(call_ensures(resolve_field_conflict, (k, cr, v), r));
                            assert(self.fields_view_map()[k@] == resolved_value(c@, v@, r));
                        }
                    }
                },
            }
            proof {
                assert(f[i as int].0 == k@);
                assert forall|x: Seq<char>| #[trigger]
                    self.fields_view_map().dom().contains(x) <==> (m0.dom().contains(x) || exists|
                        j: int,
                    |
                        0 <= j < i + 1 && #[trigger] f[j].0 == x) by {
                    if x == k@ {
                        assert(f[i as int].0 == x);
                    }
                }
                assert forall|x: Seq<char>|
                    m0.dom().contains(x) && !has_key(f, x) implies #[trigger] self.fields_view_map()[x]
                        == m0[x] by {
                    if x == k@ {
                        assert(f[i as int].0 == x);
                    }
                }
                assert forall|x: Seq<char>|
                    (forall|j: int| 0 <= j < i + 1 ==> #[trigger] f[j].0 != x) implies #[trigger] self.fields_view_map().get(x)
                        == m0.get(x) by {
                    assert(f[i as int].0 != x);
                    assert(forall|j: int| 0 <= j < i ==> #[trigger] f[j].0 != x);
                    assert(before.get(x) == m0.get(x));
                    assert(self.fields_view_map().get(x) == before.get(x));
                }
                if keys_distinct(f) {
                    assert forall|j: int| 0 <= j < i + 1 implies #[trigger] merge_outcome(
                        resolve_field_conflict,
                        f[j].0,
                        m0.get(f[j].0),
                        f[j].1,
                        self.fields_view_map()[f[j].0],
                    ) by {
                        if j < i {
                            assert(f[j].0 != f[i as int].0);
                            assert(self.fields_view_map()[f[j].0] == before[f[j].0]);
                        }
                    }
                }
                assert(self.fields_view_map() == before.insert(k@, self.fields_view_map()[k@]));
                assert(merge_outcome(
                    resolve_field_conflict,
                    k@,
                    before.get(k@),
                    v@,
                    self.fields_view_map()[k@],
                ));
                let ms1 = ms.push(self.fields_view_map());
                assert forall|j: int| 0 <= j < i + 1 implies #[trigger] ms1[j + 1] == ms1[j].insert(
                    f[j].0,
                    ms1[j + 1][f[j].0],
                ) && merge_outcome(
                    resolve_field_conflict,
                    f[j].0,
                    ms1[j].get(f[j].0),
                    f[j].1,
                    ms1[j + 1][f[j].0],
                ) by {
                    if j < i {
                        assert(ms1[j + 1] == ms[j + 1]);
                        assert(ms1[j] == ms[j]);
                    }
                }
                ms = ms1;
            }
            i = i + 1;
        }
        proof {
            assert forall|k: Seq<char>| #[trigger]
                self.fields_view_map().dom().contains(k) <==> (m0.dom().contains(k) || has_key(f, k)) by {
            }
            assert(merge_trace(resolve_field_conflict, m0, f, ms));
        }
    }

    /// Merge data from `other`, ignoring fields whose key already exists.
    pub fn merge_or_skip<D: EntryData + ?Sized>(&mut self, other: &D)
        ensures
            final(self).entry_type_view() == old(self).entry_type_view(),
            final(self).fields_view_map() == apply_missing(
                old(self).fields_view_map(),
                other.fields_view(),
            ),
            keys_sorted(final(self).fields_view()),
    {
        proof {
            use_type_invariant(&*self);
        }
        let ghost m0 = self.fields_view_map();
        let ghost f = other.fields_view();
        let n = other.count_fields();
        let mut i: usize = 0;
        assert(f.take(0) =~= Seq::<(Seq<char>, Seq<char>)>::empty());
        while i < n
            invariant
                n == f.len(),
                f == other.fields_view(),
                i <= n,
                self.fields_view_map() == apply_missing(m0, f.take(i as int)),
                keys_sorted(self.fields_view()),
                self.entry_type_view() == old(self).entry_type_view(),
            decreases n - i,
        {
            let (k, v) = other.field_at(i);
            proof {
                assert(f.take(i + 1).drop_last() =~= f.take(i as int));
                assert(f.take(i + 1).last() == f[i as int]);
            }
            if !self.contains_field(k.inner()) {
                self.insert(k.to_owned_key(), v.to_owned_value());
            }
            i = i + 1;
        }
        assert(f.take(n as int) =~= f);
    }

    /// Merge data from `other`, overwriting fields which already exist. Unlike
    /// [`Self::update_from`], the entry type is kept.
    pub fn merge_or_overwrite<D: EntryData + ?Sized>(&mut self, other: &D)
        ensures
            final(self).entry_type_view() == old(self).entry_type_view(),
            final(self).fields_view_map() == apply_sets(
                old(self).fields_view_map(),
                other.fields_view(),
            ),
            keys_sorted(final(self).fields_view()),
    {
        self.update_fields_from(other)
    }

    /// Get the value at the key as a string.
    pub fn get_str(&self, key: &str) -> (r: Option<&str>)
        ensures
            keys_sorted(self.fields_view()),
            str_view(r) == self.fields_view_map().get(key@),
    {
        match self.get(key) {
            Some(v) => Some(v.inner()),
            None => None,
        }
    }
}

/// The first of `keys`, from position `i` on, which is a key of `m`.
pub open spec fn first_present_from(
    m: Map<Seq<char>, Seq<char>>,
    keys: Seq<Seq<char>>,
    i: int,
) -> Option<int>
    decreases keys.len() - i,
{
    if i < 0 || i >= keys.len() {
        None
    } else if m.dom().contains(keys[i]) {
        Some(i)
    } else {
        first_present_from(m, keys, i + 1)
    }
}

/// The fields already record `key` as the e-print: `eprinttype` is `key`, and `eprint` is the
/// value of `key`.
pub open spec fn eprint_normalized(m: Map<Seq<char>, Seq<char>>, key: Seq<char>) -> bool {
    &&& m.dom().contains(key)
    &&& m.get("eprinttype"@) == Some(key)
    &&& m.get("eprint"@) == Some(m[key])
}

/// The fields after recording `key` as the e-print: `eprint` takes the value of `key`, then
/// `eprinttype` becomes `key`.
pub open spec fn eprint_set(m: Map<Seq<char>, Seq<char>>, key: Seq<char>) -> Map<
    Seq<char>,
    Seq<char>,
> {
    m.insert("eprint"@, m[key]).insert("eprinttype"@, key)
}

/// The strings of a slice of keys.
pub open spec fn keys_view(keys: Seq<&str>) -> Seq<Seq<char>> {
    keys.map_values(|k: &str| k@)
}

/// The state of the `eprint` and `eprinttype` fields relative to a key.
enum EPrintState<S> {
    /// No changes required.
    Normalized,
    /// The `eprint` field needs the provided value.
    NeedsUpdate(S),
    /// The key is not present.
    MissingKey,
}

/// The string whose Utf-8 encoding is the first `p` bytes of that of `s`.
pub open spec fn utf8_prefix(s: Seq<char>, p: int) -> Seq<char> {
    decode_utf8(encode_utf8(s).subrange(0, p))
}

/// The pattern of a trailing journal series number, such as ` (2)`.
pub open spec fn journal_series_pattern() -> Seq<char> {
    "\\s*\\([1-9][0-9]*\\)$"@
}

/// A character of the Unicode `White_Space` property, which `\s` matches.
pub open spec fn is_white_space(c: char) -> bool {
    let u = c as u32;
    ||| 0x09 <= u <= 0x0d
    ||| u == 0x20 || u == 0x85 || u == 0xa0 || u == 0x1680
    ||| 0x2000 <= u <= 0x200a
    ||| u == 0x2028 || u == 0x2029 || u == 0x202f || u == 0x205f || u == 0x3000
}

/// `s` is `k` whitespace characters, then `(`, a positive number without a leading zero,
/// and `)` at the end.
pub open spec fn series_suffix_at(s: Seq<char>, k: int) -> bool {
    &&& 0 <= k
    &&& k + 3 <= s.len()
    &&& forall|i: int| 0 <= i < k ==> is_white_space(#[trigger] s[i])
    &&& s[k] == '('
    &&& '1' <= s[k + 1] <= '9'
    &&& forall|i: int| k + 2 <= i < s.len() - 1 ==> '0' <= #[trigger] s[i] <= '9'
    &&& s[s.len() - 1] == ')'
}

/// `s` is a series number: optional whitespace, then a positive number without a leading
/// zero in round brackets, which end `s`.
pub open spec fn is_series_suffix(s: Seq<char>) -> bool {
    exists|k: int| #[trigger] series_suffix_at(s, k)
}

/// `c` is the first position of `s` from which the rest of `s` is a series number.
pub open spec fn is_series_start(s: Seq<char>, c: int) -> bool {
    &&& 0 <= c <= s.len()
    &&& is_series_suffix(s.skip(c))
    &&& forall|d: int| 0 <= d < c ==> !is_series_suffix(#[trigger] s.skip(d))
}

/// When some rest of `s` is a series number, there is a first position where one starts.
pub proof fn lemma_series_start_exists(s: Seq<char>, c: int)
    requires
        0 <= c <= s.len(),
        is_series_suffix(s.skip(c)),
    ensures
        exists|d: int| d <= c && #[trigger] is_series_start(s, d),
    decreases c,
{
    if exists|d: int| 0 <= d < c && is_series_suffix(#[trigger] s.skip(d)) {
        let d = choose|d: int| 0 <= d < c && is_series_suffix(#[trigger] s.skip(d));
        lemma_series_start_exists(s, d);
    } else {
        assert(is_series_start(s, c));
    }
}

/// The first position where a series number starts is unique.
pub proof fn lemma_series_start_unique(s: Seq<char>, c: int, d: int)
    requires
        is_series_start(s, c),
        is_series_start(s, d),
    ensures
        c == d,
{
    if c < d {
        assert(!is_series_suffix(s.skip(c)));
    } else if d < c {
        assert(!is_series_suffix(s.skip(d)));
    }
}

/// Where the leftmost-first match of the regular expression `pattern` starts in `haystack`,
/// as a byte offset: `Some(None)` when nothing matches, and `None` when `pattern` is not
/// accepted as a regular expression.
pub uninterp spec fn regex_find_start(pattern: Seq<char>, haystack: Seq<char>) -> Option<
    Option<int>,
>;

/// The offsets of a search result, as integers.
pub open spec fn search_view(r: Option<Option<usize>>) -> Option<Option<int>> {
    match r {
        Some(Some(p)) => Some(Some(p as int)),
        Some(None) => Some(None),
        None => None,
    }
}

/// Compiles `pattern` with `regex::Regex::new`, searches `haystack` with `Regex::find` and
/// reads the start of the match with `Match::start`. The contract claims that the result is
/// `regex_find_start` of the two strings, and that a match starts at a char boundary of the
/// haystack, which the `regex` documentation of `Match::start` guarantees. For the journal
/// series pattern it also claims that no `{` or `}` byte follows the start of a match: the
/// pattern matches only whitespace, `(`, ASCII digits and `)`, and `$` ends the match at the
/// end of the haystack. For that same pattern, written out, it claims what the match is: the
/// pattern is accepted, and a match exists exactly when some rest of the haystack is
/// whitespace (`\s` is the Unicode `White_Space` class in `regex-syntax`), `(`, a digit `1` to
/// `9`, digits and `)` at the end (`$` without multi-line mode); the leftmost such rest is
/// where the match starts, as a byte offset. What else regular expressions match is left
/// unsaid.
#[verifier::external_body]
fn regex_find(pattern: &str, haystack: &str) -> (r: Option<Option<usize>>)
    ensures
        pattern@ == "\\s*\\([1-9][0-9]*\\)$"@ ==> r is Some,
        pattern@ == "\\s*\\([1-9][0-9]*\\)$"@ ==> (r matches Some(Some(p)) ==> exists|c: int|
            #[trigger] is_series_start(haystack@, c) && p == encode_utf8(haystack@.take(c)).len()),
        pattern@ == "\\s*\\([1-9][0-9]*\\)$"@ ==> (r matches Some(None) ==> forall|c: int|
            0 <= c <= haystack@.len() ==> !is_series_suffix(#[trigger] haystack@.skip(c))),
        search_view(r) == regex_find_start(pattern@, haystack@),
        r matches Some(Some(p)) ==> is_char_boundary(encode_utf8(haystack@), p as int),
        pattern@ == journal_series_pattern() ==> (r matches Some(Some(p)) ==> no_braces_from(
            encode_utf8(haystack@),
            p as int,
        )),
{
    match regex::Regex::new(pattern) {
        Ok(re) => match re.find(haystack) {
            Some(m) => Some(Some(m.start())),
            None => Some(None),
        },
        Err(_) => None,
    }
}

impl MutableEntryData {
    /// Check for the following configuration in the fields:
    /// ```bib
    ///   eprinttype = {key},
    ///   eprint = {val},
    ///   key = {val},
    /// ```
    fn is_eprint_normalized(&self, key: &str) -> (r: EPrintState<FieldValueRef<'_>>)
        ensures
            match r {
                EPrintState::MissingKey => !self.fields_view_map().dom().contains(key@),
                EPrintState::Normalized => eprint_normalized(self.fields_view_map(), key@),
                EPrintState::NeedsUpdate(v) => {
                    &&& self.fields_view_map().dom().contains(key@)
                    &&& !eprint_normalized(self.fields_view_map(), key@)
                    &&& v@ == self.fields_view_map()[key@]
                },
            },
    {
        match self.get(key) {
            Some(val) => {
                let type_ok = match self.get("eprinttype") {
                    Some(v) => str_eq(v.inner(), key),
                    None => false,
                };
                let value_ok = match self.get("eprint") {
                    Some(v) => str_eq(v.inner(), val.inner()),
                    None => false,
                };
                if type_ok && value_ok {
                    EPrintState::Normalized
                } else {
                    EPrintState::NeedsUpdate(val)
                }
            },
            None => EPrintState::MissingKey,
        }
    }

    /// Record the first of `keys` present in the fields as the e-print: set `eprint` to its
    /// value and `eprinttype` to the key. Returns if the fields changed.
    pub fn set_eprint(&mut self, keys: &[&str]) -> (r: bool)
        ensures
            final(self).entry_type_view() == old(self).entry_type_view(),
            keys_sorted(final(self).fields_view()),
            match first_present_from(old(self).fields_view_map(), keys_view(keys@), 0) {
                Some(j) => if eprint_normalized(old(self).fields_view_map(), keys_view(keys@)[j]) {
                    !r && final(self).fields_view() == old(self).fields_view()
                } else {
                    r && final(self).fields_view_map() == eprint_set(
                        old(self).fields_view_map(),
                        keys_view(keys@)[j],
                    )
                },
                None => !r && final(self).fields_view() == old(self).fields_view(),
            },
    {
        proof {
            use_type_invariant(&*self);
        }
        let ghost ks = keys_view(keys@);
        let ghost m = self.fields_view_map();
        let mut i: usize = 0;
        while i < keys.len()
            invariant
                ks == keys_view(keys@),
                i <= keys@.len(),
                m == self.fields_view_map(),
                self.fields_view() == old(self).fields_view(),
                self.entry_type_view() == old(self).entry_type_view(),
                keys_sorted(self.fields_view()),
                first_present_from(m, ks, 0) == first_present_from(m, ks, i as int),
            decreases keys@.len() - i,
        {
            let key = keys[i];
            assert(ks[i as int] == key@);
            match self.is_eprint_normalized(key) {
                EPrintState::Normalized => {
                    return false;
                },
                EPrintState::NeedsUpdate(val) => {
                    let v = val.to_owned_value();
                    self.insert(FieldKey::from_string("eprint".to_owned()), v);
                    self.insert(
                        FieldKey::from_string("eprinttype".to_owned()),
                        FieldValue::from_string(key.to_owned()),
                    );
                    return true;
                },
                EPrintState::MissingKey => {},
            }
            i = i + 1;
        }
        false
    }

    /// Cut the `journal` field at the byte offset `start`, found where a trailing series
    /// number begins. Returns if a cut was made.
    pub fn strip_journal_series_at(&mut self, start: Option<usize>) -> (r: bool)
        requires
            start matches Some(p) ==> (old(self).fields_view_map().dom().contains("journal"@)
                ==> is_char_boundary(encode_utf8(old(self).fields_view_map()["journal"@]), p as int)
                && no_braces_from(encode_utf8(old(self).fields_view_map()["journal"@]), p as int)),
        ensures
            final(self).entry_type_view() == old(self).entry_type_view(),
            keys_sorted(final(self).fields_view()),
            old(self).fields_view_map().dom().contains("journal"@) && field_value_check(
                old(self).fields_view_map()["journal"@],
            ) is Ok ==> field_value_check(final(self).fields_view_map()["journal"@]) is Ok,
            match (start, old(self).fields_view_map().get("journal"@)) {
                (Some(p), Some(j)) => r && final(self).fields_view_map() == old(
                    self,
                ).fields_view_map().insert("journal"@, utf8_prefix(j, p as int)),
                _ => !r && final(self).fields_view() == old(self).fields_view(),
            },
    {
        proof {
            use_type_invariant(&*self);
        }
        let p = match start {
            Some(p) => p,
            None => {
                return false;
            },
        };
        let journal = match self.get("journal") {
            Some(j) => j,
            None => {
                return false;
            },
        };
        let (head, _) = journal.inner().split_at(p);
        let value = FieldValue::from_string(head.to_owned());
        proof {
            let b = encode_utf8(journal@);
            vstd::utf8::encode_utf8_valid_utf8(journal@);
            vstd::utf8::encode_utf8_decode_utf8(head@);
            assert(encode_utf8(head@) == b.subrange(0, p as int));
            if field_value_check(journal@) is Ok {
                crate::ident::lemma_brace_check_prefix(b, p as int);
            }
        }
        self.insert(FieldKey::from_string("journal".to_owned()), value);
        true
    }

    /// Remove a trailing series number, such as ` (2)`, from the `journal` field, cutting it
    /// where the regular expression `\s*\([1-9][0-9]*\)$` first matches. Returns if the
    /// field changed.
    pub fn strip_journal_series(&mut self) -> (r: bool)
        ensures
            old(self).fields_view_map().get("journal"@) matches Some(j) ==> forall|c: int|
                #[trigger] is_series_start(j, c) ==> r && final(self).fields_view_map() == old(
                    self,
                ).fields_view_map().insert("journal"@, j.take(c)),
            old(self).fields_view_map().get("journal"@) matches Some(j) ==> ((forall|c: int|
                0 <= c <= j.len() ==> !is_series_suffix(#[trigger] j.skip(c))) ==> !r
                && final(self).fields_view() == old(self).fields_view()),
            final(self).entry_type_view() == old(self).entry_type_view(),
            keys_sorted(final(self).fields_view()),
            old(self).fields_view_map().dom().contains("journal"@) && field_value_check(
                old(self).fields_view_map()["journal"@],
            ) is Ok ==> field_value_check(final(self).fields_view_map()["journal"@]) is Ok,
            match old(self).fields_view_map().get("journal"@) {
                Some(j) => match regex_find_start(journal_series_pattern(), j) {
                    Some(Some(p)) => r && final(self).fields_view_map() == old(
                        self,
                    ).fields_view_map().insert("journal"@, utf8_prefix(j, p)),
                    _ => !r && final(self).fields_view() == old(self).fields_view(),
                },
                None => !r && final(self).fields_view() == old(self).fields_view(),
            },
    {
        let ghost jv = self.fields_view_map().get("journal"@);
        let start = match self.get("journal") {
            Some(j) => {
                let found = regex_find("\\s*\\([1-9][0-9]*\\)$", j.inner());
                proof {
                    let h = j@;
                    if let Some(Some(p)) = found {
                        let c = choose|c: int|
                            #[trigger] is_series_start(h, c) && p == encode_utf8(h.take(c)).len();
                        assert(h =~= h.take(c) + h.skip(c));
                        crate::encoding::lemma_encode_concat(h.take(c), h.skip(c));
                        assert(encode_utf8(h).subrange(0, p as int) =~= encode_utf8(h.take(c)));
                        vstd::utf8::encode_utf8_decode_utf8(h.take(c));
                        assert(utf8_prefix(h, p as int) == h.take(c));
                        assert forall|d: int| #[trigger] is_series_start(h, d) implies d == c by {
                            lemma_series_start_unique(h, c, d);
                        }
                    }
                }
                match found {
                    Some(s) => s,
                    None => None,
                }
            },
            None => None,
        };
        self.strip_journal_series_at(start)
    }
}

proof fn lemma_first_present_found(m: Map<Seq<char>, Seq<char>>, keys: Seq<Seq<char>>, i: int)
    requires
        0 <= i,
    ensures
        first_present_from(m, keys, i) matches Some(j) ==> {
            &&& i <= j < keys.len()
            &&& m.dom().contains(keys[j])
            &&& forall|l: int| i <= l < j ==> !m.dom().contains(#[trigger] keys[l])
        },
    decreases keys.len() - i,
{
    if i < keys.len() && !m.dom().contains(keys[i]) {
        lemma_first_present_found(m, keys, i + 1);
    }
}

proof fn lemma_first_present_at(m: Map<Seq<char>, Seq<char>>, keys: Seq<Seq<char>>, i: int, j: int)
    requires
        0 <= i <= j < keys.len(),
        m.dom().contains(keys[j]),
        forall|l: int| i <= l < j ==> !m.dom().contains(#[trigger] keys[l]),
    ensures
        first_present_from(m, keys, i) == Some(j),
    decreases j - i,
{
    if i < j {
        lemma_first_present_at(m, keys, i + 1, j);
    }
}

/// Recording the e-print is idempotent: after [`MutableEntryData::set_eprint`], the fields
/// record the first key present as the e-print, so a second call with the same keys changes
/// nothing. This holds when neither `eprint` nor `eprinttype` is among the keys.
pub proof fn lemma_set_eprint_idempotent(m: Map<Seq<char>, Seq<char>>, keys: Seq<Seq<char>>)
    requires
        forall|i: int| 0 <= i < keys.len() ==> #[trigger] keys[i] != "eprint"@ && keys[i] != "eprinttype"@,
    ensures
        first_present_from(m, keys, 0) matches Some(j) ==> ({
            let m2 = if eprint_normalized(m, keys[j]) {
                m
            } else {
                eprint_set(m, keys[j])
            };
            &&& first_present_from(m2, keys, 0) == Some(j)
            &&& eprint_normalized(m2, keys[j])
        }),
{
    lemma_first_present_found(m, keys, 0);
    if let Some(j) = first_present_from(m, keys, 0) {
        let k = keys[j];
        if !eprint_normalized(m, k) {
            let m2 = eprint_set(m, k);
            reveal_strlit("eprint");
            reveal_strlit("eprinttype");
            assert("eprint"@.len() != "eprinttype"@.len());
            assert(k != "eprint"@ && k != "eprinttype"@);
            assert(m2[k] == m[k]);
            assert forall|l: int| 0 <= l < j implies !m2.dom().contains(#[trigger] keys[l]) by {
                assert(keys[l] != "eprint"@ && keys[l] != "eprinttype"@);
                assert(!m.dom().contains(keys[l]));
            }
            lemma_first_present_at(m2, keys, 0, j);
        }
    }
}

/// An identity edit command changes no field and reports no change.
pub proof fn lemma_identity_edit(m: Map<Seq<char>, Seq<char>>, cmd: &EntryEditCommand)
    requires
        cmd.delete_field@.len() == 0,
        cmd.set_field@.len() == 0,
    ensures
        apply_sets(apply_deletes(m, cmd.deletes_view()), cmd.sets_view()) == m,
        !deletes_change(m, cmd.deletes_view()),
        !sets_change(apply_deletes(m, cmd.deletes_view()), cmd.sets_view()),
{
    assert(cmd.deletes_view().len() == 0);
    assert(cmd.sets_view().len() == 0);
}

/// Setting fields in order overrides the current fields by the map of the new fields: each
/// key set takes the last value given to it, and every other key keeps its value.
pub proof fn lemma_apply_sets_union(m: Map<Seq<char>, Seq<char>>, f: FieldsView)
    ensures
        apply_sets(m, f) == m.union_prefer_right(fields_map(f)),
    decreases f.len(),
{
    if f.len() == 0 {
        assert(m.union_prefer_right(Map::empty()) =~= m);
    } else {
        lemma_apply_sets_union(m, f.drop_last());
        assert(apply_sets(m, f) =~= m.union_prefer_right(fields_map(f)));
    }
}

/// Adding the missing fields in order keeps every current field, and gives each other key
/// the first value that the new fields give it.
pub proof fn lemma_apply_missing_union(m: Map<Seq<char>, Seq<char>>, f: FieldsView)
    ensures
        apply_missing(m, f) == apply_missing(Map::empty(), f).union_prefer_right(m),
    decreases f.len(),
{
    if f.len() == 0 {
        assert(Map::<Seq<char>, Seq<char>>::empty().union_prefer_right(m) =~= m);
    } else {
        let prev = f.drop_last();
        lemma_apply_missing_union(m, prev);
        let a = apply_missing(Map::empty(), prev);
        let k = f.last().0;
        let v = f.last().1;
        if a.dom().contains(k) {
        } else if m.dom().contains(k) {
            assert(a.insert(k, v).union_prefer_right(m) =~= a.union_prefer_right(m));
        } else {
            assert(a.insert(k, v).union_prefer_right(m) =~= a.union_prefer_right(m).insert(k, v));
        }
    }
}

/// When no key occurs twice, the first value of each key is its only value.
pub proof fn lemma_apply_missing_distinct(f: FieldsView)
    requires
        keys_distinct(f),
    ensures
        apply_missing(Map::empty(), f) == fields_map(f),
    decreases f.len(),
{
    if f.len() > 0 {
        let prev = f.drop_last();
        lemma_apply_missing_distinct(prev);
        lemma_fields_map_dom(prev, f.last().0);
        if has_key(prev, f.last().0) {
            let i = choose|i: int| 0 <= i < prev.len() && #[trigger] prev[i].0 == f.last().0;
            assert(f[i].0 == f[f.len() - 1].0);
        }
    }
}

/// Removing keys in order removes the set of those keys.
pub proof fn lemma_apply_deletes_remove(m: Map<Seq<char>, Seq<char>>, keys: Seq<Seq<char>>)
    ensures
        apply_deletes(m, keys) == m.remove_keys(keys.to_set()),
    decreases keys.len(),
{
    if keys.len() == 0 {
        assert(m.remove_keys(keys.to_set()) =~= m);
    } else {
        let prev = keys.drop_last();
        lemma_apply_deletes_remove(m, prev);
        assert forall|x: Seq<char>| keys.to_set().contains(x) <==> (prev.to_set().contains(x)
            || x == keys.last()) by {
            if keys.to_set().contains(x) {
                let i = choose|i: int| 0 <= i < keys.len() && keys[i] == x;
                if i < keys.len() - 1 {
                    assert(prev[i] == x);
                }
            }
            if prev.to_set().contains(x) {
                let i = choose|i: int| 0 <= i < prev.len() && prev[i] == x;
                assert(keys[i] == x);
            }
            if x == keys.last() {
                assert(keys[keys.len() - 1] == x);
            }
        }
        assert(apply_deletes(m, keys) =~= m.remove_keys(keys.to_set()));
    }
}

/// The fields after an edit are left as they are by the same edit: deleting the keys again
/// and setting the fields again gives the same fields.
pub proof fn lemma_edit_fixpoint(
    m: Map<Seq<char>, Seq<char>>,
    deletes: Seq<Seq<char>>,
    sets: FieldsView,
)
    ensures
        ({
            let once = apply_sets(apply_deletes(m, deletes), sets);
            apply_sets(apply_deletes(once, deletes), sets) == once
        }),
{
    let once = apply_sets(apply_deletes(m, deletes), sets);
    lemma_apply_deletes_remove(m, deletes);
    lemma_apply_deletes_remove(once, deletes);
    lemma_apply_sets_union(apply_deletes(m, deletes), sets);
    lemma_apply_sets_union(apply_deletes(once, deletes), sets);
    assert(apply_sets(apply_deletes(once, deletes), sets) =~= once);
}

/// No key occurs twice among the fields.
pub open spec fn keys_distinct(f: FieldsView) -> bool {
    forall|i: int, j: int| 0 <= i < j < f.len() ==> #[trigger] f[i].0 != #[trigger] f[j].0
}

/// Sorted keys are distinct.
pub proof fn lemma_sorted_distinct(f: FieldsView)
    requires
        keys_sorted(f),
    ensures
        keys_distinct(f),
{
    assert forall|i: int, j: int| 0 <= i < j < f.len() implies #[trigger] f[i].0 != #[trigger] f[j].0 by {
        lemma_key_lt_total(f[i].0, f[j].0);
    }
}

proof fn lemma_fields_map_index_distinct(f: FieldsView, i: int)
    requires
        keys_distinct(f),
        0 <= i < f.len(),
    ensures
        fields_map(f).dom().contains(f[i].0),
        fields_map(f)[f[i].0] == f[i].1,
    decreases f.len(),
{
    let prev = f.drop_last();
    if i < f.len() - 1 {
        assert(keys_distinct(prev)) by {
            assert forall|a: int, b: int| 0 <= a < b < prev.len() implies #[trigger] prev[a].0
                != #[trigger] prev[b].0 by {
                assert(prev[a] == f[a] && prev[b] == f[b]);
            }
        }
        lemma_fields_map_index_distinct(prev, i);
        assert(prev[i] == f[i]);
        assert(f[i].0 != f[f.len() - 1].0);
    }
}

proof fn lemma_deletes_absent(m: Map<Seq<char>, Seq<char>>, keys: Seq<Seq<char>>)
    requires
        forall|i: int| 0 <= i < keys.len() ==> !m.dom().contains(#[trigger] keys[i]),
    ensures
        apply_deletes(m, keys) == m,
        !deletes_change(m, keys),
    decreases keys.len(),
{
    if keys.len() > 0 {
        let prev = keys.drop_last();
        assert forall|i: int| 0 <= i < prev.len() implies !m.dom().contains(#[trigger] prev[i]) by {
            assert(prev[i] == keys[i]);
        }
        lemma_deletes_absent(m, prev);
        assert(!m.dom().contains(keys[keys.len() - 1]));
        assert(m.remove(keys.last()) =~= m);
    }
}

proof fn lemma_sets_present(m: Map<Seq<char>, Seq<char>>, sets: FieldsView)
    requires
        keys_distinct(sets),
        forall|i: int| 0 <= i < sets.len() ==> m.get(#[trigger] sets[i].0) == Some(sets[i].1),
    ensures
        !sets_change(m, sets),
    decreases sets.len(),
{
    if sets.len() > 0 {
        let prev = sets.drop_last();
        assert(keys_distinct(prev)) by {
            assert forall|a: int, b: int| 0 <= a < b < prev.len() implies #[trigger] prev[a].0
                != #[trigger] prev[b].0 by {
                assert(prev[a] == sets[a] && prev[b] == sets[b]);
            }
        }
        assert forall|i: int| 0 <= i < prev.len() implies m.get(#[trigger] prev[i].0) == Some(
            prev[i].1,
        ) by {
            assert(prev[i] == sets[i]);
        }
        lemma_sets_present(m, prev);
        let k = sets.last().0;
        assert(sets[sets.len() - 1] == sets.last());
        assert(m.get(k) == Some(sets.last().1));
        lemma_apply_sets_union(m, prev);
        lemma_fields_map_dom(prev, k);
        if has_key(prev, k) {
            let j = choose|j: int| 0 <= j < prev.len() && #[trigger] prev[j].0 == k;
            assert(sets[j].0 == sets[sets.len() - 1].0);
        }
    }
}

/// Editing a second time with the same command reports no change, when no key is both
/// deleted and set and no key is set twice.
pub proof fn lemma_edit_twice_unchanged(
    m: Map<Seq<char>, Seq<char>>,
    deletes: Seq<Seq<char>>,
    sets: FieldsView,
)
    requires
        keys_distinct(sets),
        forall|i: int, j: int|
            0 <= i < deletes.len() && 0 <= j < sets.len() ==> #[trigger] deletes[i]
                != #[trigger] sets[j].0,
    ensures
        ({
            let once = apply_sets(apply_deletes(m, deletes), sets);
            &&& !deletes_change(once, deletes)
            &&& !sets_change(apply_deletes(once, deletes), sets)
        }),
{
    let once = apply_sets(apply_deletes(m, deletes), sets);
    lemma_apply_deletes_remove(m, deletes);
    lemma_apply_sets_union(apply_deletes(m, deletes), sets);
    assert forall|i: int| 0 <= i < deletes.len() implies !once.dom().contains(
        #[trigger] deletes[i],
    ) by {
        lemma_fields_map_dom(sets, deletes[i]);
        if has_key(sets, deletes[i]) {
            let j = choose|j: int| 0 <= j < sets.len() && #[trigger] sets[j].0 == deletes[i];
            assert(deletes[i] != sets[j].0);
        }
        assert(deletes.to_set().contains(deletes[i]));
    }
    lemma_deletes_absent(once, deletes);
    assert forall|i: int| 0 <= i < sets.len() implies once.get(#[trigger] sets[i].0) == Some(
        sets[i].1,
    ) by {
        lemma_fields_map_index_distinct(sets, i);
    }
    lemma_sets_present(once, sets);
}

} // verus!
