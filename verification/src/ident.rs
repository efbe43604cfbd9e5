//! Entry data identifiers.
//!
//! There are three kinds of entry data identifiers:
//!
//! - [`EntryType`]: the entry type, like `article`
//! - [`FieldKey`]: a field key, like `author`
//! - [`FieldValue`]: a field value
//!
//! These are owned types wrapping a string buffer. The borrowed variants are
//! [`EntryTypeRef`], [`FieldKeyRef`] and [`FieldValueRef`].

pub mod standard;

use crate::encoding::str_eq;
use crate::error::{DataError, TokenError};
use vstd::prelude::*;
use vstd::string::StringSliceAdditionalSpecFns;
use vstd::utf8::encode_utf8;
use serde_bibtex::token::TokenError as Outside;

pub use standard::{StandardEntryType, StandardFieldKey};

verus! {

/// Bytes which may appear in an entry type or a field key: the ASCII printable
/// characters with `{}(),= \t\n\\#%\"` and `A..=Z` removed.
pub open spec fn is_identifier_byte(b: u8) -> bool {
    &&& 0x21 <= b <= 0x7e
    &&& !(0x41 <= b <= 0x5a)
    &&& b != 0x22  // "
    &&& b != 0x23  // #
    &&& b != 0x25  // %
    &&& b != 0x28  // (
    &&& b != 0x29  // )
    &&& b != 0x2c  // ,
    &&& b != 0x3d  // =
    &&& b != 0x5c  // \
    &&& b != 0x7b  // {
    &&& b != 0x7d  // }
}

/// The first byte at or after position `i` which may not appear in an identifier.
pub open spec fn first_invalid_from(bytes: Seq<u8>, i: int) -> Option<u8>
    decreases bytes.len() - i,
{
    if i < 0 || i >= bytes.len() {
        None
    } else if !is_identifier_byte(bytes[i]) {
        Some(bytes[i])
    } else {
        first_invalid_from(bytes, i + 1)
    }
}

/// The outcome of checking that `bytes` form an identifier: non-empty, and every byte allowed.
/// The first disallowed byte is reported: as `NonAscii` when it is not ASCII, and otherwise as
/// the char with that code.
pub open spec fn identifier_check(bytes: Seq<u8>) -> Result<(), DataError> {
    if bytes.len() == 0 {
        Err(DataError::Token(TokenError::Empty))
    } else {
        match first_invalid_from(bytes, 0) {
            Some(b) => if b >= 0x80 {
                Err(DataError::NonAscii)
            } else {
                Err(DataError::Token(TokenError::InvalidChar(b as char)))
            },
            None => Ok(()),
        }
    }
}

/// A byte string passes the identifier check exactly when it is non-empty and all its bytes are allowed.
pub proof fn lemma_identifier_check_ok(bytes: Seq<u8>)
    ensures
        identifier_check(bytes) is Ok <==> (bytes.len() > 0 && forall|j: int|
            0 <= j < bytes.len() ==> is_identifier_byte(#[trigger] bytes[j])),
{
    lemma_first_invalid_none(bytes, 0);
}

proof fn lemma_first_invalid_none(bytes: Seq<u8>, i: int)
    requires
        0 <= i,
    ensures
        first_invalid_from(bytes, i) is None <==> forall|j: int|
            i <= j < bytes.len() ==> is_identifier_byte(#[trigger] bytes[j]),
    decreases bytes.len() - i,
{
    if i < bytes.len() {
        lemma_first_invalid_none(bytes, i + 1);
    }
}

/// A non-empty string of ASCII lowercase letters is a valid identifier.
pub proof fn lemma_lowercase_identifier(s: Seq<char>)
    requires
        s.len() > 0,
        forall|i: int| 0 <= i < s.len() ==> 'a' <= #[trigger] s[i] <= 'z',
    ensures
        identifier_check(encode_utf8(s)) is Ok,
{
    assert(vstd::utf8::is_ascii_chars(s));
    vstd::utf8::is_ascii_chars_encode_utf8(s);
    let b = encode_utf8(s);
    assert forall|j: int| 0 <= j < b.len() implies is_identifier_byte(#[trigger] b[j]) by {
        assert('a' <= s[j] <= 'z');
        assert(s[j] as u8 == b[j]);
    }
    lemma_identifier_check_ok(b);
}

/// Identifier bytes are ASCII, so they are valid Utf-8.
pub proof fn lemma_identifier_valid_utf8(bytes: Seq<u8>)
    requires
        identifier_check(bytes) is Ok,
    ensures
        vstd::utf8::valid_utf8(bytes),
{
    lemma_identifier_check_ok(bytes);
    assert forall|i: int| 0 <= 0 <= i < bytes.len() <= bytes.len() implies
        #[trigger] vstd::utf8::is_leading_byte_width_1(bytes[i]) by {
        assert(is_identifier_byte(bytes[i]));
    }
    assert(bytes.subrange(0, 0) =~= Seq::<u8>::empty());
    vstd::utf8::partial_valid_utf8_extend_ascii_block(bytes, 0, bytes.len() as int);
    assert(bytes.subrange(0, bytes.len() as int) =~= bytes);
}

fn is_identifier_byte_exec(b: u8) -> (r: bool)
    ensures
        r == is_identifier_byte(b),
{
    0x21 <= b && b <= 0x7e && !(0x41 <= b && b <= 0x5a) && b != 0x22 && b != 0x23 && b != 0x25
        && b != 0x28 && b != 0x29 && b != 0x2c && b != 0x3d && b != 0x5c && b != 0x7b && b
        != 0x7d
}

/// Check that an identifier is non-empty and made only of allowed ASCII bytes.
pub(crate) fn validate_ascii_identifier(s: &[u8]) -> (r: Result<(), DataError>)
    ensures
        r == identifier_check(s@),
{
    if s.len() == 0 {
        return Err(DataError::Token(TokenError::Empty));
    }
    let mut i: usize = 0;
    while i < s.len()
        invariant
            0 <= i <= s@.len(),
            s@.len() > 0,
            first_invalid_from(s@, 0) == first_invalid_from(s@, i as int),
        decreases s@.len() - i,
    {
        let b = s[i];
        if !is_identifier_byte_exec(b) {
            if b >= 0x80 {
                return Err(DataError::NonAscii);
            }
            return Err(DataError::Token(TokenError::InvalidChar(b as char)));
        }
        i = i + 1;
    }
    Ok(())
}

/// The outcome of counting `{` and `}` from position `i` with `depth` brackets open.
pub open spec fn brace_check_from(s: Seq<u8>, i: int, depth: int) -> Result<(), TokenError>
    decreases s.len() - i,
{
    if i < 0 || i >= s.len() {
        if depth == 0 {
            Ok(())
        } else {
            Err(TokenError::ExtraOpeningBracket)
        }
    } else if s[i] == 0x7b {
        brace_check_from(s, i + 1, depth + 1)
    } else if s[i] == 0x7d {
        if depth == 0 {
            Err(TokenError::ExtraClosingBracket)
        } else {
            brace_check_from(s, i + 1, depth - 1)
        }
    } else {
        brace_check_from(s, i + 1, depth)
    }
}

/// Walking `s` from position `i` with `depth` open `{`, the count of open `{` stays within `i32`
/// until the walk ends at the end of `s` or at a `}` with no `{` open.
pub open spec fn brace_depth_fits_from(s: Seq<u8>, i: int, depth: int) -> bool
    decreases s.len() - i,
{
    if i < 0 || i >= s.len() {
        true
    } else if s[i] == 0x7b {
        depth + 1 <= i32::MAX && brace_depth_fits_from(s, i + 1, depth + 1)
    } else if s[i] == 0x7d {
        depth == 0 || brace_depth_fits_from(s, i + 1, depth - 1)
    } else {
        brace_depth_fits_from(s, i + 1, depth)
    }
}

/// Checking `{}` in `s` with an `i32` count of open `{` does not overflow.
pub open spec fn brace_depth_fits(s: Seq<u8>) -> bool {
    brace_depth_fits_from(s, 0, 0)
}

proof fn lemma_depth_fits_from_short(s: Seq<u8>, i: int, depth: int)
    requires
        0 <= i <= s.len(),
        0 <= depth,
        depth + (s.len() - i) <= i32::MAX,
    ensures
        brace_depth_fits_from(s, i, depth),
    decreases s.len() - i,
{
    if i < s.len() {
        if s[i] == 0x7b {
            lemma_depth_fits_from_short(s, i + 1, depth + 1);
        } else if s[i] == 0x7d {
            if depth > 0 {
                lemma_depth_fits_from_short(s, i + 1, depth - 1);
            }
        } else {
            lemma_depth_fits_from_short(s, i + 1, depth);
        }
    }
}

/// The count of open `{` never exceeds the length, so a text of at most `i32::MAX` bytes fits.
pub proof fn lemma_depth_fits_short(s: Seq<u8>)
    requires
        s.len() <= i32::MAX,
    ensures
        brace_depth_fits(s),
{
    lemma_depth_fits_from_short(s, 0, 0);
}

/// Whether `{}` in `s` can be checked with an `i32` count of open `{` without overflow; holds
/// of every string of at most `i32::MAX` bytes.
pub fn braces_fit(s: &str) -> (r: bool)
    ensures
        r == value_depth_ok(s@),
{
    let b = s.as_bytes();
    let ghost bs = b@;
    let mut i: usize = 0;
    let mut depth: u64 = 0;
    while i < b.len()
        invariant
            bs == b@,
            bs == encode_utf8(s@),
            i <= bs.len(),
            depth <= i32::MAX,
            brace_depth_fits(bs) == brace_depth_fits_from(bs, i as int, depth as int),
        decreases bs.len() - i,
    {
        if b[i] == 0x7b {
            if depth == 0x7fff_ffff {
                return false;
            }
            depth = depth + 1;
        } else if b[i] == 0x7d {
            if depth == 0 {
                return true;
            }
            depth = depth - 1;
        }
        i = i + 1;
    }
    true
}

/// No `{` or `}` byte occurs in `s` from position `p` on.
pub open spec fn no_braces_from(s: Seq<u8>, p: int) -> bool {
    forall|j: int| p <= j < s.len() ==> #[trigger] s[j] != 0x7b && s[j] != 0x7d
}

proof fn lemma_brace_check_no_braces(s: Seq<u8>, i: int, depth: int)
    requires
        0 <= i,
        no_braces_from(s, i),
    ensures
        brace_check_from(s, i, depth) is Ok <==> depth == 0,
    decreases s.len() - i,
{
    if i < s.len() {
        lemma_brace_check_no_braces(s, i + 1, depth);
    }
}

proof fn lemma_brace_check_prefix_from(s: Seq<u8>, p: int, i: int, depth: int)
    requires
        0 <= i <= p <= s.len(),
        no_braces_from(s, p),
        brace_check_from(s, i, depth) is Ok,
    ensures
        brace_check_from(s.subrange(0, p), i, depth) is Ok,
    decreases p - i,
{
    let t = s.subrange(0, p);
    if i == p {
        lemma_brace_check_no_braces(s, p, depth);
    } else {
        assert(t[i] == s[i]);
        if s[i] == 0x7b {
            lemma_brace_check_prefix_from(s, p, i + 1, depth + 1);
        } else if s[i] == 0x7d {
            lemma_brace_check_prefix_from(s, p, i + 1, depth - 1);
        } else {
            lemma_brace_check_prefix_from(s, p, i + 1, depth);
        }
    }
}

/// Cutting balanced text where no `{` or `}` follows leaves balanced text.
pub proof fn lemma_brace_check_prefix(s: Seq<u8>, p: int)
    requires
        0 <= p <= s.len(),
        no_braces_from(s, p),
        brace_check(s) is Ok,
    ensures
        brace_check(s.subrange(0, p)) is Ok,
{
    lemma_brace_check_prefix_from(s, p, 0, 0);
}

/// The outcome of checking that `{` and `}` are balanced in `s`: a `}` without an open
/// `{` is reported first, and otherwise an unclosed `{`.
pub open spec fn brace_check(s: Seq<u8>) -> Result<(), TokenError> {
    brace_check_from(s, 0, 0)
}

/// Calls `serde_bibtex::token::check_balanced`, which walks the `{` and `}` bytes keeping an
/// `i32` depth: it fails with `ExtraClosingBracket` at the first `}` with depth zero, and with
/// `ExtraOpeningBracket` when the depth at the end is not zero. `requires` keeps out the inputs
/// on which the depth would overflow.
#[verifier::external_body]
fn check_balanced(input: &[u8]) -> (r: Result<(), TokenError>)
    requires
        brace_depth_fits(input@),
    ensures
        r == brace_check(input@),
{
    match serde_bibtex::token::check_balanced(input) {
        Ok(()) => Ok(()),
        Err(Outside::Empty) => Err(TokenError::Empty),
        Err(Outside::InvalidChar(c)) => Err(TokenError::InvalidChar(c)),
        Err(Outside::StartsWithDigit) => Err(TokenError::StartsWithDigit),
        Err(Outside::ExtraClosingBracket) => Err(TokenError::ExtraClosingBracket),
        Err(Outside::ExtraOpeningBracket) => Err(TokenError::ExtraOpeningBracket),
    }
}

/// Calls `serde_bibtex::token::is_balanced`, which is `check_balanced(input).is_ok()`.
#[verifier::external_body]
pub(crate) fn is_balanced(input: &[u8]) -> (r: bool)
    requires
        brace_depth_fits(input@),
    ensures
        r == brace_check(input@) is Ok,
{
    serde_bibtex::token::is_balanced(input)
}

/// `c` with `A..=Z` mapped to `a..=z`.
pub open spec fn ascii_lower(c: char) -> char {
    if 'A' <= c <= 'Z' {
        ((c as u32) + 32) as char
    } else {
        c
    }
}

/// `s` with every ASCII capital letter made lowercase.
pub open spec fn lowercase(s: Seq<char>) -> Seq<char> {
    s.map_values(|c: char| ascii_lower(c))
}

/// Making a string ASCII lowercase twice is the same as doing it once.
pub proof fn lemma_lowercase_idempotent(s: Seq<char>)
    ensures
        lowercase(lowercase(s)) == lowercase(s),
{
    assert(lowercase(lowercase(s)) =~= lowercase(s));
}

/// Calls `String::make_ascii_lowercase`, which maps `A..=Z` to `a..=z` in place and leaves
/// every other char as it is.
#[verifier::external_body]
fn make_ascii_lowercase(s: &mut String)
    ensures
        final(s)@ == lowercase(old(s)@),
{
    s.make_ascii_lowercase()
}

/// The entry type names which BibTeX reserves.
pub open spec fn is_reserved_entry_type(s: Seq<char>) -> bool {
    s == "comment"@ || s == "preamble"@ || s == "string"@
}

/// The outcome of validating `s` as an entry type.
pub open spec fn entry_type_check(s: Seq<char>) -> Result<(), DataError> {
    match identifier_check(encode_utf8(s)) {
        Err(e) => Err(e),
        Ok(()) => if is_reserved_entry_type(s) {
            Err(DataError::EntryTypeReserved)
        } else {
            Ok(())
        },
    }
}

/// The outcome of validating `s` as a field key.
pub open spec fn field_key_check(s: Seq<char>) -> Result<(), DataError> {
    identifier_check(encode_utf8(s))
}

/// The outcome of validating `s` as a field value.
pub open spec fn field_value_check(s: Seq<char>) -> Result<(), DataError> {
    match brace_check(encode_utf8(s)) {
        Ok(()) => Ok(()),
        Err(e) => Err(DataError::Token(e)),
    }
}

/// A string of at most `i32::MAX` bytes.
pub open spec fn value_len_ok(s: Seq<char>) -> bool {
    encode_utf8(s).len() <= i32::MAX
}

/// A string whose `{}` can be checked without the bracket count overflowing.
pub open spec fn value_depth_ok(s: Seq<char>) -> bool {
    brace_depth_fits(encode_utf8(s))
}

/// A validated entry type (e.g. "article" in `@article{...}`): composed only of ASCII printable
/// characters with `{}(),= \t\n\\#%\"` and `A..=Z` removed, and not one of `comment`,
/// `preamble`, or `string`.
#[derive(Debug, PartialOrd, Ord, Hash)]
pub struct EntryType(pub(crate) String);

/// A validated field key (e.g. `author` in `...author = {...}`): composed only of ASCII
/// printable characters with `{}(),= \t\n\\#%\"` and `A..=Z` removed.
#[derive(Debug, PartialOrd, Ord, Hash)]
pub struct FieldKey(pub(crate) String);

/// A validated field value (e.g. `John Doe` in `...author = {John Doe}`) with balanced `{}`.
#[derive(Debug, PartialOrd, Ord, Hash)]
pub struct FieldValue(pub(crate) String);

/// A borrowed entry type.
#[derive(Debug, Clone, Copy, PartialEq, Eq, PartialOrd, Ord, Hash)]
pub struct EntryTypeRef<'r>(pub(crate) &'r str);

/// A borrowed field key.
#[derive(Debug, Clone, Copy, PartialEq, Eq, PartialOrd, Ord, Hash)]
pub struct FieldKeyRef<'r>(pub(crate) &'r str);

/// A borrowed field value.
#[derive(Debug, Clone, Copy, PartialEq, Eq, PartialOrd, Ord, Hash)]
pub struct FieldValueRef<'r>(pub(crate) &'r str);

impl View for EntryType {
    type V = Seq<char>;

    closed spec fn view(&self) -> Seq<char> {
        self.0@
    }
}

impl View for FieldKey {
    type V = Seq<char>;

    closed spec fn view(&self) -> Seq<char> {
        self.0@
    }
}

impl View for FieldValue {
    type V = Seq<char>;

    closed spec fn view(&self) -> Seq<char> {
        self.0@
    }
}

impl<'r> View for EntryTypeRef<'r> {
    type V = Seq<char>;

    closed spec fn view(&self) -> Seq<char> {
        self.0@
    }
}

impl<'r> View for FieldKeyRef<'r> {
    type V = Seq<char>;

    closed spec fn view(&self) -> Seq<char> {
        self.0@
    }
}

impl<'r> View for FieldValueRef<'r> {
    type V = Seq<char>;

    closed spec fn view(&self) -> Seq<char> {
        self.0@
    }
}

impl EntryType {
    /// Validate that the given string is a valid entry type string.
    pub fn validate(s: &str) -> (r: Result<(), DataError>)
        ensures
            r == entry_type_check(s@),
    {
        match validate_ascii_identifier(s.as_bytes()) {
            Err(e) => Err(e),
            Ok(()) => {
                if str_eq(s, "comment") || str_eq(s, "preamble") || str_eq(s, "string") {
                    Err(DataError::EntryTypeReserved)
                } else {
                    Ok(())
                }
            },
        }
    }

    /// Construct a new entry type from `s` made ASCII lowercase.
    pub fn new(s: String) -> (r: Result<Self, DataError>)
        ensures
            r is Ok <==> entry_type_check(lowercase(s@)) is Ok,
            r matches Ok(t) ==> t@ == lowercase(s@),
            r matches Err(e) ==> entry_type_check(lowercase(s@)) == Err::<(), DataError>(e),
    {
        let mut s = s;
        make_ascii_lowercase(&mut s);
        match Self::validate(s.as_str()) {
            Ok(()) => Ok(EntryType(s)),
            Err(e) => Err(e),
        }
    }

    /// Obtain a borrowed variant referencing the internal string buffer.
    pub fn by_ref(&self) -> (r: EntryTypeRef<'_>)
        ensures
            r@ == self@,
    {
        EntryTypeRef(self.0.as_str())
    }

    /// Obtain the internal string.
    pub fn as_str(&self) -> (r: &str)
        ensures
            r@ == self@,
    {
        self.0.as_str()
    }
}

impl FieldKey {
    /// Validate that the given string is valid as a field key.
    pub fn validate(s: &str) -> (r: Result<(), DataError>)
        ensures
            r == field_key_check(s@),
    {
        validate_ascii_identifier(s.as_bytes())
    }

    /// Construct a new field key from `s` made ASCII lowercase.
    pub fn new(s: String) -> (r: Result<Self, DataError>)
        ensures
            r is Ok <==> field_key_check(lowercase(s@)) is Ok,
            r matches Ok(t) ==> t@ == lowercase(s@),
            r matches Err(e) ==> field_key_check(lowercase(s@)) == Err::<(), DataError>(e),
    {
        let mut s = s;
        make_ascii_lowercase(&mut s);
        match Self::validate(s.as_str()) {
            Ok(()) => Ok(FieldKey(s)),
            Err(e) => Err(e),
        }
    }

    /// Obtain a borrowed variant referencing the internal string buffer.
    pub fn by_ref(&self) -> (r: FieldKeyRef<'_>)
        ensures
            r@ == self@,
    {
        FieldKeyRef(self.0.as_str())
    }

    /// Obtain the internal string.
    pub fn as_str(&self) -> (r: &str)
        ensures
            r@ == self@,
    {
        self.0.as_str()
    }
}

impl FieldValue {
    /// Validate that the given string is valid as a field value.
    pub fn validate(s: &str) -> (r: Result<(), DataError>)
        requires
            value_depth_ok(s@),
        ensures
            r == field_value_check(s@),
    {
        match check_balanced(s.as_bytes()) {
            Ok(()) => Ok(()),
            Err(e) => Err(DataError::Token(e)),
        }
    }

    /// Construct a new field value.
    pub fn new(s: String) -> (r: Result<Self, DataError>)
        requires
            value_depth_ok(s@),
        ensures
            r is Ok <==> field_value_check(s@) is Ok,
            r matches Ok(t) ==> t@ == s@,
            r matches Err(e) ==> field_value_check(s@) == Err::<(), DataError>(e),
    {
        match Self::validate(s.as_str()) {
            Ok(()) => Ok(FieldValue(s)),
            Err(e) => Err(e),
        }
    }

    /// Obtain a borrowed variant referencing the internal string buffer.
    pub fn by_ref(&self) -> (r: FieldValueRef<'_>)
        ensures
            r@ == self@,
    {
        FieldValueRef(self.0.as_str())
    }

    /// Obtain the internal string.
    pub fn as_str(&self) -> (r: &str)
        ensures
            r@ == self@,
    {
        self.0.as_str()
    }
}


impl EntryType {
    /// Wrap a string without checking it; the caller keeps the entry type rules.
    pub(crate) fn from_string(s: String) -> (r: Self)
        ensures
            r@ == s@,
    {
        EntryType(s)
    }

    /// Accept an entry type read by a BibTeX deserializer, which has already checked the
    /// identifier rules except for ASCII case: fails unless the string is ASCII, and makes it
    /// ASCII lowercase.
    pub fn from_deserialized(s: String) -> (r: Option<Self>)
        ensures
            r is Some <==> vstd::utf8::is_ascii_chars(s@),
            r matches Some(t) ==> t@ == lowercase(s@),
    {
        if !s.as_str().is_ascii() {
            return None;
        }
        let mut s = s;
        make_ascii_lowercase(&mut s);
        Some(EntryType(s))
    }

    /// Construct an entry type from a standard entry type.
    pub fn standard(et: StandardEntryType) -> (r: Self)
        ensures
            r@ == et.spec_name(),
    {
        EntryType(et.name().to_owned())
    }

    /// Converts this entry type to a standard entry type, if possible.
    pub fn as_standard(&self) -> (r: Option<StandardEntryType>)
        ensures
            r == StandardEntryType::spec_from_name(self@),
    {
        StandardEntryType::from_name(self.0.as_str())
    }

    /// Returns if this entry type is standard.
    pub fn is_standard(&self) -> (r: bool)
        ensures
            r == StandardEntryType::spec_from_name(self@) is Some,
    {
        StandardEntryType::is_name(self.0.as_str())
    }
}

impl Default for EntryType {
    fn default() -> (r: Self)
        ensures
            r@ == StandardEntryType::Misc.spec_name(),
    {
        Self::standard(StandardEntryType::Misc)
    }
}

impl FieldKey {
    /// Accept a field key read by a BibTeX deserializer, which has already checked the
    /// identifier rules except for ASCII case: fails unless the string is ASCII, and makes it
    /// ASCII lowercase.
    pub fn from_deserialized(s: String) -> (r: Option<Self>)
        ensures
            r is Some <==> vstd::utf8::is_ascii_chars(s@),
            r matches Some(t) ==> t@ == lowercase(s@),
    {
        if !s.as_str().is_ascii() {
            return None;
        }
        let mut s = s;
        make_ascii_lowercase(&mut s);
        Some(FieldKey(s))
    }

    /// Wrap a string without checking it; the caller keeps the field key rules.
    pub(crate) fn from_string(s: String) -> (r: Self)
        ensures
            r@ == s@,
    {
        FieldKey(s)
    }

    /// Construct a field key from a standard field key.
    pub fn standard(key: StandardFieldKey) -> (r: Self)
        ensures
            r@ == key.spec_name(),
    {
        FieldKey(key.name().to_owned())
    }

    /// Converts this field key to a standard field key, if possible.
    pub fn as_standard(&self) -> (r: Option<StandardFieldKey>)
        ensures
            r == StandardFieldKey::spec_from_name(self@),
    {
        StandardFieldKey::from_name(self.0.as_str())
    }

    /// Returns if this field key is standard.
    pub fn is_standard(&self) -> (r: bool)
        ensures
            r == StandardFieldKey::spec_from_name(self@) is Some,
    {
        StandardFieldKey::is_name(self.0.as_str())
    }

    /// A field key as a field value: the field key rules are stricter than the value rules.
    pub fn into_value(self) -> (r: FieldValue)
        ensures
            r@ == self@,
    {
        FieldValue(self.0)
    }
}

impl FieldValue {
    /// Accept a field value read by a BibTeX deserializer, which has already checked that its
    /// `{}` are balanced.
    pub fn from_deserialized(s: String) -> (r: Self)
        ensures
            r@ == s@,
    {
        FieldValue(s)
    }

    /// Wrap a string without checking it; the caller keeps the field value rules.
    pub(crate) fn from_string(s: String) -> (r: Self)
        ensures
            r@ == s@,
    {
        FieldValue(s)
    }
}

impl<'r> EntryTypeRef<'r> {
    /// Construct a new borrowed entry type by wrapping a string slice.
    pub fn new(s: &'r str) -> (r: Result<Self, DataError>)
        ensures
            r is Ok <==> entry_type_check(s@) is Ok,
            r matches Ok(t) ==> t@ == s@,
            r matches Err(e) ==> entry_type_check(s@) == Err::<(), DataError>(e),
    {
        match EntryType::validate(s) {
            Ok(()) => Ok(EntryTypeRef(s)),
            Err(e) => Err(e),
        }
    }

    /// Wrap a string slice without checking it; the caller keeps the entry type rules.
    pub(crate) fn from_str_unchecked(s: &'r str) -> (r: Self)
        ensures
            r@ == s@,
    {
        EntryTypeRef(s)
    }

    /// Obtain the inner string slice.
    pub fn inner(&self) -> (r: &'r str)
        ensures
            r@ == self@,
    {
        self.0
    }

    /// An owned copy of this entry type.
    pub fn to_owned_type(&self) -> (r: EntryType)
        ensures
            r@ == self@,
    {
        EntryType(self.0.to_owned())
    }

    /// Construct an entry type from a standard entry type.
    pub fn standard(et: StandardEntryType) -> (r: Self)
        ensures
            r@ == et.spec_name(),
    {
        EntryTypeRef(et.name())
    }

    /// Converts this entry type to a standard entry type, if possible.
    pub fn as_standard(&self) -> (r: Option<StandardEntryType>)
        ensures
            r == StandardEntryType::spec_from_name(self@),
    {
        StandardEntryType::from_name(self.0)
    }

    /// Returns if this entry type is standard.
    pub fn is_standard(&self) -> (r: bool)
        ensures
            r == StandardEntryType::spec_from_name(self@) is Some,
    {
        StandardEntryType::is_name(self.0)
    }
}

impl<'r> FieldKeyRef<'r> {
    /// Construct a new borrowed field key by wrapping a string slice.
    pub fn new(s: &'r str) -> (r: Result<Self, DataError>)
        ensures
            r is Ok <==> field_key_check(s@) is Ok,
            r matches Ok(t) ==> t@ == s@,
            r matches Err(e) ==> field_key_check(s@) == Err::<(), DataError>(e),
    {
        match FieldKey::validate(s) {
            Ok(()) => Ok(FieldKeyRef(s)),
            Err(e) => Err(e),
        }
    }

    /// Wrap a string slice without checking it; the caller keeps the field key rules.
    pub(crate) fn from_str_unchecked(s: &'r str) -> (r: Self)
        ensures
            r@ == s@,
    {
        FieldKeyRef(s)
    }

    /// Obtain the inner string slice.
    pub fn inner(&self) -> (r: &'r str)
        ensures
            r@ == self@,
    {
        self.0
    }

    /// An owned copy of this field key.
    pub fn to_owned_key(&self) -> (r: FieldKey)
        ensures
            r@ == self@,
    {
        FieldKey(self.0.to_owned())
    }

    /// This field key as a field value: the field key rules are stricter than the value rules.
    pub fn as_value(&self) -> (r: FieldValueRef<'r>)
        ensures
            r@ == self@,
    {
        FieldValueRef(self.0)
    }

    /// Construct a field key from a standard field key.
    pub fn standard(key: StandardFieldKey) -> (r: Self)
        ensures
            r@ == key.spec_name(),
    {
        FieldKeyRef(key.name())
    }

    /// Converts this field key to a standard field key, if possible.
    pub fn as_standard(&self) -> (r: Option<StandardFieldKey>)
        ensures
            r == StandardFieldKey::spec_from_name(self@),
    {
        StandardFieldKey::from_name(self.0)
    }

    /// Returns if this field key is standard.
    pub fn is_standard(&self) -> (r: bool)
        ensures
            r == StandardFieldKey::spec_from_name(self@) is Some,
    {
        StandardFieldKey::is_name(self.0)
    }
}

impl<'r> FieldValueRef<'r> {
    /// Construct a new borrowed field value by wrapping a string slice.
    pub fn new(s: &'r str) -> (r: Result<Self, DataError>)
        requires
            value_depth_ok(s@),
        ensures
            r is Ok <==> field_value_check(s@) is Ok,
            r matches Ok(t) ==> t@ == s@,
            r matches Err(e) ==> field_value_check(s@) == Err::<(), DataError>(e),
    {
        match FieldValue::validate(s) {
            Ok(()) => Ok(FieldValueRef(s)),
            Err(e) => Err(e),
        }
    }

    /// Wrap a string slice without checking it; the caller keeps the field value rules.
    pub(crate) fn from_str_unchecked(s: &'r str) -> (r: Self)
        ensures
            r@ == s@,
    {
        FieldValueRef(s)
    }

    /// Obtain the inner string slice.
    pub fn inner(&self) -> (r: &'r str)
        ensures
            r@ == self@,
    {
        self.0
    }

    /// An owned copy of this field value.
    pub fn to_owned_value(&self) -> (r: FieldValue)
        ensures
            r@ == self@,
    {
        FieldValue(self.0.to_owned())
    }
}

impl Clone for EntryType {
    fn clone(&self) -> (r: Self)
        ensures
            r@ == self@,
    {
        EntryType(self.0.clone())
    }
}

impl Clone for FieldKey {
    fn clone(&self) -> (r: Self)
        ensures
            r@ == self@,
    {
        FieldKey(self.0.clone())
    }
}

impl Clone for FieldValue {
    fn clone(&self) -> (r: Self)
        ensures
            r@ == self@,
    {
        FieldValue(self.0.clone())
    }
}

impl PartialEq for EntryType {
    fn eq(&self, other: &Self) -> (r: bool) {
        self.0 == other.0
    }
}

impl vstd::std_specs::cmp::PartialEqSpecImpl for EntryType {
    open spec fn obeys_eq_spec() -> bool {
        true
    }

    open spec fn eq_spec(&self, other: &Self) -> bool {
        self@ == other@
    }
}

impl Eq for EntryType {}

impl PartialEq for FieldKey {
    fn eq(&self, other: &Self) -> (r: bool) {
        self.0 == other.0
    }
}

impl vstd::std_specs::cmp::PartialEqSpecImpl for FieldKey {
    open spec fn obeys_eq_spec() -> bool {
        true
    }

    open spec fn eq_spec(&self, other: &Self) -> bool {
        self@ == other@
    }
}

impl Eq for FieldKey {}

impl PartialEq for FieldValue {
    fn eq(&self, other: &Self) -> (r: bool) {
        self.0 == other.0
    }
}

impl vstd::std_specs::cmp::PartialEqSpecImpl for FieldValue {
    open spec fn obeys_eq_spec() -> bool {
        true
    }

    open spec fn eq_spec(&self, other: &Self) -> bool {
        self@ == other@
    }
}

impl Eq for FieldValue {}

} // verus!
