//! Errors which may occur during validation and conversion.
//!
//! - [`AccessError`]: errors occurring while checking archived bytes.
//! - [`DataError`]: errors occurring while constructing entry data.

use std::str::Utf8Error;
use vstd::prelude::*;

verus! {

#[verifier::external_type_specification]
#[verifier::external_body]
pub struct ExUtf8Error(Utf8Error);

/// A syntax error in a BibTeX token or identifier.
#[derive(Debug, Clone, Copy, PartialEq, Eq, Structural)]
pub enum TokenError {
    /// Expected to be non-empty.
    Empty,
    /// Contains an invalid char.
    InvalidChar(char),
    /// Expected to start with a non-ASCII digit.
    StartsWithDigit,
    /// Has an extra closing bracket.
    ExtraClosingBracket,
    /// Has too many opening brackets.
    ExtraOpeningBracket,
}

/// An error which may occur while reading archived bytes.
#[derive(Debug, PartialEq)]
pub enum AccessError {
    /// The format is not recognized by this variant.
    Unrecognized,
    /// The header bytes are incomplete or invalid.
    InvalidHeader,
    /// The entry type pointer is invalid.
    InvalidEntryType,
    /// The fields metadata is incomplete.
    IncompleteFields,
    /// There are trailing bytes starting at the given byte offset.
    TrailingBytes(usize),
    /// The specified field contains an invalid index.
    InvalidIndex(usize),
    /// The specified field contains an index which is not a char boundary.
    InvalidStrOffset(usize),
    /// The key of the specified field does not sort after the key of the field before it.
    UnsortedFields(usize),
    /// The string data is not valid Utf-8.
    InvalidUtf8(Utf8Error),
}

/// What an [`AccessError`] reports, without the payload of a Utf-8 error.
pub enum AccessFault {
    Unrecognized,
    InvalidHeader,
    InvalidEntryType,
    IncompleteFields,
    TrailingBytes(usize),
    InvalidIndex(usize),
    InvalidStrOffset(usize),
    UnsortedFields(usize),
    InvalidUtf8,
}

impl View for AccessError {
    type V = AccessFault;

    open spec fn view(&self) -> AccessFault {
        match self {
            AccessError::Unrecognized => AccessFault::Unrecognized,
            AccessError::InvalidHeader => AccessFault::InvalidHeader,
            AccessError::InvalidEntryType => AccessFault::InvalidEntryType,
            AccessError::IncompleteFields => AccessFault::IncompleteFields,
            AccessError::TrailingBytes(i) => AccessFault::TrailingBytes(*i),
            AccessError::InvalidIndex(i) => AccessFault::InvalidIndex(*i),
            AccessError::InvalidStrOffset(i) => AccessFault::InvalidStrOffset(*i),
            AccessError::UnsortedFields(i) => AccessFault::UnsortedFields(*i),
            AccessError::InvalidUtf8(_) => AccessFault::InvalidUtf8,
        }
    }
}

/// An error which may occur while trying to construct entry data.
#[derive(Debug, Clone, Copy, PartialEq, Eq, Structural)]
pub enum DataError {
    /// There was a syntax error in a BibTeX token or identifier.
    Token(TokenError),
    /// An entry type is one of the reserved names `comment`, `preamble`, `string`.
    EntryTypeReserved,
    /// An identifier which was expected to be Ascii is not Ascii
    NonAscii,
    /// Fields are not sorted by field key.
    Unsorted,
}

impl From<TokenError> for DataError {
    fn from(value: TokenError) -> (r: Self)
        ensures
            r == DataError::Token(value),
    {
        DataError::Token(value)
    }
}

impl vstd::std_specs::convert::FromSpecImpl<TokenError> for DataError {
    open spec fn obeys_from_spec() -> bool {
        true
    }

    open spec fn from_spec(v: TokenError) -> Self {
        DataError::Token(v)
    }
}

impl From<Utf8Error> for AccessError {
    fn from(err: Utf8Error) -> (r: Self)
        ensures
            r@ == AccessFault::InvalidUtf8,
    {
        AccessError::InvalidUtf8(err)
    }
}

impl vstd::std_specs::convert::FromSpecImpl<Utf8Error> for AccessError {
    open spec fn obeys_from_spec() -> bool {
        true
    }

    open spec fn from_spec(v: Utf8Error) -> Self {
        AccessError::InvalidUtf8(v)
    }
}

} // verus!
