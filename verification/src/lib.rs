//! Entry data for BibTeX records: validated identifiers, a mutable
//! key/value container and compact binary archive formats.
#![allow(unused_imports)]

use vstd::prelude::*;

pub mod data;
pub mod encoding;
pub mod error;
pub mod ident;
pub mod raw;
pub mod v0;

pub use data::{Archive, EntryData};
pub use error::{AccessError, DataError};
pub use ident::{
    EntryType, EntryTypeRef, FieldKey, FieldKeyRef, FieldValue, FieldValueRef, StandardEntryType,
    StandardFieldKey,
};

