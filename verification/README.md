# autobib_entry

Entry data for BibTeX records, verified with Verus: validated identifiers, a mutable
key/value container, and binary formats from which fields can be read without parsing.

## Layout

- `src/ident.rs`, `src/ident/standard.rs`: entry types, field keys and field values, their
  validation rules, and the standard BibLaTeX names.
- `src/data.rs`: the `EntryData` trait over an entry type and a sequence of fields, and the
  `Archive` trait for binary formats.
- `src/data/mutable.rs`: `MutableEntryData`, fields kept sorted by key, with editing, merging
  and normalization.
- `src/data/archive.rs`: the archive format (16-byte header) and `ArchivedEntryData`.
- `src/raw.rs`: the raw format (8-byte header) and `RawEntryData`.
- `src/v0.rs`: the legacy block format and `LegacyEntryData`.
- `src/encoding.rs`: little-endian integers and byte-string order.
- `app/`: `serde` support and `Display` for the errors.

Each format comes with a proof that the bytes written for entry data pass the format's
validation and read back as the same entry type and fields.
