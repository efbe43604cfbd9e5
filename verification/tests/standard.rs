use autobib_entry::{EntryType, FieldKey, StandardEntryType, StandardFieldKey};

/// The standard field keys, by name.
const STANDARD_FIELD_KEY_NAMES: [(&str, StandardFieldKey); 105] = [
    ("abstract", StandardFieldKey::Abstract),
    ("addendum", StandardFieldKey::Addendum),
    ("afterword", StandardFieldKey::Afterword),
    ("annotation", StandardFieldKey::Annotation),
    ("annotator", StandardFieldKey::Annotator),
    ("author", StandardFieldKey::Author),
    ("authortype", StandardFieldKey::AuthorType),
    ("bookauthor", StandardFieldKey::BookAuthor),
    ("bookpagination", StandardFieldKey::BookPagination),
    ("booksubtitle", StandardFieldKey::BookSubtitle),
    ("booktitle", StandardFieldKey::BookTitle),
    ("booktitleaddon", StandardFieldKey::BookTitleAddon),
    ("chapter", StandardFieldKey::Chapter),
    ("commentator", StandardFieldKey::Commentator),
    ("date", StandardFieldKey::Date),
    ("doi", StandardFieldKey::Doi),
    ("edition", StandardFieldKey::Edition),
    ("editor", StandardFieldKey::Editor),
    ("editora", StandardFieldKey::EditorA),
    ("editorb", StandardFieldKey::EditorB),
    ("editorc", StandardFieldKey::EditorC),
    ("editortype", StandardFieldKey::EditorType),
    ("editoratype", StandardFieldKey::EditorAType),
    ("editorbtype", StandardFieldKey::EditorBType),
    ("editorctype", StandardFieldKey::EditorCType),
    ("eid", StandardFieldKey::Eid),
    ("entrysubtype", StandardFieldKey::EntrySubType),
    ("eprint", StandardFieldKey::EPrint),
    ("eprintclass", StandardFieldKey::EPrintClass),
    ("eprinttype", StandardFieldKey::EPrintType),
    ("eventdate", StandardFieldKey::EventDate),
    ("eventtitle", StandardFieldKey::EventTitle),
    ("eventtitleaddon", StandardFieldKey::EventTitleAddon),
    ("file", StandardFieldKey::File),
    ("foreward", StandardFieldKey::Foreward),
    ("holder", StandardFieldKey::Holder),
    ("howpublished", StandardFieldKey::HowPublished),
    ("indextitle", StandardFieldKey::IndexTitle),
    ("institution", StandardFieldKey::Institution),
    ("introduction", StandardFieldKey::Introduction),
    ("isan", StandardFieldKey::ISAN),
    ("isbn", StandardFieldKey::ISBN),
    ("ismn", StandardFieldKey::ISMN),
    ("isrn", StandardFieldKey::ISRN),
    ("issn", StandardFieldKey::ISSN),
    ("issue", StandardFieldKey::Issue),
    ("issuesubtitle", StandardFieldKey::IssueSubtitle),
    ("issuetitle", StandardFieldKey::IssueTitle),
    ("issuetitleaddon", StandardFieldKey::IssueTitleAddon),
    ("iswc", StandardFieldKey::ISWC),
    ("journalsubtitle", StandardFieldKey::JournalSubtitle),
    ("journaltitle", StandardFieldKey::JournalTitle),
    ("journaltitleaddon", StandardFieldKey::JournalTitleAddon),
    ("label", StandardFieldKey::Label),
    ("language", StandardFieldKey::Language),
    ("library", StandardFieldKey::Library),
    ("location", StandardFieldKey::Location),
    ("mainsubtitle", StandardFieldKey::MainSubtitle),
    ("maintitle", StandardFieldKey::MainTitle),
    ("maintitleaddon", StandardFieldKey::MainTitleAddon),
    ("month", StandardFieldKey::Month),
    ("nameaddon", StandardFieldKey::NameAddon),
    ("note", StandardFieldKey::Note),
    ("number", StandardFieldKey::Number),
    ("organization", StandardFieldKey::Organization),
    ("origdate", StandardFieldKey::OrigDate),
    ("origlanguage", StandardFieldKey::OrigLanguage),
    ("origlocation", StandardFieldKey::OrigLocation),
    ("origpublisher", StandardFieldKey::OrigPublisher),
    ("origtitle", StandardFieldKey::OrigTitle),
    ("pages", StandardFieldKey::Pages),
    ("pagetotal", StandardFieldKey::PageTotal),
    ("pagination", StandardFieldKey::Pagination),
    ("part", StandardFieldKey::Part),
    ("publisher", StandardFieldKey::Publisher),
    ("pubstate", StandardFieldKey::PubState),
    ("reprinttitle", StandardFieldKey::ReprintTitle),
    ("series", StandardFieldKey::Series),
    ("shortauthor", StandardFieldKey::ShortAuthor),
    ("shorteditor", StandardFieldKey::ShortEditor),
    ("shorthand", StandardFieldKey::Shorthand),
    ("shorthandintro", StandardFieldKey::ShorthandIntro),
    ("shortjournal", StandardFieldKey::ShortJournal),
    ("shortseries", StandardFieldKey::ShortSeries),
    ("shorttitle", StandardFieldKey::ShortTitle),
    ("subtitle", StandardFieldKey::Subtitle),
    ("title", StandardFieldKey::Title),
    ("titleaddon", StandardFieldKey::TitleAddon),
    ("translator", StandardFieldKey::Translator),
    ("type", StandardFieldKey::Type),
    ("url", StandardFieldKey::Url),
    ("urldate", StandardFieldKey::UrlDate),
    ("venue", StandardFieldKey::Venue),
    ("version", StandardFieldKey::Version),
    ("volume", StandardFieldKey::Volume),
    ("volumes", StandardFieldKey::Volumes),
    ("year", StandardFieldKey::Year),
    ("address", StandardFieldKey::Address),
    ("annote", StandardFieldKey::Annote),
    ("archiveprefix", StandardFieldKey::ArchivePrefix),
    ("journal", StandardFieldKey::Journal),
    ("key", StandardFieldKey::Key),
    ("pdf", StandardFieldKey::Pdf),
    ("primaryclass", StandardFieldKey::PrimaryClass),
    ("school", StandardFieldKey::School),
];

/// The standard entry types, by name.
const STANDARD_ENTRY_TYPE_NAMES: [(&str, StandardEntryType); 33] = [
    ("article", StandardEntryType::Article),
    ("book", StandardEntryType::Book),
    ("mvbook", StandardEntryType::MvBook),
    ("inbook", StandardEntryType::InBook),
    ("bookinbook", StandardEntryType::BookInBook),
    ("suppbook", StandardEntryType::SuppBook),
    ("booklet", StandardEntryType::Booklet),
    ("collection", StandardEntryType::Collection),
    ("mvcollection", StandardEntryType::MvCollection),
    ("incollection", StandardEntryType::InCollection),
    ("suppcollection", StandardEntryType::SuppCollection),
    ("dataset", StandardEntryType::Dataset),
    ("manual", StandardEntryType::Manual),
    ("misc", StandardEntryType::Misc),
    ("online", StandardEntryType::Online),
    ("patent", StandardEntryType::Patent),
    ("periodical", StandardEntryType::Periodical),
    ("suppperiodical", StandardEntryType::SuppPeriodical),
    ("proceedings", StandardEntryType::Proceedings),
    ("mvproceedings", StandardEntryType::MvProceedings),
    ("inproceedings", StandardEntryType::InProceedings),
    ("reference", StandardEntryType::Reference),
    ("mvreference", StandardEntryType::MvReference),
    ("inreference", StandardEntryType::InReference),
    ("report", StandardEntryType::Report),
    ("software", StandardEntryType::Software),
    ("thesis", StandardEntryType::Thesis),
    ("unpublished", StandardEntryType::Unpublished),
    ("conference", StandardEntryType::Conference),
    ("electronic", StandardEntryType::Electronic),
    ("mastersthesis", StandardEntryType::MastersThesis),
    ("phdthesis", StandardEntryType::PhdThesis),
    ("techreport", StandardEntryType::TechReport),
];

#[test]
fn test_field_keys() {
    for (k, v) in STANDARD_FIELD_KEY_NAMES.iter() {
        assert_eq!(&v.name(), k);
        if v.is_bibtex() {
            assert_eq!(v.to_bibtex(), Some(*v));
        }
        if let Some(b) = v.to_bibtex() {
            assert!(b.is_bibtex());
        }
    }
}

#[test]
fn test_entry_types() {
    for (k, v) in STANDARD_ENTRY_TYPE_NAMES.iter() {
        assert_eq!(&v.name(), k);
    }
}

#[test]
fn standard_names_round_trip() {
    for (k, v) in STANDARD_FIELD_KEY_NAMES.iter() {
        assert_eq!(StandardFieldKey::from_name(k), Some(*v));
        assert!(StandardFieldKey::is_name(k));
    }
    for (k, v) in STANDARD_ENTRY_TYPE_NAMES.iter() {
        assert_eq!(StandardEntryType::from_name(k), Some(*v));
        assert!(StandardEntryType::is_name(k));
    }
}

#[test]
fn unknown_names() {
    assert_eq!(StandardFieldKey::from_name("Author"), None);
    assert_eq!(StandardFieldKey::from_name(""), None);
    assert!(!StandardFieldKey::is_name("authors"));
    assert!(StandardFieldKey::is_name("journal"));
    assert!(!StandardFieldKey::is_name("Journal"));
    assert!(!StandardFieldKey::is_name("sortkey"));
    assert_eq!(StandardEntryType::from_name("Article"), None);
    assert!(!StandardEntryType::is_name("comment"));
}

#[test]
fn standard_names_are_valid() {
    for (k, v) in STANDARD_FIELD_KEY_NAMES.iter() {
        assert!(FieldKey::validate(k).is_ok());
        assert_eq!(FieldKey::standard(*v).as_str(), *k);
        assert_eq!(FieldKey::standard(*v).as_standard(), Some(*v));
    }
    for (k, v) in STANDARD_ENTRY_TYPE_NAMES.iter() {
        assert!(EntryType::validate(k).is_ok());
        assert_eq!(EntryType::standard(*v).as_str(), *k);
        assert!(EntryType::standard(*v).is_standard());
    }
}

#[test]
fn resolve_alias_is_stable() {
    for (_, v) in STANDARD_FIELD_KEY_NAMES.iter() {
        let r = v.resolve_alias();
        assert_eq!(r.resolve_alias(), r);
        if !v.is_alias() {
            assert_eq!(r, *v);
        }
    }
}

#[test]
fn aliases() {
    assert!(StandardFieldKey::Journal.is_alias());
    assert_eq!(StandardFieldKey::Journal.resolve_alias(), StandardFieldKey::JournalTitle);
    assert_eq!(StandardFieldKey::PrimaryClass.resolve_alias(), StandardFieldKey::EPrintClass);
    assert!(!StandardFieldKey::Author.is_alias());
    assert_eq!(StandardFieldKey::Author.resolve_alias(), StandardFieldKey::Author);
}

#[test]
fn default_entry_type_is_misc() {
    assert_eq!(StandardEntryType::default(), StandardEntryType::Misc);
    assert_eq!(EntryType::default().as_str(), "misc");
}
