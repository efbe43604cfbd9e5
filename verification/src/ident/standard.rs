//! The standard entry types and field keys of BibLaTeX.
//!
//! Each standard name converts to its identifier, and an identifier can be
//! looked up to find the standard name it spells, if any.

use crate::encoding::str_eq;
use crate::ident::{entry_type_check, field_key_check, lemma_lowercase_identifier};
use vstd::prelude::*;

verus! {

/// One of the standard entry types defined in the [BibLaTeX 3.21
/// documentation](https://mirrors.ctan.org/macros/latex/contrib/biblatex/doc/biblatex.pdf).
///
/// Note that this type can be converted into an [`EntryType`] or an [`EntryTypeRef<'static>`].
#[derive(Debug, Clone, Copy, PartialEq, Eq, Structural)]
pub enum StandardEntryType {
    /// An article in a journal, magazine, newspaper, or other periodical which forms a self-contained
    /// unit with its own title.
    Article,
    /// A single-volume book with one or more authors where the authors share credit for the work as a whole.
    Book,
    /// A multi-volume [`@book`](Self::Book).
    MvBook,
    /// A part of a book which forms a self-contained unit with its own title. Note
    InBook,
    /// This type is similar to [`@inbook`](Self::InBook) but intended for works originally published as a stand-alone book.
    BookInBook,
    /// Supplemental material in a [`@book`](Self::Book).
    SuppBook,
    /// A book-like work without a formal publisher or sponsoring institution.
    Booklet,
    /// A single-volume collection with multiple, self-contained contributions by distinct authors which have their own title.
    Collection,
    /// A multi-volume [`@collection`](Self::Collection).
    MvCollection,
    /// A contribution to a collection which forms a self-contained unit with a distinct author and title.
    InCollection,
    /// Supplemental material in a [`@collection`](Self::Collection)
    SuppCollection,
    /// A data set or a similar collection of (mostly) raw data.
    Dataset,
    /// Technical or other documentation, not necessarily in printed form.
    Manual,
    /// A fallback type for entries which do not fit into any other category.
    Misc,
    /// An online resource.
    Online,
    /// A patent or patent request
    Patent,
    /// A complete issue of a periodical, such as a special issue of a journal.
    Periodical,
    /// Supplemental material in a [`periodical`](Self::Periodical).
    SuppPeriodical,
    /// A single-volume conference proceedings
    Proceedings,
    /// A multi-volume [`@proceedings`](Self::Proceedings) entry.
    MvProceedings,
    /// An article in a conference proceedings
    InProceedings,
    /// A single-volume work of reference such as an encyclopedia or a dictionary.
    Reference,
    /// A multi-volume [`@reference`](Self::Reference) entry.
    MvReference,
    /// An article in a work of reference.
    InReference,
    /// A technical report, research report, or white paper published by a university or some other institution.
    Report,
    /// Computer software.
    Software,
    /// A thesis written for an educational institution to satisfy the requirements for a degree.
    Thesis,
    /// A work with an author and a title which has not been formally published, such as a
    /// manuscript or the script of a talk.
    Unpublished,
    // aliases
    /// An alias for [`@inproceedings`](Self::InProceedings).
    Conference,
    /// An alias for [`@online`](Self::Online).
    Electronic,
    /// Similar to [`@thesis`](Self::Thesis) with a special type field.
    MastersThesis,
    /// Similar to [`@thesis`](Self::Thesis) with a special type field.
    PhdThesis,
    /// Similar to [`@report`](Self::Report) with a special type field.
    TechReport,
}

impl StandardEntryType {
    /// The name that this standard value spells.
    pub open spec fn spec_name(self) -> Seq<char> {
        match self {
            Self::Article => "article"@,
            Self::Book => "book"@,
            Self::MvBook => "mvbook"@,
            Self::InBook => "inbook"@,
            Self::BookInBook => "bookinbook"@,
            Self::SuppBook => "suppbook"@,
            Self::Booklet => "booklet"@,
            Self::Collection => "collection"@,
            Self::MvCollection => "mvcollection"@,
            Self::InCollection => "incollection"@,
            Self::SuppCollection => "suppcollection"@,
            Self::Dataset => "dataset"@,
            Self::Manual => "manual"@,
            Self::Misc => "misc"@,
            Self::Online => "online"@,
            Self::Patent => "patent"@,
            Self::Periodical => "periodical"@,
            Self::SuppPeriodical => "suppperiodical"@,
            Self::Proceedings => "proceedings"@,
            Self::MvProceedings => "mvproceedings"@,
            Self::InProceedings => "inproceedings"@,
            Self::Reference => "reference"@,
            Self::MvReference => "mvreference"@,
            Self::InReference => "inreference"@,
            Self::Report => "report"@,
            Self::Software => "software"@,
            Self::Thesis => "thesis"@,
            Self::Unpublished => "unpublished"@,
            Self::Conference => "conference"@,
            Self::Electronic => "electronic"@,
            Self::MastersThesis => "mastersthesis"@,
            Self::PhdThesis => "phdthesis"@,
            Self::TechReport => "techreport"@,
        }
    }

    /// Convert this value to its name.
    pub fn name(self) -> (r: &'static str)
        ensures
            r@ == self.spec_name(),
    {
        match self {
            Self::Article => "article",
            Self::Book => "book",
            Self::MvBook => "mvbook",
            Self::InBook => "inbook",
            Self::BookInBook => "bookinbook",
            Self::SuppBook => "suppbook",
            Self::Booklet => "booklet",
            Self::Collection => "collection",
            Self::MvCollection => "mvcollection",
            Self::InCollection => "incollection",
            Self::SuppCollection => "suppcollection",
            Self::Dataset => "dataset",
            Self::Manual => "manual",
            Self::Misc => "misc",
            Self::Online => "online",
            Self::Patent => "patent",
            Self::Periodical => "periodical",
            Self::SuppPeriodical => "suppperiodical",
            Self::Proceedings => "proceedings",
            Self::MvProceedings => "mvproceedings",
            Self::InProceedings => "inproceedings",
            Self::Reference => "reference",
            Self::MvReference => "mvreference",
            Self::InReference => "inreference",
            Self::Report => "report",
            Self::Software => "software",
            Self::Thesis => "thesis",
            Self::Unpublished => "unpublished",
            Self::Conference => "conference",
            Self::Electronic => "electronic",
            Self::MastersThesis => "mastersthesis",
            Self::PhdThesis => "phdthesis",
            Self::TechReport => "techreport",
        }
    }

    /// The first standard value, in declaration order, whose name is `s`.
    pub open spec fn spec_from_name(s: Seq<char>) -> Option<Self> {
        if s == "article"@ {
            Some(Self::Article)
        } else if s == "book"@ {
            Some(Self::Book)
        } else if s == "mvbook"@ {
            Some(Self::MvBook)
        } else if s == "inbook"@ {
            Some(Self::InBook)
        } else if s == "bookinbook"@ {
            Some(Self::BookInBook)
        } else if s == "suppbook"@ {
            Some(Self::SuppBook)
        } else if s == "booklet"@ {
            Some(Self::Booklet)
        } else if s == "collection"@ {
            Some(Self::Collection)
        } else if s == "mvcollection"@ {
            Some(Self::MvCollection)
        } else if s == "incollection"@ {
            Some(Self::InCollection)
        } else if s == "suppcollection"@ {
            Some(Self::SuppCollection)
        } else if s == "dataset"@ {
            Some(Self::Dataset)
        } else if s == "manual"@ {
            Some(Self::Manual)
        } else if s == "misc"@ {
            Some(Self::Misc)
        } else if s == "online"@ {
            Some(Self::Online)
        } else if s == "patent"@ {
            Some(Self::Patent)
        } else if s == "periodical"@ {
            Some(Self::Periodical)
        } else if s == "suppperiodical"@ {
            Some(Self::SuppPeriodical)
        } else if s == "proceedings"@ {
            Some(Self::Proceedings)
        } else if s == "mvproceedings"@ {
            Some(Self::MvProceedings)
        } else if s == "inproceedings"@ {
            Some(Self::InProceedings)
        } else if s == "reference"@ {
            Some(Self::Reference)
        } else if s == "mvreference"@ {
            Some(Self::MvReference)
        } else if s == "inreference"@ {
            Some(Self::InReference)
        } else if s == "report"@ {
            Some(Self::Report)
        } else if s == "software"@ {
            Some(Self::Software)
        } else if s == "thesis"@ {
            Some(Self::Thesis)
        } else if s == "unpublished"@ {
            Some(Self::Unpublished)
        } else if s == "conference"@ {
            Some(Self::Conference)
        } else if s == "electronic"@ {
            Some(Self::Electronic)
        } else if s == "mastersthesis"@ {
            Some(Self::MastersThesis)
        } else if s == "phdthesis"@ {
            Some(Self::PhdThesis)
        } else if s == "techreport"@ {
            Some(Self::TechReport)
        } else {
            None
        }
    }

    /// Read this type from a name.
    pub fn from_name(s: &str) -> (r: Option<Self>)
        ensures
            r == Self::spec_from_name(s@),
    {
        if str_eq(s, "article") {
            return Some(Self::Article);
        }
        if str_eq(s, "book") {
            return Some(Self::Book);
        }
        if str_eq(s, "mvbook") {
            return Some(Self::MvBook);
        }
        if str_eq(s, "inbook") {
            return Some(Self::InBook);
        }
        if str_eq(s, "bookinbook") {
            return Some(Self::BookInBook);
        }
        if str_eq(s, "suppbook") {
            return Some(Self::SuppBook);
        }
        if str_eq(s, "booklet") {
            return Some(Self::Booklet);
        }
        if str_eq(s, "collection") {
            return Some(Self::Collection);
        }
        if str_eq(s, "mvcollection") {
            return Some(Self::MvCollection);
        }
        if str_eq(s, "incollection") {
            return Some(Self::InCollection);
        }
        if str_eq(s, "suppcollection") {
            return Some(Self::SuppCollection);
        }
        if str_eq(s, "dataset") {
            return Some(Self::Dataset);
        }
        if str_eq(s, "manual") {
            return Some(Self::Manual);
        }
        if str_eq(s, "misc") {
            return Some(Self::Misc);
        }
        if str_eq(s, "online") {
            return Some(Self::Online);
        }
        if str_eq(s, "patent") {
            return Some(Self::Patent);
        }
        if str_eq(s, "periodical") {
            return Some(Self::Periodical);
        }
        if str_eq(s, "suppperiodical") {
            return Some(Self::SuppPeriodical);
        }
        if str_eq(s, "proceedings") {
            return Some(Self::Proceedings);
        }
        if str_eq(s, "mvproceedings") {
            return Some(Self::MvProceedings);
        }
        if str_eq(s, "inproceedings") {
            return Some(Self::InProceedings);
        }
        if str_eq(s, "reference") {
            return Some(Self::Reference);
        }
        if str_eq(s, "mvreference") {
            return Some(Self::MvReference);
        }
        if str_eq(s, "inreference") {
            return Some(Self::InReference);
        }
        if str_eq(s, "report") {
            return Some(Self::Report);
        }
        if str_eq(s, "software") {
            return Some(Self::Software);
        }
        if str_eq(s, "thesis") {
            return Some(Self::Thesis);
        }
        if str_eq(s, "unpublished") {
            return Some(Self::Unpublished);
        }
        if str_eq(s, "conference") {
            return Some(Self::Conference);
        }
        if str_eq(s, "electronic") {
            return Some(Self::Electronic);
        }
        if str_eq(s, "mastersthesis") {
            return Some(Self::MastersThesis);
        }
        if str_eq(s, "phdthesis") {
            return Some(Self::PhdThesis);
        }
        if str_eq(s, "techreport") {
            return Some(Self::TechReport);
        }
        None
    }

    /// Returns if the given string is the name of a standard value.
    pub fn is_name(s: &str) -> (r: bool)
        ensures
            r == Self::spec_from_name(s@) is Some,
    {
        Self::from_name(s).is_some()
    }

}

/// One of the standard field key names defined in the [BibLaTeX 3.21
/// documentation](https://mirrors.ctan.org/macros/latex/contrib/biblatex/doc/biblatex.pdf).
///
/// Note that this type can be converted into a [`FieldKey`] or a [`FieldKeyRef<'static>`].
#[derive(Debug, Clone, Copy, PartialEq, Eq, Structural)]
pub enum StandardFieldKey {
    /// An abstract.
    Abstract,
    /// Miscellaneous bibliographic data to be printed at the end of the entry.
    Addendum,
    /// The author(s) of an afterword to the work.
    Afterword,
    /// This field may be useful when implementing a style for annotated bibliographies.
    Annotation,
    /// The author(s) of annotations to the work.
    Annotator,
    /// The authors of the [`title`](Self::Title).
    Author,
    /// The type of author.
    AuthorType,
    /// The author(s) of the [`booktitle`](Self::BookTitle).
    BookAuthor,
    /// If the work is published as part of another one, this is the pagination scheme of the enclosing work.
    BookPagination,
    /// The subtitle related to the [`booktitle`](Self::BookTitle).
    BookSubtitle,
    /// If the [`title`](Self::Title) field indicates the title of a work which is part of a larger publication, the title of the main work is given in this field.
    BookTitle,
    /// An annex to the [`booktitle`](Self::BookTitle),
    BookTitleAddon,
    /// A chapter or section or any other unit of a work.
    Chapter,
    /// The author(s) of a commentary to the work
    Commentator,
    /// The publication date.
    Date,
    /// The Digital Object Identifier of the work.
    Doi,
    /// The edition of a printed publication.
    Edition,
    /// The editor(s) of the [`title`](Self::Title), [`booktitle`](Self::BookTitle), or [`maintitle`](Self::MainTitle), depending on the entry type.
    Editor,
    /// A secondary editor performing a different editorial role.
    EditorA,
    /// Another secondary editor performing a different editorial role.
    EditorB,
    /// Another secondary editor performing a different editorial role.
    EditorC,
    /// The type of editorial role performed by the [`editor`](Self::Editor).
    EditorType,
    /// Like [`editortype`](Self::EditorType) but referring to [`editora`](Self::EditorA).
    EditorAType,
    /// Like [`editortype`](Self::EditorType) but referring to [`editorb`](Self::EditorB).
    EditorBType,
    /// Like [`editortype`](Self::EditorType) but referring to [`editorc`](Self::EditorC).
    EditorCType,
    /// The electronic identifier of an [`@article`](StandardEntryType::Article) or chapter-like section of a larger work often called ‘article number’, ‘paper number’ or the like.
    Eid,
    /// A subtype of an entry type.
    EntrySubType,
    /// The electronic identifier of an online publication.
    EPrint,
    /// Additional information related to the resource indicated by the
    /// [`eprinttype`](Self::EPrintType).
    EPrintClass,
    /// The type of [`eprint`](Self::EPrint) identifier, e. g., the name of the archive, repository, service, or system the [`eprint`](Self::EPrint) field refers to.
    EPrintType,
    /// The date of a conference, a symposium, or some other event in
    /// [`@proceedings`](StandardEntryType::Proceedings) or [`@inproceedings`](StandardEntryType::InProceedings) or
    EventDate,
    /// The title of a conference, a symposium, or some other event in
    /// [`@proceedings`](StandardEntryType::Proceedings) or [`@inproceedings`](StandardEntryType::InProceedings) or
    EventTitle,
    /// An annex to a [`eventtitle`](Self::EventTitle).
    EventTitleAddon,
    /// A local link to a pdf or other version of the work.
    File,
    /// The author(s) of a foreword to the work.
    Foreward,
    /// The holder(s) of a [`@patent`](StandardEntryType::Patent), if different from the
    /// [`author`](Self::Author).
    Holder,
    /// A publication notice for unusual publications which do not fit into any of the common categories.
    HowPublished,
    /// A title to use for indexing instead of the regular [`title`](Self::Title) field.
    IndexTitle,
    /// The name of a university or some other institution, depending on the entry type.
    Institution,
    /// The author(s) of an introduction to the work.
    Introduction,
    /// The International Standard Audiovisual Number of an audiovisual work.
    ISAN,
    /// The International Standard Book Number of a book.
    ISBN,
    /// The International Standard Music Number for printed music such as musical scores.
    ISMN,
    /// The International Standard Technical Report Number of a technical report.
    ISRN,
    /// The International Standard Serial Number of a periodical.
    ISSN,
    /// The issue of a journal.
    Issue,
    /// The subtitle of a specific issue of a journal or other periodical.
    IssueSubtitle,
    /// The title of a specific issue of a journal or other periodical.
    IssueTitle,
    /// An annex to the [`issuetitle`](Self::IssueTitle).
    IssueTitleAddon,
    /// The International Standard Work Code of a musical work.
    ISWC,
    /// The subtitle of a journal, a newspaper, or some other periodical.
    JournalSubtitle,
    /// The name of a journal, a newspaper, or some other periodical.
    JournalTitle,
    /// An annex to the [`journaltitle`](Self::JournalTitle).
    JournalTitleAddon,
    /// A designation to be used by the citation style as a substitute for the regular label if
    /// any data required to generate the regular label is missing.
    Label,
    /// The language(s) of the work.
    Language,
    /// This field may be useful to record information such as a library name and a call number.
    Library,
    /// The place(s) of publication, i.e., the location of the [`publisher`](Self::Publisher) or [`institution`](Self::Institution),
    /// depending on the entry type.
    Location,
    /// The subtitle related to the [`maintitle`](Self::MainTitle).
    MainSubtitle,
    /// The main title of a multi-volume book,
    MainTitle,
    /// An annex to the [`maintitle`](Self::MainTitle).
    MainTitleAddon,
    /// The publication month.
    Month,
    /// An addon to be printed immediately after the author name in the bibliography.
    NameAddon,
    /// Miscellaneous bibliographic data which does not fit into any other field.
    Note,
    /// The number of a journal or the volume/number of a book in a [`series`](Self::Series).
    Number,
    /// The organization(s) that published a [`@manual`](StandardEntryType::Manual) or an [`@online`](StandardEntryType::Online) resource, or sponsored
    /// a conference.
    Organization,
    /// If the work is a translation, a reprint, or something similar, the publication date of
    /// the original edition.
    OrigDate,
    /// If the work is a translation, the language(s) of the original work..
    OrigLanguage,
    /// If the work is a translation, a reprint, or something similar, the
    /// [`location`](Self::Location) of the original edition.
    OrigLocation,
    /// If the work is a translation, a reprint, or something similar, the
    /// [`publisher`](Self::Publisher) of the original edition.
    OrigPublisher,
    /// If the work is a translation, the [`title`](Self::Title) of the original work.
    OrigTitle,
    /// One or more page numbers or page ranges
    Pages,
    /// The total number of pages of the work.
    PageTotal,
    /// The pagination of the work.
    Pagination,
    /// The number of a partial volume, for books only and not journals.
    Part,
    /// The name(s) of the publisher(s).
    Publisher,
    /// The publication state of the work, e. g., ‘in press’.
    PubState,
    /// The title of a reprint of the work.
    ReprintTitle,
    /// The name of a publication series, such as “Studies in …”, or the number of a journal
    /// series.
    Series,
    /// The author(s) of the work, given in an abbreviated form.
    ShortAuthor,
    /// The editor(s) of the work, given in an abbreviated form.
    ShortEditor,
    /// A special designation to be used by the citation style instead of the usual label.
    Shorthand,
    /// An introduction for shorthands in the first citation.
    ShorthandIntro,
    /// A short version or an acronym of the [`journaltitle`](Self::JournalTitle).
    ShortJournal,
    /// A short version or an acronym of the [`series`](Self::Series) field.
    ShortSeries,
    /// The title in an abridged form.
    ShortTitle,
    /// The subtitle of the work.
    Subtitle,
    /// The title of the work.
    Title,
    /// An annex to the [`title`](Self::Title).
    TitleAddon,
    /// The translator(s) of the [`title`](Self::Title) or [`booktitle`](Self::BookTitle), depending on the entry type.
    Translator,
    /// The type of a [`@manual`](StandardEntryType::Manual), patent, report, or thesis.
    Type,
    /// The URL of an online publication.
    Url,
    /// The access date of the address specified in the [`url`](Self::Url) field.
    UrlDate,
    /// The location of a conference, a symposium, or some other event in
    /// [`@proceedings`](StandardEntryType::Proceedings)
    /// and [`@inproceedings`](StandardEntryType::InProceedings) entries.
    Venue,
    /// The revision number of a piece of software, a manual, etc.
    Version,
    /// The volume of a multi-volume book or a periodical.
    Volume,
    /// The total number of volumes of a multi-volume work.
    Volumes,
    /// The year of publication.
    Year,
    // aliases
    /// Alias for [`Self::Location`]
    Address,
    /// Alias for [`Self::Annotation`]
    Annote,
    /// Alias for [`Self::EPrintType`]
    ArchivePrefix,
    /// Alias for [`Self::JournalTitle`]
    Journal,
    /// Alias for [`Self::SortKey`]
    Key,
    /// Alias for [`Self::File`]
    Pdf,
    /// Alias for [`Self::EPrintClass`]
    PrimaryClass,
    /// Alias for [`Self::Institution`]
    School,
}

impl StandardFieldKey {
    /// The name that this standard value spells.
    pub open spec fn spec_name(self) -> Seq<char> {
        match self {
            Self::Abstract => "abstract"@,
            Self::Addendum => "addendum"@,
            Self::Afterword => "afterword"@,
            Self::Annotation => "annotation"@,
            Self::Annotator => "annotator"@,
            Self::Author => "author"@,
            Self::AuthorType => "authortype"@,
            Self::BookAuthor => "bookauthor"@,
            Self::BookPagination => "bookpagination"@,
            Self::BookSubtitle => "booksubtitle"@,
            Self::BookTitle => "booktitle"@,
            Self::BookTitleAddon => "booktitleaddon"@,
            Self::Chapter => "chapter"@,
            Self::Commentator => "commentator"@,
            Self::Date => "date"@,
            Self::Doi => "doi"@,
            Self::Edition => "edition"@,
            Self::Editor => "editor"@,
            Self::EditorA => "editora"@,
            Self::EditorB => "editorb"@,
            Self::EditorC => "editorc"@,
            Self::EditorType => "editortype"@,
            Self::EditorAType => "editoratype"@,
            Self::EditorBType => "editorbtype"@,
            Self::EditorCType => "editorctype"@,
            Self::Eid => "eid"@,
            Self::EntrySubType => "entrysubtype"@,
            Self::EPrint => "eprint"@,
            Self::EPrintClass => "eprintclass"@,
            Self::EPrintType => "eprinttype"@,
            Self::EventDate => "eventdate"@,
            Self::EventTitle => "eventtitle"@,
            Self::EventTitleAddon => "eventtitleaddon"@,
            Self::File => "file"@,
            Self::Foreward => "foreward"@,
            Self::Holder => "holder"@,
            Self::HowPublished => "howpublished"@,
            Self::IndexTitle => "indextitle"@,
            Self::Institution => "institution"@,
            Self::Introduction => "introduction"@,
            Self::ISAN => "isan"@,
            Self::ISBN => "isbn"@,
            Self::ISMN => "ismn"@,
            Self::ISRN => "isrn"@,
            Self::ISSN => "issn"@,
            Self::Issue => "issue"@,
            Self::IssueSubtitle => "issuesubtitle"@,
            Self::IssueTitle => "issuetitle"@,
            Self::IssueTitleAddon => "issuetitleaddon"@,
            Self::ISWC => "iswc"@,
            Self::JournalSubtitle => "journalsubtitle"@,
            Self::JournalTitle => "journaltitle"@,
            Self::JournalTitleAddon => "journaltitleaddon"@,
            Self::Label => "label"@,
            Self::Language => "language"@,
            Self::Library => "library"@,
            Self::Location => "location"@,
            Self::MainSubtitle => "mainsubtitle"@,
            Self::MainTitle => "maintitle"@,
            Self::MainTitleAddon => "maintitleaddon"@,
            Self::Month => "month"@,
            Self::NameAddon => "nameaddon"@,
            Self::Note => "note"@,
            Self::Number => "number"@,
            Self::Organization => "organization"@,
            Self::OrigDate => "origdate"@,
            Self::OrigLanguage => "origlanguage"@,
            Self::OrigLocation => "origlocation"@,
            Self::OrigPublisher => "origpublisher"@,
            Self::OrigTitle => "origtitle"@,
            Self::Pages => "pages"@,
            Self::PageTotal => "pagetotal"@,
            Self::Pagination => "pagination"@,
            Self::Part => "part"@,
            Self::Publisher => "publisher"@,
            Self::PubState => "pubstate"@,
            Self::ReprintTitle => "reprinttitle"@,
            Self::Series => "series"@,
            Self::ShortAuthor => "shortauthor"@,
            Self::ShortEditor => "shorteditor"@,
            Self::Shorthand => "shorthand"@,
            Self::ShorthandIntro => "shorthandintro"@,
            Self::ShortJournal => "shortjournal"@,
            Self::ShortSeries => "shortseries"@,
            Self::ShortTitle => "shorttitle"@,
            Self::Subtitle => "subtitle"@,
            Self::Title => "title"@,
            Self::TitleAddon => "titleaddon"@,
            Self::Translator => "translator"@,
            Self::Type => "type"@,
            Self::Url => "url"@,
            Self::UrlDate => "urldate"@,
            Self::Venue => "venue"@,
            Self::Version => "version"@,
            Self::Volume => "volume"@,
            Self::Volumes => "volumes"@,
            Self::Year => "year"@,
            Self::Address => "address"@,
            Self::Annote => "annote"@,
            Self::ArchivePrefix => "archiveprefix"@,
            Self::Journal => "journal"@,
            Self::Key => "key"@,
            Self::Pdf => "pdf"@,
            Self::PrimaryClass => "primaryclass"@,
            Self::School => "school"@,
        }
    }

    /// Convert this value to its name.
    pub fn name(self) -> (r: &'static str)
        ensures
            r@ == self.spec_name(),
    {
        match self {
            Self::Abstract => "abstract",
            Self::Addendum => "addendum",
            Self::Afterword => "afterword",
            Self::Annotation => "annotation",
            Self::Annotator => "annotator",
            Self::Author => "author",
            Self::AuthorType => "authortype",
            Self::BookAuthor => "bookauthor",
            Self::BookPagination => "bookpagination",
            Self::BookSubtitle => "booksubtitle",
            Self::BookTitle => "booktitle",
            Self::BookTitleAddon => "booktitleaddon",
            Self::Chapter => "chapter",
            Self::Commentator => "commentator",
            Self::Date => "date",
            Self::Doi => "doi",
            Self::Edition => "edition",
            Self::Editor => "editor",
            Self::EditorA => "editora",
            Self::EditorB => "editorb",
            Self::EditorC => "editorc",
            Self::EditorType => "editortype",
            Self::EditorAType => "editoratype",
            Self::EditorBType => "editorbtype",
            Self::EditorCType => "editorctype",
            Self::Eid => "eid",
            Self::EntrySubType => "entrysubtype",
            Self::EPrint => "eprint",
            Self::EPrintClass => "eprintclass",
            Self::EPrintType => "eprinttype",
            Self::EventDate => "eventdate",
            Self::EventTitle => "eventtitle",
            Self::EventTitleAddon => "eventtitleaddon",
            Self::File => "file",
            Self::Foreward => "foreward",
            Self::Holder => "holder",
            Self::HowPublished => "howpublished",
            Self::IndexTitle => "indextitle",
            Self::Institution => "institution",
            Self::Introduction => "introduction",
            Self::ISAN => "isan",
            Self::ISBN => "isbn",
            Self::ISMN => "ismn",
            Self::ISRN => "isrn",
            Self::ISSN => "issn",
            Self::Issue => "issue",
            Self::IssueSubtitle => "issuesubtitle",
            Self::IssueTitle => "issuetitle",
            Self::IssueTitleAddon => "issuetitleaddon",
            Self::ISWC => "iswc",
            Self::JournalSubtitle => "journalsubtitle",
            Self::JournalTitle => "journaltitle",
            Self::JournalTitleAddon => "journaltitleaddon",
            Self::Label => "label",
            Self::Language => "language",
            Self::Library => "library",
            Self::Location => "location",
            Self::MainSubtitle => "mainsubtitle",
            Self::MainTitle => "maintitle",
            Self::MainTitleAddon => "maintitleaddon",
            Self::Month => "month",
            Self::NameAddon => "nameaddon",
            Self::Note => "note",
            Self::Number => "number",
            Self::Organization => "organization",
            Self::OrigDate => "origdate",
            Self::OrigLanguage => "origlanguage",
            Self::OrigLocation => "origlocation",
            Self::OrigPublisher => "origpublisher",
            Self::OrigTitle => "origtitle",
            Self::Pages => "pages",
            Self::PageTotal => "pagetotal",
            Self::Pagination => "pagination",
            Self::Part => "part",
            Self::Publisher => "publisher",
            Self::PubState => "pubstate",
            Self::ReprintTitle => "reprinttitle",
            Self::Series => "series",
            Self::ShortAuthor => "shortauthor",
            Self::ShortEditor => "shorteditor",
            Self::Shorthand => "shorthand",
            Self::ShorthandIntro => "shorthandintro",
            Self::ShortJournal => "shortjournal",
            Self::ShortSeries => "shortseries",
            Self::ShortTitle => "shorttitle",
            Self::Subtitle => "subtitle",
            Self::Title => "title",
            Self::TitleAddon => "titleaddon",
            Self::Translator => "translator",
            Self::Type => "type",
            Self::Url => "url",
            Self::UrlDate => "urldate",
            Self::Venue => "venue",
            Self::Version => "version",
            Self::Volume => "volume",
            Self::Volumes => "volumes",
            Self::Year => "year",
            Self::Address => "address",
            Self::Annote => "annote",
            Self::ArchivePrefix => "archiveprefix",
            Self::Journal => "journal",
            Self::Key => "key",
            Self::Pdf => "pdf",
            Self::PrimaryClass => "primaryclass",
            Self::School => "school",
        }
    }

    /// The first standard value, in declaration order, whose name is `s`.
    pub open spec fn spec_from_name(s: Seq<char>) -> Option<Self> {
        if s == "abstract"@ {
            Some(Self::Abstract)
        } else if s == "addendum"@ {
            Some(Self::Addendum)
        } else if s == "afterword"@ {
            Some(Self::Afterword)
        } else if s == "annotation"@ {
            Some(Self::Annotation)
        } else if s == "annotator"@ {
            Some(Self::Annotator)
        } else if s == "author"@ {
            Some(Self::Author)
        } else if s == "authortype"@ {
            Some(Self::AuthorType)
        } else if s == "bookauthor"@ {
            Some(Self::BookAuthor)
        } else if s == "bookpagination"@ {
            Some(Self::BookPagination)
        } else if s == "booksubtitle"@ {
            Some(Self::BookSubtitle)
        } else if s == "booktitle"@ {
            Some(Self::BookTitle)
        } else if s == "booktitleaddon"@ {
            Some(Self::BookTitleAddon)
        } else if s == "chapter"@ {
            Some(Self::Chapter)
        } else if s == "commentator"@ {
            Some(Self::Commentator)
        } else if s == "date"@ {
            Some(Self::Date)
        } else if s == "doi"@ {
            Some(Self::Doi)
        } else if s == "edition"@ {
            Some(Self::Edition)
        } else if s == "editor"@ {
            Some(Self::Editor)
        } else if s == "editora"@ {
            Some(Self::EditorA)
        } else if s == "editorb"@ {
            Some(Self::EditorB)
        } else if s == "editorc"@ {
            Some(Self::EditorC)
        } else if s == "editortype"@ {
            Some(Self::EditorType)
        } else if s == "editoratype"@ {
            Some(Self::EditorAType)
        } else if s == "editorbtype"@ {
            Some(Self::EditorBType)
        } else if s == "editorctype"@ {
            Some(Self::EditorCType)
        } else if s == "eid"@ {
            Some(Self::Eid)
        } else if s == "entrysubtype"@ {
            Some(Self::EntrySubType)
        } else if s == "eprint"@ {
            Some(Self::EPrint)
        } else if s == "eprintclass"@ {
            Some(Self::EPrintClass)
        } else if s == "eprinttype"@ {
            Some(Self::EPrintType)
        } else if s == "eventdate"@ {
            Some(Self::EventDate)
        } else if s == "eventtitle"@ {
            Some(Self::EventTitle)
        } else if s == "eventtitleaddon"@ {
            Some(Self::EventTitleAddon)
        } else if s == "file"@ {
            Some(Self::File)
        } else if s == "foreward"@ {
            Some(Self::Foreward)
        } else if s == "holder"@ {
            Some(Self::Holder)
        } else if s == "howpublished"@ {
            Some(Self::HowPublished)
        } else if s == "indextitle"@ {
            Some(Self::IndexTitle)
        } else if s == "institution"@ {
            Some(Self::Institution)
        } else if s == "introduction"@ {
            Some(Self::Introduction)
        } else if s == "isan"@ {
            Some(Self::ISAN)
        } else if s == "isbn"@ {
            Some(Self::ISBN)
        } else if s == "ismn"@ {
            Some(Self::ISMN)
        } else if s == "isrn"@ {
            Some(Self::ISRN)
        } else if s == "issn"@ {
            Some(Self::ISSN)
        } else if s == "issue"@ {
            Some(Self::Issue)
        } else if s == "issuesubtitle"@ {
            Some(Self::IssueSubtitle)
        } else if s == "issuetitle"@ {
            Some(Self::IssueTitle)
        } else if s == "issuetitleaddon"@ {
            Some(Self::IssueTitleAddon)
        } else if s == "iswc"@ {
            Some(Self::ISWC)
        } else if s == "journalsubtitle"@ {
            Some(Self::JournalSubtitle)
        } else if s == "journaltitle"@ {
            Some(Self::JournalTitle)
        } else if s == "journaltitleaddon"@ {
            Some(Self::JournalTitleAddon)
        } else if s == "label"@ {
            Some(Self::Label)
        } else if s == "language"@ {
            Some(Self::Language)
        } else if s == "library"@ {
            Some(Self::Library)
        } else if s == "location"@ {
            Some(Self::Location)
        } else if s == "mainsubtitle"@ {
            Some(Self::MainSubtitle)
        } else if s == "maintitle"@ {
            Some(Self::MainTitle)
        } else if s == "maintitleaddon"@ {
            Some(Self::MainTitleAddon)
        } else if s == "month"@ {
            Some(Self::Month)
        } else if s == "nameaddon"@ {
            Some(Self::NameAddon)
        } else if s == "note"@ {
            Some(Self::Note)
        } else if s == "number"@ {
            Some(Self::Number)
        } else if s == "organization"@ {
            Some(Self::Organization)
        } else if s == "origdate"@ {
            Some(Self::OrigDate)
        } else if s == "origlanguage"@ {
            Some(Self::OrigLanguage)
        } else if s == "origlocation"@ {
            Some(Self::OrigLocation)
        } else if s == "origpublisher"@ {
            Some(Self::OrigPublisher)
        } else if s == "origtitle"@ {
            Some(Self::OrigTitle)
        } else if s == "pages"@ {
            Some(Self::Pages)
        } else if s == "pagetotal"@ {
            Some(Self::PageTotal)
        } else if s == "pagination"@ {
            Some(Self::Pagination)
        } else if s == "part"@ {
            Some(Self::Part)
        } else if s == "publisher"@ {
            Some(Self::Publisher)
        } else if s == "pubstate"@ {
            Some(Self::PubState)
        } else if s == "reprinttitle"@ {
            Some(Self::ReprintTitle)
        } else if s == "series"@ {
            Some(Self::Series)
        } else if s == "shortauthor"@ {
            Some(Self::ShortAuthor)
        } else if s == "shorteditor"@ {
            Some(Self::ShortEditor)
        } else if s == "shorthand"@ {
            Some(Self::Shorthand)
        } else if s == "shorthandintro"@ {
            Some(Self::ShorthandIntro)
        } else if s == "shortjournal"@ {
            Some(Self::ShortJournal)
        } else if s == "shortseries"@ {
            Some(Self::ShortSeries)
        } else if s == "shorttitle"@ {
            Some(Self::ShortTitle)
        } else if s == "subtitle"@ {
            Some(Self::Subtitle)
        } else if s == "title"@ {
            Some(Self::Title)
        } else if s == "titleaddon"@ {
            Some(Self::TitleAddon)
        } else if s == "translator"@ {
            Some(Self::Translator)
        } else if s == "type"@ {
            Some(Self::Type)
        } else if s == "url"@ {
            Some(Self::Url)
        } else if s == "urldate"@ {
            Some(Self::UrlDate)
        } else if s == "venue"@ {
            Some(Self::Venue)
        } else if s == "version"@ {
            Some(Self::Version)
        } else if s == "volume"@ {
            Some(Self::Volume)
        } else if s == "volumes"@ {
            Some(Self::Volumes)
        } else if s == "year"@ {
            Some(Self::Year)
        } else if s == "address"@ {
            Some(Self::Address)
        } else if s == "annote"@ {
            Some(Self::Annote)
        } else if s == "archiveprefix"@ {
            Some(Self::ArchivePrefix)
        } else if s == "journal"@ {
            Some(Self::Journal)
        } else if s == "key"@ {
            Some(Self::Key)
        } else if s == "pdf"@ {
            Some(Self::Pdf)
        } else if s == "primaryclass"@ {
            Some(Self::PrimaryClass)
        } else if s == "school"@ {
            Some(Self::School)
        } else {
            None
        }
    }

    /// Read this type from a name.
    pub fn from_name(s: &str) -> (r: Option<Self>)
        ensures
            r == Self::spec_from_name(s@),
    {
        if str_eq(s, "abstract") {
            return Some(Self::Abstract);
        }
        if str_eq(s, "addendum") {
            return Some(Self::Addendum);
        }
        if str_eq(s, "afterword") {
            return Some(Self::Afterword);
        }
        if str_eq(s, "annotation") {
            return Some(Self::Annotation);
        }
        if str_eq(s, "annotator") {
            return Some(Self::Annotator);
        }
        if str_eq(s, "author") {
            return Some(Self::Author);
        }
        if str_eq(s, "authortype") {
            return Some(Self::AuthorType);
        }
        if str_eq(s, "bookauthor") {
            return Some(Self::BookAuthor);
        }
        if str_eq(s, "bookpagination") {
            return Some(Self::BookPagination);
        }
        if str_eq(s, "booksubtitle") {
            return Some(Self::BookSubtitle);
        }
        if str_eq(s, "booktitle") {
            return Some(Self::BookTitle);
        }
        if str_eq(s, "booktitleaddon") {
            return Some(Self::BookTitleAddon);
        }
        if str_eq(s, "chapter") {
            return Some(Self::Chapter);
        }
        if str_eq(s, "commentator") {
            return Some(Self::Commentator);
        }
        if str_eq(s, "date") {
            return Some(Self::Date);
        }
        if str_eq(s, "doi") {
            return Some(Self::Doi);
        }
        if str_eq(s, "edition") {
            return Some(Self::Edition);
        }
        if str_eq(s, "editor") {
            return Some(Self::Editor);
        }
        if str_eq(s, "editora") {
            return Some(Self::EditorA);
        }
        if str_eq(s, "editorb") {
            return Some(Self::EditorB);
        }
        if str_eq(s, "editorc") {
            return Some(Self::EditorC);
        }
        if str_eq(s, "editortype") {
            return Some(Self::EditorType);
        }
        if str_eq(s, "editoratype") {
            return Some(Self::EditorAType);
        }
        if str_eq(s, "editorbtype") {
            return Some(Self::EditorBType);
        }
        if str_eq(s, "editorctype") {
            return Some(Self::EditorCType);
        }
        if str_eq(s, "eid") {
            return Some(Self::Eid);
        }
        if str_eq(s, "entrysubtype") {
            return Some(Self::EntrySubType);
        }
        if str_eq(s, "eprint") {
            return Some(Self::EPrint);
        }
        if str_eq(s, "eprintclass") {
            return Some(Self::EPrintClass);
        }
        if str_eq(s, "eprinttype") {
            return Some(Self::EPrintType);
        }
        if str_eq(s, "eventdate") {
            return Some(Self::EventDate);
        }
        if str_eq(s, "eventtitle") {
            return Some(Self::EventTitle);
        }
        if str_eq(s, "eventtitleaddon") {
            return Some(Self::EventTitleAddon);
        }
        if str_eq(s, "file") {
            return Some(Self::File);
        }
        if str_eq(s, "foreward") {
            return Some(Self::Foreward);
        }
        if str_eq(s, "holder") {
            return Some(Self::Holder);
        }
        if str_eq(s, "howpublished") {
            return Some(Self::HowPublished);
        }
        if str_eq(s, "indextitle") {
            return Some(Self::IndexTitle);
        }
        if str_eq(s, "institution") {
            return Some(Self::Institution);
        }
        if str_eq(s, "introduction") {
            return Some(Self::Introduction);
        }
        if str_eq(s, "isan") {
            return Some(Self::ISAN);
        }
        if str_eq(s, "isbn") {
            return Some(Self::ISBN);
        }
        if str_eq(s, "ismn") {
            return Some(Self::ISMN);
        }
        if str_eq(s, "isrn") {
            return Some(Self::ISRN);
        }
        if str_eq(s, "issn") {
            return Some(Self::ISSN);
        }
        if str_eq(s, "issue") {
            return Some(Self::Issue);
        }
        if str_eq(s, "issuesubtitle") {
            return Some(Self::IssueSubtitle);
        }
        if str_eq(s, "issuetitle") {
            return Some(Self::IssueTitle);
        }
        if str_eq(s, "issuetitleaddon") {
            return Some(Self::IssueTitleAddon);
        }
        if str_eq(s, "iswc") {
            return Some(Self::ISWC);
        }
        if str_eq(s, "journalsubtitle") {
            return Some(Self::JournalSubtitle);
        }
        if str_eq(s, "journaltitle") {
            return Some(Self::JournalTitle);
        }
        if str_eq(s, "journaltitleaddon") {
            return Some(Self::JournalTitleAddon);
        }
        if str_eq(s, "label") {
            return Some(Self::Label);
        }
        if str_eq(s, "language") {
            return Some(Self::Language);
        }
        if str_eq(s, "library") {
            return Some(Self::Library);
        }
        if str_eq(s, "location") {
            return Some(Self::Location);
        }
        if str_eq(s, "mainsubtitle") {
            return Some(Self::MainSubtitle);
        }
        if str_eq(s, "maintitle") {
            return Some(Self::MainTitle);
        }
        if str_eq(s, "maintitleaddon") {
            return Some(Self::MainTitleAddon);
        }
        if str_eq(s, "month") {
            return Some(Self::Month);
        }
        if str_eq(s, "nameaddon") {
            return Some(Self::NameAddon);
        }
        if str_eq(s, "note") {
            return Some(Self::Note);
        }
        if str_eq(s, "number") {
            return Some(Self::Number);
        }
        if str_eq(s, "organization") {
            return Some(Self::Organization);
        }
        if str_eq(s, "origdate") {
            return Some(Self::OrigDate);
        }
        if str_eq(s, "origlanguage") {
            return Some(Self::OrigLanguage);
        }
        if str_eq(s, "origlocation") {
            return Some(Self::OrigLocation);
        }
        if str_eq(s, "origpublisher") {
            return Some(Self::OrigPublisher);
        }
        if str_eq(s, "origtitle") {
            return Some(Self::OrigTitle);
        }
        if str_eq(s, "pages") {
            return Some(Self::Pages);
        }
        if str_eq(s, "pagetotal") {
            return Some(Self::PageTotal);
        }
        if str_eq(s, "pagination") {
            return Some(Self::Pagination);
        }
        if str_eq(s, "part") {
            return Some(Self::Part);
        }
        if str_eq(s, "publisher") {
            return Some(Self::Publisher);
        }
        if str_eq(s, "pubstate") {
            return Some(Self::PubState);
        }
        if str_eq(s, "reprinttitle") {
            return Some(Self::ReprintTitle);
        }
        if str_eq(s, "series") {
            return Some(Self::Series);
        }
        if str_eq(s, "shortauthor") {
            return Some(Self::ShortAuthor);
        }
        if str_eq(s, "shorteditor") {
            return Some(Self::ShortEditor);
        }
        if str_eq(s, "shorthand") {
            return Some(Self::Shorthand);
        }
        if str_eq(s, "shorthandintro") {
            return Some(Self::ShorthandIntro);
        }
        if str_eq(s, "shortjournal") {
            return Some(Self::ShortJournal);
        }
        if str_eq(s, "shortseries") {
            return Some(Self::ShortSeries);
        }
        if str_eq(s, "shorttitle") {
            return Some(Self::ShortTitle);
        }
        if str_eq(s, "subtitle") {
            return Some(Self::Subtitle);
        }
        if str_eq(s, "title") {
            return Some(Self::Title);
        }
        if str_eq(s, "titleaddon") {
            return Some(Self::TitleAddon);
        }
        if str_eq(s, "translator") {
            return Some(Self::Translator);
        }
        if str_eq(s, "type") {
            return Some(Self::Type);
        }
        if str_eq(s, "url") {
            return Some(Self::Url);
        }
        if str_eq(s, "urldate") {
            return Some(Self::UrlDate);
        }
        if str_eq(s, "venue") {
            return Some(Self::Venue);
        }
        if str_eq(s, "version") {
            return Some(Self::Version);
        }
        if str_eq(s, "volume") {
            return Some(Self::Volume);
        }
        if str_eq(s, "volumes") {
            return Some(Self::Volumes);
        }
        if str_eq(s, "year") {
            return Some(Self::Year);
        }
        if str_eq(s, "address") {
            return Some(Self::Address);
        }
        if str_eq(s, "annote") {
            return Some(Self::Annote);
        }
        if str_eq(s, "archiveprefix") {
            return Some(Self::ArchivePrefix);
        }
        if str_eq(s, "journal") {
            return Some(Self::Journal);
        }
        if str_eq(s, "key") {
            return Some(Self::Key);
        }
        if str_eq(s, "pdf") {
            return Some(Self::Pdf);
        }
        if str_eq(s, "primaryclass") {
            return Some(Self::PrimaryClass);
        }
        if str_eq(s, "school") {
            return Some(Self::School);
        }
        None
    }

    /// Returns if the given string is the name of a standard value.
    pub fn is_name(s: &str) -> (r: bool)
        ensures
            r == Self::spec_from_name(s@) is Some,
    {
        Self::from_name(s).is_some()
    }

    /// Whether this is one of the BibTeX-compatible field keys.
    pub open spec fn spec_is_bibtex(self) -> bool {
        matches!(
            self,
            Self::Address
                | Self::Annote
                | Self::Author
                | Self::BookTitle
                | Self::Chapter
                | Self::Edition
                | Self::Editor
                | Self::HowPublished
                | Self::Institution
                | Self::Journal
                | Self::Key
                | Self::Month
                | Self::Note
                | Self::Number
                | Self::Organization
                | Self::Pages
                | Self::Publisher
                | Self::School
                | Self::Series
                | Self::Title
                | Self::Type
                | Self::Volume
                | Self::Year
        )
    }

    /// Whether this is one of the BibTeX-compatible field keys.
    pub fn is_bibtex(self) -> (r: bool)
        ensures
            r == self.spec_is_bibtex(),
    {
        matches!(
            self,
            Self::Address
                | Self::Annote
                | Self::Author
                | Self::BookTitle
                | Self::Chapter
                | Self::Edition
                | Self::Editor
                | Self::HowPublished
                | Self::Institution
                | Self::Journal
                | Self::Key
                | Self::Month
                | Self::Note
                | Self::Number
                | Self::Organization
                | Self::Pages
                | Self::Publisher
                | Self::School
                | Self::Series
                | Self::Title
                | Self::Type
                | Self::Volume
                | Self::Year
        )
    }

    /// Whether BibLaTeX defines this field key to be an alias for another.
    pub open spec fn spec_is_alias(self) -> bool {
        matches!(
            self,
            Self::Address
                | Self::Annote
                | Self::ArchivePrefix
                | Self::Journal
                | Self::Key
                | Self::Pdf
                | Self::PrimaryClass
                | Self::School
        )
    }

    /// Whether BibLaTeX defines this field key to be an alias for another.
    pub fn is_alias(self) -> (r: bool)
        ensures
            r == self.spec_is_alias(),
    {
        matches!(
            self,
            Self::Address
                | Self::Annote
                | Self::ArchivePrefix
                | Self::Journal
                | Self::Key
                | Self::Pdf
                | Self::PrimaryClass
                | Self::School
        )
    }

    /// The BibTeX-compatible variant of this field key, if there is one.
    pub open spec fn spec_to_bibtex(self) -> Option<Self> {
        match self {
            Self::Location => Some(Self::Address),
            Self::Annotation => Some(Self::Annote),
            Self::JournalTitle => Some(Self::Journal),
            e => if e.spec_is_bibtex() {
                Some(e)
            } else {
                None
            },
        }
    }

    /// Try to convert to a BibTeX-compatible variant.
    pub fn to_bibtex(self) -> (r: Option<Self>)
        ensures
            r == self.spec_to_bibtex(),
    {
        match self {
            Self::Location => Some(Self::Address),
            Self::Annotation => Some(Self::Annote),
            Self::JournalTitle => Some(Self::Journal),
            e => if e.is_bibtex() {
                Some(e)
            } else {
                None
            },
        }
    }

    /// The field key that an alias stands for; any other key stands for itself.
    pub open spec fn spec_resolve_alias(self) -> Self {
        match self {
            Self::Address => Self::Location,
            Self::Annote => Self::Annotation,
            Self::ArchivePrefix => Self::EPrintType,
            Self::Journal => Self::JournalTitle,
            Self::Pdf => Self::File,
            Self::PrimaryClass => Self::EPrintClass,
            Self::School => Self::Institution,
            e => e,
        }
    }

    /// Convert an alias variant to the normal type.
    pub fn resolve_alias(self) -> (r: Self)
        ensures
            r == self.spec_resolve_alias(),
    {
        match self {
            Self::Address => Self::Location,
            Self::Annote => Self::Annotation,
            Self::ArchivePrefix => Self::EPrintType,
            Self::Journal => Self::JournalTitle,
            Self::Pdf => Self::File,
            Self::PrimaryClass => Self::EPrintClass,
            Self::School => Self::Institution,
            e => e,
        }
    }

}


/// Every standard value is found again from its name: the names are distinct.
pub proof fn lemma_entry_type_name_roundtrip(v: StandardEntryType)
    ensures
        StandardEntryType::spec_from_name(v.spec_name()) == Some(v),
{
    reveal_strlit("article");
    assert("article"@.len() == 7);
    reveal_strlit("book");
    assert("book"@.len() == 4);
    reveal_strlit("mvbook");
    assert("mvbook"@.len() == 6);
    reveal_strlit("inbook");
    assert("inbook"@.len() == 6);
    reveal_strlit("bookinbook");
    assert("bookinbook"@.len() == 10);
    reveal_strlit("suppbook");
    assert("suppbook"@.len() == 8);
    reveal_strlit("booklet");
    assert("booklet"@.len() == 7);
    reveal_strlit("collection");
    assert("collection"@.len() == 10);
    reveal_strlit("mvcollection");
    assert("mvcollection"@.len() == 12);
    reveal_strlit("incollection");
    assert("incollection"@.len() == 12);
    reveal_strlit("suppcollection");
    assert("suppcollection"@.len() == 14);
    reveal_strlit("dataset");
    assert("dataset"@.len() == 7);
    reveal_strlit("manual");
    assert("manual"@.len() == 6);
    reveal_strlit("misc");
    assert("misc"@.len() == 4);
    reveal_strlit("online");
    assert("online"@.len() == 6);
    reveal_strlit("patent");
    assert("patent"@.len() == 6);
    reveal_strlit("periodical");
    assert("periodical"@.len() == 10);
    reveal_strlit("suppperiodical");
    assert("suppperiodical"@.len() == 14);
    reveal_strlit("proceedings");
    assert("proceedings"@.len() == 11);
    reveal_strlit("mvproceedings");
    assert("mvproceedings"@.len() == 13);
    reveal_strlit("inproceedings");
    assert("inproceedings"@.len() == 13);
    reveal_strlit("reference");
    assert("reference"@.len() == 9);
    reveal_strlit("mvreference");
    assert("mvreference"@.len() == 11);
    reveal_strlit("inreference");
    assert("inreference"@.len() == 11);
    reveal_strlit("report");
    assert("report"@.len() == 6);
    reveal_strlit("software");
    assert("software"@.len() == 8);
    reveal_strlit("thesis");
    assert("thesis"@.len() == 6);
    reveal_strlit("unpublished");
    assert("unpublished"@.len() == 11);
    reveal_strlit("conference");
    assert("conference"@.len() == 10);
    reveal_strlit("electronic");
    assert("electronic"@.len() == 10);
    reveal_strlit("mastersthesis");
    assert("mastersthesis"@.len() == 13);
    reveal_strlit("phdthesis");
    assert("phdthesis"@.len() == 9);
    reveal_strlit("techreport");
    assert("techreport"@.len() == 10);
    match v {
        StandardEntryType::InBook => {
            assert("inbook"@[0] != "mvbook"@[0]);
        },
        StandardEntryType::Booklet => {
            assert("booklet"@[0] != "article"@[0]);
        },
        StandardEntryType::Collection => {
            assert("collection"@[0] != "bookinbook"@[0]);
        },
        StandardEntryType::InCollection => {
            assert("incollection"@[0] != "mvcollection"@[0]);
        },
        StandardEntryType::Dataset => {
            assert("dataset"@[0] != "article"@[0]);
            assert("dataset"@[0] != "booklet"@[0]);
        },
        StandardEntryType::Manual => {
            assert("manual"@[1] != "mvbook"@[1]);
            assert("manual"@[0] != "inbook"@[0]);
        },
        StandardEntryType::Misc => {
            assert("misc"@[0] != "book"@[0]);
        },
        StandardEntryType::Online => {
            assert("online"@[0] != "mvbook"@[0]);
            assert("online"@[0] != "inbook"@[0]);
            assert("online"@[0] != "manual"@[0]);
        },
        StandardEntryType::Patent => {
            assert("patent"@[0] != "mvbook"@[0]);
            assert("patent"@[0] != "inbook"@[0]);
            assert("patent"@[0] != "manual"@[0]);
            assert("patent"@[0] != "online"@[0]);
        },
        StandardEntryType::Periodical => {
            assert("periodical"@[0] != "bookinbook"@[0]);
            assert("periodical"@[0] != "collection"@[0]);
        },
        StandardEntryType::SuppPeriodical => {
            assert("suppperiodical"@[4] != "suppcollection"@[4]);
        },
        StandardEntryType::InProceedings => {
            assert("inproceedings"@[0] != "mvproceedings"@[0]);
        },
        StandardEntryType::MvReference => {
            assert("mvreference"@[0] != "proceedings"@[0]);
        },
        StandardEntryType::InReference => {
            assert("inreference"@[0] != "proceedings"@[0]);
            assert("inreference"@[0] != "mvreference"@[0]);
        },
        StandardEntryType::Report => {
            assert("report"@[0] != "mvbook"@[0]);
            assert("report"@[0] != "inbook"@[0]);
            assert("report"@[0] != "manual"@[0]);
            assert("report"@[0] != "online"@[0]);
            assert("report"@[0] != "patent"@[0]);
        },
        StandardEntryType::Software => {
            assert("software"@[1] != "suppbook"@[1]);
        },
        StandardEntryType::Thesis => {
            assert("thesis"@[0] != "mvbook"@[0]);
            assert("thesis"@[0] != "inbook"@[0]);
            assert("thesis"@[0] != "manual"@[0]);
            assert("thesis"@[0] != "online"@[0]);
            assert("thesis"@[0] != "patent"@[0]);
            assert("thesis"@[0] != "report"@[0]);
        },
        StandardEntryType::Unpublished => {
            assert("unpublished"@[0] != "proceedings"@[0]);
            assert("unpublished"@[0] != "mvreference"@[0]);
            assert("unpublished"@[0] != "inreference"@[0]);
        },
        StandardEntryType::Conference => {
            assert("conference"@[0] != "bookinbook"@[0]);
            assert("conference"@[2] != "collection"@[2]);
            assert("conference"@[0] != "periodical"@[0]);
        },
        StandardEntryType::Electronic => {
            assert("electronic"@[0] != "bookinbook"@[0]);
            assert("electronic"@[0] != "collection"@[0]);
            assert("electronic"@[0] != "periodical"@[0]);
            assert("electronic"@[0] != "conference"@[0]);
        },
        StandardEntryType::MastersThesis => {
            assert("mastersthesis"@[1] != "mvproceedings"@[1]);
            assert("mastersthesis"@[0] != "inproceedings"@[0]);
        },
        StandardEntryType::PhdThesis => {
            assert("phdthesis"@[0] != "reference"@[0]);
        },
        StandardEntryType::TechReport => {
            assert("techreport"@[0] != "bookinbook"@[0]);
            assert("techreport"@[0] != "collection"@[0]);
            assert("techreport"@[0] != "periodical"@[0]);
            assert("techreport"@[0] != "conference"@[0]);
            assert("techreport"@[0] != "electronic"@[0]);
        },
        _ => {},
    }
}

/// Every standard value is found again from its name: the names are distinct.
pub proof fn lemma_field_key_name_roundtrip(v: StandardFieldKey)
    ensures
        StandardFieldKey::spec_from_name(v.spec_name()) == Some(v),
{
    reveal_strlit("abstract");
    assert("abstract"@.len() == 8);
    reveal_strlit("addendum");
    assert("addendum"@.len() == 8);
    reveal_strlit("afterword");
    assert("afterword"@.len() == 9);
    reveal_strlit("annotation");
    assert("annotation"@.len() == 10);
    reveal_strlit("annotator");
    assert("annotator"@.len() == 9);
    reveal_strlit("author");
    assert("author"@.len() == 6);
    reveal_strlit("authortype");
    assert("authortype"@.len() == 10);
    reveal_strlit("bookauthor");
    assert("bookauthor"@.len() == 10);
    reveal_strlit("bookpagination");
    assert("bookpagination"@.len() == 14);
    reveal_strlit("booksubtitle");
    assert("booksubtitle"@.len() == 12);
    reveal_strlit("booktitle");
    assert("booktitle"@.len() == 9);
    reveal_strlit("booktitleaddon");
    assert("booktitleaddon"@.len() == 14);
    reveal_strlit("chapter");
    assert("chapter"@.len() == 7);
    reveal_strlit("commentator");
    assert("commentator"@.len() == 11);
    reveal_strlit("date");
    assert("date"@.len() == 4);
    reveal_strlit("doi");
    assert("doi"@.len() == 3);
    reveal_strlit("edition");
    assert("edition"@.len() == 7);
    reveal_strlit("editor");
    assert("editor"@.len() == 6);
    reveal_strlit("editora");
    assert("editora"@.len() == 7);
    reveal_strlit("editorb");
    assert("editorb"@.len() == 7);
    reveal_strlit("editorc");
    assert("editorc"@.len() == 7);
    reveal_strlit("editortype");
    assert("editortype"@.len() == 10);
    reveal_strlit("editoratype");
    assert("editoratype"@.len() == 11);
    reveal_strlit("editorbtype");
    assert("editorbtype"@.len() == 11);
    reveal_strlit("editorctype");
    assert("editorctype"@.len() == 11);
    reveal_strlit("eid");
    assert("eid"@.len() == 3);
    reveal_strlit("entrysubtype");
    assert("entrysubtype"@.len() == 12);
    reveal_strlit("eprint");
    assert("eprint"@.len() == 6);
    reveal_strlit("eprintclass");
    assert("eprintclass"@.len() == 11);
    reveal_strlit("eprinttype");
    assert("eprinttype"@.len() == 10);
    reveal_strlit("eventdate");
    assert("eventdate"@.len() == 9);
    reveal_strlit("eventtitle");
    assert("eventtitle"@.len() == 10);
    reveal_strlit("eventtitleaddon");
    assert("eventtitleaddon"@.len() == 15);
    reveal_strlit("file");
    assert("file"@.len() == 4);
    reveal_strlit("foreward");
    assert("foreward"@.len() == 8);
    reveal_strlit("holder");
    assert("holder"@.len() == 6);
    reveal_strlit("howpublished");
    assert("howpublished"@.len() == 12);
    reveal_strlit("indextitle");
    assert("indextitle"@.len() == 10);
    reveal_strlit("institution");
    assert("institution"@.len() == 11);
    reveal_strlit("introduction");
    assert("introduction"@.len() == 12);
    reveal_strlit("isan");
    assert("isan"@.len() == 4);
    reveal_strlit("isbn");
    assert("isbn"@.len() == 4);
    reveal_strlit("ismn");
    assert("ismn"@.len() == 4);
    reveal_strlit("isrn");
    assert("isrn"@.len() == 4);
    reveal_strlit("issn");
    assert("issn"@.len() == 4);
    reveal_strlit("issue");
    assert("issue"@.len() == 5);
    reveal_strlit("issuesubtitle");
    assert("issuesubtitle"@.len() == 13);
    reveal_strlit("issuetitle");
    assert("issuetitle"@.len() == 10);
    reveal_strlit("issuetitleaddon");
    assert("issuetitleaddon"@.len() == 15);
    reveal_strlit("iswc");
    assert("iswc"@.len() == 4);
    reveal_strlit("journalsubtitle");
    assert("journalsubtitle"@.len() == 15);
    reveal_strlit("journaltitle");
    assert("journaltitle"@.len() == 12);
    reveal_strlit("journaltitleaddon");
    assert("journaltitleaddon"@.len() == 17);
    reveal_strlit("label");
    assert("label"@.len() == 5);
    reveal_strlit("language");
    assert("language"@.len() == 8);
    reveal_strlit("library");
    assert("library"@.len() == 7);
    reveal_strlit("location");
    assert("location"@.len() == 8);
    reveal_strlit("mainsubtitle");
    assert("mainsubtitle"@.len() == 12);
    reveal_strlit("maintitle");
    assert("maintitle"@.len() == 9);
    reveal_strlit("maintitleaddon");
    assert("maintitleaddon"@.len() == 14);
    reveal_strlit("month");
    assert("month"@.len() == 5);
    reveal_strlit("nameaddon");
    assert("nameaddon"@.len() == 9);
    reveal_strlit("note");
    assert("note"@.len() == 4);
    reveal_strlit("number");
    assert("number"@.len() == 6);
    reveal_strlit("organization");
    assert("organization"@.len() == 12);
    reveal_strlit("origdate");
    assert("origdate"@.len() == 8);
    reveal_strlit("origlanguage");
    assert("origlanguage"@.len() == 12);
    reveal_strlit("origlocation");
    assert("origlocation"@.len() == 12);
    reveal_strlit("origpublisher");
    assert("origpublisher"@.len() == 13);
    reveal_strlit("origtitle");
    assert("origtitle"@.len() == 9);
    reveal_strlit("pages");
    assert("pages"@.len() == 5);
    reveal_strlit("pagetotal");
    assert("pagetotal"@.len() == 9);
    reveal_strlit("pagination");
    assert("pagination"@.len() == 10);
    reveal_strlit("part");
    assert("part"@.len() == 4);
    reveal_strlit("publisher");
    assert("publisher"@.len() == 9);
    reveal_strlit("pubstate");
    assert("pubstate"@.len() == 8);
    reveal_strlit("reprinttitle");
    assert("reprinttitle"@.len() == 12);
    reveal_strlit("series");
    assert("series"@.len() == 6);
    reveal_strlit("shortauthor");
    assert("shortauthor"@.len() == 11);
    reveal_strlit("shorteditor");
    assert("shorteditor"@.len() == 11);
    reveal_strlit("shorthand");
    assert("shorthand"@.len() == 9);
    reveal_strlit("shorthandintro");
    assert("shorthandintro"@.len() == 14);
    reveal_strlit("shortjournal");
    assert("shortjournal"@.len() == 12);
    reveal_strlit("shortseries");
    assert("shortseries"@.len() == 11);
    reveal_strlit("shorttitle");
    assert("shorttitle"@.len() == 10);
    reveal_strlit("subtitle");
    assert("subtitle"@.len() == 8);
    reveal_strlit("title");
    assert("title"@.len() == 5);
    reveal_strlit("titleaddon");
    assert("titleaddon"@.len() == 10);
    reveal_strlit("translator");
    assert("translator"@.len() == 10);
    reveal_strlit("type");
    assert("type"@.len() == 4);
    reveal_strlit("url");
    assert("url"@.len() == 3);
    reveal_strlit("urldate");
    assert("urldate"@.len() == 7);
    reveal_strlit("venue");
    assert("venue"@.len() == 5);
    reveal_strlit("version");
    assert("version"@.len() == 7);
    reveal_strlit("volume");
    assert("volume"@.len() == 6);
    reveal_strlit("volumes");
    assert("volumes"@.len() == 7);
    reveal_strlit("year");
    assert("year"@.len() == 4);
    reveal_strlit("address");
    assert("address"@.len() == 7);
    reveal_strlit("annote");
    assert("annote"@.len() == 6);
    reveal_strlit("archiveprefix");
    assert("archiveprefix"@.len() == 13);
    reveal_strlit("journal");
    assert("journal"@.len() == 7);
    reveal_strlit("key");
    assert("key"@.len() == 3);
    reveal_strlit("pdf");
    assert("pdf"@.len() == 3);
    reveal_strlit("primaryclass");
    assert("primaryclass"@.len() == 12);
    reveal_strlit("school");
    assert("school"@.len() == 6);
    match v {
        StandardFieldKey::Addendum => {
            assert("addendum"@[1] != "abstract"@[1]);
        },
        StandardFieldKey::Annotator => {
            assert("annotator"@[1] != "afterword"@[1]);
        },
        StandardFieldKey::AuthorType => {
            assert("authortype"@[1] != "annotation"@[1]);
        },
        StandardFieldKey::BookAuthor => {
            assert("bookauthor"@[0] != "annotation"@[0]);
            assert("bookauthor"@[0] != "authortype"@[0]);
        },
        StandardFieldKey::BookTitle => {
            assert("booktitle"@[0] != "afterword"@[0]);
            assert("booktitle"@[0] != "annotator"@[0]);
        },
        StandardFieldKey::BookTitleAddon => {
            assert("booktitleaddon"@[4] != "bookpagination"@[4]);
        },
        StandardFieldKey::Edition => {
            assert("edition"@[0] != "chapter"@[0]);
        },
        StandardFieldKey::Editor => {
            assert("editor"@[0] != "author"@[0]);
        },
        StandardFieldKey::EditorA => {
            assert("editora"@[0] != "chapter"@[0]);
            assert("editora"@[4] != "edition"@[4]);
        },
        StandardFieldKey::EditorB => {
            assert("editorb"@[0] != "chapter"@[0]);
            assert("editorb"@[4] != "edition"@[4]);
            assert("editorb"@[6] != "editora"@[6]);
        },
        StandardFieldKey::EditorC => {
            assert("editorc"@[0] != "chapter"@[0]);
            assert("editorc"@[4] != "edition"@[4]);
            assert("editorc"@[6] != "editora"@[6]);
            assert("editorc"@[6] != "editorb"@[6]);
        },
        StandardFieldKey::EditorType => {
            assert("editortype"@[0] != "annotation"@[0]);
            assert("editortype"@[0] != "authortype"@[0]);
            assert("editortype"@[0] != "bookauthor"@[0]);
        },
        StandardFieldKey::EditorAType => {
            assert("editoratype"@[0] != "commentator"@[0]);
        },
        StandardFieldKey::EditorBType => {
            assert("editorbtype"@[0] != "commentator"@[0]);
            assert("editorbtype"@[6] != "editoratype"@[6]);
        },
        StandardFieldKey::EditorCType => {
            assert("editorctype"@[0] != "commentator"@[0]);
            assert("editorctype"@[6] != "editoratype"@[6]);
            assert("editorctype"@[6] != "editorbtype"@[6]);
        },
        StandardFieldKey::Eid => {
            assert("eid"@[0] != "doi"@[0]);
        },
        StandardFieldKey::EntrySubType => {
            assert("entrysubtype"@[0] != "booksubtitle"@[0]);
        },
        StandardFieldKey::EPrint => {
            assert("eprint"@[0] != "author"@[0]);
            assert("eprint"@[1] != "editor"@[1]);
        },
        StandardFieldKey::EPrintClass => {
            assert("eprintclass"@[0] != "commentator"@[0]);
            assert("eprintclass"@[1] != "editoratype"@[1]);
            assert("eprintclass"@[1] != "editorbtype"@[1]);
            assert("eprintclass"@[1] != "editorctype"@[1]);
        },
        StandardFieldKey::EPrintType => {
            assert("eprinttype"@[0] != "annotation"@[0]);
            assert("eprinttype"@[0] != "authortype"@[0]);
            assert("eprinttype"@[0] != "bookauthor"@[0]);
            assert("eprinttype"@[1] != "editortype"@[1]);
        },
        StandardFieldKey::EventDate => {
            assert("eventdate"@[0] != "afterword"@[0]);
            assert("eventdate"@[0] != "annotator"@[0]);
            assert("eventdate"@[0] != "booktitle"@[0]);
        },
        StandardFieldKey::EventTitle => {
            assert("eventtitle"@[0] != "annotation"@[0]);
            assert("eventtitle"@[0] != "authortype"@[0]);
            assert("eventtitle"@[0] != "bookauthor"@[0]);
            assert("eventtitle"@[1] != "editortype"@[1]);
            assert("eventtitle"@[1] != "eprinttype"@[1]);
        },
        StandardFieldKey::File => {
            assert("file"@[0] != "date"@[0]);
        },
        StandardFieldKey::Foreward => {
            assert("foreward"@[0] != "abstract"@[0]);
            assert("foreward"@[0] != "addendum"@[0]);
        },
        StandardFieldKey::Holder => {
            assert("holder"@[0] != "author"@[0]);
            assert("holder"@[0] != "editor"@[0]);
            assert("holder"@[0] != "eprint"@[0]);
        },
        StandardFieldKey::HowPublished => {
            assert("howpublished"@[0] != "booksubtitle"@[0]);
            assert("howpublished"@[0] != "entrysubtype"@[0]);
        },
        StandardFieldKey::IndexTitle => {
            assert("indextitle"@[0] != "annotation"@[0]);
            assert("indextitle"@[0] != "authortype"@[0]);
            assert("indextitle"@[0] != "bookauthor"@[0]);
            assert("indextitle"@[0] != "editortype"@[0]);
            assert("indextitle"@[0] != "eprinttype"@[0]);
            assert("indextitle"@[0] != "eventtitle"@[0]);
        },
        StandardFieldKey::Institution => {
            assert("institution"@[0] != "commentator"@[0]);
            assert("institution"@[0] != "editoratype"@[0]);
            assert("institution"@[0] != "editorbtype"@[0]);
            assert("institution"@[0] != "editorctype"@[0]);
            assert("institution"@[0] != "eprintclass"@[0]);
        },
        StandardFieldKey::Introduction => {
            assert("introduction"@[0] != "booksubtitle"@[0]);
            assert("introduction"@[0] != "entrysubtype"@[0]);
            assert("introduction"@[0] != "howpublished"@[0]);
        },
        StandardFieldKey::ISAN => {
            assert("isan"@[0] != "date"@[0]);
            assert("isan"@[0] != "file"@[0]);
        },
        StandardFieldKey::ISBN => {
            assert("isbn"@[0] != "date"@[0]);
            assert("isbn"@[0] != "file"@[0]);
            assert("isbn"@[2] != "isan"@[2]);
        },
        StandardFieldKey::ISMN => {
            assert("ismn"@[0] != "date"@[0]);
            assert("ismn"@[0] != "file"@[0]);
            assert("ismn"@[2] != "isan"@[2]);
            assert("ismn"@[2] != "isbn"@[2]);
        },
        StandardFieldKey::ISRN => {
            assert("isrn"@[0] != "date"@[0]);
            assert("isrn"@[0] != "file"@[0]);
            assert("isrn"@[2] != "isan"@[2]);
            assert("isrn"@[2] != "isbn"@[2]);
            assert("isrn"@[2] != "ismn"@[2]);
        },
        StandardFieldKey::ISSN => {
            assert("issn"@[0] != "date"@[0]);
            assert("issn"@[0] != "file"@[0]);
            assert("issn"@[2] != "isan"@[2]);
            assert("issn"@[2] != "isbn"@[2]);
            assert("issn"@[2] != "ismn"@[2]);
            assert("issn"@[2] != "isrn"@[2]);
        },
        StandardFieldKey::IssueTitle => {
            assert("issuetitle"@[0] != "annotation"@[0]);
            assert("issuetitle"@[0] != "authortype"@[0]);
            assert("issuetitle"@[0] != "bookauthor"@[0]);
            assert("issuetitle"@[0] != "editortype"@[0]);
            assert("issuetitle"@[0] != "eprinttype"@[0]);
            assert("issuetitle"@[0] != "eventtitle"@[0]);
            assert("issuetitle"@[1] != "indextitle"@[1]);
        },
        StandardFieldKey::IssueTitleAddon => {
            assert("issuetitleaddon"@[0] != "eventtitleaddon"@[0]);
        },
        StandardFieldKey::ISWC => {
            assert("iswc"@[0] != "date"@[0]);
            assert("iswc"@[0] != "file"@[0]);
            assert("iswc"@[2] != "isan"@[2]);
            assert("iswc"@[2] != "isbn"@[2]);
            assert("iswc"@[2] != "ismn"@[2]);
            assert("iswc"@[2] != "isrn"@[2]);
            assert("iswc"@[2] != "issn"@[2]);
        },
        StandardFieldKey::JournalSubtitle => {
            assert("journalsubtitle"@[0] != "eventtitleaddon"@[0]);
            assert("journalsubtitle"@[0] != "issuetitleaddon"@[0]);
        },
        StandardFieldKey::JournalTitle => {
            assert("journaltitle"@[0] != "booksubtitle"@[0]);
            assert("journaltitle"@[0] != "entrysubtype"@[0]);
            assert("journaltitle"@[0] != "howpublished"@[0]);
            assert("journaltitle"@[0] != "introduction"@[0]);
        },
        StandardFieldKey::Label => {
            assert("label"@[0] != "issue"@[0]);
        },
        StandardFieldKey::Language => {
            assert("language"@[0] != "abstract"@[0]);
            assert("language"@[0] != "addendum"@[0]);
            assert("language"@[0] != "foreward"@[0]);
        },
        StandardFieldKey::Library => {
            assert("library"@[0] != "chapter"@[0]);
            assert("library"@[0] != "edition"@[0]);
            assert("library"@[0] != "editora"@[0]);
            assert("library"@[0] != "editorb"@[0]);
            assert("library"@[0] != "editorc"@[0]);
        },
        StandardFieldKey::Location => {
            assert("location"@[0] != "abstract"@[0]);
            assert("location"@[0] != "addendum"@[0]);
            assert("location"@[0] != "foreward"@[0]);
            assert("location"@[1] != "language"@[1]);
        },
        StandardFieldKey::MainSubtitle => {
            assert("mainsubtitle"@[0] != "booksubtitle"@[0]);
            assert("mainsubtitle"@[0] != "entrysubtype"@[0]);
            assert("mainsubtitle"@[0] != "howpublished"@[0]);
            assert("mainsubtitle"@[0] != "introduction"@[0]);
            assert("mainsubtitle"@[0] != "journaltitle"@[0]);
        },
        StandardFieldKey::MainTitle => {
            assert("maintitle"@[0] != "afterword"@[0]);
            assert("maintitle"@[0] != "annotator"@[0]);
            assert("maintitle"@[0] != "booktitle"@[0]);
            assert("maintitle"@[0] != "eventdate"@[0]);
        },
        StandardFieldKey::MainTitleAddon => {
            assert("maintitleaddon"@[0] != "bookpagination"@[0]);
            assert("maintitleaddon"@[0] != "booktitleaddon"@[0]);
        },
        StandardFieldKey::Month => {
            assert("month"@[0] != "issue"@[0]);
            assert("month"@[0] != "label"@[0]);
        },
        StandardFieldKey::NameAddon => {
            assert("nameaddon"@[0] != "afterword"@[0]);
            assert("nameaddon"@[0] != "annotator"@[0]);
            assert("nameaddon"@[0] != "booktitle"@[0]);
            assert("nameaddon"@[0] != "eventdate"@[0]);
            assert("nameaddon"@[0] != "maintitle"@[0]);
        },
        StandardFieldKey::Note => {
            assert("note"@[0] != "date"@[0]);
            assert("note"@[0] != "file"@[0]);
            assert("note"@[0] != "isan"@[0]);
            assert("note"@[0] != "isbn"@[0]);
            assert("note"@[0] != "ismn"@[0]);
            assert("note"@[0] != "isrn"@[0]);
            assert("note"@[0] != "issn"@[0]);
            assert("note"@[0] != "iswc"@[0]);
        },
        StandardFieldKey::Number => {
            assert("number"@[0] != "author"@[0]);
            assert("number"@[0] != "editor"@[0]);
            assert("number"@[0] != "eprint"@[0]);
            assert("number"@[0] != "holder"@[0]);
        },
        StandardFieldKey::Organization => {
            assert("organization"@[0] != "booksubtitle"@[0]);
            assert("organization"@[0] != "entrysubtype"@[0]);
            assert("organization"@[0] != "howpublished"@[0]);
            assert("organization"@[0] != "introduction"@[0]);
            assert("organization"@[0] != "journaltitle"@[0]);
            assert("organization"@[0] != "mainsubtitle"@[0]);
        },
        StandardFieldKey::OrigDate => {
            assert("origdate"@[0] != "abstract"@[0]);
            assert("origdate"@[0] != "addendum"@[0]);
            assert("origdate"@[0] != "foreward"@[0]);
            assert("origdate"@[0] != "language"@[0]);
            assert("origdate"@[0] != "location"@[0]);
        },
        StandardFieldKey::OrigLanguage => {
            assert("origlanguage"@[0] != "booksubtitle"@[0]);
            assert("origlanguage"@[0] != "entrysubtype"@[0]);
            assert("origlanguage"@[0] != "howpublished"@[0]);
            assert("origlanguage"@[0] != "introduction"@[0]);
            assert("origlanguage"@[0] != "journaltitle"@[0]);
            assert("origlanguage"@[0] != "mainsubtitle"@[0]);
            assert("origlanguage"@[2] != "organization"@[2]);
        },
        StandardFieldKey::OrigLocation => {
            assert("origlocation"@[0] != "booksubtitle"@[0]);
            assert("origlocation"@[0] != "entrysubtype"@[0]);
            assert("origlocation"@[0] != "howpublished"@[0]);
            assert("origlocation"@[0] != "introduction"@[0]);
            assert("origlocation"@[0] != "journaltitle"@[0]);
            assert("origlocation"@[0] != "mainsubtitle"@[0]);
            assert("origlocation"@[2] != "organization"@[2]);
            assert("origlocation"@[5] != "origlanguage"@[5]);
        },
        StandardFieldKey::OrigPublisher => {
            assert("origpublisher"@[0] != "issuesubtitle"@[0]);
        },
        StandardFieldKey::OrigTitle => {
            assert("origtitle"@[0] != "afterword"@[0]);
            assert("origtitle"@[0] != "annotator"@[0]);
            assert("origtitle"@[0] != "booktitle"@[0]);
            assert("origtitle"@[0] != "eventdate"@[0]);
            assert("origtitle"@[0] != "maintitle"@[0]);
            assert("origtitle"@[0] != "nameaddon"@[0]);
        },
        StandardFieldKey::Pages => {
            assert("pages"@[0] != "issue"@[0]);
            assert("pages"@[0] != "label"@[0]);
            assert("pages"@[0] != "month"@[0]);
        },
        StandardFieldKey::PageTotal => {
            assert("pagetotal"@[0] != "afterword"@[0]);
            assert("pagetotal"@[0] != "annotator"@[0]);
            assert("pagetotal"@[0] != "booktitle"@[0]);
            assert("pagetotal"@[0] != "eventdate"@[0]);
            assert("pagetotal"@[0] != "maintitle"@[0]);
            assert("pagetotal"@[0] != "nameaddon"@[0]);
            assert("pagetotal"@[0] != "origtitle"@[0]);
        },
        StandardFieldKey::Pagination => {
            assert("pagination"@[0] != "annotation"@[0]);
            assert("pagination"@[0] != "authortype"@[0]);
            assert("pagination"@[0] != "bookauthor"@[0]);
            assert("pagination"@[0] != "editortype"@[0]);
            assert("pagination"@[0] != "eprinttype"@[0]);
            assert("pagination"@[0] != "eventtitle"@[0]);
            assert("pagination"@[0] != "indextitle"@[0]);
            assert("pagination"@[0] != "issuetitle"@[0]);
        },
        StandardFieldKey::Part => {
            assert("part"@[0] != "date"@[0]);
            assert("part"@[0] != "file"@[0]);
            assert("part"@[0] != "isan"@[0]);
            assert("part"@[0] != "isbn"@[0]);
            assert("part"@[0] != "ismn"@[0]);
            assert("part"@[0] != "isrn"@[0]);
            assert("part"@[0] != "issn"@[0]);
            assert("part"@[0] != "iswc"@[0]);
            assert("part"@[0] != "note"@[0]);
        },
        StandardFieldKey::Publisher => {
            assert("publisher"@[0] != "afterword"@[0]);
            assert("publisher"@[0] != "annotator"@[0]);
            assert("publisher"@[0] != "booktitle"@[0]);
            assert("publisher"@[0] != "eventdate"@[0]);
            assert("publisher"@[0] != "maintitle"@[0]);
            assert("publisher"@[0] != "nameaddon"@[0]);
            assert("publisher"@[0] != "origtitle"@[0]);
            assert("publisher"@[1] != "pagetotal"@[1]);
        },
        StandardFieldKey::PubState => {
            assert("pubstate"@[0] != "abstract"@[0]);
            assert("pubstate"@[0] != "addendum"@[0]);
            assert("pubstate"@[0] != "foreward"@[0]);
            assert("pubstate"@[0] != "language"@[0]);
            assert("pubstate"@[0] != "location"@[0]);
            assert("pubstate"@[0] != "origdate"@[0]);
        },
        StandardFieldKey::ReprintTitle => {
            assert("reprinttitle"@[0] != "booksubtitle"@[0]);
            assert("reprinttitle"@[0] != "entrysubtype"@[0]);
            assert("reprinttitle"@[0] != "howpublished"@[0]);
            assert("reprinttitle"@[0] != "introduction"@[0]);
            assert("reprinttitle"@[0] != "journaltitle"@[0]);
            assert("reprinttitle"@[0] != "mainsubtitle"@[0]);
            assert("reprinttitle"@[0] != "organization"@[0]);
            assert("reprinttitle"@[0] != "origlanguage"@[0]);
            assert("reprinttitle"@[0] != "origlocation"@[0]);
        },
        StandardFieldKey::Series => {
            assert("series"@[0] != "author"@[0]);
            assert("series"@[0] != "editor"@[0]);
            assert("series"@[0] != "eprint"@[0]);
            assert("series"@[0] != "holder"@[0]);
            assert("series"@[0] != "number"@[0]);
        },
        StandardFieldKey::ShortAuthor => {
            assert("shortauthor"@[0] != "commentator"@[0]);
            assert("shortauthor"@[0] != "editoratype"@[0]);
            assert("shortauthor"@[0] != "editorbtype"@[0]);
            assert("shortauthor"@[0] != "editorctype"@[0]);
            assert("shortauthor"@[0] != "eprintclass"@[0]);
            assert("shortauthor"@[0] != "institution"@[0]);
        },
        StandardFieldKey::ShortEditor => {
            assert("shorteditor"@[0] != "commentator"@[0]);
            assert("shorteditor"@[0] != "editoratype"@[0]);
            assert("shorteditor"@[0] != "editorbtype"@[0]);
            assert("shorteditor"@[0] != "editorctype"@[0]);
            assert("shorteditor"@[0] != "eprintclass"@[0]);
            assert("shorteditor"@[0] != "institution"@[0]);
            assert("shorteditor"@[5] != "shortauthor"@[5]);
        },
        StandardFieldKey::Shorthand => {
            assert("shorthand"@[0] != "afterword"@[0]);
            assert("shorthand"@[0] != "annotator"@[0]);
            assert("shorthand"@[0] != "booktitle"@[0]);
            assert("shorthand"@[0] != "eventdate"@[0]);
            assert("shorthand"@[0] != "maintitle"@[0]);
            assert("shorthand"@[0] != "nameaddon"@[0]);
            assert("shorthand"@[0] != "origtitle"@[0]);
            assert("shorthand"@[0] != "pagetotal"@[0]);
            assert("shorthand"@[0] != "publisher"@[0]);
        },
        StandardFieldKey::ShorthandIntro => {
            assert("shorthandintro"@[0] != "bookpagination"@[0]);
            assert("shorthandintro"@[0] != "booktitleaddon"@[0]);
            assert("shorthandintro"@[0] != "maintitleaddon"@[0]);
        },
        StandardFieldKey::ShortJournal => {
            assert("shortjournal"@[0] != "booksubtitle"@[0]);
            assert("shortjournal"@[0] != "entrysubtype"@[0]);
            assert("shortjournal"@[0] != "howpublished"@[0]);
            assert("shortjournal"@[0] != "introduction"@[0]);
            assert("shortjournal"@[0] != "journaltitle"@[0]);
            assert("shortjournal"@[0] != "mainsubtitle"@[0]);
            assert("shortjournal"@[0] != "organization"@[0]);
            assert("shortjournal"@[0] != "origlanguage"@[0]);
            assert("shortjournal"@[0] != "origlocation"@[0]);
            assert("shortjournal"@[0] != "reprinttitle"@[0]);
        },
        StandardFieldKey::ShortSeries => {
            assert("shortseries"@[0] != "commentator"@[0]);
            assert("shortseries"@[0] != "editoratype"@[0]);
            assert("shortseries"@[0] != "editorbtype"@[0]);
            assert("shortseries"@[0] != "editorctype"@[0]);
            assert("shortseries"@[0] != "eprintclass"@[0]);
            assert("shortseries"@[0] != "institution"@[0]);
            assert("shortseries"@[5] != "shortauthor"@[5]);
            assert("shortseries"@[5] != "shorteditor"@[5]);
        },
        StandardFieldKey::ShortTitle => {
            assert("shorttitle"@[0] != "annotation"@[0]);
            assert("shorttitle"@[0] != "authortype"@[0]);
            assert("shorttitle"@[0] != "bookauthor"@[0]);
            assert("shorttitle"@[0] != "editortype"@[0]);
            assert("shorttitle"@[0] != "eprinttype"@[0]);
            assert("shorttitle"@[0] != "eventtitle"@[0]);
            assert("shorttitle"@[0] != "indextitle"@[0]);
            assert("shorttitle"@[0] != "issuetitle"@[0]);
            assert("shorttitle"@[0] != "pagination"@[0]);
        },
        StandardFieldKey::Subtitle => {
            assert("subtitle"@[0] != "abstract"@[0]);
            assert("subtitle"@[0] != "addendum"@[0]);
            assert("subtitle"@[0] != "foreward"@[0]);
            assert("subtitle"@[0] != "language"@[0]);
            assert("subtitle"@[0] != "location"@[0]);
            assert("subtitle"@[0] != "origdate"@[0]);
            assert("subtitle"@[0] != "pubstate"@[0]);
        },
        StandardFieldKey::Title => {
            assert("title"@[0] != "issue"@[0]);
            assert("title"@[0] != "label"@[0]);
            assert("title"@[0] != "month"@[0]);
            assert("title"@[0] != "pages"@[0]);
        },
        StandardFieldKey::TitleAddon => {
            assert("titleaddon"@[0] != "annotation"@[0]);
            assert("titleaddon"@[0] != "authortype"@[0]);
            assert("titleaddon"@[0] != "bookauthor"@[0]);
            assert("titleaddon"@[0] != "editortype"@[0]);
            assert("titleaddon"@[0] != "eprinttype"@[0]);
            assert("titleaddon"@[0] != "eventtitle"@[0]);
            assert("titleaddon"@[0] != "indextitle"@[0]);
            assert("titleaddon"@[0] != "issuetitle"@[0]);
            assert("titleaddon"@[0] != "pagination"@[0]);
            assert("titleaddon"@[0] != "shorttitle"@[0]);
        },
        StandardFieldKey::Translator => {
            assert("translator"@[0] != "annotation"@[0]);
            assert("translator"@[0] != "authortype"@[0]);
            assert("translator"@[0] != "bookauthor"@[0]);
            assert("translator"@[0] != "editortype"@[0]);
            assert("translator"@[0] != "eprinttype"@[0]);
            assert("translator"@[0] != "eventtitle"@[0]);
            assert("translator"@[0] != "indextitle"@[0]);
            assert("translator"@[0] != "issuetitle"@[0]);
            assert("translator"@[0] != "pagination"@[0]);
            assert("translator"@[0] != "shorttitle"@[0]);
            assert("translator"@[1] != "titleaddon"@[1]);
        },
        StandardFieldKey::Type => {
            assert("type"@[0] != "date"@[0]);
            assert("type"@[0] != "file"@[0]);
            assert("type"@[0] != "isan"@[0]);
            assert("type"@[0] != "isbn"@[0]);
            assert("type"@[0] != "ismn"@[0]);
            assert("type"@[0] != "isrn"@[0]);
            assert("type"@[0] != "issn"@[0]);
            assert("type"@[0] != "iswc"@[0]);
            assert("type"@[0] != "note"@[0]);
            assert("type"@[0] != "part"@[0]);
        },
        StandardFieldKey::Url => {
            assert("url"@[0] != "doi"@[0]);
            assert("url"@[0] != "eid"@[0]);
        },
        StandardFieldKey::UrlDate => {
            assert("urldate"@[0] != "chapter"@[0]);
            assert("urldate"@[0] != "edition"@[0]);
            assert("urldate"@[0] != "editora"@[0]);
            assert("urldate"@[0] != "editorb"@[0]);
            assert("urldate"@[0] != "editorc"@[0]);
            assert("urldate"@[0] != "library"@[0]);
        },
        StandardFieldKey::Venue => {
            assert("venue"@[0] != "issue"@[0]);
            assert("venue"@[0] != "label"@[0]);
            assert("venue"@[0] != "month"@[0]);
            assert("venue"@[0] != "pages"@[0]);
            assert("venue"@[0] != "title"@[0]);
        },
        StandardFieldKey::Version => {
            assert("version"@[0] != "chapter"@[0]);
            assert("version"@[0] != "edition"@[0]);
            assert("version"@[0] != "editora"@[0]);
            assert("version"@[0] != "editorb"@[0]);
            assert("version"@[0] != "editorc"@[0]);
            assert("version"@[0] != "library"@[0]);
            assert("version"@[0] != "urldate"@[0]);
        },
        StandardFieldKey::Volume => {
            assert("volume"@[0] != "author"@[0]);
            assert("volume"@[0] != "editor"@[0]);
            assert("volume"@[0] != "eprint"@[0]);
            assert("volume"@[0] != "holder"@[0]);
            assert("volume"@[0] != "number"@[0]);
            assert("volume"@[0] != "series"@[0]);
        },
        StandardFieldKey::Volumes => {
            assert("volumes"@[0] != "chapter"@[0]);
            assert("volumes"@[0] != "edition"@[0]);
            assert("volumes"@[0] != "editora"@[0]);
            assert("volumes"@[0] != "editorb"@[0]);
            assert("volumes"@[0] != "editorc"@[0]);
            assert("volumes"@[0] != "library"@[0]);
            assert("volumes"@[0] != "urldate"@[0]);
            assert("volumes"@[1] != "version"@[1]);
        },
        StandardFieldKey::Year => {
            assert("year"@[0] != "date"@[0]);
            assert("year"@[0] != "file"@[0]);
            assert("year"@[0] != "isan"@[0]);
            assert("year"@[0] != "isbn"@[0]);
            assert("year"@[0] != "ismn"@[0]);
            assert("year"@[0] != "isrn"@[0]);
            assert("year"@[0] != "issn"@[0]);
            assert("year"@[0] != "iswc"@[0]);
            assert("year"@[0] != "note"@[0]);
            assert("year"@[0] != "part"@[0]);
            assert("year"@[0] != "type"@[0]);
        },
        StandardFieldKey::Address => {
            assert("address"@[0] != "chapter"@[0]);
            assert("address"@[0] != "edition"@[0]);
            assert("address"@[0] != "editora"@[0]);
            assert("address"@[0] != "editorb"@[0]);
            assert("address"@[0] != "editorc"@[0]);
            assert("address"@[0] != "library"@[0]);
            assert("address"@[0] != "urldate"@[0]);
            assert("address"@[0] != "version"@[0]);
            assert("address"@[0] != "volumes"@[0]);
        },
        StandardFieldKey::Annote => {
            assert("annote"@[1] != "author"@[1]);
            assert("annote"@[0] != "editor"@[0]);
            assert("annote"@[0] != "eprint"@[0]);
            assert("annote"@[0] != "holder"@[0]);
            assert("annote"@[0] != "number"@[0]);
            assert("annote"@[0] != "series"@[0]);
            assert("annote"@[0] != "volume"@[0]);
        },
        StandardFieldKey::ArchivePrefix => {
            assert("archiveprefix"@[0] != "issuesubtitle"@[0]);
            assert("archiveprefix"@[0] != "origpublisher"@[0]);
        },
        StandardFieldKey::Journal => {
            assert("journal"@[0] != "chapter"@[0]);
            assert("journal"@[0] != "edition"@[0]);
            assert("journal"@[0] != "editora"@[0]);
            assert("journal"@[0] != "editorb"@[0]);
            assert("journal"@[0] != "editorc"@[0]);
            assert("journal"@[0] != "library"@[0]);
            assert("journal"@[0] != "urldate"@[0]);
            assert("journal"@[0] != "version"@[0]);
            assert("journal"@[0] != "volumes"@[0]);
            assert("journal"@[0] != "address"@[0]);
        },
        StandardFieldKey::Key => {
            assert("key"@[0] != "doi"@[0]);
            assert("key"@[0] != "eid"@[0]);
            assert("key"@[0] != "url"@[0]);
        },
        StandardFieldKey::Pdf => {
            assert("pdf"@[0] != "doi"@[0]);
            assert("pdf"@[0] != "eid"@[0]);
            assert("pdf"@[0] != "url"@[0]);
            assert("pdf"@[0] != "key"@[0]);
        },
        StandardFieldKey::PrimaryClass => {
            assert("primaryclass"@[0] != "booksubtitle"@[0]);
            assert("primaryclass"@[0] != "entrysubtype"@[0]);
            assert("primaryclass"@[0] != "howpublished"@[0]);
            assert("primaryclass"@[0] != "introduction"@[0]);
            assert("primaryclass"@[0] != "journaltitle"@[0]);
            assert("primaryclass"@[0] != "mainsubtitle"@[0]);
            assert("primaryclass"@[0] != "organization"@[0]);
            assert("primaryclass"@[0] != "origlanguage"@[0]);
            assert("primaryclass"@[0] != "origlocation"@[0]);
            assert("primaryclass"@[0] != "reprinttitle"@[0]);
            assert("primaryclass"@[0] != "shortjournal"@[0]);
        },
        StandardFieldKey::School => {
            assert("school"@[0] != "author"@[0]);
            assert("school"@[0] != "editor"@[0]);
            assert("school"@[0] != "eprint"@[0]);
            assert("school"@[0] != "holder"@[0]);
            assert("school"@[0] != "number"@[0]);
            assert("school"@[1] != "series"@[1]);
            assert("school"@[0] != "volume"@[0]);
            assert("school"@[0] != "annote"@[0]);
        },
        _ => {},
    }
}

/// A BibTeX-compatible field key converts to itself, and every conversion gives a
/// BibTeX-compatible field key.
pub proof fn lemma_to_bibtex(v: StandardFieldKey)
    ensures
        v.spec_is_bibtex() ==> v.spec_to_bibtex() == Some(v),
        v.spec_to_bibtex() matches Some(b) ==> b.spec_is_bibtex(),
{
}

/// Resolving an alias gives a field key that resolves to itself; apart from `key`, which has
/// no other variant to stand for, it is no alias.
pub proof fn lemma_resolve_alias(v: StandardFieldKey)
    ensures
        v.spec_resolve_alias().spec_resolve_alias() == v.spec_resolve_alias(),
        v.spec_resolve_alias().spec_is_alias() ==> v.spec_resolve_alias() == StandardFieldKey::Key,
        !v.spec_is_alias() ==> v.spec_resolve_alias() == v,
{
}

/// Each BibLaTeX alias resolves to the field key it stands for, by name: `address` to
/// `location`, `annote` to `annotation`, `archiveprefix` to `eprinttype`, `journal` to
/// `journaltitle`, `pdf` to `file`, `primaryclass` to `eprintclass` and `school` to
/// `institution`.
pub proof fn lemma_alias_targets()
    ensures
        StandardFieldKey::spec_from_name("address"@) matches Some(k) && k.spec_resolve_alias().spec_name()
            == "location"@,
        StandardFieldKey::spec_from_name("annote"@) matches Some(k) && k.spec_resolve_alias().spec_name()
            == "annotation"@,
        StandardFieldKey::spec_from_name("archiveprefix"@) matches Some(k) && k.spec_resolve_alias().spec_name()
            == "eprinttype"@,
        StandardFieldKey::spec_from_name("journal"@) matches Some(k) && k.spec_resolve_alias().spec_name()
            == "journaltitle"@,
        StandardFieldKey::spec_from_name("pdf"@) matches Some(k) && k.spec_resolve_alias().spec_name()
            == "file"@,
        StandardFieldKey::spec_from_name("primaryclass"@) matches Some(k) && k.spec_resolve_alias().spec_name()
            == "eprintclass"@,
        StandardFieldKey::spec_from_name("school"@) matches Some(k) && k.spec_resolve_alias().spec_name()
            == "institution"@,
{
    lemma_field_key_name_roundtrip(StandardFieldKey::Address);
    lemma_field_key_name_roundtrip(StandardFieldKey::Annote);
    lemma_field_key_name_roundtrip(StandardFieldKey::ArchivePrefix);
    lemma_field_key_name_roundtrip(StandardFieldKey::Journal);
    lemma_field_key_name_roundtrip(StandardFieldKey::Pdf);
    lemma_field_key_name_roundtrip(StandardFieldKey::PrimaryClass);
    lemma_field_key_name_roundtrip(StandardFieldKey::School);
}

/// A BibTeX alias is what the field key it stands for converts to for BibTeX; the exception is
/// `school`, whose target `institution` is a BibTeX field itself.
pub proof fn lemma_bibtex_aliases(v: StandardFieldKey)
    ensures
        v.spec_is_alias() && v.spec_is_bibtex() && v != StandardFieldKey::School
            ==> v.spec_resolve_alias().spec_to_bibtex() == Some(v),
{
}

/// Every standard entry type name is a valid entry type: converting from a standard entry
/// type needs no check.
pub proof fn lemma_standard_entry_type_valid(v: StandardEntryType)
    ensures
        entry_type_check(v.spec_name()) is Ok,
{
    reveal_strlit("comment");
    reveal_strlit("preamble");
    reveal_strlit("string");
    match v {
        StandardEntryType::Article => {
            reveal_strlit("article");
            lemma_lowercase_identifier("article"@);
        },
        StandardEntryType::Book => {
            reveal_strlit("book");
            lemma_lowercase_identifier("book"@);
        },
        StandardEntryType::MvBook => {
            reveal_strlit("mvbook");
            lemma_lowercase_identifier("mvbook"@);
        },
        StandardEntryType::InBook => {
            reveal_strlit("inbook");
            lemma_lowercase_identifier("inbook"@);
        },
        StandardEntryType::BookInBook => {
            reveal_strlit("bookinbook");
            lemma_lowercase_identifier("bookinbook"@);
        },
        StandardEntryType::SuppBook => {
            reveal_strlit("suppbook");
            lemma_lowercase_identifier("suppbook"@);
        },
        StandardEntryType::Booklet => {
            reveal_strlit("booklet");
            lemma_lowercase_identifier("booklet"@);
        },
        StandardEntryType::Collection => {
            reveal_strlit("collection");
            lemma_lowercase_identifier("collection"@);
        },
        StandardEntryType::MvCollection => {
            reveal_strlit("mvcollection");
            lemma_lowercase_identifier("mvcollection"@);
        },
        StandardEntryType::InCollection => {
            reveal_strlit("incollection");
            lemma_lowercase_identifier("incollection"@);
        },
        StandardEntryType::SuppCollection => {
            reveal_strlit("suppcollection");
            lemma_lowercase_identifier("suppcollection"@);
        },
        StandardEntryType::Dataset => {
            reveal_strlit("dataset");
            lemma_lowercase_identifier("dataset"@);
        },
        StandardEntryType::Manual => {
            reveal_strlit("manual");
            lemma_lowercase_identifier("manual"@);
        },
        StandardEntryType::Misc => {
            reveal_strlit("misc");
            lemma_lowercase_identifier("misc"@);
        },
        StandardEntryType::Online => {
            reveal_strlit("online");
            lemma_lowercase_identifier("online"@);
        },
        StandardEntryType::Patent => {
            reveal_strlit("patent");
            lemma_lowercase_identifier("patent"@);
        },
        StandardEntryType::Periodical => {
            reveal_strlit("periodical");
            lemma_lowercase_identifier("periodical"@);
        },
        StandardEntryType::SuppPeriodical => {
            reveal_strlit("suppperiodical");
            lemma_lowercase_identifier("suppperiodical"@);
        },
        StandardEntryType::Proceedings => {
            reveal_strlit("proceedings");
            lemma_lowercase_identifier("proceedings"@);
        },
        StandardEntryType::MvProceedings => {
            reveal_strlit("mvproceedings");
            lemma_lowercase_identifier("mvproceedings"@);
        },
        StandardEntryType::InProceedings => {
            reveal_strlit("inproceedings");
            lemma_lowercase_identifier("inproceedings"@);
        },
        StandardEntryType::Reference => {
            reveal_strlit("reference");
            lemma_lowercase_identifier("reference"@);
        },
        StandardEntryType::MvReference => {
            reveal_strlit("mvreference");
            lemma_lowercase_identifier("mvreference"@);
        },
        StandardEntryType::InReference => {
            reveal_strlit("inreference");
            lemma_lowercase_identifier("inreference"@);
        },
        StandardEntryType::Report => {
            reveal_strlit("report");
            lemma_lowercase_identifier("report"@);
        },
        StandardEntryType::Software => {
            reveal_strlit("software");
            lemma_lowercase_identifier("software"@);
        },
        StandardEntryType::Thesis => {
            reveal_strlit("thesis");
            lemma_lowercase_identifier("thesis"@);
        },
        StandardEntryType::Unpublished => {
            reveal_strlit("unpublished");
            lemma_lowercase_identifier("unpublished"@);
        },
        StandardEntryType::Conference => {
            reveal_strlit("conference");
            lemma_lowercase_identifier("conference"@);
        },
        StandardEntryType::Electronic => {
            reveal_strlit("electronic");
            lemma_lowercase_identifier("electronic"@);
        },
        StandardEntryType::MastersThesis => {
            reveal_strlit("mastersthesis");
            lemma_lowercase_identifier("mastersthesis"@);
        },
        StandardEntryType::PhdThesis => {
            reveal_strlit("phdthesis");
            lemma_lowercase_identifier("phdthesis"@);
        },
        StandardEntryType::TechReport => {
            reveal_strlit("techreport");
            lemma_lowercase_identifier("techreport"@);
        },
    }
}

/// Every standard field key name is a valid field key: converting from a standard field key
/// needs no check.
pub proof fn lemma_standard_field_key_valid(v: StandardFieldKey)
    ensures
        field_key_check(v.spec_name()) is Ok,
{
    match v {
        StandardFieldKey::Abstract => {
            reveal_strlit("abstract");
            lemma_lowercase_identifier("abstract"@);
        },
        StandardFieldKey::Addendum => {
            reveal_strlit("addendum");
            lemma_lowercase_identifier("addendum"@);
        },
        StandardFieldKey::Afterword => {
            reveal_strlit("afterword");
            lemma_lowercase_identifier("afterword"@);
        },
        StandardFieldKey::Annotation => {
            reveal_strlit("annotation");
            lemma_lowercase_identifier("annotation"@);
        },
        StandardFieldKey::Annotator => {
            reveal_strlit("annotator");
            lemma_lowercase_identifier("annotator"@);
        },
        StandardFieldKey::Author => {
            reveal_strlit("author");
            lemma_lowercase_identifier("author"@);
        },
        StandardFieldKey::AuthorType => {
            reveal_strlit("authortype");
            lemma_lowercase_identifier("authortype"@);
        },
        StandardFieldKey::BookAuthor => {
            reveal_strlit("bookauthor");
            lemma_lowercase_identifier("bookauthor"@);
        },
        StandardFieldKey::BookPagination => {
            reveal_strlit("bookpagination");
            lemma_lowercase_identifier("bookpagination"@);
        },
        StandardFieldKey::BookSubtitle => {
            reveal_strlit("booksubtitle");
            lemma_lowercase_identifier("booksubtitle"@);
        },
        StandardFieldKey::BookTitle => {
            reveal_strlit("booktitle");
            lemma_lowercase_identifier("booktitle"@);
        },
        StandardFieldKey::BookTitleAddon => {
            reveal_strlit("booktitleaddon");
            lemma_lowercase_identifier("booktitleaddon"@);
        },
        StandardFieldKey::Chapter => {
            reveal_strlit("chapter");
            lemma_lowercase_identifier("chapter"@);
        },
        StandardFieldKey::Commentator => {
            reveal_strlit("commentator");
            lemma_lowercase_identifier("commentator"@);
        },
        StandardFieldKey::Date => {
            reveal_strlit("date");
            lemma_lowercase_identifier("date"@);
        },
        StandardFieldKey::Doi => {
            reveal_strlit("doi");
            lemma_lowercase_identifier("doi"@);
        },
        StandardFieldKey::Edition => {
            reveal_strlit("edition");
            lemma_lowercase_identifier("edition"@);
        },
        StandardFieldKey::Editor => {
            reveal_strlit("editor");
            lemma_lowercase_identifier("editor"@);
        },
        StandardFieldKey::EditorA => {
            reveal_strlit("editora");
            lemma_lowercase_identifier("editora"@);
        },
        StandardFieldKey::EditorB => {
            reveal_strlit("editorb");
            lemma_lowercase_identifier("editorb"@);
        },
        StandardFieldKey::EditorC => {
            reveal_strlit("editorc");
            lemma_lowercase_identifier("editorc"@);
        },
        StandardFieldKey::EditorType => {
            reveal_strlit("editortype");
            lemma_lowercase_identifier("editortype"@);
        },
        StandardFieldKey::EditorAType => {
            reveal_strlit("editoratype");
            lemma_lowercase_identifier("editoratype"@);
        },
        StandardFieldKey::EditorBType => {
            reveal_strlit("editorbtype");
            lemma_lowercase_identifier("editorbtype"@);
        },
        StandardFieldKey::EditorCType => {
            reveal_strlit("editorctype");
            lemma_lowercase_identifier("editorctype"@);
        },
        StandardFieldKey::Eid => {
            reveal_strlit("eid");
            lemma_lowercase_identifier("eid"@);
        },
        StandardFieldKey::EntrySubType => {
            reveal_strlit("entrysubtype");
            lemma_lowercase_identifier("entrysubtype"@);
        },
        StandardFieldKey::EPrint => {
            reveal_strlit("eprint");
            lemma_lowercase_identifier("eprint"@);
        },
        StandardFieldKey::EPrintClass => {
            reveal_strlit("eprintclass");
            lemma_lowercase_identifier("eprintclass"@);
        },
        StandardFieldKey::EPrintType => {
            reveal_strlit("eprinttype");
            lemma_lowercase_identifier("eprinttype"@);
        },
        StandardFieldKey::EventDate => {
            reveal_strlit("eventdate");
            lemma_lowercase_identifier("eventdate"@);
        },
        StandardFieldKey::EventTitle => {
            reveal_strlit("eventtitle");
            lemma_lowercase_identifier("eventtitle"@);
        },
        StandardFieldKey::EventTitleAddon => {
            reveal_strlit("eventtitleaddon");
            lemma_lowercase_identifier("eventtitleaddon"@);
        },
        StandardFieldKey::File => {
            reveal_strlit("file");
            lemma_lowercase_identifier("file"@);
        },
        StandardFieldKey::Foreward => {
            reveal_strlit("foreward");
            lemma_lowercase_identifier("foreward"@);
        },
        StandardFieldKey::Holder => {
            reveal_strlit("holder");
            lemma_lowercase_identifier("holder"@);
        },
        StandardFieldKey::HowPublished => {
            reveal_strlit("howpublished");
            lemma_lowercase_identifier("howpublished"@);
        },
        StandardFieldKey::IndexTitle => {
            reveal_strlit("indextitle");
            lemma_lowercase_identifier("indextitle"@);
        },
        StandardFieldKey::Institution => {
            reveal_strlit("institution");
            lemma_lowercase_identifier("institution"@);
        },
        StandardFieldKey::Introduction => {
            reveal_strlit("introduction");
            lemma_lowercase_identifier("introduction"@);
        },
        StandardFieldKey::ISAN => {
            reveal_strlit("isan");
            lemma_lowercase_identifier("isan"@);
        },
        StandardFieldKey::ISBN => {
            reveal_strlit("isbn");
            lemma_lowercase_identifier("isbn"@);
        },
        StandardFieldKey::ISMN => {
            reveal_strlit("ismn");
            lemma_lowercase_identifier("ismn"@);
        },
        StandardFieldKey::ISRN => {
            reveal_strlit("isrn");
            lemma_lowercase_identifier("isrn"@);
        },
        StandardFieldKey::ISSN => {
            reveal_strlit("issn");
            lemma_lowercase_identifier("issn"@);
        },
        StandardFieldKey::Issue => {
            reveal_strlit("issue");
            lemma_lowercase_identifier("issue"@);
        },
        StandardFieldKey::IssueSubtitle => {
            reveal_strlit("issuesubtitle");
            lemma_lowercase_identifier("issuesubtitle"@);
        },
        StandardFieldKey::IssueTitle => {
            reveal_strlit("issuetitle");
            lemma_lowercase_identifier("issuetitle"@);
        },
        StandardFieldKey::IssueTitleAddon => {
            reveal_strlit("issuetitleaddon");
            lemma_lowercase_identifier("issuetitleaddon"@);
        },
        StandardFieldKey::ISWC => {
            reveal_strlit("iswc");
            lemma_lowercase_identifier("iswc"@);
        },
        StandardFieldKey::JournalSubtitle => {
            reveal_strlit("journalsubtitle");
            lemma_lowercase_identifier("journalsubtitle"@);
        },
        StandardFieldKey::JournalTitle => {
            reveal_strlit("journaltitle");
            lemma_lowercase_identifier("journaltitle"@);
        },
        StandardFieldKey::JournalTitleAddon => {
            reveal_strlit("journaltitleaddon");
            lemma_lowercase_identifier("journaltitleaddon"@);
        },
        StandardFieldKey::Label => {
            reveal_strlit("label");
            lemma_lowercase_identifier("label"@);
        },
        StandardFieldKey::Language => {
            reveal_strlit("language");
            lemma_lowercase_identifier("language"@);
        },
        StandardFieldKey::Library => {
            reveal_strlit("library");
            lemma_lowercase_identifier("library"@);
        },
        StandardFieldKey::Location => {
            reveal_strlit("location");
            lemma_lowercase_identifier("location"@);
        },
        StandardFieldKey::MainSubtitle => {
            reveal_strlit("mainsubtitle");
            lemma_lowercase_identifier("mainsubtitle"@);
        },
        StandardFieldKey::MainTitle => {
            reveal_strlit("maintitle");
            lemma_lowercase_identifier("maintitle"@);
        },
        StandardFieldKey::MainTitleAddon => {
            reveal_strlit("maintitleaddon");
            lemma_lowercase_identifier("maintitleaddon"@);
        },
        StandardFieldKey::Month => {
            reveal_strlit("month");
            lemma_lowercase_identifier("month"@);
        },
        StandardFieldKey::NameAddon => {
            reveal_strlit("nameaddon");
            lemma_lowercase_identifier("nameaddon"@);
        },
        StandardFieldKey::Note => {
            reveal_strlit("note");
            lemma_lowercase_identifier("note"@);
        },
        StandardFieldKey::Number => {
            reveal_strlit("number");
            lemma_lowercase_identifier("number"@);
        },
        StandardFieldKey::Organization => {
            reveal_strlit("organization");
            lemma_lowercase_identifier("organization"@);
        },
        StandardFieldKey::OrigDate => {
            reveal_strlit("origdate");
            lemma_lowercase_identifier("origdate"@);
        },
        StandardFieldKey::OrigLanguage => {
            reveal_strlit("origlanguage");
            lemma_lowercase_identifier("origlanguage"@);
        },
        StandardFieldKey::OrigLocation => {
            reveal_strlit("origlocation");
            lemma_lowercase_identifier("origlocation"@);
        },
        StandardFieldKey::OrigPublisher => {
            reveal_strlit("origpublisher");
            lemma_lowercase_identifier("origpublisher"@);
        },
        StandardFieldKey::OrigTitle => {
            reveal_strlit("origtitle");
            lemma_lowercase_identifier("origtitle"@);
        },
        StandardFieldKey::Pages => {
            reveal_strlit("pages");
            lemma_lowercase_identifier("pages"@);
        },
        StandardFieldKey::PageTotal => {
            reveal_strlit("pagetotal");
            lemma_lowercase_identifier("pagetotal"@);
        },
        StandardFieldKey::Pagination => {
            reveal_strlit("pagination");
            lemma_lowercase_identifier("pagination"@);
        },
        StandardFieldKey::Part => {
            reveal_strlit("part");
            lemma_lowercase_identifier("part"@);
        },
        StandardFieldKey::Publisher => {
            reveal_strlit("publisher");
            lemma_lowercase_identifier("publisher"@);
        },
        StandardFieldKey::PubState => {
            reveal_strlit("pubstate");
            lemma_lowercase_identifier("pubstate"@);
        },
        StandardFieldKey::ReprintTitle => {
            reveal_strlit("reprinttitle");
            lemma_lowercase_identifier("reprinttitle"@);
        },
        StandardFieldKey::Series => {
            reveal_strlit("series");
            lemma_lowercase_identifier("series"@);
        },
        StandardFieldKey::ShortAuthor => {
            reveal_strlit("shortauthor");
            lemma_lowercase_identifier("shortauthor"@);
        },
        StandardFieldKey::ShortEditor => {
            reveal_strlit("shorteditor");
            lemma_lowercase_identifier("shorteditor"@);
        },
        StandardFieldKey::Shorthand => {
            reveal_strlit("shorthand");
            lemma_lowercase_identifier("shorthand"@);
        },
        StandardFieldKey::ShorthandIntro => {
            reveal_strlit("shorthandintro");
            lemma_lowercase_identifier("shorthandintro"@);
        },
        StandardFieldKey::ShortJournal => {
            reveal_strlit("shortjournal");
            lemma_lowercase_identifier("shortjournal"@);
        },
        StandardFieldKey::ShortSeries => {
            reveal_strlit("shortseries");
            lemma_lowercase_identifier("shortseries"@);
        },
        StandardFieldKey::ShortTitle => {
            reveal_strlit("shorttitle");
            lemma_lowercase_identifier("shorttitle"@);
        },
        StandardFieldKey::Subtitle => {
            reveal_strlit("subtitle");
            lemma_lowercase_identifier("subtitle"@);
        },
        StandardFieldKey::Title => {
            reveal_strlit("title");
            lemma_lowercase_identifier("title"@);
        },
        StandardFieldKey::TitleAddon => {
            reveal_strlit("titleaddon");
            lemma_lowercase_identifier("titleaddon"@);
        },
        StandardFieldKey::Translator => {
            reveal_strlit("translator");
            lemma_lowercase_identifier("translator"@);
        },
        StandardFieldKey::Type => {
            reveal_strlit("type");
            lemma_lowercase_identifier("type"@);
        },
        StandardFieldKey::Url => {
            reveal_strlit("url");
            lemma_lowercase_identifier("url"@);
        },
        StandardFieldKey::UrlDate => {
            reveal_strlit("urldate");
            lemma_lowercase_identifier("urldate"@);
        },
        StandardFieldKey::Venue => {
            reveal_strlit("venue");
            lemma_lowercase_identifier("venue"@);
        },
        StandardFieldKey::Version => {
            reveal_strlit("version");
            lemma_lowercase_identifier("version"@);
        },
        StandardFieldKey::Volume => {
            reveal_strlit("volume");
            lemma_lowercase_identifier("volume"@);
        },
        StandardFieldKey::Volumes => {
            reveal_strlit("volumes");
            lemma_lowercase_identifier("volumes"@);
        },
        StandardFieldKey::Year => {
            reveal_strlit("year");
            lemma_lowercase_identifier("year"@);
        },
        StandardFieldKey::Address => {
            reveal_strlit("address");
            lemma_lowercase_identifier("address"@);
        },
        StandardFieldKey::Annote => {
            reveal_strlit("annote");
            lemma_lowercase_identifier("annote"@);
        },
        StandardFieldKey::ArchivePrefix => {
            reveal_strlit("archiveprefix");
            lemma_lowercase_identifier("archiveprefix"@);
        },
        StandardFieldKey::Journal => {
            reveal_strlit("journal");
            lemma_lowercase_identifier("journal"@);
        },
        StandardFieldKey::Key => {
            reveal_strlit("key");
            lemma_lowercase_identifier("key"@);
        },
        StandardFieldKey::Pdf => {
            reveal_strlit("pdf");
            lemma_lowercase_identifier("pdf"@);
        },
        StandardFieldKey::PrimaryClass => {
            reveal_strlit("primaryclass");
            lemma_lowercase_identifier("primaryclass"@);
        },
        StandardFieldKey::School => {
            reveal_strlit("school");
            lemma_lowercase_identifier("school"@);
        },
    }
}

/// A name maps to a standard entry type only when it is that type's name.
pub proof fn lemma_entry_type_from_name(s: Seq<char>)
    ensures
        StandardEntryType::spec_from_name(s) matches Some(v) ==> v.spec_name() == s,
{
}

/// A name maps to a standard field key only when it is that key's name.
pub proof fn lemma_field_key_from_name(s: Seq<char>)
    ensures
        StandardFieldKey::spec_from_name(s) matches Some(v) ==> v.spec_name() == s,
{
}

/// A string is a standard entry type name exactly when some standard entry type has it as its
/// name.
pub proof fn lemma_entry_type_is_name(s: Seq<char>)
    ensures
        StandardEntryType::spec_from_name(s) is Some <==> exists|v: StandardEntryType|
            #[trigger] v.spec_name() == s,
{
    lemma_entry_type_from_name(s);
    if let Some(v) = StandardEntryType::spec_from_name(s) {
        assert(v.spec_name() == s);
    }
    if exists|v: StandardEntryType| #[trigger] v.spec_name() == s {
        let v = choose|v: StandardEntryType| #[trigger] v.spec_name() == s;
        lemma_entry_type_name_roundtrip(v);
    }
}

/// A string is a standard field key name exactly when some standard field key has it as its
/// name.
pub proof fn lemma_field_key_is_name(s: Seq<char>)
    ensures
        StandardFieldKey::spec_from_name(s) is Some <==> exists|v: StandardFieldKey|
            #[trigger] v.spec_name() == s,
{
    lemma_field_key_from_name(s);
    if let Some(v) = StandardFieldKey::spec_from_name(s) {
        assert(v.spec_name() == s);
    }
    if exists|v: StandardFieldKey| #[trigger] v.spec_name() == s {
        let v = choose|v: StandardFieldKey| #[trigger] v.spec_name() == s;
        lemma_field_key_name_roundtrip(v);
    }
}

/// The standard entry type used when none is given.
impl Default for StandardEntryType {
    fn default() -> (r: Self)
        ensures
            r == StandardEntryType::Misc,
    {
        StandardEntryType::Misc
    }
}

} // verus!
