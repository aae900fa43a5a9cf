//! The record of a paste as a document database keeps it: a list of named
//! values.

use crate::paste::{PasteEntry, PasteView};
use crate::text::same_str;
use vstd::prelude::*;
use vstd::std_specs::iter::IteratorSpec;
use vstd::string::StringExecFns;

verus! {

/// The fields of the record of a paste.
#[derive(Debug, Clone, Copy, PartialEq, Eq, Structural)]
pub enum Field {
    /// `_id`: the identifier, a 64-bit integer.
    Id,
    /// `data`: the content, generic binary data.
    Data,
    /// `mime_type`: the MIME type, a string.
    MimeType,
    /// `file_name`: the file name, a string; optional.
    FileName,
    /// `best_before`: the expiry, a date; optional.
    BestBefore,
}

/// The kinds of value that a record can hold.
#[derive(Debug, Clone, Copy, PartialEq, Eq, Structural)]
pub enum Kind {
    Int64,
    Binary,
    Text,
    DateTime,
    /// Every kind that the record of a paste has no use for.
    Other,
}

/// A value of a document.
#[derive(Debug, Clone, PartialEq, Eq)]
pub enum Value {
    /// A 64-bit integer.
    Int64(i64),
    /// Generic binary data.
    Binary(Vec<u8>),
    /// A string.
    Text(String),
    /// A date, in seconds since the epoch.
    DateTime(i64),
    /// A value of another kind.
    Other,
}

/// What a value holds.
pub enum ValueView {
    Int64(i64),
    Binary(Seq<u8>),
    Text(Seq<char>),
    DateTime(i64),
    Other,
}

impl View for Value {
    type V = ValueView;

    open spec fn view(&self) -> ValueView {
        match self {
            Value::Int64(n) => ValueView::Int64(*n),
            Value::Binary(data) => ValueView::Binary(data@),
            Value::Text(text) => ValueView::Text(text@),
            Value::DateTime(at) => ValueView::DateTime(*at),
            Value::Other => ValueView::Other,
        }
    }
}

impl ValueView {
    /// The kind of the value.
    pub open spec fn kind(self) -> Kind {
        match self {
            ValueView::Int64(_) => Kind::Int64,
            ValueView::Binary(_) => Kind::Binary,
            ValueView::Text(_) => Kind::Text,
            ValueView::DateTime(_) => Kind::DateTime,
            ValueView::Other => Kind::Other,
        }
    }
}

impl Value {
    /// The kind of the value.
    pub fn kind(&self) -> (kind: Kind)
        ensures
            kind == self@.kind(),
    {
        match self {
            Value::Int64(_) => Kind::Int64,
            Value::Binary(_) => Kind::Binary,
            Value::Text(_) => Kind::Text,
            Value::DateTime(_) => Kind::DateTime,
            Value::Other => Kind::Other,
        }
    }
}

/// A document: named values, in order.
pub type Document = Vec<(String, Value)>;

/// What a document holds.
pub type DocumentView = Seq<(Seq<char>, ValueView)>;

/// What named values hold.
pub open spec fn pairs_view(pairs: Seq<(String, Value)>) -> DocumentView {
    Seq::new(pairs.len(), |i: int| (pairs[i].0@, pairs[i].1@))
}

/// What a document holds.
pub open spec fn document_view(doc: Document) -> DocumentView {
    pairs_view(doc@)
}

/// Why a document is not the record of a paste.
#[derive(Debug, Clone, PartialEq, Eq)]
pub enum DocumentError {
    /// A field holds a value of the wrong kind.
    InvalidType { field: Field, expected: Kind, got: Kind },
    /// The document holds a name that is no field of the record.
    UnknownField(String),
    /// A field that every record has is missing.
    ExpectedField(Field),
}

/// What an error holds.
pub enum DocumentErrorView {
    InvalidType { field: Field, expected: Kind, got: Kind },
    UnknownField(Seq<char>),
    ExpectedField(Field),
}

impl View for DocumentError {
    type V = DocumentErrorView;

    open spec fn view(&self) -> DocumentErrorView {
        match self {
            DocumentError::InvalidType { field, expected, got } => DocumentErrorView::InvalidType {
                field: *field,
                expected: *expected,
                got: *got,
            },
            DocumentError::UnknownField(name) => DocumentErrorView::UnknownField(name@),
            DocumentError::ExpectedField(field) => DocumentErrorView::ExpectedField(*field),
        }
    }
}

impl Field {
    /// The name of the field in a document.
    pub open spec fn spec_name(self) -> Seq<char> {
        match self {
            Field::Id => "_id"@,
            Field::Data => "data"@,
            Field::MimeType => "mime_type"@,
            Field::FileName => "file_name"@,
            Field::BestBefore => "best_before"@,
        }
    }

    /// The name of the field in a document.
    pub fn name(self) -> (name: &'static str)
        ensures
            name@ == self.spec_name(),
    {
        match self {
            Field::Id => "_id",
            Field::Data => "data",
            Field::MimeType => "mime_type",
            Field::FileName => "file_name",
            Field::BestBefore => "best_before",
        }
    }

    /// The kind of value that the field holds.
    pub open spec fn spec_kind(self) -> Kind {
        match self {
            Field::Id => Kind::Int64,
            Field::Data => Kind::Binary,
            Field::MimeType => Kind::Text,
            Field::FileName => Kind::Text,
            Field::BestBefore => Kind::DateTime,
        }
    }

    /// The kind of value that the field holds.
    #[verifier::when_used_as_spec(spec_kind)]
    pub fn kind(self) -> (kind: Kind)
        ensures
            kind == self.spec_kind(),
    {
        match self {
            Field::Id => Kind::Int64,
            Field::Data => Kind::Binary,
            Field::MimeType => Kind::Text,
            Field::FileName => Kind::Text,
            Field::BestBefore => Kind::DateTime,
        }
    }
}

/// The field that a name stands for.
pub open spec fn field_named(name: Seq<char>) -> Option<Field> {
    if name == Field::Id.spec_name() {
        Some(Field::Id)
    } else if name == Field::Data.spec_name() {
        Some(Field::Data)
    } else if name == Field::MimeType.spec_name() {
        Some(Field::MimeType)
    } else if name == Field::FileName.spec_name() {
        Some(Field::FileName)
    } else if name == Field::BestBefore.spec_name() {
        Some(Field::BestBefore)
    } else {
        None
    }
}

/// The field that a name stands for.
pub fn field_of(name: &str) -> (field: Option<Field>)
    ensures
        field == field_named(name@),
{
    if same_str(name, Field::Id.name()) {
        Some(Field::Id)
    } else if same_str(name, Field::Data.name()) {
        Some(Field::Data)
    } else if same_str(name, Field::MimeType.name()) {
        Some(Field::MimeType)
    } else if same_str(name, Field::FileName.name()) {
        Some(Field::FileName)
    } else if same_str(name, Field::BestBefore.name()) {
        Some(Field::BestBefore)
    } else {
        None
    }
}

/// The names of the five fields differ, so each name stands for its field.
pub proof fn lemma_field_names(field: Field)
    ensures
        field_named(field.spec_name()) == Some(field),
{
    reveal_strlit("_id");
    reveal_strlit("data");
    reveal_strlit("mime_type");
    reveal_strlit("file_name");
    reveal_strlit("best_before");
    assert("_id"@.len() == 3 && "data"@.len() == 4 && "best_before"@.len() == 11);
    assert("mime_type"@[0] == 'm' && "file_name"@[0] == 'f');
}

/// The identifier that a stored integer stands for: the same 64 bits read
/// without a sign.
pub open spec fn unsigned_id(stored: i64) -> u64 {
    if stored >= 0 {
        stored as u64
    } else {
        (stored + 0x1_0000_0000_0000_0000) as u64
    }
}

/// The integer under which an identifier is stored: the same 64 bits read
/// with a sign.
pub open spec fn signed_id(id: u64) -> i64 {
    if id <= i64::MAX {
        id as i64
    } else {
        (id - 0x1_0000_0000_0000_0000) as i64
    }
}

/// Reads a stored integer as an identifier.
pub fn id_from_stored(stored: i64) -> (id: u64)
    ensures
        id == unsigned_id(stored),
{
    if stored >= 0 {
        stored as u64
    } else {
        (stored as i128 + 0x1_0000_0000_0000_0000) as u64
    }
}

/// Writes an identifier as the integer to store.
pub fn id_to_stored(id: u64) -> (stored: i64)
    ensures
        stored == signed_id(id),
        unsigned_id(stored) == id,
{
    if id <= i64::MAX as u64 {
        id as i64
    } else {
        (id as i128 - 0x1_0000_0000_0000_0000) as i64
    }
}

/// A paste with its identifier, as the database keeps it.
#[derive(Debug, Clone, PartialEq, Eq)]
pub struct DbEntry {
    pub id: u64,
    pub data: Vec<u8>,
    pub file_name: Option<String>,
    pub mime_type: String,
    pub best_before: Option<i64>,
}

/// What a record holds.
pub struct DbEntryView {
    pub id: u64,
    pub paste: PasteView,
}

impl View for DbEntry {
    type V = DbEntryView;

    open spec fn view(&self) -> DbEntryView {
        DbEntryView {
            id: self.id,
            paste: PasteView {
                data: self.data@,
                file_name: match self.file_name {
                    Some(name) => Some(name@),
                    None => None,
                },
                mime_type: self.mime_type@,
                best_before: self.best_before,
            },
        }
    }
}

/// What is wrong with a named value, if anything: a name that is no field,
/// or a value of another kind than the field holds.
pub open spec fn offence(name: Seq<char>, value: ValueView) -> Option<DocumentErrorView> {
    match field_named(name) {
        None => Some(DocumentErrorView::UnknownField(name)),
        Some(field) => if value.kind() == field.spec_kind() {
            None
        } else {
            Some(
                DocumentErrorView::InvalidType {
                    field,
                    expected: field.spec_kind(),
                    got: value.kind(),
                },
            )
        },
    }
}

/// What is wrong with the first named value of a document that has
/// something wrong with it.
pub open spec fn first_offence(doc: DocumentView) -> Option<DocumentErrorView>
    decreases doc.len(),
{
    if doc.len() == 0 {
        None
    } else {
        match first_offence(doc.drop_last()) {
            Some(e) => Some(e),
            None => offence(doc.last().0, doc.last().1),
        }
    }
}

/// The value that a document holds for a field: that of the last entry
/// under the field's name.
pub open spec fn last_value(doc: DocumentView, field: Field) -> Option<ValueView>
    decreases doc.len(),
{
    if doc.len() == 0 {
        None
    } else if field_named(doc.last().0) == Some(field) {
        Some(doc.last().1)
    } else {
        last_value(doc.drop_last(), field)
    }
}

/// The record that a document holds. Every entry of the document has to be
/// a field of the record with a value of its kind, and the identifier, the
/// content and the MIME type have to be there.
pub open spec fn record_of(doc: DocumentView) -> Result<DbEntryView, DocumentErrorView> {
    match first_offence(doc) {
        Some(e) => Err(e),
        None => match last_value(doc, Field::Id) {
            None => Err(DocumentErrorView::ExpectedField(Field::Id)),
            Some(id) => match last_value(doc, Field::Data) {
                None => Err(DocumentErrorView::ExpectedField(Field::Data)),
                Some(data) => match last_value(doc, Field::MimeType) {
                    None => Err(DocumentErrorView::ExpectedField(Field::MimeType)),
                    Some(mime_type) => Ok(
                        DbEntryView {
                            id: unsigned_id(id->Int64_0),
                            paste: PasteView {
                                data: data->Binary_0,
                                file_name: match last_value(doc, Field::FileName) {
                                    Some(name) => Some(name->Text_0),
                                    None => None,
                                },
                                mime_type: mime_type->Text_0,
                                best_before: match last_value(doc, Field::BestBefore) {
                                    Some(at) => Some(at->DateTime_0),
                                    None => None,
                                },
                            },
                        },
                    ),
                },
            },
        },
    }
}

/// The file name that a document holds, where it is asked for that alone:
/// other entries are passed over, but a file name of another kind than
/// a string is an error.
pub open spec fn file_name_of(doc: DocumentView) -> Result<Option<Seq<char>>, DocumentErrorView>
    decreases doc.len(),
{
    if doc.len() == 0 {
        Ok(None)
    } else {
        match file_name_of(doc.drop_last()) {
            Err(e) => Err(e),
            Ok(before) => if field_named(doc.last().0) == Some(Field::FileName) {
                match doc.last().1 {
                    ValueView::Text(name) => Ok(Some(name)),
                    other => Err(
                        DocumentErrorView::InvalidType {
                            field: Field::FileName,
                            expected: Kind::Text,
                            got: other.kind(),
                        },
                    ),
                }
            } else {
                Ok(before)
            },
        }
    }
}

/// The document that holds a record: identifier, content and MIME type, and
/// then the file name and the expiry where the paste has them.
pub open spec fn document_of(entry: DbEntryView) -> DocumentView {
    let required = seq![
        (Field::Id.spec_name(), ValueView::Int64(signed_id(entry.id))),
        (Field::Data.spec_name(), ValueView::Binary(entry.paste.data)),
        (Field::MimeType.spec_name(), ValueView::Text(entry.paste.mime_type)),
    ];
    let named = match entry.paste.file_name {
        Some(name) => required.push((Field::FileName.spec_name(), ValueView::Text(name))),
        None => required,
    };
    match entry.paste.best_before {
        Some(at) => named.push((Field::BestBefore.spec_name(), ValueView::DateTime(at))),
        None => named,
    }
}

/// What is wrong with the beginning of a document is wrong with the whole.
pub proof fn lemma_first_offence_stays(doc: DocumentView, k: int)
    requires
        0 <= k <= doc.len(),
        first_offence(doc.take(k)) is Some,
    ensures
        first_offence(doc) == first_offence(doc.take(k)),
    decreases doc.len() - k,
{
    if k < doc.len() {
        assert(doc.take(k + 1).drop_last() =~= doc.take(k));
        lemma_first_offence_stays(doc, k + 1);
    } else {
        assert(doc.take(k) =~= doc);
    }
}

/// A file name of the wrong kind at the beginning of a document is one in
/// the whole.
pub proof fn lemma_file_name_error_stays(doc: DocumentView, k: int)
    requires
        0 <= k <= doc.len(),
        file_name_of(doc.take(k)) is Err,
    ensures
        file_name_of(doc) == file_name_of(doc.take(k)),
    decreases doc.len() - k,
{
    if k < doc.len() {
        assert(doc.take(k + 1).drop_last() =~= doc.take(k));
        lemma_file_name_error_stays(doc, k + 1);
    } else {
        assert(doc.take(k) =~= doc);
    }
}

impl DbEntry {
    /// The paste of the record.
    pub fn into_paste(self) -> (paste: PasteEntry)
        ensures
            paste@ == self@.paste,
    {
        PasteEntry {
            data: self.data,
            file_name: self.file_name,
            mime_type: self.mime_type,
            best_before: self.best_before,
        }
    }

    /// Writes the record as a document.
    pub fn into_document(self) -> (doc: Document)
        ensures
            document_view(doc) == document_of(self@),
    {
        let mut doc: Document = Vec::new();
        doc.push((String::from_str(Field::Id.name()), Value::Int64(id_to_stored(self.id))));
        doc.push((String::from_str(Field::Data.name()), Value::Binary(self.data)));
        doc.push((String::from_str(Field::MimeType.name()), Value::Text(self.mime_type)));
        if let Some(name) = self.file_name {
            doc.push((String::from_str(Field::FileName.name()), Value::Text(name)));
        }
        if let Some(at) = self.best_before {
            doc.push((String::from_str(Field::BestBefore.name()), Value::DateTime(at)));
        }
        assert(document_view(doc) =~= document_of(self@));
        doc
    }

    /// Reads a record from a document.
    pub fn from_document(doc: Document) -> (r: Result<DbEntry, DocumentError>)
        ensures
            match r {
                Ok(entry) => record_of(document_view(doc)) == Ok::<
                    DbEntryView,
                    DocumentErrorView,
                >(entry@),
                Err(e) => record_of(document_view(doc)) == Err::<DbEntryView, DocumentErrorView>(
                    e@,
                ),
            },
    {
        let mut id: Option<i64> = None;
        let mut data: Option<Vec<u8>> = None;
        let mut file_name: Option<String> = None;
        let mut mime_type: Option<String> = None;
        let mut best_before: Option<i64> = None;
        let ghost whole = document_view(doc);
        assert(whole.take(0).len() == 0);
        for pair in it: doc.into_iter()
            invariant
                it.seq() == doc@,
                whole == pairs_view(doc@),
                first_offence(whole.take(it.index() as int)) is None,
                last_value(whole.take(it.index() as int), Field::Id) == match id {
                    Some(n) => Some(ValueView::Int64(n)),
                    None => None,
                },
                last_value(whole.take(it.index() as int), Field::Data) == match data {
                    Some(bytes) => Some(ValueView::Binary(bytes@)),
                    None => None,
                },
                last_value(whole.take(it.index() as int), Field::MimeType) == match mime_type {
                    Some(text) => Some(ValueView::Text(text@)),
                    None => None,
                },
                last_value(whole.take(it.index() as int), Field::FileName) == match file_name {
                    Some(text) => Some(ValueView::Text(text@)),
                    None => None,
                },
                last_value(whole.take(it.index() as int), Field::BestBefore) == match best_before {
                    Some(at) => Some(ValueView::DateTime(at)),
                    None => None,
                },
        {
            let ghost k = it.index() as int;
            let ghost longer = whole.take(k + 1);
            proof {
                assert(longer.drop_last() =~= whole.take(k));
                assert(longer.last() == (pair.0@, pair.1@));
            }
            let (name, value) = pair;
            let field = match field_of(name.as_str()) {
                Some(field) => field,
                None => {
                    proof {
                        lemma_first_offence_stays(whole, k + 1);
                    }
                    return Err(DocumentError::UnknownField(name));
                },
            };
            match (field, value) {
                (Field::Id, Value::Int64(n)) => {
                    id = Some(n);
                },
                (Field::Data, Value::Binary(bytes)) => {
                    data = Some(bytes);
                },
                (Field::MimeType, Value::Text(text)) => {
                    mime_type = Some(text);
                },
                (Field::FileName, Value::Text(text)) => {
                    file_name = Some(text);
                },
                (Field::BestBefore, Value::DateTime(at)) => {
                    best_before = Some(at);
                },
                (field, value) => {
                    proof {
                        lemma_first_offence_stays(whole, k + 1);
                    }
                    return Err(
                        DocumentError::InvalidType {
                            field,
                            expected: field.kind(),
                            got: value.kind(),
                        },
                    );
                },
            }
        }
        proof {
            assert(whole.take(doc@.len() as int) =~= whole);
        }
        let id = match id {
            Some(n) => id_from_stored(n),
            None => {
                return Err(DocumentError::ExpectedField(Field::Id));
            },
        };
        let data = match data {
            Some(bytes) => bytes,
            None => {
                return Err(DocumentError::ExpectedField(Field::Data));
            },
        };
        let mime_type = match mime_type {
            Some(text) => text,
            None => {
                return Err(DocumentError::ExpectedField(Field::MimeType));
            },
        };
        Ok(DbEntry { id, data, file_name, mime_type, best_before })
    }
}

/// Reads from a document only the file name, if there is any.
pub fn file_name_from_document(doc: Document) -> (r: Result<Option<String>, DocumentError>)
    ensures
        match r {
            Ok(Some(name)) => file_name_of(document_view(doc)) == Ok::<
                Option<Seq<char>>,
                DocumentErrorView,
            >(Some(name@)),
            Ok(None) => file_name_of(document_view(doc)) == Ok::<
                Option<Seq<char>>,
                DocumentErrorView,
            >(None),
            Err(e) => file_name_of(document_view(doc)) == Err::<
                Option<Seq<char>>,
                DocumentErrorView,
            >(e@),
        },
{
    let mut file_name: Option<String> = None;
    let ghost whole = document_view(doc);
    assert(whole.take(0).len() == 0);
    for pair in it: doc.into_iter()
        invariant
            it.seq() == doc@,
            whole == pairs_view(doc@),
            file_name_of(whole.take(it.index() as int)) == Ok::<
                Option<Seq<char>>,
                DocumentErrorView,
            >(
                match file_name {
                    Some(name) => Some(name@),
                    None => None,
                },
            ),
    {
        let ghost k = it.index() as int;
        proof {
            assert(whole.take(k + 1).drop_last() =~= whole.take(k));
            assert(whole.take(k + 1).last() == (pair.0@, pair.1@));
        }
        let (name, value) = pair;
        if same_str(name.as_str(), Field::FileName.name()) {
            proof {
                lemma_field_names(Field::FileName);
            }
            match value {
                Value::Text(text) => {
                    file_name = Some(text);
                },
                other => {
                    proof {
                        lemma_file_name_error_stays(whole, k + 1);
                    }
                    return Err(
                        DocumentError::InvalidType {
                            field: Field::FileName,
                            expected: Kind::Text,
                            got: other.kind(),
                        },
                    );
                },
            }
        } else {
            proof {
                if field_named(name@) == Some(Field::FileName) {
                    lemma_name_of_field(name@, Field::FileName);
                }
            }
        }
    }
    proof {
        assert(whole.take(doc@.len() as int) =~= whole);
    }
    Ok(file_name)
}

/// Only the name of a field stands for the field.
pub proof fn lemma_name_of_field(name: Seq<char>, field: Field)
    requires
        field_named(name) == Some(field),
    ensures
        name == field.spec_name(),
{
}

/// A record written as a document is read back unchanged, and so is its
/// file name where that alone is read.
pub proof fn lemma_record_round_trip(entry: DbEntryView)
    ensures
        record_of(document_of(entry)) == Ok::<DbEntryView, DocumentErrorView>(entry),
        file_name_of(document_of(entry)) == Ok::<Option<Seq<char>>, DocumentErrorView>(
            entry.paste.file_name,
        ),
{
    lemma_field_names(Field::Id);
    lemma_field_names(Field::Data);
    lemma_field_names(Field::MimeType);
    lemma_field_names(Field::FileName);
    lemma_field_names(Field::BestBefore);
    reveal_with_fuel(first_offence, 6);
    reveal_with_fuel(last_value, 6);
    reveal_with_fuel(file_name_of, 6);
    let doc = document_of(entry);
    let required = seq![
        (Field::Id.spec_name(), ValueView::Int64(signed_id(entry.id))),
        (Field::Data.spec_name(), ValueView::Binary(entry.paste.data)),
        (Field::MimeType.spec_name(), ValueView::Text(entry.paste.mime_type)),
    ];
    assert(required.drop_last().drop_last().drop_last().len() == 0);
    assert(unsigned_id(signed_id(entry.id)) == entry.id);
    assert(first_offence(required) is None);
    assert(file_name_of(required) == Ok::<Option<Seq<char>>, DocumentErrorView>(None));
    match entry.paste.file_name {
        Some(name) => {
            let named = required.push((Field::FileName.spec_name(), ValueView::Text(name)));
            assert(named.drop_last() =~= required);
            match entry.paste.best_before {
                Some(at) => {
                    assert(doc.drop_last() =~= named);
                },
                None => {},
            }
        },
        None => {
            match entry.paste.best_before {
                Some(at) => {
                    assert(doc.drop_last() =~= required);
                },
                None => {},
            }
        },
    }
}

} // verus!
