//! Flat TOML documents: the top-level keys of a document with their values.

use crate::text::same_text;
use vstd::prelude::*;

verus! {

/// A value that this library writes to a document and reads from one.
#[derive(Debug, PartialEq, Eq)]
pub enum Field {
    /// A string.
    Text(String),
    /// An integer.
    Integer(i64),
}

/// What a [`Field`] holds, as mathematical values.
pub enum FieldView {
    Text(Seq<char>),
    Integer(i64),
}

impl View for Field {
    type V = FieldView;

    open spec fn view(&self) -> FieldView {
        match self {
            Field::Text(text) => FieldView::Text(text@),
            Field::Integer(number) => FieldView::Integer(*number),
        }
    }
}

/// A document as it is read: each top-level key with its value, which is
/// none where the value is of a kind other than string and integer.
pub type ReadView = Seq<(Seq<char>, Option<FieldView>)>;

/// A document as it is written: each key with its value.
pub type WrittenView = Seq<(Seq<char>, FieldView)>;

/// The view of a document that was read.
pub open spec fn read_view(document: Seq<(String, Option<Field>)>) -> ReadView {
    Seq::new(
        document.len(),
        |i: int|
            (
                document[i].0@,
                match document[i].1 {
                    Some(field) => Some(field@),
                    None => None,
                },
            ),
    )
}

/// The view of a document that is to be written.
pub open spec fn written_view(document: Seq<(String, Field)>) -> WrittenView {
    Seq::new(document.len(), |i: int| (document[i].0@, document[i].1@))
}

/// What a document that was read holds under `key`: nothing where no entry
/// has that key, else the value of the first such entry.
pub open spec fn field_of(document: ReadView, key: Seq<char>) -> Option<Option<FieldView>>
    decreases document.len(),
{
    if document.len() == 0 {
        None
    } else if document[0].0 == key {
        Some(document[0].1)
    } else {
        field_of(document.drop_first(), key)
    }
}

/// The top-level entries of the TOML document `text`, in the order in which
/// its table is walked; none where `text` is no TOML document.
pub uninterp spec fn parsed_document(text: Seq<char>) -> Option<ReadView>;

/// The TOML text of a document; none where it cannot be written.
pub uninterp spec fn rendered_document(document: WrittenView) -> Option<Seq<char>>;

#[verifier::external_type_specification]
#[verifier::external_body]
pub struct ExDeError(toml::de::Error);

#[verifier::external_type_specification]
#[verifier::external_body]
pub struct ExSerError(toml::ser::Error);

/// Parses `text` into a `toml::Table` and hands out its entries, each value
/// by its variant. The result depends on the text alone; the contract gives
/// it its name and claims nothing of what a given text parses to.
#[verifier::external_body]
pub(crate) fn parse_document(text: &str) -> (parsed: Result<
    Vec<(String, Option<Field>)>,
    toml::de::Error,
>)
    ensures
        match parsed {
            Ok(document) => parsed_document(text@) == Some(read_view(document@)),
            Err(_) => parsed_document(text@) is None,
        },
{
    let table = text.parse::<toml::Table>()?;
    let mut document = Vec::new();
    for (key, value) in table {
        let field = match value {
            toml::Value::String(text) => Some(Field::Text(text)),
            toml::Value::Integer(number) => Some(Field::Integer(number)),
            toml::Value::Float(_) => None,
            toml::Value::Boolean(_) => None,
            toml::Value::Datetime(_) => None,
            toml::Value::Array(_) => None,
            toml::Value::Table(_) => None,
        };
        document.push((key, field));
    }
    Ok(document)
}

/// Fills a `toml::Table` with the entries and writes it with
/// `toml::to_string_pretty`. The result depends on the entries alone; the
/// contract gives it its name and claims nothing of the text.
#[verifier::external_body]
pub(crate) fn render_document(document: &Vec<(String, Field)>) -> (rendered: Result<
    String,
    toml::ser::Error,
>)
    ensures
        match rendered {
            Ok(text) => rendered_document(written_view(document@)) == Some(text@),
            Err(_) => rendered_document(written_view(document@)) is None,
        },
{
    let mut table = toml::Table::new();
    for (key, field) in document {
        let value = match field {
            Field::Text(text) => toml::Value::String(text.clone()),
            Field::Integer(number) => toml::Value::Integer(*number),
        };
        table.insert(key.clone(), value);
    }
    toml::to_string_pretty(&table)
}

/// The message of a parse error, as `toml::de::Error` displays it.
#[verifier::external_body]
pub(crate) fn parse_error_message(error: &toml::de::Error) -> (message: String) {
    error.to_string()
}

/// The message of a write error, as `toml::ser::Error` displays it.
#[verifier::external_body]
pub(crate) fn render_error_message(error: &toml::ser::Error) -> (message: String) {
    error.to_string()
}

/// Looks a key up in a document that was read.
pub fn find_field<'a>(document: &'a Vec<(String, Option<Field>)>, key: &str) -> (found: Option<
    &'a Option<Field>,
>)
    ensures
        match found {
            Some(field) => field_of(read_view(document@), key@) == Some(
                match *field {
                    Some(f) => Some(f@),
                    None => None,
                },
            ),
            None => field_of(read_view(document@), key@) is None,
        },
{
    let ghost all = read_view(document@);
    let mut i: usize = 0;
    proof {
        assert(all.skip(0) =~= all);
    }
    while i < document.len()
        invariant
            i <= document@.len(),
            all == read_view(document@),
            field_of(all, key@) == field_of(all.skip(i as int), key@),
        decreases document@.len() - i,
    {
        proof {
            let rest = all.skip(i as int);
            assert(rest[0] == all[i as int]);
            assert(rest.drop_first() =~= all.skip(i + 1));
        }
        if same_text(document[i].0.as_str(), key) {
            return Some(&document[i].1);
        }
        i += 1;
    }
    None
}

} // verus!
