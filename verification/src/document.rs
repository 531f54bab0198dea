//! The persisted file as plain data: a list of records, each a list of named
//! fields, and the two calls into `serde_json` that turn bytes into such a
//! list and such a list into text.
//!
//! Nothing here knows about tasks. The file holds a JSON array of objects. Of
//! a field's value the record keeps a string as it is and of a number its
//! value, where that is an integer from 0 to `u64::MAX`; of any other value
//! it keeps only that it is there.

use vstd::prelude::*;
use serde_json::Value;

verus! {

/// The value of a field.
#[derive(Clone, Debug, PartialEq, Eq)]
pub enum Scalar {
    /// A JSON number, with its value where that is an integer from 0 to
    /// `u64::MAX`. A number without a value is written as `null`.
    Number(Option<u64>),
    /// A JSON string.
    Text(String),
    /// Any other JSON value: `null`, a boolean, an array or an object. It is
    /// written as `null`.
    Other,
}

/// A named field of a record.
#[derive(Clone, Debug, PartialEq, Eq)]
pub struct Field {
    pub name: String,
    pub value: Scalar,
}

/// A record: the fields of one JSON object, in the order of the file.
#[derive(Clone, Debug, PartialEq, Eq)]
pub struct Record {
    pub fields: Vec<Field>,
}

/// What a field's value is, as a mathematical value.
pub enum ScalarModel {
    Number(Option<u64>),
    Text(Seq<char>),
    Other,
}

/// What a field is, as a mathematical value.
pub struct FieldModel {
    pub name: Seq<char>,
    pub value: ScalarModel,
}

impl View for Scalar {
    type V = ScalarModel;

    open spec fn view(&self) -> ScalarModel {
        match self {
            Scalar::Number(n) => ScalarModel::Number(*n),
            Scalar::Text(s) => ScalarModel::Text(s@),
            Scalar::Other => ScalarModel::Other,
        }
    }
}

impl View for Field {
    type V = FieldModel;

    open spec fn view(&self) -> FieldModel {
        FieldModel { name: self.name@, value: self.value@ }
    }
}

impl View for Record {
    type V = Seq<FieldModel>;

    open spec fn view(&self) -> Seq<FieldModel> {
        self.fields@.map_values(|f: Field| f@)
    }
}

/// The models of a list of records, in order.
pub open spec fn document_model(records: Seq<Record>) -> Seq<Seq<FieldModel>> {
    records.map_values(|r: Record| r@)
}

#[verifier::external_type_specification]
#[verifier::external_body]
pub struct ExJsonError(serde_json::Error);

/// The records that `serde_json` reads from these bytes, or `None` where it
/// reports an error.
pub uninterp spec fn parsed_document(bytes: Seq<u8>) -> Option<Seq<Seq<FieldModel>>>;

/// The text that `serde_json` writes for these records, or `None` where it
/// reports an error.
pub uninterp spec fn rendered_document(document: Seq<Seq<FieldModel>>) -> Option<Seq<char>>;

/// Calls `serde_json::from_slice` to read the bytes as a JSON array of
/// objects, and hands each object over as a record: each entry of the
/// object, in its order, with its key as the name and what `Scalar` keeps of
/// its value.
///
/// The contract is not proved. It claims that what the call returns depends
/// on the bytes alone, and gives that answer the name `parsed_document`. It
/// says nothing of which bytes are accepted. The objects are
/// `serde_json::Map`s, which are built with `preserve_order` and so keep
/// their entries in the order of the file, whatever their hasher.
#[verifier::external_body]
pub(crate) fn parse_document(bytes: &[u8]) -> (res: Result<Vec<Record>, serde_json::Error>)
    ensures
        match res {
            Ok(document) => parsed_document(bytes@) == Some(document_model(document@)),
            Err(_) => parsed_document(bytes@) is None,
        },
{
    let rows: Vec<serde_json::Map<String, Value>> = serde_json::from_slice(bytes)?;
    Ok(rows.into_iter().map(|row| Record {
        fields: row.into_iter().map(|(name, value)| Field {
            name,
            value: match value {
                Value::Number(n) => Scalar::Number(n.as_u64()),
                Value::String(s) => Scalar::Text(s),
                Value::Null | Value::Bool(_) | Value::Array(_) | Value::Object(_) => Scalar::Other,
            },
        }).collect(),
    }).collect())
}

/// Calls `serde_json::to_string_pretty` on the JSON array that has one
/// object for each record, with the record's fields as its entries.
///
/// The contract is not proved. It claims that what the call returns depends
/// on the records alone, and gives that answer the name `rendered_document`.
/// It says nothing of how the text looks.
#[verifier::external_body]
pub(crate) fn render_document(document: &Vec<Record>) -> (res: Result<String, serde_json::Error>)
    ensures
        match res {
            Ok(text) => rendered_document(document_model(document@)) == Some(text@),
            Err(_) => rendered_document(document_model(document@)) is None,
        },
{
    let rows: Vec<Value> = document.iter().map(|record| Value::Object(
        record.fields.iter().map(|field| (field.name.clone(), match &field.value {
            Scalar::Number(n) => Value::from(*n),
            Scalar::Text(s) => Value::from(s.as_str()),
            Scalar::Other => Value::Null,
        })).collect(),
    )).collect();
    serde_json::to_string_pretty(&rows)
}

} // verus!
