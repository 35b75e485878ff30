//! A configuration document as plain values.
use vstd::prelude::*;
use crate::tables::{as_map, lookup};

verus! {

/// A value of a configuration document.
#[derive(Debug)]
pub struct Setting {
    /// The value as it would be written in a document.
    pub shown: String,
    pub content: Content,
}

/// What a value holds.
#[derive(Debug)]
pub enum Content {
    Text(String),
    Integer(i64),
    Boolean(bool),
    List(Vec<Setting>),
    /// The entries of a table, in the order of their keys.
    Table(Vec<(String, Setting)>),
    /// A number with a fraction, or a date.
    Other,
}

/// The entries of a table.
pub type Entries = Vec<(String, Setting)>;

/// [`Setting`] as a mathematical value.
pub struct SettingModel {
    pub shown: Seq<char>,
    pub content: ContentModel,
}

/// [`Content`] as a mathematical value.
pub enum ContentModel {
    Text(Seq<char>),
    Integer(i64),
    Boolean(bool),
    List(Seq<SettingModel>),
    Table(Seq<(Seq<char>, SettingModel)>),
    Other,
}

/// [`Entries`] as a mathematical value.
pub type EntriesModel = Seq<(Seq<char>, SettingModel)>;

impl Setting {
    pub open spec fn model(self) -> SettingModel
        decreases self,
    {
        SettingModel {
            shown: self.shown@,
            content: match self.content {
                Content::Text(text) => ContentModel::Text(text@),
                Content::Integer(n) => ContentModel::Integer(n),
                Content::Boolean(b) => ContentModel::Boolean(b),
                Content::List(items) => ContentModel::List(
                    Seq::new(
                        items@.len(),
                        |i: int|
                            if 0 <= i < items@.len() {
                                items@[i].model()
                            } else {
                                arbitrary()
                            },
                    ),
                ),
                Content::Table(entries) => ContentModel::Table(
                    Seq::new(
                        entries@.len(),
                        |i: int|
                            if 0 <= i < entries@.len() {
                                (entries@[i].0@, entries@[i].1.model())
                            } else {
                                arbitrary()
                            },
                    ),
                ),
                Content::Other => ContentModel::Other,
            },
        }
    }
}

impl DeepView for Setting {
    type V = SettingModel;

    open spec fn deep_view(&self) -> SettingModel {
        self.model()
    }
}

/// What `toml` reads in a document: its entries, or the text of its error.
pub uninterp spec fn toml_document(content: Seq<char>) -> Result<EntriesModel, Seq<char>>;

/// A document or the text of an error, as a mathematical value.
pub open spec fn document_result(r: Result<Entries, String>) -> Result<EntriesModel, Seq<char>> {
    match r {
        Ok(entries) => Ok(entries.deep_view()),
        Err(message) => Err(message@),
    }
}

/// `toml::Value`: a value of a document, as `toml` holds it.
#[verifier::external_type_specification]
#[verifier::external_body]
pub struct ExTomlValue(toml::Value);

/// `toml::Value` as a [`Setting`], one variant after the other. Numbers with a
/// fraction and dates keep only their written form.
#[verifier::external_body]
fn setting_of(value: &toml::Value) -> Setting {
    let content = match value {
        toml::Value::String(text) => Content::Text(text.clone()),
        toml::Value::Integer(n) => Content::Integer(*n),
        toml::Value::Boolean(b) => Content::Boolean(*b),
        toml::Value::Array(items) => Content::List(items.iter().map(setting_of).collect()),
        toml::Value::Table(table) => Content::Table(
            table.iter().map(|(key, value)| (key.clone(), setting_of(value))).collect(),
        ),
        toml::Value::Float(_) | toml::Value::Datetime(_) => Content::Other,
    };
    Setting { shown: value.to_string(), content }
}

/// `toml::Table`'s `FromStr`: the entries of a document, or why it is not one.
/// Which texts are documents, and what their errors say, is left to `toml`.
#[verifier::external_body]
pub(crate) fn read_document(content: &str) -> (r: Result<Entries, String>)
    ensures
        document_result(r) == toml_document(content@),
{
    match content.parse::<toml::Table>() {
        Ok(table) => Ok(
            table.iter().map(|(key, value)| (key.clone(), setting_of(value))).collect(),
        ),
        Err(e) => Err(e.to_string()),
    }
}

/// The value a table has for a key.
pub open spec fn entry(table: EntriesModel, key: Seq<char>) -> Option<SettingModel> {
    if as_map(table).contains_key(key) {
        Some(as_map(table)[key])
    } else {
        None
    }
}

/// The value a table has for a key.
pub fn get<'a>(table: &'a Entries, key: &str) -> (r: Option<&'a Setting>)
    ensures
        r.deep_view() == entry(table.deep_view(), key@),
{
    lookup(table, key)
}

impl Setting {
    /// The entries, where the value is a table.
    pub fn as_table(&self) -> (r: Option<&Entries>)
        ensures
            r.deep_view() == (match self.deep_view().content {
                ContentModel::Table(entries) => Some(entries),
                _ => None,
            }),
    {
        match &self.content {
            Content::Table(entries) => {
                assert(self.deep_view().content->Table_0 =~= entries.deep_view());
                Some(entries)
            },
            _ => None,
        }
    }

    /// The text, where the value is one.
    pub fn as_text(&self) -> (r: Option<&str>)
        ensures
            r.deep_view() == (match self.deep_view().content {
                ContentModel::Text(text) => Some(text),
                _ => None,
            }),
    {
        match &self.content {
            Content::Text(text) => Some(text.as_str()),
            _ => None,
        }
    }

    /// The items, where the value is a list.
    pub fn as_list(&self) -> (r: Option<&Vec<Setting>>)
        ensures
            r.deep_view() == (match self.deep_view().content {
                ContentModel::List(items) => Some(items),
                _ => None,
            }),
    {
        match &self.content {
            Content::List(items) => {
                assert(self.deep_view().content->List_0 =~= items.deep_view());
                Some(items)
            },
            _ => None,
        }
    }

    /// The truth value, where the value is one.
    pub fn as_bool(&self) -> (r: Option<bool>)
        ensures
            r == (match self.deep_view().content {
                ContentModel::Boolean(b) => Some(b),
                _ => None,
            }),
    {
        match &self.content {
            Content::Boolean(b) => Some(*b),
            _ => None,
        }
    }
}

} // verus!
