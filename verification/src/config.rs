//! Configuration values and the decoders that read strings, paths and sets
//! of strings out of them, and a small table of lines from which a section
//! of a manifest is written.

use crate::error::{decoded, decoded_list, Error};
use crate::paths::{join, joined};
use crate::strset::{first_seen, insert_unique, lemma_first_seen, lemma_first_seen_push};
use crate::text::{join3, owned, str_eq, views};
use ::toml::Table as Document;
use ::toml::Value as Node;
use ::toml::de::Error as SyntaxError;
use vstd::prelude::*;

verus! {

/// A value of the configuration language. A table keeps its entries in the
/// order in which they were given; a key is looked up from the front.
#[derive(Debug)]
pub enum Value {
    String(String),
    Integer(i64),
    /// A floating-point number, kept as it was written.
    Float(String),
    Boolean(bool),
    /// A date or time, kept as it was written.
    Datetime(String),
    Array(Vec<Value>),
    Table(Vec<(String, Value)>),
}

/// A value as the parser of the configuration language gives it. It is
/// taken apart once, on the way in.
#[verifier::external_type_specification]
#[verifier::external_body]
pub struct ExNode(Node);

/// The table that `text` holds, read as a document of the configuration
/// language by `str::parse` to a `toml::Table`; none where the parser
/// rejects the text. The entries of a table stand in the order in which
/// the parser's table gives them.
pub uninterp spec fn parsed(text: Seq<char>) -> Option<Value>;

/// Takes a `toml::Value` apart, variant by variant: a float and a date
/// become their text as `to_string` writes it, an array its items and a
/// table its entries, in the order in which `iter` gives them.
#[verifier::external_body]
fn imported(node: &Node) -> Value {
    match node {
        Node::String(s) => Value::String(s.clone()),
        Node::Integer(i) => Value::Integer(*i),
        Node::Float(f) => Value::Float(f.to_string()),
        Node::Boolean(b) => Value::Boolean(*b),
        Node::Datetime(d) => Value::Datetime(d.to_string()),
        Node::Array(xs) => Value::Array(xs.iter().map(imported).collect()),
        Node::Table(t) => Value::Table(t.iter().map(|(k, v)| (k.clone(), imported(v))).collect()),
    }
}

/// `str::parse` to a `toml::Table`: the table that the text holds, or the
/// parser's error.
#[verifier::external_body]
fn parse_document(text: &str) -> (r: Result<Value, SyntaxError>)
    ensures
        match parsed(text@) {
            Some(table) => r == Ok::<Value, SyntaxError>(table),
            None => r is Err,
        },
{
    text.parse::<Document>().map(|t| imported(&Node::Table(t)))
}

/// Reads a text as a document of the configuration language.
pub fn parse(text: &str) -> (r: Result<Value, Error>)
    ensures
        match parsed(text@) {
            Some(table) => r == Ok::<Value, Error>(table),
            None => r matches Err(Error::Toml(_)),
        },
{
    match parse_document(text) {
        Ok(table) => Ok(table),
        Err(e) => Err(Error::Toml(e)),
    }
}

/// The position of the first entry of `entries` whose key is `key`.
pub open spec fn position_of(entries: Seq<(String, Value)>, key: Seq<char>) -> Option<int>
    decreases entries.len(),
{
    if entries.len() == 0 {
        None
    } else if entries[0].0@ == key {
        Some(0)
    } else {
        match position_of(entries.drop_first(), key) {
            Some(i) => Some(i + 1),
            None => None,
        }
    }
}

/// The value that `entries` gives to `key`.
pub open spec fn lookup(entries: Seq<(String, Value)>, key: Seq<char>) -> Option<Value> {
    match position_of(entries, key) {
        Some(i) => Some(entries[i].1),
        None => None,
    }
}

proof fn lemma_position_of(entries: Seq<(String, Value)>, key: Seq<char>, k: int)
    requires
        0 <= k <= entries.len(),
        forall|j: int| 0 <= j < k ==> entries[j].0@ != key,
        k < entries.len() ==> entries[k].0@ == key,
    ensures
        position_of(entries, key) == if k < entries.len() {
            Some(k)
        } else {
            None
        },
    decreases k,
{
    if k > 0 {
        lemma_position_of(entries.drop_first(), key, k - 1);
    }
}

/// The entry of `entries` under `key`, if there is one.
pub fn table_get<'a>(entries: &'a Vec<(String, Value)>, key: &str) -> (r: Option<&'a Value>)
    ensures
        r is Some <==> lookup(entries@, key@) is Some,
        r matches Some(v) ==> lookup(entries@, key@) == Some(*v),
{
    let mut i: usize = 0;
    while i < entries.len()
        invariant
            i <= entries@.len(),
            forall|j: int| 0 <= j < i ==> entries@[j].0@ != key@,
        decreases entries@.len() - i,
    {
        if str_eq(entries[i].0.as_str(), key) {
            proof {
                lemma_position_of(entries@, key@, i as int);
            }
            return Some(&entries[i].1);
        }
        i += 1;
    }
    proof {
        lemma_position_of(entries@, key@, i as int);
    }
    None
}

impl Value {
    /// The value under `key`, where `self` is a table that holds it.
    pub open spec fn field(&self, key: Seq<char>) -> Option<Value> {
        match self {
            Value::Table(entries) => lookup(entries@, key),
            _ => None,
        }
    }

    /// The text of a string value.
    pub fn as_str(&self) -> (r: Option<&str>)
        ensures
            match *self {
                Value::String(s) => r matches Some(t) && t@ == s@,
                _ => r is None,
            },
    {
        match self {
            Value::String(s) => Some(s.as_str()),
            _ => None,
        }
    }

    /// The number of an integer value.
    pub fn as_integer(&self) -> (r: Option<i64>)
        ensures
            match *self {
                Value::Integer(i) => r == Some(i),
                _ => r is None,
            },
    {
        match self {
            Value::Integer(i) => Some(*i),
            _ => None,
        }
    }

    /// The truth value of a boolean value.
    pub fn as_bool(&self) -> (r: Option<bool>)
        ensures
            match *self {
                Value::Boolean(b) => r == Some(b),
                _ => r is None,
            },
    {
        match self {
            Value::Boolean(b) => Some(*b),
            _ => None,
        }
    }

    /// The items of an array.
    pub fn as_array(&self) -> (r: Option<&Vec<Value>>)
        ensures
            match *self {
                Value::Array(xs) => r == Some(&xs),
                _ => r is None,
            },
    {
        match self {
            Value::Array(xs) => Some(xs),
            _ => None,
        }
    }

    /// The entries of a table.
    pub fn as_table(&self) -> (r: Option<&Vec<(String, Value)>>)
        ensures
            match *self {
                Value::Table(entries) => r == Some(&entries),
                _ => r is None,
            },
    {
        match self {
            Value::Table(entries) => Some(entries),
            _ => None,
        }
    }

    /// The value under `key` of a table.
    pub fn get(&self, key: &str) -> (r: Option<&Value>)
        ensures
            r is Some <==> self.field(key@) is Some,
            r matches Some(v) ==> self.field(key@) == Some(*v),
    {
        match self {
            Value::Table(entries) => table_get(entries, key),
            _ => None,
        }
    }
}

/// What a value decodes to as a string: its text, or the message of the
/// error. `key` names the value in the message.
pub open spec fn string_value(value: Value, key: Seq<char>) -> Result<Seq<char>, Seq<char>> {
    match value {
        Value::String(s) => Ok(s@),
        _ => Err("Value of '"@ + key + "' expected to be a string"@),
    }
}

/// Decodes a string. `key` names the value in the error message.
pub fn decode_string(value: &Value, key: &str) -> (r: Result<String, Error>)
    ensures
        decoded(r, string_value(*value, key@)),
{
    match value.as_str() {
        Some(s) => Ok(owned(s)),
        None => Err(Error::Parsing(join3("Value of '", key, "' expected to be a string"))),
    }
}

/// The path that the text `s` stands for: `s` itself, or `s` adjoined to
/// the base directory where one is given.
pub open spec fn path_under(base_dir: Option<Seq<char>>, s: Seq<char>) -> Seq<char> {
    match base_dir {
        Some(base) => joined(base, s),
        None => s,
    }
}

/// What a value decodes to as a path: the path, or the message of the
/// error.
pub open spec fn path_value(value: Value, base_dir: Option<Seq<char>>, key: Seq<char>) -> Result<
    Seq<char>,
    Seq<char>,
> {
    match value {
        Value::String(s) => Ok(path_under(base_dir, s@)),
        _ => Err("Value of '"@ + key + "' is expected to be a string"@),
    }
}

/// The view of an optional base directory.
pub open spec fn base_view(base_dir: Option<&str>) -> Option<Seq<char>> {
    match base_dir {
        Some(base) => Some(base@),
        None => None,
    }
}

/// Decodes a path, relative to `base_dir` where one is given. `key` names
/// the value in the error message.
pub fn decode_pathbuf(value: &Value, base_dir: Option<&str>, key: &str) -> (r: Result<
    String,
    Error,
>)
    ensures
        decoded(r, path_value(*value, base_view(base_dir), key@)),
{
    match value.as_str() {
        Some(s) => match base_dir {
            Some(base) => Ok(join(base, s)),
            None => Ok(owned(s)),
        },
        None => Err(Error::Parsing(join3("Value of '", key, "' is expected to be a string"))),
    }
}

/// Every item is a string.
pub open spec fn all_strings(items: Seq<Value>) -> bool {
    forall|i: int| 0 <= i < items.len() ==> (#[trigger] items[i]) is String
}

/// The texts of the items that are strings; the empty text stands for any
/// other item.
pub open spec fn texts(items: Seq<Value>) -> Seq<Seq<char>> {
    items.map_values(
        |v: Value|
            match v {
                Value::String(s) => s@,
                _ => Seq::empty(),
            },
    )
}

/// What a value decodes to as a set of strings: each string of the array
/// once, in the order of first occurrence, or the message of the error.
pub open spec fn strset_value(value: Value, key: Seq<char>) -> Result<Seq<Seq<char>>, Seq<char>> {
    match value {
        Value::Array(items) => if all_strings(items@) {
            Ok(first_seen(texts(items@)))
        } else {
            Err("Value of '"@ + key + "' is expected to be array of strings"@)
        },
        _ => Err("Value of '"@ + key + "' is expected to be an array of strings"@),
    }
}

/// Decodes an array of strings into a set. `key` names the value in the
/// error message.
pub fn decode_strset(value: &Value, key: &str) -> (r: Result<Vec<String>, Error>)
    ensures
        decoded_list(r, strset_value(*value, key@)),
        r matches Ok(set) ==> views(set@).no_duplicates(),
{
    match value.as_array() {
        Some(items) => {
            let mut set: Vec<String> = Vec::new();
            let mut i: usize = 0;
            assert(texts(items@).take(0) =~= Seq::<Seq<char>>::empty());
            while i < items.len()
                invariant
                    *value == Value::Array(*items),
                    i <= items@.len(),
                    forall|j: int| 0 <= j < i ==> (#[trigger] items@[j]) is String,
                    views(set@) == first_seen(texts(items@).take(i as int)),
                decreases items@.len() - i,
            {
                match items[i].as_str() {
                    Some(s) => {
                        proof {
                            assert(texts(items@).take(i + 1) =~= texts(items@).take(i as int).push(
                                s@,
                            ));
                            lemma_first_seen_push(texts(items@).take(i as int), s@);
                        }
                        insert_unique(&mut set, owned(s));
                    },
                    None => {
                        assert(!(items@[i as int] is String));
                        return Err(
                            Error::Parsing(
                                join3("Value of '", key, "' is expected to be array of strings"),
                            ),
                        );
                    },
                }
                i += 1;
            }
            assert(texts(items@).take(items@.len() as int) =~= texts(items@));
            proof {
                lemma_first_seen(texts(items@));
            }
            Ok(set)
        },
        None => Err(
            Error::Parsing(join3("Value of '", key, "' is expected to be an array of strings")),
        ),
    }
}

/// What the entry `name` of a table decodes to as a string; `missing` is
/// the message where the table has no such entry.
pub open spec fn required_string_value(
    entries: Seq<(String, Value)>,
    name: Seq<char>,
    missing: Seq<char>,
    key: Seq<char>,
) -> Result<Seq<char>, Seq<char>> {
    match lookup(entries, name) {
        Some(v) => string_value(v, key),
        None => Err(missing),
    }
}

/// Decodes the entry `name` of a table, which must be there, as a string.
pub fn required_string(entries: &Vec<(String, Value)>, name: &str, missing: &str, key: &str) -> (r:
    Result<String, Error>)
    ensures
        decoded(r, required_string_value(entries@, name@, missing@, key@)),
{
    match table_get(entries, name) {
        Some(v) => decode_string(v, key),
        None => Err(Error::Parsing(owned(missing))),
    }
}

/// What the entry `name` of a table decodes to as a path; `missing` is the
/// message where the table has no such entry.
pub open spec fn required_path_value(
    entries: Seq<(String, Value)>,
    name: Seq<char>,
    base_dir: Option<Seq<char>>,
    missing: Seq<char>,
    key: Seq<char>,
) -> Result<Seq<char>, Seq<char>> {
    match lookup(entries, name) {
        Some(v) => path_value(v, base_dir, key),
        None => Err(missing),
    }
}

/// Decodes the entry `name` of a table, which must be there, as a path.
pub fn required_path(
    entries: &Vec<(String, Value)>,
    name: &str,
    base_dir: Option<&str>,
    missing: &str,
    key: &str,
) -> (r: Result<String, Error>)
    ensures
        decoded(r, required_path_value(entries@, name@, base_view(base_dir), missing@, key@)),
{
    match table_get(entries, name) {
        Some(v) => decode_pathbuf(v, base_dir, key),
        None => Err(Error::Parsing(owned(missing))),
    }
}

/// What the entry `name` of a table decodes to as a set of strings: the
/// empty set where the table has no such entry.
pub open spec fn optional_strset_value(
    entries: Seq<(String, Value)>,
    name: Seq<char>,
    key: Seq<char>,
) -> Result<Seq<Seq<char>>, Seq<char>> {
    match lookup(entries, name) {
        Some(v) => strset_value(v, key),
        None => Ok(Seq::empty()),
    }
}

/// Decodes the entry `name` of a table, if it is there, as a set of
/// strings.
pub fn optional_strset(entries: &Vec<(String, Value)>, name: &str, key: &str) -> (r: Result<
    Vec<String>,
    Error,
>)
    ensures
        decoded_list(r, optional_strset_value(entries@, name@, key@)),
        r matches Ok(set) ==> views(set@).no_duplicates(),
{
    match table_get(entries, name) {
        Some(v) => decode_strset(v, key),
        None => {
            let set: Vec<String> = Vec::new();
            assert(views(set@) =~= Seq::<Seq<char>>::empty());
            Ok(set)
        },
    }
}

/// One line of a table that is written out: an entry or a comment.
#[derive(Debug)]
pub enum SerializableTomlTableLine {
    Entry(String, Value),
    Comment(String),
}

/// A line as plain values: an entry with its key and its string, integer
/// or boolean, an entry with a value of another kind, or a comment.
pub ghost enum LineView {
    Text(Seq<char>, Seq<char>),
    Integer(Seq<char>, i64),
    Boolean(Seq<char>, bool),
    Other(Seq<char>),
    Comment(Seq<char>),
}

impl View for SerializableTomlTableLine {
    type V = LineView;

    open spec fn view(&self) -> LineView {
        match *self {
            SerializableTomlTableLine::Entry(k, Value::String(v)) => LineView::Text(k@, v@),
            SerializableTomlTableLine::Entry(k, Value::Integer(v)) => LineView::Integer(k@, v),
            SerializableTomlTableLine::Entry(k, Value::Boolean(v)) => LineView::Boolean(k@, v),
            SerializableTomlTableLine::Entry(k, _) => LineView::Other(k@),
            SerializableTomlTableLine::Comment(m) => LineView::Comment(m@),
        }
    }
}

/// A named table, as a list of entries and comments in the order in which
/// they will be written.
#[derive(Debug)]
pub struct SerializableTomlTable {
    pub key_path: String,
    pub lines: Vec<SerializableTomlTableLine>,
}

impl SerializableTomlTable {
    /// The lines as plain values.
    pub open spec fn line_views(&self) -> Seq<LineView> {
        self.lines@.map_values(|line: SerializableTomlTableLine| line@)
    }

    /// An empty table under `key_path`.
    pub fn new(key_path: &str) -> (t: Self)
        ensures
            t.key_path@ == key_path@,
            t.line_views() == Seq::<LineView>::empty(),
    {
        let t = Self { key_path: owned(key_path), lines: Vec::new() };
        assert(t.line_views() =~= Seq::<LineView>::empty());
        t
    }

    /// Appends the entry `key = value`, the value being a string.
    pub fn push_entry_string(&mut self, key: &str, value: &str)
        ensures
            final(self).key_path == old(self).key_path,
            final(self).line_views() == old(self).line_views().push(LineView::Text(key@, value@)),
    {
        let entry = SerializableTomlTableLine::Entry(owned(key), Value::String(owned(value)));
        self.lines.push(entry);
        assert(self.line_views() =~= old(self).line_views().push(LineView::Text(key@, value@)));
    }

    /// Appends the entry `key = value`, the value being an integer.
    pub fn push_entry_i64(&mut self, key: &str, value: i64)
        ensures
            final(self).key_path == old(self).key_path,
            final(self).line_views() == old(self).line_views().push(LineView::Integer(key@, value)),
    {
        let entry = SerializableTomlTableLine::Entry(owned(key), Value::Integer(value));
        self.lines.push(entry);
        assert(self.line_views() =~= old(self).line_views().push(LineView::Integer(key@, value)));
    }

    /// Appends the entry `key = value`, the value being a boolean.
    pub fn push_entry_bool(&mut self, key: &str, value: bool)
        ensures
            final(self).key_path == old(self).key_path,
            final(self).line_views() == old(self).line_views().push(LineView::Boolean(key@, value)),
    {
        let entry = SerializableTomlTableLine::Entry(owned(key), Value::Boolean(value));
        self.lines.push(entry);
        assert(self.line_views() =~= old(self).line_views().push(LineView::Boolean(key@, value)));
    }

    /// Appends a comment line.
    pub fn push_comment(&mut self, msg: &str)
        ensures
            final(self).key_path == old(self).key_path,
            final(self).line_views() == old(self).line_views().push(LineView::Comment(msg@)),
    {
        let comment = SerializableTomlTableLine::Comment(owned(msg));
        self.lines.push(comment);
        assert(self.line_views() =~= old(self).line_views().push(LineView::Comment(msg@)));
    }
}

} // verus!
