//! The built-in formatter, the `sqlformat` crate.

use crate::config::{lookup, table_get, LineView, SerializableTomlTable, Value};
use crate::error::Error;
use crate::formatters::config::Configurable;
use crate::text::owned;
use sqlformat::{FormatOptions, Indent, QueryParams};
use vstd::prelude::*;
use vstd::string::{StrSliceExecFns, StringSliceAdditionalSpecFns};

verus! {

/// The options of the built-in formatter.
#[derive(Debug, Clone, Copy, PartialEq, Eq, Structural)]
pub struct SqlFormat {
    /// The number of spaces of one indentation.
    pub indent: u8,
    /// Whether reserved words are written in capitals.
    pub uppercase: bool,
    /// The number of line breaks after a query.
    pub lines_between_queries: u8,
}

/// The text that `sqlformat::format` makes of `sql` without parameters,
/// indenting by `indent` spaces.
pub uninterp spec fn formatted(
    sql: Seq<char>,
    indent: u8,
    uppercase: bool,
    lines_between_queries: u8,
) -> Seq<char>;

/// `sqlformat::format`, without parameters and with an indentation of
/// spaces.
#[verifier::external_body]
fn format_sql(sql: &str, indent: u8, uppercase: bool, lines_between_queries: u8) -> (r: String)
    ensures
        r@ == formatted(sql@, indent, uppercase, lines_between_queries),
{
    let options = FormatOptions { indent: Indent::Spaces(indent), uppercase, lines_between_queries };
    sqlformat::format(sql, &QueryParams::None, options)
}

/// The options that the formatter has where the manifest gives none: four
/// spaces, capitals, one line break.
pub open spec fn default_options() -> SqlFormat {
    SqlFormat { indent: 4, uppercase: true, lines_between_queries: 1 }
}

/// An integer of the manifest as a small number: its last eight bits.
pub open spec fn low_byte(i: i64) -> u8 {
    ((i as int) % 256) as u8
}

/// The entry `name` as a small number, or `default` where the table has no
/// integer under that name.
pub open spec fn byte_entry(entries: Seq<(String, Value)>, name: Seq<char>, default: u8) -> u8 {
    match lookup(entries, name) {
        Some(Value::Integer(i)) => low_byte(i),
        _ => default,
    }
}

/// The entry `name` as a truth value, or `default` where the table has no
/// boolean under that name.
pub open spec fn bool_entry(entries: Seq<(String, Value)>, name: Seq<char>, default: bool) -> bool {
    match lookup(entries, name) {
        Some(Value::Boolean(b)) => b,
        _ => default,
    }
}

/// What the value of the key `formatter.sqlformat-rs` stands for: the
/// default options with those that the table gives in their place, or the
/// message of the error.
pub open spec fn sqlformat_value(value: Value) -> Result<SqlFormat, Seq<char>> {
    match value {
        Value::Table(entries) => Ok(
            SqlFormat {
                indent: byte_entry(entries@, "indent"@, 4),
                uppercase: bool_entry(entries@, "uppercase"@, true),
                lines_between_queries: byte_entry(entries@, "lines_between_queries"@, 1),
            },
        ),
        _ => Err("Value of 'formatter.sqlformat-rs' must be a toml table"@),
    }
}

/// What the formatter makes of `sql`, as bytes.
pub open spec fn formatted_bytes(f: SqlFormat, sql: Seq<char>) -> Seq<u8> {
    vstd::utf8::encode_utf8(formatted(sql, f.indent, f.uppercase, f.lines_between_queries))
}

/// The last eight bits of `i`.
fn to_byte(i: i64) -> (r: u8)
    ensures
        r == low_byte(i),
{
    if i >= 0 {
        (i % 256) as u8
    } else {
        let m: i64 = -(i + 1);
        let low: i64 = 255 - (m % 256);
        assert(low == (i as int) % 256) by {
            assert((i as int) == -(m as int) - 1);
            assert((m as int) == 256 * ((m as int) / 256) + (m as int) % 256);
            assert((i as int) == 256 * (-((m as int) / 256) - 1) + (255 - (m as int) % 256));
            vstd::arithmetic::div_mod::lemma_fundamental_div_mod_converse(
                i as int,
                256,
                -((m as int) / 256) - 1,
                255 - (m as int) % 256,
            );
        }
        low as u8
    }
}

/// The lines of the formatter's section of a manifest: the default
/// options, each under a comment.
pub open spec fn default_section() -> Seq<LineView> {
    seq![
        LineView::Comment("(optional) No. of spaces to indent by"@),
        LineView::Integer("indent"@, 4),
        LineView::Comment("(optional) Use ALL CAPS for reserved keywords"@),
        LineView::Boolean("uppercase"@, true),
        LineView::Comment("(optional) No. of line breaks after a query"@),
        LineView::Integer("lines_between_queries"@, 1),
    ]
}

impl Default for SqlFormat {
    /// The formatter with its default options.
    fn default() -> (r: Self)
        ensures
            r == default_options(),
    {
        Self { indent: 4, uppercase: true, lines_between_queries: 1 }
    }
}

impl SqlFormat {
    /// Decodes the value of the key `formatter.sqlformat-rs`.
    pub fn try_from(value: &Value) -> (r: Result<Self, Error>)
        ensures
            match sqlformat_value(*value) {
                Ok(f) => r matches Ok(g) && g == f,
                Err(msg) => r matches Err(Error::Parsing(m)) && m@ == msg,
            },
    {
        match value.as_table() {
            Some(entries) => {
                let mut options = Self::default();
                match table_get(entries, "indent") {
                    Some(v) => match v.as_integer() {
                        Some(i) => options.indent = to_byte(i),
                        None => {},
                    },
                    None => {},
                }
                match table_get(entries, "uppercase") {
                    Some(v) => match v.as_bool() {
                        Some(b) => options.uppercase = b,
                        None => {},
                    },
                    None => {},
                }
                match table_get(entries, "lines_between_queries") {
                    Some(v) => match v.as_integer() {
                        Some(n) => options.lines_between_queries = to_byte(n),
                        None => {},
                    },
                    None => {},
                }
                Ok(options)
            },
            None => Err(
                Error::Parsing(owned("Value of 'formatter.sqlformat-rs' must be a toml table")),
            ),
        }
    }

    /// `sql`, formatted.
    pub fn format(&self, sql: &str) -> (r: Vec<u8>)
        ensures
            r@ == formatted_bytes(*self, sql@),
    {
        let text = format_sql(sql, self.indent, self.uppercase, self.lines_between_queries);
        text.as_str().as_bytes_vec()
    }
}

impl Configurable for SqlFormat {
    open spec fn section_key(&self) -> Seq<char> {
        "formatter.sqlformat-rs"@
    }

    open spec fn section(&self) -> Seq<LineView> {
        default_section()
    }

    open spec fn config_path(&self) -> Option<Seq<char>> {
        None
    }

    fn to_toml_table(&self) -> (t: SerializableTomlTable) {
        let mut t = SerializableTomlTable::new("formatter.sqlformat-rs");
        t.push_comment("(optional) No. of spaces to indent by");
        t.push_entry_i64("indent", 4);
        t.push_comment("(optional) Use ALL CAPS for reserved keywords");
        t.push_entry_bool("uppercase", true);
        t.push_comment("(optional) No. of line breaks after a query");
        t.push_entry_i64("lines_between_queries", 1);
        t
    }

    fn config_file(&self) -> (r: Option<&str>) {
        None
    }
}

} // verus!
