//! SQL formatters: the external programs that can format rendered SQL, the
//! formatter that is built in, and their sections of a manifest. The
//! library says how a program is to be called; running it is left to the
//! caller.

pub mod config;
pub mod external;
pub mod pg_format;
pub mod sql_formatter;
pub mod sqlfluff;
pub mod sqlformat_rs;

use crate::config::{lookup, table_get, LineView, SerializableTomlTable, Value};
use crate::error::Error;
use crate::formatters::config::Configurable;
use crate::formatters::external::{format_command, ExternalFormatter};
use crate::formatters::pg_format::{pg_formatter_value, PgFormatter, PgFormatterView};
use crate::formatters::sqlfluff::{sqlfluff_value, SqlFluff};
use crate::formatters::sqlformat_rs::{sqlformat_value, SqlFormat};
use crate::text::views;
use vstd::prelude::*;

verus! {

/// A program to run and the arguments to run it with. The text to format is
/// given to the program on its standard input.
#[derive(Debug)]
pub struct Cmd<'a> {
    pub program: &'a str,
    pub args: Vec<String>,
}

/// A configured formatter.
#[derive(Debug)]
pub enum Formatter {
    PgFormatter(PgFormatter),
    SqlFormatRs(SqlFormat),
    SqlFluff(SqlFluff),
}

pub ghost enum FormatterView {
    PgFormatter(PgFormatterView),
    SqlFormatRs(SqlFormat),
    SqlFluff(Seq<char>),
}

impl View for Formatter {
    type V = FormatterView;

    open spec fn view(&self) -> FormatterView {
        match self {
            Formatter::PgFormatter(p) => FormatterView::PgFormatter(p@),
            Formatter::SqlFormatRs(f) => FormatterView::SqlFormatRs(*f),
            Formatter::SqlFluff(f) => FormatterView::SqlFluff(f.exec_path@),
        }
    }
}

/// What the value of the key `formatter` stands for: the first of
/// `pgFormatter`, `sqlfluff` and `sqlformat-rs` that the table holds, none
/// where it holds none of them or is no table, or the message of the error.
pub open spec fn formatter_value(value: Value) -> Result<Option<FormatterView>, Seq<char>> {
    match value {
        Value::Table(entries) => match lookup(entries@, "pgFormatter"@) {
            Some(v) => match pg_formatter_value(v) {
                Ok(p) => Ok(Some(FormatterView::PgFormatter(p))),
                Err(msg) => Err(msg),
            },
            None => match lookup(entries@, "sqlfluff"@) {
                Some(v) => match sqlfluff_value(v) {
                    Ok(f) => Ok(Some(FormatterView::SqlFluff(f))),
                    Err(msg) => Err(msg),
                },
                None => match lookup(entries@, "sqlformat-rs"@) {
                    Some(v) => match sqlformat_value(v) {
                        Ok(f) => Ok(Some(FormatterView::SqlFormatRs(f))),
                        Err(msg) => Err(msg),
                    },
                    None => Ok(None),
                },
            },
        },
        _ => Ok(None),
    }
}

/// The key of a formatter's section of a manifest.
pub open spec fn section_name(f: FormatterView) -> Seq<char> {
    match f {
        FormatterView::PgFormatter(_) => "formatter.pgFormatter"@,
        FormatterView::SqlFluff(_) => "formatter.sqlfluff"@,
        FormatterView::SqlFormatRs(_) => "formatter.sqlformat-rs"@,
    }
}

/// The lines of a formatter's section of a manifest.
pub open spec fn section_lines(f: FormatterView) -> Seq<LineView> {
    match f {
        FormatterView::PgFormatter(p) => p.section(),
        FormatterView::SqlFluff(path) => sqlfluff::section_of(path),
        FormatterView::SqlFormatRs(_) => sqlformat_rs::default_section(),
    }
}

/// The formatters that can be used, in the order in which they are offered:
/// the built-in one with its default options first, then pgFormatter and
/// sqlfluff where they were found on the system, each as the program of
/// its usual name.
pub open spec fn available(pg_format_found: bool, sqlfluff_found: bool) -> Seq<FormatterView> {
    seq![FormatterView::SqlFormatRs(sqlformat_rs::default_options())] + (if pg_format_found {
        seq![
            FormatterView::PgFormatter(
                PgFormatterView { exec_path: "pg_format"@, conf_path: None },
            ),
        ]
    } else {
        Seq::empty()
    }) + (if sqlfluff_found {
        seq![FormatterView::SqlFluff("sqlfluff"@)]
    } else {
        Seq::empty()
    })
}

impl Formatter {
    /// Decodes the value of the key `formatter`.
    pub fn decode(value: &Value) -> (r: Result<Option<Self>, Error>)
        ensures
            match formatter_value(*value) {
                Ok(Some(f)) => r matches Ok(Some(g)) && g@ == f,
                Ok(None) => r matches Ok(None),
                Err(msg) => r matches Err(Error::Parsing(m)) && m@ == msg,
            },
    {
        match value.as_table() {
            Some(entries) => {
                match table_get(entries, "pgFormatter") {
                    Some(v) => {
                        return match PgFormatter::try_from(v) {
                            Ok(p) => Ok(Some(Self::PgFormatter(p))),
                            Err(e) => Err(e),
                        };
                    },
                    None => {},
                }
                match table_get(entries, "sqlfluff") {
                    Some(v) => {
                        return match SqlFluff::try_from(v) {
                            Ok(f) => Ok(Some(Self::SqlFluff(f))),
                            Err(e) => Err(e),
                        };
                    },
                    None => {},
                }
                match table_get(entries, "sqlformat-rs") {
                    Some(v) => {
                        return match SqlFormat::try_from(v) {
                            Ok(f) => Ok(Some(Self::SqlFormatRs(f))),
                            Err(e) => Err(e),
                        };
                    },
                    None => {},
                }
                Ok(None)
            },
            None => Ok(None),
        }
    }

    /// The external formatter that a new project is offered first:
    /// pgFormatter with its configuration file in the project, if the
    /// program is installed. `pg_format_found` says whether it answered its
    /// check.
    pub fn discover(pg_format_found: bool) -> (r: Option<Self>)
        ensures
            pg_format_found ==> (r matches Some(f) && f@ == FormatterView::PgFormatter(
                PgFormatterView {
                    exec_path: "pg_format"@,
                    conf_path: Some("./.pg_format/config"@),
                },
            )),
            !pg_format_found ==> r is None,
    {
        match PgFormatter::new_if_exists(pg_format_found) {
            Some(p) => Some(Self::PgFormatter(p)),
            None => None,
        }
    }

    /// The formatter's section of a manifest.
    pub fn config_toml_table(&self) -> (r: Option<SerializableTomlTable>)
        ensures
            r matches Some(t) && t.key_path@ == section_name(self@) && t.line_views()
                == section_lines(self@),
    {
        match self {
            Self::PgFormatter(p) => Some(p.to_toml_table()),
            Self::SqlFluff(f) => Some(f.to_toml_table()),
            Self::SqlFormatRs(f) => Some(f.to_toml_table()),
        }
    }

    /// The program of an external formatter; the built-in formatter has
    /// none.
    pub fn executable(&self) -> (r: Option<&str>)
        ensures
            match *self {
                Formatter::PgFormatter(p) => r matches Some(e) && e@ == p.exec_path@,
                Formatter::SqlFluff(f) => r matches Some(e) && e@ == f.exec_path@,
                Formatter::SqlFormatRs(_) => r is None,
            },
    {
        match self {
            Self::PgFormatter(p) => Some(p.executable()),
            Self::SqlFluff(f) => Some(f.executable()),
            Self::SqlFormatRs(_) => None,
        }
    }

    /// How an external formatter is called to format a text; the built-in
    /// formatter is not called.
    pub fn command(&self) -> (r: Option<Cmd<'_>>)
        ensures
            match *self {
                Formatter::PgFormatter(p) => r matches Some(c) && c.program@ == p.exec_path@
                    && views(c.args@) == p@.format_args(),
                Formatter::SqlFluff(f) => r matches Some(c) && c.program@ == f.exec_path@ && views(
                    c.args@,
                ) == sqlfluff::format_args_of(),
                Formatter::SqlFormatRs(_) => r is None,
            },
    {
        match self {
            Self::PgFormatter(p) => Some(format_command(p)),
            Self::SqlFluff(f) => Some(format_command(f)),
            Self::SqlFormatRs(_) => None,
        }
    }

    /// The text formatted by the built-in formatter; an external formatter
    /// gives nothing here.
    pub fn format(&self, sql: &str) -> (r: Option<Vec<u8>>)
        ensures
            match *self {
                Formatter::SqlFormatRs(f) => r matches Some(bytes) && bytes@
                    == sqlformat_rs::formatted_bytes(f, sql@),
                _ => r is None,
            },
    {
        match self {
            Self::SqlFormatRs(f) => Some(f.format(sql)),
            _ => None,
        }
    }
}

/// The formatters that can be used, in the order in which they are offered:
/// the built-in one first, then pgFormatter and sqlfluff where they were
/// found on the system.
pub fn discover_available_formatters(pg_format_found: bool, sqlfluff_found: bool) -> (r: Vec<
    Formatter,
>)
    ensures
        r@.map_values(|f: Formatter| f@) == available(pg_format_found, sqlfluff_found),
{
    let mut formatters: Vec<Formatter> = Vec::new();
    formatters.push(Formatter::SqlFormatRs(SqlFormat::default()));
    match PgFormatter::discover(pg_format_found) {
        Some(pgf) => formatters.push(Formatter::PgFormatter(pgf)),
        None => {},
    }
    match SqlFluff::discover(sqlfluff_found) {
        Some(sf) => formatters.push(Formatter::SqlFluff(sf)),
        None => {},
    }
    assert(formatters@.map_values(|f: Formatter| f@) =~= available(
        pg_format_found,
        sqlfluff_found,
    ));
    formatters
}

} // verus!
