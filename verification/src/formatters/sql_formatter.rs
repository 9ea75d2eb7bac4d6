//! sql-formatter, the program of that name.

use crate::config::{
    decode_pathbuf, lookup, path_value, required_path, required_path_value, table_get,
    LineView, SerializableTomlTable, Value,
};
use crate::error::{decoded, Error};
use crate::formatters::config::Configurable;
use crate::formatters::external::ExternalFormatter;
use crate::text::{owned, views};
use vstd::prelude::*;

verus! {

/// How sql-formatter is called.
#[derive(Debug)]
pub struct SqlFormatter {
    /// The program.
    pub exec_path: String,
    /// Its configuration file, if it has one.
    pub conf_path: Option<String>,
}

pub ghost struct SqlFormatterView {
    pub exec_path: Seq<char>,
    pub conf_path: Option<Seq<char>>,
}

impl View for SqlFormatter {
    type V = SqlFormatterView;

    open spec fn view(&self) -> SqlFormatterView {
        SqlFormatterView {
            exec_path: self.exec_path@,
            conf_path: match self.conf_path {
                Some(p) => Some(p@),
                None => None,
            },
        }
    }
}

/// The lines of the formatter's section of a manifest: the program, and
/// the configuration file where there is one, each under a comment.
pub open spec fn section_of(f: SqlFormatterView) -> Seq<LineView> {
    let head = seq![
        LineView::Comment("(required) Location of the sql-formatter executable"@),
        LineView::Text("exec_path"@, f.exec_path),
        LineView::Comment("(optional) path to the json conf file."@),
    ];
    match f.conf_path {
        Some(p) => head.push(LineView::Text("conf_path"@, p)),
        None => head,
    }
}

/// The arguments with which `sql-formatter` formats its standard input: the
/// configuration file where there is one, else none.
pub open spec fn sql_formatter_args_of(conf_path: Option<Seq<char>>) -> Seq<Seq<char>> {
    match conf_path {
        Some(conf) => seq!["-c"@, conf],
        None => Seq::empty(),
    }
}

/// The arguments with which `sql-formatter` formats its standard input.
pub fn sql_formatter_args(conf_path: Option<&str>) -> (args: Vec<String>)
    ensures
        views(args@) == sql_formatter_args_of(
            match conf_path {
                Some(c) => Some(c@),
                None => None,
            },
        ),
{
    let mut args: Vec<String> = Vec::new();
    match conf_path {
        Some(conf) => {
            args.push(owned("-c"));
            args.push(owned(conf));
            assert(views(args@) =~= seq!["-c"@, conf@]);
        },
        None => {
            assert(views(args@) =~= Seq::<Seq<char>>::empty());
        },
    }
    args
}

/// What the value of the key `formatter.sql-formatter` stands for.
pub open spec fn sql_formatter_value(value: Value) -> Result<SqlFormatterView, Seq<char>> {
    match value {
        Value::Table(entries) => match required_path_value(
            entries@,
            "exec_path"@,
            None,
            "Missing 'exec_path' in 'formatter.sql-formatter"@,
            "formatter.sql-formatter.exec_path"@,
        ) {
            Ok(exec_path) => match lookup(entries@, "conf_path"@) {
                Some(v) => match path_value(v, None, "formatter.sql-formatter.conf_path"@) {
                    Ok(conf) => Ok(SqlFormatterView { exec_path, conf_path: Some(conf) }),
                    Err(msg) => Err(msg),
                },
                None => Ok(SqlFormatterView { exec_path, conf_path: None }),
            },
            Err(msg) => Err(msg),
        },
        _ => Err("Value of 'formatter.sql-formatter' must be a toml table"@),
    }
}

impl SqlFormatter {
    /// sql-formatter at `exec_path`, with the configuration file at
    /// `conf_path` if one is given.
    pub fn new(exec_path: String, conf_path: Option<String>) -> (r: Self)
        ensures
            r.exec_path == exec_path,
            r.conf_path == conf_path,
    {
        Self { exec_path, conf_path }
    }

    /// Decodes the value of the key `formatter.sql-formatter`.
    pub fn try_from(value: &Value) -> (r: Result<Self, Error>)
        ensures
            decoded(r, sql_formatter_value(*value)),
    {
        match value.as_table() {
            Some(entries) => {
                let exec_path = match required_path(
                    entries,
                    "exec_path",
                    None,
                    "Missing 'exec_path' in 'formatter.sql-formatter",
                    "formatter.sql-formatter.exec_path",
                ) {
                    Ok(p) => p,
                    Err(e) => return Err(e),
                };
                let conf_path = match table_get(entries, "conf_path") {
                    Some(v) => match decode_pathbuf(v, None, "formatter.sql-formatter.conf_path") {
                        Ok(p) => Some(p),
                        Err(e) => return Err(e),
                    },
                    None => None,
                };
                Ok(Self::new(exec_path, conf_path))
            },
            None => Err(
                Error::Parsing(owned("Value of 'formatter.sql-formatter' must be a toml table")),
            ),
        }
    }

    /// The formatter that is looked for on the system: the program
    /// `sql-formatter` with its configuration file in the project.
    pub fn candidate() -> (r: Self)
        ensures
            r@ == (SqlFormatterView {
                exec_path: "sql-formatter"@,
                conf_path: Some("./.sql-formatter/config.json"@),
            }),
    {
        Self::new(owned("sql-formatter"), Some(owned("./.sql-formatter/config.json")))
    }

    /// The formatter that was looked for, if it was found: `found` says
    /// whether the candidate's program answered its check.
    pub fn discover(found: bool) -> (r: Option<Self>)
        ensures
            found ==> (r matches Some(f) && f@ == (SqlFormatterView {
                exec_path: "sql-formatter"@,
                conf_path: Some("./.sql-formatter/config.json"@),
            })),
            !found ==> r is None,
    {
        if found {
            Some(Self::candidate())
        } else {
            None
        }
    }
}

impl Configurable for SqlFormatter {
    open spec fn section_key(&self) -> Seq<char> {
        "formatter.sql-formatter"@
    }

    open spec fn section(&self) -> Seq<LineView> {
        section_of(self@)
    }

    open spec fn config_path(&self) -> Option<Seq<char>> {
        match self.conf_path {
            Some(p) => Some(p@),
            None => None,
        }
    }

    fn to_toml_table(&self) -> (t: SerializableTomlTable) {
        let mut t = SerializableTomlTable::new("formatter.sql-formatter");
        t.push_comment("(required) Location of the sql-formatter executable");
        t.push_entry_string("exec_path", self.exec_path.as_str());
        t.push_comment("(optional) path to the json conf file.");
        match &self.conf_path {
            Some(p) => t.push_entry_string("conf_path", p.as_str()),
            None => {},
        }
        t
    }

    fn config_file(&self) -> (r: Option<&str>) {
        match &self.conf_path {
            Some(p) => Some(p.as_str()),
            None => None,
        }
    }
}

impl ExternalFormatter for SqlFormatter {
    open spec fn program(&self) -> Seq<char> {
        self.exec_path@
    }

    open spec fn format_arguments(&self) -> Seq<Seq<char>> {
        sql_formatter_args_of(self@.conf_path)
    }

    open spec fn check_arguments(&self) -> Seq<Seq<char>> {
        seq!["--version"@]
    }

    fn executable(&self) -> (r: &str) {
        self.exec_path.as_str()
    }

    fn format_args(&self) -> (args: Vec<String>) {
        match &self.conf_path {
            Some(p) => sql_formatter_args(Some(p.as_str())),
            None => sql_formatter_args(None),
        }
    }

    fn check_args(&self) -> (args: Vec<String>) {
        let mut args: Vec<String> = Vec::new();
        args.push(owned("--version"));
        assert(views(args@) =~= seq!["--version"@]);
        args
    }
}

} // verus!
