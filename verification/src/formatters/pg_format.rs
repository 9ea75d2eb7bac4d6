//! pgFormatter, the program `pg_format`.

use crate::config::{
    decode_pathbuf, lookup, path_value, required_path, required_path_value, table_get,
    LineView, SerializableTomlTable, Value,
};
use crate::error::{decoded, Error};
use crate::formatters::config::Configurable;
use crate::formatters::external::ExternalFormatter;
use crate::text::{owned, views};
use vstd::prelude::*;

verus! {

/// How pgFormatter is called.
#[derive(Debug)]
pub struct PgFormatter {
    /// The program.
    pub exec_path: String,
    /// Its configuration file, if it has one.
    pub conf_path: Option<String>,
}

pub ghost struct PgFormatterView {
    pub exec_path: Seq<char>,
    pub conf_path: Option<Seq<char>>,
}

impl View for PgFormatter {
    type V = PgFormatterView;

    open spec fn view(&self) -> PgFormatterView {
        PgFormatterView {
            exec_path: self.exec_path@,
            conf_path: match self.conf_path {
                Some(p) => Some(p@),
                None => None,
            },
        }
    }
}

/// The arguments with which `pg_format` formats its standard input: the
/// configuration file where there is one, else the options that keep the
/// marked regions unformatted.
pub open spec fn pg_format_args_of(conf_path: Option<Seq<char>>) -> Seq<Seq<char>> {
    match conf_path {
        Some(conf) => seq!["-c"@, conf, "-"@],
        None => seq!["-M"@, "-p"@, "start\\(noformat\\).+end\\(noformat\\)"@, "-"@],
    }
}

impl PgFormatterView {
    /// The lines of the formatter's section of a manifest: the program,
    /// and the configuration file where there is one, each under a comment.
    pub open spec fn section(self) -> Seq<LineView> {
        let head = seq![
            LineView::Comment("(required) Location of the pg_format executable"@),
            LineView::Text("exec_path"@, self.exec_path),
            LineView::Comment("(optional) path to the pg_format conf file."@),
        ];
        match self.conf_path {
            Some(p) => head.push(LineView::Text("conf_path"@, p)),
            None => head,
        }
    }

    pub open spec fn format_args(self) -> Seq<Seq<char>> {
        pg_format_args_of(self.conf_path)
    }
}

/// The arguments with which `pg_format` formats its standard input.
pub fn pg_format_args(conf_path: Option<&str>) -> (args: Vec<String>)
    ensures
        views(args@) == pg_format_args_of(
            match conf_path {
                Some(c) => Some(c@),
                None => None,
            },
        ),
{
    let mut args: Vec<String> = Vec::new();
    match conf_path {
        Some(conf) => {
            args.push(owned("-c"));
            args.push(owned(conf));
            args.push(owned("-"));
            assert(views(args@) =~= seq!["-c"@, conf@, "-"@]);
        },
        None => {
            args.push(owned("-M"));
            args.push(owned("-p"));
            args.push(owned("start\\(noformat\\).+end\\(noformat\\)"));
            args.push(owned("-"));
            assert(views(args@) =~= seq![
                "-M"@,
                "-p"@,
                "start\\(noformat\\).+end\\(noformat\\)"@,
                "-"@,
            ]);
        },
    }
    args
}

/// What the value of the key `formatter.pgFormatter` stands for.
pub open spec fn pg_formatter_value(value: Value) -> Result<PgFormatterView, Seq<char>> {
    match value {
        Value::Table(entries) => match required_path_value(
            entries@,
            "exec_path"@,
            None,
            "Missing 'exec_path' in 'formatter.pgFormatter"@,
            "formatter.pgFormatter.exec_path"@,
        ) {
            Ok(exec_path) => match lookup(entries@, "conf_path"@) {
                Some(v) => match path_value(v, None, "formatter.pgFormatter.conf_path"@) {
                    Ok(conf) => Ok(PgFormatterView { exec_path, conf_path: Some(conf) }),
                    Err(msg) => Err(msg),
                },
                None => Ok(PgFormatterView { exec_path, conf_path: None }),
            },
            Err(msg) => Err(msg),
        },
        _ => Err("Value of 'formatter.pgFormatter' must be a toml table"@),
    }
}

impl PgFormatter {
    /// pgFormatter at `exec_path`, with the configuration file at
    /// `conf_path` if one is given.
    pub fn new(exec_path: String, conf_path: Option<String>) -> (r: Self)
        ensures
            r.exec_path == exec_path,
            r.conf_path == conf_path,
    {
        Self { exec_path, conf_path }
    }

    /// Decodes the value of the key `formatter.pgFormatter`.
    pub fn try_from(value: &Value) -> (r: Result<Self, Error>)
        ensures
            decoded(r, pg_formatter_value(*value)),
    {
        match value.as_table() {
            Some(entries) => {
                let exec_path = match required_path(
                    entries,
                    "exec_path",
                    None,
                    "Missing 'exec_path' in 'formatter.pgFormatter",
                    "formatter.pgFormatter.exec_path",
                ) {
                    Ok(p) => p,
                    Err(e) => return Err(e),
                };
                let conf_path = match table_get(entries, "conf_path") {
                    Some(v) => match decode_pathbuf(v, None, "formatter.pgFormatter.conf_path") {
                        Ok(p) => Some(p),
                        Err(e) => return Err(e),
                    },
                    None => None,
                };
                Ok(Self::new(exec_path, conf_path))
            },
            None => Err(
                Error::Parsing(owned("Value of 'formatter.pgFormatter' must be a toml table")),
            ),
        }
    }

    /// The formatter that is looked for on the system: the program
    /// `pg_format` without a configuration file.
    pub fn candidate() -> (r: Self)
        ensures
            r@ == (PgFormatterView { exec_path: "pg_format"@, conf_path: None }),
    {
        Self::new(owned("pg_format"), None)
    }

    /// The formatter with its configuration file in the project, if the
    /// program is installed: `found` says whether `pg_format` answered its
    /// check.
    pub fn new_if_exists(found: bool) -> (r: Option<Self>)
        ensures
            found ==> (r matches Some(f) && f@ == (PgFormatterView {
                exec_path: "pg_format"@,
                conf_path: Some("./.pg_format/config"@),
            })),
            !found ==> r is None,
    {
        if found {
            Some(Self::new(owned("pg_format"), Some(owned("./.pg_format/config"))))
        } else {
            None
        }
    }

    /// The formatter that was looked for, if it was found: `found` says
    /// whether the candidate's program answered its check.
    pub fn discover(found: bool) -> (r: Option<Self>)
        ensures
            found ==> (r matches Some(f) && f@ == (PgFormatterView {
                exec_path: "pg_format"@,
                conf_path: None,
            })),
            !found ==> r is None,
    {
        if found {
            Some(Self::candidate())
        } else {
            None
        }
    }
}

impl Configurable for PgFormatter {
    open spec fn section_key(&self) -> Seq<char> {
        "formatter.pgFormatter"@
    }

    open spec fn section(&self) -> Seq<LineView> {
        self@.section()
    }

    open spec fn config_path(&self) -> Option<Seq<char>> {
        match self.conf_path {
            Some(p) => Some(p@),
            None => None,
        }
    }

    fn to_toml_table(&self) -> (t: SerializableTomlTable) {
        let mut t = SerializableTomlTable::new("formatter.pgFormatter");
        t.push_comment("(required) Location of the pg_format executable");
        t.push_entry_string("exec_path", self.exec_path.as_str());
        t.push_comment("(optional) path to the pg_format conf file.");
        match &self.conf_path {
            Some(p) => t.push_entry_string("conf_path", p.as_str()),
            None => {},
        }
        t
    }

    fn config_file(&self) -> (r: Option<&str>) {
        match &self.conf_path {
            Some(p) => Some(p.as_str()),
            None => None,
        }
    }
}

impl ExternalFormatter for PgFormatter {
    open spec fn program(&self) -> Seq<char> {
        self.exec_path@
    }

    open spec fn format_arguments(&self) -> Seq<Seq<char>> {
        self@.format_args()
    }

    open spec fn check_arguments(&self) -> Seq<Seq<char>> {
        seq!["-v"@]
    }

    fn executable(&self) -> (r: &str) {
        self.exec_path.as_str()
    }

    fn format_args(&self) -> (args: Vec<String>) {
        match &self.conf_path {
            Some(p) => pg_format_args(Some(p.as_str())),
            None => pg_format_args(None),
        }
    }

    fn check_args(&self) -> (args: Vec<String>) {
        let mut args: Vec<String> = Vec::new();
        args.push(owned("-v"));
        assert(views(args@) =~= seq!["-v"@]);
        args
    }
}

} // verus!
