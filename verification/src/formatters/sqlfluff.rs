//! sqlfluff, the program of that name.

use crate::config::{
    required_path, required_path_value, LineView, SerializableTomlTable, Value,
};
use crate::error::{decoded, Error};
use crate::formatters::config::Configurable;
use crate::formatters::external::ExternalFormatter;
use crate::text::{owned, views};
use vstd::prelude::*;

verus! {

/// How sqlfluff is called.
#[derive(Debug)]
pub struct SqlFluff {
    /// The program.
    pub exec_path: String,
}

impl View for SqlFluff {
    type V = Seq<char>;

    open spec fn view(&self) -> Seq<char> {
        self.exec_path@
    }
}

/// The arguments with which `sqlfluff` formats its standard input.
pub open spec fn format_args_of() -> Seq<Seq<char>> {
    seq!["format"@, "--dialect"@, "postgres"@, "-"@]
}

/// The lines of the formatter's section of a manifest: the program, under
/// a comment.
pub open spec fn section_of(exec_path: Seq<char>) -> Seq<LineView> {
    seq![
        LineView::Comment("(required) Location of the sqlfluff executable"@),
        LineView::Text("exec_path"@, exec_path),
    ]
}

/// What the value of the key `formatter.sqlfluff` stands for: the path of
/// the program, or the message of the error.
pub open spec fn sqlfluff_value(value: Value) -> Result<Seq<char>, Seq<char>> {
    match value {
        Value::Table(entries) => required_path_value(
            entries@,
            "exec_path"@,
            None,
            "Missing 'exec_path' in 'formatter.sqlfluff"@,
            "formatter.sqlfluff.exec_path"@,
        ),
        _ => Err("Value of 'formatter.sqlfluff' must be a toml table"@),
    }
}

impl SqlFluff {
    /// Decodes the value of the key `formatter.sqlfluff`.
    pub fn try_from(value: &Value) -> (r: Result<Self, Error>)
        ensures
            decoded(r, sqlfluff_value(*value)),
    {
        match value.as_table() {
            Some(entries) => match required_path(
                entries,
                "exec_path",
                None,
                "Missing 'exec_path' in 'formatter.sqlfluff",
                "formatter.sqlfluff.exec_path",
            ) {
                Ok(exec_path) => Ok(Self { exec_path }),
                Err(e) => Err(e),
            },
            None => Err(Error::Parsing(owned("Value of 'formatter.sqlfluff' must be a toml table"))),
        }
    }

    /// The formatter that is looked for on the system: the program
    /// `sqlfluff`.
    pub fn candidate() -> (r: Self)
        ensures
            r@ == "sqlfluff"@,
    {
        Self { exec_path: owned("sqlfluff") }
    }

    /// The formatter that was looked for, if it was found: `found` says
    /// whether the candidate's program answered its check.
    pub fn discover(found: bool) -> (r: Option<Self>)
        ensures
            found ==> (r matches Some(f) && f@ == "sqlfluff"@),
            !found ==> r is None,
    {
        if found {
            Some(Self::candidate())
        } else {
            None
        }
    }
}

impl Configurable for SqlFluff {
    open spec fn section_key(&self) -> Seq<char> {
        "formatter.sqlfluff"@
    }

    open spec fn section(&self) -> Seq<LineView> {
        section_of(self.exec_path@)
    }

    open spec fn config_path(&self) -> Option<Seq<char>> {
        None
    }

    fn to_toml_table(&self) -> (t: SerializableTomlTable) {
        let mut t = SerializableTomlTable::new("formatter.sqlfluff");
        t.push_comment("(required) Location of the sqlfluff executable");
        t.push_entry_string("exec_path", self.exec_path.as_str());
        t
    }

    fn config_file(&self) -> (r: Option<&str>) {
        None
    }
}

impl ExternalFormatter for SqlFluff {
    open spec fn program(&self) -> Seq<char> {
        self.exec_path@
    }

    open spec fn format_arguments(&self) -> Seq<Seq<char>> {
        format_args_of()
    }

    open spec fn check_arguments(&self) -> Seq<Seq<char>> {
        seq!["--version"@]
    }

    fn executable(&self) -> (r: &str) {
        self.exec_path.as_str()
    }

    fn format_args(&self) -> (args: Vec<String>) {
        let mut args: Vec<String> = Vec::new();
        args.push(owned("format"));
        args.push(owned("--dialect"));
        args.push(owned("postgres"));
        args.push(owned("-"));
        assert(views(args@) =~= format_args_of());
        args
    }

    fn check_args(&self) -> (args: Vec<String>) {
        let mut args: Vec<String> = Vec::new();
        args.push(owned("--version"));
        assert(views(args@) =~= seq!["--version"@]);
        args
    }
}

} // verus!
