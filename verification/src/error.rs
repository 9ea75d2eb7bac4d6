//! The errors of the library.

use crate::text::join2;
use minijinja::Error as TemplateError;
use ::toml::de::Error as SyntaxError;
use vstd::prelude::*;

verus! {

/// The templating engine's error. It is carried through unread.
#[verifier::external_type_specification]
#[verifier::external_body]
pub struct ExTemplateError(TemplateError);

/// The error of the configuration language's parser. It is carried
/// through unread.
#[verifier::external_type_specification]
#[verifier::external_body]
pub struct ExSyntaxError(SyntaxError);

#[derive(Debug)]
pub enum Error {
    /// The manifest is no document of the configuration language.
    Toml(SyntaxError),
    /// A key of the manifest is missing or holds a value of the wrong kind.
    Parsing(String),
    /// No query has this id.
    UndefinedQuery(String),
    /// No query template has this path.
    UndefinedQueryTemplate(String),
    /// No test template has this path.
    UndefinedTestTemplate(String),
    /// The templating engine failed on a template's syntax or evaluation.
    MiniJinja(TemplateError),
    /// The output layout and the manifest do not fit together.
    Layout(String),
    /// A query is missing from the combined output.
    QueryOutputParsing(String),
}

/// The `Debug` text of a templating error, as `format!` gives it.
#[verifier::external_body]
fn template_error_text(e: &TemplateError) -> String {
    format!("{e:?}")
}

/// The `Debug` text of a parser's error, as `format!` gives it.
#[verifier::external_body]
fn syntax_error_text(e: &SyntaxError) -> String {
    format!("{e:?}")
}

/// A parsing error with `msg` as its message.
pub fn parse_error(msg: String) -> (e: Error)
    ensures
        e matches Error::Parsing(m) && m@ == msg@,
{
    Error::Parsing(msg)
}

/// A decoder's result agrees with what the value stands for: the decoded
/// item has the expected view, or the error is a parsing error with the
/// expected message.
pub open spec fn decoded<T: View>(r: Result<T, Error>, want: Result<T::V, Seq<char>>) -> bool {
    match want {
        Ok(v) => r matches Ok(t) && t@ == v,
        Err(msg) => r matches Err(Error::Parsing(m)) && m@ == msg,
    }
}

/// As [`decoded`], for a list of strings.
pub open spec fn decoded_list(
    r: Result<Vec<String>, Error>,
    want: Result<Seq<Seq<char>>, Seq<char>>,
) -> bool {
    match want {
        Ok(v) => r matches Ok(t) && t@.map_values(|s: String| s@) == v,
        Err(msg) => r matches Err(Error::Parsing(m)) && m@ == msg,
    }
}

impl Error {
    /// What stands before the detail in the error's message.
    pub open spec fn prefix(&self) -> Seq<char> {
        match self {
            Error::Toml(_) => "TOML Error: "@,
            Error::Parsing(_) => "Error parsing manifest file: "@,
            Error::UndefinedQuery(_) => "Lookup for query failed: id="@,
            Error::UndefinedQueryTemplate(_) => "Lookup for query template failed: path="@,
            Error::UndefinedTestTemplate(_) => "Lookup for test template failed: path="@,
            Error::MiniJinja(_) => "MiniJinja Error: "@,
            Error::Layout(_) => "Layout error: "@,
            Error::QueryOutputParsing(_) => "Error reading query output: "@,
        }
    }

    /// The detail that the error carries, where it is text of the library.
    pub open spec fn detail(&self) -> Option<Seq<char>> {
        match self {
            Error::Toml(_) => None,
            Error::Parsing(m) => Some(m@),
            Error::UndefinedQuery(m) => Some(m@),
            Error::UndefinedQueryTemplate(m) => Some(m@),
            Error::UndefinedTestTemplate(m) => Some(m@),
            Error::MiniJinja(_) => None,
            Error::Layout(m) => Some(m@),
            Error::QueryOutputParsing(m) => Some(m@),
        }
    }

    /// The message shown to the user: the prefix of the error's kind, then
    /// its detail. For an error of the parser or of the templating engine
    /// the detail is their own description.
    pub fn message(&self) -> (r: String)
        ensures
            self.prefix().is_prefix_of(r@),
            self.detail() matches Some(d) ==> r@ == self.prefix() + d,
    {
        match self {
            Error::Toml(e) => {
                let text = syntax_error_text(e);
                join2("TOML Error: ", text.as_str())
            },
            Error::Parsing(m) => join2("Error parsing manifest file: ", m.as_str()),
            Error::UndefinedQuery(m) => join2("Lookup for query failed: id=", m.as_str()),
            Error::UndefinedQueryTemplate(m) => join2(
                "Lookup for query template failed: path=",
                m.as_str(),
            ),
            Error::UndefinedTestTemplate(m) => join2(
                "Lookup for test template failed: path=",
                m.as_str(),
            ),
            Error::MiniJinja(e) => {
                let text = template_error_text(e);
                join2("MiniJinja Error: ", text.as_str())
            },
            Error::Layout(m) => join2("Layout error: ", m.as_str()),
            Error::QueryOutputParsing(m) => join2("Error reading query output: ", m.as_str()),
        }
    }
}

} // verus!
