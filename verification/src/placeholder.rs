//! How a variable that is left open in a rendered query is written.

use crate::config::Value;
use crate::error::Error;
use crate::text::{join3, owned, str_eq};
use vstd::prelude::*;

verus! {

/// The style of the placeholders in a rendered query.
#[derive(Debug, Clone, Copy, PartialEq, Eq, Structural)]
pub enum Placeholder {
    /// Numbered arguments: `$1`, `$2`, and so on.
    PosArgs,
    /// Named variables: `:name`.
    Variables,
}

/// What the value of the key `placeholder` stands for: a style, or the
/// message of the error.
pub open spec fn placeholder_value(value: Value) -> Result<Placeholder, Seq<char>> {
    match value {
        Value::String(s) => if s@ == "posargs"@ {
            Ok(Placeholder::PosArgs)
        } else if s@ == "variables"@ {
            Ok(Placeholder::Variables)
        } else {
            Err("Invalid placeholder: '"@ + s@ + "'"@)
        },
        _ => Err("Value of key 'placeholder' must be a string"@),
    }
}

impl Placeholder {
    /// Decodes the value of the key `placeholder`.
    pub fn try_from(value: &Value) -> (r: Result<Self, Error>)
        ensures
            match placeholder_value(*value) {
                Ok(p) => r matches Ok(q) && q == p,
                Err(msg) => r matches Err(Error::Parsing(m)) && m@ == msg,
            },
    {
        match value.as_str() {
            Some(s) => {
                if str_eq(s, "posargs") {
                    Ok(Self::PosArgs)
                } else if str_eq(s, "variables") {
                    Ok(Self::Variables)
                } else {
                    Err(Error::Parsing(join3("Invalid placeholder: '", s, "'")))
                }
            },
            None => Err(Error::Parsing(owned("Value of key 'placeholder' must be a string"))),
        }
    }

    /// The word that stands for the style in a manifest.
    pub fn label(&self) -> (r: &'static str)
        ensures
            r@ == match *self {
                Placeholder::PosArgs => "posargs"@,
                Placeholder::Variables => "variables"@,
            },
    {
        match self {
            Self::PosArgs => "posargs",
            Self::Variables => "variables",
        }
    }
}

} // verus!
