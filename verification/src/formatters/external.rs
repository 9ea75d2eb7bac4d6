//! Formatters that are programs of their own. The library says how such a
//! program is called; to run it is left to the caller.

use crate::formatters::Cmd;
use crate::text::views;
use vstd::prelude::*;

verus! {

/// A formatter that is installed as a program.
pub trait ExternalFormatter {
    /// The program.
    spec fn program(&self) -> Seq<char>;

    /// The arguments with which the program formats its standard input.
    spec fn format_arguments(&self) -> Seq<Seq<char>>;

    /// The arguments with which the program shows that it is installed.
    spec fn check_arguments(&self) -> Seq<Seq<char>>;

    /// The program.
    fn executable(&self) -> (r: &str)
        ensures
            r@ == self.program(),
    ;

    /// The arguments with which the program formats its standard input.
    fn format_args(&self) -> (args: Vec<String>)
        ensures
            views(args@) == self.format_arguments(),
    ;

    /// The arguments with which the program shows that it is installed.
    fn check_args(&self) -> (args: Vec<String>)
        ensures
            views(args@) == self.check_arguments(),
    ;
}

/// How the formatter is called to format a text, which it reads on its
/// standard input.
pub fn format_command<F: ExternalFormatter>(formatter: &F) -> (c: Cmd<'_>)
    ensures
        c.program@ == formatter.program(),
        views(c.args@) == formatter.format_arguments(),
{
    Cmd { program: formatter.executable(), args: formatter.format_args() }
}

/// How the formatter is called to show that it is installed.
pub fn check_command<F: ExternalFormatter>(formatter: &F) -> (c: Cmd<'_>)
    ensures
        c.program@ == formatter.program(),
        views(c.args@) == formatter.check_arguments(),
{
    Cmd { program: formatter.executable(), args: formatter.check_args() }
}

} // verus!
