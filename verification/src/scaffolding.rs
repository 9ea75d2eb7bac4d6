//! What a new project is offered: the formatters to choose from, each
//! under the label that the choice is shown with, and the place of the
//! configuration file that a formatter brings along.

use crate::formatters::{Formatter, FormatterView};
use crate::paths::{file_name, file_name_of, has_root, is_rooted, join, joined};
use crate::text::{join2, join3, owned};
use vstd::prelude::*;

verus! {

/// One of the choices offered for the formatter of a new project: a
/// formatter, or to do without.
#[derive(Debug)]
pub struct FormatterChoice {
    pub formatter: Option<Formatter>,
}

/// The label of a program: a rooted path is shown as the name of the
/// program with the path in brackets, any other path as it is. A rooted
/// path without a final component has no label.
pub open spec fn program_label(path: Seq<char>) -> Option<Seq<char>> {
    if has_root(path) {
        match file_name_of(path) {
            Some(name) => Some(name + " ("@ + path + ")"@),
            None => None,
        }
    } else {
        Some(path)
    }
}

/// The label of a choice.
pub open spec fn choice_label(formatter: Option<FormatterView>) -> Option<Seq<char>> {
    match formatter {
        None => Some("None (no formatting)"@),
        Some(FormatterView::SqlFormatRs(_)) => Some("sqlformat (built-in)"@),
        Some(FormatterView::PgFormatter(p)) => program_label(p.exec_path),
        Some(FormatterView::SqlFluff(path)) => program_label(path),
    }
}

impl FormatterChoice {
    /// The choice of `formatter`.
    pub fn new(formatter: Formatter) -> (r: Self)
        ensures
            r.formatter == Some(formatter),
    {
        Self { formatter: Some(formatter) }
    }

    /// The choice to do without a formatter.
    pub fn none() -> (r: Self)
        ensures
            r.formatter is None,
    {
        Self { formatter: None }
    }

    /// The view of the formatter chosen.
    pub open spec fn chosen(&self) -> Option<FormatterView> {
        match self.formatter {
            Some(f) => Some(f@),
            None => None,
        }
    }

    /// The text that the choice is shown with, if it has one.
    pub fn label(&self) -> (r: Option<String>)
        ensures
            match choice_label(self.chosen()) {
                Some(text) => r matches Some(s) && s@ == text,
                None => r is None,
            },
    {
        match &self.formatter {
            Some(formatter) => match formatter.executable() {
                Some(exec_path) => {
                    if is_rooted(exec_path) {
                        match file_name(exec_path) {
                            Some(name) => {
                                let head = join2(name.as_str(), " (");
                                Some(join3(head.as_str(), exec_path, ")"))
                            },
                            None => None,
                        }
                    } else {
                        Some(owned(exec_path))
                    }
                },
                None => Some(owned("sqlformat (built-in)")),
            },
            None => Some(owned("None (no formatting)")),
        }
    }
}

/// The choices offered for `available`: to do without a formatter first,
/// then each formatter in the order given.
pub fn formatter_choices(available: Vec<Formatter>) -> (choices: Vec<FormatterChoice>)
    ensures
        choices@.len() == available@.len() + 1,
        choices@[0].formatter is None,
        forall|i: int|
            0 <= i < available@.len() ==> (#[trigger] choices@[i + 1]).formatter == Some(
                available@[i],
            ),
{
    let mut available = available;
    let ghost all = available@;
    let mut reversed: Vec<FormatterChoice> = Vec::new();
    while available.len() > 0
        invariant
            available@.len() + reversed@.len() == all.len(),
            available@ == all.take(available@.len() as int),
            forall|j: int|
                0 <= j < reversed@.len() ==> (#[trigger] reversed@[j]).formatter == Some(
                    all[all.len() - 1 - j],
                ),
        decreases available@.len(),
    {
        let ghost before = available@;
        match available.pop() {
            Some(formatter) => {
                assert(formatter == all[before.len() - 1]);
                reversed.push(FormatterChoice::new(formatter));
                assert(available@ =~= all.take(available@.len() as int));
            },
            None => {},
        }
    }
    let mut choices: Vec<FormatterChoice> = Vec::new();
    choices.push(FormatterChoice::none());
    while reversed.len() > 0
        invariant
            reversed@.len() + choices@.len() == all.len() + 1,
            choices@.len() >= 1,
            choices@[0].formatter is None,
            forall|j: int|
                0 <= j < reversed@.len() ==> (#[trigger] reversed@[j]).formatter == Some(
                    all[all.len() - 1 - j],
                ),
            forall|i: int|
                0 <= i < choices@.len() - 1 ==> (#[trigger] choices@[i + 1]).formatter == Some(
                    all[i],
                ),
        decreases reversed@.len(),
    {
        let ghost n = reversed@.len();
        match reversed.pop() {
            Some(choice) => {
                assert(choice.formatter == Some(all[all.len() - n]));
                choices.push(choice);
            },
            None => {},
        }
    }
    choices
}

/// Where the configuration file of the formatter chosen goes in a project
/// under `dir`: pgFormatter that names a configuration file has it there;
/// no other formatter brings a file along.
pub fn formatter_config_path(dir: &str, formatter: Option<&Formatter>) -> (r: Option<String>)
    ensures
        match formatter {
            Some(Formatter::PgFormatter(p)) => match p.conf_path {
                Some(conf) => r matches Some(path) && path@ == joined(dir@, conf@),
                None => r is None,
            },
            _ => r is None,
        },
{
    match formatter {
        Some(Formatter::PgFormatter(pgf)) => match &pgf.conf_path {
            Some(conf) => Some(join(dir, conf.as_str())),
            None => None,
        },
        _ => None,
    }
}

} // verus!
