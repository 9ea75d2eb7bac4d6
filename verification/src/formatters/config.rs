//! What a formatter brings to a new project: its section of the manifest,
//! and the configuration file that goes with it.

use crate::config::{LineView, SerializableTomlTable};
use vstd::prelude::*;

verus! {

/// A formatter that can be written into a manifest.
pub trait Configurable {
    /// The key of the formatter's section.
    spec fn section_key(&self) -> Seq<char>;

    /// The lines of the formatter's section.
    spec fn section(&self) -> Seq<LineView>;

    /// The path of the formatter's configuration file, if it has one.
    spec fn config_path(&self) -> Option<Seq<char>>;

    /// The formatter's section of a manifest.
    fn to_toml_table(&self) -> (t: SerializableTomlTable)
        ensures
            t.key_path@ == self.section_key(),
            t.line_views() == self.section(),
    ;

    /// The path of the configuration file that is written for a new
    /// project, if the formatter has one.
    fn config_file(&self) -> (r: Option<&str>)
        ensures
            match self.config_path() {
                Some(p) => r matches Some(q) && q@ == p,
                None => r is None,
            },
    ;
}

} // verus!
