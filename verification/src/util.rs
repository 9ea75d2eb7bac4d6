//! Small helpers on paths.

use crate::paths::{extension, extension_of};
use crate::text::ends_with_char;
use vstd::prelude::*;

verus! {

/// The path has an extension that ends in a tilde, as the backup files of
/// some editors have.
pub open spec fn backup_file(path: Seq<char>) -> bool {
    match extension_of(path) {
        Some(ext) => ext.len() > 0 && ext.last() == '~',
        None => false,
    }
}

/// Whether the file at `path` is a backup file.
pub fn is_backup_file(path: &str) -> (r: bool)
    ensures
        r == backup_file(path@),
{
    match extension(path) {
        Some(ext) => ends_with_char(ext.as_str(), '~'),
        None => false,
    }
}

} // verus!
