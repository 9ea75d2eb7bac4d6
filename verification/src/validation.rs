//! The mistakes that validation finds in a manifest, and their messages.

use crate::strset::{duplicates, lemma_repeated, repeated};
use crate::text::ref_views;
use vstd::prelude::*;
use vstd::string::StringExecFns;

verus! {

/// One inconsistency of a manifest. A mistake borrows the texts it cites
/// from the manifest.
#[derive(Debug)]
pub enum ManifestMistake<'a> {
    PathDoesnotExist { path: &'a str, key: &'a str },
    InvalidOutputDir { path: &'a str, key: &'a str },
    NonUniqueDirs,
    QueryTemplateRefNotFound { query_id: &'a str, template: &'a str },
    QueryRefNotFound { query_id: &'a str, test_template: &'a str },
    InvalidConds { query_id: &'a str, conds: Vec<&'a str> },
    Duplicates { key: &'a str, value: &'a str },
    InvalidQueryOutput { query_id: &'a str, output_path: &'a str },
    DisparateQueryOutputs,
}

/// A mistake as contracts see it: the same cases over character sequences.
pub ghost enum MistakeView {
    PathDoesnotExist { path: Seq<char>, key: Seq<char> },
    InvalidOutputDir { path: Seq<char>, key: Seq<char> },
    NonUniqueDirs,
    QueryTemplateRefNotFound { query_id: Seq<char>, template: Seq<char> },
    QueryRefNotFound { query_id: Seq<char>, test_template: Seq<char> },
    InvalidConds { query_id: Seq<char>, conds: Seq<Seq<char>> },
    Duplicates { key: Seq<char>, value: Seq<char> },
    InvalidQueryOutput { query_id: Seq<char>, output_path: Seq<char> },
    DisparateQueryOutputs,
}

impl<'a> View for ManifestMistake<'a> {
    type V = MistakeView;

    open spec fn view(&self) -> MistakeView {
        match *self {
            ManifestMistake::PathDoesnotExist { path, key } => MistakeView::PathDoesnotExist {
                path: path@,
                key: key@,
            },
            ManifestMistake::InvalidOutputDir { path, key } => MistakeView::InvalidOutputDir {
                path: path@,
                key: key@,
            },
            ManifestMistake::NonUniqueDirs => MistakeView::NonUniqueDirs,
            ManifestMistake::QueryTemplateRefNotFound {
                query_id,
                template,
            } => MistakeView::QueryTemplateRefNotFound { query_id: query_id@, template: template@ },
            ManifestMistake::QueryRefNotFound {
                query_id,
                test_template,
            } => MistakeView::QueryRefNotFound {
                query_id: query_id@,
                test_template: test_template@,
            },
            ManifestMistake::InvalidConds { query_id, conds } => MistakeView::InvalidConds {
                query_id: query_id@,
                conds: ref_views(conds@),
            },
            ManifestMistake::Duplicates { key, value } => MistakeView::Duplicates {
                key: key@,
                value: value@,
            },
            ManifestMistake::InvalidQueryOutput {
                query_id,
                output_path,
            } => MistakeView::InvalidQueryOutput {
                query_id: query_id@,
                output_path: output_path@,
            },
            ManifestMistake::DisparateQueryOutputs => MistakeView::DisparateQueryOutputs,
        }
    }
}

/// The views of a list of mistakes, in order.
pub open spec fn mistake_views(mistakes: Seq<ManifestMistake>) -> Seq<MistakeView> {
    mistakes.map_values(|m: ManifestMistake| m@)
}

/// One mistake for each value that occurs more than once among `values`,
/// in the order of the first occurrences. `key` names the values.
pub open spec fn duplicate_mistakes(key: Seq<char>, values: Seq<Seq<char>>) -> Seq<MistakeView> {
    repeated(values).map_values(|v: Seq<char>| MistakeView::Duplicates { key, value: v })
}

/// A value that occurs more than once is reported, and reported once; a
/// value that occurs once is not reported.
pub proof fn lemma_duplicate_mistakes(key: Seq<char>, values: Seq<Seq<char>>)
    ensures
        duplicate_mistakes(key, values).no_duplicates(),
        forall|v: Seq<char>|
            duplicate_mistakes(key, values).contains(
                MistakeView::Duplicates { key, value: v },
            ) <==> exists|i: int, j: int|
                0 <= i < j < values.len() && values[i] == v && values[j] == v,
{
    lemma_repeated(values);
    let found = repeated(values);
    let ms = duplicate_mistakes(key, values);
    assert forall|v: Seq<char>|
        ms.contains(MistakeView::Duplicates { key, value: v }) <==> exists|i: int, j: int|
            0 <= i < j < values.len() && values[i] == v && values[j] == v by {
        assert(found.contains(v) <==> exists|i: int, j: int|
            0 <= i < j < values.len() && values[i] == v && values[j] == v);
        if found.contains(v) {
            let i = choose|i: int| 0 <= i < found.len() && found[i] == v;
            assert(ms[i] == MistakeView::Duplicates { key, value: v });
        }
        if ms.contains(MistakeView::Duplicates { key, value: v }) {
            let i = choose|i: int|
                0 <= i < ms.len() && ms[i] == (MistakeView::Duplicates { key, value: v });
            assert(found[i] == v);
        }
    }
    assert forall|i: int, j: int| 0 <= i < ms.len() && 0 <= j < ms.len() && i != j implies ms[i]
        != ms[j] by {
        assert(found[i] != found[j]);
    }
}

/// Appends one mistake for each string that occurs more than once among
/// `values`.
pub fn push_duplicates<'a>(
    mistakes: &mut Vec<ManifestMistake<'a>>,
    key: &'a str,
    values: &Vec<&'a str>,
)
    ensures
        mistake_views(final(mistakes)@) == mistake_views(old(mistakes)@) + duplicate_mistakes(
            key@,
            ref_views(values@),
        ),
{
    let dups = duplicates(values);
    let ghost all = duplicate_mistakes(key@, ref_views(values@));
    let mut i: usize = 0;
    assert(mistake_views(mistakes@) + all.take(0) =~= mistake_views(mistakes@));
    while i < dups.len()
        invariant
            i <= dups@.len(),
            ref_views(dups@) == repeated(ref_views(values@)),
            all == duplicate_mistakes(key@, ref_views(values@)),
            mistake_views(mistakes@) == mistake_views(old(mistakes)@) + all.take(i as int),
        decreases dups@.len() - i,
    {
        let m = ManifestMistake::Duplicates { key, value: dups[i] };
        proof {
            assert(ref_views(dups@)[i as int] == dups@[i as int]@);
            assert(all[i as int] == m@);
            assert(all.take(i + 1) =~= all.take(i as int).push(m@));
            assert(mistake_views(mistakes@.push(m)) =~= mistake_views(mistakes@).push(m@));
        }
        mistakes.push(m);
        i += 1;
    }
    assert(all.take(dups@.len() as int) =~= all);
}

/// How `{:?}` writes a list of strings.
pub uninterp spec fn debug_list_of(items: Seq<Seq<char>>) -> Seq<char>;

/// `format!` with `{:?}` on a list of strings.
#[verifier::external_body]
fn debug_list(items: &Vec<&str>) -> (r: String)
    ensures
        r@ == debug_list_of(ref_views(items@)),
{
    format!("{items:?}")
}

/// The message that reports a mistake to the user.
pub open spec fn message_of(m: MistakeView) -> Seq<char> {
    match m {
        MistakeView::PathDoesnotExist { path, key } => "Path '"@ + path
            + "' does not exist; key: '"@ + key + "'"@,
        MistakeView::InvalidOutputDir { path, key } => "Invalid output dir path "@ + key + " = "@
            + path + " (must not be root or empty)"@,
        MistakeView::NonUniqueDirs => "Values for all '*_dir' keys in the manifest file must be unique"@,
        MistakeView::QueryTemplateRefNotFound { query_id, template } => "Query '"@ + query_id
            + "' refers to unknown template: '"@ + template + "'"@,
        MistakeView::QueryRefNotFound { query_id, test_template } => "Test template '"@
            + test_template + "' refers to unknown query '"@ + query_id + "'"@,
        MistakeView::InvalidConds { query_id, conds } => "Invalid 'conds': "@ + debug_list_of(conds)
            + " defined for query: '"@ + query_id + "'"@,
        MistakeView::Duplicates { key, value } => "Duplicates found; key: '"@ + key
            + "', value: '"@ + value + "'"@,
        MistakeView::InvalidQueryOutput { query_id, output_path } => "Query output for '"@
            + query_id + "' is "@ + output_path
            + "; Expected to be same as 'query_output_file' when layout = one-file-all-queries"@,
        MistakeView::DisparateQueryOutputs => "Disparate query outputs found. All expected to be same as 'query_output_file' when layout = one-file-all-queries"@,
    }
}

/// `a`, `b`, `c`, `d` and `e` in a row.
fn join5(a: &str, b: &str, c: &str, d: &str, e: &str) -> (r: String)
    ensures
        r@ == a@ + b@ + c@ + d@ + e@,
{
    let mut r = String::from_str(a);
    r.append(b);
    r.append(c);
    r.append(d);
    r.append(e);
    r
}

impl<'a> ManifestMistake<'a> {
    /// The message that reports the mistake to the user.
    pub fn err_msg(&self) -> (r: String)
        ensures
            r@ == message_of(self@),
    {
        match self {
            Self::PathDoesnotExist { path, key } => join5(
                "Path '",
                path,
                "' does not exist; key: '",
                key,
                "'",
            ),
            Self::InvalidOutputDir { path, key } => join5(
                "Invalid output dir path ",
                key,
                " = ",
                path,
                " (must not be root or empty)",
            ),
            Self::NonUniqueDirs => String::from_str(
                "Values for all '*_dir' keys in the manifest file must be unique",
            ),
            Self::QueryTemplateRefNotFound { query_id, template } => join5(
                "Query '",
                query_id,
                "' refers to unknown template: '",
                template,
                "'",
            ),
            Self::QueryRefNotFound { query_id, test_template } => join5(
                "Test template '",
                test_template,
                "' refers to unknown query '",
                query_id,
                "'",
            ),
            Self::InvalidConds { query_id, conds } => {
                let list = debug_list(conds);
                join5("Invalid 'conds': ", list.as_str(), " defined for query: '", query_id, "'")
            },
            Self::Duplicates { key, value } => join5(
                "Duplicates found; key: '",
                key,
                "', value: '",
                value,
                "'",
            ),
            Self::InvalidQueryOutput { query_id, output_path } => join5(
                "Query output for '",
                query_id,
                "' is ",
                output_path,
                "; Expected to be same as 'query_output_file' when layout = one-file-all-queries",
            ),
            Self::DisparateQueryOutputs => String::from_str(
                "Disparate query outputs found. All expected to be same as 'query_output_file' when layout = one-file-all-queries",
            ),
        }
    }
}

/// Checks a path that the manifest names under `key`, given whether it
/// exists on disk.
pub fn validate_path<'a>(path: &'a str, key: &'a str, exists: bool) -> (r: Result<
    (),
    ManifestMistake<'a>,
>)
    ensures
        exists ==> r is Ok,
        !exists ==> (r matches Err(m) && m@ == (MistakeView::PathDoesnotExist {
            path: path@,
            key: key@,
        })),
{
    if exists {
        Ok(())
    } else {
        Err(ManifestMistake::PathDoesnotExist { key, path })
    }
}

} // verus!
