//! The manifest: the settings and the three collections that drive every
//! command, how it is read from a configuration table, and how it is
//! validated.

use crate::config::{decode_pathbuf, path_value, Value};
use crate::error::Error;
use crate::formatters::{formatter_value, Formatter, FormatterView};
use crate::output::{layout_value, Layout, LayoutView};
use crate::paths::{has_parent, parent_exists};
use crate::placeholder::{placeholder_value, Placeholder};
use crate::query::{
    outputs_differ, outputs_of, queries_mistakes, queries_value, used_templates, Queries,
    QueryView,
};
use crate::query_template::{
    query_templates_mistakes, query_templates_value, template_paths, QueryTemplateView,
    QueryTemplates,
};
use crate::strset::minus;
use crate::tagging::{tagger_value, NameTagStyle, NameTagger};
use crate::test_template::{
    test_template_paths, test_templates_mistakes, test_templates_value, TestTemplateView,
    TestTemplates,
};
use crate::text::{contains_str, owned, ref_views, str_eq, views};
use crate::validation::{mistake_views, validate_path, ManifestMistake, MistakeView};
use vstd::prelude::*;

verus! {

/// The manifest of a project.
#[derive(Debug)]
pub struct Metadata {
    pub placeholder: Placeholder,
    pub query_templates_dir: String,
    pub test_templates_dir: String,
    pub formatter: Option<Formatter>,
    pub queries_output_dir: String,
    pub tests_output_dir: String,
    pub query_output_layout: Layout,
    pub name_tagger: Option<NameTagger>,
    pub query_templates: QueryTemplates,
    pub queries: Queries,
    pub test_templates: TestTemplates,
}

pub ghost struct MetadataView {
    pub placeholder: Placeholder,
    pub query_templates_dir: Seq<char>,
    pub test_templates_dir: Seq<char>,
    pub formatter: Option<FormatterView>,
    pub queries_output_dir: Seq<char>,
    pub tests_output_dir: Seq<char>,
    pub query_output_layout: LayoutView,
    pub name_tagger: Option<NameTagStyle>,
    pub query_templates: Seq<QueryTemplateView>,
    pub queries: Seq<QueryView>,
    pub test_templates: Seq<TestTemplateView>,
}

impl View for Metadata {
    type V = MetadataView;

    open spec fn view(&self) -> MetadataView {
        MetadataView {
            placeholder: self.placeholder,
            query_templates_dir: self.query_templates_dir@,
            test_templates_dir: self.test_templates_dir@,
            formatter: match self.formatter {
                Some(f) => Some(f@),
                None => None,
            },
            queries_output_dir: self.queries_output_dir@,
            tests_output_dir: self.tests_output_dir@,
            query_output_layout: self.query_output_layout@,
            name_tagger: match self.name_tagger {
                Some(t) => Some(t.style),
                None => None,
            },
            query_templates: self.query_templates@,
            queries: self.queries@,
            test_templates: self.test_templates@,
        }
    }
}

/// Something that the user should know of and that does not make the
/// manifest invalid.
#[derive(Debug)]
pub enum Warning<'a> {
    /// A query template that no query uses.
    UnusedQueryTemplate(&'a str),
    /// A file among the query templates that the manifest does not declare.
    UndeclaredQueryTemplate(&'a str),
    /// A file among the test templates that the manifest does not declare.
    UndeclaredTestTemplate(&'a str),
    /// All queries share one file, and no name tagger is configured.
    NameTaggerRecommended,
}

pub ghost enum WarningView {
    UnusedQueryTemplate(Seq<char>),
    UndeclaredQueryTemplate(Seq<char>),
    UndeclaredTestTemplate(Seq<char>),
    NameTaggerRecommended,
}

impl<'a> View for Warning<'a> {
    type V = WarningView;

    open spec fn view(&self) -> WarningView {
        match *self {
            Warning::UnusedQueryTemplate(p) => WarningView::UnusedQueryTemplate(p@),
            Warning::UndeclaredQueryTemplate(p) => WarningView::UndeclaredQueryTemplate(p@),
            Warning::UndeclaredTestTemplate(p) => WarningView::UndeclaredTestTemplate(p@),
            Warning::NameTaggerRecommended => WarningView::NameTaggerRecommended,
        }
    }
}

/// The text with which a warning is given to the user.
pub open spec fn warning_text(w: WarningView) -> Seq<char> {
    match w {
        WarningView::UnusedQueryTemplate(p) => "Unused query template found in manifest: "@ + p,
        WarningView::UndeclaredQueryTemplate(p) =>
            "Did you miss defining query template in manifest? "@ + p,
        WarningView::UndeclaredTestTemplate(p) =>
            "Did you miss defining test template in manifest? "@ + p,
        WarningView::NameTaggerRecommended =>
            "Name tagging is recommended in case of 'one-file-all-queries' layout"@,
    }
}

impl<'a> Warning<'a> {
    /// The text with which the warning is given to the user.
    pub fn message(&self) -> (r: String)
        ensures
            r@ == warning_text(self@),
    {
        match self {
            Warning::UnusedQueryTemplate(p) => crate::text::join2(
                "Unused query template found in manifest: ",
                p,
            ),
            Warning::UndeclaredQueryTemplate(p) => crate::text::join2(
                "Did you miss defining query template in manifest? ",
                p,
            ),
            Warning::UndeclaredTestTemplate(p) => crate::text::join2(
                "Did you miss defining test template in manifest? ",
                p,
            ),
            Warning::NameTaggerRecommended => owned(
                "Name tagging is recommended in case of 'one-file-all-queries' layout",
            ),
        }
    }
}

/// The views of a list of warnings, in order.
pub open spec fn warning_views(warnings: Seq<Warning>) -> Seq<WarningView> {
    warnings.map_values(|w: Warning| w@)
}

/// The directory under `key`, which must be there.
pub open spec fn dir_value(table: Value, key: Seq<char>, missing: Seq<char>, label: Seq<char>) -> Result<
    Seq<char>,
    Seq<char>,
> {
    match table.field(key) {
        Some(v) => path_value(v, None, label),
        None => Err(missing),
    }
}

/// The layout that the table gives: the default where it names none.
pub open spec fn layout_of(table: Value, queries_output_dir: Seq<char>) -> Result<
    LayoutView,
    Seq<char>,
> {
    match table.field("query_output_layout"@) {
        Some(v) => layout_value(v, table.field("query_output_file"@), queries_output_dir),
        None => Ok(LayoutView::OneFileOneQuery),
    }
}

/// What a configuration table stands for: a manifest, or the message of the
/// first error, the keys taken in the order placeholder, the four
/// directories, formatter, layout, name tagger, query templates, queries,
/// test templates. A collection that the table does not hold is empty.
pub open spec fn metadata_value(table: Value) -> Result<MetadataView, Seq<char>> {
    match table.field("placeholder"@) {
        None => Err("Key 'placeholder' is missing"@),
        Some(pv) => match placeholder_value(pv) {
            Err(msg) => Err(msg),
            Ok(placeholder) => match dir_value(
                table,
                "query_templates_dir"@,
                "Key 'query_templates_dir' is missing"@,
                "query_templates_dir"@,
            ) {
                Err(msg) => Err(msg),
                Ok(query_templates_dir) => match dir_value(
                    table,
                    "test_templates_dir"@,
                    "Key 'test_templates_dir' is missing"@,
                    "test_templates_dir"@,
                ) {
                    Err(msg) => Err(msg),
                    Ok(test_templates_dir) => match dir_value(
                        table,
                        "queries_output_dir"@,
                        "Key 'queries_output_dir' is missing"@,
                        "query_output_dir"@,
                    ) {
                        Err(msg) => Err(msg),
                        Ok(queries_output_dir) => match dir_value(
                            table,
                            "tests_output_dir"@,
                            "Key 'tests_output_dir' is missing"@,
                            "tests_output_dir"@,
                        ) {
                            Err(msg) => Err(msg),
                            Ok(tests_output_dir) => collections_value(
                                table,
                                placeholder,
                                query_templates_dir,
                                test_templates_dir,
                                queries_output_dir,
                                tests_output_dir,
                            ),
                        },
                    },
                },
            },
        },
    }
}

/// The rest of a manifest, once the placeholder and the directories are
/// known.
pub open spec fn collections_value(
    table: Value,
    placeholder: Placeholder,
    query_templates_dir: Seq<char>,
    test_templates_dir: Seq<char>,
    queries_output_dir: Seq<char>,
    tests_output_dir: Seq<char>,
) -> Result<MetadataView, Seq<char>> {
    let formatter = match table.field("formatter"@) {
        Some(v) => formatter_value(v),
        None => Ok(None),
    };
    match formatter {
        Err(msg) => Err(msg),
        Ok(formatter) => match layout_of(table, queries_output_dir) {
            Err(msg) => Err(msg),
            Ok(query_output_layout) => {
                let tagger = match table.field("name_tagger"@) {
                    Some(v) => tagger_value(v),
                    None => Ok(None),
                };
                match tagger {
                    Err(msg) => Err(msg),
                    Ok(name_tagger) => {
                        let templates = match table.field("query_templates"@) {
                            Some(v) => query_templates_value(query_templates_dir, v),
                            None => Ok(Seq::empty()),
                        };
                        match templates {
                            Err(msg) => Err(msg),
                            Ok(query_templates) => {
                                let queries = match table.field("queries"@) {
                                    Some(v) => queries_value(
                                        query_templates_dir,
                                        queries_output_dir,
                                        query_output_layout,
                                        v,
                                    ),
                                    None => Ok(Seq::empty()),
                                };
                                match queries {
                                    Err(msg) => Err(msg),
                                    Ok(queries) => {
                                        let tests = match table.field("test_templates"@) {
                                            Some(v) => test_templates_value(
                                                test_templates_dir,
                                                tests_output_dir,
                                                v,
                                            ),
                                            None => Ok(Seq::empty()),
                                        };
                                        match tests {
                                            Err(msg) => Err(msg),
                                            Ok(test_templates) => Ok(
                                                MetadataView {
                                                    placeholder,
                                                    query_templates_dir,
                                                    test_templates_dir,
                                                    formatter,
                                                    queries_output_dir,
                                                    tests_output_dir,
                                                    query_output_layout,
                                                    name_tagger,
                                                    query_templates,
                                                    queries,
                                                    test_templates,
                                                },
                                            ),
                                        }
                                    },
                                }
                            },
                        }
                    },
                }
            },
        },
    }
}

/// The four directories are not pairwise distinct.
pub open spec fn dirs_collide(m: MetadataView) -> bool {
    ||| m.query_templates_dir == m.test_templates_dir
    ||| m.query_templates_dir == m.queries_output_dir
    ||| m.query_templates_dir == m.tests_output_dir
    ||| m.test_templates_dir == m.queries_output_dir
    ||| m.test_templates_dir == m.tests_output_dir
    ||| m.queries_output_dir == m.tests_output_dir
}

/// One mistake if `path` is not among `existing`.
pub open spec fn missing_dir(path: Seq<char>, key: Seq<char>, existing: Seq<Seq<char>>) -> Seq<
    MistakeView,
> {
    if existing.contains(path) {
        Seq::empty()
    } else {
        seq![MistakeView::PathDoesnotExist { path, key }]
    }
}

/// One mistake if the output directory `path` has no parent, as a root and
/// the empty path have none.
pub open spec fn rootless_dir(path: Seq<char>, key: Seq<char>) -> Seq<MistakeView> {
    if has_parent(path) {
        Seq::empty()
    } else {
        seq![MistakeView::InvalidOutputDir { path, key }]
    }
}

/// The mistakes among the directories: a template directory that does not
/// exist, an output directory without a parent, directories that collide.
pub open spec fn dir_mistakes(m: MetadataView, existing: Seq<Seq<char>>) -> Seq<MistakeView> {
    missing_dir(m.query_templates_dir, "query_templates_dir"@, existing) + missing_dir(
        m.test_templates_dir,
        "test_templates_dir"@,
        existing,
    ) + rootless_dir(m.queries_output_dir, "queries_output_dir"@) + rootless_dir(
        m.tests_output_dir,
        "tests_output_dir"@,
    ) + (if dirs_collide(m) {
        seq![MistakeView::NonUniqueDirs]
    } else {
        Seq::empty()
    })
}

/// Every mistake of a manifest, in the order in which validation reports
/// them: the directories, the query templates, the queries, the test
/// templates. `existing` lists the paths that exist on disk.
pub open spec fn metadata_mistakes(m: MetadataView, existing: Seq<Seq<char>>) -> Seq<MistakeView> {
    dir_mistakes(m, existing) + query_templates_mistakes(m.query_templates, existing)
        + queries_mistakes(m.queries, m.query_templates, m.query_output_layout)
        + test_templates_mistakes(m.test_templates, m.queries, existing)
}

/// The file that all queries share, where they share one: none where each
/// query has its own file; the file that the manifest names; else the one
/// output that all queries have. Where the queries have no output or
/// several, the file cannot be told.
pub open spec fn combined_file(m: MetadataView) -> Result<Option<Seq<char>>, Seq<char>> {
    match m.query_output_layout {
        LayoutView::OneFileOneQuery => Ok(None),
        LayoutView::OneFileAllQueries(Some(file)) => Ok(Some(file)),
        LayoutView::OneFileAllQueries(None) => {
            let outputs = outputs_of(m.queries);
            if outputs.len() > 0 && !outputs_differ(outputs) {
                Ok(Some(outputs[0]))
            } else {
                Err("Common output file is required when layout = one-file-all-queries"@)
            }
        },
    }
}

/// The warnings of a manifest: the query templates that no query uses, the
/// files among the query templates and among the test templates that the
/// manifest does not declare, and the missing name tagger where all queries
/// share one file.
pub open spec fn metadata_warnings(
    m: MetadataView,
    query_template_files: Seq<Seq<char>>,
    test_template_files: Seq<Seq<char>>,
) -> Seq<WarningView> {
    minus(template_paths(m.query_templates), used_templates(m.queries)).map_values(
        |p: Seq<char>| WarningView::UnusedQueryTemplate(p),
    ) + minus(query_template_files, template_paths(m.query_templates)).map_values(
        |p: Seq<char>| WarningView::UndeclaredQueryTemplate(p),
    ) + minus(test_template_files, test_template_paths(m.test_templates)).map_values(
        |p: Seq<char>| WarningView::UndeclaredTestTemplate(p),
    ) + (if m.query_output_layout is OneFileAllQueries && m.name_tagger is None {
        seq![WarningView::NameTaggerRecommended]
    } else {
        Seq::empty()
    })
}

/// Decodes the directory under `key`.
fn decode_dir(table: &Value, key: &str, missing: &str, label: &str) -> (r: Result<String, Error>)
    ensures
        crate::error::decoded(r, dir_value(*table, key@, missing@, label@)),
{
    match table.get(key) {
        Some(v) => decode_pathbuf(v, None, label),
        None => Err(Error::Parsing(owned(missing))),
    }
}

/// Appends to `out` a warning for each path of `candidates` that is not
/// among `known`.
fn push_unknown<'a>(
    out: &mut Vec<Warning<'a>>,
    candidates: &Vec<&'a str>,
    known: &Vec<&str>,
    kind: u8,
)
    requires
        kind < 3,
    ensures
        warning_views(final(out)@) == warning_views(old(out)@) + minus(
            ref_views(candidates@),
            ref_views(known@),
        ).map_values(
            |p: Seq<char>|
                if kind == 0 {
                    WarningView::UnusedQueryTemplate(p)
                } else if kind == 1 {
                    WarningView::UndeclaredQueryTemplate(p)
                } else {
                    WarningView::UndeclaredTestTemplate(p)
                },
        ),
{
    let ghost pred = |x: Seq<char>| !ref_views(known@).contains(x);
    let ghost wrap = |p: Seq<char>|
        if kind == 0 {
            WarningView::UnusedQueryTemplate(p)
        } else if kind == 1 {
            WarningView::UndeclaredQueryTemplate(p)
        } else {
            WarningView::UndeclaredTestTemplate(p)
        };
    let ghost all = ref_views(candidates@);
    let mut i: usize = 0;
    proof {
        assert(all.take(0) =~= Seq::<Seq<char>>::empty());
        assert(warning_views(out@) + all.take(0).filter(pred).map_values(wrap) =~= warning_views(
            out@,
        ));
    }
    while i < candidates.len()
        invariant
            i <= candidates@.len(),
            kind < 3,
            all == ref_views(candidates@),
            pred == |x: Seq<char>| !ref_views(known@).contains(x),
            wrap == |p: Seq<char>|
                if kind == 0 {
                    WarningView::UnusedQueryTemplate(p)
                } else if kind == 1 {
                    WarningView::UndeclaredQueryTemplate(p)
                } else {
                    WarningView::UndeclaredTestTemplate(p)
                },
            warning_views(out@) == warning_views(old(out)@) + all.take(i as int).filter(
                pred,
            ).map_values(wrap),
        decreases candidates@.len() - i,
    {
        let path = candidates[i];
        let mut found = false;
        let mut k: usize = 0;
        while k < known.len()
            invariant
                k <= known@.len(),
                !found ==> forall|j: int| 0 <= j < k ==> (#[trigger] ref_views(known@)[j]) != path@,
                found ==> ref_views(known@).contains(path@),
            decreases known@.len() - k,
        {
            if str_eq(known[k], path) {
                assert(ref_views(known@)[k as int] == path@);
                found = true;
            }
            k += 1;
        }
        proof {
            assert(all.take(i + 1) =~= all.take(i as int).push(path@));
            Seq::lemma_filter_push(all.take(i as int), path@, pred);
        }
        if !found {
            let w = if kind == 0 {
                Warning::UnusedQueryTemplate(path)
            } else if kind == 1 {
                Warning::UndeclaredQueryTemplate(path)
            } else {
                Warning::UndeclaredTestTemplate(path)
            };
            proof {
                assert(warning_views(out@.push(w)) =~= warning_views(out@).push(w@));
                assert(all.take(i as int).filter(pred).push(path@).map_values(wrap) =~= all.take(
                    i as int,
                ).filter(pred).map_values(wrap).push(w@));
            }
            out.push(w);
        }
        i += 1;
    }
    assert(all.take(candidates@.len() as int) =~= all);
}

impl Metadata {
    /// Reads a manifest from the text of its file: the text is parsed as a
    /// document of the configuration language, and the manifest is decoded
    /// from the table that it holds.
    pub fn from_toml(text: &str) -> (r: Result<Self, Error>)
        ensures
            match crate::config::parsed(text@) {
                Some(table) => crate::error::decoded(r, metadata_value(table)),
                None => r matches Err(Error::Toml(_)),
            },
    {
        let table = match crate::config::parse(text) {
            Ok(table) => table,
            Err(e) => return Err(e),
        };
        Self::try_from(&table)
    }

    /// Decodes a manifest from its configuration table.
    pub fn try_from(table: &Value) -> (r: Result<Self, Error>)
        ensures
            crate::error::decoded(r, metadata_value(*table)),
    {
        let placeholder = match table.get("placeholder") {
            Some(v) => match Placeholder::try_from(v) {
                Ok(p) => p,
                Err(e) => return Err(e),
            },
            None => return Err(Error::Parsing(owned("Key 'placeholder' is missing"))),
        };
        let query_templates_dir = match decode_dir(
            table,
            "query_templates_dir",
            "Key 'query_templates_dir' is missing",
            "query_templates_dir",
        ) {
            Ok(d) => d,
            Err(e) => return Err(e),
        };
        let test_templates_dir = match decode_dir(
            table,
            "test_templates_dir",
            "Key 'test_templates_dir' is missing",
            "test_templates_dir",
        ) {
            Ok(d) => d,
            Err(e) => return Err(e),
        };
        let queries_output_dir = match decode_dir(
            table,
            "queries_output_dir",
            "Key 'queries_output_dir' is missing",
            "query_output_dir",
        ) {
            Ok(d) => d,
            Err(e) => return Err(e),
        };
        let tests_output_dir = match decode_dir(
            table,
            "tests_output_dir",
            "Key 'tests_output_dir' is missing",
            "tests_output_dir",
        ) {
            Ok(d) => d,
            Err(e) => return Err(e),
        };
        let formatter = match table.get("formatter") {
            Some(v) => match Formatter::decode(v) {
                Ok(f) => f,
                Err(e) => return Err(e),
            },
            None => None,
        };
        let query_output_layout = match table.get("query_output_layout") {
            Some(v) => match Layout::decode(
                v,
                table.get("query_output_file"),
                queries_output_dir.as_str(),
            ) {
                Ok(l) => l,
                Err(e) => return Err(e),
            },
            None => Layout::default(),
        };
        let name_tagger = match table.get("name_tagger") {
            Some(v) => match NameTagger::decode(v) {
                Ok(t) => t,
                Err(e) => return Err(e),
            },
            None => None,
        };
        let query_templates = match table.get("query_templates") {
            Some(v) => match QueryTemplates::decode(query_templates_dir.as_str(), v) {
                Ok(t) => t,
                Err(e) => return Err(e),
            },
            None => QueryTemplates::new(),
        };
        let queries = match table.get("queries") {
            Some(v) => match Queries::decode(
                query_templates_dir.as_str(),
                queries_output_dir.as_str(),
                &query_output_layout,
                v,
            ) {
                Ok(q) => q,
                Err(e) => return Err(e),
            },
            None => Queries::new(),
        };
        let test_templates = match table.get("test_templates") {
            Some(v) => match TestTemplates::decode(
                test_templates_dir.as_str(),
                tests_output_dir.as_str(),
                v,
            ) {
                Ok(t) => t,
                Err(e) => return Err(e),
            },
            None => TestTemplates::new(),
        };
        proof {
            assert(query_templates@.len() == 0 ==> query_templates@ =~= Seq::<
                QueryTemplateView,
            >::empty());
            assert(queries@.len() == 0 ==> queries@ =~= Seq::<QueryView>::empty());
            assert(test_templates@.len() == 0 ==> test_templates@ =~= Seq::<
                TestTemplateView,
            >::empty());
        }
        Ok(
            Self {
                placeholder,
                query_templates_dir,
                test_templates_dir,
                queries_output_dir,
                tests_output_dir,
                formatter,
                query_output_layout,
                name_tagger,
                query_templates,
                queries,
                test_templates,
            },
        )
    }

    /// The manifest of a new project.
    pub fn default() -> (r: Self)
        ensures
            r@ == (MetadataView {
                placeholder: Placeholder::PosArgs,
                query_templates_dir: "templates/queries"@,
                test_templates_dir: "templates/tests"@,
                formatter: None,
                queries_output_dir: "output/queries"@,
                tests_output_dir: "output/tests"@,
                query_output_layout: LayoutView::OneFileOneQuery,
                name_tagger: Some(NameTagStyle::KebabCase),
                query_templates: Seq::empty(),
                queries: Seq::empty(),
                test_templates: Seq::empty(),
            }),
    {
        let r = Self {
            placeholder: Placeholder::PosArgs,
            query_templates_dir: owned("templates/queries"),
            test_templates_dir: owned("templates/tests"),
            formatter: None,
            queries_output_dir: owned("output/queries"),
            tests_output_dir: owned("output/tests"),
            query_output_layout: Layout::default(),
            name_tagger: Some(NameTagger { style: NameTagStyle::KebabCase }),
            query_templates: QueryTemplates::new(),
            queries: Queries::new(),
            test_templates: TestTemplates::new(),
        };
        proof {
            assert(r.query_templates@ =~= Seq::<QueryTemplateView>::empty());
            assert(r.queries@ =~= Seq::<QueryView>::empty());
            assert(r.test_templates@ =~= Seq::<TestTemplateView>::empty());
        }
        r
    }

    /// The paths that the manifest names and whose existence validation
    /// asks for: the two template directories and every template file.
    pub fn paths_to_check(&self) -> (r: Vec<&str>)
        ensures
            ref_views(r@) == seq![self.query_templates_dir@, self.test_templates_dir@]
                + template_paths(self.query_templates@) + test_template_paths(
                self.test_templates@,
            ),
    {
        let mut r: Vec<&str> = Vec::new();
        r.push(self.query_templates_dir.as_str());
        r.push(self.test_templates_dir.as_str());
        let mut templates = self.query_templates.paths();
        let mut tests = self.test_templates.paths();
        proof {
            assert(ref_views(r@ + templates@ + tests@) =~= seq![
                self.query_templates_dir@,
                self.test_templates_dir@,
            ] + ref_views(templates@) + ref_views(tests@));
        }
        r.append(&mut templates);
        r.append(&mut tests);
        r
    }

    /// The mistakes among the directories.
    fn validate_dirs<'a>(&'a self, existing: &Vec<String>) -> (mistakes: Vec<ManifestMistake<'a>>)
        ensures
            mistake_views(mistakes@) == dir_mistakes(self@, views(existing@)),
    {
        let ghost m = self@;
        let ghost there = views(existing@);
        let mut mistakes: Vec<ManifestMistake<'a>> = Vec::new();
        match validate_path(
            self.query_templates_dir.as_str(),
            "query_templates_dir",
            contains_str(existing, self.query_templates_dir.as_str()),
        ) {
            Ok(()) => {},
            Err(m) => mistakes.push(m),
        }
        let ghost first = missing_dir(m.query_templates_dir, "query_templates_dir"@, there);
        assert(mistake_views(mistakes@) =~= first);
        match validate_path(
            self.test_templates_dir.as_str(),
            "test_templates_dir",
            contains_str(existing, self.test_templates_dir.as_str()),
        ) {
            Ok(()) => {},
            Err(m) => mistakes.push(m),
        }
        let ghost second = first + missing_dir(m.test_templates_dir, "test_templates_dir"@, there);
        assert(mistake_views(mistakes@) =~= second);
        if !parent_exists(self.queries_output_dir.as_str()) {
            mistakes.push(
                ManifestMistake::InvalidOutputDir {
                    path: self.queries_output_dir.as_str(),
                    key: "queries_output_dir",
                },
            );
        }
        let ghost third = second + rootless_dir(m.queries_output_dir, "queries_output_dir"@);
        assert(mistake_views(mistakes@) =~= third);
        if !parent_exists(self.tests_output_dir.as_str()) {
            mistakes.push(
                ManifestMistake::InvalidOutputDir {
                    path: self.tests_output_dir.as_str(),
                    key: "tests_output_dir",
                },
            );
        }
        let ghost fourth = third + rootless_dir(m.tests_output_dir, "tests_output_dir"@);
        assert(mistake_views(mistakes@) =~= fourth);
        let a = self.query_templates_dir.as_str();
        let b = self.test_templates_dir.as_str();
        let c = self.queries_output_dir.as_str();
        let d = self.tests_output_dir.as_str();
        if str_eq(a, b) || str_eq(a, c) || str_eq(a, d) || str_eq(b, c) || str_eq(b, d) || str_eq(
            c,
            d,
        ) {
            mistakes.push(ManifestMistake::NonUniqueDirs);
        }
        assert(mistake_views(mistakes@) =~= fourth + (if dirs_collide(m) {
            seq![MistakeView::NonUniqueDirs]
        } else {
            Seq::empty()
        }));
        mistakes
    }

    /// Every mistake of the manifest. `existing` lists the paths that exist
    /// on disk. No mistake stops the validation: all are collected.
    pub fn validate<'a>(&'a self, existing: &Vec<String>) -> (mistakes: Vec<ManifestMistake<'a>>)
        ensures
            mistake_views(mistakes@) == metadata_mistakes(self@, views(existing@)),
    {
        let mut mistakes = self.validate_dirs(existing);
        let mut found = self.query_templates.validate(existing);
        proof {
            assert(mistake_views(mistakes@ + found@) =~= mistake_views(mistakes@) + mistake_views(
                found@,
            ));
        }
        mistakes.append(&mut found);
        let mut found = self.queries.validate(&self.query_templates, &self.query_output_layout);
        proof {
            assert(mistake_views(mistakes@ + found@) =~= mistake_views(mistakes@) + mistake_views(
                found@,
            ));
        }
        mistakes.append(&mut found);
        let mut found = self.test_templates.validate(&self.queries, existing);
        proof {
            assert(mistake_views(mistakes@ + found@) =~= mistake_views(mistakes@) + mistake_views(
                found@,
            ));
        }
        mistakes.append(&mut found);
        mistakes
    }

    /// The warnings of the manifest. The two lists hold the files found in
    /// the directory of the query templates and in that of the test
    /// templates.
    pub fn warnings<'a>(
        &'a self,
        query_template_files: &'a Vec<String>,
        test_template_files: &'a Vec<String>,
    ) -> (r: Vec<Warning<'a>>)
        ensures
            warning_views(r@) == metadata_warnings(
                self@,
                views(query_template_files@),
                views(test_template_files@),
            ),
    {
        let mut out: Vec<Warning<'a>> = Vec::new();
        let defined = self.query_templates.paths();
        let used = self.queries.templates();
        let tests = self.test_templates.paths();
        let qfiles = crate::text::as_refs(query_template_files);
        let tfiles = crate::text::as_refs(test_template_files);
        assert(warning_views(out@) =~= Seq::<WarningView>::empty());
        push_unknown(&mut out, &defined, &used, 0);
        push_unknown(&mut out, &qfiles, &defined, 1);
        push_unknown(&mut out, &tfiles, &tests, 2);
        match &self.query_output_layout {
            Layout::OneFileAllQueries(_) => {
                if self.name_tagger.is_none() {
                    let w = Warning::NameTaggerRecommended;
                    assert(warning_views(out@.push(w)) =~= warning_views(out@) + seq![
                        WarningView::NameTaggerRecommended,
                    ]);
                    out.push(w);
                }
            },
            Layout::OneFileOneQuery => {},
        }
        assert(warning_views(out@) =~= metadata_warnings(
            self@,
            views(query_template_files@),
            views(test_template_files@),
        ));
        out
    }

    /// The file that all queries share, where they share one.
    pub fn combined_output_file(&self) -> (r: Result<Option<&str>, Error>)
        ensures
            match combined_file(self@) {
                Ok(Some(file)) => r matches Ok(Some(f)) && f@ == file,
                Ok(None) => r matches Ok(None),
                Err(msg) => r matches Err(Error::Layout(m)) && m@ == msg,
            },
    {
        match &self.query_output_layout {
            Layout::OneFileOneQuery => Ok(None),
            Layout::OneFileAllQueries(output_file) => match output_file {
                Some(filepath) => Ok(Some(filepath.as_str())),
                None => {
                    let outputs = self.queries.output_files();
                    let ghost outs = ref_views(outputs@);
                    assert(outs == outputs_of(self.queries@));
                    if outputs.len() == 0 {
                        return Err(
                            Error::Layout(
                                owned(
                                    "Common output file is required when layout = one-file-all-queries",
                                ),
                            ),
                        );
                    }
                    let mut i: usize = 1;
                    while i < outputs.len()
                        invariant
                            1 <= i,
                            outs == ref_views(outputs@),
                            outs == outputs_of(self@.queries),
                            self@.query_output_layout == LayoutView::OneFileAllQueries(None),
                            forall|j: int|
                                0 <= j < i && j < outs.len() ==> #[trigger] outs[j] == outs[0],
                        decreases outputs@.len() - i,
                    {
                        if !str_eq(outputs[i], outputs[0]) {
                            assert(outs[i as int] != outs[0]);
                            assert(outputs_differ(outs));
                            return Err(
                                Error::Layout(
                                    owned(
                                        "Common output file is required when layout = one-file-all-queries",
                                    ),
                                ),
                            );
                        }
                        i += 1;
                    }
                    assert(outs[0] == outputs@[0]@);
                    Ok(Some(outputs[0]))
                },
            },
        }
    }
}

} // verus!
