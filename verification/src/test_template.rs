//! Test templates: a template file bound to a query, and where the rendered
//! test goes.

use crate::config::{
    decode_pathbuf, lookup, path_value, required_path, required_path_value, required_string,
    required_string_value, table_get, Value,
};
use crate::error::{decoded, Error};
use crate::paths::{
    extension, extension_of, file_name, file_name_of, file_stem, file_stem_of, join, joined,
};
use crate::query::{last_with_id, Queries, QueryView};
use crate::text::{contains_str, ends_with, join2, owned, ref_views, str_eq, views};
use crate::validation::{
    duplicate_mistakes, mistake_views, push_duplicates, validate_path, ManifestMistake,
    MistakeView,
};
use vstd::prelude::*;

verus! {

/// The output derived from the path of a test template: under `base_dir`,
/// the file name with `.sql.j2` or `.j2` replaced by `.sql`, or the file
/// name itself where it ends in `.sql`. Any other path is an error.
pub open spec fn test_output_of(path: Seq<char>, base_dir: Seq<char>) -> Result<
    Seq<char>,
    Seq<char>,
> {
    match extension_of(path) {
        Some(ext) => if ext == "j2"@ {
            let stem = file_stem_of(path).unwrap();
            if ".sql"@.is_suffix_of(stem) {
                Ok(joined(base_dir, stem))
            } else {
                Ok(joined(base_dir, stem + ".sql"@))
            }
        } else if ext == "sql"@ {
            Ok(joined(base_dir, file_name_of(path).unwrap()))
        } else {
            Err("Invalid 'path' in 'test_templates' entry"@)
        },
        None => Err("Invalid 'path' in 'test_templates' entry"@),
    }
}

/// The output derived from the path of a test template.
pub fn path_to_output(path: &str, base_dir: &str) -> (r: Result<String, Error>)
    ensures
        decoded(r, test_output_of(path@, base_dir@)),
{
    let ext = match extension(path) {
        Some(ext) => ext,
        None => return Err(Error::Parsing(owned("Invalid 'path' in 'test_templates' entry"))),
    };
    if str_eq(ext.as_str(), "j2") {
        match file_stem(path) {
            Some(stem) => {
                if ends_with(stem.as_str(), ".sql") {
                    Ok(join(base_dir, stem.as_str()))
                } else {
                    let name = join2(stem.as_str(), ".sql");
                    Ok(join(base_dir, name.as_str()))
                }
            },
            None => Err(Error::Parsing(owned("Invalid 'path' in 'test_templates' entry"))),
        }
    } else if str_eq(ext.as_str(), "sql") {
        match file_name(path) {
            Some(name) => Ok(join(base_dir, name.as_str())),
            None => Err(Error::Parsing(owned("Invalid 'path' in 'test_templates' entry"))),
        }
    } else {
        Err(Error::Parsing(owned("Invalid 'path' in 'test_templates' entry")))
    }
}

/// A template of a test for one query.
#[derive(Debug)]
pub struct TestTemplate {
    /// The id of the query under test.
    pub query: String,
    /// The path of the template file.
    pub path: String,
    /// The path of the output file.
    pub output: String,
}

pub ghost struct TestTemplateView {
    pub query: Seq<char>,
    pub path: Seq<char>,
    pub output: Seq<char>,
}

impl View for TestTemplate {
    type V = TestTemplateView;

    open spec fn view(&self) -> TestTemplateView {
        TestTemplateView { query: self.query@, path: self.path@, output: self.output@ }
    }
}

/// What an entry of `test_templates` stands for: a test template, or the
/// message of the first error among its fields, taken in the order query,
/// path, output.
pub open spec fn test_template_value(
    templates_base_dir: Seq<char>,
    output_base_dir: Seq<char>,
    value: Value,
) -> Result<TestTemplateView, Seq<char>> {
    match value {
        Value::Table(entries) => match required_string_value(
            entries@,
            "query"@,
            "Missing 'query' in 'test_templates' entry"@,
            "test_templates[].query"@,
        ) {
            Ok(query) => match required_path_value(
                entries@,
                "path"@,
                Some(templates_base_dir),
                "Missing 'path' in 'test_templates' entry"@,
                "test_templates[].template"@,
            ) {
                Ok(path) => {
                    let output = match lookup(entries@, "output"@) {
                        Some(v) => path_value(
                            v,
                            Some(output_base_dir),
                            "test_templates[].output"@,
                        ),
                        None => test_output_of(path, output_base_dir),
                    };
                    match output {
                        Ok(output) => Ok(TestTemplateView { query, path, output }),
                        Err(msg) => Err(msg),
                    }
                },
                Err(msg) => Err(msg),
            },
            Err(msg) => Err(msg),
        },
        _ => Err("Invalid 'test_templates' entry"@),
    }
}

/// The mistakes of one test template: its query is unknown, and its file is
/// not among `existing`.
pub open spec fn test_template_mistakes(
    t: TestTemplateView,
    queries: Seq<QueryView>,
    exists: bool,
) -> Seq<MistakeView> {
    let unknown = if last_with_id(queries, t.query) is None {
        seq![MistakeView::QueryRefNotFound { query_id: t.query, test_template: t.path }]
    } else {
        Seq::empty()
    };
    let missing = if exists {
        Seq::empty()
    } else {
        seq![MistakeView::PathDoesnotExist { path: t.path, key: "test_templates[].template"@ }]
    };
    unknown + missing
}

impl TestTemplate {
    /// Decodes an entry of `test_templates`.
    pub fn decode(templates_base_dir: &str, output_base_dir: &str, value: &Value) -> (r: Result<
        Self,
        Error,
    >)
        ensures
            decoded(r, test_template_value(templates_base_dir@, output_base_dir@, *value)),
    {
        match value.as_table() {
            Some(entries) => {
                let query = match required_string(
                    entries,
                    "query",
                    "Missing 'query' in 'test_templates' entry",
                    "test_templates[].query",
                ) {
                    Ok(query) => query,
                    Err(e) => return Err(e),
                };
                let path = match required_path(
                    entries,
                    "path",
                    Some(templates_base_dir),
                    "Missing 'path' in 'test_templates' entry",
                    "test_templates[].template",
                ) {
                    Ok(path) => path,
                    Err(e) => return Err(e),
                };
                let output = match table_get(entries, "output") {
                    Some(v) => match decode_pathbuf(
                        v,
                        Some(output_base_dir),
                        "test_templates[].output",
                    ) {
                        Ok(output) => output,
                        Err(e) => return Err(e),
                    },
                    None => match path_to_output(path.as_str(), output_base_dir) {
                        Ok(output) => output,
                        Err(e) => return Err(e),
                    },
                };
                Ok(Self { path, query, output })
            },
            None => Err(Error::Parsing(owned("Invalid 'test_templates' entry"))),
        }
    }

    /// The mistakes of the test template against the queries, given whether
    /// its file exists on disk.
    pub fn validate<'a>(&'a self, queries: &Queries, exists: bool) -> (mistakes: Vec<
        ManifestMistake<'a>,
    >)
        ensures
            mistake_views(mistakes@) == test_template_mistakes(self@, queries@, exists),
    {
        let mut mistakes: Vec<ManifestMistake<'a>> = Vec::new();
        if queries.get(self.query.as_str()).is_none() {
            mistakes.push(
                ManifestMistake::QueryRefNotFound {
                    query_id: self.query.as_str(),
                    test_template: self.path.as_str(),
                },
            );
        }
        match validate_path(self.path.as_str(), "test_templates[].template", exists) {
            Ok(()) => {},
            Err(m) => mistakes.push(m),
        }
        assert(mistake_views(mistakes@) =~= test_template_mistakes(self@, queries@, exists));
        mistakes
    }

    /// The name of the template's file: the final component of its path, if
    /// it has one.
    pub fn file_name(&self) -> (r: Option<String>)
        ensures
            r is Some <==> file_name_of(self.path@) is Some,
            r matches Some(name) ==> file_name_of(self.path@) == Some(name@),
    {
        file_name(self.path.as_str())
    }
}

/// The test templates of a manifest, in the order of their declaration.
#[derive(Debug)]
pub struct TestTemplates {
    pub inner: Vec<TestTemplate>,
}

impl View for TestTemplates {
    type V = Seq<TestTemplateView>;

    open spec fn view(&self) -> Seq<TestTemplateView> {
        self.inner@.map_values(|t: TestTemplate| t@)
    }
}

/// What the first `n` entries of `test_templates` stand for: the test
/// templates, or the message of the first error.
pub open spec fn test_templates_upto(
    templates_base_dir: Seq<char>,
    output_base_dir: Seq<char>,
    items: Seq<Value>,
    n: int,
) -> Result<Seq<TestTemplateView>, Seq<char>>
    decreases n,
{
    if n <= 0 {
        Ok(Seq::empty())
    } else {
        match test_templates_upto(templates_base_dir, output_base_dir, items, n - 1) {
            Ok(before) => match test_template_value(
                templates_base_dir,
                output_base_dir,
                items[n - 1],
            ) {
                Ok(t) => Ok(before.push(t)),
                Err(msg) => Err(msg),
            },
            Err(msg) => Err(msg),
        }
    }
}

/// Once an entry fails to decode, the whole list fails with its message.
pub proof fn lemma_test_templates_error(
    templates_base_dir: Seq<char>,
    output_base_dir: Seq<char>,
    items: Seq<Value>,
    k: int,
    n: int,
)
    requires
        0 < k <= n,
        test_templates_upto(templates_base_dir, output_base_dir, items, k) is Err,
    ensures
        test_templates_upto(templates_base_dir, output_base_dir, items, n) == test_templates_upto(
            templates_base_dir,
            output_base_dir,
            items,
            k,
        ),
    decreases n - k,
{
    if k < n {
        lemma_test_templates_error(templates_base_dir, output_base_dir, items, k, n - 1);
    }
}

/// What the value of the key `test_templates` stands for.
pub open spec fn test_templates_value(
    templates_base_dir: Seq<char>,
    output_base_dir: Seq<char>,
    value: Value,
) -> Result<Seq<TestTemplateView>, Seq<char>> {
    match value {
        Value::Array(items) => test_templates_upto(
            templates_base_dir,
            output_base_dir,
            items@,
            items@.len() as int,
        ),
        _ => Err("Invalid test_templates"@),
    }
}

/// The paths of the test templates, in order.
pub open spec fn test_template_paths(templates: Seq<TestTemplateView>) -> Seq<Seq<char>> {
    templates.map_values(|t: TestTemplateView| t.path)
}

/// The outputs of the test templates, in order.
pub open spec fn test_outputs_of(templates: Seq<TestTemplateView>) -> Seq<Seq<char>> {
    templates.map_values(|t: TestTemplateView| t.output)
}

/// The mistakes of each of the first `n` test templates, in order.
pub open spec fn each_test_template_mistakes(
    templates: Seq<TestTemplateView>,
    queries: Seq<QueryView>,
    existing: Seq<Seq<char>>,
    n: int,
) -> Seq<MistakeView>
    decreases n,
{
    if n <= 0 {
        Seq::empty()
    } else {
        each_test_template_mistakes(templates, queries, existing, n - 1) + test_template_mistakes(
            templates[n - 1],
            queries,
            existing.contains(templates[n - 1].path),
        )
    }
}

/// The mistakes among the test templates: those of each template, then one
/// for each output that several templates share.
pub open spec fn test_templates_mistakes(
    templates: Seq<TestTemplateView>,
    queries: Seq<QueryView>,
    existing: Seq<Seq<char>>,
) -> Seq<MistakeView> {
    each_test_template_mistakes(templates, queries, existing, templates.len() as int)
        + duplicate_mistakes("test_templates[].path"@, test_outputs_of(templates))
}

/// The position of the first test template with the given path.
pub open spec fn first_with_path(templates: Seq<TestTemplateView>, path: Seq<char>) -> Option<int>
    decreases templates.len(),
{
    if templates.len() == 0 {
        None
    } else if templates[0].path == path {
        Some(0)
    } else {
        match first_with_path(templates.drop_first(), path) {
            Some(i) => Some(i + 1),
            None => None,
        }
    }
}

pub proof fn lemma_first_with_path(templates: Seq<TestTemplateView>, path: Seq<char>, k: int)
    requires
        0 <= k <= templates.len(),
        forall|j: int| 0 <= j < k ==> (#[trigger] templates[j]).path != path,
        k < templates.len() ==> templates[k].path == path,
    ensures
        first_with_path(templates, path) == if k < templates.len() {
            Some(k)
        } else {
            None
        },
    decreases k,
{
    if k > 0 {
        let rest = templates.drop_first();
        assert forall|j: int| 0 <= j < k - 1 implies (#[trigger] rest[j]).path != path by {
            assert(rest[j] == templates[j + 1]);
        }
        lemma_first_with_path(rest, path, k - 1);
    }
}

/// The test templates of one query, in the order of their declaration.
pub open spec fn templates_of_query(templates: Seq<TestTemplateView>, query_id: Seq<char>) -> Seq<
    TestTemplateView,
> {
    templates.filter(|t: TestTemplateView| t.query == query_id)
}

impl TestTemplates {
    /// No test templates.
    pub fn new() -> (r: Self)
        ensures
            r@.len() == 0,
    {
        Self { inner: Vec::new() }
    }

    /// Adds a test template behind the others.
    pub fn push(&mut self, template: TestTemplate)
        ensures
            final(self)@ == old(self)@.push(template@),
    {
        self.inner.push(template);
        assert(self@ =~= old(self)@.push(template@));
    }

    /// Decodes the value of the key `test_templates`.
    pub fn decode(templates_base_dir: &str, output_base_dir: &str, value: &Value) -> (r: Result<
        Self,
        Error,
    >)
        ensures
            decoded(r, test_templates_value(templates_base_dir@, output_base_dir@, *value)),
    {
        match value.as_array() {
            Some(items) => {
                let mut res = Self::new();
                let mut i: usize = 0;
                assert(res@ =~= Seq::<TestTemplateView>::empty());
                while i < items.len()
                    invariant
                        *value == Value::Array(*items),
                        i <= items@.len(),
                        test_templates_upto(
                            templates_base_dir@,
                            output_base_dir@,
                            items@,
                            i as int,
                        ) == Ok::<Seq<TestTemplateView>, Seq<char>>(res@),
                    decreases items@.len() - i,
                {
                    match TestTemplate::decode(templates_base_dir, output_base_dir, &items[i]) {
                        Ok(t) => res.push(t),
                        Err(e) => {
                            proof {
                                lemma_test_templates_error(
                                    templates_base_dir@,
                                    output_base_dir@,
                                    items@,
                                    i + 1,
                                    items@.len() as int,
                                );
                            }
                            return Err(e);
                        },
                    }
                    i += 1;
                }
                Ok(res)
            },
            None => Err(Error::Parsing(owned("Invalid test_templates"))),
        }
    }

    /// The mistakes among the test templates, against the queries.
    /// `existing` lists the paths that exist on disk.
    pub fn validate<'a>(&'a self, queries: &Queries, existing: &Vec<String>) -> (mistakes: Vec<
        ManifestMistake<'a>,
    >)
        ensures
            mistake_views(mistakes@) == test_templates_mistakes(
                self@,
                queries@,
                views(existing@),
            ),
    {
        let mut mistakes: Vec<ManifestMistake<'a>> = Vec::new();
        let count = self.inner.len();
        let mut all_outputs: Vec<&'a str> = Vec::new();
        let mut i: usize = 0;
        proof {
            assert(mistake_views(mistakes@) =~= Seq::<MistakeView>::empty());
            assert(ref_views(all_outputs@) =~= test_outputs_of(self@).take(0));
        }
        while i < count
            invariant
                count == self.inner@.len(),
                i <= count,
                mistake_views(mistakes@) == each_test_template_mistakes(
                    self@,
                    queries@,
                    views(existing@),
                    i as int,
                ),
                ref_views(all_outputs@) == test_outputs_of(self@).take(i as int),
            decreases count - i,
        {
            let tt = &self.inner[i];
            let exists = contains_str(existing, tt.path.as_str());
            let mut found = tt.validate(queries, exists);
            let output = tt.output.as_str();
            proof {
                assert(self@[i as int] == tt@);
                assert(mistake_views(mistakes@ + found@) =~= mistake_views(mistakes@)
                    + mistake_views(found@));
                assert(ref_views(all_outputs@.push(output)) =~= ref_views(all_outputs@).push(
                    output@,
                ));
                assert(test_outputs_of(self@).take(i + 1) =~= test_outputs_of(self@).take(
                    i as int,
                ).push(tt.output@));
            }
            mistakes.append(&mut found);
            all_outputs.push(output);
            i += 1;
        }
        assert(test_outputs_of(self@).take(count as int) =~= test_outputs_of(self@));
        push_duplicates(&mut mistakes, "test_templates[].path", &all_outputs);
        mistakes
    }

    /// The paths of the test templates, in order.
    pub fn paths(&self) -> (r: Vec<&str>)
        ensures
            ref_views(r@) == test_template_paths(self@),
    {
        let mut r: Vec<&str> = Vec::new();
        let mut i: usize = 0;
        while i < self.inner.len()
            invariant
                i <= self.inner@.len(),
                r@.len() == i,
                forall|j: int| 0 <= j < i ==> (#[trigger] r@[j])@ == self.inner@[j].path@,
            decreases self.inner@.len() - i,
        {
            r.push(self.inner[i].path.as_str());
            i += 1;
        }
        assert(ref_views(r@) =~= test_template_paths(self@));
        r
    }

    /// The test template with the given path: the first one declared, where
    /// several share the path.
    pub fn get(&self, path: &str) -> (r: Option<&TestTemplate>)
        ensures
            match first_with_path(self@, path@) {
                Some(i) => 0 <= i < self.inner@.len() && r == Some(&self.inner@[i]),
                None => r is None,
            },
    {
        let mut i: usize = 0;
        while i < self.inner.len()
            invariant
                i <= self.inner@.len(),
                forall|j: int| 0 <= j < i ==> (#[trigger] self@[j]).path != path@,
            decreases self.inner@.len() - i,
        {
            if str_eq(self.inner[i].path.as_str(), path) {
                proof {
                    lemma_first_with_path(self@, path@, i as int);
                }
                return Some(&self.inner[i]);
            }
            i += 1;
        }
        proof {
            lemma_first_with_path(self@, path@, i as int);
        }
        None
    }

    /// The test templates of the query with the given id, in the order of
    /// their declaration.
    pub fn find_by_query(&self, query_id: &str) -> (r: Vec<&TestTemplate>)
        ensures
            r@.map_values(|t: &TestTemplate| t@) == templates_of_query(self@, query_id@),
    {
        let mut r: Vec<&TestTemplate> = Vec::new();
        let ghost pred = |t: TestTemplateView| t.query == query_id@;
        let mut i: usize = 0;
        proof {
            assert(self@.take(0) =~= Seq::<TestTemplateView>::empty());
            assert(r@.map_values(|t: &TestTemplate| t@) =~= self@.take(0).filter(pred));
        }
        while i < self.inner.len()
            invariant
                i <= self.inner@.len(),
                pred == |t: TestTemplateView| t.query == query_id@,
                r@.map_values(|t: &TestTemplate| t@) == self@.take(i as int).filter(pred),
            decreases self.inner@.len() - i,
        {
            let tt = &self.inner[i];
            proof {
                assert(self@.take(i + 1) =~= self@.take(i as int).push(tt@));
                Seq::lemma_filter_push(self@.take(i as int), tt@, pred);
            }
            if str_eq(tt.query.as_str(), query_id) {
                assert(r@.push(tt).map_values(|t: &TestTemplate| t@) =~= r@.map_values(
                    |t: &TestTemplate| t@,
                ).push(tt@));
                r.push(tt);
            }
            i += 1;
        }
        assert(self@.take(self.inner@.len() as int) =~= self@);
        r
    }

    /// The test templates, in the order of their declaration.
    pub fn iter(&self) -> (r: std::slice::Iter<'_, TestTemplate>)
        ensures
            vstd::std_specs::iter::IteratorSpec::remaining(&r) == self.inner@.as_ref(),
    {
        self.inner.iter()
    }
}

} // verus!
