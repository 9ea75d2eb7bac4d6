//! Queries: what is rendered from a query template, under which conditions,
//! and where the result goes.

use crate::config::{
    decode_pathbuf, decode_string, lookup, optional_strset, optional_strset_value, path_value,
    required_path, required_path_value, required_string, required_string_value, string_value,
    table_get, Value,
};
use crate::error::{decoded, Error};
use crate::output::{Layout, LayoutView};
use crate::paths::{file_name, file_name_of, join, joined};
use crate::pattern::{replace_all, replaced_all};
use crate::query_template::{
    last_with_path, lemma_last_with_path_found, QueryTemplateView, QueryTemplates,
};
use crate::strset::{difference, is_subset, lemma_minus, lemma_subset_of_sets, minus, subset_of};
use crate::tagging::{NameTag, NameTagView};
use crate::text::{join2, owned, ref_views, str_eq, views};
use crate::validation::{
    duplicate_mistakes, lemma_duplicate_mistakes, mistake_views, push_duplicates,
    ManifestMistake, MistakeView,
};
use vstd::prelude::*;

verus! {

/// The pattern of the characters of an id that a file name does not take:
/// `@`, `+`, `&` and `*`.
pub open spec fn unsafe_chars() -> Seq<char> {
    "@|\\+|&|\\*"@
}

/// The id with `-` in place of each character that a file name does not
/// take.
pub open spec fn slug_of(id: Seq<char>) -> Seq<char> {
    match replaced_all(unsafe_chars(), id, "-"@) {
        Some(slug) => slug,
        None => id,
    }
}

/// The output path derived from an id: the file `<slug>.sql` under
/// `base_dir`.
pub open spec fn output_of_id(id: Seq<char>, base_dir: Seq<char>) -> Seq<char> {
    joined(base_dir, slug_of(id) + ".sql"@)
}

/// The output of a query that names none: derived from the id where each
/// query has its own file, else the shared file, which must be given.
pub open spec fn fallback_output_value(id: Seq<char>, base_dir: Seq<char>, layout: LayoutView) -> Result<
    Seq<char>,
    Seq<char>,
> {
    match layout {
        LayoutView::OneFileOneQuery => Ok(output_of_id(id, base_dir)),
        LayoutView::OneFileAllQueries(Some(file)) => Ok(file),
        LayoutView::OneFileAllQueries(None) => Err(
            "Either 'queries[].output' or 'query_output_file' must be specified in case of 'one-file-all-queries' layout"@,
        ),
    }
}

/// The id with `-` in place of `@`, `+`, `&` and `*`.
pub fn slugify_id(id: &str) -> (slug: String)
    ensures
        slug@ == slug_of(id@),
{
    match replace_all("@|\\+|&|\\*", id, "-") {
        Some(slug) => slug,
        None => owned(id),
    }
}

/// The output path derived from `id`.
pub fn id_to_output(id: &str, base_dir: &str) -> (path: String)
    ensures
        path@ == output_of_id(id@, base_dir@),
{
    let slug = slugify_id(id);
    let filename = join2(slug.as_str(), ".sql");
    join(base_dir, filename.as_str())
}

/// The output of a query that names none.
pub fn fallback_output(id: &str, base_dir: &str, output_layout: &Layout) -> (r: Result<
    String,
    Error,
>)
    ensures
        decoded(r, fallback_output_value(id@, base_dir@, output_layout@)),
{
    match output_layout {
        Layout::OneFileOneQuery => Ok(id_to_output(id, base_dir)),
        Layout::OneFileAllQueries(output_file) => match output_file {
            Some(f) => Ok(f.clone()),
            None => Err(
                Error::Parsing(
                    owned(
                        "Either 'queries[].output' or 'query_output_file' must be specified in case of 'one-file-all-queries' layout",
                    ),
                ),
            ),
        },
    }
}

/// One query of the manifest.
#[derive(Debug)]
pub struct Query {
    pub id: String,
    /// The path of the query template.
    pub template: String,
    /// The conditions that are on for this query. The list is read as a
    /// set: a decoded query names each condition once.
    pub conds: Vec<String>,
    /// The path of the output file.
    pub output: String,
    pub name_tag: NameTag,
}

pub ghost struct QueryView {
    pub id: Seq<char>,
    pub template: Seq<char>,
    pub conds: Seq<Seq<char>>,
    pub output: Seq<char>,
    pub name_tag: NameTagView,
}

impl View for Query {
    type V = QueryView;

    open spec fn view(&self) -> QueryView {
        QueryView {
            id: self.id@,
            template: self.template@,
            conds: views(self.conds@),
            output: self.output@,
            name_tag: self.name_tag@,
        }
    }
}

/// The output of a query entry: the path under `output`, relative to
/// `base_dir`, or the fallback.
pub open spec fn output_value(
    entries: Seq<(String, Value)>,
    id: Seq<char>,
    base_dir: Seq<char>,
    layout: LayoutView,
) -> Result<Seq<char>, Seq<char>> {
    match lookup(entries, "output"@) {
        Some(v) => path_value(v, Some(base_dir), "queries[].output"@),
        None => fallback_output_value(id, base_dir, layout),
    }
}

/// The name tag of a query entry: the text under `name_tag`, or the id.
pub open spec fn name_tag_value(entries: Seq<(String, Value)>, id: Seq<char>) -> Result<
    NameTagView,
    Seq<char>,
> {
    match lookup(entries, "name_tag"@) {
        Some(v) => match string_value(v, "queries[].name_tag"@) {
            Ok(s) => Ok(NameTagView::Custom(s)),
            Err(msg) => Err(msg),
        },
        None => Ok(NameTagView::DeriveFromId(id)),
    }
}

/// What an entry of `queries` stands for: a query, or the message of the
/// first error among its fields, taken in the order id, template, conds,
/// output, name tag.
pub open spec fn query_value(
    templates_base_dir: Seq<char>,
    output_base_dir: Seq<char>,
    layout: LayoutView,
    value: Value,
) -> Result<QueryView, Seq<char>> {
    match value {
        Value::Table(entries) => match required_string_value(
            entries@,
            "id"@,
            "Missing 'id' in 'query' entry"@,
            "queries[].id"@,
        ) {
            Ok(id) => match required_path_value(
                entries@,
                "template"@,
                Some(templates_base_dir),
                "Missing 'template' in 'query' entry"@,
                "queries[].template"@,
            ) {
                Ok(template) => match optional_strset_value(
                    entries@,
                    "conds"@,
                    "queries[].conds"@,
                ) {
                    Ok(conds) => match output_value(entries@, id, output_base_dir, layout) {
                        Ok(output) => match name_tag_value(entries@, id) {
                            Ok(name_tag) => Ok(
                                QueryView { id, template, conds, output, name_tag },
                            ),
                            Err(msg) => Err(msg),
                        },
                        Err(msg) => Err(msg),
                    },
                    Err(msg) => Err(msg),
                },
                Err(msg) => Err(msg),
            },
            Err(msg) => Err(msg),
        },
        _ => Err("Invalid 'query' entry"@),
    }
}

/// The mistakes of one query against the templates: its template is
/// unknown, or its conditions are not all among the template's; the mistake
/// then cites the conditions that are not.
pub open spec fn query_mistakes(q: QueryView, templates: Seq<QueryTemplateView>) -> Seq<
    MistakeView,
> {
    match last_with_path(templates, q.template) {
        Some(i) => if subset_of(q.conds, templates[i].all_conds) {
            Seq::empty()
        } else {
            seq![
                MistakeView::InvalidConds {
                    query_id: q.id,
                    conds: minus(q.conds, templates[i].all_conds),
                },
            ]
        },
        None => seq![
            MistakeView::QueryTemplateRefNotFound { query_id: q.id, template: q.template },
        ],
    }
}

impl Query {
    /// The query names each of its conditions once.
    pub open spec fn wf(&self) -> bool {
        views(self.conds@).no_duplicates()
    }

    /// Decodes an entry of `queries`. Paths of templates are relative to
    /// `templates_base_dir`, paths of outputs to `output_base_dir`.
    pub fn decode(
        templates_base_dir: &str,
        output_base_dir: &str,
        output_layout: &Layout,
        value: &Value,
    ) -> (r: Result<Self, Error>)
        ensures
            decoded(r, query_value(templates_base_dir@, output_base_dir@, output_layout@, *value)),
            r matches Ok(query) ==> query.wf(),
    {
        match value.as_table() {
            Some(entries) => {
                let id = match required_string(
                    entries,
                    "id",
                    "Missing 'id' in 'query' entry",
                    "queries[].id",
                ) {
                    Ok(id) => id,
                    Err(e) => return Err(e),
                };
                let template = match required_path(
                    entries,
                    "template",
                    Some(templates_base_dir),
                    "Missing 'template' in 'query' entry",
                    "queries[].template",
                ) {
                    Ok(template) => template,
                    Err(e) => return Err(e),
                };
                let conds = match optional_strset(entries, "conds", "queries[].conds") {
                    Ok(conds) => conds,
                    Err(e) => return Err(e),
                };
                let output = match table_get(entries, "output") {
                    Some(v) => match decode_pathbuf(v, Some(output_base_dir), "queries[].output") {
                        Ok(output) => output,
                        Err(e) => return Err(e),
                    },
                    None => match fallback_output(id.as_str(), output_base_dir, output_layout) {
                        Ok(output) => output,
                        Err(e) => return Err(e),
                    },
                };
                let name_tag = match table_get(entries, "name_tag") {
                    Some(v) => match decode_string(v, "queries[].name_tag") {
                        Ok(s) => NameTag::Custom(s),
                        Err(e) => return Err(e),
                    },
                    None => NameTag::DeriveFromId(id.clone()),
                };
                Ok(Self { id, template, conds, output, name_tag })
            },
            None => Err(Error::Parsing(owned("Invalid 'query' entry"))),
        }
    }

    /// The mistakes of the query against the templates.
    pub fn validate<'a>(&'a self, query_templates: &'a QueryTemplates) -> (mistakes: Vec<
        ManifestMistake<'a>,
    >)
        ensures
            mistake_views(mistakes@) == query_mistakes(self@, query_templates@),
    {
        let mut mistakes: Vec<ManifestMistake<'a>> = Vec::new();
        match query_templates.get(self.template.as_str()) {
            Some(qt) => {
                if !is_subset(&self.conds, &qt.all_conds) {
                    let diff = difference(&self.conds, &qt.all_conds);
                    mistakes.push(
                        ManifestMistake::InvalidConds { query_id: self.id.as_str(), conds: diff },
                    );
                }
            },
            None => mistakes.push(
                ManifestMistake::QueryTemplateRefNotFound {
                    query_id: self.id.as_str(),
                    template: self.template.as_str(),
                },
            ),
        }
        assert(mistake_views(mistakes@) =~= query_mistakes(self@, query_templates@));
        mistakes
    }

    /// The name of the template's file: the final component of the
    /// template's path, if it has one.
    pub fn template_file_name(&self) -> (r: Option<String>)
        ensures
            r is Some <==> file_name_of(self.template@) is Some,
            r matches Some(name) ==> file_name_of(self.template@) == Some(name@),
    {
        file_name(self.template.as_str())
    }
}

/// The queries of a manifest, in the order of their declaration. That order
/// is the order of the queries in a combined output file.
#[derive(Debug)]
pub struct Queries {
    pub inner: Vec<Query>,
}

impl View for Queries {
    type V = Seq<QueryView>;

    open spec fn view(&self) -> Seq<QueryView> {
        self.inner@.map_values(|q: Query| q@)
    }
}

/// The position of the last query with the given id.
pub open spec fn last_with_id(queries: Seq<QueryView>, id: Seq<char>) -> Option<int>
    decreases queries.len(),
{
    if queries.len() == 0 {
        None
    } else if queries.last().id == id {
        Some(queries.len() - 1)
    } else {
        last_with_id(queries.drop_last(), id)
    }
}

pub proof fn lemma_last_with_id(queries: Seq<QueryView>, id: Seq<char>, k: int)
    requires
        -1 <= k < queries.len(),
        k >= 0 ==> queries[k].id == id,
        forall|j: int| k < j < queries.len() ==> queries[j].id != id,
    ensures
        last_with_id(queries, id) == if k >= 0 {
            Some(k)
        } else {
            None
        },
    decreases queries.len(),
{
    if queries.len() > 0 && queries.last().id != id {
        lemma_last_with_id(queries.drop_last(), id, k);
    }
}

/// What the lookup finds is a query with the id looked for, and it finds
/// one wherever there is one.
pub proof fn lemma_last_with_id_found(queries: Seq<QueryView>, id: Seq<char>)
    ensures
        match last_with_id(queries, id) {
            Some(i) => 0 <= i < queries.len() && queries[i].id == id,
            None => forall|j: int| 0 <= j < queries.len() ==> queries[j].id != id,
        },
    decreases queries.len(),
{
    if queries.len() > 0 && queries.last().id != id {
        let init = queries.drop_last();
        lemma_last_with_id_found(init, id);
        if last_with_id(init, id) is None {
            assert forall|j: int| 0 <= j < queries.len() implies queries[j].id != id by {
                if j < init.len() {
                    assert(init[j].id != id);
                }
            }
        }
    }
}

/// What the first `n` entries of `queries` stand for: the queries, or the
/// message of the first error.
pub open spec fn queries_upto(
    templates_base_dir: Seq<char>,
    output_base_dir: Seq<char>,
    layout: LayoutView,
    items: Seq<Value>,
    n: int,
) -> Result<Seq<QueryView>, Seq<char>>
    decreases n,
{
    if n <= 0 {
        Ok(Seq::empty())
    } else {
        match queries_upto(templates_base_dir, output_base_dir, layout, items, n - 1) {
            Ok(before) => match query_value(
                templates_base_dir,
                output_base_dir,
                layout,
                items[n - 1],
            ) {
                Ok(q) => Ok(before.push(q)),
                Err(msg) => Err(msg),
            },
            Err(msg) => Err(msg),
        }
    }
}

/// Once an entry fails to decode, the whole list fails with its message.
pub proof fn lemma_queries_error(
    templates_base_dir: Seq<char>,
    output_base_dir: Seq<char>,
    layout: LayoutView,
    items: Seq<Value>,
    k: int,
    n: int,
)
    requires
        0 < k <= n,
        queries_upto(templates_base_dir, output_base_dir, layout, items, k) is Err,
    ensures
        queries_upto(templates_base_dir, output_base_dir, layout, items, n) == queries_upto(
            templates_base_dir,
            output_base_dir,
            layout,
            items,
            k,
        ),
    decreases n - k,
{
    if k < n {
        lemma_queries_error(templates_base_dir, output_base_dir, layout, items, k, n - 1);
    }
}

/// What the value of the key `queries` stands for.
pub open spec fn queries_value(
    templates_base_dir: Seq<char>,
    output_base_dir: Seq<char>,
    layout: LayoutView,
    value: Value,
) -> Result<Seq<QueryView>, Seq<char>> {
    match value {
        Value::Array(items) => queries_upto(
            templates_base_dir,
            output_base_dir,
            layout,
            items@,
            items@.len() as int,
        ),
        _ => Err("Invalid queries"@),
    }
}

/// The paths of the queries' templates, in the order of the queries.
pub open spec fn used_templates(queries: Seq<QueryView>) -> Seq<Seq<char>> {
    queries.map_values(|q: QueryView| q.template)
}

/// The ids of the queries, in order.
pub open spec fn ids_of(queries: Seq<QueryView>) -> Seq<Seq<char>> {
    queries.map_values(|q: QueryView| q.id)
}

/// The outputs of the queries, in order.
pub open spec fn outputs_of(queries: Seq<QueryView>) -> Seq<Seq<char>> {
    queries.map_values(|q: QueryView| q.output)
}

/// The mistakes of each of the first `n` queries against the templates, in
/// the order of the queries.
pub open spec fn each_query_mistakes(
    queries: Seq<QueryView>,
    templates: Seq<QueryTemplateView>,
    n: int,
) -> Seq<MistakeView>
    decreases n,
{
    if n <= 0 {
        Seq::empty()
    } else {
        each_query_mistakes(queries, templates, n - 1) + query_mistakes(queries[n - 1], templates)
    }
}

/// One mistake for each of the first `n` queries whose output is not
/// `file`, in the order of the queries.
pub open spec fn misplaced_outputs(queries: Seq<QueryView>, file: Seq<char>, n: int) -> Seq<
    MistakeView,
>
    decreases n,
{
    if n <= 0 {
        Seq::empty()
    } else if queries[n - 1].output == file {
        misplaced_outputs(queries, file, n - 1)
    } else {
        misplaced_outputs(queries, file, n - 1).push(
            MistakeView::InvalidQueryOutput {
                query_id: queries[n - 1].id,
                output_path: queries[n - 1].output,
            },
        )
    }
}

/// Some output differs from the first.
pub open spec fn outputs_differ(outputs: Seq<Seq<char>>) -> bool {
    exists|i: int| 0 <= i < outputs.len() && #[trigger] outputs[i] != outputs[0]
}

/// The mistakes among the outputs. Where each query has its own file, one
/// mistake for each output that several queries share. Where all share one
/// file that the manifest names, one mistake for each query with another
/// output. Where they share a file that the manifest does not name, one
/// mistake if the outputs are not all the same.
pub open spec fn output_mistakes(queries: Seq<QueryView>, layout: LayoutView) -> Seq<MistakeView> {
    match layout {
        LayoutView::OneFileOneQuery => duplicate_mistakes(
            "queries[].output"@,
            outputs_of(queries),
        ),
        LayoutView::OneFileAllQueries(Some(file)) => misplaced_outputs(
            queries,
            file,
            queries.len() as int,
        ),
        LayoutView::OneFileAllQueries(None) => if outputs_differ(outputs_of(queries)) {
            seq![MistakeView::DisparateQueryOutputs]
        } else {
            Seq::empty()
        },
    }
}

/// The mistakes among the queries: those of each query against the
/// templates, then one for each id that several queries share, then those
/// among the outputs.
pub open spec fn queries_mistakes(
    queries: Seq<QueryView>,
    templates: Seq<QueryTemplateView>,
    layout: LayoutView,
) -> Seq<MistakeView> {
    each_query_mistakes(queries, templates, queries.len() as int) + duplicate_mistakes(
        "queries[].id"@,
        ids_of(queries),
    ) + output_mistakes(queries, layout)
}

impl Queries {
    /// No queries.
    pub fn new() -> (r: Self)
        ensures
            r@.len() == 0,
    {
        Self { inner: Vec::new() }
    }

    /// Adds a query behind the others.
    pub fn push(&mut self, query: Query)
        ensures
            final(self)@ == old(self)@.push(query@),
    {
        self.inner.push(query);
        assert(self@ =~= old(self)@.push(query@));
    }

    /// Decodes the value of the key `queries`.
    pub fn decode(
        templates_base_dir: &str,
        output_base_dir: &str,
        output_layout: &Layout,
        value: &Value,
    ) -> (r: Result<Self, Error>)
        ensures
            decoded(
                r,
                queries_value(templates_base_dir@, output_base_dir@, output_layout@, *value),
            ),
    {
        match value.as_array() {
            Some(items) => {
                let mut res = Self::new();
                let mut i: usize = 0;
                assert(res@ =~= Seq::<QueryView>::empty());
                while i < items.len()
                    invariant
                        *value == Value::Array(*items),
                        i <= items@.len(),
                        queries_upto(
                            templates_base_dir@,
                            output_base_dir@,
                            output_layout@,
                            items@,
                            i as int,
                        ) == Ok::<Seq<QueryView>, Seq<char>>(res@),
                    decreases items@.len() - i,
                {
                    match Query::decode(
                        templates_base_dir,
                        output_base_dir,
                        output_layout,
                        &items[i],
                    ) {
                        Ok(q) => res.push(q),
                        Err(e) => {
                            proof {
                                lemma_queries_error(
                                    templates_base_dir@,
                                    output_base_dir@,
                                    output_layout@,
                                    items@,
                                    i + 1,
                                    items@.len() as int,
                                );
                            }
                            return Err(e);
                        },
                    }
                    i += 1;
                }
                Ok(res)
            },
            None => Err(Error::Parsing(owned("Invalid queries"))),
        }
    }

    /// The mistakes among the queries, against the templates and the
    /// layout.
    pub fn validate<'a>(
        &'a self,
        query_templates: &'a QueryTemplates,
        output_layout: &'a Layout,
    ) -> (mistakes: Vec<ManifestMistake<'a>>)
        ensures
            mistake_views(mistakes@) == queries_mistakes(
                self@,
                query_templates@,
                output_layout@,
            ),
    {
        let mut mistakes: Vec<ManifestMistake<'a>> = Vec::new();
        let count = self.inner.len();
        let mut all_ids: Vec<&'a str> = Vec::new();
        let mut all_outputs: Vec<&'a str> = Vec::new();
        let mut i: usize = 0;
        proof {
            assert(mistake_views(mistakes@) =~= Seq::<MistakeView>::empty());
            assert(ref_views(all_ids@) =~= ids_of(self@).take(0));
            assert(ref_views(all_outputs@) =~= outputs_of(self@).take(0));
        }
        while i < count
            invariant
                count == self.inner@.len(),
                i <= count,
                mistake_views(mistakes@) == each_query_mistakes(
                    self@,
                    query_templates@,
                    i as int,
                ),
                ref_views(all_ids@) == ids_of(self@).take(i as int),
                ref_views(all_outputs@) == outputs_of(self@).take(i as int),
            decreases count - i,
        {
            let query = &self.inner[i];
            let mut found = query.validate(query_templates);
            let id = query.id.as_str();
            let output = query.output.as_str();
            proof {
                assert(self@[i as int] == query@);
                assert(mistake_views(mistakes@ + found@) =~= mistake_views(mistakes@)
                    + mistake_views(found@));
                assert(ref_views(all_ids@.push(id)) =~= ref_views(all_ids@).push(id@));
                assert(ids_of(self@).take(i + 1) =~= ids_of(self@).take(i as int).push(query.id@));
                assert(ref_views(all_outputs@.push(output)) =~= ref_views(all_outputs@).push(
                    output@,
                ));
                assert(outputs_of(self@).take(i + 1) =~= outputs_of(self@).take(i as int).push(
                    query.output@,
                ));
            }
            mistakes.append(&mut found);
            all_ids.push(id);
            all_outputs.push(output);
            i += 1;
        }
        proof {
            assert(ids_of(self@).take(count as int) =~= ids_of(self@));
            assert(outputs_of(self@).take(count as int) =~= outputs_of(self@));
        }
        push_duplicates(&mut mistakes, "queries[].id", &all_ids);
        match output_layout {
            Layout::OneFileOneQuery => {
                push_duplicates(&mut mistakes, "queries[].output", &all_outputs);
            },
            Layout::OneFileAllQueries(output_file) => match output_file {
                Some(file) => {
                    let ghost before = mistake_views(mistakes@);
                    let mut k: usize = 0;
                    assert(before + misplaced_outputs(self@, file@, 0) =~= before);
                    while k < count
                        invariant
                            count == self.inner@.len(),
                            k <= count,
                            mistake_views(mistakes@) == before + misplaced_outputs(
                                self@,
                                file@,
                                k as int,
                            ),
                        decreases count - k,
                    {
                        let query = &self.inner[k];
                        assert(self@[k as int] == query@);
                        if !str_eq(query.output.as_str(), file.as_str()) {
                            let m = ManifestMistake::InvalidQueryOutput {
                                query_id: query.id.as_str(),
                                output_path: query.output.as_str(),
                            };
                            proof {
                                assert(mistake_views(mistakes@.push(m)) =~= mistake_views(
                                    mistakes@,
                                ).push(m@));
                                assert(before + misplaced_outputs(self@, file@, k as int).push(m@)
                                    =~= (before + misplaced_outputs(self@, file@, k as int)).push(
                                    m@,
                                ));
                            }
                            mistakes.push(m);
                        }
                        k += 1;
                    }
                },
                None => {
                    if differ(&all_outputs) {
                        let m = ManifestMistake::DisparateQueryOutputs;
                        assert(mistake_views(mistakes@.push(m)) =~= mistake_views(mistakes@)
                            + seq![MistakeView::DisparateQueryOutputs]);
                        mistakes.push(m);
                    } else {
                        assert(mistake_views(mistakes@) + Seq::<MistakeView>::empty()
                            =~= mistake_views(mistakes@));
                    }
                },
            },
        }
        mistakes
    }

    /// The outputs of the queries, in order.
    pub fn output_files(&self) -> (r: Vec<&str>)
        ensures
            ref_views(r@) == outputs_of(self@),
    {
        let mut r: Vec<&str> = Vec::new();
        let mut i: usize = 0;
        while i < self.inner.len()
            invariant
                i <= self.inner@.len(),
                ref_views(r@) =~= outputs_of(self@).take(i as int),
            decreases self.inner@.len() - i,
        {
            let output = self.inner[i].output.as_str();
            assert(ref_views(r@.push(output)) =~= ref_views(r@).push(output@));
            r.push(output);
            i += 1;
        }
        assert(outputs_of(self@).take(self.inner@.len() as int) =~= outputs_of(self@));
        r
    }

    /// The paths of the queries' templates, in the order of the queries.
    pub fn templates(&self) -> (r: Vec<&str>)
        ensures
            ref_views(r@) == used_templates(self@),
    {
        let mut r: Vec<&str> = Vec::new();
        let mut i: usize = 0;
        while i < self.inner.len()
            invariant
                i <= self.inner@.len(),
                r@.len() == i,
                forall|j: int| 0 <= j < i ==> (#[trigger] r@[j])@ == self.inner@[j].template@,
            decreases self.inner@.len() - i,
        {
            r.push(self.inner[i].template.as_str());
            i += 1;
        }
        assert(ref_views(r@) =~= used_templates(self@));
        r
    }

    /// The query with the given id: the last one declared, where several
    /// share the id.
    pub fn get(&self, id: &str) -> (r: Option<&Query>)
        ensures
            match last_with_id(self@, id@) {
                Some(i) => 0 <= i < self.inner@.len() && r == Some(&self.inner@[i]),
                None => r is None,
            },
    {
        let mut i: usize = self.inner.len();
        while i > 0
            invariant
                i <= self.inner@.len(),
                forall|j: int| i <= j < self.inner@.len() ==> self@[j].id != id@,
            decreases i,
        {
            i -= 1;
            if str_eq(self.inner[i].id.as_str(), id) {
                proof {
                    lemma_last_with_id(self@, id@, i as int);
                }
                return Some(&self.inner[i]);
            }
        }
        proof {
            lemma_last_with_id(self@, id@, -1);
        }
        None
    }

    /// The queries, in the order of their declaration.
    pub fn iter(&self) -> (r: std::slice::Iter<'_, Query>)
        ensures
            vstd::std_specs::iter::IteratorSpec::remaining(&r) == self.inner@.as_ref(),
    {
        self.inner.iter()
    }

    /// The number of queries.
    pub fn len(&self) -> (r: usize)
        ensures
            r == self@.len(),
    {
        self.inner.len()
    }
}

/// Whether some string of `outputs` differs from the first.
fn differ(outputs: &Vec<&str>) -> (r: bool)
    ensures
        r == outputs_differ(ref_views(outputs@)),
{
    let ghost outs = ref_views(outputs@);
    let mut i: usize = 1;
    while i < outputs.len()
        invariant
            1 <= i,
            outs == ref_views(outputs@),
            forall|j: int| 0 <= j < i && j < outs.len() ==> #[trigger] outs[j] == outs[0],
        decreases outputs@.len() - i,
    {
        if !str_eq(outputs[i], outputs[0]) {
            assert(outs[i as int] != outs[0]);
            return true;
        }
        i += 1;
    }
    false
}

/// A query whose template is known gets a mistake for its conditions exactly
/// when they are not all among the template's, and the mistake cites the
/// conditions that are not. The lists of conditions are read as sets.
pub proof fn lemma_invalid_conds(q: QueryView, templates: Seq<QueryTemplateView>)
    requires
        last_with_path(templates, q.template) is Some,
    ensures
        ({
            let t = templates[last_with_path(templates, q.template)->0];
            let found = query_mistakes(q, templates);
            &&& t.path == q.template
            &&& q.conds.to_set().subset_of(t.all_conds.to_set()) ==> found.len() == 0
            &&& !q.conds.to_set().subset_of(t.all_conds.to_set()) ==> {
                let cited = minus(q.conds, t.all_conds);
                &&& found == seq![MistakeView::InvalidConds { query_id: q.id, conds: cited }]
                &&& cited.len() > 0
                &&& cited.to_set() == q.conds.to_set().difference(t.all_conds.to_set())
            }
        }),
{
    lemma_last_with_path_found(templates, q.template);
    let t = templates[last_with_path(templates, q.template)->0];
    lemma_subset_of_sets(q.conds, t.all_conds);
    lemma_minus(q.conds, t.all_conds);
    let d = minus(q.conds, t.all_conds);
    assert(d.to_set() =~= q.conds.to_set().difference(t.all_conds.to_set())) by {
        assert forall|x: Seq<char>| d.to_set().contains(x) <==> q.conds.to_set().difference(
            t.all_conds.to_set(),
        ).contains(x) by {
            assert(d.contains(x) <==> q.conds.contains(x) && !t.all_conds.contains(x));
        }
    }
}

/// An id that several queries share is reported by exactly one mistake among
/// those for the ids; an id that one query has is not reported.
pub proof fn lemma_duplicate_ids(queries: Seq<QueryView>, id: Seq<char>)
    ensures
        duplicate_mistakes("queries[].id"@, ids_of(queries)).no_duplicates(),
        duplicate_mistakes("queries[].id"@, ids_of(queries)).contains(
            MistakeView::Duplicates { key: "queries[].id"@, value: id },
        ) <==> exists|i: int, j: int|
            0 <= i < j < queries.len() && queries[i].id == id && queries[j].id == id,
{
    lemma_duplicate_mistakes("queries[].id"@, ids_of(queries));
    let ids = ids_of(queries);
    if exists|i: int, j: int| 0 <= i < j < queries.len() && queries[i].id == id && queries[j].id == id {
        let (i, j) = choose|i: int, j: int|
            0 <= i < j < queries.len() && queries[i].id == id && queries[j].id == id;
        assert(0 <= i < j < ids.len() && ids[i] == id && ids[j] == id);
    }
    if exists|i: int, j: int| 0 <= i < j < ids.len() && ids[i] == id && ids[j] == id {
        let (i, j) = choose|i: int, j: int| 0 <= i < j < ids.len() && ids[i] == id && ids[j] == id;
        assert(0 <= i < j < queries.len() && queries[i].id == id && queries[j].id == id);
    }
}

/// Where each query has its own file, an output that several queries share
/// is reported by exactly one mistake among those for the outputs.
pub proof fn lemma_duplicate_outputs(queries: Seq<QueryView>, output: Seq<char>)
    ensures
        output_mistakes(queries, LayoutView::OneFileOneQuery).no_duplicates(),
        output_mistakes(queries, LayoutView::OneFileOneQuery).contains(
            MistakeView::Duplicates { key: "queries[].output"@, value: output },
        ) <==> exists|i: int, j: int|
            0 <= i < j < queries.len() && queries[i].output == output && queries[j].output
                == output,
{
    lemma_duplicate_mistakes("queries[].output"@, outputs_of(queries));
    let outs = outputs_of(queries);
    if exists|i: int, j: int|
        0 <= i < j < queries.len() && queries[i].output == output && queries[j].output == output {
        let (i, j) = choose|i: int, j: int|
            0 <= i < j < queries.len() && queries[i].output == output && queries[j].output
                == output;
        assert(0 <= i < j < outs.len() && outs[i] == output && outs[j] == output);
    }
    if exists|i: int, j: int| 0 <= i < j < outs.len() && outs[i] == output && outs[j] == output {
        let (i, j) = choose|i: int, j: int|
            0 <= i < j < outs.len() && outs[i] == output && outs[j] == output;
        assert(0 <= i < j < queries.len() && queries[i].output == output && queries[j].output
            == output);
    }
}

/// The positions among the first `n` queries whose output is not `file`.
pub open spec fn misplaced_positions(queries: Seq<QueryView>, file: Seq<char>, n: int) -> Seq<int>
    decreases n,
{
    if n <= 0 {
        Seq::empty()
    } else if queries[n - 1].output == file {
        misplaced_positions(queries, file, n - 1)
    } else {
        misplaced_positions(queries, file, n - 1).push(n - 1)
    }
}

/// Where all queries share a file that the manifest names, each query with
/// another output gets one mistake that names it, and no other query gets
/// one: the mistakes stand one for one, in order, for the positions of the
/// queries whose output is not the file.
pub proof fn lemma_misplaced_outputs(queries: Seq<QueryView>, file: Seq<char>, n: int)
    requires
        0 <= n <= queries.len(),
    ensures
        ({
            let found = misplaced_outputs(queries, file, n);
            let at = misplaced_positions(queries, file, n);
            &&& found.len() == at.len()
            &&& forall|k: int|
                0 <= k < at.len() ==> 0 <= #[trigger] at[k] < n && queries[at[k]].output != file
                    && found[k] == (MistakeView::InvalidQueryOutput {
                    query_id: queries[at[k]].id,
                    output_path: queries[at[k]].output,
                })
            &&& forall|k: int, m: int| 0 <= k < m < at.len() ==> at[k] < at[m]
            &&& forall|i: int|
                0 <= i < n && queries[i].output != file ==> at.contains(i)
            &&& n == queries.len() ==> output_mistakes(
                queries,
                LayoutView::OneFileAllQueries(Some(file)),
            ) == found
        }),
    decreases n,
{
    if n > 0 {
        lemma_misplaced_outputs(queries, file, n - 1);
        let before = misplaced_positions(queries, file, n - 1);
        let at = misplaced_positions(queries, file, n);
        assert forall|i: int| 0 <= i < n && queries[i].output != file implies at.contains(i) by {
            if i < n - 1 {
                assert(before.contains(i));
                let k = choose|k: int| 0 <= k < before.len() && before[k] == i;
                assert(at[k] == i);
            } else {
                assert(at[at.len() - 1] == i);
            }
        }
    }
}

} // verus!
