//! Query templates: a template file and the conditions it knows.

use crate::config::{
    optional_strset, optional_strset_value, required_path, required_path_value, Value,
};
use crate::error::{decoded, Error};
use crate::paths::{file_name, file_name_of};
use crate::text::{contains_str, owned, ref_views, str_eq, views};
use crate::validation::{
    duplicate_mistakes, mistake_views, push_duplicates, validate_path, ManifestMistake,
    MistakeView,
};
use vstd::prelude::*;

verus! {

/// A template of queries, known by the path of its file.
#[derive(Debug)]
pub struct QueryTemplate {
    pub path: String,
    /// Every condition that the template knows. The list is read as a set:
    /// a decoded template names each condition once.
    pub all_conds: Vec<String>,
}

pub ghost struct QueryTemplateView {
    pub path: Seq<char>,
    pub all_conds: Seq<Seq<char>>,
}

impl View for QueryTemplate {
    type V = QueryTemplateView;

    open spec fn view(&self) -> QueryTemplateView {
        QueryTemplateView { path: self.path@, all_conds: views(self.all_conds@) }
    }
}

/// What an entry of `query_templates` stands for: a template whose path is
/// relative to `base_dir`, or the message of the error.
pub open spec fn query_template_value(base_dir: Seq<char>, value: Value) -> Result<
    QueryTemplateView,
    Seq<char>,
> {
    match value {
        Value::Table(entries) => match required_path_value(
            entries@,
            "path"@,
            Some(base_dir),
            "Query template path missing"@,
            "query_templates[].path"@,
        ) {
            Ok(path) => match optional_strset_value(
                entries@,
                "all_conds"@,
                "query_templates[].all_conds"@,
            ) {
                Ok(all_conds) => Ok(QueryTemplateView { path, all_conds }),
                Err(msg) => Err(msg),
            },
            Err(msg) => Err(msg),
        },
        _ => Err("Invalid 'query_template' entry"@),
    }
}

impl QueryTemplate {
    /// The template names each of its conditions once.
    pub open spec fn wf(&self) -> bool {
        views(self.all_conds@).no_duplicates()
    }

    /// Decodes an entry of `query_templates`.
    pub fn decode(base_dir: &str, value: &Value) -> (r: Result<Self, Error>)
        ensures
            decoded(r, query_template_value(base_dir@, *value)),
            r matches Ok(template) ==> template.wf(),
    {
        match value.as_table() {
            Some(entries) => {
                let path = match required_path(
                    entries,
                    "path",
                    Some(base_dir),
                    "Query template path missing",
                    "query_templates[].path",
                ) {
                    Ok(path) => path,
                    Err(e) => return Err(e),
                };
                let all_conds = match optional_strset(
                    entries,
                    "all_conds",
                    "query_templates[].all_conds",
                ) {
                    Ok(set) => set,
                    Err(e) => return Err(e),
                };
                Ok(Self { path, all_conds })
            },
            None => Err(Error::Parsing(owned("Invalid 'query_template' entry"))),
        }
    }

    /// The template's identifier: its path.
    pub fn id(&self) -> (r: &str)
        ensures
            r@ == self.path@,
    {
        self.path.as_str()
    }

    /// The name of the template's file: the final component of its path, if
    /// it has one.
    pub fn file_name(&self) -> (r: Option<String>)
        ensures
            r is Some <==> file_name_of(self.path@) is Some,
            r matches Some(name) ==> file_name_of(self.path@) == Some(name@),
    {
        file_name(self.path.as_str())
    }

    /// Checks the template's file, given whether it exists on disk.
    pub fn validate(&self, exists: bool) -> (r: Option<ManifestMistake>)
        ensures
            exists ==> r is None,
            !exists ==> (r matches Some(m) && m@ == (MistakeView::PathDoesnotExist {
                path: self.path@,
                key: "query_templates[].path"@,
            })),
    {
        match validate_path(self.path.as_str(), "query_templates[].path", exists) {
            Ok(()) => None,
            Err(m) => Some(m),
        }
    }
}

/// The query templates of a manifest, in the order of their declaration.
#[derive(Debug)]
pub struct QueryTemplates {
    pub inner: Vec<QueryTemplate>,
}

impl View for QueryTemplates {
    type V = Seq<QueryTemplateView>;

    open spec fn view(&self) -> Seq<QueryTemplateView> {
        self.inner@.map_values(|t: QueryTemplate| t@)
    }
}

/// The position of the last template with the given path.
pub open spec fn last_with_path(templates: Seq<QueryTemplateView>, path: Seq<char>) -> Option<int>
    decreases templates.len(),
{
    if templates.len() == 0 {
        None
    } else if templates.last().path == path {
        Some(templates.len() - 1)
    } else {
        last_with_path(templates.drop_last(), path)
    }
}

pub proof fn lemma_last_with_path(templates: Seq<QueryTemplateView>, path: Seq<char>, k: int)
    requires
        -1 <= k < templates.len(),
        k >= 0 ==> templates[k].path == path,
        forall|j: int| k < j < templates.len() ==> templates[j].path != path,
    ensures
        last_with_path(templates, path) == if k >= 0 {
            Some(k)
        } else {
            None
        },
    decreases templates.len(),
{
    if templates.len() > 0 && templates.last().path != path {
        lemma_last_with_path(templates.drop_last(), path, k);
    }
}

/// What the lookup finds is a template with the path looked for.
pub proof fn lemma_last_with_path_found(templates: Seq<QueryTemplateView>, path: Seq<char>)
    ensures
        match last_with_path(templates, path) {
            Some(i) => 0 <= i < templates.len() && templates[i].path == path,
            None => forall|j: int| 0 <= j < templates.len() ==> templates[j].path != path,
        },
    decreases templates.len(),
{
    if templates.len() > 0 && templates.last().path != path {
        let init = templates.drop_last();
        lemma_last_with_path_found(init, path);
        if last_with_path(init, path) is None {
            assert forall|j: int| 0 <= j < templates.len() implies templates[j].path != path by {
                if j < init.len() {
                    assert(init[j].path != path);
                }
            }
        }
    }
}

/// What the first `n` entries of `query_templates` stand for: the templates,
/// or the message of the first error.
pub open spec fn query_templates_upto(base_dir: Seq<char>, items: Seq<Value>, n: int) -> Result<
    Seq<QueryTemplateView>,
    Seq<char>,
>
    decreases n,
{
    if n <= 0 {
        Ok(Seq::empty())
    } else {
        match query_templates_upto(base_dir, items, n - 1) {
            Ok(before) => match query_template_value(base_dir, items[n - 1]) {
                Ok(t) => Ok(before.push(t)),
                Err(msg) => Err(msg),
            },
            Err(msg) => Err(msg),
        }
    }
}

/// What the value of the key `query_templates` stands for.
pub open spec fn query_templates_value(base_dir: Seq<char>, value: Value) -> Result<
    Seq<QueryTemplateView>,
    Seq<char>,
> {
    match value {
        Value::Array(items) => query_templates_upto(base_dir, items@, items@.len() as int),
        _ => Err("Invalid query templates"@),
    }
}

/// One mistake for each of the first `n` paths that is not among
/// `existing`.
pub open spec fn missing_paths(
    paths: Seq<Seq<char>>,
    existing: Seq<Seq<char>>,
    key: Seq<char>,
    n: int,
) -> Seq<MistakeView>
    decreases n,
{
    if n <= 0 {
        Seq::empty()
    } else if existing.contains(paths[n - 1]) {
        missing_paths(paths, existing, key, n - 1)
    } else {
        missing_paths(paths, existing, key, n - 1).push(
            MistakeView::PathDoesnotExist { path: paths[n - 1], key },
        )
    }
}

/// The paths of the templates, in order.
pub open spec fn template_paths(templates: Seq<QueryTemplateView>) -> Seq<Seq<char>> {
    templates.map_values(|t: QueryTemplateView| t.path)
}

/// The mistakes among the query templates: a mistake for each template whose
/// file is not among `existing`, then one for each path that several
/// templates share.
pub open spec fn query_templates_mistakes(
    templates: Seq<QueryTemplateView>,
    existing: Seq<Seq<char>>,
) -> Seq<MistakeView> {
    missing_paths(
        template_paths(templates),
        existing,
        "query_templates[].path"@,
        templates.len() as int,
    ) + duplicate_mistakes("query_templates[].path"@, template_paths(templates))
}

impl QueryTemplates {
    /// No templates.
    pub fn new() -> (r: Self)
        ensures
            r@.len() == 0,
    {
        Self { inner: Vec::new() }
    }

    /// Adds a template behind the others.
    pub fn push(&mut self, template: QueryTemplate)
        ensures
            final(self)@ == old(self)@.push(template@),
    {
        self.inner.push(template);
        assert(self@ =~= old(self)@.push(template@));
    }

    /// Decodes the value of the key `query_templates`.
    pub fn decode(base_dir: &str, value: &Value) -> (r: Result<Self, Error>)
        ensures
            decoded(r, query_templates_value(base_dir@, *value)),
    {
        match value.as_array() {
            Some(items) => {
                let mut res = Self::new();
                let mut i: usize = 0;
                assert(res@ =~= Seq::<QueryTemplateView>::empty());
                while i < items.len()
                    invariant
                        *value == Value::Array(*items),
                        i <= items@.len(),
                        query_templates_upto(base_dir@, items@, i as int) == Ok::<
                            Seq<QueryTemplateView>,
                            Seq<char>,
                        >(res@),
                    decreases items@.len() - i,
                {
                    match QueryTemplate::decode(base_dir, &items[i]) {
                        Ok(t) => res.push(t),
                        Err(e) => {
                            proof {
                                lemma_query_templates_error(
                                    base_dir@,
                                    items@,
                                    i + 1,
                                    items@.len() as int,
                                );
                            }
                            return Err(e);
                        },
                    }
                    i += 1;
                }
                Ok(res)
            },
            None => Err(Error::Parsing(owned("Invalid query templates"))),
        }
    }

    /// The mistakes among the templates. `existing` lists the paths that
    /// exist on disk.
    pub fn validate(&self, existing: &Vec<String>) -> (mistakes: Vec<ManifestMistake>)
        ensures
            mistake_views(mistakes@) == query_templates_mistakes(self@, views(existing@)),
    {
        let mut mistakes: Vec<ManifestMistake> = Vec::new();
        let mut all_paths: Vec<&str> = Vec::new();
        let mut i: usize = 0;
        assert(mistake_views(mistakes@) =~= Seq::<MistakeView>::empty());
        assert(ref_views(all_paths@) =~= template_paths(self@).take(0));
        while i < self.inner.len()
            invariant
                i <= self.inner@.len(),
                mistake_views(mistakes@) == missing_paths(
                    template_paths(self@),
                    views(existing@),
                    "query_templates[].path"@,
                    i as int,
                ),
                ref_views(all_paths@) == template_paths(self@).take(i as int),
            decreases self.inner@.len() - i,
        {
            let qt = &self.inner[i];
            assert(template_paths(self@)[i as int] == qt.path@);
            match qt.validate(contains_str(existing, qt.path.as_str())) {
                Some(m) => {
                    assert(mistake_views(mistakes@.push(m)) =~= mistake_views(mistakes@).push(m@));
                    mistakes.push(m);
                },
                None => {},
            }
            let path = qt.path.as_str();
            proof {
                assert(ref_views(all_paths@.push(path)) =~= ref_views(all_paths@).push(path@));
                assert(template_paths(self@).take(i + 1) =~= template_paths(self@).take(
                    i as int,
                ).push(qt.path@));
            }
            all_paths.push(path);
            i += 1;
        }
        assert(template_paths(self@).take(self.inner@.len() as int) =~= template_paths(self@));
        push_duplicates(&mut mistakes, "query_templates[].path", &all_paths);
        mistakes
    }

    /// The template with the given path: the last one declared, where
    /// several share the path.
    pub fn get(&self, path: &str) -> (r: Option<&QueryTemplate>)
        ensures
            match last_with_path(self@, path@) {
                Some(i) => 0 <= i < self.inner@.len() && r == Some(&self.inner@[i]),
                None => r is None,
            },
    {
        let mut i: usize = self.inner.len();
        while i > 0
            invariant
                i <= self.inner@.len(),
                forall|j: int| i <= j < self.inner@.len() ==> self@[j].path != path@,
            decreases i,
        {
            i -= 1;
            if str_eq(self.inner[i].path.as_str(), path) {
                proof {
                    lemma_last_with_path(self@, path@, i as int);
                }
                return Some(&self.inner[i]);
            }
        }
        proof {
            lemma_last_with_path(self@, path@, -1);
        }
        None
    }

    /// The paths of the templates, in order.
    pub fn paths(&self) -> (r: Vec<&str>)
        ensures
            ref_views(r@) == template_paths(self@),
    {
        let mut r: Vec<&str> = Vec::new();
        let mut i: usize = 0;
        while i < self.inner.len()
            invariant
                i <= self.inner@.len(),
                r@.len() == i,
                forall|j: int| 0 <= j < i ==> (#[trigger] r@[j])@ == self.inner@[j].path@,
            decreases self.inner@.len() - i,
        {
            r.push(self.inner[i].path.as_str());
            i += 1;
        }
        assert(ref_views(r@) =~= template_paths(self@));
        r
    }

    /// The templates, in the order of their declaration.
    pub fn iter(&self) -> (r: std::slice::Iter<'_, QueryTemplate>)
        ensures
            vstd::std_specs::iter::IteratorSpec::remaining(&r) == self.inner@.as_ref(),
    {
        self.inner.iter()
    }
}

/// Once an entry fails to decode, the whole list fails with its message.
pub proof fn lemma_query_templates_error(base_dir: Seq<char>, items: Seq<Value>, k: int, n: int)
    requires
        0 < k <= n,
        query_templates_upto(base_dir, items, k) is Err,
    ensures
        query_templates_upto(base_dir, items, n) == query_templates_upto(base_dir, items, k),
    decreases n - k,
{
    if k < n {
        lemma_query_templates_error(base_dir, items, k, n - 1);
    }
}

} // verus!
