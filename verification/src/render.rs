//! Rendering in two passes. The first pass expands the conditional blocks
//! of a query template, under flags that say which conditions are on; what
//! it gives is a template again, in which the variables of the query are
//! left open. The second pass finds those variables, gives each its
//! placeholder, and renders the text once more with the placeholders in
//! the variables' places. A test template is rendered in one pass, around
//! the rendered query.
//!
//! The templating engine is `minijinja`. The sources of the templates are
//! handed to the library; it reads no files.

use crate::bindings::{as_map, lemma_as_map, Flags, Mapping};
use crate::error::Error;
use crate::metadata::{Metadata, MetadataView};
use crate::paths::file_name_of;
use crate::pattern::{capture_first_groups, first_groups, option_views};
use crate::placeholder::Placeholder;
use crate::query::last_with_id;
use crate::query_template::last_with_path;
use crate::strset::{first_seen, insert_unique, lemma_first_seen, lemma_first_seen_push};
use crate::test_template::first_with_path;
use crate::text::{
    contains_str, decimal, decimal_of, ends_with_char, join2, join3, lines_of, owned, split_lines,
    str_eq, views,
};
use minijinja::Environment;
use minijinja::Error as TemplateError;
use std::collections::BTreeMap;
use vstd::prelude::*;
use vstd::string::StrSliceExecFns;

verus! {

/// A template: the name under which the engine finds it, and its source.
#[derive(Debug, Clone)]
pub struct TemplateSource {
    pub name: String,
    pub source: String,
}

/// The templates of one directory. A name that occurs twice stands for the
/// first of its sources.
#[derive(Debug, Clone)]
pub struct TemplateSources {
    pub files: Vec<TemplateSource>,
}

/// The position of the first pair with the given name.
pub open spec fn first_named(pairs: Seq<(Seq<char>, Seq<char>)>, name: Seq<char>) -> Option<int>
    decreases pairs.len(),
{
    if pairs.len() == 0 {
        None
    } else if pairs[0].0 == name {
        Some(0)
    } else {
        match first_named(pairs.drop_first(), name) {
            Some(i) => Some(i + 1),
            None => None,
        }
    }
}

proof fn lemma_first_named(pairs: Seq<(Seq<char>, Seq<char>)>, name: Seq<char>, k: int)
    requires
        0 <= k <= pairs.len(),
        forall|j: int| 0 <= j < k ==> (#[trigger] pairs[j]).0 != name,
        k < pairs.len() ==> pairs[k].0 == name,
    ensures
        first_named(pairs, name) == if k < pairs.len() {
            Some(k)
        } else {
            None
        },
    decreases k,
{
    if k > 0 {
        let rest = pairs.drop_first();
        assert forall|j: int| 0 <= j < k - 1 implies (#[trigger] rest[j]).0 != name by {
            assert(rest[j] == pairs[j + 1]);
        }
        lemma_first_named(rest, name, k - 1);
    }
}

impl TemplateSources {
    /// The templates as pairs of name and source, in order.
    pub open spec fn pairs(&self) -> Seq<(Seq<char>, Seq<char>)> {
        self.files@.map_values(|f: TemplateSource| (f.name@, f.source@))
    }

    /// No templates.
    pub fn new() -> (r: Self)
        ensures
            r.pairs() == Seq::<(Seq<char>, Seq<char>)>::empty(),
    {
        let r = Self { files: Vec::new() };
        assert(r.pairs() =~= Seq::<(Seq<char>, Seq<char>)>::empty());
        r
    }

    /// Adds a template behind the others.
    pub fn push(&mut self, name: &str, source: &str)
        ensures
            final(self).pairs() == old(self).pairs().push((name@, source@)),
    {
        self.files.push(TemplateSource { name: owned(name), source: owned(source) });
        assert(self.pairs() =~= old(self).pairs().push((name@, source@)));
    }

    /// The source of the template with the given name.
    pub fn source_of(&self, name: &str) -> (r: Option<String>)
        ensures
            match first_named(self.pairs(), name@) {
                Some(i) => r matches Some(s) && s@ == self.pairs()[i].1,
                None => r is None,
            },
    {
        let mut i: usize = 0;
        while i < self.files.len()
            invariant
                i <= self.files@.len(),
                forall|j: int| 0 <= j < i ==> (#[trigger] self.pairs()[j]).0 != name@,
            decreases self.files@.len() - i,
        {
            if str_eq(self.files[i].name.as_str(), name) {
                proof {
                    assert(self.pairs()[i as int].0 == name@);
                    lemma_first_named(self.pairs(), name@, i as int);
                }
                return Some(self.files[i].source.clone());
            }
            i += 1;
        }
        proof {
            lemma_first_named(self.pairs(), name@, i as int);
        }
        None
    }
}

/// What the engine makes of the template `name` among `sources` under the
/// given flags, the function `placeholder` being at the template's
/// disposal: `Environment::get_template`, then `Template::render`. `None`
/// where the engine fails.
pub uninterp spec fn expanded(
    sources: Seq<(Seq<char>, Seq<char>)>,
    name: Seq<char>,
    flags: Map<Seq<char>, bool>,
) -> Option<Seq<char>>;

/// The variables that the template `source` looks up and does not set, as
/// `Template::undeclared_variables` finds them: the top-level names only.
/// `None` where the engine refuses the source.
pub uninterp spec fn undeclared_of(source: Seq<char>) -> Option<Set<Seq<char>>>;

/// What the engine makes of the template `source` under the given texts:
/// `Environment::render_str`. `None` where the engine fails.
pub uninterp spec fn rendered_text(source: Seq<char>, vars: Map<Seq<char>, Seq<char>>) -> Option<
    Seq<char>,
>;

/// What the engine makes of the template `name` among `sources` under the
/// given texts: `Environment::get_template`, then `Template::render`.
/// `None` where the engine fails.
pub uninterp spec fn rendered_named(
    sources: Seq<(Seq<char>, Seq<char>)>,
    name: Seq<char>,
    vars: Map<Seq<char>, Seq<char>>,
) -> Option<Seq<char>>;

/// A reference to the variable `name`, in the engine's own notation. A
/// query template calls this to leave a variable open for the second pass.
pub fn placeholder(name: String) -> (r: Result<String, TemplateError>)
    ensures
        r matches Ok(s) && s@ == "{{ "@ + name@ + " }}"@,
{
    Ok(join3("{{ ", name.as_str(), " }}"))
}

/// `Environment::new`, `set_loader` over the given sources, `add_function`
/// for `placeholder`, then `get_template` and `Template::render` under the
/// flags.
#[verifier::external_body]
fn expand_conditions(sources: &TemplateSources, name: &str, flags: &Flags) -> (r: Result<
    String,
    TemplateError,
>)
    ensures
        match r {
            Ok(s) => expanded(sources.pairs(), name@, flags.map()) == Some(s@),
            Err(_) => expanded(sources.pairs(), name@, flags.map()) is None,
        },
{
    let mut env = Environment::new();
    let files = sources.clone();
    env.set_loader(move |n| Ok(files.source_of(n)));
    env.add_function("placeholder", placeholder);
    let ctx: BTreeMap<String, bool> = flags.entries.iter().cloned().collect();
    env.get_template(name)?.render(ctx)
}

/// `Environment::new`, `template_from_str`, then
/// `Template::undeclared_variables` without nested names. The names come in
/// no particular order, each once.
#[verifier::external_body]
fn undeclared_variables(source: &str) -> (r: Result<Vec<String>, TemplateError>)
    ensures
        match r {
            Ok(vars) => undeclared_of(source@) == Some(views(vars@).to_set()) && views(
                vars@,
            ).no_duplicates(),
            Err(_) => undeclared_of(source@) is None,
        },
{
    let env = Environment::new();
    let template = env.template_from_str(source)?;
    Ok(template.undeclared_variables(false).into_iter().collect())
}

/// `Environment::new`, then `render_str` under the given texts.
#[verifier::external_body]
fn render_text(source: &str, vars: &Mapping) -> (r: Result<String, TemplateError>)
    ensures
        match r {
            Ok(s) => rendered_text(source@, vars.map()) == Some(s@),
            Err(_) => rendered_text(source@, vars.map()) is None,
        },
{
    let ctx: BTreeMap<String, String> = vars.entries.iter().cloned().collect();
    Environment::new().render_str(source, ctx)
}

/// `Environment::new`, `set_loader` over the given sources, then
/// `get_template` and `Template::render` under the given texts.
#[verifier::external_body]
fn render_named(sources: &TemplateSources, name: &str, vars: &Mapping) -> (r: Result<
    String,
    TemplateError,
>)
    ensures
        match r {
            Ok(s) => rendered_named(sources.pairs(), name@, vars.map()) == Some(s@),
            Err(_) => rendered_named(sources.pairs(), name@, vars.map()) is None,
        },
{
    let mut env = Environment::new();
    let files = sources.clone();
    env.set_loader(move |n| Ok(files.source_of(n)));
    let ctx: BTreeMap<String, String> = vars.entries.iter().cloned().collect();
    env.get_template(name)?.render(ctx)
}

/// The flags of the first pass: for each condition that the template
/// knows, the flag `cond__<name>`, which is on exactly when the query has
/// the condition.
pub open spec fn cond_pairs(all_conds: Seq<Seq<char>>, conds: Seq<Seq<char>>) -> Seq<
    (Seq<char>, bool),
> {
    all_conds.map_values(|c: Seq<char>| ("cond__"@ + c, conds.contains(c)))
}

/// The flags of the first pass.
pub fn cond_vars(all_conds: &Vec<String>, conds: &Vec<String>) -> (vars: Flags)
    ensures
        vars.pairs() == cond_pairs(views(all_conds@), views(conds@)),
        views(all_conds@).no_duplicates() ==> vars.distinct(),
{
    let mut vars = Flags::new();
    let mut i: usize = 0;
    while i < all_conds.len()
        invariant
            i <= all_conds@.len(),
            vars.pairs().len() == i,
            forall|j: int|
                0 <= j < i ==> #[trigger] vars.pairs()[j] == cond_pairs(
                    views(all_conds@),
                    views(conds@),
                )[j],
        decreases all_conds@.len() - i,
    {
        let c = all_conds[i].as_str();
        let name = join2("cond__", c);
        let on = contains_str(conds, c);
        vars.push(name, on);
        i += 1;
    }
    assert(vars.pairs() =~= cond_pairs(views(all_conds@), views(conds@)));
    proof {
        if views(all_conds@).no_duplicates() {
            let names = views(all_conds@);
            assert forall|a: int, b: int|
                0 <= a < vars.pairs().len() && 0 <= b < vars.pairs().len() && a != b implies (
            #[trigger] vars.pairs()[a]).0 != (#[trigger] vars.pairs()[b]).0 by {
                assert(vars.pairs()[a].0 == "cond__"@ + names[a]);
                assert(vars.pairs()[b].0 == "cond__"@ + names[b]);
                assert(("cond__"@ + names[a]).skip("cond__"@.len() as int) =~= names[a]);
                assert(("cond__"@ + names[b]).skip("cond__"@.len() as int) =~= names[b]);
            }
        }
    }
    vars
}

/// The pattern of a reference to a variable: `{{ name }}`, with at most
/// one white-space character on each side of the name.
pub open spec fn var_pattern() -> Seq<char> {
    "\\{\\{\\s?(\\w+)\\s?\\}\\}"@
}

/// The names among `groups` that are among `vars`, in order.
pub open spec fn named_in(groups: Seq<Option<Seq<char>>>, vars: Set<Seq<char>>) -> Seq<Seq<char>>
    decreases groups.len(),
{
    if groups.len() == 0 {
        Seq::empty()
    } else {
        let before = named_in(groups.drop_last(), vars);
        match groups.last() {
            Some(v) => if vars.contains(v) {
                before.push(v)
            } else {
                before
            },
            None => before,
        }
    }
}

/// The variables among `vars` that `line` refers to, in the order of the
/// references, a variable as often as it is referred to.
pub open spec fn line_vars(line: Seq<char>, vars: Set<Seq<char>>) -> Seq<Seq<char>> {
    match first_groups(var_pattern(), line) {
        Some(groups) => named_in(groups, vars),
        None => Seq::empty(),
    }
}

/// The references to variables among `vars` in the first `n` lines, in the
/// order of the text. Empty lines are passed over.
pub open spec fn occurrences(lines: Seq<Seq<char>>, vars: Set<Seq<char>>, n: int) -> Seq<Seq<char>>
    decreases n,
{
    if n <= 0 {
        Seq::empty()
    } else if lines[n - 1].len() == 0 {
        occurrences(lines, vars, n - 1)
    } else {
        occurrences(lines, vars, n - 1) + line_vars(lines[n - 1], vars)
    }
}

/// Each name with its number: the first name with `$1`, the second with
/// `$2`, and so on.
pub open spec fn numbered(names: Seq<Seq<char>>) -> Seq<(Seq<char>, Seq<char>)> {
    Seq::new(names.len(), |i: int| (names[i], "$"@ + decimal_of((i + 1) as nat)))
}

/// The variables of `template` in the order in which the text first refers
/// to each.
pub open spec fn vars_in_order(template: Seq<char>, vars: Set<Seq<char>>) -> Seq<Seq<char>> {
    first_seen(occurrences(lines_of(template), vars, lines_of(template).len() as int))
}

/// The positional placeholders of `template`: each variable among `vars`
/// that the text refers to, numbered from 1 in the order of the first
/// references. The numbering depends on the text and on `vars` as a set; it
/// does not depend on any order among `vars`.
pub open spec fn pos_args_of(template: Seq<char>, vars: Set<Seq<char>>) -> Seq<
    (Seq<char>, Seq<char>),
> {
    numbered(vars_in_order(template, vars))
}

/// The named placeholders: each variable `v` with `:v`.
pub open spec fn named_pairs(vars: Seq<Seq<char>>) -> Seq<(Seq<char>, Seq<char>)> {
    vars.map_values(|v: Seq<char>| (v, ":"@ + v))
}

/// The named placeholders as a map: every variable `v` of the set is bound
/// to `:v`, and nothing else is bound.
pub open spec fn named_map(vars: Set<Seq<char>>) -> Map<Seq<char>, Seq<char>> {
    Map::new(|v: Seq<char>| vars.contains(v), |v: Seq<char>| ":"@ + v)
}

/// The names among `groups` that are among `valid_udvars`, in the order of
/// `groups`, a name as often as it occurs.
pub fn names_among(groups: &Vec<Option<String>>, valid_udvars: &Vec<String>) -> (r: Vec<String>)
    ensures
        views(r@) == named_in(option_views(groups@), views(valid_udvars@).to_set()),
{
    let mut out: Vec<String> = Vec::new();
    let ghost vars = views(valid_udvars@).to_set();
    let ghost all = option_views(groups@);
    let mut i: usize = 0;
    proof {
        assert(all.take(0) =~= Seq::<Option<Seq<char>>>::empty());
        assert(views(out@) =~= named_in(all.take(0), vars));
    }
    while i < groups.len()
        invariant
            i <= groups@.len(),
            all == option_views(groups@),
            vars == views(valid_udvars@).to_set(),
            views(out@) == named_in(all.take(i as int), vars),
        decreases groups@.len() - i,
    {
        proof {
            assert(all.take(i + 1).drop_last() =~= all.take(i as int));
            assert(all.take(i + 1).last() == all[i as int]);
        }
        match &groups[i] {
            Some(g) => {
                assert(all[i as int] == Some(g@));
                if contains_str(valid_udvars, g.as_str()) {
                    let name = g.clone();
                    assert(views(out@.push(name)) =~= views(out@).push(g@));
                    out.push(name);
                }
            },
            None => {
                assert(all[i as int] is None);
            },
        }
        i += 1;
    }
    assert(all.take(groups@.len() as int) =~= all);
    out
}

/// The variables among `valid_udvars` that `line` refers to.
pub fn capture_udvars(line: &str, valid_udvars: &Vec<String>) -> (r: Vec<String>)
    ensures
        views(r@) == line_vars(line@, views(valid_udvars@).to_set()),
{
    match capture_first_groups("\\{\\{\\s?(\\w+)\\s?\\}\\}", line) {
        Some(groups) => names_among(&groups, valid_udvars),
        None => {
            let out: Vec<String> = Vec::new();
            assert(views(out@) =~= Seq::<Seq<char>>::empty());
            out
        },
    }
}

/// The names of `refs`, each once, numbered from 1 in the order in which
/// each is first seen.
pub fn number_names(refs: &Vec<String>) -> (r: Mapping)
    ensures
        r.pairs() == numbered(first_seen(views(refs@))),
        r.distinct(),
{
    let mut seen: Vec<String> = Vec::new();
    let ghost all = views(refs@);
    let mut k: usize = 0;
    assert(all.take(0) =~= Seq::<Seq<char>>::empty());
    while k < refs.len()
        invariant
            k <= refs@.len(),
            all == views(refs@),
            views(seen@) == first_seen(all.take(k as int)),
        decreases refs@.len() - k,
    {
        let name = refs[k].clone();
        proof {
            assert(all[k as int] == name@);
            assert(all.take(k + 1) =~= all.take(k as int).push(name@));
            lemma_first_seen_push(all.take(k as int), name@);
        }
        insert_unique(&mut seen, name);
        k += 1;
    }
    assert(all.take(refs@.len() as int) =~= all);
    let ghost names = views(seen@);
    let mut r = Mapping::new();
    let mut j: usize = 0;
    while j < seen.len()
        invariant
            j <= seen@.len(),
            names == views(seen@),
            r.pairs().len() == j,
            forall|m: int| 0 <= m < j ==> #[trigger] r.pairs()[m] == numbered(names)[m],
        decreases seen@.len() - j,
    {
        let number = decimal((j + 1) as u64);
        let text = join2("$", number.as_str());
        let name = seen[j].clone();
        assert(names[j as int] == name@);
        r.push(name, text);
        j += 1;
    }
    assert(r.pairs() =~= numbered(names));
    proof {
        lemma_first_seen(all);
        assert forall|a: int, b: int|
            0 <= a < r.pairs().len() && 0 <= b < r.pairs().len() && a != b implies (
        #[trigger] r.pairs()[a]).0 != (#[trigger] r.pairs()[b]).0 by {
            assert(r.pairs()[a].0 == names[a] && r.pairs()[b].0 == names[b]);
        }
    }
    r
}

/// The positional placeholders of `template` for the variables `udvars`.
pub fn pos_args_mapping(template: &str, udvars: &Vec<String>) -> (r: Mapping)
    ensures
        r.pairs() == pos_args_of(template@, views(udvars@).to_set()),
        r.distinct(),
{
    let lines = split_lines(template);
    let ghost vars = views(udvars@).to_set();
    let ghost all = views(lines@);
    let mut refs: Vec<String> = Vec::new();
    let mut i: usize = 0;
    assert(views(refs@) =~= occurrences(all, vars, 0));
    while i < lines.len()
        invariant
            i <= lines@.len(),
            all == views(lines@),
            vars == views(udvars@).to_set(),
            views(refs@) == occurrences(all, vars, i as int),
        decreases lines@.len() - i,
    {
        let line = lines[i].as_str();
        assert(all[i as int] == line@);
        if !line.is_empty() {
            let mut found = capture_udvars(line, udvars);
            assert(views(refs@ + found@) =~= views(refs@) + views(found@));
            refs.append(&mut found);
        }
        i += 1;
    }
    number_names(&refs)
}

/// The named placeholders of the variables `udvars`.
pub fn variables_mapping(udvars: &Vec<String>) -> (r: Mapping)
    ensures
        r.pairs() == named_pairs(views(udvars@)),
        r.map() == named_map(views(udvars@).to_set()),
        views(udvars@).no_duplicates() ==> r.distinct(),
{
    let mut r = Mapping::new();
    let mut i: usize = 0;
    while i < udvars.len()
        invariant
            i <= udvars@.len(),
            r.pairs().len() == i,
            forall|m: int|
                0 <= m < i ==> #[trigger] r.pairs()[m] == named_pairs(views(udvars@))[m],
        decreases udvars@.len() - i,
    {
        let v = udvars[i].as_str();
        let text = join2(":", v);
        r.push(owned(v), text);
        i += 1;
    }
    assert(r.pairs() =~= named_pairs(views(udvars@)));
    proof {
        lemma_named_mapping(views(udvars@));
        if views(udvars@).no_duplicates() {
            assert forall|a: int, b: int|
                0 <= a < r.pairs().len() && 0 <= b < r.pairs().len() && a != b implies (
            #[trigger] r.pairs()[a]).0 != (#[trigger] r.pairs()[b]).0 by {
                assert(r.pairs()[a].0 == views(udvars@)[a] && r.pairs()[b].0 == views(udvars@)[b]);
            }
        }
    }
    r
}

/// The named mapping is total and exact: as a map, the named placeholders
/// of a list of variables bind every variable `v` of the list to `:v`, and
/// bind nothing else.
pub proof fn lemma_named_mapping(vars: Seq<Seq<char>>)
    ensures
        as_map(named_pairs(vars)) == named_map(vars.to_set()),
        forall|v: Seq<char>|
            vars.contains(v) ==> #[trigger] as_map(named_pairs(vars)).contains_key(v) && as_map(
                named_pairs(vars),
            )[v] == ":"@ + v,
        forall|v: Seq<char>|
            !vars.contains(v) ==> !(#[trigger] as_map(named_pairs(vars)).contains_key(v)),
{
    let pairs = named_pairs(vars);
    let m = as_map(pairs);
    assert forall|v: Seq<char>|
        (#[trigger] m.contains_key(v) <==> vars.contains(v)) && (vars.contains(v) ==> m[v] == ":"@
            + v) by {
        lemma_as_map(pairs, v);
        if vars.contains(v) {
            let i = choose|i: int| 0 <= i < vars.len() && vars[i] == v;
            assert(pairs[i].0 == v);
        }
        if m.contains_key(v) {
            let i = choose|i: int| 0 <= i < pairs.len() && (#[trigger] pairs[i]).0 == v;
            assert(vars[i] == v);
            let k = crate::bindings::last_bound(pairs, v)->0;
            assert(pairs[k] == (vars[k], ":"@ + vars[k]));
        }
    }
    assert(m =~= named_map(vars.to_set()));
}

/// The positional numbering follows the text: the placeholders bind the
/// variables among `vars` that the text refers to, each once; the variable
/// at position `i` of the order of first references has the number `i + 1`.
pub proof fn lemma_positional_mapping(template: Seq<char>, vars: Set<Seq<char>>)
    ensures
        ({
            let order = vars_in_order(template, vars);
            let pairs = pos_args_of(template, vars);
            let refs = occurrences(lines_of(template), vars, lines_of(template).len() as int);
            &&& order.no_duplicates()
            &&& pairs.len() == order.len()
            &&& forall|i: int|
                0 <= i < order.len() ==> #[trigger] pairs[i] == (
                    order[i],
                    "$"@ + decimal_of((i + 1) as nat),
                )
            &&& forall|v: Seq<char>| #[trigger] order.contains(v) <==> refs.contains(v)
        }),
{
    let refs = occurrences(lines_of(template), vars, lines_of(template).len() as int);
    lemma_first_seen(refs);
}

/// `s` without a semicolon at its end.
pub open spec fn without_semicolon(s: Seq<char>) -> Seq<char> {
    if s.len() > 0 && s.last() == ';' {
        s.drop_last()
    } else {
        s
    }
}

/// `s` without a semicolon at its end.
pub fn strip_trailing_semicolon(s: &str) -> (r: &str)
    ensures
        r@ == without_semicolon(s@),
{
    if ends_with_char(s, ';') {
        let n = s.unicode_len();
        assert(s@.subrange(0, n - 1) =~= s@.drop_last());
        s.substring_char(0, n - 1)
    } else {
        s
    }
}

/// The placeholders of the second pass, as a map from the variables.
pub open spec fn placeholders_of(intermediate: Seq<char>, vars: Set<Seq<char>>, style: Placeholder) -> Map<
    Seq<char>,
    Seq<char>,
> {
    match style {
        Placeholder::PosArgs => as_map(pos_args_of(intermediate, vars)),
        Placeholder::Variables => named_map(vars),
    }
}

/// The placeholders of the second pass: positional, in the order of the
/// text, or named.
pub fn resolve_placeholders(intermediate: &str, udvars: &Vec<String>, style: Placeholder) -> (r:
    Mapping)
    ensures
        r.map() == placeholders_of(intermediate@, views(udvars@).to_set(), style),
{
    match style {
        Placeholder::PosArgs => pos_args_mapping(intermediate, udvars),
        Placeholder::Variables => variables_mapping(udvars),
    }
}

/// What the second pass makes of the text of the first: the text rendered
/// again with a placeholder in the place of each variable that it leaves
/// open. `None` where the engine fails.
pub open spec fn resolved(intermediate: Seq<char>, style: Placeholder) -> Option<Seq<char>> {
    match undeclared_of(intermediate) {
        Some(vars) => rendered_text(intermediate, placeholders_of(intermediate, vars, style)),
        None => None,
    }
}

/// What the two passes make of the template `name`: the first pass under
/// the flags of the conditions, then the second pass on its text. `None`
/// where the engine fails in either pass.
pub open spec fn two_pass(
    sources: Seq<(Seq<char>, Seq<char>)>,
    name: Seq<char>,
    all_conds: Seq<Seq<char>>,
    conds: Seq<Seq<char>>,
    style: Placeholder,
) -> Option<Seq<char>> {
    match expanded(sources, name, as_map(cond_pairs(all_conds, conds))) {
        Some(intermediate) => resolved(intermediate, style),
        None => None,
    }
}

/// How a rendering ends.
pub ghost enum Outcome {
    /// No query has the id.
    UndefinedQuery(Seq<char>),
    /// The query's template is not declared, or its path names no file.
    UndefinedQueryTemplate(Seq<char>),
    /// No test template has the path, or the path names no file.
    UndefinedTestTemplate(Seq<char>),
    /// The engine failed.
    Failed,
    /// The rendered text.
    Rendered(Seq<char>),
}

/// The result of a rendering is the given outcome.
pub open spec fn ends_as(r: Result<String, Error>, outcome: Outcome) -> bool {
    match outcome {
        Outcome::UndefinedQuery(id) => r matches Err(Error::UndefinedQuery(m)) && m@ == id,
        Outcome::UndefinedQueryTemplate(p) => r matches Err(Error::UndefinedQueryTemplate(m))
            && m@ == p,
        Outcome::UndefinedTestTemplate(p) => r matches Err(Error::UndefinedTestTemplate(m)) && m@
            == p,
        Outcome::Failed => r matches Err(Error::MiniJinja(_)),
        Outcome::Rendered(text) => r matches Ok(s) && s@ == text,
    }
}

/// The final component of `path`, or `path` itself where it has none.
pub open spec fn name_or_path(path: Seq<char>) -> Seq<char> {
    match file_name_of(path) {
        Some(name) => name,
        None => path,
    }
}

/// How the rendering of the query `query_id` ends. The lookups come first:
/// the query, then its template, which is found among the sources by the
/// file name of its path. `style` stands in for the manifest's placeholder
/// style where it is given.
pub open spec fn query_outcome(
    m: MetadataView,
    sources: Seq<(Seq<char>, Seq<char>)>,
    query_id: Seq<char>,
    style: Option<Placeholder>,
) -> Outcome {
    match last_with_id(m.queries, query_id) {
        None => Outcome::UndefinedQuery(query_id),
        Some(qi) => {
            let q = m.queries[qi];
            match last_with_path(m.query_templates, q.template) {
                None => Outcome::UndefinedQueryTemplate(name_or_path(q.template)),
                Some(ti) => {
                    let t = m.query_templates[ti];
                    match file_name_of(t.path) {
                        None => Outcome::UndefinedQueryTemplate(t.path),
                        Some(name) => match two_pass(
                            sources,
                            name,
                            t.all_conds,
                            q.conds,
                            match style {
                                Some(s) => s,
                                None => m.placeholder,
                            },
                        ) {
                            Some(text) => Outcome::Rendered(text),
                            None => Outcome::Failed,
                        },
                    }
                },
            }
        },
    }
}

/// The context of a test template: the prepared statement, without the
/// semicolon at its end.
pub open spec fn test_context(prepared_statement: Seq<char>) -> Map<Seq<char>, Seq<char>> {
    as_map(seq![("prepared_statement"@, without_semicolon(prepared_statement))])
}

/// How the rendering of the test template at `path` ends. The prepared
/// statement is the one given, or else the test's query rendered with
/// positional placeholders, whatever the manifest's style.
pub open spec fn test_outcome(
    m: MetadataView,
    query_sources: Seq<(Seq<char>, Seq<char>)>,
    test_sources: Seq<(Seq<char>, Seq<char>)>,
    path: Seq<char>,
    prepared_statement: Option<Seq<char>>,
) -> Outcome {
    match first_with_path(m.test_templates, path) {
        None => Outcome::UndefinedTestTemplate(path),
        Some(i) => {
            let tt = m.test_templates[i];
            match file_name_of(tt.path) {
                None => Outcome::UndefinedTestTemplate(tt.path),
                Some(name) => {
                    let statement = match prepared_statement {
                        Some(s) => Outcome::Rendered(s),
                        None => query_outcome(
                            m,
                            query_sources,
                            tt.query,
                            Some(Placeholder::PosArgs),
                        ),
                    };
                    match statement {
                        Outcome::Rendered(ps) => match rendered_named(
                            test_sources,
                            name,
                            test_context(ps),
                        ) {
                            Some(text) => Outcome::Rendered(text),
                            None => Outcome::Failed,
                        },
                        other => other,
                    }
                },
            }
        },
    }
}

/// The second pass: finds the variables that `intermediate` leaves open,
/// gives each its placeholder and renders the text with them.
pub fn render_placeholders(intermediate: &str, style: Placeholder) -> (r: Result<String, Error>)
    ensures
        match resolved(intermediate@, style) {
            Some(text) => r matches Ok(s) && s@ == text,
            None => r matches Err(Error::MiniJinja(_)),
        },
{
    let udvars = match undeclared_variables(intermediate) {
        Ok(vars) => vars,
        Err(e) => return Err(Error::MiniJinja(e)),
    };
    let vars = resolve_placeholders(intermediate, &udvars, style);
    match render_text(intermediate, &vars) {
        Ok(s) => Ok(s),
        Err(e) => Err(Error::MiniJinja(e)),
    }
}

/// Renders queries and tests of one manifest from the sources of its
/// templates.
#[derive(Debug)]
pub struct Engine<'a> {
    pub metadata: &'a Metadata,
    pub query_sources: TemplateSources,
    pub test_sources: TemplateSources,
}

impl<'a> Engine<'a> {
    /// An engine for `metadata`, over the sources of its query templates
    /// and of its test templates.
    pub fn new(
        metadata: &'a Metadata,
        query_sources: TemplateSources,
        test_sources: TemplateSources,
    ) -> (r: Self)
        ensures
            r.metadata == metadata,
            r.query_sources == query_sources,
            r.test_sources == test_sources,
    {
        Self { metadata, query_sources, test_sources }
    }

    /// Renders the query `query_id`, with the manifest's placeholder style
    /// or with the one given.
    pub fn render_query(&self, query_id: &str, placeholder: Option<Placeholder>) -> (r: Result<
        String,
        Error,
    >)
        ensures
            ends_as(
                r,
                query_outcome(self.metadata@, self.query_sources.pairs(), query_id@, placeholder),
            ),
    {
        let query = match self.metadata.queries.get(query_id) {
            Some(q) => q,
            None => return Err(Error::UndefinedQuery(owned(query_id))),
        };
        let query_template = match self.metadata.query_templates.get(query.template.as_str()) {
            Some(t) => t,
            None => {
                let name = match query.template_file_name() {
                    Some(name) => name,
                    None => query.template.clone(),
                };
                return Err(Error::UndefinedQueryTemplate(name));
            },
        };
        let name = match query_template.file_name() {
            Some(name) => name,
            None => return Err(Error::UndefinedQueryTemplate(query_template.path.clone())),
        };
        let ctx = cond_vars(&query_template.all_conds, &query.conds);
        let intermediate = match expand_conditions(&self.query_sources, name.as_str(), &ctx) {
            Ok(s) => s,
            Err(e) => return Err(Error::MiniJinja(e)),
        };
        let style = match placeholder {
            Some(p) => p,
            None => self.metadata.placeholder,
        };
        render_placeholders(intermediate.as_str(), style)
    }

    /// Renders the test template at `path`, around the prepared statement
    /// given or, where none is given, around its query rendered with
    /// positional placeholders.
    pub fn render_test(&self, path: &str, prepared_statement: Option<&str>) -> (r: Result<
        String,
        Error,
    >)
        ensures
            ends_as(
                r,
                test_outcome(
                    self.metadata@,
                    self.query_sources.pairs(),
                    self.test_sources.pairs(),
                    path@,
                    match prepared_statement {
                        Some(s) => Some(s@),
                        None => None,
                    },
                ),
            ),
    {
        let test_template = match self.metadata.test_templates.get(path) {
            Some(t) => t,
            None => return Err(Error::UndefinedTestTemplate(owned(path))),
        };
        let name = match test_template.file_name() {
            Some(name) => name,
            None => return Err(Error::UndefinedTestTemplate(test_template.path.clone())),
        };
        let ps = match prepared_statement {
            Some(s) => owned(s),
            None => match self.render_query(
                test_template.query.as_str(),
                Some(Placeholder::PosArgs),
            ) {
                Ok(s) => s,
                Err(e) => return Err(e),
            },
        };
        let ctx = crate::bindings::single(
            "prepared_statement",
            strip_trailing_semicolon(ps.as_str()),
        );
        match render_named(&self.test_sources, name.as_str(), &ctx) {
            Ok(s) => Ok(s),
            Err(e) => Err(Error::MiniJinja(e)),
        }
    }
}

} // verus!
