//! What the commands compute: the texts that a rendering run writes, the
//! coverage threshold of the command line, the queries without tests, the
//! rows of the summary and of the coverage table, and the exit code of a
//! status run.

use crate::bindings::{as_map, lemma_as_map};
use crate::error::Error;
use crate::metadata::{Metadata, MetadataView};
use crate::output::{
    classified, combined_upto, expected_query_bytes, expected_test_bytes, owned_bytes_view,
    query_status, query_status_value, same_paths, status_of, style_of, tagged_text,
    testfile_status, write_combined, write_separately, Layout, LayoutView, QueryOutputReader,
    SqlToWrite, Status, StatusFailure,
};
use crate::placeholder::Placeholder;
use crate::query::{Query, QueryView};
use crate::render::{ends_as, query_outcome, test_outcome, Engine, Outcome};
use crate::strset::minus;
use crate::tagging::{NameTagView, NameTagger};
use crate::test_template::{templates_of_query, TestTemplate, TestTemplateView};
use crate::text::{chars_of, join2, join3, owned, ref_views, str_eq, views};
use crate::validation::{message_of, mistake_views, ManifestMistake, MistakeView};
use vstd::prelude::*;
use vstd::string::StringExecFns;

verus! {

/// The character is a decimal digit.
pub open spec fn is_digit(c: char) -> bool {
    48 <= c as u32 <= 57
}

/// Every character is a decimal digit.
pub open spec fn all_digits(s: Seq<char>) -> bool {
    forall|i: int| 0 <= i < s.len() ==> is_digit(#[trigger] s[i])
}

/// The number that a sequence of decimal digits writes.
pub open spec fn value_of(s: Seq<char>) -> nat
    decreases s.len(),
{
    if s.len() == 0 {
        0
    } else {
        value_of(s.drop_last()) * 10 + (s.last() as u32 - 48) as nat
    }
}

/// `s` without a `+` at its start.
pub open spec fn number_body(s: Seq<char>) -> Seq<char> {
    if s.len() > 0 && s[0] == '+' {
        s.drop_first()
    } else {
        s
    }
}

/// The number that `s` writes: decimal digits, with `+` before them or not,
/// that stay within the machine's word.
pub open spec fn parsed_number(s: Seq<char>) -> Option<nat> {
    let body = number_body(s);
    if body.len() > 0 && all_digits(body) && value_of(body) <= usize::MAX {
        Some(value_of(body))
    } else {
        None
    }
}

/// What a threshold on the command line stands for: a percentage, or the
/// message of the error.
pub open spec fn threshold_value(s: Seq<char>) -> Result<u8, Seq<char>> {
    match parsed_number(s) {
        Some(n) => if n > 100 {
            Err("threshold not in range 0..100"@)
        } else {
            Ok(n as u8)
        },
        None => Err("threshold is not a number"@),
    }
}

proof fn lemma_value_grows(s: Seq<char>, k: int)
    requires
        0 <= k <= s.len(),
        all_digits(s),
    ensures
        value_of(s.take(k)) <= value_of(s),
    decreases s.len() - k,
{
    if k < s.len() {
        lemma_value_grows(s, k + 1);
        assert(s.take(k + 1).drop_last() =~= s.take(k));
        assert(is_digit(s[k]));
        assert(s.take(k + 1).last() == s[k]);
    } else {
        assert(s.take(k) =~= s);
    }
}

/// The number that `s` writes, if it writes one.
pub fn parse_number(s: &str) -> (r: Option<usize>)
    ensures
        match r {
            Some(n) => parsed_number(s@) == Some(n as nat),
            None => parsed_number(s@) is None,
        },
{
    let cs = chars_of(s);
    let n = cs.len();
    let start: usize = if n > 0 && cs[0] == '+' {
        1
    } else {
        0
    };
    let ghost body = cs@.skip(start as int);
    assert(body =~= number_body(s@));
    if start == n {
        return None;
    }
    let mut acc: usize = 0;
    let mut i: usize = start;
    assert(body.take(0) =~= Seq::<char>::empty());
    while i < n
        invariant
            n == cs@.len(),
            start <= i <= n,
            body == cs@.skip(start as int),
            body == number_body(s@),
            body.len() == n - start,
            start < n,
            all_digits(body.take(i - start)),
            value_of(body.take(i - start)) == acc,
        decreases n - i,
    {
        let code: u32 = cs[i] as u32;
        if code < 48 || code > 57 {
            assert(!is_digit(body[i - start]));
            return None;
        }
        let d: usize = (code - 48) as usize;
        proof {
            assert(body.take(i - start + 1).drop_last() =~= body.take(i - start));
            assert(body.take(i - start + 1).last() == cs@[i as int]);
            assert forall|j: int| 0 <= j < i - start + 1 implies is_digit(
                #[trigger] body.take(i - start + 1)[j],
            ) by {
                if j < i - start {
                    assert(body.take(i - start)[j] == body.take(i - start + 1)[j]);
                }
            }
        }
        assert(value_of(body.take(i - start + 1)) == acc * 10 + d);
        if acc > (usize::MAX - d) / 10 {
            proof {
                assert(acc * 10 + d > usize::MAX);
                if all_digits(body) {
                    lemma_value_grows(body, i - start + 1);
                }
            }
            return None;
        }
        acc = acc * 10 + d;
        i += 1;
    }
    assert(body.take(n - start) =~= body);
    Some(acc)
}

/// Reads the threshold of the command line: a percentage from 0 to 100.
pub fn cov_threshold_parser(value: &str) -> (r: Result<u8, String>)
    ensures
        match threshold_value(value@) {
            Ok(t) => r == Ok::<u8, String>(t),
            Err(msg) => r matches Err(m) && m@ == msg,
        },
{
    match parse_number(value) {
        Some(threshold) => {
            if threshold > 100 {
                Err(owned("threshold not in range 0..100"))
            } else {
                Ok(threshold as u8)
            }
        },
        None => Err(owned("threshold is not a number")),
    }
}

/// The ids of the first `n` queries that no test template names.
pub open spec fn untested_upto(
    queries: Seq<QueryView>,
    templates: Seq<TestTemplateView>,
    n: int,
) -> Seq<Seq<char>>
    decreases n,
{
    if n <= 0 {
        Seq::empty()
    } else if templates_of_query(templates, queries[n - 1].id).len() == 0 {
        untested_upto(queries, templates, n - 1).push(queries[n - 1].id)
    } else {
        untested_upto(queries, templates, n - 1)
    }
}

/// The ids of the queries that have no test, in the order of the queries.
pub fn untested_queries(metadata: &Metadata) -> (r: Vec<&str>)
    ensures
        ref_views(r@) == untested_upto(
            metadata.queries@,
            metadata.test_templates@,
            metadata.queries@.len() as int,
        ),
{
    let mut untested: Vec<&str> = Vec::new();
    let mut i: usize = 0;
    assert(ref_views(untested@) =~= Seq::<Seq<char>>::empty());
    while i < metadata.queries.inner.len()
        invariant
            i <= metadata.queries.inner@.len(),
            ref_views(untested@) == untested_upto(
                metadata.queries@,
                metadata.test_templates@,
                i as int,
            ),
        decreases metadata.queries.inner@.len() - i,
    {
        let query = &metadata.queries.inner[i];
        assert(metadata.queries@[i as int] == query@);
        let tts = metadata.test_templates.find_by_query(query.id.as_str());
        if tts.len() == 0 {
            let id = query.id.as_str();
            assert(ref_views(untested@.push(id)) =~= ref_views(untested@).push(id@));
            untested.push(id);
        }
        i += 1;
    }
    untested
}

/// The states of the outputs of a status run, each with the path of its
/// output, as plain values.
pub open spec fn stat_views(stats: Seq<(&str, Status)>) -> Seq<(Seq<char>, Status)> {
    stats.map_values(|s: (&str, Status)| (s.0@, s.1))
}

/// Some output would change: read as a map from the paths, where a path
/// that is named again takes its latest state, the states hold one that
/// is not `Unchanged`.
pub open spec fn any_change(stats: Seq<(Seq<char>, Status)>) -> bool {
    exists|path: Seq<char>|
        as_map(stats).contains_key(path) && #[trigger] as_map(stats)[path] != Status::Unchanged
}

/// The exit code of a status run: 1 where changes were to be ruled out and
/// some output would change, else 0.
pub fn status_exit_code(stats: &Vec<(&str, Status)>, assert_no_changes: bool) -> (code: i32)
    ensures
        code == if assert_no_changes && any_change(stat_views(stats@)) {
            1int
        } else {
            0
        },
{
    if !assert_no_changes {
        return 0;
    }
    let ghost pairs = stat_views(stats@);
    let mut i: usize = 0;
    while i < stats.len()
        invariant
            assert_no_changes,
            i <= stats@.len(),
            pairs == stat_views(stats@),
            forall|k: int|
                0 <= k < i && (forall|j: int| k < j < pairs.len() ==> (#[trigger] pairs[j]).0
                    != pairs[k].0) ==> (#[trigger] pairs[k]).1 == Status::Unchanged,
        decreases stats@.len() - i,
    {
        let path = stats[i].0;
        let status = stats[i].1;
        assert(pairs[i as int] == (path@, status));
        let mut later = false;
        let mut j: usize = i + 1;
        while j < stats.len()
            invariant
                i < j <= stats@.len(),
                pairs == stat_views(stats@),
                pairs[i as int].0 == path@,
                !later ==> forall|m: int| i < m < j ==> (#[trigger] pairs[m]).0 != path@,
                later ==> exists|m: int| i < m < pairs.len() && (#[trigger] pairs[m]).0 == path@,
            decreases stats@.len() - j,
        {
            if str_eq(stats[j].0, path) {
                assert(pairs[j as int].0 == path@);
                later = true;
            }
            j += 1;
        }
        if !later && status != Status::Unchanged {
            proof {
                crate::bindings::lemma_last_bound(pairs, path@, i as int);
                lemma_as_map(pairs, path@);
                assert(as_map(pairs)[path@] != Status::Unchanged);
            }
            return 1;
        }
        i += 1;
    }
    proof {
        assert forall|path: Seq<char>| as_map(pairs).contains_key(path) implies #[trigger] as_map(
            pairs,
        )[path] == Status::Unchanged by {
            lemma_as_map(pairs, path);
            crate::bindings::lemma_last_bound_is_last(pairs, path);
            let k = crate::bindings::last_bound(pairs, path)->0;
            assert(pairs[k].1 == Status::Unchanged);
        }
    }
    0
}

/// The texts joined by line feeds.
pub open spec fn joined_lines(parts: Seq<Seq<char>>) -> Seq<char>
    decreases parts.len(),
{
    if parts.len() == 0 {
        Seq::empty()
    } else if parts.len() == 1 {
        parts[0]
    } else {
        joined_lines(parts.drop_last()) + seq!['\n'] + parts.last()
    }
}

/// The row of the summary for one query: its id, its output, its template
/// and the outputs of its tests, one on each line.
pub open spec fn summary_row(q: QueryView, templates: Seq<TestTemplateView>) -> Seq<Seq<char>> {
    seq![
        q.id,
        q.output,
        q.template,
        joined_lines(
            templates_of_query(templates, q.id).map_values(|t: TestTemplateView| t.output),
        ),
    ]
}

/// The rows of the summary, one for each query in the order of the
/// queries.
pub fn summary_rows(metadata: &Metadata) -> (rows: Vec<Vec<String>>)
    ensures
        rows@.len() == metadata.queries@.len(),
        forall|i: int|
            0 <= i < rows@.len() ==> crate::text::views((#[trigger] rows@[i])@) == summary_row(
                metadata.queries@[i],
                metadata.test_templates@,
            ),
{
    let mut rows: Vec<Vec<String>> = Vec::new();
    let mut i: usize = 0;
    while i < metadata.queries.inner.len()
        invariant
            i <= metadata.queries.inner@.len(),
            rows@.len() == i,
            forall|k: int|
                0 <= k < i ==> crate::text::views((#[trigger] rows@[k])@) == summary_row(
                    metadata.queries@[k],
                    metadata.test_templates@,
                ),
        decreases metadata.queries.inner@.len() - i,
    {
        let query = &metadata.queries.inner[i];
        assert(metadata.queries@[i as int] == query@);
        let tts = metadata.test_templates.find_by_query(query.id.as_str());
        let ghost outs = templates_of_query(metadata.test_templates@, query.id@).map_values(
            |t: TestTemplateView| t.output,
        );
        let mut tests = String::new();
        let mut k: usize = 0;
        assert(outs.take(0) =~= Seq::<Seq<char>>::empty());
        while k < tts.len()
            invariant
                k <= tts@.len(),
                outs.len() == tts@.len(),
                forall|j: int| 0 <= j < tts@.len() ==> (#[trigger] tts@[j]).output@ == outs[j],
                tests@ == joined_lines(outs.take(k as int)),
            decreases tts@.len() - k,
        {
            proof {
                assert(outs.take(k + 1).drop_last() =~= outs.take(k as int));
                assert(outs.take(k + 1).last() == tts@[k as int].output@);
                reveal_strlit("\n");
                assert("\n"@ =~= seq!['\n']);
            }
            if k > 0 {
                tests.append("\n");
            }
            tests.append(tts[k].output.as_str());
            proof {
                if k == 0 {
                    assert(outs.take(1)[0] == tts@[0].output@);
                }
            }
            k += 1;
        }
        assert(outs.take(tts@.len() as int) =~= outs);
        let mut row: Vec<String> = Vec::new();
        row.push(query.id.clone());
        row.push(query.output.clone());
        row.push(query.template.clone());
        row.push(tests);
        assert(crate::text::views(row@) =~= summary_row(query@, metadata.test_templates@));
        rows.push(row);
        i += 1;
    }
    rows
}

/// How the coverage table says whether a query has tests.
pub fn has_tests_label(count: usize) -> (r: String)
    ensures
        r@ == tests_label(count as nat),
{
    if count == 0 {
        owned("No")
    } else {
        let digits = crate::text::decimal(count as u64);
        let head = join2("Yes (", digits.as_str());
        join2(head.as_str(), ")")
    }
}

/// A text that is to be written, as plain values: the path of its file,
/// the text, and the name tag that it is to carry.
pub ghost struct PlannedFile {
    pub path: Seq<char>,
    pub sql: Seq<char>,
    pub name_tag: Option<NameTagView>,
}

/// The files to write as plain values.
pub open spec fn planned(files: Seq<SqlToWrite>) -> Seq<PlannedFile> {
    files.map_values(
        |f: SqlToWrite| PlannedFile { path: f.path@, sql: f.sql@, name_tag: f.tag_view() },
    )
}

/// The prepared statement that a query's tests are rendered around: the
/// rendered query where placeholders are positional; none where they are
/// named, and each test then renders the query for itself.
pub open spec fn statement_for(style: Placeholder, query_text: Seq<char>) -> Option<Seq<char>> {
    match style {
        Placeholder::PosArgs => Some(query_text),
        Placeholder::Variables => None,
    }
}

/// What rendering the first `n` of `templates` gives: their files in order,
/// or the way in which the first rendering that fails ends.
pub open spec fn tests_upto(
    m: MetadataView,
    query_sources: Seq<(Seq<char>, Seq<char>)>,
    test_sources: Seq<(Seq<char>, Seq<char>)>,
    templates: Seq<TestTemplateView>,
    statement: Option<Seq<char>>,
    n: int,
) -> Result<Seq<PlannedFile>, Outcome>
    decreases n,
{
    if n <= 0 {
        Ok(Seq::empty())
    } else {
        match tests_upto(m, query_sources, test_sources, templates, statement, n - 1) {
            Err(outcome) => Err(outcome),
            Ok(files) => match test_outcome(
                m,
                query_sources,
                test_sources,
                templates[n - 1].path,
                statement,
            ) {
                Outcome::Rendered(text) => Ok(
                    files.push(
                        PlannedFile { path: templates[n - 1].output, sql: text, name_tag: None },
                    ),
                ),
                other => Err(other),
            },
        }
    }
}

/// What rendering the first `n` queries and their tests gives: the files of
/// the queries and the files of the tests, each in order, or the way in
/// which the first rendering that fails ends. A query is rendered before
/// its tests, and its tests before the next query.
pub open spec fn rendered_upto(
    m: MetadataView,
    query_sources: Seq<(Seq<char>, Seq<char>)>,
    test_sources: Seq<(Seq<char>, Seq<char>)>,
    n: int,
) -> Result<(Seq<PlannedFile>, Seq<PlannedFile>), Outcome>
    decreases n,
{
    if n <= 0 {
        Ok((Seq::empty(), Seq::empty()))
    } else {
        match rendered_upto(m, query_sources, test_sources, n - 1) {
            Err(outcome) => Err(outcome),
            Ok(files) => {
                let q = m.queries[n - 1];
                match query_outcome(m, query_sources, q.id, None) {
                    Outcome::Rendered(text) => {
                        let templates = templates_of_query(m.test_templates, q.id);
                        match tests_upto(
                            m,
                            query_sources,
                            test_sources,
                            templates,
                            statement_for(m.placeholder, text),
                            templates.len() as int,
                        ) {
                            Err(outcome) => Err(outcome),
                            Ok(tests) => Ok(
                                (
                                    files.0.push(
                                        PlannedFile {
                                            path: q.output,
                                            sql: text,
                                            name_tag: Some(q.name_tag),
                                        },
                                    ),
                                    files.1 + tests,
                                ),
                            ),
                        }
                    },
                    other => Err(other),
                }
            },
        }
    }
}

/// Once a test fails to render, the tests behind it change nothing.
pub proof fn lemma_tests_failure_stays(
    m: MetadataView,
    query_sources: Seq<(Seq<char>, Seq<char>)>,
    test_sources: Seq<(Seq<char>, Seq<char>)>,
    templates: Seq<TestTemplateView>,
    statement: Option<Seq<char>>,
    n: int,
    k: int,
)
    requires
        0 <= n <= k,
        tests_upto(m, query_sources, test_sources, templates, statement, n) is Err,
    ensures
        tests_upto(m, query_sources, test_sources, templates, statement, k) == tests_upto(
            m,
            query_sources,
            test_sources,
            templates,
            statement,
            n,
        ),
    decreases k,
{
    if n < k {
        lemma_tests_failure_stays(m, query_sources, test_sources, templates, statement, n, k - 1);
    }
}

/// Once a rendering fails, the queries behind it change nothing.
pub proof fn lemma_failure_stays(
    m: MetadataView,
    query_sources: Seq<(Seq<char>, Seq<char>)>,
    test_sources: Seq<(Seq<char>, Seq<char>)>,
    n: int,
    k: int,
)
    requires
        0 <= n <= k,
        rendered_upto(m, query_sources, test_sources, n) is Err,
    ensures
        rendered_upto(m, query_sources, test_sources, k) == rendered_upto(
            m,
            query_sources,
            test_sources,
            n,
        ),
    decreases k,
{
    if n < k {
        lemma_failure_stays(m, query_sources, test_sources, n, k - 1);
    }
}

/// Renders the tests of `query` around `query_text`, the text that the
/// query was rendered to, and gives the files of the tests in the order of
/// their declaration. The first test that fails to render ends the run.
pub fn render_tests_of<'a>(engine: &Engine<'a>, query: &Query, query_text: &str) -> (r: Result<
    Vec<SqlToWrite<'a>>,
    Error,
>)
    ensures
        match tests_upto(
            engine.metadata@,
            engine.query_sources.pairs(),
            engine.test_sources.pairs(),
            templates_of_query(engine.metadata@.test_templates, query.id@),
            statement_for(engine.metadata@.placeholder, query_text@),
            templates_of_query(engine.metadata@.test_templates, query.id@).len() as int,
        ) {
            Ok(files) => r matches Ok(tests) && planned(tests@) == files,
            Err(outcome) => r matches Err(e) && ends_as(Err(e), outcome),
        },
{
    let metadata: &'a Metadata = engine.metadata;
    let prep_stmt = match metadata.placeholder {
        Placeholder::PosArgs => Some(query_text),
        Placeholder::Variables => None,
    };
    let tts = metadata.test_templates.find_by_query(query.id.as_str());
    let ghost templates = templates_of_query(metadata@.test_templates, query.id@);
    let ghost statement = statement_for(metadata@.placeholder, query_text@);
    let ghost qs = engine.query_sources.pairs();
    let ghost ts = engine.test_sources.pairs();
    let mut tests: Vec<SqlToWrite<'a>> = Vec::new();
    let mut k: usize = 0;
    assert(planned(tests@) =~= Seq::<PlannedFile>::empty());
    assert(templates.len() == tts@.len());
    while k < tts.len()
        invariant
            k <= tts@.len(),
            metadata == engine.metadata,
            qs == engine.query_sources.pairs(),
            ts == engine.test_sources.pairs(),
            templates == templates_of_query(metadata@.test_templates, query.id@),
            statement == statement_for(metadata@.placeholder, query_text@),
            templates.len() == tts@.len(),
            forall|j: int| 0 <= j < tts@.len() ==> (#[trigger] tts@[j])@ == templates[j],
            statement == match prep_stmt {
                Some(s) => Some(s@),
                None => None,
            },
            tests_upto(metadata@, qs, ts, templates, statement, k as int) == Ok::<
                Seq<PlannedFile>,
                Outcome,
            >(planned(tests@)),
        decreases tts@.len() - k,
    {
        let tt: &'a TestTemplate = tts[k];
        assert(tt@ == templates[k as int]);
        match engine.render_test(tt.path.as_str(), prep_stmt) {
            Ok(text) => {
                let file = SqlToWrite { path: tt.output.as_str(), sql: text, name_tag: None };
                assert(planned(tests@.push(file)) =~= planned(tests@).push(
                    PlannedFile { path: tt.output@, sql: text@, name_tag: None },
                ));
                tests.push(file);
            },
            Err(e) => {
                proof {
                    assert(tests_upto(metadata@, qs, ts, templates, statement, k + 1) is Err);
                    lemma_tests_failure_stays(
                        metadata@,
                        qs,
                        ts,
                        templates,
                        statement,
                        k + 1,
                        templates.len() as int,
                    );
                }
                return Err(e);
            },
        }
        k += 1;
    }
    Ok(tests)
}

/// Renders every query and every test of the manifest: the files of the
/// queries, then the files of the tests, each in the order of the
/// manifest. The first rendering that fails ends the run with its error.
pub fn render_all<'a>(engine: &Engine<'a>) -> (r: Result<
    (Vec<SqlToWrite<'a>>, Vec<SqlToWrite<'a>>),
    Error,
>)
    ensures
        match rendered_upto(
            engine.metadata@,
            engine.query_sources.pairs(),
            engine.test_sources.pairs(),
            engine.metadata@.queries.len() as int,
        ) {
            Ok(files) => r matches Ok(found) && planned(found.0@) == files.0 && planned(found.1@)
                == files.1,
            Err(outcome) => r matches Err(e) && ends_as(Err(e), outcome),
        },
{
    let metadata: &'a Metadata = engine.metadata;
    let ghost qs = engine.query_sources.pairs();
    let ghost ts = engine.test_sources.pairs();
    let mut queries: Vec<SqlToWrite<'a>> = Vec::new();
    let mut tests: Vec<SqlToWrite<'a>> = Vec::new();
    let mut i: usize = 0;
    assert(planned(queries@) =~= Seq::<PlannedFile>::empty());
    assert(planned(tests@) =~= Seq::<PlannedFile>::empty());
    while i < metadata.queries.inner.len()
        invariant
            i <= metadata.queries.inner@.len(),
            metadata == engine.metadata,
            qs == engine.query_sources.pairs(),
            ts == engine.test_sources.pairs(),
            rendered_upto(metadata@, qs, ts, i as int) == Ok::<
                (Seq<PlannedFile>, Seq<PlannedFile>),
                Outcome,
            >((planned(queries@), planned(tests@))),
        decreases metadata.queries.inner@.len() - i,
    {
        let query: &'a Query = &metadata.queries.inner[i];
        assert(metadata@.queries[i as int] == query@);
        let text = match engine.render_query(query.id.as_str(), None) {
            Ok(text) => text,
            Err(e) => {
                proof {
                    assert(rendered_upto(metadata@, qs, ts, i + 1) is Err);
                    lemma_failure_stays(metadata@, qs, ts, i + 1, metadata@.queries.len() as int);
                }
                return Err(e);
            },
        };
        let mut more = match render_tests_of(engine, query, text.as_str()) {
            Ok(more) => more,
            Err(e) => {
                proof {
                    assert(rendered_upto(metadata@, qs, ts, i + 1) is Err);
                    lemma_failure_stays(metadata@, qs, ts, i + 1, metadata@.queries.len() as int);
                }
                return Err(e);
            },
        };
        let file = SqlToWrite {
            path: query.output.as_str(),
            sql: text,
            name_tag: Some(&query.name_tag),
        };
        proof {
            assert(planned(queries@.push(file)) =~= planned(queries@).push(
                PlannedFile { path: query.output@, sql: text@, name_tag: Some(query.name_tag@) },
            ));
            assert(planned(tests@ + more@) =~= planned(tests@) + planned(more@));
        }
        queries.push(file);
        tests.append(&mut more);
        i += 1;
    }
    Ok((queries, tests))
}

/// Whether all files name the same path.
pub fn all_same_path(files: &Vec<SqlToWrite>) -> (r: bool)
    ensures
        r == same_paths(files@),
{
    let mut i: usize = 1;
    while i < files.len()
        invariant
            1 <= i,
            forall|j: int| 1 <= j < i && j < files@.len() ==> (#[trigger] files@[j]).path@ == files@[0].path@,
        decreases files@.len() - i,
    {
        if !str_eq(files[i].path, files[0].path) {
            return false;
        }
        i += 1;
    }
    true
}

/// What the layout makes of the rendered queries: for each file to write
/// its path and its text. Where each query has its own file these are the
/// tagged texts, one for each query; in the combined layout it is the one
/// file that holds them all. The combined layout has no file to name where
/// there are no queries or where their paths differ, and the result is
/// `None` then.
pub fn query_files<'a>(
    layout: &Layout,
    files: &Vec<SqlToWrite<'a>>,
    tagger: Option<&NameTagger>,
) -> (r: Option<Vec<(&'a str, String)>>)
    ensures
        match layout@ {
            LayoutView::OneFileOneQuery => r matches Some(out) && out@.len() == files@.len()
                && forall|i: int|
                0 <= i < out@.len() ==> (#[trigger] out@[i]).0@ == files@[i].path@ && out@[i].1@
                    == tagged_text(files@[i].sql@, files@[i].tag_view(), style_of(tagger)),
            LayoutView::OneFileAllQueries(_) => if files@.len() > 0 && same_paths(files@) {
                r matches Some(out) && out@.len() == 1 && out@[0].0@ == files@[0].path@
                    && out@[0].1@ == combined_upto(files@, style_of(tagger), files@.len() as int)
            } else {
                r is None
            },
        },
{
    match layout {
        Layout::OneFileOneQuery => Some(write_separately(files, tagger)),
        Layout::OneFileAllQueries(_) => {
            if files.len() > 0 && all_same_path(files) {
                let mut out: Vec<(&'a str, String)> = Vec::new();
                out.push(write_combined(files, tagger));
                Some(out)
            } else {
                None
            }
        },
    }
}

/// The rows of a table as plain values.
pub open spec fn row_views(rows: Seq<Vec<String>>) -> Seq<Seq<Seq<char>>> {
    rows.map_values(|row: Vec<String>| views(row@))
}

/// The row of the summary for a file that the manifest does not define:
/// the file in the given column, with a note, and a dash in the others.
pub open spec fn undefined_row(path: Seq<char>, column: int) -> Seq<Seq<char>> {
    Seq::new(
        4,
        |i: int|
            if i == column {
                path + "\n(not defined in manifest)"@
            } else {
                "-"@
            },
    )
}

/// A row for each of `files` that is not among `defined`, in the order of
/// `files`.
pub open spec fn undefined_rows(files: Seq<Seq<char>>, defined: Seq<Seq<char>>, column: int) -> Seq<
    Seq<Seq<char>>,
> {
    minus(files, defined).map_values(|p: Seq<char>| undefined_row(p, column))
}

/// The outputs of the test templates, in order.
pub open spec fn test_outputs(templates: Seq<TestTemplateView>) -> Seq<Seq<char>> {
    templates.map_values(|t: TestTemplateView| t.output)
}

/// Appends to `rows` a row for each of `files` that is not among `defined`.
fn push_undefined(rows: &mut Vec<Vec<String>>, files: &Vec<String>, defined: &Vec<&str>, column: usize)
    requires
        column < 4,
    ensures
        row_views(final(rows)@) == row_views(old(rows)@) + undefined_rows(
            views(files@),
            ref_views(defined@),
            column as int,
        ),
{
    let ghost pred = |x: Seq<char>| !ref_views(defined@).contains(x);
    let ghost wrap = |p: Seq<char>| undefined_row(p, column as int);
    let ghost all = views(files@);
    let mut i: usize = 0;
    proof {
        assert(all.take(0) =~= Seq::<Seq<char>>::empty());
        assert(row_views(rows@) + all.take(0).filter(pred).map_values(wrap) =~= row_views(rows@));
    }
    while i < files.len()
        invariant
            i <= files@.len(),
            column < 4,
            all == views(files@),
            pred == |x: Seq<char>| !ref_views(defined@).contains(x),
            wrap == |p: Seq<char>| undefined_row(p, column as int),
            row_views(rows@) == row_views(old(rows)@) + all.take(i as int).filter(pred).map_values(
                wrap,
            ),
        decreases files@.len() - i,
    {
        let path = files[i].as_str();
        let mut found = false;
        let mut k: usize = 0;
        while k < defined.len()
            invariant
                k <= defined@.len(),
                !found ==> forall|j: int|
                    0 <= j < k ==> (#[trigger] ref_views(defined@)[j]) != path@,
                found ==> ref_views(defined@).contains(path@),
            decreases defined@.len() - k,
        {
            if str_eq(defined[k], path) {
                assert(ref_views(defined@)[k as int] == path@);
                found = true;
            }
            k += 1;
        }
        proof {
            assert(all.take(i + 1) =~= all.take(i as int).push(path@));
            Seq::lemma_filter_push(all.take(i as int), path@, pred);
        }
        if !found {
            let mut row: Vec<String> = Vec::new();
            let mut c: usize = 0;
            while c < 4
                invariant
                    c <= 4,
                    column < 4,
                    row@.len() == c,
                    forall|j: int|
                        0 <= j < c ==> (#[trigger] row@[j])@ == undefined_row(
                            path@,
                            column as int,
                        )[j],
                decreases 4 - c,
            {
                if c == column {
                    row.push(join2(path, "\n(not defined in manifest)"));
                } else {
                    row.push(owned("-"));
                }
                c += 1;
            }
            proof {
                assert(views(row@) =~= undefined_row(path@, column as int));
                assert(row_views(rows@.push(row)) =~= row_views(rows@).push(views(row@)));
                assert(all.take(i as int).filter(pred).push(path@).map_values(wrap) =~= all.take(
                    i as int,
                ).filter(pred).map_values(wrap).push(views(row@)));
            }
            rows.push(row);
        }
        i += 1;
    }
    assert(all.take(files@.len() as int) =~= all);
}

/// The rows of the summary with the files that the manifest does not
/// define: after the rows of the queries, a row for each of `query_files`
/// that is the output of no query, then a row for each of `test_files`
/// that is the output of no test template. `query_files` and `test_files`
/// list what the two output directories hold.
pub fn summary_rows_with_files(
    metadata: &Metadata,
    query_files: &Vec<String>,
    test_files: &Vec<String>,
) -> (rows: Vec<Vec<String>>)
    ensures
        row_views(rows@) == Seq::new(
            metadata.queries@.len(),
            |i: int| summary_row(metadata.queries@[i], metadata.test_templates@),
        ) + undefined_rows(views(query_files@), crate::query::outputs_of(metadata.queries@), 1)
            + undefined_rows(views(test_files@), test_outputs(metadata.test_templates@), 3),
{
    let mut rows = summary_rows(metadata);
    assert(row_views(rows@) =~= Seq::new(
        metadata.queries@.len(),
        |i: int| summary_row(metadata.queries@[i], metadata.test_templates@),
    ));
    let outputs = metadata.queries.output_files();
    push_undefined(&mut rows, query_files, &outputs, 1);
    let mut test_outs: Vec<&str> = Vec::new();
    let mut i: usize = 0;
    assert(ref_views(test_outs@) =~= test_outputs(metadata.test_templates@).take(0));
    while i < metadata.test_templates.inner.len()
        invariant
            i <= metadata.test_templates.inner@.len(),
            ref_views(test_outs@) == test_outputs(metadata.test_templates@).take(i as int),
        decreases metadata.test_templates.inner@.len() - i,
    {
        let out = metadata.test_templates.inner[i].output.as_str();
        proof {
            let all = test_outputs(metadata.test_templates@);
            assert(metadata.test_templates@[i as int] == metadata.test_templates.inner@[i as int]@);
            assert(all[i as int] == out@);
            assert(ref_views(test_outs@.push(out)) =~= ref_views(test_outs@).push(out@));
            assert(all.take(i + 1) =~= all.take(i as int).push(out@));
        }
        test_outs.push(out);
        i += 1;
    }
    assert(test_outputs(metadata.test_templates@).take(
        metadata.test_templates.inner@.len() as int,
    ) =~= test_outputs(metadata.test_templates@));
    push_undefined(&mut rows, test_files, &test_outs, 3);
    rows
}

/// The label of the coverage table for a query with `count` tests.
pub open spec fn tests_label(count: nat) -> Seq<char> {
    if count == 0 {
        "No"@
    } else {
        "Yes ("@ + crate::text::decimal_of(count) + ")"@
    }
}

/// The rows of the coverage table, one for each query in the order of the
/// queries: its id, and whether it has tests and how many.
pub fn coverage_rows(metadata: &Metadata) -> (rows: Vec<Vec<String>>)
    ensures
        row_views(rows@) == Seq::new(
            metadata.queries@.len(),
            |i: int|
                seq![
                    metadata.queries@[i].id,
                    tests_label(
                        templates_of_query(
                            metadata.test_templates@,
                            metadata.queries@[i].id,
                        ).len(),
                    ),
                ],
        ),
{
    let mut rows: Vec<Vec<String>> = Vec::new();
    let ghost want = Seq::new(
        metadata.queries@.len(),
        |i: int|
            seq![
                metadata.queries@[i].id,
                tests_label(
                    templates_of_query(metadata.test_templates@, metadata.queries@[i].id).len(),
                ),
            ],
    );
    let mut i: usize = 0;
    assert(row_views(rows@) =~= want.take(0));
    while i < metadata.queries.inner.len()
        invariant
            i <= metadata.queries.inner@.len(),
            want.len() == metadata.queries.inner@.len(),
            want == Seq::new(
                metadata.queries@.len(),
                |i: int|
                    seq![
                        metadata.queries@[i].id,
                        tests_label(
                            templates_of_query(
                                metadata.test_templates@,
                                metadata.queries@[i].id,
                            ).len(),
                        ),
                    ],
            ),
            row_views(rows@) == want.take(i as int),
        decreases metadata.queries.inner@.len() - i,
    {
        let query = &metadata.queries.inner[i];
        assert(metadata.queries@[i as int] == query@);
        let tts = metadata.test_templates.find_by_query(query.id.as_str());
        assert(tts@.len() == templates_of_query(metadata.test_templates@, query.id@).len());
        let mut row: Vec<String> = Vec::new();
        row.push(query.id.clone());
        row.push(has_tests_label(tts.len()));
        proof {
            assert(views(row@) =~= want[i as int]);
            assert(row_views(rows@.push(row)) =~= row_views(rows@).push(views(row@)));
            assert(want.take(i + 1) =~= want.take(i as int).push(want[i as int]));
        }
        rows.push(row);
        i += 1;
    }
    assert(want.take(metadata.queries.inner@.len() as int) =~= want);
    rows
}

/// What a validation run reports for the manifest at `path`: one line that
/// says all is well where there are no mistakes; else a line that names
/// the manifest and the message of each mistake, in order.
pub open spec fn report_of(path: Seq<char>, mistakes: Seq<MistakeView>) -> Seq<Seq<char>> {
    if mistakes.len() == 0 {
        seq!["All Ok: Manifest file '"@ + path + "' is valid"@]
    } else {
        seq!["Invalid manifest file: '"@ + path + "'"@] + mistakes.map_values(
            |m: MistakeView| message_of(m),
        )
    }
}

/// The lines that a validation run prints and its exit code: 0 where the
/// manifest has no mistakes, else 1.
pub fn validation_report(path: &str, mistakes: &Vec<ManifestMistake>) -> (r: (Vec<String>, i32))
    ensures
        views(r.0@) == report_of(path@, mistake_views(mistakes@)),
        r.1 == if mistakes@.len() == 0 {
            0int
        } else {
            1
        },
{
    let mut lines: Vec<String> = Vec::new();
    if mistakes.len() == 0 {
        lines.push(join3("All Ok: Manifest file '", path, "' is valid"));
        assert(views(lines@) =~= report_of(path@, mistake_views(mistakes@)));
        return (lines, 0);
    }
    lines.push(join3("Invalid manifest file: '", path, "'"));
    let ghost head = seq!["Invalid manifest file: '"@ + path@ + "'"@];
    let ghost messages = mistake_views(mistakes@).map_values(|m: MistakeView| message_of(m));
    let mut i: usize = 0;
    assert(views(lines@) =~= head + messages.take(0));
    while i < mistakes.len()
        invariant
            i <= mistakes@.len(),
            messages == mistake_views(mistakes@).map_values(|m: MistakeView| message_of(m)),
            views(lines@) == head + messages.take(i as int),
        decreases mistakes@.len() - i,
    {
        let msg = mistakes[i].err_msg();
        proof {
            assert(messages[i as int] == msg@);
            assert(views(lines@.push(msg)) =~= views(lines@).push(msg@));
            assert(head + messages.take(i + 1) =~= (head + messages.take(i as int)).push(msg@));
        }
        lines.push(msg);
        i += 1;
    }
    assert(messages.take(mistakes@.len() as int) =~= messages);
    (lines, 1)
}

/// What a status run looks at: a query or a test template.
#[derive(Debug)]
pub enum Subject<'a> {
    Query(&'a Query),
    Test(&'a TestTemplate),
}

/// One output of a status run, with what was found out about it.
#[derive(Debug)]
pub struct Checked<'a> {
    pub subject: Subject<'a>,
    /// The text rendered, with its name tag where it carries one.
    pub rendered: String,
    /// The text as the formatter gives it, where one is configured.
    pub formatted: Option<Vec<u8>>,
    /// The bytes of the output's own file, if it is there.
    pub on_disk: Option<Vec<u8>>,
}

pub ghost enum SubjectView {
    Query(QueryView),
    Test(TestTemplateView),
}

pub ghost struct CheckedView {
    pub subject: SubjectView,
    pub rendered: Seq<char>,
    pub formatted: Option<Seq<u8>>,
    pub on_disk: Option<Seq<u8>>,
}

impl<'a> View for Checked<'a> {
    type V = CheckedView;

    open spec fn view(&self) -> CheckedView {
        CheckedView {
            subject: match self.subject {
                Subject::Query(q) => SubjectView::Query(q@),
                Subject::Test(t) => SubjectView::Test(t@),
            },
            rendered: self.rendered@,
            formatted: owned_bytes_view(self.formatted),
            on_disk: owned_bytes_view(self.on_disk),
        }
    }
}

/// The outputs of a status run as plain values.
pub open spec fn checked_views(outputs: Seq<Checked>) -> Seq<CheckedView> {
    outputs.map_values(|o: Checked| o@)
}

/// The state of one output, with the path of the output. A query's output
/// is looked for as the layout has it, and a text that no formatter went
/// over is expected with a line feed at its end; a test's output is its own
/// file, expected as the text stands.
pub open spec fn status_value(
    m: MetadataView,
    store: Option<Map<Seq<char>, Seq<char>>>,
    o: CheckedView,
) -> Result<(Seq<char>, Status), StatusFailure> {
    match o.subject {
        SubjectView::Query(q) => match query_status_value(
            m,
            store,
            q.id,
            o.on_disk,
            expected_query_bytes(o.formatted, o.rendered),
        ) {
            Ok(status) => Ok((q.output, status)),
            Err(failure) => Err(failure),
        },
        SubjectView::Test(t) => Ok(
            (t.output, status_of(o.on_disk, expected_test_bytes(o.formatted, o.rendered))),
        ),
    }
}

/// The states of the first `n` outputs, in order, or the first failure.
pub open spec fn statuses_upto(
    m: MetadataView,
    store: Option<Map<Seq<char>, Seq<char>>>,
    outputs: Seq<CheckedView>,
    n: int,
) -> Result<Seq<(Seq<char>, Status)>, StatusFailure>
    decreases n,
{
    if n <= 0 {
        Ok(Seq::empty())
    } else {
        match statuses_upto(m, store, outputs, n - 1) {
            Err(failure) => Err(failure),
            Ok(stats) => match status_value(m, store, outputs[n - 1]) {
                Ok(stat) => Ok(stats.push(stat)),
                Err(failure) => Err(failure),
            },
        }
    }
}

/// Once the state of an output cannot be told, the outputs behind it
/// change nothing.
pub proof fn lemma_status_failure_stays(
    m: MetadataView,
    store: Option<Map<Seq<char>, Seq<char>>>,
    outputs: Seq<CheckedView>,
    n: int,
    k: int,
)
    requires
        0 <= n <= k,
        statuses_upto(m, store, outputs, n) is Err,
    ensures
        statuses_upto(m, store, outputs, k) == statuses_upto(m, store, outputs, n),
    decreases k,
{
    if n < k {
        lemma_status_failure_stays(m, store, outputs, n, k - 1);
    }
}

/// A copy of the bytes.
fn copied(bytes: &Vec<u8>) -> (r: Vec<u8>)
    ensures
        r@ == bytes@,
{
    let mut r: Vec<u8> = Vec::new();
    let mut i: usize = 0;
    while i < bytes.len()
        invariant
            i <= bytes@.len(),
            r@ == bytes@.take(i as int),
        decreases bytes@.len() - i,
    {
        r.push(bytes[i]);
        assert(bytes@.take(i + 1) =~= bytes@.take(i as int).push(bytes@[i as int]));
        i += 1;
    }
    assert(bytes@.take(bytes@.len() as int) =~= bytes@);
    r
}

/// The states of the outputs of a run, each with the path of its output,
/// in the order of `outputs`. The first output whose state cannot be told
/// ends the run with its error.
pub fn status<'a>(reader: &QueryOutputReader, outputs: &Vec<Checked<'a>>) -> (r: Result<
    Vec<(&'a str, Status)>,
    Error,
>)
    ensures
        match statuses_upto(
            reader.metadata@,
            reader.store(),
            checked_views(outputs@),
            outputs@.len() as int,
        ) {
            Ok(stats) => r matches Ok(found) && stat_views(found@) == stats,
            Err(failure) => r matches Err(e) && classified(
                Err::<Status, Error>(e),
                Err(failure),
            ),
        },
{
    let ghost all = checked_views(outputs@);
    let mut stats: Vec<(&'a str, Status)> = Vec::new();
    let mut i: usize = 0;
    assert(stat_views(stats@) =~= Seq::<(Seq<char>, Status)>::empty());
    while i < outputs.len()
        invariant
            i <= outputs@.len(),
            all == checked_views(outputs@),
            statuses_upto(reader.metadata@, reader.store(), all, i as int) == Ok::<
                Seq<(Seq<char>, Status)>,
                StatusFailure,
            >(stat_views(stats@)),
        decreases outputs@.len() - i,
    {
        let output = &outputs[i];
        assert(all[i as int] == output@);
        let on_disk = match &output.on_disk {
            Some(bytes) => Some(copied(bytes)),
            None => None,
        };
        let stat: (&'a str, Status) = match output.subject {
            Subject::Query(query) => {
                match query_status(
                    query,
                    reader,
                    on_disk,
                    output.formatted.as_ref(),
                    output.rendered.as_str(),
                ) {
                    Ok(status) => (query.output.as_str(), status),
                    Err(e) => {
                        proof {
                            assert(statuses_upto(
                                reader.metadata@,
                                reader.store(),
                                all,
                                i + 1,
                            ) is Err);
                            lemma_status_failure_stays(
                                reader.metadata@,
                                reader.store(),
                                all,
                                i + 1,
                                outputs@.len() as int,
                            );
                        }
                        return Err(e);
                    },
                }
            },
            Subject::Test(template) => (
                template.output.as_str(),
                testfile_status(
                    on_disk.as_ref(),
                    output.formatted.as_ref(),
                    output.rendered.as_str(),
                ),
            ),
        };
        proof {
            assert(stat_views(stats@.push(stat)) =~= stat_views(stats@).push((stat.0@, stat.1)));
        }
        stats.push(stat);
        i += 1;
    }
    Ok(stats)
}

} // verus!
