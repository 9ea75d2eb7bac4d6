//! Where rendered queries go and how they are found again: the output
//! layout, the three states of an output, and the combined file that holds
//! every query behind its name tag.

use crate::bindings::{
    as_map, lemma_as_map, lemma_as_map_unique, lemma_as_map_update, lemma_unique_push,
    unique_names, Mapping,
};
use crate::config::{decode_pathbuf, path_value, Value};
use crate::error::{decoded, Error};
use crate::metadata::{combined_file, Metadata, MetadataView};
use crate::query::{last_with_id, Queries, Query, QueryView};
use crate::tagging::{ensured, name_tag_line, NameTag, NameTagStyle, NameTagView, NameTagger};
use crate::text::{ends_with_char, join2, join3, lines_of, owned, split_lines, str_eq, views};
use vstd::prelude::*;
use vstd::string::{StrSliceExecFns, StringExecFns};
use vstd::utf8::encode_utf8;

verus! {

/// What rendering would do to an output.
#[derive(Debug, Clone, Copy, PartialEq, Eq, Structural)]
pub enum Status {
    /// There is no output yet.
    Added,
    /// The output is there and differs from what rendering gives.
    Modified,
    /// The output is there and is what rendering gives.
    Unchanged,
}

impl Status {
    /// The word shown to the user.
    pub fn label(&self) -> (r: &'static str)
        ensures
            r@ == match *self {
                Status::Added => "added"@,
                Status::Modified => "modified"@,
                Status::Unchanged => "unchanged"@,
            },
    {
        match self {
            Self::Added => "added",
            Self::Modified => "modified",
            Self::Unchanged => "unchanged",
        }
    }
}

/// How the rendered queries are laid out in files.
#[derive(Debug)]
pub enum Layout {
    /// Each query has a file of its own.
    OneFileOneQuery,
    /// All queries share one file, whose path may be given.
    OneFileAllQueries(Option<String>),
}

pub ghost enum LayoutView {
    OneFileOneQuery,
    OneFileAllQueries(Option<Seq<char>>),
}

impl View for Layout {
    type V = LayoutView;

    open spec fn view(&self) -> LayoutView {
        match self {
            Layout::OneFileOneQuery => LayoutView::OneFileOneQuery,
            Layout::OneFileAllQueries(Some(f)) => LayoutView::OneFileAllQueries(Some(f@)),
            Layout::OneFileAllQueries(None) => LayoutView::OneFileAllQueries(None),
        }
    }
}

/// What the value of the key `query_output_layout` stands for, together
/// with the value of `query_output_file` where that key is given. A value
/// that is no string stands for the default layout.
pub open spec fn layout_value(value: Value, output_file: Option<Value>, base_dir: Seq<char>) -> Result<
    LayoutView,
    Seq<char>,
> {
    match value {
        Value::String(s) => if s@ == "one-file-one-query"@ {
            Ok(LayoutView::OneFileOneQuery)
        } else if s@ == "one-file-all-queries"@ {
            match output_file {
                Some(v) => match path_value(v, Some(base_dir), "queries_output_file"@) {
                    Ok(path) => Ok(LayoutView::OneFileAllQueries(Some(path))),
                    Err(msg) => Err(msg),
                },
                None => Ok(LayoutView::OneFileAllQueries(None)),
            }
        } else {
            Err("Invalid value for 'query_output_layout': '"@ + s@ + "'"@)
        },
        _ => Ok(LayoutView::OneFileOneQuery),
    }
}

/// The value behind an optional reference.
pub open spec fn pointee(v: Option<&Value>) -> Option<Value> {
    match v {
        Some(v) => Some(*v),
        None => None,
    }
}

impl Default for Layout {
    /// The layout of a manifest that names none: one file for each query.
    fn default() -> (r: Self)
        ensures
            r@ == LayoutView::OneFileOneQuery,
    {
        Self::OneFileOneQuery
    }
}

impl Layout {
    /// Decodes the layout from the value of `query_output_layout` and, where
    /// it is given, that of `query_output_file`, a path relative to
    /// `output_base_dir`.
    pub fn decode(value: &Value, output_file: Option<&Value>, output_base_dir: &str) -> (r: Result<
        Self,
        Error,
    >)
        ensures
            decoded(r, layout_value(*value, pointee(output_file), output_base_dir@)),
    {
        match value.as_str() {
            Some(s) => {
                if str_eq(s, "one-file-one-query") {
                    Ok(Self::OneFileOneQuery)
                } else if str_eq(s, "one-file-all-queries") {
                    match output_file {
                        Some(v) => match decode_pathbuf(
                            v,
                            Some(output_base_dir),
                            "queries_output_file",
                        ) {
                            Ok(path) => Ok(Self::OneFileAllQueries(Some(path))),
                            Err(e) => Err(e),
                        },
                        None => Ok(Self::OneFileAllQueries(None)),
                    }
                } else {
                    Err(
                        Error::Parsing(
                            join3("Invalid value for 'query_output_layout': '", s, "'"),
                        ),
                    )
                }
            },
            None => Ok(Self::OneFileOneQuery),
        }
    }
}

/// `sql` with a line feed at its end.
pub open spec fn with_newline(sql: Seq<char>) -> Seq<char> {
    if sql.len() > 0 && sql.last() == '\n' {
        sql
    } else {
        sql.push('\n')
    }
}

/// `sql`, ending in a line feed: one is added where the text has none.
pub fn ensure_trailing_newline(sql: &str) -> (r: String)
    ensures
        r@ == with_newline(sql@),
{
    if !ends_with_char(sql, '\n') {
        proof {
            reveal_strlit("\n");
            assert(sql@ + "\n"@ =~= sql@.push('\n'));
        }
        join2(sql, "\n")
    } else {
        owned(sql)
    }
}

/// Whether the two byte strings are the same.
pub fn bytes_eq(a: &Vec<u8>, b: &Vec<u8>) -> (r: bool)
    ensures
        r == (a@ == b@),
{
    if a.len() != b.len() {
        return false;
    }
    let mut i: usize = 0;
    while i < a.len()
        invariant
            i <= a@.len(),
            a@.len() == b@.len(),
            forall|j: int| 0 <= j < i ==> a@[j] == b@[j],
        decreases a@.len() - i,
    {
        if a[i] != b[i] {
            return false;
        }
        i += 1;
    }
    assert(a@ =~= b@);
    true
}

/// The state of an output: added where nothing is there yet, unchanged
/// where what is there is what is expected byte for byte, else modified.
pub open spec fn status_of(existing: Option<Seq<u8>>, expected: Seq<u8>) -> Status {
    match existing {
        None => Status::Added,
        Some(bytes) => if bytes == expected {
            Status::Unchanged
        } else {
            Status::Modified
        },
    }
}

/// The view of optional bytes.
pub open spec fn bytes_view(b: Option<&Vec<u8>>) -> Option<Seq<u8>> {
    match b {
        Some(v) => Some(v@),
        None => None,
    }
}

/// The bytes that a rendered query is expected to have in its output: the
/// formatted bytes where a formatter is configured, else the text itself,
/// ending in a line feed.
pub open spec fn expected_query_bytes(formatted: Option<Seq<u8>>, rendered: Seq<char>) -> Seq<u8> {
    match formatted {
        Some(bytes) => bytes,
        None => encode_utf8(with_newline(rendered)),
    }
}

/// The bytes that a rendered test is expected to have in its output: the
/// formatted bytes where a formatter is configured, else the text itself.
pub open spec fn expected_test_bytes(formatted: Option<Seq<u8>>, rendered: Seq<char>) -> Seq<u8> {
    match formatted {
        Some(bytes) => bytes,
        None => encode_utf8(rendered),
    }
}

/// The state of a test's output file. `existing` holds the bytes of the
/// file, if it is there; `formatted` the rendered text as the formatter
/// gives it, where one is configured.
pub fn testfile_status(
    existing: Option<&Vec<u8>>,
    formatted: Option<&Vec<u8>>,
    rendered_output: &str,
) -> (r: Status)
    ensures
        r == status_of(
            bytes_view(existing),
            expected_test_bytes(bytes_view(formatted), rendered_output@),
        ),
{
    match existing {
        Some(contents) => {
            let same = match formatted {
                Some(f) => bytes_eq(f, contents),
                None => {
                    let raw = rendered_output.as_bytes_vec();
                    bytes_eq(&raw, contents)
                },
            };
            if same {
                Status::Unchanged
            } else {
                Status::Modified
            }
        },
        None => Status::Added,
    }
}

/// A rendered text that is to be written.
#[derive(Debug)]
pub struct SqlToWrite<'a> {
    pub path: &'a str,
    pub sql: String,
    pub name_tag: Option<&'a NameTag>,
}

/// The text of a file to write, with its name tag where there is a tagger
/// and the text has a tag to carry.
pub open spec fn tagged_text(
    sql: Seq<char>,
    name_tag: Option<NameTagView>,
    style: Option<NameTagStyle>,
) -> Seq<char> {
    match (style, name_tag) {
        (Some(style), Some(tag)) => ensured(style, sql, tag),
        _ => sql,
    }
}

/// The style of an optional tagger.
pub open spec fn style_of(tagger: Option<&NameTagger>) -> Option<NameTagStyle> {
    match tagger {
        Some(t) => Some(t.style),
        None => None,
    }
}

impl<'a> SqlToWrite<'a> {
    /// The view of the name tag.
    pub open spec fn tag_view(&self) -> Option<NameTagView> {
        match self.name_tag {
            Some(t) => Some(t@),
            None => None,
        }
    }

    /// The text to write, tagged where there is a tagger and a tag.
    pub fn tagged_sql(&self, tagger: Option<&NameTagger>) -> (r: String)
        ensures
            r@ == tagged_text(self.sql@, self.tag_view(), style_of(tagger)),
    {
        match tagger {
            Some(t) => match self.name_tag {
                Some(nt) => t.ensure_name_tag(self.sql.as_str(), nt),
                None => self.sql.clone(),
            },
            None => self.sql.clone(),
        }
    }
}

/// What the first `n` files make in a combined file: each text, tagged,
/// with an empty line behind it, in the order of the files.
pub open spec fn combined_upto(
    files: Seq<SqlToWrite>,
    style: Option<NameTagStyle>,
    n: int,
) -> Seq<char>
    decreases n,
{
    if n <= 0 {
        Seq::empty()
    } else {
        combined_upto(files, style, n - 1) + tagged_text(
            files[n - 1].sql@,
            files[n - 1].tag_view(),
            style,
        ) + seq!['\n', '\n']
    }
}

/// All files go to one path.
pub open spec fn same_paths(files: Seq<SqlToWrite>) -> bool {
    forall|i: int| 0 <= i < files.len() ==> (#[trigger] files[i]).path@ == files[0].path@
}

/// The one file that `files` make together: its path and its content, the
/// texts in the order of the files, each tagged and followed by an empty
/// line. The files must all name the same path; that they do is an
/// invariant of the combined layout.
pub fn write_combined<'a>(files: &Vec<SqlToWrite<'a>>, tagger: Option<&NameTagger>) -> (r: (
    &'a str,
    String,
))
    requires
        files@.len() > 0,
        same_paths(files@),
    ensures
        r.0@ == files@[0].path@,
        r.1@ == combined_upto(files@, style_of(tagger), files@.len() as int),
{
    let mut combined_output = String::new();
    let mut i: usize = 0;
    while i < files.len()
        invariant
            i <= files@.len(),
            combined_output@ == combined_upto(files@, style_of(tagger), i as int),
        decreases files@.len() - i,
    {
        let sql = files[i].tagged_sql(tagger);
        proof {
            reveal_strlit("\n\n");
            assert("\n\n"@ =~= seq!['\n', '\n']);
        }
        combined_output.append(sql.as_str());
        combined_output.append("\n\n");
        i += 1;
    }
    (files[0].path, combined_output)
}

/// What each file gets where every text has a file of its own: the path
/// and the tagged text, in the order of the files.
pub fn write_separately<'a>(files: &Vec<SqlToWrite<'a>>, tagger: Option<&NameTagger>) -> (r: Vec<
    (&'a str, String),
>)
    ensures
        r@.len() == files@.len(),
        forall|i: int|
            0 <= i < r@.len() ==> (#[trigger] r@[i]).0@ == files@[i].path@ && r@[i].1@
                == tagged_text(files@[i].sql@, files@[i].tag_view(), style_of(tagger)),
{
    let mut out: Vec<(&'a str, String)> = Vec::new();
    let mut i: usize = 0;
    while i < files.len()
        invariant
            i <= files@.len(),
            out@.len() == i,
            forall|k: int|
                0 <= k < i ==> (#[trigger] out@[k]).0@ == files@[k].path@ && out@[k].1@
                    == tagged_text(files@[k].sql@, files@[k].tag_view(), style_of(tagger)),
        decreases files@.len() - i,
    {
        let sql = files[i].tagged_sql(tagger);
        out.push((files[i].path, sql));
        i += 1;
    }
    out
}

/// The tag lines of the queries, each with the id of its query.
pub open spec fn tag_pairs(style: NameTagStyle, queries: Seq<QueryView>) -> Seq<
    (Seq<char>, Seq<char>),
> {
    queries.map_values(|q: QueryView| (name_tag_line(style, q.name_tag), q.id))
}

/// Where the reading of a combined file stands: the query whose text is
/// being read, and the texts read so far.
pub ghost struct ParseState {
    pub current: Option<Seq<char>>,
    pub store: Map<Seq<char>, Seq<char>>,
}

/// One line of a combined file. A line that is the tag line of a query
/// begins that query's text, which starts with the line itself. Any other
/// line that is not empty continues the text of the query being read, on a
/// line of its own; before the first tag line it belongs to no query and is
/// dropped. An empty line is passed over.
pub open spec fn parse_step(
    tags: Map<Seq<char>, Seq<char>>,
    st: ParseState,
    line: Seq<char>,
) -> ParseState {
    if tags.contains_key(line) {
        ParseState { current: Some(tags[line]), store: st.store.insert(tags[line], line) }
    } else if line.len() == 0 {
        st
    } else {
        match st.current {
            Some(id) => ParseState {
                current: st.current,
                store: st.store.insert(id, st.store[id] + seq!['\n'] + line),
            },
            None => st,
        }
    }
}

/// The state after the first `n` lines.
pub open spec fn parse_lines(tags: Map<Seq<char>, Seq<char>>, lines: Seq<Seq<char>>, n: int) -> ParseState
    decreases n,
{
    if n <= 0 {
        ParseState { current: None, store: Map::empty() }
    } else {
        parse_step(tags, parse_lines(tags, lines, n - 1), lines[n - 1])
    }
}

/// Each text with a line feed at its end.
pub open spec fn with_newlines(store: Map<Seq<char>, Seq<char>>) -> Map<Seq<char>, Seq<char>> {
    Map::new(|k: Seq<char>| store.contains_key(k), |k: Seq<char>| store[k].push('\n'))
}

/// The queries of a combined file, by id: what its lines give, read one
/// after the other; with a line feed at the end of each text where the
/// outputs are formatted.
pub open spec fn parsed_queries(
    style: NameTagStyle,
    queries: Seq<QueryView>,
    content: Seq<char>,
    formatted: bool,
) -> Map<Seq<char>, Seq<char>> {
    let lines = lines_of(content);
    let store = parse_lines(as_map(tag_pairs(style, queries)), lines, lines.len() as int).store;
    if formatted {
        with_newlines(store)
    } else {
        store
    }
}

/// Reads the queries back from the content of a combined file. `formatted`
/// says whether a formatter is configured.
pub fn parse_combined_sql(
    content: &str,
    tagger: &NameTagger,
    formatted: bool,
    queries: &Queries,
) -> (r: Mapping)
    ensures
        r.distinct(),
        r.map() == parsed_queries(tagger.style, queries@, content@, formatted),
{
    let mut tags = Mapping::new();
    let mut q: usize = 0;
    while q < queries.inner.len()
        invariant
            q <= queries.inner@.len(),
            tags.pairs().len() == q,
            forall|j: int|
                0 <= j < q ==> #[trigger] tags.pairs()[j] == tag_pairs(tagger.style, queries@)[j],
        decreases queries.inner@.len() - q,
    {
        let query = &queries.inner[q];
        assert(queries@[q as int] == query@);
        let tag = tagger.make_name_tag(&query.name_tag);
        tags.push(tag, query.id.clone());
        q += 1;
    }
    assert(tags.pairs() =~= tag_pairs(tagger.style, queries@));
    let lines = split_lines(content);
    let ghost all = views(lines@);
    let ghost tag_map = tags.map();
    let mut store = Mapping::new();
    let mut curr: Option<usize> = None;
    let mut i: usize = 0;
    while i < lines.len()
        invariant
            i <= lines@.len(),
            all == views(lines@),
            tag_map == tags.map(),
            unique_names(store.pairs()),
            store.map() == parse_lines(tag_map, all, i as int).store,
            match curr {
                Some(c) => c < store.pairs().len() && parse_lines(tag_map, all, i as int).current
                    == Some(store.pairs()[c as int].0),
                None => parse_lines(tag_map, all, i as int).current is None,
            },
        decreases lines@.len() - i,
    {
        let line = lines[i].as_str();
        assert(all[i as int] == line@);
        let ghost before = parse_lines(tag_map, all, i as int);
        match tags.get(line) {
            Some(id) => {
                match store.position(id.as_str()) {
                    Some(p) => {
                        proof {
                            lemma_as_map(store.pairs(), id@);
                            lemma_as_map_update(store.pairs(), p as int, line@);
                        }
                        store.set_value(p, owned(line));
                        curr = Some(p);
                    },
                    None => {
                        proof {
                            lemma_as_map(store.pairs(), id@);
                            lemma_unique_push(store.pairs(), id@, line@);
                        }
                        store.push(id.clone(), owned(line));
                        curr = Some(store.len() - 1);
                    },
                }
            },
            None => {
                if !line.is_empty() {
                    match curr {
                        Some(c) => {
                            let old_text = store.entries[c].1.clone();
                            proof {
                                reveal_strlit("\n");
                                assert("\n"@ =~= seq!['\n']);
                                assert(store.pairs()[c as int].1 == old_text@);
                                lemma_as_map_unique(store.pairs(), c as int);
                                lemma_as_map_update(
                                    store.pairs(),
                                    c as int,
                                    old_text@ + seq!['\n'] + line@,
                                );
                            }
                            store.set_value(c, join3(old_text.as_str(), "\n", line));
                        },
                        None => {},
                    }
                }
            },
        }
        i += 1;
    }
    if formatted {
        let ghost plain = store.pairs();
        let mut k: usize = 0;
        while k < store.len()
            invariant
                k <= store.pairs().len(),
                store.pairs().len() == plain.len(),
                forall|j: int|
                    0 <= j < plain.len() ==> (#[trigger] store.pairs()[j]).0 == plain[j].0,
                forall|j: int| 0 <= j < k ==> (#[trigger] store.pairs()[j]).1 == plain[j].1.push(
                    '\n',
                ),
                forall|j: int| k <= j < plain.len() ==> (#[trigger] store.pairs()[j]).1 == plain[j].1,
            decreases store.pairs().len() - k,
        {
            let old_text = store.entries[k].1.clone();
            proof {
                reveal_strlit("\n");
                assert(old_text@ + "\n"@ =~= old_text@.push('\n'));
                assert(store.pairs()[k as int].1 == old_text@);
            }
            store.set_value(k, join2(old_text.as_str(), "\n"));
            k += 1;
        }
        proof {
            let now = store.pairs();
            assert forall|a: int, b: int|
                0 <= a < now.len() && 0 <= b < now.len() && a != b implies (#[trigger] now[a]).0
                != (#[trigger] now[b]).0 by {
                assert(now[a].0 == plain[a].0 && now[b].0 == plain[b].0);
            }
            assert forall|key: Seq<char>|
                (#[trigger] as_map(now).contains_key(key) <==> as_map(plain).contains_key(key))
                && (as_map(now).contains_key(key) ==> as_map(now)[key] == as_map(plain)[key].push(
                    '\n',
                )) by {
                lemma_as_map(now, key);
                lemma_as_map(plain, key);
                if as_map(plain).contains_key(key) {
                    let j = crate::bindings::last_bound(plain, key)->0;
                    assert(now[j].0 == key);
                    lemma_as_map_unique(now, j);
                }
                if as_map(now).contains_key(key) {
                    let j = crate::bindings::last_bound(now, key)->0;
                    assert(plain[j].0 == key);
                    lemma_as_map_unique(plain, j);
                }
            }
            assert(as_map(now) =~= with_newlines(as_map(plain)));
        }
    }
    store
}

/// Reads the outputs of the queries as the layout has them: each from its
/// own file, or all from the combined file, which is read once.
#[derive(Debug)]
pub struct QueryOutputReader<'a> {
    pub metadata: &'a Metadata,
    /// The queries of the combined file, by id, where the layout is the
    /// combined one.
    pub parsed_query_store: Option<Mapping>,
}

/// What a new reader holds: nothing where each query has its own file;
/// else the queries read from the combined file, none where that file is
/// not there yet. The combined layout needs a file that can be told and a
/// name tagger.
pub open spec fn reader_store(m: MetadataView, combined: Option<Seq<char>>) -> Result<
    Option<Map<Seq<char>, Seq<char>>>,
    Seq<char>,
> {
    match m.query_output_layout {
        LayoutView::OneFileOneQuery => Ok(None),
        LayoutView::OneFileAllQueries(_) => match combined_file(m) {
            Err(msg) => Err(msg),
            Ok(_) => match m.name_tagger {
                None => Err("name_tagger is required when layout = one-file-all-queries"@),
                Some(style) => match combined {
                    Some(content) => Ok(
                        Some(parsed_queries(style, m.queries, content, m.formatter is Some)),
                    ),
                    None => Ok(Some(Map::empty())),
                },
            },
        },
    }
}

impl<'a> QueryOutputReader<'a> {
    /// The store as a map.
    pub open spec fn store(&self) -> Option<Map<Seq<char>, Seq<char>>> {
        match self.parsed_query_store {
            Some(s) => Some(s.map()),
            None => None,
        }
    }

    /// A reader for the outputs of `metadata`. `combined` holds the content
    /// of the combined file, if that file is there.
    pub fn new(metadata: &'a Metadata, combined: Option<&str>) -> (r: Result<Self, Error>)
        ensures
            match reader_store(
                metadata@,
                match combined {
                    Some(c) => Some(c@),
                    None => None,
                },
            ) {
                Ok(store) => r matches Ok(reader) && reader.metadata == metadata && reader.store()
                    == store,
                Err(msg) => r matches Err(Error::Layout(m)) && m@ == msg,
            },
    {
        let pqs = match &metadata.query_output_layout {
            Layout::OneFileOneQuery => None,
            Layout::OneFileAllQueries(_) => {
                match metadata.combined_output_file() {
                    Ok(_) => {},
                    Err(e) => return Err(e),
                }
                let tagger = match &metadata.name_tagger {
                    Some(t) => t,
                    None => return Err(
                        Error::Layout(
                            owned("name_tagger is required when layout = one-file-all-queries"),
                        ),
                    ),
                };
                match combined {
                    Some(content) => Some(
                        parse_combined_sql(
                            content,
                            tagger,
                            metadata.formatter.is_some(),
                            &metadata.queries,
                        ),
                    ),
                    None => {
                        let empty = Mapping::new();
                        assert(empty.map() =~= Map::<Seq<char>, Seq<char>>::empty());
                        Some(empty)
                    },
                }
            },
        };
        Ok(Self { metadata, parsed_query_store: pqs })
    }

    /// Whether the output of the query `query_id` is there. Where each
    /// query has its own file, `on_disk` says whether that file exists.
    pub fn has_output(&self, query_id: &str, on_disk: bool) -> (r: Result<bool, Error>)
        ensures
            match last_with_id(self.metadata@.queries, query_id@) {
                None => r matches Err(Error::UndefinedQuery(m)) && m@ == query_id@,
                Some(_) => match self.metadata@.query_output_layout {
                    LayoutView::OneFileOneQuery => r == Ok::<bool, Error>(on_disk),
                    LayoutView::OneFileAllQueries(_) => match self.store() {
                        Some(store) => r == Ok::<bool, Error>(store.contains_key(query_id@)),
                        None => r matches Err(Error::QueryOutputParsing(_)),
                    },
                },
            },
    {
        match self.metadata.queries.get(query_id) {
            Some(_) => {},
            None => return Err(Error::UndefinedQuery(owned(query_id))),
        }
        match &self.metadata.query_output_layout {
            Layout::OneFileOneQuery => Ok(on_disk),
            Layout::OneFileAllQueries(_) => match &self.parsed_query_store {
                Some(store) => Ok(store.contains_key(query_id)),
                None => Err(
                    Error::QueryOutputParsing(
                        owned("QueryOutputReader.parsed_query_store field not initialized"),
                    ),
                ),
            },
        }
    }

    /// The bytes of the output of the query `query_id`. Where each query
    /// has its own file, `on_disk` holds the bytes of that file.
    pub fn read(&self, query_id: &str, on_disk: Option<Vec<u8>>) -> (r: Result<Vec<u8>, Error>)
        ensures
            match last_with_id(self.metadata@.queries, query_id@) {
                None => r matches Err(Error::UndefinedQuery(m)) && m@ == query_id@,
                Some(_) => match self.metadata@.query_output_layout {
                    LayoutView::OneFileOneQuery => match on_disk {
                        Some(bytes) => r matches Ok(b) && b@ == bytes@,
                        None => r matches Err(Error::QueryOutputParsing(_)),
                    },
                    LayoutView::OneFileAllQueries(_) => match self.store() {
                        Some(store) => if store.contains_key(query_id@) {
                            r matches Ok(b) && b@ == encode_utf8(store[query_id@])
                        } else {
                            r matches Err(Error::QueryOutputParsing(_))
                        },
                        None => r matches Err(Error::QueryOutputParsing(_)),
                    },
                },
            },
    {
        let query = match self.metadata.queries.get(query_id) {
            Some(q) => q,
            None => return Err(Error::UndefinedQuery(owned(query_id))),
        };
        match &self.metadata.query_output_layout {
            Layout::OneFileOneQuery => match on_disk {
                Some(bytes) => Ok(bytes),
                None => Err(
                    Error::QueryOutputParsing(
                        join2("Query output file not found: ", query.output.as_str()),
                    ),
                ),
            },
            Layout::OneFileAllQueries(_) => match &self.parsed_query_store {
                Some(store) => match store.get(query_id) {
                    Some(text) => Ok(text.as_str().as_bytes_vec()),
                    None => Err(
                        Error::QueryOutputParsing(
                            join2(
                                "Query not found in combined SQL file: ",
                                query.output.as_str(),
                            ),
                        ),
                    ),
                },
                None => Err(
                    Error::QueryOutputParsing(
                        owned("QueryOutputReader.parsed_query_store field not initialized"),
                    ),
                ),
            },
        }
    }
}

/// Why the state of an output cannot be told.
pub ghost enum StatusFailure {
    /// The manifest has no query of this id.
    UndefinedQuery(Seq<char>),
    /// The layout is the combined one, and the combined file was not read.
    NotRead,
}

/// The result of a classification is the given one: the state, or the
/// error that stands for the failure.
pub open spec fn classified<T>(r: Result<T, Error>, want: Result<T, StatusFailure>) -> bool {
    match want {
        Ok(v) => r matches Ok(t) && t == v,
        Err(StatusFailure::UndefinedQuery(id)) => r matches Err(Error::UndefinedQuery(m)) && m@
            == id,
        Err(StatusFailure::NotRead) => r matches Err(Error::QueryOutputParsing(_)),
    }
}

/// The state of the output of the query `id`. What is there is the
/// query's own file where each query has one, else the query's text in the
/// combined file; it is held against the bytes expected.
pub open spec fn query_status_value(
    m: MetadataView,
    store: Option<Map<Seq<char>, Seq<char>>>,
    id: Seq<char>,
    on_disk: Option<Seq<u8>>,
    expected: Seq<u8>,
) -> Result<Status, StatusFailure> {
    match last_with_id(m.queries, id) {
        None => Err(StatusFailure::UndefinedQuery(id)),
        Some(_) => match m.query_output_layout {
            LayoutView::OneFileOneQuery => Ok(status_of(on_disk, expected)),
            LayoutView::OneFileAllQueries(_) => match store {
                Some(store) => Ok(
                    status_of(
                        if store.contains_key(id) {
                            Some(encode_utf8(store[id]))
                        } else {
                            None
                        },
                        expected,
                    ),
                ),
                None => Err(StatusFailure::NotRead),
            },
        },
    }
}

/// The view of optional bytes that are owned.
pub open spec fn owned_bytes_view(b: Option<Vec<u8>>) -> Option<Seq<u8>> {
    match b {
        Some(v) => Some(v@),
        None => None,
    }
}

/// The state of a query's output: added where the output is not there,
/// else unchanged or modified as its bytes are or are not those expected.
/// `on_disk` holds the bytes of the query's own file, if it is there;
/// `formatted` the rendered text as the formatter gives it, where one is
/// configured.
pub fn query_status(
    query: &Query,
    reader: &QueryOutputReader,
    on_disk: Option<Vec<u8>>,
    formatted: Option<&Vec<u8>>,
    rendered_output: &str,
) -> (r: Result<Status, Error>)
    ensures
        classified(
            r,
            query_status_value(
                reader.metadata@,
                reader.store(),
                query.id@,
                owned_bytes_view(on_disk),
                expected_query_bytes(bytes_view(formatted), rendered_output@),
            ),
        ),
{
    let present = match reader.has_output(query.id.as_str(), on_disk.is_some()) {
        Ok(e) => e,
        Err(e) => return Err(e),
    };
    if present {
        let contents = match reader.read(query.id.as_str(), on_disk) {
            Ok(c) => c,
            Err(e) => return Err(e),
        };
        let same = match formatted {
            Some(f) => bytes_eq(f, &contents),
            None => {
                let output = ensure_trailing_newline(rendered_output);
                let raw = output.as_str().as_bytes_vec();
                bytes_eq(&raw, &contents)
            },
        };
        if same {
            Ok(Status::Unchanged)
        } else {
            Ok(Status::Modified)
        }
    } else {
        Ok(Status::Added)
    }
}

} // verus!
