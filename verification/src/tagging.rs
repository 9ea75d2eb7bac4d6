//! Name tags: the comment line `-- name: <tag>` that identifies a rendered
//! query, and that separates the queries of a combined output file.

use crate::config::{lookup, Value};
use crate::error::Error;
use crate::pattern::{is_match, is_match_of, replace_all, replaced_all};
use crate::text::{
    is_space, join2, join3, lemma_first_newline, lemma_trim_start_idempotent,
    lines_of, owned, split_lines, starts_with, str_eq, strip_cr, trim_start, trim_start_of, views,
};
use vstd::prelude::*;

verus! {

/// Where the tag of a query comes from.
#[derive(Debug)]
pub enum NameTag {
    /// The tag is derived from this id of the query.
    DeriveFromId(String),
    /// The tag is this text, as it stands.
    Custom(String),
}

pub ghost enum NameTagView {
    DeriveFromId(Seq<char>),
    Custom(Seq<char>),
}

impl View for NameTag {
    type V = NameTagView;

    open spec fn view(&self) -> NameTagView {
        match self {
            NameTag::DeriveFromId(id) => NameTagView::DeriveFromId(id@),
            NameTag::Custom(s) => NameTagView::Custom(s@),
        }
    }
}

/// How a tag is derived from an id.
#[derive(Debug, Clone, Copy, PartialEq, Eq, Structural)]
pub enum NameTagStyle {
    /// Separators become underscores.
    SnakeCase,
    /// Separators become hyphens.
    KebabCase,
    /// The id is the tag.
    Exact,
}

/// The pattern of the separators in an id: `_`, `-`, `@`, `+`, `&` and `*`.
pub open spec fn separators() -> Seq<char> {
    "_|-|@|\\+|&|\\*"@
}

/// The pattern that a comment line matches when it is a name tag.
pub open spec fn name_pattern() -> Seq<char> {
    "--\\s*name:\\s*\\w+"@
}

/// What the value of the key `name_tagger.style` stands for: a style, or
/// the message of the error.
pub open spec fn style_value(value: Value) -> Result<NameTagStyle, Seq<char>> {
    match value {
        Value::String(s) => if s@ == "snake_case"@ {
            Ok(NameTagStyle::SnakeCase)
        } else if s@ == "kebab-case"@ {
            Ok(NameTagStyle::KebabCase)
        } else if s@ == "exact"@ {
            Ok(NameTagStyle::Exact)
        } else {
            Err("Invalid value for 'name_tagger.style': "@ + s@)
        },
        _ => Err("Value of 'name_tagger.style' expected to be a string"@),
    }
}

impl NameTagStyle {
    /// The tag that the style derives from `id`: the id with each separator
    /// replaced by the style's own, or the id itself.
    pub open spec fn tag_of(self, id: Seq<char>) -> Seq<char> {
        match self {
            NameTagStyle::SnakeCase => match replaced_all(separators(), id, "_"@) {
                Some(tag) => tag,
                None => id,
            },
            NameTagStyle::KebabCase => match replaced_all(separators(), id, "-"@) {
                Some(tag) => tag,
                None => id,
            },
            NameTagStyle::Exact => id,
        }
    }

    /// Decodes the value of the key `name_tagger.style`.
    pub fn decode(value: &Value) -> (r: Result<Self, Error>)
        ensures
            match style_value(*value) {
                Ok(style) => r matches Ok(s) && s == style,
                Err(msg) => r matches Err(Error::Parsing(m)) && m@ == msg,
            },
    {
        match value.as_str() {
            Some(s) => {
                if str_eq(s, "snake_case") {
                    Ok(Self::SnakeCase)
                } else if str_eq(s, "kebab-case") {
                    Ok(Self::KebabCase)
                } else if str_eq(s, "exact") {
                    Ok(Self::Exact)
                } else {
                    Err(Error::Parsing(join2("Invalid value for 'name_tagger.style': ", s)))
                }
            },
            None => Err(
                Error::Parsing(owned("Value of 'name_tagger.style' expected to be a string")),
            ),
        }
    }

    /// Derives a tag from `id`.
    pub fn make_tag(&self, id: &str) -> (tag: String)
        ensures
            tag@ == self.tag_of(id@),
    {
        match self {
            Self::SnakeCase => match replace_all("_|-|@|\\+|&|\\*", id, "_") {
                Some(tag) => tag,
                None => owned(id),
            },
            Self::KebabCase => match replace_all("_|-|@|\\+|&|\\*", id, "-") {
                Some(tag) => tag,
                None => owned(id),
            },
            Self::Exact => owned(id),
        }
    }

    /// The word that stands for the style in a manifest.
    pub fn label(&self) -> (r: &'static str)
        ensures
            r@ == match *self {
                NameTagStyle::SnakeCase => "snake_case"@,
                NameTagStyle::KebabCase => "kebab-case"@,
                NameTagStyle::Exact => "exact"@,
            },
    {
        match self {
            Self::SnakeCase => "snake_case",
            Self::KebabCase => "kebab-case",
            Self::Exact => "exact",
        }
    }
}

/// The line is a comment.
pub open spec fn is_comment(line: Seq<char>) -> bool {
    "--"@.is_prefix_of(line)
}

/// The line matches the pattern of a name tag.
pub open spec fn names_a_query(line: Seq<char>) -> bool {
    is_match_of(name_pattern(), line) == Some(true)
}

/// One of the comment lines with which `lines` begins is a name tag.
pub open spec fn tagged_among(lines: Seq<Seq<char>>) -> bool
    decreases lines.len(),
{
    &&& lines.len() > 0
    &&& is_comment(lines[0])
    &&& (names_a_query(lines[0]) || tagged_among(lines.drop_first()))
}

/// The text begins with a run of comment lines of which one is a name tag.
pub open spec fn is_tagged(sql: Seq<char>) -> bool {
    tagged_among(lines_of(sql))
}

/// Whether `sql` begins with comment lines of which one is a name tag.
pub fn has_name_tag(sql: &str) -> (r: bool)
    ensures
        r == is_tagged(sql@),
{
    let lines = split_lines(sql);
    let mut i: usize = 0;
    assert(views(lines@).skip(0) =~= views(lines@));
    while i < lines.len()
        invariant
            i <= lines@.len(),
            views(lines@) == lines_of(sql@),
            is_tagged(sql@) == tagged_among(views(lines@).skip(i as int)),
        decreases lines@.len() - i,
    {
        let line = lines[i].as_str();
        proof {
            let rest = views(lines@).skip(i as int);
            assert(rest[0] == line@);
            assert(rest.drop_first() =~= views(lines@).skip(i + 1));
        }
        if !starts_with(line, "--") {
            return false;
        }
        match is_match("--\\s*name:\\s*\\w+", line) {
            Some(found) => if found {
                return true;
            },
            None => {},
        }
        i += 1;
    }
    false
}

/// The comment line that carries the tag of `name_tag` in the given style.
pub open spec fn name_tag_line(style: NameTagStyle, name_tag: NameTagView) -> Seq<char> {
    "-- name: "@ + match name_tag {
        NameTagView::DeriveFromId(id) => style.tag_of(id),
        NameTagView::Custom(s) => s,
    }
}

/// `sql` with its name tag: the text without leading white space, behind
/// the tag's comment line unless the text is tagged already.
pub open spec fn ensured(style: NameTagStyle, sql: Seq<char>, name_tag: NameTagView) -> Seq<char> {
    let body = trim_start_of(sql);
    if is_tagged(body) {
        body
    } else {
        name_tag_line(style, name_tag) + seq!['\n'] + body
    }
}

/// What the value of the key `name_tagger` stands for: a style, nothing
/// where the value is no table, or the message of the error.
pub open spec fn tagger_value(value: Value) -> Result<Option<NameTagStyle>, Seq<char>> {
    match value {
        Value::Table(entries) => match lookup(entries@, "style"@) {
            Some(v) => match style_value(v) {
                Ok(style) => Ok(Some(style)),
                Err(msg) => Err(msg),
            },
            None => Err("Key 'name_tagger.style' is missing"@),
        },
        _ => Ok(None),
    }
}

/// Writes name tags in one style.
#[derive(Debug)]
pub struct NameTagger {
    pub style: NameTagStyle,
}

impl NameTagger {
    /// Decodes the value of the key `name_tagger`.
    pub fn decode(value: &Value) -> (r: Result<Option<Self>, Error>)
        ensures
            match tagger_value(*value) {
                Ok(Some(style)) => r matches Ok(Some(t)) && t.style == style,
                Ok(None) => r matches Ok(None),
                Err(msg) => r matches Err(Error::Parsing(m)) && m@ == msg,
            },
    {
        match value.as_table() {
            Some(entries) => match crate::config::table_get(entries, "style") {
                Some(v) => match NameTagStyle::decode(v) {
                    Ok(style) => Ok(Some(Self { style })),
                    Err(e) => Err(e),
                },
                None => Err(Error::Parsing(owned("Key 'name_tagger.style' is missing"))),
            },
            None => Ok(None),
        }
    }

    /// The comment line that carries the tag of `name_tag`.
    pub fn make_name_tag(&self, name_tag: &NameTag) -> (line: String)
        ensures
            line@ == name_tag_line(self.style, name_tag@),
    {
        match name_tag {
            NameTag::DeriveFromId(id) => {
                let tag = self.style.make_tag(id.as_str());
                join2("-- name: ", tag.as_str())
            },
            NameTag::Custom(s) => join2("-- name: ", s.as_str()),
        }
    }

    /// `sql` without leading white space, and with the tag's comment line
    /// put before it unless it is tagged already.
    pub fn ensure_name_tag(&self, sql: &str, name_tag: &NameTag) -> (r: String)
        ensures
            r@ == ensured(self.style, sql@, name_tag@),
    {
        let body = trim_start(sql);
        let tagged = has_name_tag(body.as_str());
        let line = self.make_name_tag(name_tag);
        put_tag(body, tagged, line.as_str())
    }
}

/// `body` behind the comment line `line`, unless it is tagged already.
pub fn put_tag(body: String, tagged: bool, line: &str) -> (r: String)
    ensures
        r@ == if tagged {
            body@
        } else {
            line@ + seq!['\n'] + body@
        },
{
    if tagged {
        body
    } else {
        proof {
            reveal_strlit("\n");
            assert("\n"@ =~= seq!['\n']);
        }
        join3(line, "\n", body.as_str())
    }
}

/// A text that begins with a recognised tag line is tagged: where `line` is
/// a comment that matches the pattern of a name tag and holds no line break,
/// `line`, a line feed and any text make a tagged text.
pub proof fn lemma_tag_line_is_found(line: Seq<char>, rest: Seq<char>)
    requires
        is_comment(line),
        names_a_query(line),
        !line.contains('\n'),
        !line.contains('\r'),
    ensures
        is_tagged(line + seq!['\n'] + rest),
{
    let text = line + seq!['\n'] + rest;
    let k = line.len() as int;
    assert forall|j: int| 0 <= j < k implies text[j] != '\n' by {
        assert(text[j] == line[j]);
        assert(line.contains(line[j]));
    }
    assert(text[k] == '\n');
    lemma_first_newline(text, k);
    assert(text.take(k) =~= line);
    if line.len() > 0 {
        assert(line.contains(line.last()));
    }
    assert(strip_cr(line) == line);
    assert(lines_of(text)[0] == line);
}

/// Tagging is idempotent: tagging a tagged text again changes nothing. This
/// holds of every text that is tagged to begin with, and of every other text
/// whose tagged form is recognised as tagged.
pub proof fn lemma_ensure_name_tag_idempotent(
    style: NameTagStyle,
    sql: Seq<char>,
    name_tag: NameTagView,
)
    requires
        is_tagged(trim_start_of(sql)) || is_tagged(ensured(style, sql, name_tag)),
    ensures
        ensured(style, ensured(style, sql, name_tag), name_tag) == ensured(style, sql, name_tag),
{
    let body = trim_start_of(sql);
    let once = ensured(style, sql, name_tag);
    lemma_trim_start_idempotent(sql);
    if !is_tagged(body) {
        let line = name_tag_line(style, name_tag);
        reveal_strlit("-- name: ");
        assert(once[0] == '-');
        assert(!is_space('-'));
        assert(trim_start_of(once) == once);
    }
}

/// Tagging is idempotent for every tag whose comment line holds no line
/// break and matches the pattern of a name tag.
pub proof fn lemma_tagging_twice(style: NameTagStyle, sql: Seq<char>, name_tag: NameTagView)
    requires
        names_a_query(name_tag_line(style, name_tag)),
        !name_tag_line(style, name_tag).contains('\n'),
        !name_tag_line(style, name_tag).contains('\r'),
    ensures
        ensured(style, ensured(style, sql, name_tag), name_tag) == ensured(style, sql, name_tag),
{
    let body = trim_start_of(sql);
    let line = name_tag_line(style, name_tag);
    if !is_tagged(body) {
        reveal_strlit("-- name: ");
        reveal_strlit("--");
        assert(is_comment(line));
        lemma_tag_line_is_found(line, body);
    }
    lemma_ensure_name_tag_idempotent(style, sql, name_tag);
}

} // verus!
