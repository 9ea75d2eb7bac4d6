use std::path::PathBuf;
use tapestry::error::Error;
use tapestry::metadata::Metadata;
use tapestry::output::Layout;
use tapestry::placeholder::Placeholder;
use tapestry::query::{fallback_output, Queries, Query};
use tapestry::query_template::{QueryTemplate, QueryTemplates};
use tapestry::tagging::{NameTag, NameTagStyle, NameTagger};
use tapestry::test_template::{path_to_output, TestTemplate, TestTemplates};
use tapestry::config::{decode_pathbuf, decode_string, decode_strset, parse, Value};

fn convert(v: &toml::Value) -> Value {
    match v {
        toml::Value::String(s) => Value::String(s.clone()),
        toml::Value::Integer(i) => Value::Integer(*i),
        toml::Value::Float(f) => Value::Float(f.to_string()),
        toml::Value::Boolean(b) => Value::Boolean(*b),
        toml::Value::Datetime(d) => Value::Datetime(d.to_string()),
        toml::Value::Array(xs) => Value::Array(xs.iter().map(convert).collect()),
        toml::Value::Table(t) => {
            Value::Table(t.iter().map(|(k, v)| (k.clone(), convert(v))).collect())
        }
    }
}

fn table(text: &str) -> Value {
    convert(&toml::Value::Table(text.parse::<toml::Table>().unwrap()))
}

fn strset(xs: Vec<&str>) -> Vec<String> {
    let mut v: Vec<String> = xs.iter().map(|s| String::from(*s)).collect();
    v.sort();
    v
}

fn sorted(mut v: Vec<String>) -> Vec<String> {
    v.sort();
    v
}

fn parsing_message<T>(r: Result<T, Error>) -> String {
    match r {
        Err(Error::Parsing(msg)) => msg,
        Err(e) => panic!("another error: {e:?}"),
        Ok(_) => panic!("no error"),
    }
}

#[test]
fn test_layout_decode() {
    // When layout = 'one-file-one-query' AND output file is not
    // specified
    let manifest = "query_output_layout = 'one-file-one-query'";
    let table = table(manifest);
    let layout = Layout::decode(
        table.get("query_output_layout").unwrap(),
        table.get("query_output_file"),
        "base",
    );
    match layout {
        Ok(Layout::OneFileOneQuery) => assert!(true),
        _ => assert!(false),
    }

    // When layout = 'one-file-one-query' AND output file is
    // specified, the output file is ignored
    let manifest = r#"
query_output_layout = 'one-file-one-query'
query_output_file = 'queries.sql'
"#;
    let table = self::table(manifest);
    let layout = Layout::decode(
        table.get("query_output_layout").unwrap(),
        table.get("query_output_file"),
        "base",
    );
    match layout {
        Ok(Layout::OneFileOneQuery) => assert!(true),
        _ => assert!(false),
    }

    // When layout = 'one-file-all-queries' AND output file is not
    // specified
    let manifest = "query_output_layout = 'one-file-all-queries'";
    let table = self::table(manifest);
    let layout = Layout::decode(
        table.get("query_output_layout").unwrap(),
        table.get("query_output_file"),
        "base",
    );
    match layout {
        Ok(Layout::OneFileAllQueries(p)) => {
            assert!(true);
            assert_eq!(None, p);
        }
        _ => assert!(false),
    };

    // When layout = 'one-file-all-queries' AND output file is
    // specified
    let manifest = r#"
query_output_layout = 'one-file-all-queries'
query_output_file = 'queries.sql'
"#;
    let table = self::table(manifest);
    let layout = Layout::decode(
        table.get("query_output_layout").unwrap(),
        table.get("query_output_file"),
        "base",
    );
    match layout {
        Ok(Layout::OneFileAllQueries(p)) => {
            assert!(true);
            assert_eq!(Some(PathBuf::from("base/queries.sql")), p.map(PathBuf::from));
        }
        _ => assert!(false),
    };
}

#[test]
fn layout_decode_rejects_unknown_words_and_defaults_on_other_values() {
    let t = table("query_output_layout = 'two-files'");
    let r = Layout::decode(t.get("query_output_layout").unwrap(), None, "base");
    assert_eq!("Invalid value for 'query_output_layout': 'two-files'", parsing_message(r));

    let t = table("query_output_layout = 3");
    let r = Layout::decode(t.get("query_output_layout").unwrap(), None, "base");
    assert!(matches!(r, Ok(Layout::OneFileOneQuery)));

    let t = table("query_output_layout = 'one-file-all-queries'\nquery_output_file = 1");
    let r = Layout::decode(
        t.get("query_output_layout").unwrap(),
        t.get("query_output_file"),
        "base",
    );
    assert_eq!("Value of 'queries_output_file' is expected to be a string", parsing_message(r));
}

#[test]
fn test_placeholder_try_from() {
    let t = table("placeholder = 'posargs'");
    let p = Placeholder::try_from(t.get("placeholder").unwrap());
    assert!(p.is_ok());
    match p.unwrap() {
        Placeholder::PosArgs => assert!(true),
        _ => assert!(false),
    }

    let t = table("placeholder = 'variables'");
    let p = Placeholder::try_from(t.get("placeholder").unwrap());
    assert!(p.is_ok());
    match p.unwrap() {
        Placeholder::Variables => assert!(true),
        _ => assert!(false),
    }

    let t = table("placeholder = 'question-marks'");
    let p = Placeholder::try_from(t.get("placeholder").unwrap());
    assert!(p.is_err());
}

#[test]
fn placeholder_errors_carry_their_messages() {
    let t = table("placeholder = 'question-marks'");
    let p = Placeholder::try_from(t.get("placeholder").unwrap());
    assert_eq!("Invalid placeholder: 'question-marks'", parsing_message(p));
    let t = table("placeholder = 1");
    let p = Placeholder::try_from(t.get("placeholder").unwrap());
    assert_eq!("Value of key 'placeholder' must be a string", parsing_message(p));
    assert_eq!("posargs", Placeholder::PosArgs.label());
    assert_eq!("variables", Placeholder::Variables.label());
}

#[test]
fn test_decode_query() {
    // When all 4 fields are specified
    let value = table(
        r#"
id = 'my_query'
template = 'my_query_template.sql.j2'
conds = [ 'foo' ]
output = 'my_query_explicit.sql'
"#,
    );
    match Query::decode("base", "output", &Layout::OneFileOneQuery, &value) {
        Ok(q) => {
            assert_eq!("my_query", q.id);
            assert_eq!(PathBuf::from("base/my_query_template.sql.j2"), PathBuf::from(q.template));
            assert_eq!(PathBuf::from("output/my_query_explicit.sql"), PathBuf::from(q.output));
            assert_eq!(strset(vec!["foo"]), sorted(q.conds));
        }
        Err(_) => assert!(false),
    }

    // When conds is not specified
    let value = table(
        r#"
id = 'my_query'
template = 'my_query_template.sql.j2'
output = 'my_query_explicit.sql'
"#,
    );
    match Query::decode("base", "output", &Layout::OneFileOneQuery, &value) {
        Ok(q) => {
            assert_eq!("my_query", q.id);
            assert_eq!(PathBuf::from("base/my_query_template.sql.j2"), PathBuf::from(q.template));
            assert_eq!(PathBuf::from("output/my_query_explicit.sql"), PathBuf::from(q.output));
            assert_eq!(Vec::<String>::new(), q.conds);
        }
        Err(_) => assert!(false),
    }

    // When output is not specified
    let value = table(
        r#"
id = 'my_query'
template = 'my_query_template.sql.j2'
conds = [ 'foo' ]
"#,
    );
    match Query::decode("base", "output", &Layout::OneFileOneQuery, &value) {
        Ok(q) => {
            assert_eq!("my_query", q.id);
            assert_eq!(PathBuf::from("base/my_query_template.sql.j2"), PathBuf::from(q.template));
            assert_eq!(PathBuf::from("output/my_query.sql"), PathBuf::from(q.output));
            assert_eq!(strset(vec!["foo"]), sorted(q.conds));
        }
        Err(_) => assert!(false),
    }

    // When id is not specified
    let value = table(
        r#"
template = 'my_query_template.sql.j2'
conds = [ 'foo' ]
output = 'my_query_explicit.sql'
"#,
    );
    match Query::decode("base", "output", &Layout::OneFileOneQuery, &value) {
        Ok(_) => assert!(false),
        Err(Error::Parsing(msg)) => {
            assert_eq!("Missing 'id' in 'query' entry", msg);
        }
        Err(_) => assert!(false),
    }

    // When template is not specified
    let value = table(
        r#"
id = 'my_query'
conds = [ 'foo' ]
output = 'my_query_explicit.sql'
"#,
    );
    match Query::decode("base", "output", &Layout::OneFileOneQuery, &value) {
        Ok(_) => assert!(false),
        Err(Error::Parsing(msg)) => {
            assert_eq!("Missing 'template' in 'query' entry", msg);
        }
        Err(_) => assert!(false),
    }

    // When `all_conds` is not of correct type
    let value = table(
        r#"
id = 'my_query'
template = 'my_query_template.sql.j2'
conds = [ 0 ]
output = 'my_query_explicit.sql'
"#,
    );
    match Query::decode("base", "output", &Layout::OneFileOneQuery, &value) {
        Ok(_) => assert!(false),
        Err(Error::Parsing(msg)) => {
            assert_eq!(
                "Value of 'queries[].conds' is expected to be array of strings",
                msg
            );
        }
        Err(_) => assert!(false),
    }
}

#[test]
fn query_decode_reads_name_tags_and_rejects_other_values() {
    let value = table("id = 'a@b'\ntemplate = 't.sql.j2'\nname_tag = 'custom'");
    let q = Query::decode("base", "output", &Layout::OneFileOneQuery, &value).unwrap();
    assert!(matches!(q.name_tag, NameTag::Custom(ref s) if s == "custom"));
    assert_eq!(PathBuf::from("output/a-b.sql"), PathBuf::from(q.output));

    let value = table("id = 'a'\ntemplate = 't.sql.j2'");
    let q = Query::decode("base", "output", &Layout::OneFileOneQuery, &value).unwrap();
    assert!(matches!(q.name_tag, NameTag::DeriveFromId(ref s) if s == "a"));

    let r = Query::decode("base", "output", &Layout::OneFileOneQuery, &Value::Integer(1));
    assert_eq!("Invalid 'query' entry", parsing_message(r));

    let value = table("id = 1\ntemplate = 't.sql.j2'");
    let r = Query::decode("base", "output", &Layout::OneFileOneQuery, &value);
    assert_eq!("Value of 'queries[].id' expected to be a string", parsing_message(r));

    let value = table("id = 'a'\ntemplate = 't.sql.j2'\nconds = 'x'");
    let r = Query::decode("base", "output", &Layout::OneFileOneQuery, &value);
    assert_eq!(
        "Value of 'queries[].conds' is expected to be an array of strings",
        parsing_message(r)
    );

    let r = Queries::decode("base", "output", &Layout::OneFileOneQuery, &Value::Integer(1));
    assert_eq!("Invalid queries", parsing_message(r));
}

#[test]
fn test_fallback_output() {
    // When output_layout = OneFileOneQuery
    match fallback_output("foo", "base", &Layout::OneFileOneQuery) {
        Ok(p) => assert_eq!(PathBuf::from("base/foo.sql"), PathBuf::from(p)),
        Err(_) => assert!(false),
    }

    // When output layout = OneFileAllQueries and output_file is
    // specified
    let layout = Layout::OneFileAllQueries(Some(String::from("base/queries.sql")));
    match fallback_output("foo", "base", &layout) {
        Ok(p) => assert_eq!(PathBuf::from("base/queries.sql"), PathBuf::from(p)),
        Err(_) => assert!(false),
    }

    // When output layout = OneFileAllQueries and output_file is
    // not specified
    let layout = Layout::OneFileAllQueries(None);
    match fallback_output("foo", "base", &layout) {
        Err(Error::Parsing(msg)) => {
            assert_eq!("Either 'queries[].output' or 'query_output_file' must be specified in case of 'one-file-all-queries' layout", msg);
        }
        _ => assert!(false),
    }
}

#[test]
fn test_decode_query_template() {
    // When TOML is valid
    let value = table(
        r#"
path = 'my_query_template.sql.j2'
all_conds = [ 'foo', 'bar' ]
"#,
    );
    match QueryTemplate::decode("base", &value) {
        Ok(qt) => {
            assert_eq!(PathBuf::from("base/my_query_template.sql.j2"), PathBuf::from(qt.path));
            assert_eq!(strset(vec!["foo", "bar"]), sorted(qt.all_conds));
        }
        Err(_) => assert!(false),
    }

    // When `path` is missing
    let value = table(
        r#"
all_conds = [ 'foo', 'bar' ]
"#,
    );
    match QueryTemplate::decode("base", &value) {
        Ok(_) => assert!(false),
        Err(Error::Parsing(msg)) => {
            assert_eq!("Query template path missing", msg);
        }
        Err(_) => assert!(false),
    }

    // When `all_conds` is missing
    let value = table(
        r#"
path = 'my_query_template.sql.j2'
"#,
    );
    match QueryTemplate::decode("base", &value) {
        Ok(qt) => {
            assert_eq!(PathBuf::from("base/my_query_template.sql.j2"), PathBuf::from(qt.path));
            assert_eq!(Vec::<String>::new(), qt.all_conds)
        }
        Err(_) => assert!(false),
    }

    // When type of TOML value is not a table
    let value = Value::String(String::from("hello"));
    match QueryTemplate::decode("base", &value) {
        Ok(_) => assert!(false),
        Err(Error::Parsing(msg)) => {
            assert_eq!("Invalid 'query_template' entry", msg);
        }
        Err(_) => assert!(false),
    }

    // When `all_conds` is not of correct type
    let value = table(
        r#"
path = 'my_query_template.sql.j2'
all_conds = [ 1, 2 ]
"#,
    );
    match QueryTemplate::decode("base", &value) {
        Ok(_) => assert!(false),
        Err(Error::Parsing(msg)) => {
            assert_eq!(
                "Value of 'query_templates[].all_conds' is expected to be array of strings",
                msg
            );
        }
        Err(_) => assert!(false),
    }
}

#[test]
fn decoders_of_plain_values() {
    assert_eq!("x", decode_string(&Value::String("x".into()), "k").unwrap());
    assert_eq!(
        "Value of 'k' expected to be a string",
        parsing_message(decode_string(&Value::Boolean(true), "k"))
    );
    assert_eq!("x", decode_pathbuf(&Value::String("x".into()), None, "k").unwrap());
    assert_eq!(
        PathBuf::from("b/x"),
        PathBuf::from(decode_pathbuf(&Value::String("x".into()), Some("b"), "k").unwrap())
    );
    assert_eq!(
        PathBuf::from("/abs"),
        PathBuf::from(decode_pathbuf(&Value::String("/abs".into()), Some("b"), "k").unwrap())
    );
    assert_eq!(
        "Value of 'k' is expected to be a string",
        parsing_message(decode_pathbuf(&Value::Integer(1), None, "k"))
    );
    let arr = Value::Array(vec![
        Value::String("b".into()),
        Value::String("a".into()),
        Value::String("b".into()),
    ]);
    assert_eq!(vec!["b".to_string(), "a".to_string()], decode_strset(&arr, "k").unwrap());
    assert_eq!(
        "Value of 'k' is expected to be an array of strings",
        parsing_message(decode_strset(&Value::Integer(1), "k"))
    );
}

#[test]
fn test_templates_decode_and_derive_their_outputs() {
    let value = table("query = 'q'\npath = 'a_test.sql.j2'");
    let tt = TestTemplate::decode("tests", "out", &value).unwrap();
    assert_eq!("q", tt.query);
    assert_eq!(PathBuf::from("tests/a_test.sql.j2"), PathBuf::from(tt.path));
    assert_eq!(PathBuf::from("out/a_test.sql"), PathBuf::from(tt.output));

    assert_eq!(PathBuf::from("out/x.sql"), PathBuf::from(path_to_output("t/x.j2", "out").unwrap()));
    assert_eq!(PathBuf::from("out/x.sql"), PathBuf::from(path_to_output("t/x.sql", "out").unwrap()));
    assert_eq!(
        "Invalid 'path' in 'test_templates' entry",
        parsing_message(path_to_output("t/x.txt", "out"))
    );
    assert_eq!(
        "Invalid 'path' in 'test_templates' entry",
        parsing_message(path_to_output("t/x", "out"))
    );

    let value = table("path = 'a_test.sql.j2'");
    assert_eq!(
        "Missing 'query' in 'test_templates' entry",
        parsing_message(TestTemplate::decode("tests", "out", &value))
    );
    let value = table("query = 'q'");
    assert_eq!(
        "Missing 'path' in 'test_templates' entry",
        parsing_message(TestTemplate::decode("tests", "out", &value))
    );
    let value = table("query = 'q'\npath = 'a.j2'\noutput = 'explicit.sql'");
    let tt = TestTemplate::decode("tests", "out", &value).unwrap();
    assert_eq!(PathBuf::from("out/explicit.sql"), PathBuf::from(tt.output));
    assert_eq!(
        "Invalid 'test_templates' entry",
        parsing_message(TestTemplate::decode("tests", "out", &Value::Integer(0)))
    );
    assert_eq!(
        "Invalid test_templates",
        parsing_message(TestTemplates::decode("tests", "out", &Value::Integer(0)))
    );
    assert_eq!(
        "Invalid query templates",
        parsing_message(QueryTemplates::decode("base", &Value::Integer(0)))
    );
}

#[test]
fn name_tagger_decodes_its_style() {
    let t = table("[name_tagger]\nstyle = 'snake_case'");
    let tagger = NameTagger::decode(t.get("name_tagger").unwrap()).unwrap().unwrap();
    assert_eq!(NameTagStyle::SnakeCase, tagger.style);
    let t = table("[name_tagger]\nstyle = 'kebab-case'");
    let tagger = NameTagger::decode(t.get("name_tagger").unwrap()).unwrap().unwrap();
    assert_eq!(NameTagStyle::KebabCase, tagger.style);
    let t = table("[name_tagger]\nstyle = 'exact'");
    let tagger = NameTagger::decode(t.get("name_tagger").unwrap()).unwrap().unwrap();
    assert_eq!(NameTagStyle::Exact, tagger.style);
    let t = table("[name_tagger]\nstyle = 'camel'");
    assert_eq!(
        "Invalid value for 'name_tagger.style': camel",
        parsing_message(NameTagger::decode(t.get("name_tagger").unwrap()))
    );
    let t = table("[name_tagger]\nstyle = 1");
    assert_eq!(
        "Value of 'name_tagger.style' expected to be a string",
        parsing_message(NameTagger::decode(t.get("name_tagger").unwrap()))
    );
    let t = table("[name_tagger]\nother = 1");
    assert_eq!(
        "Key 'name_tagger.style' is missing",
        parsing_message(NameTagger::decode(t.get("name_tagger").unwrap()))
    );
    assert!(NameTagger::decode(&Value::Integer(1)).unwrap().is_none());
    assert_eq!("snake_case", NameTagStyle::SnakeCase.label());
    assert_eq!("kebab-case", NameTagStyle::KebabCase.label());
    assert_eq!("exact", NameTagStyle::Exact.label());
}

#[test]
fn a_manifest_decodes_as_a_whole() {
    let m = table(
        r#"
placeholder = 'posargs'
query_templates_dir = 'templates/queries'
test_templates_dir = 'templates/tests'
queries_output_dir = 'output/queries'
tests_output_dir = 'output/tests'
query_output_layout = 'one-file-all-queries'
query_output_file = 'all.sql'

[name_tagger]
style = 'kebab-case'

[formatter.sqlformat-rs]
indent = 2
uppercase = false

[[query_templates]]
path = 'artists.sql.j2'
all_conds = [ 'genre', 'limit' ]

[[queries]]
id = 'artists@genre'
template = 'artists.sql.j2'
conds = [ 'genre' ]

[[test_templates]]
query = 'artists@genre'
path = 'artists_test.sql.j2'
"#,
    );
    let md = Metadata::try_from(&m).unwrap();
    assert_eq!(Placeholder::PosArgs, md.placeholder);
    assert_eq!("templates/queries", md.query_templates_dir);
    assert_eq!("output/tests", md.tests_output_dir);
    assert!(matches!(
        md.query_output_layout,
        Layout::OneFileAllQueries(Some(ref p)) if PathBuf::from(p) == PathBuf::from("output/queries/all.sql")
    ));
    assert_eq!(NameTagStyle::KebabCase, md.name_tagger.as_ref().unwrap().style);
    assert!(matches!(
        md.formatter,
        Some(tapestry::formatters::Formatter::SqlFormatRs(f)) if f.indent == 2 && !f.uppercase && f.lines_between_queries == 1
    ));
    assert_eq!(1, md.queries.len());
    let q = md.queries.get("artists@genre").unwrap();
    assert_eq!(PathBuf::from("output/queries/all.sql"), PathBuf::from(&q.output));
    assert_eq!(
        PathBuf::from("templates/queries/artists.sql.j2"),
        PathBuf::from(&q.template)
    );
    assert_eq!(1, md.test_templates.find_by_query("artists@genre").len());
    assert_eq!(Some("output/queries/all.sql"), md.combined_output_file().unwrap());

    for key in [
        "placeholder",
        "query_templates_dir",
        "test_templates_dir",
        "queries_output_dir",
        "tests_output_dir",
    ] {
        let mut text = String::new();
        for other in [
            "placeholder = 'posargs'",
            "query_templates_dir = 'a'",
            "test_templates_dir = 'b'",
            "queries_output_dir = 'c'",
            "tests_output_dir = 'd'",
        ] {
            if !other.starts_with(key) {
                text.push_str(other);
                text.push('\n');
            }
        }
        assert_eq!(
            format!("Key '{key}' is missing"),
            parsing_message(Metadata::try_from(&table(&text)))
        );
    }
}

#[test]
fn a_document_is_read_as_the_parser_reads_it() {
    let text = r#"
b = 'x'
a = 1
f = 1.5
when = 1979-05-27T07:32:00Z
flags = [true, false]

[t]
inner = { k = "v" }

[[rows]]
n = 1

[[rows]]
n = 2
"#;
    let ours = parse(text).unwrap();
    let theirs = convert(&toml::Value::Table(text.parse::<toml::Table>().unwrap()));
    assert_eq!(format!("{theirs:?}"), format!("{ours:?}"));
    assert_eq!(Some(1), ours.get("a").and_then(|v| v.as_integer()));
    assert_eq!(Some("x"), ours.get("b").and_then(|v| v.as_str()));
    assert_eq!(Some(true), ours.get("flags").and_then(|v| v.as_array()).and_then(|xs| xs[0].as_bool()));
    assert_eq!(2, ours.get("rows").and_then(|v| v.as_array()).unwrap().len());
    assert!(matches!(ours.get("f"), Some(Value::Float(s)) if s == "1.5"));
    assert!(matches!(ours.get("when"), Some(Value::Datetime(s)) if s == "1979-05-27T07:32:00Z"));
    assert_eq!(
        Some("v"),
        ours.get("t").and_then(|t| t.get("inner")).and_then(|t| t.get("k")).and_then(|v| v.as_str())
    );
    assert!(ours.get("missing").is_none());
    assert!(ours.get("a").unwrap().get("a").is_none());
    assert!(ours.as_table().is_some());
}

#[test]
fn what_is_no_document_is_an_error_of_the_parser() {
    for text in ["a = ", "= 1", "a = 1\na = 2", "[t\n"] {
        match parse(text) {
            Err(e @ Error::Toml(_)) => assert!(e.message().starts_with("TOML Error: ")),
            other => panic!("{text:?} gave {other:?}"),
        }
        assert!(matches!(Metadata::from_toml(text), Err(Error::Toml(_))));
    }
    assert!(matches!(parse(""), Ok(Value::Table(ref t)) if t.is_empty()));
}

#[test]
fn a_manifest_is_read_from_its_text() {
    let text = r#"
placeholder = 'variables'
query_templates_dir = 'tq'
test_templates_dir = 'tt'
queries_output_dir = 'oq'
tests_output_dir = 'ot'

[[query_templates]]
path = 'a.sql.j2'
all_conds = [ 'x' ]

[[queries]]
id = 'a'
template = 'a.sql.j2'
"#;
    let md = Metadata::from_toml(text).unwrap();
    assert_eq!(Placeholder::Variables, md.placeholder);
    assert!(matches!(md.query_output_layout, Layout::OneFileOneQuery));
    assert!(md.formatter.is_none());
    assert!(md.name_tagger.is_none());
    assert_eq!(PathBuf::from("oq/a.sql"), PathBuf::from(&md.queries.get("a").unwrap().output));
    assert_eq!(
        "Key 'placeholder' is missing",
        parsing_message(Metadata::from_toml("query_templates_dir = 'tq'"))
    );
}
