use tapestry::bindings::Mapping;
use tapestry::error::Error;
use tapestry::formatters::sqlformat_rs::SqlFormat;
use tapestry::formatters::Formatter;
use tapestry::metadata::Metadata;
use tapestry::output::{
    ensure_trailing_newline, parse_combined_sql, query_status, testfile_status, write_combined,
    write_separately, Layout, QueryOutputReader, SqlToWrite, Status,
};
use tapestry::query::{slugify_id, Queries, Query};
use tapestry::tagging::{has_name_tag, put_tag, NameTag, NameTagStyle, NameTagger};

fn queries(ids: Vec<&str>, output: &str) -> Queries {
    let mut qs = Queries::new();
    for id in ids {
        qs.push(Query {
            id: id.into(),
            template: "t.sql.j2".into(),
            conds: vec![],
            output: output.into(),
            name_tag: NameTag::DeriveFromId(id.into()),
        });
    }
    qs
}

fn as_pairs(m: &Mapping) -> Vec<(String, String)> {
    let mut v = m.entries.clone();
    v.sort();
    v
}

#[test]
fn test_ensure_name_tag() {
    let tag_style = NameTagStyle::SnakeCase;
    let tagger = NameTagger { style: tag_style };

    // When name tag doesn't exist
    let sql = "SELECT 1;";
    let name_tag = NameTag::DeriveFromId("simple-query".to_owned());
    let expected = r#"-- name: simple_query
SELECT 1;"#;
    assert_eq!(expected, tagger.ensure_name_tag(sql, &name_tag));

    // When name tag exists (along with whitespace before the
    // pre_comments and additional comments/documentation)
    let sql = r#"
-- name: simple_query
-- Fetch static value one
SELECT 1;

"#;
    let expected = r#"-- name: simple_query
-- Fetch static value one
SELECT 1;

"#;
    assert_eq!(expected, tagger.ensure_name_tag(sql, &name_tag));

    // When a comment similar to the name tag is found somewhere
    // in the middle of the sql
    let sql = r#"
SELECT
    *
FROM
    employees
WHERE
-- name: this line is not considered a name tag
    email = 'email'
    AND department = 'department';
"#;
    let name_tag = NameTag::DeriveFromId("find_employee@email+dept".to_owned());
    let expected = r#"-- name: find_employee_email_dept
SELECT
    *
FROM
    employees
WHERE
-- name: this line is not considered a name tag
    email = 'email'
    AND department = 'department';
"#;
    assert_eq!(expected, tagger.ensure_name_tag(sql, &name_tag));
}

#[test]
fn tagging_twice_is_tagging_once() {
    let samples = [
        "SELECT 1;",
        "\n\n  SELECT 1;\n",
        "-- a comment\nSELECT 1;",
        "-- name: other\nSELECT 1;",
        "-- note\n--name:x\nSELECT 1;",
        "",
    ];
    for style in [NameTagStyle::SnakeCase, NameTagStyle::KebabCase, NameTagStyle::Exact] {
        let tagger = NameTagger { style };
        for tag in [
            NameTag::DeriveFromId("find@this+one".into()),
            NameTag::Custom("my tag".into()),
        ] {
            for sql in samples {
                let once = tagger.ensure_name_tag(sql, &tag);
                let twice = tagger.ensure_name_tag(&once, &tag);
                assert_eq!(once, twice, "for {sql:?}");
                assert!(has_name_tag(&once));
            }
        }
    }
}

#[test]
fn a_tag_that_names_nothing_is_put_again() {
    let tagger = NameTagger { style: NameTagStyle::Exact };
    let tag = NameTag::Custom(String::new());
    let once = tagger.ensure_name_tag("SELECT 1;", &tag);
    assert_eq!("-- name: \nSELECT 1;", once);
    assert!(!has_name_tag(&once));
    assert_eq!("-- name: \n-- name: \nSELECT 1;", tagger.ensure_name_tag(&once, &tag));
}

#[test]
fn tags_follow_their_style() {
    assert_eq!("a_b_c_d_e_f_g", NameTagStyle::SnakeCase.make_tag("a_b-c@d+e&f*g"));
    assert_eq!("a-b-c-d-e-f-g", NameTagStyle::KebabCase.make_tag("a_b-c@d+e&f*g"));
    assert_eq!("a_b-c@d+e&f*g", NameTagStyle::Exact.make_tag("a_b-c@d+e&f*g"));
    assert_eq!("a_b-c-d-e-f-g", slugify_id("a_b-c@d+e&f*g"));
    let tagger = NameTagger { style: NameTagStyle::KebabCase };
    assert_eq!("-- name: a-b", tagger.make_name_tag(&NameTag::DeriveFromId("a@b".into())));
    assert_eq!("-- name: a@b", tagger.make_name_tag(&NameTag::Custom("a@b".into())));
    assert!(has_name_tag("--name:x\nSELECT"));
    assert!(has_name_tag("-- c\n--   name:   long_name\nSELECT"));
    assert!(!has_name_tag("SELECT\n-- name: x"));
    assert!(!has_name_tag("-- name:\nSELECT"));
    assert!(!has_name_tag(""));
}

#[test]
fn a_combined_file_reads_back_query_by_query() {
    let tagger = NameTagger { style: NameTagStyle::Exact };
    let qs = queries(vec!["q1", "q2"], "all.sql");
    let content = "-- name: q1\nSELECT 1;\n\n-- name: q2\nSELECT 2;\n";
    let store = parse_combined_sql(content, &tagger, false, &qs);
    assert_eq!(
        vec![
            ("q1".to_string(), "-- name: q1\nSELECT 1;".to_string()),
            ("q2".to_string(), "-- name: q2\nSELECT 2;".to_string()),
        ],
        as_pairs(&store)
    );
    let store = parse_combined_sql(content, &tagger, true, &qs);
    assert_eq!(
        vec![
            ("q1".to_string(), "-- name: q1\nSELECT 1;\n".to_string()),
            ("q2".to_string(), "-- name: q2\nSELECT 2;\n".to_string()),
        ],
        as_pairs(&store)
    );
}

#[test]
fn lines_of_no_query_are_dropped() {
    let tagger = NameTagger { style: NameTagStyle::Exact };
    let qs = queries(vec!["q1", "q2"], "all.sql");
    let content = "stray\n\n-- name: q9\nSELECT 9;\n-- name: q1\nSELECT\n  1;\n-- name: q1\nSELECT 11;\n";
    let store = parse_combined_sql(content, &tagger, false, &qs);
    assert_eq!(
        vec![("q1".to_string(), "-- name: q1\nSELECT 11;".to_string())],
        as_pairs(&store)
    );
    assert_eq!(0, parse_combined_sql("", &tagger, true, &qs).len());
}

#[test]
fn combined_output_keeps_the_order_of_the_queries() {
    let tagger = NameTagger { style: NameTagStyle::SnakeCase };
    let t1 = NameTag::DeriveFromId("first-one".into());
    let t2 = NameTag::DeriveFromId("second".into());
    let files = vec![
        SqlToWrite { path: "all.sql", sql: "SELECT 1;".into(), name_tag: Some(&t1) },
        SqlToWrite { path: "all.sql", sql: "-- name: kept\nSELECT 2;".into(), name_tag: Some(&t2) },
        SqlToWrite { path: "all.sql", sql: "SELECT 3;".into(), name_tag: None },
    ];
    let (path, content) = write_combined(&files, Some(&tagger));
    assert_eq!("all.sql", path);
    assert_eq!(
        "-- name: first_one\nSELECT 1;\n\n-- name: kept\nSELECT 2;\n\nSELECT 3;\n\n",
        content
    );
    let (_, content) = write_combined(&files, None);
    assert_eq!("SELECT 1;\n\n-- name: kept\nSELECT 2;\n\nSELECT 3;\n\n", content);
    let each = write_separately(&files, Some(&tagger));
    assert_eq!(3, each.len());
    assert_eq!(("all.sql", "-- name: first_one\nSELECT 1;".to_string()), each[0]);
    assert_eq!(("all.sql", "SELECT 3;".to_string()), each[2]);
}

#[test]
fn what_is_written_combined_reads_back_the_same() {
    let tagger = NameTagger { style: NameTagStyle::KebabCase };
    let qs = queries(vec!["a", "b"], "all.sql");
    let files: Vec<SqlToWrite> = qs
        .iter()
        .map(|q| SqlToWrite {
            path: "all.sql",
            sql: format!("SELECT '{}';", q.id),
            name_tag: Some(&q.name_tag),
        })
        .collect();
    let (_, content) = write_combined(&files, Some(&tagger));
    let store = parse_combined_sql(&content, &tagger, false, &qs);
    assert_eq!("-- name: a\nSELECT 'a';", store.get("a").unwrap());
    assert_eq!("-- name: b\nSELECT 'b';", store.get("b").unwrap());
}

#[test]
fn status_has_three_states() {
    let files = b"SELECT 1;".to_vec();
    assert_eq!(Status::Added, testfile_status(None, None, "SELECT 1;"));
    assert_eq!(Status::Unchanged, testfile_status(Some(&files), None, "SELECT 1;"));
    assert_eq!(Status::Modified, testfile_status(Some(&files), None, "SELECT 2;"));
    let formatted = b"SELECT\n  1;\n".to_vec();
    assert_eq!(Status::Modified, testfile_status(Some(&files), Some(&formatted), "SELECT 1;"));
    assert_eq!(Status::Unchanged, testfile_status(Some(&formatted), Some(&formatted), "x"));
    assert_eq!("added", Status::Added.label());
    assert_eq!("modified", Status::Modified.label());
    assert_eq!("unchanged", Status::Unchanged.label());
    assert_eq!("a\n", ensure_trailing_newline("a"));
    assert_eq!("a\n", ensure_trailing_newline("a\n"));
    assert_eq!("\n", ensure_trailing_newline(""));
}

#[test]
fn query_status_reads_each_query_from_its_own_file() {
    let mut m = Metadata::default();
    m.queries = queries(vec!["q1"], "out/q1.sql");
    let reader = QueryOutputReader::new(&m, None).unwrap();
    let q = m.queries.get("q1").unwrap();
    assert_eq!(Status::Added, query_status(q, &reader, None, None, "SELECT 1;").unwrap());
    assert_eq!(
        Status::Unchanged,
        query_status(q, &reader, Some(b"SELECT 1;\n".to_vec()), None, "SELECT 1;").unwrap()
    );
    assert_eq!(
        Status::Modified,
        query_status(q, &reader, Some(b"SELECT 1;".to_vec()), None, "SELECT 1;").unwrap()
    );
    let formatted = b"SELECT\n    1;".to_vec();
    assert_eq!(
        Status::Unchanged,
        query_status(q, &reader, Some(formatted.clone()), Some(&formatted), "SELECT 1;").unwrap()
    );
    assert!(matches!(reader.has_output("nobody", true), Err(Error::UndefinedQuery(_))));
    match reader.read("q1", None) {
        Err(e @ Error::QueryOutputParsing(_)) => assert_eq!(
            "Error reading query output: Query output file not found: out/q1.sql",
            e.message()
        ),
        other => panic!("{other:?}"),
    }
}

#[test]
fn query_status_reads_all_queries_from_the_combined_file() {
    let mut m = Metadata::default();
    m.query_output_layout = Layout::OneFileAllQueries(Some("out/all.sql".into()));
    m.name_tagger = Some(NameTagger { style: NameTagStyle::Exact });
    m.formatter = Some(Formatter::SqlFormatRs(SqlFormat::default()));
    m.queries = queries(vec!["q1", "q2", "q3"], "out/all.sql");
    let content = "-- name: q1\nSELECT 1;\n\n-- name: q2\nSELECT 2;\n";
    let reader = QueryOutputReader::new(&m, Some(content)).unwrap();
    let q1 = m.queries.get("q1").unwrap();
    let q2 = m.queries.get("q2").unwrap();
    let q3 = m.queries.get("q3").unwrap();
    let f1 = b"-- name: q1\nSELECT 1;\n".to_vec();
    let f2 = b"-- name: q2\nSELECT 22;\n".to_vec();
    let f3 = b"SELECT 3;\n".to_vec();
    assert_eq!(Status::Unchanged, query_status(q1, &reader, None, Some(&f1), "x").unwrap());
    assert_eq!(Status::Modified, query_status(q2, &reader, None, Some(&f2), "x").unwrap());
    assert_eq!(Status::Added, query_status(q3, &reader, None, Some(&f3), "x").unwrap());
    assert_eq!(f1, reader.read("q1", None).unwrap());
    assert!(reader.read("q3", None).is_err());
    assert_eq!(Ok(true), reader.has_output("q2", false).map_err(|e| e.message()));
    assert_eq!(Ok(false), reader.has_output("q3", true).map_err(|e| e.message()));

    let absent = QueryOutputReader::new(&m, None).unwrap();
    assert_eq!(Status::Added, query_status(q1, &absent, None, Some(&f1), "x").unwrap());

    m.name_tagger = None;
    match QueryOutputReader::new(&m, Some(content)) {
        Err(e @ Error::Layout(_)) => assert_eq!(
            "Layout error: name_tagger is required when layout = one-file-all-queries",
            e.message()
        ),
        other => panic!("{:?}", other.map(|_| ())),
    }
}

#[test]
fn without_a_formatter_a_stored_query_has_no_final_line_feed() {
    let mut m = Metadata::default();
    m.query_output_layout = Layout::OneFileAllQueries(Some("out/all.sql".into()));
    m.name_tagger = Some(NameTagger { style: NameTagStyle::Exact });
    m.queries = queries(vec!["q1"], "out/all.sql");
    let content = "-- name: q1\nSELECT 1;\n";
    let reader = QueryOutputReader::new(&m, Some(content)).unwrap();
    let q1 = m.queries.get("q1").unwrap();
    assert_eq!(b"-- name: q1\nSELECT 1;".to_vec(), reader.read("q1", None).unwrap());
    // The text expected ends in a line feed, the text stored does not.
    assert_eq!(
        Status::Modified,
        query_status(q1, &reader, None, None, "-- name: q1\nSELECT 1;").unwrap()
    );
}

#[test]
fn a_tag_is_put_before_a_text_that_has_none() {
    assert_eq!("-- name: q\nSELECT 1;", put_tag("SELECT 1;".into(), false, "-- name: q"));
    assert_eq!("SELECT 1;", put_tag("SELECT 1;".into(), true, "-- name: q"));
    assert_eq!("-- name: q\n", put_tag(String::new(), false, "-- name: q"));
}
