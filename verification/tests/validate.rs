use std::path::Path;
use tapestry::formatters::pg_format::pg_format_args;
use tapestry::formatters::sql_formatter::sql_formatter_args;
use tapestry::metadata::{Metadata, Warning};
use tapestry::output::Layout;
use tapestry::query::{Queries, Query};
use tapestry::query_template::{QueryTemplate, QueryTemplates};
use tapestry::tagging::NameTag;
use tapestry::test_template::{TestTemplate, TestTemplates};
use tapestry::util::is_backup_file;
use tapestry::validation::{validate_path, ManifestMistake};

fn strset(xs: Vec<&str>) -> Vec<String> {
    xs.iter().map(|s| String::from(*s)).collect()
}

fn setup_query_templates(data: Vec<(&str, Vec<&str>)>) -> QueryTemplates {
    let mut qts = QueryTemplates::new();
    for (p, ac) in data {
        qts.push(QueryTemplate { path: String::from(p), all_conds: strset(ac) });
    }
    qts
}

fn setup_queries(data: Vec<(&str, &str, Vec<&str>, &str, Option<&str>)>) -> Queries {
    let mut qs = Queries::new();
    for (id, template, conds, output, name_tag) in data {
        let name_tag = name_tag.map_or_else(
            || NameTag::DeriveFromId(String::from(id)),
            |s| NameTag::Custom(String::from(s)),
        );
        qs.push(Query {
            id: String::from(id),
            template: String::from(template),
            conds: strset(conds),
            output: String::from(output),
            name_tag,
        });
    }
    qs
}

#[test]
fn test_queries_validate() {
    let qts = setup_query_templates(vec![
        (
            "examples/chinook/templates/queries/artists_long_songs.sql.j2",
            vec!["genre", "limit"],
        ),
        (
            "examples/chinook/templates/queries/songs_formats.sql.j2",
            vec!["artist", "file_format", "album_name"],
        ),
    ]);

    // When everything is fine
    let qs_good = setup_queries(vec![
        (
            "artists_long_songs",
            "examples/chinook/templates/queries/artists_long_songs.sql.j2",
            vec![],
            "examples/chinook/output/queries/artists_long_songs.sql",
            None,
        ),
        (
            "songs_formats",
            "examples/chinook/templates/queries/songs_formats.sql.j2",
            vec!["artist", "album_name"],
            "examples/chinook/output/queries/song_formats.sql",
            None,
        ),
    ]);
    let layout = Layout::OneFileOneQuery;
    let mistakes = qs_good.validate(&qts, &layout);
    assert!(mistakes.is_empty());

    // When one of the queries is invalid
    let qs = setup_queries(vec![
        (
            "artists_long_songs",
            "examples/chinook/templates/queries/artists_long_songs.sql.j2",
            vec![],
            "examples/chinook/output/queries/artists_long_songs.sql",
            None,
        ),
        (
            "songs_formats",
            "examples/chinook/templates/queries/undefined.sql.j2",
            vec!["artist", "album_name"],
            "examples/chinook/output/queries/song_formats.sql",
            None,
        ),
    ]);
    let mistakes = qs.validate(&qts, &layout);
    assert_eq!(1, mistakes.len());
    match &mistakes[0] {
        ManifestMistake::QueryTemplateRefNotFound { query_id, template } => {
            assert_eq!("songs_formats", *query_id);
            assert_eq!(
                "examples/chinook/templates/queries/undefined.sql.j2",
                *template
            );
        }
        _ => assert!(false),
    }

    // When 'queries[].id' are not unique
    let qs = setup_queries(vec![
        (
            "artists_long_songs",
            "examples/chinook/templates/queries/artists_long_songs.sql.j2",
            vec![],
            "examples/chinook/output/queries/artists_long_songs.sql",
            None,
        ),
        (
            "artists_long_songs",
            "examples/chinook/templates/queries/songs_formats.sql.j2",
            vec!["artist", "album_name"],
            "examples/chinook/output/queries/song_formats.sql",
            None,
        ),
    ]);
    let mistakes = qs.validate(&qts, &layout);
    assert_eq!(1, mistakes.len());
    match &mistakes[0] {
        ManifestMistake::Duplicates { key, value } => {
            assert_eq!("queries[].id", *key);
            assert_eq!("artists_long_songs", *value);
        }
        _ => assert!(false),
    }

    // When layout = OneFileOneQuery and 'queries[].output' are
    // not unique
    let qs = setup_queries(vec![
        (
            "artists_long_songs",
            "examples/chinook/templates/queries/artists_long_songs.sql.j2",
            vec![],
            "examples/chinook/output/queries/artists_long_songs.sql",
            None,
        ),
        (
            "song_formats",
            "examples/chinook/templates/queries/songs_formats.sql.j2",
            vec!["artist", "album_name"],
            "examples/chinook/output/queries/artists_long_songs.sql",
            None,
        ),
    ]);
    let mistakes = qs.validate(&qts, &layout);
    assert_eq!(1, mistakes.len());
    match &mistakes[0] {
        ManifestMistake::Duplicates { key, value } => {
            assert_eq!("queries[].output", *key);
            assert_eq!(
                "examples/chinook/output/queries/artists_long_songs.sql",
                *value
            );
        }
        _ => assert!(false),
    }

    // When layout = OneFileAllQueries(None) and 'queries[].output' are
    // not the same
    let layout = Layout::OneFileAllQueries(None);
    let mistakes = qs_good.validate(&qts, &layout);
    assert_eq!(1, mistakes.len());
    match &mistakes[0] {
        ManifestMistake::DisparateQueryOutputs => {
            assert!(true);
        }
        _ => assert!(false),
    }

    // When layout = OneFileAllQueries(Some(qof)) and 'queries[].output' are
    // not the same as qof ('query_output_file' in manifest)

    let qs = setup_queries(vec![
        (
            "artists_long_songs",
            "examples/chinook/templates/queries/artists_long_songs.sql.j2",
            vec![],
            "examples/chinook/output/queries.sql",
            None,
        ),
        (
            "songs_formats",
            "examples/chinook/templates/queries/songs_formats.sql.j2",
            vec!["artist", "album_name"],
            "examples/chinook/output/queries/song_formats.sql",
            None,
        ),
    ]);
    let layout =
        Layout::OneFileAllQueries(Some(String::from("examples/chinook/output/queries.sql")));
    let mistakes = qs.validate(&qts, &layout);
    assert_eq!(1, mistakes.len());
    match &mistakes[0] {
        ManifestMistake::InvalidQueryOutput {
            query_id,
            output_path,
        } => {
            assert_eq!("songs_formats", *query_id);
            assert_eq!(
                Path::new("examples/chinook/output/queries/song_formats.sql"),
                Path::new(output_path)
            );
        }
        _ => assert!(false),
    }
}

#[test]
fn test_validation_duplicates() {
    let qts = setup_query_templates(vec![
        (
            "examples/chinook/templates/queries/artists_long_songs.sql.j2",
            vec!["genre", "limit"],
        ),
        (
            "examples/chinook/templates/queries/songs_formats.sql.j2",
            vec!["genre", "limit"],
        ),
        (
            "examples/chinook/templates/queries/artists_long_songs.sql.j2",
            vec!["limit"],
        ),
    ]);
    let existing = strset(vec![
        "examples/chinook/templates/queries/artists_long_songs.sql.j2",
        "examples/chinook/templates/queries/songs_formats.sql.j2",
    ]);

    let mistakes = qts.validate(&existing);
    assert_eq!(1, mistakes.len());
    match &mistakes[0] {
        ManifestMistake::Duplicates { key, value } => {
            assert_eq!("query_templates[].path", *key);
            assert_eq!(
                "examples/chinook/templates/queries/artists_long_songs.sql.j2",
                *value
            );
        }
        _ => assert!(false),
    }
}

#[test]
fn conditions_outside_the_template_are_cited() {
    let qts = setup_query_templates(vec![("t.sql.j2", vec!["genre", "limit"])]);
    let qs = setup_queries(vec![("q", "t.sql.j2", vec!["genre", "bogus"], "q.sql", None)]);
    let layout = Layout::OneFileOneQuery;
    let mistakes = qs.validate(&qts, &layout);
    assert_eq!(1, mistakes.len());
    match &mistakes[0] {
        ManifestMistake::InvalidConds { query_id, conds } => {
            assert_eq!("q", *query_id);
            assert_eq!(&vec!["bogus"], conds);
        }
        _ => assert!(false),
    }
    assert_eq!(
        "Invalid 'conds': [\"bogus\"] defined for query: 'q'",
        mistakes[0].err_msg()
    );
    let qs = setup_queries(vec![("q", "t.sql.j2", vec!["limit", "genre"], "q.sql", None)]);
    assert!(qs.validate(&qts, &layout).is_empty());
}

#[test]
fn a_value_shared_by_three_is_reported_once() {
    let qts = setup_query_templates(vec![("t.sql.j2", vec![])]);
    let qs = setup_queries(vec![
        ("a", "t.sql.j2", vec![], "1.sql", None),
        ("b", "t.sql.j2", vec![], "2.sql", None),
        ("a", "t.sql.j2", vec![], "3.sql", None),
        ("b", "t.sql.j2", vec![], "4.sql", None),
        ("a", "t.sql.j2", vec![], "5.sql", None),
    ]);
    let layout = Layout::OneFileOneQuery;
    let mistakes = qs.validate(&qts, &layout);
    let found: Vec<String> = mistakes.iter().map(|m| m.err_msg()).collect();
    assert_eq!(
        vec![
            "Duplicates found; key: 'queries[].id', value: 'a'".to_string(),
            "Duplicates found; key: 'queries[].id', value: 'b'".to_string(),
        ],
        found
    );
}

#[test]
fn every_query_off_the_combined_file_is_named() {
    let qts = setup_query_templates(vec![("t.sql.j2", vec![])]);
    let qs = setup_queries(vec![
        ("a", "t.sql.j2", vec![], "other.sql", None),
        ("b", "t.sql.j2", vec![], "all.sql", None),
        ("c", "t.sql.j2", vec![], "other.sql", None),
    ]);
    let layout = Layout::OneFileAllQueries(Some(String::from("all.sql")));
    let mistakes = qs.validate(&qts, &layout);
    let found: Vec<String> = mistakes.iter().map(|m| m.err_msg()).collect();
    assert_eq!(
        vec![
            "Query output for 'a' is other.sql; Expected to be same as 'query_output_file' when layout = one-file-all-queries".to_string(),
            "Query output for 'c' is other.sql; Expected to be same as 'query_output_file' when layout = one-file-all-queries".to_string(),
        ],
        found
    );
    // All outputs agree with one another, and none with the file named.
    let qs = setup_queries(vec![
        ("a", "t.sql.j2", vec![], "other.sql", None),
        ("b", "t.sql.j2", vec![], "other.sql", None),
    ]);
    assert_eq!(2, qs.validate(&qts, &layout).len());
    let none = Layout::OneFileAllQueries(None);
    assert!(qs.validate(&qts, &none).is_empty());
}

#[test]
fn test_templates_are_checked_against_queries_and_files() {
    let qs = setup_queries(vec![("q", "t.sql.j2", vec![], "q.sql", None)]);
    let mut tts = TestTemplates::new();
    tts.push(TestTemplate {
        query: "q".into(),
        path: "tests/a.sql.j2".into(),
        output: "out/a.sql".into(),
    });
    tts.push(TestTemplate {
        query: "missing".into(),
        path: "tests/b.sql.j2".into(),
        output: "out/a.sql".into(),
    });
    let existing = strset(vec!["tests/a.sql.j2"]);
    let found: Vec<String> = tts.validate(&qs, &existing).iter().map(|m| m.err_msg()).collect();
    assert_eq!(
        vec![
            "Test template 'tests/b.sql.j2' refers to unknown query 'missing'".to_string(),
            "Path 'tests/b.sql.j2' does not exist; key: 'test_templates[].template'".to_string(),
            "Duplicates found; key: 'test_templates[].path', value: 'out/a.sql'".to_string(),
        ],
        found
    );
    assert_eq!("tests/a.sql.j2", tts.get("tests/a.sql.j2").unwrap().path);
    assert!(tts.get("tests/c.sql.j2").is_none());
    assert_eq!(Some("a.sql.j2".to_string()), tts.get("tests/a.sql.j2").unwrap().file_name());
}

#[test]
fn the_whole_manifest_is_validated_without_stopping() {
    let mut m = Metadata::default();
    m.queries_output_dir = String::from("/");
    m.tests_output_dir = String::from("templates/tests");
    m.query_templates = setup_query_templates(vec![("templates/queries/t.sql.j2", vec![])]);
    m.queries = setup_queries(vec![("q", "templates/queries/u.sql.j2", vec![], "q.sql", None)]);
    let existing = strset(vec!["templates/queries"]);
    let found: Vec<String> = m.validate(&existing).iter().map(|x| x.err_msg()).collect();
    assert_eq!(
        vec![
            "Path 'templates/tests' does not exist; key: 'test_templates_dir'".to_string(),
            "Invalid output dir path queries_output_dir = / (must not be root or empty)"
                .to_string(),
            "Values for all '*_dir' keys in the manifest file must be unique".to_string(),
            "Path 'templates/queries/t.sql.j2' does not exist; key: 'query_templates[].path'"
                .to_string(),
            "Query 'q' refers to unknown template: 'templates/queries/u.sql.j2'".to_string(),
        ],
        found
    );
    assert_eq!(
        vec!["templates/queries", "templates/tests", "templates/queries/t.sql.j2"],
        m.paths_to_check()
    );
    let good = Metadata::default();
    let existing = strset(vec!["templates/queries", "templates/tests"]);
    assert!(good.validate(&existing).is_empty());
}

#[test]
fn warnings_name_what_is_unused_and_what_is_undeclared() {
    let mut m = Metadata::default();
    m.query_templates = setup_query_templates(vec![("tq/a.j2", vec![]), ("tq/b.j2", vec![])]);
    m.queries = setup_queries(vec![("q", "tq/a.j2", vec![], "q.sql", None)]);
    m.query_output_layout = Layout::OneFileAllQueries(None);
    m.name_tagger = None;
    let qfiles = strset(vec!["tq/a.j2", "tq/c.j2"]);
    let tfiles = strset(vec!["tt/x.j2"]);
    let ws = m.warnings(&qfiles, &tfiles);
    assert_eq!(4, ws.len());
    assert!(matches!(ws[0], Warning::UnusedQueryTemplate("tq/b.j2")));
    assert!(matches!(ws[1], Warning::UndeclaredQueryTemplate("tq/c.j2")));
    assert!(matches!(ws[2], Warning::UndeclaredTestTemplate("tt/x.j2")));
    assert!(matches!(ws[3], Warning::NameTaggerRecommended));
    let texts: Vec<String> = ws.iter().map(|w| w.message()).collect();
    assert_eq!(
        vec![
            "Unused query template found in manifest: tq/b.j2".to_string(),
            "Did you miss defining query template in manifest? tq/c.j2".to_string(),
            "Did you miss defining test template in manifest? tt/x.j2".to_string(),
            "Name tagging is recommended in case of 'one-file-all-queries' layout".to_string(),
        ],
        texts
    );
    assert_eq!(Some("q.sql"), m.combined_output_file().unwrap());
    m.queries = setup_queries(vec![]);
    assert!(m.combined_output_file().is_err());
}

#[test]
fn mistakes_have_their_messages() {
    assert!(validate_path("p", "k", true).is_ok());
    let m = validate_path("p", "k", false).unwrap_err();
    assert_eq!("Path 'p' does not exist; key: 'k'", m.err_msg());
    assert_eq!(
        "Disparate query outputs found. All expected to be same as 'query_output_file' when layout = one-file-all-queries",
        ManifestMistake::DisparateQueryOutputs.err_msg()
    );
    assert_eq!(
        "Invalid 'conds': [\"a\\\"b\", \"c\"] defined for query: 'q'",
        ManifestMistake::InvalidConds { query_id: "q", conds: vec!["a\"b", "c"] }.err_msg()
    );
}

#[test]
fn test_is_backup_file() {
    assert!(is_backup_file("hello.sql~"));
    assert!(!is_backup_file("hello.sql"));
}

#[test]
fn pg_format_test_pg_format_args() {
    let args = pg_format_args(None);
    let expected = vec!["-M", "-p", "start\\(noformat\\).+end\\(noformat\\)", "-"];
    assert_eq!(
        expected
            .into_iter()
            .map(String::from)
            .collect::<Vec<String>>(),
        args
    );

    let conf_path = Path::new("./.pg_format/config");
    let args = pg_format_args(Some(conf_path.to_str().unwrap()));
    let expected = vec!["-c", "./.pg_format/config", "-"];
    assert_eq!(
        expected
            .into_iter()
            .map(String::from)
            .collect::<Vec<String>>(),
        args
    );
}

#[test]
fn sql_format_test_pg_format_args() {
    let args = pg_format_args(None);
    let expected = vec!["-M", "-p", "start\\(noformat\\).+end\\(noformat\\)", "-"];
    assert_eq!(expected.into_iter().map(String::from).collect::<Vec<String>>(), args);

    let conf_path = Path::new("./.pg_format/config");
    let args = pg_format_args(Some(conf_path.to_str().unwrap()));
    let expected = vec!["-c", "./.pg_format/config", "-"];
    assert_eq!(expected.into_iter().map(String::from).collect::<Vec<String>>(), args);
}

#[test]
fn sql_formatter_takes_its_configuration_file() {
    assert_eq!(vec!["-c".to_string(), "conf.json".to_string()], sql_formatter_args(Some("conf.json")));
    assert!(sql_formatter_args(None).is_empty());
}
