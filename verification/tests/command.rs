use tapestry::bindings::{Flags, Mapping};
use tapestry::command::{
    all_same_path, cov_threshold_parser, coverage_rows, has_tests_label, parse_number,
    query_files, render_all, render_tests_of, status, status_exit_code, summary_rows,
    summary_rows_with_files, untested_queries, validation_report, Checked, Subject,
};
use tapestry::error::Error;
use tapestry::output::{Layout, QueryOutputReader, SqlToWrite};
use tapestry::placeholder::Placeholder;
use tapestry::query_template::{QueryTemplate, QueryTemplates};
use tapestry::render::{Engine, TemplateSources};
use tapestry::scaffolding::{formatter_choices, formatter_config_path, FormatterChoice};
use tapestry::tagging::{NameTagStyle, NameTagger};
use tapestry::validation::ManifestMistake;
use tapestry::formatters::config::Configurable;
use tapestry::formatters::external::{check_command, format_command, ExternalFormatter};
use tapestry::formatters::pg_format::PgFormatter;
use tapestry::formatters::sql_formatter::SqlFormatter;
use tapestry::formatters::sqlfluff::SqlFluff;
use tapestry::formatters::sqlformat_rs::SqlFormat;
use tapestry::formatters::{discover_available_formatters, Formatter};
use tapestry::metadata::Metadata;
use tapestry::output::Status;
use tapestry::query::{Queries, Query};
use tapestry::tagging::NameTag;
use tapestry::test_template::{TestTemplate, TestTemplates};
use tapestry::config::{SerializableTomlTable, SerializableTomlTableLine, Value};

#[test]
fn thresholds_are_percentages() {
    assert_eq!(Ok(0), cov_threshold_parser("0"));
    assert_eq!(Ok(100), cov_threshold_parser("100"));
    assert_eq!(Ok(42), cov_threshold_parser("+42"));
    assert_eq!(Ok(7), cov_threshold_parser("007"));
    assert_eq!(Err("threshold not in range 0..100".to_string()), cov_threshold_parser("101"));
    assert_eq!(Err("threshold is not a number".to_string()), cov_threshold_parser("-1"));
    assert_eq!(Err("threshold is not a number".to_string()), cov_threshold_parser(""));
    assert_eq!(Err("threshold is not a number".to_string()), cov_threshold_parser("+"));
    assert_eq!(Err("threshold is not a number".to_string()), cov_threshold_parser("4 2"));
    assert_eq!(
        Err("threshold is not a number".to_string()),
        cov_threshold_parser("99999999999999999999999999")
    );
}

#[test]
fn numbers_parse_as_std_parses_them() {
    let big = usize::MAX.to_string();
    let bigger = format!("{}0", usize::MAX);
    for s in ["0", "12", "+12", "", "+", "-3", "1a", "++1", " 1", big.as_str(), bigger.as_str(), "18446744073709551616"] {
        assert_eq!(s.parse::<usize>().ok(), parse_number(s), "number {s:?}");
    }
}

#[test]
fn exit_code_tells_of_changes_only_when_asked() {
    let all_same = vec![("a.sql", Status::Unchanged), ("b.sql", Status::Unchanged)];
    let some_new = vec![("a.sql", Status::Unchanged), ("b.sql", Status::Added)];
    assert_eq!(0, status_exit_code(&all_same, true));
    assert_eq!(1, status_exit_code(&some_new, true));
    assert_eq!(1, status_exit_code(&vec![("a.sql", Status::Modified)], true));
    assert_eq!(0, status_exit_code(&some_new, false));
    assert_eq!(0, status_exit_code(&vec![], true));
}

#[test]
fn a_path_that_is_named_again_takes_its_latest_state() {
    let healed = vec![
        ("all.sql", Status::Modified),
        ("t.sql", Status::Unchanged),
        ("all.sql", Status::Unchanged),
    ];
    assert_eq!(0, status_exit_code(&healed, true));
    let broken = vec![
        ("all.sql", Status::Unchanged),
        ("t.sql", Status::Unchanged),
        ("all.sql", Status::Added),
    ];
    assert_eq!(1, status_exit_code(&broken, true));
}

#[test]
fn a_status_run_classifies_queries_and_tests() {
    let m = project(Placeholder::PosArgs);
    let reader = QueryOutputReader::new(&m, None).unwrap();
    let with = m.queries.get("with").unwrap();
    let without = m.queries.get("without").unwrap();
    let tt = m.test_templates.get("tt/w.sql.j2").unwrap();
    let outputs = vec![
        Checked {
            subject: Subject::Query(with),
            rendered: "SELECT 1;".into(),
            formatted: None,
            on_disk: Some(b"SELECT 1;\n".to_vec()),
        },
        Checked {
            subject: Subject::Test(tt),
            rendered: "SELECT 1".into(),
            formatted: None,
            on_disk: Some(b"SELECT 1\n".to_vec()),
        },
        Checked {
            subject: Subject::Query(without),
            rendered: "select 2".into(),
            formatted: Some(b"SELECT\n    2".to_vec()),
            on_disk: None,
        },
        Checked {
            subject: Subject::Test(tt),
            rendered: "select 2".into(),
            formatted: Some(b"SELECT\n    2".to_vec()),
            on_disk: Some(b"SELECT\n    2".to_vec()),
        },
    ];
    let stats = status(&reader, &outputs).unwrap();
    assert_eq!(
        vec![
            ("oq/with.sql", Status::Unchanged),
            ("ot/w.sql", Status::Modified),
            ("oq/without.sql", Status::Added),
            ("ot/w.sql", Status::Unchanged),
        ],
        stats
    );
    assert_eq!(1, status_exit_code(&stats, true));
    assert_eq!(0, status_exit_code(&stats[..1].to_vec(), true));
    assert_eq!(0, status_exit_code(&stats, false));

    let stranger = Query {
        id: "stranger".into(),
        template: "tq/t.sql.j2".into(),
        conds: vec![],
        output: "oq/stranger.sql".into(),
        name_tag: NameTag::DeriveFromId("stranger".into()),
    };
    let outputs = vec![Checked {
        subject: Subject::Query(&stranger),
        rendered: String::new(),
        formatted: None,
        on_disk: None,
    }];
    match status(&reader, &outputs) {
        Err(Error::UndefinedQuery(id)) => assert_eq!("stranger", id),
        other => panic!("{other:?}"),
    }
    assert_eq!(Ok(vec![]), status(&reader, &vec![]).map_err(|e| e.message()));
}

#[test]
fn summary_and_coverage_follow_the_queries() {
    let mut m = Metadata::default();
    let mut qs = Queries::new();
    for id in ["a", "b"] {
        qs.push(Query {
            id: id.into(),
            template: format!("t/{id}.j2"),
            conds: vec![],
            output: format!("o/{id}.sql"),
            name_tag: NameTag::DeriveFromId(id.into()),
        });
    }
    m.queries = qs;
    let mut tts = TestTemplates::new();
    for (q, n) in [("a", "1"), ("a", "2")] {
        tts.push(TestTemplate {
            query: q.into(),
            path: format!("tt/{n}.j2"),
            output: format!("ot/{n}.sql"),
        });
    }
    m.test_templates = tts;
    assert_eq!(vec!["b"], untested_queries(&m));
    assert_eq!(
        vec![
            vec!["a".to_string(), "o/a.sql".to_string(), "t/a.j2".to_string(), "ot/1.sql\not/2.sql".to_string()],
            vec!["b".to_string(), "o/b.sql".to_string(), "t/b.j2".to_string(), String::new()],
        ],
        summary_rows(&m)
    );
    assert_eq!("No", has_tests_label(0));
    assert_eq!("Yes (2)", has_tests_label(2));
    assert_eq!("Yes (12)", has_tests_label(12));
}

#[test]
fn formatters_decode_and_say_how_they_are_called() {
    let pg = Value::Table(vec![(
        "pgFormatter".to_string(),
        Value::Table(vec![
            ("exec_path".to_string(), Value::String("/usr/bin/pg_format".into())),
            ("conf_path".to_string(), Value::String("conf".into())),
        ]),
    )]);
    let f = Formatter::decode(&pg).unwrap().unwrap();
    assert_eq!(Some("/usr/bin/pg_format"), f.executable());
    let cmd = f.command().unwrap();
    assert_eq!("/usr/bin/pg_format", cmd.program);
    assert_eq!(vec!["-c".to_string(), "conf".to_string(), "-".to_string()], cmd.args);
    assert!(f.format("select 1").is_none());

    let fluff = Value::Table(vec![(
        "sqlfluff".to_string(),
        Value::Table(vec![("exec_path".to_string(), Value::String("sqlfluff".into()))]),
    )]);
    let f = Formatter::decode(&fluff).unwrap().unwrap();
    assert_eq!(
        vec!["format".to_string(), "--dialect".to_string(), "postgres".to_string(), "-".to_string()],
        f.command().unwrap().args
    );

    let missing = Value::Table(vec![("pgFormatter".to_string(), Value::Table(vec![]))]);
    match Formatter::decode(&missing) {
        Err(tapestry::error::Error::Parsing(m)) => {
            assert_eq!("Missing 'exec_path' in 'formatter.pgFormatter", m)
        }
        _ => assert!(false),
    }
    let wrong = Value::Table(vec![("sqlfluff".to_string(), Value::Integer(1))]);
    match Formatter::decode(&wrong) {
        Err(tapestry::error::Error::Parsing(m)) => {
            assert_eq!("Value of 'formatter.sqlfluff' must be a toml table", m)
        }
        _ => assert!(false),
    }
    assert!(Formatter::decode(&Value::Table(vec![])).unwrap().is_none());
    assert!(Formatter::decode(&Value::Integer(1)).unwrap().is_none());

    assert_eq!(vec!["-v".to_string()], PgFormatter::candidate().check_args());
    assert_eq!(vec!["--version".to_string()], SqlFluff::candidate().check_args());
    assert_eq!(vec!["--version".to_string()], SqlFormatter::candidate().check_args());
    assert_eq!(Some("./.sql-formatter/config.json"), SqlFormatter::candidate().config_file());
    assert_eq!(None, SqlFluff::candidate().config_file());
    assert_eq!(None, SqlFormat::default().config_file());
    assert_eq!(None, PgFormatter::candidate().config_file());
    assert_eq!(Some("./.pg_format/config"), PgFormatter::new_if_exists(true).unwrap().config_file());
    assert!(PgFormatter::new_if_exists(false).is_none());
    assert!(Formatter::discover(false).is_none());
    match Formatter::discover(true) {
        Some(Formatter::PgFormatter(p)) => {
            assert_eq!("pg_format", p.exec_path);
            assert_eq!(Some("./.pg_format/config".to_string()), p.conf_path);
        }
        other => panic!("{other:?}"),
    }
    let fluff = SqlFluff::candidate();
    let cmd = check_command(&fluff);
    assert_eq!("sqlfluff", cmd.program);
    assert_eq!(vec!["--version".to_string()], cmd.args);
    let sqlf = SqlFormatter::candidate();
    let cmd = format_command(&sqlf);
    assert_eq!("sql-formatter", cmd.program);
    assert_eq!(vec!["-c".to_string(), "./.sql-formatter/config.json".to_string()], cmd.args);
    assert!(PgFormatter::discover(false).is_none());
    assert_eq!("pg_format", PgFormatter::discover(true).unwrap().exec_path);
    assert!(SqlFluff::discover(false).is_none());
    assert!(SqlFormatter::discover(true).is_some());
    assert_eq!(1, discover_available_formatters(false, false).len());
    let all = discover_available_formatters(true, true);
    assert!(matches!(all[0], Formatter::SqlFormatRs(_)));
    assert!(matches!(all[1], Formatter::PgFormatter(_)));
    assert!(matches!(all[2], Formatter::SqlFluff(_)));
}

#[test]
fn the_built_in_formatter_formats() {
    let f = SqlFormat::default();
    assert_eq!(4, f.indent);
    let out = String::from_utf8(f.format("select a from t where b = 1")).unwrap();
    assert_eq!("SELECT\n    a\nFROM\n    t\nWHERE\n    b = 1", out);
    let narrow = SqlFormat { indent: 2, uppercase: false, lines_between_queries: 1 };
    let out = String::from_utf8(narrow.format("select a from t")).unwrap();
    assert_eq!("select\n  a\nfrom\n  t", out);
    let via = Formatter::SqlFormatRs(f).format("select 1").unwrap();
    assert_eq!(b"SELECT\n    1".to_vec(), via);

    let options = Value::Table(vec![
        ("indent".to_string(), Value::Integer(258)),
        ("uppercase".to_string(), Value::String("no".into())),
        ("lines_between_queries".to_string(), Value::Integer(-1)),
    ]);
    let f = SqlFormat::try_from(&options).unwrap();
    assert_eq!(258_i64 as u8, f.indent);
    assert!(f.uppercase);
    assert_eq!(-1_i64 as u8, f.lines_between_queries);
    assert!(SqlFormat::try_from(&Value::Integer(0)).is_err());
}

#[test]
fn manifest_sections_list_their_lines() {
    let mut t = SerializableTomlTable::new("formatter.x");
    t.push_comment("a comment");
    t.push_entry_string("k", "v");
    t.push_entry_i64("n", 4);
    t.push_entry_bool("b", true);
    assert_eq!("formatter.x", t.key_path);
    assert_eq!(4, t.lines.len());
    assert!(matches!(&t.lines[0], SerializableTomlTableLine::Comment(m) if m == "a comment"));
    assert!(matches!(&t.lines[1], SerializableTomlTableLine::Entry(k, Value::String(v)) if k == "k" && v == "v"));
    assert!(matches!(&t.lines[2], SerializableTomlTableLine::Entry(k, Value::Integer(4)) if k == "n"));
    assert!(matches!(&t.lines[3], SerializableTomlTableLine::Entry(k, Value::Boolean(true)) if k == "b"));
    let pg = PgFormatter::new("pg_format".into(), Some("c".into())).to_toml_table();
    assert_eq!("formatter.pgFormatter", pg.key_path);
    assert_eq!(4, pg.lines.len());
    assert_eq!(6, SqlFormat::default().to_toml_table().lines.len());
}

fn project(style: Placeholder) -> Metadata {
    let mut m = Metadata::default();
    m.placeholder = style;
    let mut qts = QueryTemplates::new();
    qts.push(QueryTemplate { path: "tq/t.sql.j2".into(), all_conds: vec!["a".into()] });
    m.query_templates = qts;
    let mut qs = Queries::new();
    for (id, conds) in [("with", vec!["a".to_string()]), ("without", vec![])] {
        qs.push(Query {
            id: id.into(),
            template: "tq/t.sql.j2".into(),
            conds,
            output: format!("oq/{id}.sql"),
            name_tag: NameTag::DeriveFromId(id.into()),
        });
    }
    m.queries = qs;
    let mut tts = TestTemplates::new();
    for (q, n) in [("without", "w"), ("with", "x"), ("without", "y")] {
        tts.push(TestTemplate {
            query: q.into(),
            path: format!("tt/{n}.sql.j2"),
            output: format!("ot/{n}.sql"),
        });
    }
    m.test_templates = tts;
    m
}

fn sources() -> (TemplateSources, TemplateSources) {
    let mut q = TemplateSources::new();
    q.push("t.sql.j2", "SELECT 1{% if cond__a %} WHERE a = {{ placeholder('a') }}{% endif %};");
    let mut t = TemplateSources::new();
    for n in ["w", "x", "y"] {
        t.push(&format!("{n}.sql.j2"), &format!("-- {n}\n{{{{ prepared_statement }}}}"));
    }
    (q, t)
}

#[test]
fn a_run_renders_each_query_and_then_its_tests() {
    let m = project(Placeholder::PosArgs);
    let (q, t) = sources();
    let engine = Engine::new(&m, q, t);
    let (queries, tests) = render_all(&engine).unwrap();
    let found: Vec<(&str, &str, bool)> =
        queries.iter().map(|f| (f.path, f.sql.as_str(), f.name_tag.is_some())).collect();
    assert_eq!(
        vec![
            ("oq/with.sql", "SELECT 1 WHERE a = $1;", true),
            ("oq/without.sql", "SELECT 1;", true),
        ],
        found
    );
    let found: Vec<(&str, &str, bool)> =
        tests.iter().map(|f| (f.path, f.sql.as_str(), f.name_tag.is_some())).collect();
    assert_eq!(
        vec![
            ("ot/x.sql", "-- x\nSELECT 1 WHERE a = $1", false),
            ("ot/w.sql", "-- w\nSELECT 1", false),
            ("ot/y.sql", "-- y\nSELECT 1", false),
        ],
        found
    );
}

#[test]
fn tests_see_positional_placeholders_whatever_the_style() {
    let m = project(Placeholder::Variables);
    let (q, t) = sources();
    let engine = Engine::new(&m, q, t);
    let (queries, tests) = render_all(&engine).unwrap();
    assert_eq!("SELECT 1 WHERE a = :a;", queries[0].sql);
    assert_eq!("-- x\nSELECT 1 WHERE a = $1", tests[0].sql);
    let of_with = render_tests_of(&engine, m.queries.get("with").unwrap(), "ignored").unwrap();
    assert_eq!(1, of_with.len());
    assert_eq!("-- x\nSELECT 1 WHERE a = $1", of_with[0].sql);
    let m = project(Placeholder::PosArgs);
    let (q, t) = sources();
    let engine = Engine::new(&m, q, t);
    let of_with = render_tests_of(&engine, m.queries.get("with").unwrap(), "SELECT 9;").unwrap();
    assert_eq!("-- x\nSELECT 9", of_with[0].sql);
}

#[test]
fn a_run_ends_at_the_first_rendering_that_fails() {
    let m = project(Placeholder::PosArgs);
    let (q, mut t) = sources();
    t.push("x.sql.j2", "unused");
    let mut broken = TemplateSources::new();
    broken.push("w.sql.j2", "{{ prepared_statement }}");
    broken.push("x.sql.j2", "{% if %}");
    let engine = Engine::new(&m, q, broken);
    assert!(matches!(render_all(&engine), Err(Error::MiniJinja(_))));
    let mut m = project(Placeholder::PosArgs);
    m.query_templates = QueryTemplates::new();
    let (q, t) = sources();
    let engine = Engine::new(&m, q, t);
    match render_all(&engine) {
        Err(Error::UndefinedQueryTemplate(name)) => assert_eq!("t.sql.j2", name),
        other => panic!("{other:?}"),
    }
}

#[test]
fn the_layout_decides_the_files_of_the_queries() {
    let t1 = NameTag::DeriveFromId("q-1".into());
    let t2 = NameTag::Custom("second".into());
    let files = vec![
        SqlToWrite { path: "all.sql", sql: "SELECT 1;".into(), name_tag: Some(&t1) },
        SqlToWrite { path: "all.sql", sql: "SELECT 2;".into(), name_tag: Some(&t2) },
    ];
    let tagger = NameTagger { style: NameTagStyle::SnakeCase };
    let each = query_files(&Layout::OneFileOneQuery, &files, Some(&tagger)).unwrap();
    assert_eq!(
        vec![
            ("all.sql", "-- name: q_1\nSELECT 1;".to_string()),
            ("all.sql", "-- name: second\nSELECT 2;".to_string()),
        ],
        each
    );
    let one = query_files(&Layout::OneFileAllQueries(None), &files, Some(&tagger)).unwrap();
    assert_eq!(
        vec![("all.sql", "-- name: q_1\nSELECT 1;\n\n-- name: second\nSELECT 2;\n\n".to_string())],
        one
    );
    assert!(all_same_path(&files));
    let apart = vec![
        SqlToWrite { path: "a.sql", sql: "SELECT 1;".into(), name_tag: None },
        SqlToWrite { path: "b.sql", sql: "SELECT 2;".into(), name_tag: None },
    ];
    assert!(!all_same_path(&apart));
    assert!(all_same_path(&vec![]));
    assert!(query_files(&Layout::OneFileAllQueries(None), &apart, None).is_none());
    assert!(query_files(&Layout::OneFileAllQueries(None), &vec![], None).is_none());
    assert_eq!(Some(vec![]), query_files(&Layout::OneFileOneQuery, &vec![], None));
}

#[test]
fn the_summary_lists_files_that_the_manifest_does_not_define() {
    let m = project(Placeholder::PosArgs);
    let query_files = vec!["oq/with.sql".to_string(), "oq/by_hand.sql".to_string()];
    let test_files = vec!["ot/extra.sql".to_string(), "ot/w.sql".to_string()];
    let rows = summary_rows_with_files(&m, &query_files, &test_files);
    assert_eq!(4, rows.len());
    assert_eq!(summary_rows(&m), rows[..2].to_vec());
    assert_eq!(vec!["-", "oq/by_hand.sql\n(not defined in manifest)", "-", "-"], rows[2]);
    assert_eq!(vec!["-", "-", "-", "ot/extra.sql\n(not defined in manifest)"], rows[3]);
    assert_eq!(summary_rows(&m), summary_rows_with_files(&m, &vec![], &vec![]));
}

#[test]
fn the_coverage_table_counts_the_tests_of_each_query() {
    let mut m = project(Placeholder::PosArgs);
    assert_eq!(
        vec![
            vec!["with".to_string(), "Yes (1)".to_string()],
            vec!["without".to_string(), "Yes (2)".to_string()],
        ],
        coverage_rows(&m)
    );
    m.test_templates = TestTemplates::new();
    assert_eq!(
        vec![
            vec!["with".to_string(), "No".to_string()],
            vec!["without".to_string(), "No".to_string()],
        ],
        coverage_rows(&m)
    );
    assert_eq!(vec!["with", "without"], untested_queries(&m));
}

#[test]
fn a_validation_run_reports_each_mistake() {
    let (lines, code) = validation_report("tapestry.toml", &vec![]);
    assert_eq!(vec!["All Ok: Manifest file 'tapestry.toml' is valid".to_string()], lines);
    assert_eq!(0, code);
    let mistakes = vec![
        ManifestMistake::NonUniqueDirs,
        ManifestMistake::Duplicates { key: "queries[].id", value: "a" },
    ];
    let (lines, code) = validation_report("tapestry.toml", &mistakes);
    assert_eq!(
        vec![
            "Invalid manifest file: 'tapestry.toml'".to_string(),
            "Values for all '*_dir' keys in the manifest file must be unique".to_string(),
            "Duplicates found; key: 'queries[].id', value: 'a'".to_string(),
        ],
        lines
    );
    assert_eq!(1, code);
}

#[test]
fn choices_are_shown_under_their_labels() {
    assert_eq!(Some("None (no formatting)".to_string()), FormatterChoice::none().label());
    let built_in = FormatterChoice::new(Formatter::SqlFormatRs(SqlFormat::default()));
    assert_eq!(Some("sqlformat (built-in)".to_string()), built_in.label());
    let bare = FormatterChoice::new(Formatter::PgFormatter(PgFormatter::candidate()));
    assert_eq!(Some("pg_format".to_string()), bare.label());
    let rooted = FormatterChoice::new(Formatter::SqlFluff(SqlFluff {
        exec_path: "/usr/local/bin/sqlfluff".into(),
    }));
    assert_eq!(Some("sqlfluff (/usr/local/bin/sqlfluff)".to_string()), rooted.label());
    let relative = FormatterChoice::new(Formatter::SqlFluff(SqlFluff {
        exec_path: "bin/sqlfluff".into(),
    }));
    assert_eq!(Some("bin/sqlfluff".to_string()), relative.label());
    let root = FormatterChoice::new(Formatter::SqlFluff(SqlFluff { exec_path: "/".into() }));
    assert_eq!(None, root.label());

    let choices = formatter_choices(discover_available_formatters(true, true));
    let labels: Vec<Option<String>> = choices.iter().map(|c| c.label()).collect();
    assert_eq!(
        vec![
            Some("None (no formatting)".to_string()),
            Some("sqlformat (built-in)".to_string()),
            Some("pg_format".to_string()),
            Some("sqlfluff".to_string()),
        ],
        labels
    );
    assert_eq!(1, formatter_choices(vec![]).len());
}

#[test]
fn only_pg_formatter_brings_a_configuration_file() {
    let with = Formatter::PgFormatter(PgFormatter::new(
        "pg_format".into(),
        Some(".pg_format/config".into()),
    ));
    assert_eq!(
        Some(std::path::PathBuf::from("proj/.pg_format/config")),
        formatter_config_path("proj", Some(&with)).map(std::path::PathBuf::from)
    );
    let without = Formatter::PgFormatter(PgFormatter::candidate());
    assert_eq!(None, formatter_config_path("proj", Some(&without)));
    let fluff = Formatter::SqlFluff(SqlFluff::candidate());
    assert_eq!(None, formatter_config_path("proj", Some(&fluff)));
    assert_eq!(None, formatter_config_path("proj", None));
}

#[test]
fn a_name_that_is_inserted_again_keeps_its_place() {
    let mut m = Mapping::new();
    m.insert("a".into(), "1".into());
    m.insert("b".into(), "2".into());
    m.insert("a".into(), "3".into());
    assert_eq!(2, m.len());
    assert_eq!(Some(&"3".to_string()), m.get("a"));
    assert_eq!(Some(&"2".to_string()), m.get("b"));
    assert_eq!(Some(0), m.position("a"));
    assert!(m.contains_key("b"));
    assert!(!m.contains_key("c"));
    m.push("b".into(), "4".into());
    assert_eq!(3, m.len());
    assert_eq!(Some(&"4".to_string()), m.get("b"));
    m.set_value(1, "5".into());
    assert_eq!(Some(&"4".to_string()), m.get("b"));

    let mut f = Flags::new();
    f.insert("x".into(), true);
    f.insert("y".into(), false);
    f.insert("x".into(), false);
    assert_eq!(2, f.len());
    assert_eq!(Some(false), f.get("x"));
    assert_eq!(Some(false), f.get("y"));
    assert_eq!(None, f.get("z"));
    f.push("y".into(), true);
    assert_eq!(Some(true), f.get("y"));
}
