use tapestry::error::Error;
use tapestry::metadata::Metadata;
use tapestry::placeholder::Placeholder;
use tapestry::query::{Queries, Query};
use tapestry::query_template::{QueryTemplate, QueryTemplates};
use tapestry::render::{
    capture_udvars, cond_vars, names_among, number_names, placeholder, pos_args_mapping,
    render_placeholders, resolve_placeholders, strip_trailing_semicolon, variables_mapping,
    Engine, TemplateSources,
};
use tapestry::tagging::NameTag;
use tapestry::test_template::{TestTemplate, TestTemplates};

fn strset(xs: Vec<&str>) -> Vec<String> {
    xs.iter().map(|s| String::from(*s)).collect()
}

fn manifest(style: Placeholder) -> Metadata {
    let mut m = Metadata::default();
    m.placeholder = style;
    let mut qts = QueryTemplates::new();
    qts.push(QueryTemplate {
        path: "templates/queries/t.sql.j2".into(),
        all_conds: strset(vec!["active", "name"]),
    });
    m.query_templates = qts;
    let mut qs = Queries::new();
    qs.push(Query {
        id: "active_ones".into(),
        template: "templates/queries/t.sql.j2".into(),
        conds: strset(vec!["active"]),
        output: "output/queries/active_ones.sql".into(),
        name_tag: NameTag::DeriveFromId("active_ones".into()),
    });
    qs.push(Query {
        id: "orphan".into(),
        template: "templates/queries/missing.sql.j2".into(),
        conds: vec![],
        output: "output/queries/orphan.sql".into(),
        name_tag: NameTag::DeriveFromId("orphan".into()),
    });
    m.queries = qs;
    let mut tts = TestTemplates::new();
    tts.push(TestTemplate {
        query: "active_ones".into(),
        path: "templates/tests/t_test.sql.j2".into(),
        output: "output/tests/t_test.sql".into(),
    });
    m.test_templates = tts;
    m
}

fn query_sources() -> TemplateSources {
    let mut s = TemplateSources::new();
    s.push(
        "t.sql.j2",
        "SELECT * FROM t WHERE {% if cond__active %}active = {{ placeholder('active') }}{% endif %}{% if cond__name %} AND name = {{ placeholder('name') }}{% endif %};",
    );
    s.push("raw.sql.j2", "SELECT * FROM t WHERE {% if cond__active %}active = {% raw %}{{active}}{% endraw %}{% endif %}");
    s.push("broken.sql.j2", "SELECT {% if %}");
    s
}

fn test_sources() -> TemplateSources {
    let mut s = TemplateSources::new();
    s.push("t_test.sql.j2", "PREPARE stmt AS {{ prepared_statement }};\nEXECUTE stmt(true);");
    s
}

#[test]
fn test_cond_vars() {
    let all_conds = strset(vec!["a", "b", "c"]);
    let conds = strset(vec!["b", "c"]);
    let res = cond_vars(&all_conds, &conds);
    assert_eq!(3, res.len());
    assert_eq!(false, res.get("cond__a").unwrap());
    assert_eq!(true, res.get("cond__b").unwrap());
    assert_eq!(true, res.get("cond__c").unwrap());
}

#[test]
fn test_pos_args_mapping() {
    let udvars = vec![
        "firstname".to_owned(),
        "lastname".to_owned(),
        "department".to_owned(),
    ];

    let template = r#"
SELECT
{{ firstname }}
{{ lastname }}
FROM employees
WHERE department = {{ department }} AND lastname = {{ lastname }}
AND tag = "{{ sometag }}"
;
"#;
    let result = pos_args_mapping(template, &udvars);
    assert_eq!(3, result.len());
    assert_eq!("$1", result.get("firstname").unwrap());
    assert_eq!("$2", result.get("lastname").unwrap());
    assert_eq!("$3", result.get("department").unwrap());

    let template = "";
    let result = pos_args_mapping(template, &udvars);
    assert_eq!(0, result.len());

    let template = "SELECT * from employees WHERE firstname = {{ firstname }};";
    let result = pos_args_mapping(template, &udvars);
    assert_eq!(1, result.len());
    assert_eq!("$1", result.get("firstname").unwrap());
}

#[test]
fn positional_numbers_follow_the_text_not_the_list() {
    let template = "{{b}}\n{{a}}\n{{b}}";
    for udvars in [strset(vec!["a", "b"]), strset(vec!["b", "a"]), strset(vec!["b", "a", "b"])] {
        let result = pos_args_mapping(template, &udvars);
        assert_eq!(2, result.len());
        assert_eq!("$1", result.get("b").unwrap());
        assert_eq!("$2", result.get("a").unwrap());
        assert_eq!(
            vec![("b".to_string(), "$1".to_string()), ("a".to_string(), "$2".to_string())],
            result.entries
        );
    }
}

#[test]
fn positional_numbers_go_past_nine_and_past_a_byte() {
    let mut template = String::new();
    let mut udvars = Vec::new();
    for i in 0..300 {
        template.push_str(&format!("{{{{ v{i} }}}} "));
        if i % 7 == 0 {
            template.push('\n');
        }
        udvars.push(format!("v{i}"));
    }
    let result = pos_args_mapping(&template, &udvars);
    assert_eq!(300, result.len());
    assert_eq!("$1", result.get("v0").unwrap());
    assert_eq!("$10", result.get("v9").unwrap());
    assert_eq!("$256", result.get("v255").unwrap());
    assert_eq!("$300", result.get("v299").unwrap());
}

#[test]
fn captures_keep_the_order_and_the_repetitions_of_a_line() {
    let udvars = strset(vec!["a", "b"]);
    assert_eq!(
        vec!["b".to_string(), "a".to_string(), "b".to_string()],
        capture_udvars("{{b}} {{ a }} {{c}} {{ b}} {{  a  }}", &udvars)
    );
    assert!(capture_udvars("no variables here", &udvars).is_empty());
}

#[test]
fn named_mapping_binds_every_variable_to_its_name() {
    let udvars = strset(vec!["firstname", "dept"]);
    let result = variables_mapping(&udvars);
    assert_eq!(2, result.len());
    assert_eq!(":firstname", result.get("firstname").unwrap());
    assert_eq!(":dept", result.get("dept").unwrap());
    assert!(result.get("other").is_none());
    assert_eq!(0, variables_mapping(&vec![]).len());
    let chosen = resolve_placeholders("{{ dept }}", &udvars, Placeholder::Variables);
    assert_eq!(":dept", chosen.get("dept").unwrap());
    let chosen = resolve_placeholders("{{ dept }}", &udvars, Placeholder::PosArgs);
    assert_eq!("$1", chosen.get("dept").unwrap());
    assert!(chosen.get("firstname").is_none());
}

#[test]
fn the_placeholder_function_leaves_a_reference() {
    assert_eq!("{{ active }}", placeholder("active".to_string()).unwrap());
}

#[test]
fn trailing_semicolon_is_stripped_once() {
    assert_eq!("SELECT 1", strip_trailing_semicolon("SELECT 1;"));
    assert_eq!("SELECT 1;", strip_trailing_semicolon("SELECT 1;;"));
    assert_eq!("SELECT 1", strip_trailing_semicolon("SELECT 1"));
    assert_eq!("", strip_trailing_semicolon(""));
    assert_eq!("é", strip_trailing_semicolon("é;"));
}

#[test]
fn second_pass_puts_placeholders_in_place_of_variables() {
    let mid = "SELECT * FROM t WHERE active = {{active}}";
    assert_eq!(
        "SELECT * FROM t WHERE active = $1",
        render_placeholders(mid, Placeholder::PosArgs).unwrap()
    );
    assert_eq!(
        "SELECT * FROM t WHERE active = :active",
        render_placeholders(mid, Placeholder::Variables).unwrap()
    );
    // No variables: the text comes out as it is, semicolon included.
    assert_eq!("SELECT 1;", render_placeholders("SELECT 1;", Placeholder::PosArgs).unwrap());
    assert!(matches!(
        render_placeholders("SELECT {{ ", Placeholder::PosArgs),
        Err(Error::MiniJinja(_))
    ));
}

#[test]
fn queries_render_in_two_passes() {
    let m = manifest(Placeholder::PosArgs);
    let engine = Engine::new(&m, query_sources(), test_sources());
    assert_eq!(
        "SELECT * FROM t WHERE active = $1;",
        engine.render_query("active_ones", None).unwrap()
    );
    assert_eq!(
        "SELECT * FROM t WHERE active = :active;",
        engine.render_query("active_ones", Some(Placeholder::Variables)).unwrap()
    );
    let m = manifest(Placeholder::Variables);
    let engine = Engine::new(&m, query_sources(), test_sources());
    assert_eq!(
        "SELECT * FROM t WHERE active = :active;",
        engine.render_query("active_ones", None).unwrap()
    );
}

#[test]
fn the_worked_example_renders_as_described() {
    let mut m = manifest(Placeholder::PosArgs);
    let mut qts = QueryTemplates::new();
    qts.push(QueryTemplate { path: "q/raw.sql.j2".into(), all_conds: strset(vec!["active"]) });
    m.query_templates = qts;
    let mut qs = Queries::new();
    qs.push(Query {
        id: "on".into(),
        template: "q/raw.sql.j2".into(),
        conds: strset(vec!["active"]),
        output: "on.sql".into(),
        name_tag: NameTag::DeriveFromId("on".into()),
    });
    qs.push(Query {
        id: "off".into(),
        template: "q/raw.sql.j2".into(),
        conds: vec![],
        output: "off.sql".into(),
        name_tag: NameTag::DeriveFromId("off".into()),
    });
    m.queries = qs;
    let engine = Engine::new(&m, query_sources(), test_sources());
    assert_eq!("SELECT * FROM t WHERE active = $1", engine.render_query("on", None).unwrap());
    assert_eq!("SELECT * FROM t WHERE ", engine.render_query("off", None).unwrap());
}

#[test]
fn lookups_fail_before_anything_is_rendered() {
    let m = manifest(Placeholder::PosArgs);
    let engine = Engine::new(&m, query_sources(), test_sources());
    match engine.render_query("nobody", None) {
        Err(Error::UndefinedQuery(id)) => assert_eq!("nobody", id),
        _ => assert!(false),
    }
    match engine.render_query("orphan", None) {
        Err(Error::UndefinedQueryTemplate(name)) => assert_eq!("missing.sql.j2", name),
        _ => assert!(false),
    }
    match engine.render_test("templates/tests/none.sql.j2", None) {
        Err(Error::UndefinedTestTemplate(p)) => assert_eq!("templates/tests/none.sql.j2", p),
        _ => assert!(false),
    }
    let e = engine.render_query("nobody", None).unwrap_err();
    assert_eq!("Lookup for query failed: id=nobody", e.message());
}

#[test]
fn engine_errors_are_one_kind() {
    let mut m = manifest(Placeholder::PosArgs);
    let mut qts = QueryTemplates::new();
    qts.push(QueryTemplate { path: "q/broken.sql.j2".into(), all_conds: vec![] });
    qts.push(QueryTemplate { path: "q/absent.sql.j2".into(), all_conds: vec![] });
    m.query_templates = qts;
    let mut qs = Queries::new();
    for (id, t) in [("broken", "q/broken.sql.j2"), ("absent", "q/absent.sql.j2")] {
        qs.push(Query {
            id: id.into(),
            template: t.into(),
            conds: vec![],
            output: "x.sql".into(),
            name_tag: NameTag::DeriveFromId(id.into()),
        });
    }
    m.queries = qs;
    let engine = Engine::new(&m, query_sources(), test_sources());
    assert!(matches!(engine.render_query("broken", None), Err(Error::MiniJinja(_))));
    assert!(matches!(engine.render_query("absent", None), Err(Error::MiniJinja(_))));
    let e = engine.render_query("broken", None).unwrap_err();
    assert!(e.message().starts_with("MiniJinja Error: "));
}

#[test]
fn tests_render_around_the_prepared_statement() {
    let m = manifest(Placeholder::Variables);
    let engine = Engine::new(&m, query_sources(), test_sources());
    // Without a statement, the query is rendered with positional
    // placeholders whatever the manifest says.
    assert_eq!(
        "PREPARE stmt AS SELECT * FROM t WHERE active = $1;\nEXECUTE stmt(true);",
        engine.render_test("templates/tests/t_test.sql.j2", None).unwrap()
    );
    assert_eq!(
        "PREPARE stmt AS SELECT 1;\nEXECUTE stmt(true);",
        engine.render_test("templates/tests/t_test.sql.j2", Some("SELECT 1;")).unwrap()
    );
}

#[test]
fn names_are_kept_in_order_and_numbered_by_first_sight() {
    let groups = vec![
        Some("b".to_string()),
        None,
        Some("x".to_string()),
        Some("a".to_string()),
        Some("b".to_string()),
    ];
    let refs = names_among(&groups, &strset(vec!["a", "b"]));
    assert_eq!(vec!["b".to_string(), "a".to_string(), "b".to_string()], refs);
    let numbered = number_names(&refs);
    assert_eq!(
        vec![("b".to_string(), "$1".to_string()), ("a".to_string(), "$2".to_string())],
        numbered.entries
    );
    assert_eq!(0, number_names(&vec![]).len());
    assert!(names_among(&vec![], &strset(vec!["a"])).is_empty());
}
