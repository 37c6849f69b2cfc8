use handlebars::{BlockParams, Json, Registry, RenderContext, RenderError, TemplateError};

fn s(x: &str) -> Json {
    Json::Str(x.to_string())
}

fn obj(entries: Vec<(&str, Json)>) -> Json {
    Json::Object(entries.into_iter().map(|(k, v)| (k.to_string(), v)).collect())
}

fn render_one(src: &str, data: &Json) -> Result<String, RenderError> {
    let mut r = Registry::new();
    assert!(r.register_template_string("t", src).is_ok());
    r.render("t", data)
}

fn segs(p: &[&str]) -> Vec<String> {
    p.iter().map(|x| x.to_string()).collect()
}

#[test]
fn truthiness_table() {
    assert!(!Json::Null.is_truthy(false));
    assert!(Json::Bool(true).is_truthy(true));
    assert!(!Json::Bool(false).is_truthy(false));
    assert!(Json::Number(0).is_truthy(false));
    assert!(!Json::Number(0).is_truthy(true));
    assert!(Json::Number(-3).is_truthy(true));
    assert!(!s("").is_truthy(false));
    assert!(s("x").is_truthy(true));
    assert!(!Json::Array(vec![]).is_truthy(false));
    assert!(Json::Array(vec![Json::Null]).is_truthy(true));
    assert!(!obj(vec![]).is_truthy(false));
    assert!(obj(vec![("k", Json::Null)]).is_truthy(true));
}

#[test]
fn with_zero_is_truthy_but_if_zero_is_not() {
    let data = obj(vec![("n", Json::Number(0))]);
    assert_eq!(render_one("{{#with n}}yes{{else}}no{{/with}}", &data).unwrap(), "yes");
    assert_eq!(render_one("{{#if n}}yes{{else}}no{{/if}}", &data).unwrap(), "no");
    assert_eq!(render_one("{{#unless n}}yes{{else}}no{{/unless}}", &data).unwrap(), "yes");
}

#[test]
fn with_falsy_without_else_renders_nothing() {
    let data = obj(vec![("e", s(""))]);
    assert_eq!(render_one("a{{#with e}}hidden{{/with}}b", &data).unwrap(), "ab");
}

#[test]
fn with_literal_binds_by_value() {
    let data = obj(vec![]);
    assert_eq!(render_one("{{#with \"text\" as |v|}}{{v}}{{/with}}", &data).unwrap(), "text");
    assert_eq!(render_one("{{#with 42 as |v|}}{{v}}{{/with}}", &data).unwrap(), "42");
}

#[test]
fn bound_name_matches_direct_path() {
    let data = obj(vec![("addr", obj(vec![("city", s("Beijing"))]))]);
    let a = render_one("{{#with addr as |a|}}{{a.city}}{{/with}}", &data).unwrap();
    let b = render_one("{{#with addr as |a|}}{{@root/addr/city}}{{/with}}", &data).unwrap();
    let c = render_one("{{#with addr as |a|}}{{city}}{{/with}}", &data).unwrap();
    assert_eq!(a, "Beijing");
    assert_eq!(a, b);
    assert_eq!(a, c);
}

#[test]
fn one_parent_marker_climbs_one_level() {
    let data = obj(vec![
        ("a", obj(vec![("b", obj(vec![("x", s("inner"))])), ("x", s("middle"))])),
        ("x", s("top")),
    ]);
    let t = "{{#with a}}{{#with b}}{{x}}|{{../x}}|{{../../x}}{{/with}}{{/with}}";
    assert_eq!(render_one(t, &data).unwrap(), "inner|middle|top");
}

#[test]
fn missing_parameter_is_reported() {
    let data = obj(vec![]);
    let r = render_one("{{#with}}x{{/with}}", &data);
    assert!(matches!(r, Err(RenderError::MissingParameter(_))));
}

#[test]
fn strict_mode_reports_missing_paths() {
    let data = obj(vec![("a", Json::Number(1))]);
    let mut r = Registry::with_settings(true, 100);
    assert!(r.register_template_string("t0", "{{b}}").is_ok());
    assert!(r.register_template_string("t1", "{{#with b}}x{{/with}}").is_ok());
    assert!(r.register_template_string("t2", "{{a}}").is_ok());
    assert!(matches!(r.render("t0", &data), Err(RenderError::PathNotFound)));
    assert!(matches!(r.render("t1", &data), Err(RenderError::PathNotFound)));
    assert_eq!(r.render("t2", &data).unwrap(), "1");
    assert_eq!(render_one("[{{b}}]", &data).unwrap(), "[]");
}

#[test]
fn recursion_bound_is_enforced() {
    let data = obj(vec![("a", obj(vec![("b", Json::Number(1))]))]);
    let mut r = Registry::with_settings(false, 1);
    assert!(r.register_template_string("t", "{{#with a}}{{b}}{{/with}}").is_ok());
    assert!(matches!(r.render("t", &data), Err(RenderError::RecursionLimitExceeded)));
    let mut r2 = Registry::with_settings(false, 2);
    assert!(r2.register_template_string("t", "{{#with a}}{{b}}{{/with}}").is_ok());
    assert_eq!(r2.render("t", &data).unwrap(), "1");
}

#[test]
fn unknown_helper_and_template() {
    let data = obj(vec![]);
    assert!(matches!(render_one("{{#foo x}}y{{/foo}}", &data), Err(RenderError::UnknownHelper(_))));
    let r = Registry::new();
    assert!(matches!(r.render("nope", &data), Err(RenderError::TemplateNotFound(_))));
}

#[test]
fn redefined_bound_name_fails() {
    let mut f = BlockParams::new();
    assert!(f.add_path(&"x".to_string(), segs(&["a"])).is_ok());
    assert!(matches!(f.add_value(&"x".to_string(), Json::Null), Err(RenderError::ParameterRedefinition(_))));
    assert!(f.add_value(&"y".to_string(), Json::Null).is_ok());
    let data = obj(vec![("xs", Json::Array(vec![Json::Number(1)]))]);
    let r = render_one("{{#each xs as |v v|}}{{v}}{{/each}}", &data);
    assert!(matches!(r, Err(RenderError::ParameterRedefinition(_))));
}

#[test]
fn path_root_push_pop_restores_path() {
    let mut rc = RenderContext::new();
    rc.set_path(segs(&["a", "b"]));
    let before = rc.get_path().clone();
    rc.push_local_path_root(segs(&["a"]));
    assert_eq!(rc.get_local_path_roots().len(), 1);
    rc.pop_local_path_root();
    assert_eq!(rc.get_path(), &before);
    assert_eq!(rc.get_local_path_roots().len(), 0);
}

#[test]
fn local_vars_are_discarded_on_demote() {
    let mut rc = RenderContext::new();
    rc.set_local_var("index".to_string(), Json::Number(5));
    rc.promote_local_vars();
    rc.set_local_var("index".to_string(), Json::Number(7));
    rc.set_local_var("key".to_string(), s("k"));
    assert!(matches!(rc.get_local_var(0, &"index".to_string()), Some(Json::Number(7))));
    assert!(matches!(rc.get_local_var(1, &"index".to_string()), Some(Json::Number(5))));
    rc.demote_local_vars();
    assert!(matches!(rc.get_local_var(0, &"index".to_string()), Some(Json::Number(5))));
    assert!(rc.get_local_var(0, &"key".to_string()).is_none());
}

#[test]
fn context_reuse_leaves_no_residue() {
    let data = obj(vec![("a", obj(vec![("b", s("x"))])), ("xs", Json::Array(vec![Json::Number(1), Json::Number(2)]))]);
    let mut r = Registry::new();
    assert!(r.register_template_string("t0", "{{#with a as |q|}}{{q.b}}{{/with}}").is_ok());
    assert!(r.register_template_string("t1", "{{#each xs}}{{#with missing}}{{/with}}{{this}}{{/each}}").is_ok());
    assert!(r.register_template_string("t2", "{{#with a}}{{#foo}}{{/foo}}{{/with}}").is_ok());
    let mut rc = RenderContext::new();
    assert_eq!(r.render_with_context("t0", &data, &mut rc).unwrap(), "x");
    assert_eq!(r.render_with_context("t1", &data, &mut rc).unwrap(), "12");
    assert!(r.render_with_context("t2", &data, &mut rc).is_err());
    assert_eq!(rc.get_path().len(), 0);
    assert_eq!(rc.get_local_path_roots().len(), 0);
    assert_eq!(rc.get_block_contexts().len(), 0);
    assert_eq!(rc.get_recursion_depth(), 0);
    assert!(rc.get_local_var(0, &"index".to_string()).is_none());
}

#[test]
fn each_sets_positions_and_keys() {
    let data = obj(vec![
        ("xs", Json::Array(vec![s("a"), s("b"), s("c")])),
        ("o", obj(vec![("k1", Json::Number(1)), ("k2", Json::Number(2))])),
    ]);
    assert_eq!(render_one("{{#each xs}}{{@index}}{{this}}{{/each}}", &data).unwrap(), "0a1b2c");
    assert_eq!(render_one("{{#each xs}}{{@first}}{{/each}}", &data).unwrap(), "truefalsefalse");
    assert_eq!(render_one("{{#each xs}}{{@last}}{{/each}}", &data).unwrap(), "falsefalsetrue");
    assert_eq!(render_one("{{#each o}}{{@key}}={{this}};{{/each}}", &data).unwrap(), "k1=1;k2=2;");
    assert_eq!(render_one("{{#each xs as |v i|}}{{i}}{{v}}{{/each}}", &data).unwrap(), "0a1b2c");
    assert_eq!(render_one("{{#each nothing}}x{{else}}empty{{/each}}", &data).unwrap(), "empty");
}

#[test]
fn array_positions_and_text_of_values() {
    let data = obj(vec![
        ("titles", Json::Array(vec![s("programmer"), s("cartographier")])),
        ("neg", Json::Number(-42)),
        ("big", Json::Number(i64::MIN)),
        ("t", Json::Bool(true)),
        ("n", Json::Null),
    ]);
    assert_eq!(render_one("{{titles.1}}/{{titles/[0]}}/{{titles.2}}", &data).unwrap(), "cartographier/programmer/");
    assert_eq!(render_one("{{neg}} {{big}} {{t}} [{{n}}]", &data).unwrap(), "-42 -9223372036854775808 true []");
}

#[test]
fn template_errors() {
    assert!(matches!(handlebars::compile("{{#with a}}x"), Err(TemplateError::UnclosedBlock)));
    assert!(matches!(handlebars::compile("ab{{x"), Err(TemplateError::UnclosedExpression(2))));
    assert!(matches!(handlebars::compile("{{/with}}"), Err(TemplateError::UnexpectedClose(0))));
    assert!(matches!(handlebars::compile("{{#with a}}{{/each}}"), Err(TemplateError::MismatchedClose(11))));
    assert!(matches!(handlebars::compile("{{ }}"), Err(TemplateError::EmptyExpression(0))));
    assert_eq!(handlebars::compile("plain text").unwrap().len(), 1);
    assert_eq!(handlebars::compile("").unwrap().len(), 0);
}

#[test]
fn derived_scope_is_independent() {
    let mut rc = RenderContext::new();
    rc.set_path(segs(&["a"]));
    let mut child = rc.derive();
    assert_eq!(child.get_path(), rc.get_path());
    child.push_local_path_root(segs(&["x"]));
    child.set_path(segs(&["a", "b"]));
    assert_eq!(rc.get_local_path_roots().len(), 0);
    assert_eq!(rc.get_path(), &segs(&["a"]));
    assert_eq!(child.get_local_path_roots().len(), 1);
}

#[test]
fn lookup_by_key_and_position() {
    let data = obj(vec![
        ("titles", Json::Array(vec![s("programmer"), s("cartographier")])),
        ("addr", obj(vec![("city", s("Beijing"))])),
        ("ids", Json::Array(vec![Json::Number(1), Json::Number(0)])),
    ]);
    assert_eq!(render_one("{{lookup titles 1}}", &data).unwrap(), "cartographier");
    assert_eq!(render_one("{{lookup addr \"city\"}}", &data).unwrap(), "Beijing");
    assert_eq!(render_one("[{{lookup titles 5}}]", &data).unwrap(), "[]");
    assert_eq!(render_one("{{#each ids}}{{lookup ../titles this}},{{/each}}", &data).unwrap(), "cartographier,programmer,");
    assert_eq!(render_one("{{#each ids}}{{lookup ../titles @index}};{{/each}}", &data).unwrap(), "programmer;cartographier;");
    assert!(matches!(render_one("{{lookup titles}}", &data), Err(RenderError::MissingParameter(_))));
    let mut r = Registry::with_settings(true, 100);
    assert!(r.register_template_string("t", "{{lookup titles 5}}").is_ok());
    assert!(matches!(r.render("t", &data), Err(RenderError::PathNotFound)));
}

#[test]
fn parent_marker_after_multi_segment_parameter() {
    let data = obj(vec![
        ("a", obj(vec![("b", obj(vec![("v", s("deep"))])), ("s", Json::Number(2))])),
        ("s", Json::Number(3)),
    ]);
    assert_eq!(render_one("{{#with a/b}}{{v}}:{{../s}}{{/with}}", &data).unwrap(), "deep:3");
    assert_eq!(render_one("{{#with @root/a/b}}{{../s}}{{/with}}", &data).unwrap(), "3");
    assert_eq!(render_one("{{#with a as |x|}}{{#with x/b}}{{../s}}{{/with}}{{/with}}", &data).unwrap(), "2");
    assert_eq!(render_one("{{#with a}}{{#with b/v}}{{../../s}}{{/with}}{{/with}}", &data).unwrap(), "3");
    let list = obj(vec![("a", obj(vec![("xs", Json::Array(vec![Json::Number(1)]))])), ("s", Json::Number(9))]);
    assert_eq!(render_one("{{#each a/xs}}{{../s}}{{/each}}", &list).unwrap(), "9");
}

#[test]
fn failure_keeps_error_and_earlier_output() {
    let data = obj(vec![("a", obj(vec![("b", Json::Number(1))]))]);
    let mut r = Registry::with_settings(true, 100);
    assert!(r.register_template_string("t", "{{#with a}}{{b}}-{{missing}}-tail{{/with}}").is_ok());
    assert!(matches!(r.render("t", &data), Err(RenderError::PathNotFound)));
    let mut rc = RenderContext::new();
    assert!(matches!(r.render_with_context("t", &data, &mut rc), Err(RenderError::PathNotFound)));
    assert!(matches!(r.render_with_context("t", &data, &mut rc), Err(RenderError::PathNotFound)));
    assert_eq!(rc.get_local_path_roots().len(), 0);
    let e = render_one("{{#with a}}x{{#nope}}{{/nope}}{{/with}}", &data);
    assert!(matches!(e, Err(RenderError::UnknownHelper(ref n)) if n == "nope"));
}

#[test]
fn log_writes_nothing() {
    let data = obj(vec![("a", Json::Number(1))]);
    assert_eq!(render_one("x{{log a}}y", &data).unwrap(), "xy");
    assert_eq!(render_one("x{{#log a}}{{/log}}y", &data).unwrap(), "xy");
}
