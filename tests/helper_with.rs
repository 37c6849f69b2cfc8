use handlebars::{Json, Registry};

fn s(x: &str) -> Json {
    Json::Str(x.to_string())
}

fn obj(entries: Vec<(&str, Json)>) -> Json {
    Json::Object(entries.into_iter().map(|(k, v)| (k.to_string(), v)).collect())
}

fn person() -> Json {
    obj(vec![
        ("name", s("Ning Sun")),
        ("age", Json::Number(27)),
        ("addr", obj(vec![("city", s("Beijing")), ("country", s("China"))])),
        ("titles", Json::Array(vec![s("programmer"), s("cartographier")])),
    ])
}

#[test]
fn test_with() {
    let person = person();

    let mut handlebars = Registry::new();
    assert!(handlebars
        .register_template_string("t0", "{{#with addr}}{{city}}{{/with}}")
        .is_ok());
    assert!(handlebars
        .register_template_string("t1", "{{#with notfound}}hello{{else}}world{{/with}}")
        .is_ok());
    assert!(handlebars
        .register_template_string("t2", "{{#with addr/country}}{{this}}{{/with}}")
        .is_ok());

    let r0 = handlebars.render("t0", &person);
    assert_eq!(r0.ok().unwrap(), "Beijing".to_string());

    let r1 = handlebars.render("t1", &person);
    assert_eq!(r1.ok().unwrap(), "world".to_string());

    let r2 = handlebars.render("t2", &person);
    assert_eq!(r2.ok().unwrap(), "China".to_string());
}

#[test]
fn test_with_block_param() {
    let person = person();

    let mut handlebars = Registry::new();
    assert!(handlebars
        .register_template_string("t0", "{{#with addr as |a|}}{{a.city}}{{/with}}")
        .is_ok());
    assert!(handlebars
        .register_template_string("t1", "{{#with notfound as |c|}}hello{{else}}world{{/with}}")
        .is_ok());
    assert!(handlebars
        .register_template_string("t2", "{{#with addr/country as |t|}}{{t}}{{/with}}")
        .is_ok());

    let r0 = handlebars.render("t0", &person);
    assert_eq!(r0.ok().unwrap(), "Beijing".to_string());

    let r1 = handlebars.render("t1", &person);
    assert_eq!(r1.ok().unwrap(), "world".to_string());

    let r2 = handlebars.render("t2", &person);
    assert_eq!(r2.ok().unwrap(), "China".to_string());
}

#[test]
fn test_with_in_each() {
    let people = Json::Array(vec![person(), person()]);

    let mut handlebars = Registry::new();
    assert!(handlebars
        .register_template_string("t0", "{{#each this}}{{#with addr}}{{city}}{{/with}}{{/each}}")
        .is_ok());
    assert!(handlebars
        .register_template_string("t1", "{{#each this}}{{#with addr}}{{../age}}{{/with}}{{/each}}")
        .is_ok());
    assert!(handlebars
        .register_template_string("t2", "{{#each this}}{{#with addr}}{{@../index}}{{/with}}{{/each}}")
        .is_ok());

    let r0 = handlebars.render("t0", &people);
    assert_eq!(r0.ok().unwrap(), "BeijingBeijing".to_string());

    let r1 = handlebars.render("t1", &people);
    assert_eq!(r1.ok().unwrap(), "2727".to_string());

    let r2 = handlebars.render("t2", &people);
    assert_eq!(r2.ok().unwrap(), "01".to_string());
}

#[test]
fn test_path_up() {
    let mut handlebars = Registry::new();
    assert!(handlebars
        .register_template_string("t0", "{{#with a}}{{#with b}}{{../../d}}{{/with}}{{/with}}")
        .is_ok());
    let data = obj(vec![
        ("a", obj(vec![("b", Json::Array(vec![obj(vec![("c", Json::Array(vec![Json::Number(1)]))])]))])),
        ("d", Json::Number(1)),
    ]);

    let r0 = handlebars.render("t0", &data);
    assert_eq!(r0.ok().unwrap(), "1".to_string());
}
