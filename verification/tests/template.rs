use reqq::template::{context, holds_partial, render};
use reqq::{Env, ErrorKind};

fn pair(name: &str, value: &str) -> (String, String) {
    (name.to_owned(), value.to_owned())
}

fn value(text: &str) -> serde_json::Value {
    Env { fpath: "".to_owned(), fstr: Some(text.to_owned()) }.json().unwrap()
}

#[test]
fn render_fills_placeholders() {
    let ctx = value("{\"headerVal\": \"lolwat\", \"shwat\": 5}");
    let text = render("x-example-header: {{headerVal}}\n\nrequest {{shwat}} content", &ctx);
    assert_eq!(text, Ok("x-example-header: lolwat\n\nrequest 5 content".to_owned()));
}

#[test]
fn render_missing_key_is_empty() {
    let ctx = value("{\"a\": 1}");
    assert_eq!(render("[{{missing}}] {{a}}", &ctx), Ok("[] 1".to_owned()));
    assert_eq!(render("[{{missing}}]", &value("{}")), Ok("[]".to_owned()));
}

#[test]
fn render_twice_gives_the_same() {
    let ctx = value("{\"a\": \"x\", \"b\": [1, 2], \"c\": {\"d\": true}}");
    let template = "{{a}} {{#each b}}{{this}},{{/each}} {{c.d}} {{nope}}";
    let first = render(template, &ctx);
    let second = render(template, &ctx);
    assert_eq!(first, second);
    assert_eq!(first, Ok("x 1,2, true ".to_owned()));
}

#[test]
fn render_kinds_of_values() {
    let ctx = value("{\"n\": 12, \"f\": 1.5, \"t\": true, \"s\": \"plain\", \"z\": null}");
    assert_eq!(render("{{n}} {{f}} {{t}} {{s}} [{{z}}]", &ctx), Ok("12 1.5 true plain []".to_owned()));
}

#[test]
fn render_text_without_placeholders() {
    assert_eq!(render("plain text\n", &value("{}")), Ok("plain text\n".to_owned()));
    assert_eq!(render("", &value("{}")), Ok("".to_owned()));
}

#[test]
fn render_malformed_placeholder() {
    let ctx = value("{\"a\": 1}");
    for template in ["{{a", "{{#if a}}open", "{{/if}}", "{{a}} {{"] {
        assert_eq!(render(template, &ctx), Err(ErrorKind::TemplateError), "{:?}", template);
    }
}

#[test]
fn context_without_overrides_is_the_environment() {
    assert!(context(None, &Vec::new()).is_none());
    let env = value("{\"a\": 1}");
    assert_eq!(context(Some(env.clone()), &Vec::new()), Some(env));
    let list = value("[1, 2]");
    assert_eq!(context(Some(list.clone()), &Vec::new()), Some(list));
}

#[test]
fn context_overrides_win_over_the_environment() {
    let env = value("{\"a\": 1, \"b\": \"env\"}");
    let ctx = context(Some(env), &vec![pair("b", "arg"), pair("c", "new")]).unwrap();
    assert_eq!(ctx, value("{\"a\": 1, \"b\": \"arg\", \"c\": \"new\"}"));
    assert_eq!(render("{{a}} {{b}} {{c}}", &ctx), Ok("1 arg new".to_owned()));
}

#[test]
fn context_later_override_wins() {
    let ctx = context(None, &vec![pair("k", "first"), pair("k", "second")]).unwrap();
    assert_eq!(ctx, value("{\"k\": \"second\"}"));
}

#[test]
fn context_overrides_without_an_environment() {
    let ctx = context(None, &vec![pair("id", "1")]).unwrap();
    assert_eq!(ctx, value("{\"id\": \"1\"}"));
}

#[test]
fn context_overrides_on_what_is_no_object() {
    for env in ["[1, 2]", "5", "\"text\"", "null", "true"] {
        let ctx = context(Some(value(env)), &vec![pair("id", "1")]).unwrap();
        assert_eq!(ctx, value("{\"id\": \"1\"}"), "{:?}", env);
    }
}

#[test]
fn override_values_are_strings() {
    let ctx = context(None, &vec![pair("n", "5"), pair("t", "true")]).unwrap();
    assert_eq!(ctx, value("{\"n\": \"5\", \"t\": \"true\"}"));
}

#[test]
fn render_writes_strings_as_they_are() {
    let ctx = value("{\"v\": \"a=b&c<d>\\\"e'`\", \"t\": \"Bearer abc==\"}");
    assert_eq!(render("{{v}}", &ctx), Ok("a=b&c<d>\"e'`".to_owned()));
    assert_eq!(render("{{{v}}}", &ctx), Ok("a=b&c<d>\"e'`".to_owned()));
    assert_eq!(render("authorization: {{t}}", &ctx), Ok("authorization: Bearer abc==".to_owned()));
}

#[test]
fn partial_tags_are_found() {
    let with = [
        "{{> a}}",
        "{{>a}}",
        "{{~> a}}",
        "{{ > a}}",
        "{{ ~ > a}}",
        "{{\t~\n>\ra}}",
        "{{#> a}}x{{/a}}",
        "{{#>a}}",
        "{{~#> a}}",
        "{{ # > a}}",
        "{{~ #\n> a}}",
        "text {{a}} {{> b}} more",
        "{{{> a}}",
        "{{{{> a}}}}",
        "{{! {{> a}} }}",
        "\\{{> a}}",
        "{{>",
        "{{#*inline \"a\"}}{{> a}}{{/inline}}{{> a}}",
    ];
    for template in with {
        assert!(holds_partial(template), "{:?}", template);
    }
    let without = [
        "",
        "{",
        "{{",
        "{{~",
        "{{#",
        "{{ ~ #",
        ">",
        "a > b",
        "{ {> a}}",
        "{>{ a}}",
        "{{a}}>",
        "{{a}} > {{b}}",
        "{{#if a}}>{{/if}}",
        "{{#each a}}{{this}}{{/each}}",
        "{{~a~}}",
        "{{~~> a}}",
        "{{\u{c}> a}}",
        "{{\u{a0}> a}}",
        "{{a > b}}",
        "{{#a> b}}",
        "{{# ~> a}}",
        "{{&> a}}",
        "{{*> a}}",
        "{{#*inline \"a\"}}x{{/inline}}",
        "{{! comment }}",
    ];
    for template in without {
        assert!(!holds_partial(template), "{:?}", template);
    }
}

#[test]
fn render_refuses_partial_tags() {
    let ctx = value("{\"a\": 1}");
    let templates = [
        "{{> a}}",
        "{{#> a}}fallback{{/a}}",
        "{{#*inline \"a\"}}{{> a}}{{/inline}}{{> a}}",
        "{{#*inline \"a\"}}x{{/inline}}{{> a}}",
        "{{a}} {{! {{> a}} }}",
    ];
    for template in templates {
        assert_eq!(render(template, &ctx), Err(ErrorKind::TemplateError), "{:?}", template);
    }
}

#[test]
fn render_goes_on_without_partial_tags() {
    let ctx = value("{\"a\": 1, \"l\": [1, 2]}");
    assert_eq!(render("{{a}} > {{a}}", &ctx), Ok("1 > 1".to_owned()));
    assert_eq!(render("{{#if a}}>{{/if}}", &ctx), Ok(">".to_owned()));
    assert_eq!(render("{{~a~}} >", &ctx), Ok("1>".to_owned()));
    assert_eq!(render("{ {> a}}", &ctx), Ok("{ {> a}}".to_owned()));
    assert_eq!(render("{{#*inline \"p\"}}x{{/inline}}[{{a}}]", &ctx), Ok("[1]".to_owned()));
}
