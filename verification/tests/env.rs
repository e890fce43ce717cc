use reqq::{Env, ErrorKind};

#[test]
fn env_new_is_not_loaded() {
    let env = Env::new(".reqq/envs/default.json".to_owned());
    assert_eq!(env.fpath, ".reqq/envs/default.json");
    assert_eq!(env.fstr, None);
}

#[test]
fn env_name_of_a_path() {
    assert_eq!(Env::new(".reqq/envs/default.json".to_owned()).name(".reqq"), "default");
    assert_eq!(Env::new(".reqq/envs/team/prod.json".to_owned()).name(".reqq"), "team/prod");
    assert_eq!(Env::new("/envs/x.json".to_owned()).name(""), "x");
}

#[test]
fn env_name_trims_as_often_as_it_can() {
    assert_eq!(Env::new("dd/envs//envs/x.json.json".to_owned()).name("d"), "x");
    assert_eq!(Env::new("d/envs/.json".to_owned()).name("d"), "");
    assert_eq!(Env::new("d/other/x.json".to_owned()).name("d"), "/other/x");
    assert_eq!(Env::new("d/envs/x.yaml".to_owned()).name("d"), "x.yaml");
    assert_eq!(Env::new("d/envs/x.json".to_owned()).name("other"), "d/envs/x");
}

#[test]
fn env_load_keeps_what_is_loaded() {
    let mut env = Env::new("e.json".to_owned());
    env.load("{\"a\": 1}".to_owned());
    assert_eq!(env.fstr, Some("{\"a\": 1}".to_owned()));
    env.load("{\"a\": 2}".to_owned());
    assert_eq!(env.fstr, Some("{\"a\": 1}".to_owned()));
    assert_eq!(env.fpath, "e.json");
}

#[test]
fn env_json_reads_the_loaded_text() {
    let mut env = Env::new("e.json".to_owned());
    env.load(" {\"a\": [1, \"two\", null], \"b\": {\"c\": 1.5}} ".to_owned());
    let value = env.json().unwrap();
    assert_eq!(value["a"][1], "two");
    assert_eq!(value["b"]["c"], 1.5);
    assert_eq!(env.json().unwrap(), value);
}

#[test]
fn env_json_of_any_json_value() {
    for text in ["[1]", "3", "\"s\"", "null", "false"] {
        let env = Env { fpath: "".to_owned(), fstr: Some(text.to_owned()) };
        let expected: serde_json::Value = serde_json::from_str(text).unwrap();
        assert_eq!(env.json().unwrap(), expected);
    }
}

#[test]
fn env_json_without_text() {
    let env = Env::new("e.json".to_owned());
    assert_eq!(env.json().err(), Some(ErrorKind::ConfigReadError));
}

#[test]
fn env_json_of_what_is_no_json() {
    for text in ["", "{", "{\"a\": 1,}", "{\"a\": 1} {}", "key: value"] {
        let env = Env { fpath: "".to_owned(), fstr: Some(text.to_owned()) };
        assert_eq!(env.json().err(), Some(ErrorKind::ConfigParseError), "{:?}", text);
    }
}

#[test]
fn env_clone_keeps_both_fields() {
    let env = Env { fpath: "p".to_owned(), fstr: Some("{}".to_owned()) };
    let copy = env.clone();
    assert_eq!(copy.fpath, env.fpath);
    assert_eq!(copy.fstr, env.fstr);
}

#[test]
fn every_error_has_its_message() {
    let all = [
        ErrorKind::ConfigReadError,
        ErrorKind::ConfigParseError,
        ErrorKind::TemplateError,
        ErrorKind::RequestNotFound,
        ErrorKind::EnvironmentNotFound,
        ErrorKind::MalformedRequestLine,
        ErrorKind::InvalidMethod,
        ErrorKind::InvalidUrl,
        ErrorKind::InvalidHeader,
        ErrorKind::TransportError,
    ];
    for (i, a) in all.iter().enumerate() {
        assert!(!a.message().is_empty());
        for b in all.iter().skip(i + 1) {
            assert_ne!(a.message(), b.message());
        }
    }
    assert_eq!(ErrorKind::RequestNotFound.message(), "Request not found.");
    assert_eq!(ErrorKind::MalformedRequestLine.message(), "Failed reading first line.");
}
