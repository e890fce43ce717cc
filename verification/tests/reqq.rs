use reqq::{Action, ErrorKind, Event, Reqq, ReqqOpts, Response, Step};

fn pair(name: &str, value: &str) -> (String, String) {
    (name.to_owned(), value.to_owned())
}

fn paths(all: &[&str]) -> Vec<String> {
    all.iter().map(|p| p.to_string()).collect()
}

fn catalog(raw: bool) -> Reqq<'static> {
    let files = paths(&[
        ".reqq",
        ".reqq/envs/default.json",
        ".reqq/get-thing.reqq",
        ".reqq/nested/post-thing.reqq",
        ".reqq/envs/team/prod.json",
        ".reqq/notes.txt",
    ]);
    Reqq::new(ReqqOpts { dir: ".reqq", raw }, files).unwrap()
}

fn next(step: Result<Step, ErrorKind>) -> (reqq::Execution, Action) {
    match step {
        Ok(Step::Next(exec, action)) => (exec, action),
        other => panic!("the execution does not go on: {:?}", other),
    }
}

fn wants_file(action: &Action, path: &str) {
    match action {
        Action::Read(p) => assert_eq!(p, path),
        other => panic!("no file is asked for: {:?}", other),
    }
}

fn ok(body: &str) -> Response {
    Response {
        status: 200,
        headers: vec![pair("content-type", "application/json")],
        body: body.to_owned(),
    }
}

#[test]
fn catalog_parts_requests_from_environments() {
    let reqq = catalog(false);
    assert_eq!(reqq.list_reqs(), vec!["get-thing", "nested/post-thing", "notes.txt"]);
    assert_eq!(reqq.list_envs(), vec!["default", "team/prod"]);
}

#[test]
fn catalog_lists_names_in_order() {
    let files = paths(&[
        "d/b.reqq",
        "d/a-b.reqq",
        "d/a.reqq",
        "d/B.reqq",
        "d/a/c.reqq",
        "d/a.reqq.reqq",
        "d/envs/z.json",
        "d/envs/\u{e9}.json",
        "d/envs/a.json",
        "d/\u{65e5}.reqq",
        "d/ab.reqq",
    ]);
    let reqq = Reqq::new(ReqqOpts { dir: "d", raw: false }, files).unwrap();
    let names = reqq.list_reqs();
    assert_eq!(names, vec!["B", "a", "a", "a-b", "a/c", "ab", "b", "\u{65e5}"]);
    let mut expected = names.clone();
    expected.sort();
    assert_eq!(names, expected);
    assert_eq!(reqq.list_envs(), vec!["a", "z", "\u{e9}"]);
}

#[test]
fn catalog_of_nothing() {
    let reqq = Reqq::new(ReqqOpts { dir: ".reqq", raw: false }, Vec::new()).unwrap();
    assert!(reqq.list_reqs().is_empty());
    assert!(reqq.list_envs().is_empty());
    assert_eq!(reqq.get_req("a").err(), Some(ErrorKind::RequestNotFound));
}

#[test]
fn catalog_leaves_out_the_directory_itself() {
    let files = paths(&["d", "dd", "d/a.reqq", "d/envs", "d/envs/e.json", "d/envsx.reqq"]);
    let reqq = Reqq::new(ReqqOpts { dir: "d", raw: false }, files).unwrap();
    assert_eq!(reqq.list_reqs(), vec!["a"]);
    assert_eq!(reqq.list_envs(), vec!["/envs", "/envsx.reqq", "e"]);
}

#[test]
fn lookup_finds_a_request_by_name() {
    let reqq = catalog(false);
    let req = reqq.get_req("nested/post-thing").unwrap();
    assert_eq!(req.fpath, ".reqq/nested/post-thing.reqq");
    assert_eq!(req.fstr, None);
    assert!(req.inner.is_none());
}

#[test]
fn lookup_finds_the_first_of_one_name() {
    let files = paths(&["d/a.reqq.reqq", "d/a.reqq", "d/envs/e.json.json", "d/envs/e.json"]);
    let reqq = Reqq::new(ReqqOpts { dir: "d", raw: false }, files).unwrap();
    assert_eq!(reqq.get_req("a").unwrap().fpath, "d/a.reqq.reqq");
    assert_eq!(reqq.get_env("e").unwrap().fpath, "d/envs/e.json.json");
}

#[test]
fn lookup_of_a_request_that_is_not_there() {
    let reqq = catalog(false);
    assert_eq!(reqq.get_req("missing").err(), Some(ErrorKind::RequestNotFound));
    assert_eq!(reqq.get_req("default").err(), Some(ErrorKind::RequestNotFound));
    assert_eq!(reqq.get_req("").err(), Some(ErrorKind::RequestNotFound));
}

#[test]
fn lookup_of_an_environment() {
    let reqq = catalog(false);
    let env = reqq.get_env("team/prod").unwrap();
    assert_eq!(env.fpath, ".reqq/envs/team/prod.json");
    assert_eq!(env.fstr, None);
    assert_eq!(reqq.get_env("staging").err(), Some(ErrorKind::EnvironmentNotFound));
    assert_eq!(reqq.get_env("get-thing").err(), Some(ErrorKind::EnvironmentNotFound));
}

#[test]
fn execute_of_a_request_that_is_not_there() {
    let reqq = catalog(false);
    let step = reqq.execute("missing", Some("default".to_owned()), Vec::new());
    assert!(matches!(step, Err(ErrorKind::RequestNotFound)));
    let step = reqq.execute("missing", Some("missing".to_owned()), Vec::new());
    assert!(matches!(step, Err(ErrorKind::RequestNotFound)));
    let step = reqq.execute("missing", None, Vec::new());
    assert!(matches!(step, Err(ErrorKind::RequestNotFound)));
}

#[test]
fn execute_with_an_environment_that_is_not_there() {
    let reqq = catalog(false);
    let step = reqq.execute("get-thing", Some("staging".to_owned()), Vec::new());
    assert!(matches!(step, Err(ErrorKind::EnvironmentNotFound)));
}

#[test]
fn execute_reads_compiles_sends_and_formats() {
    let reqq = catalog(false);
    let args = vec![pair("id", "7")];
    let (exec, action) = next(reqq.execute("get-thing", Some("default".to_owned()), args));
    wants_file(&action, ".reqq/get-thing.reqq");

    let text = "GET {{base}}/things/{{id}}\naccept: {{accept}}".to_owned();
    let (exec, action) = next(exec.resume(Event::Read(Some(text))));
    wants_file(&action, ".reqq/envs/default.json");

    let env = "{\"base\": \"http://api.test\", \"accept\": \"application/json\", \"id\": 1}";
    let (exec, action) = next(exec.resume(Event::Read(Some(env.to_owned()))));
    match action {
        Action::Send(request) => {
            assert_eq!(request.method().as_str(), "GET");
            assert_eq!(request.url(), "http://api.test/things/7");
            assert_eq!(request.headers(), &vec![pair("accept", "application/json")]);
            assert_eq!(request.body(), None);
        }
        other => panic!("nothing is sent: {:?}", other),
    }

    match exec.resume(Event::Sent(Some(ok("{\"id\":7}")))) {
        Ok(Step::Done(shown)) => {
            assert_eq!(shown, "200\ncontent-type: application/json\n\n{\n  \"id\": 7\n}");
        }
        other => panic!("the execution is not over: {:?}", other),
    }
}

#[test]
fn execute_without_an_environment() {
    let reqq = catalog(true);
    let (exec, action) = next(reqq.execute("nested/post-thing", None, Vec::new()));
    wants_file(&action, ".reqq/nested/post-thing.reqq");
    let text = "POST http://api.test/things\n\n{\"name\": \"{{name}}\"}".to_owned();
    let (exec, action) = next(exec.resume(Event::Read(Some(text))));
    match action {
        Action::Send(request) => {
            assert_eq!(request.body(), Some(&"\n{\"name\": \"{{name}}\"}".to_owned()));
        }
        other => panic!("nothing is sent: {:?}", other),
    }
    match exec.resume(Event::Sent(Some(ok("[1,2]")))) {
        Ok(Step::Done(shown)) => assert_eq!(shown, "[\n  1,\n  2\n]"),
        other => panic!("the execution is not over: {:?}", other),
    }
}

#[test]
fn execute_with_overrides_alone() {
    let reqq = catalog(true);
    let args = vec![pair("name", "a"), pair("name", "b")];
    let (exec, _) = next(reqq.execute("nested/post-thing", None, args));
    let text = "POST http://api.test/things\n\n{{name}}{{other}}".to_owned();
    let (_, action) = next(exec.resume(Event::Read(Some(text))));
    match action {
        Action::Send(request) => assert_eq!(request.body(), Some(&"\nb".to_owned())),
        other => panic!("nothing is sent: {:?}", other),
    }
}

#[test]
fn execute_request_file_that_cannot_be_read() {
    let reqq = catalog(false);
    let (exec, _) = next(reqq.execute("get-thing", Some("default".to_owned()), Vec::new()));
    assert!(matches!(exec.resume(Event::Read(None)), Err(ErrorKind::RequestNotFound)));
}

#[test]
fn execute_environment_file_that_cannot_be_read() {
    let reqq = catalog(false);
    let (exec, _) = next(reqq.execute("get-thing", Some("default".to_owned()), Vec::new()));
    let (exec, _) = next(exec.resume(Event::Read(Some("GET http://h/".to_owned()))));
    assert!(matches!(exec.resume(Event::Read(None)), Err(ErrorKind::ConfigReadError)));
}

#[test]
fn execute_environment_that_is_no_json() {
    let reqq = catalog(false);
    let (exec, _) = next(reqq.execute("get-thing", Some("default".to_owned()), Vec::new()));
    let (exec, _) = next(exec.resume(Event::Read(Some("GET http://h/".to_owned()))));
    let step = exec.resume(Event::Read(Some("not json".to_owned())));
    assert!(matches!(step, Err(ErrorKind::ConfigParseError)));
}

#[test]
fn execute_request_that_does_not_compile() {
    let reqq = catalog(false);
    let cases = [
        ("", ErrorKind::MalformedRequestLine),
        ("FETCH http://h/", ErrorKind::InvalidMethod),
        ("GET nowhere", ErrorKind::InvalidUrl),
        ("GET http://h/\nx: \u{0}", ErrorKind::InvalidHeader),
    ];
    for (text, kind) in cases {
        let (exec, _) = next(reqq.execute("get-thing", None, Vec::new()));
        let step = exec.resume(Event::Read(Some(text.to_owned())));
        assert_eq!(step.err(), Some(kind), "{:?}", text);
    }
}

#[test]
fn execute_template_that_is_malformed() {
    let reqq = catalog(false);
    let (exec, _) = next(reqq.execute("get-thing", Some("default".to_owned()), Vec::new()));
    let (exec, _) = next(exec.resume(Event::Read(Some("GET http://h/{{#each}}".to_owned()))));
    let step = exec.resume(Event::Read(Some("{}".to_owned())));
    assert!(matches!(step, Err(ErrorKind::TemplateError)));
}

#[test]
fn execute_request_that_cannot_be_sent() {
    let reqq = catalog(false);
    let (exec, _) = next(reqq.execute("get-thing", None, Vec::new()));
    let (exec, _) = next(exec.resume(Event::Read(Some("GET http://h/".to_owned()))));
    assert!(matches!(exec.resume(Event::Sent(None)), Err(ErrorKind::TransportError)));
}

#[test]
fn execute_event_that_was_not_waited_for() {
    let reqq = catalog(false);
    let (exec, _) = next(reqq.execute("get-thing", Some("default".to_owned()), Vec::new()));
    assert!(matches!(exec.resume(Event::Sent(Some(ok("1")))), Err(ErrorKind::RequestNotFound)));

    let (exec, _) = next(reqq.execute("get-thing", Some("default".to_owned()), Vec::new()));
    let (exec, _) = next(exec.resume(Event::Read(Some("GET http://h/".to_owned()))));
    assert!(matches!(exec.resume(Event::Sent(None)), Err(ErrorKind::ConfigReadError)));

    let (exec, _) = next(reqq.execute("get-thing", None, Vec::new()));
    let (exec, _) = next(exec.resume(Event::Read(Some("GET http://h/".to_owned()))));
    let step = exec.resume(Event::Read(Some("text".to_owned())));
    assert!(matches!(step, Err(ErrorKind::TransportError)));
}
