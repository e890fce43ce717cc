use reqq::format::{format_content_type, format_with, get_content_type, pretty_json};
use reqq::{format_response, ContentType, Response};

fn pair(name: &str, value: &str) -> (String, String) {
    (name.to_owned(), value.to_owned())
}

fn response(status: u16, headers: Vec<(String, String)>, body: &str) -> Response {
    Response { status, headers, body: body.to_owned() }
}

#[test]
fn json_body_is_laid_out() {
    let headers = vec![pair("content-type", "application/json; charset=utf-8")];
    let shown = format_response(response(200, headers, "{\"a\":1}"), true);
    assert_eq!(shown, "{\n  \"a\": 1\n}");
}

#[test]
fn body_that_is_no_json_is_shown_as_it_came() {
    let headers = vec![pair("content-type", "application/json; charset=utf-8")];
    let shown = format_response(response(200, headers, "<html>not json</html>"), true);
    assert_eq!(shown, "<html>not json</html>");
}

#[test]
fn raw_output_is_the_body_alone() {
    let headers = vec![pair("content-type", "text/plain"), pair("x-a", "b")];
    let shown = format_response(response(404, headers, "nothing here\n"), true);
    assert_eq!(shown, "nothing here\n");
}

#[test]
fn full_output_with_headers() {
    let headers = vec![pair("content-type", "text/plain"), pair("x-a", "b: c")];
    let shown = format_response(response(404, headers, "nothing here"), false);
    assert_eq!(shown, "404\ncontent-type: text/plain\nx-a: b: c\n\nnothing here");
}

#[test]
fn full_output_without_headers() {
    let shown = format_response(response(200, Vec::new(), "body"), false);
    assert_eq!(shown, "200\n\nbody");
}

#[test]
fn full_output_with_json() {
    let headers = vec![pair("Content-Type", "Application/JSON")];
    let shown = format_response(response(201, headers, "[1,{\"b\":null}]"), false);
    assert_eq!(
        shown,
        "201\nContent-Type: Application/JSON\n\n[\n  1,\n  {\n    \"b\": null\n  }\n]"
    );
}

#[test]
fn status_is_written_in_decimal() {
    for (status, text) in [(0u16, "0"), (7, "7"), (10, "10"), (100, "100"), (999, "999"), (65535, "65535")] {
        let shown = format_response(response(status, Vec::new(), ""), false);
        assert_eq!(shown, format!("{}\n\n", text));
    }
}

#[test]
fn status_matches_the_status_line_of_http() {
    for status in [100u16, 200, 204, 301, 404, 418, 500, 599, 999] {
        let code = http::StatusCode::from_u16(status).unwrap();
        let shown = format_response(response(status, Vec::new(), "b"), false);
        assert_eq!(shown, format!("{}\n\nb", code.as_str()));
    }
}

#[test]
fn content_type_is_found_in_any_case() {
    for name in ["content-type", "Content-Type", "CONTENT-TYPE", "cOnTeNt-TyPe"] {
        assert_eq!(get_content_type(&vec![pair(name, "application/json")]), ContentType::Json);
    }
}

#[test]
fn content_type_is_the_value_before_the_semicolon() {
    let json = ["application/json", "APPLICATION/JSON", "application/json;", "application/json;q=1;x"];
    for value in json {
        assert_eq!(get_content_type(&vec![pair("content-type", value)]), ContentType::Json);
    }
    let other = [
        "",
        ";application/json",
        "application/json ",
        " application/json",
        "application/json ; charset=utf-8",
        "application/jsonp",
        "application/vnd.api+json",
        "text/json",
        "text/html; application/json",
    ];
    for value in other {
        assert_eq!(
            get_content_type(&vec![pair("content-type", value)]),
            ContentType::Unknown,
            "{:?}",
            value
        );
    }
}

#[test]
fn content_type_without_the_header() {
    assert_eq!(get_content_type(&Vec::new()), ContentType::Unknown);
    assert_eq!(get_content_type(&vec![pair("accept", "application/json")]), ContentType::Unknown);
    assert_eq!(
        get_content_type(&vec![pair("content-type-x", "application/json")]),
        ContentType::Unknown
    );
}

#[test]
fn the_first_content_type_header_decides() {
    let headers = vec![
        pair("x", "y"),
        pair("content-type", "text/plain"),
        pair("content-type", "application/json"),
    ];
    assert_eq!(get_content_type(&headers), ContentType::Unknown);
    let headers = vec![pair("content-type", "application/json"), pair("content-type", "text/plain")];
    assert_eq!(get_content_type(&headers), ContentType::Json);
}

#[test]
fn unknown_content_is_passed_through() {
    assert_eq!(format_content_type(ContentType::Unknown, "{\"a\":1}".to_owned()), "{\"a\":1}");
    assert_eq!(format_content_type(ContentType::Unknown, "".to_owned()), "");
}

#[test]
fn json_content_is_written_as_serde_json_writes_it() {
    let body = "{\"b\":[1,2.5,\"x\"],\"a\":{\"c\":true,\"d\":null},\"e\":\"\\u00e9\\n\"}";
    let value: serde_json::Value = serde_json::from_str(body).unwrap();
    let shown = format_content_type(ContentType::Json, body.to_owned());
    assert_eq!(shown, serde_json::to_string_pretty(&value).unwrap());
    assert_ne!(shown, body);
}

#[test]
fn json_content_that_does_not_parse_is_kept() {
    for body in ["", "{", "{\"a\":1} trailing", "nope", "{'a': 1}"] {
        assert_eq!(format_content_type(ContentType::Json, body.to_owned()), body);
    }
}

#[test]
fn formatting_twice_is_formatting_once() {
    let bodies = [
        "{\"a\":1}",
        "[]",
        "{}",
        "[1,[2,[3,{\"k\":\"v\"}]]]",
        "\"text\"",
        "12",
        "-0.5",
        "1e3",
        "null",
        "not json",
        "{\"z\":1,\"a\":[true,false,null],\"m\":{\"x\":\"y\"}}",
        "4.9715275161848454e60",
        "[7.616581843686657e288, -1.9774477274715477e-162, 0.1, 1e-7, 123456789.125]",
    ];
    for body in bodies {
        let headers = vec![pair("content-type", "application/json")];
        let once = format_response(response(200, headers.clone(), body), true);
        let twice = format_response(response(200, headers, &once), true);
        assert_eq!(twice, once, "{:?}", body);
    }
}

#[test]
fn pretty_json_of_a_text() {
    assert_eq!(pretty_json("{\"a\":1}"), Some("{\n  \"a\": 1\n}".to_owned()));
    assert_eq!(pretty_json("[ ]"), Some("[]".to_owned()));
    assert_eq!(pretty_json("not json"), None);
    assert_eq!(pretty_json(""), None);
}

#[test]
fn format_with_the_indented_body() {
    let json = vec![pair("content-type", "application/json")];
    let plain = vec![pair("content-type", "text/plain")];
    let pretty = Some("PRETTY".to_owned());
    assert_eq!(format_with(response(200, json.clone(), "body"), true, pretty.clone()), "PRETTY");
    assert_eq!(format_with(response(200, json.clone(), "body"), true, None), "body");
    assert_eq!(format_with(response(200, plain.clone(), "body"), true, pretty.clone()), "body");
    assert_eq!(
        format_with(response(200, json, "body"), false, pretty.clone()),
        "200\ncontent-type: application/json\n\nPRETTY"
    );
    assert_eq!(
        format_with(response(500, plain, "body"), false, pretty.clone()),
        "500\ncontent-type: text/plain\n\nbody"
    );
    assert_eq!(format_with(response(204, Vec::new(), ""), false, pretty), "204\n\n");
}

#[test]
fn format_response_agrees_with_format_with() {
    for body in ["{\"a\":[1,2]}", "nope", ""] {
        for value in ["application/json", "text/html"] {
            for raw in [true, false] {
                let headers = vec![pair("x", "y"), pair("Content-Type", value)];
                let a = format_response(response(200, headers.clone(), body), raw);
                let b = format_with(response(200, headers, body), raw, pretty_json(body));
                assert_eq!(a, b);
            }
        }
    }
}

#[test]
fn pretty_json_is_its_own_pretty_json() {
    let bodies = [
        "{\"a\":1}",
        "[1.5,2e10,-0.0,1e-7]",
        "4.9715275161848454e60",
        "7.616581843686657e288",
        "{\"k\":\"\\u00e9\\n\\t\\\"\",\"n\":[[],{}]}",
        "18446744073709551616",
    ];
    for body in bodies {
        let pretty = pretty_json(body).unwrap();
        assert_eq!(pretty_json(&pretty), Some(pretty.clone()), "{:?}", body);
        let value: serde_json::Value = serde_json::from_str(body).unwrap();
        assert_eq!(pretty, serde_json::to_string_pretty(&value).unwrap());
    }
}
