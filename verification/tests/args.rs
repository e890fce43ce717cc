use reqq::{build_extra_args_map, parse_extra_arg};

fn pair(name: &str, value: &str) -> (String, String) {
    (name.to_owned(), value.to_owned())
}

#[test]
fn extra_arg_splits_at_the_first_equals_sign() {
    assert_eq!(parse_extra_arg("id=1"), Some(pair("id", "1")));
    assert_eq!(parse_extra_arg("a=b=c"), Some(pair("a", "b=c")));
    assert_eq!(parse_extra_arg("name=foo bar"), Some(pair("name", "foo bar")));
}

#[test]
fn extra_arg_with_an_empty_side() {
    assert_eq!(parse_extra_arg("key="), Some(pair("key", "")));
    assert_eq!(parse_extra_arg("=value"), Some(pair("", "value")));
    assert_eq!(parse_extra_arg("="), Some(pair("", "")));
}

#[test]
fn extra_arg_without_an_equals_sign() {
    assert_eq!(parse_extra_arg("novalue"), None);
    assert_eq!(parse_extra_arg(""), None);
}

#[test]
fn extra_arg_beyond_ascii() {
    assert_eq!(parse_extra_arg("stra\u{df}e=gr\u{fc}n"), Some(pair("stra\u{df}e", "gr\u{fc}n")));
}

#[test]
fn extra_args_map_of_distinct_keys() {
    let args = vec![pair("id", "1"), pair("name", "foo")];
    assert_eq!(build_extra_args_map(args.clone()), args);
    assert_eq!(build_extra_args_map(Vec::new()), Vec::new());
}

#[test]
fn extra_args_map_last_value_wins() {
    let args = vec![pair("id", "1"), pair("name", "foo"), pair("id", "2"), pair("id", "3")];
    assert_eq!(build_extra_args_map(args), vec![pair("name", "foo"), pair("id", "3")]);
}

#[test]
fn extra_args_map_agrees_with_a_hash_map() {
    let args = vec![
        pair("a", "1"),
        pair("b", "2"),
        pair("a", "3"),
        pair("c", "4"),
        pair("b", "5"),
        pair("", "6"),
    ];
    let mut expected = std::collections::HashMap::new();
    for (k, v) in args.iter() {
        expected.insert(k.clone(), v.clone());
    }
    let map = build_extra_args_map(args);
    assert_eq!(map.len(), expected.len());
    for (k, v) in map.iter() {
        assert_eq!(expected.get(k), Some(v));
    }
}
