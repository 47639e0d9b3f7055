use fydia::libtest::document::{TestFileError, TomlValue};
use fydia::libtest::json::JsonValue;
use fydia::libtest::stringmap::StringMap;
use fydia::libtest::structures::{Config, Headers, Request, Response, SetValue};
use fydia::libtest::suite::Tests;
use fydia::libtest::test_case::{record_values, HttpMethod, RunFailure, Test};
use fydia::libtest::textops::{replace_chars, split_chars, trim_chars};
use fydia::libtest::urls::url_replace_set_value_name_with_value;

fn s(x: &str) -> TomlValue {
    TomlValue::Str(String::from(x))
}

fn table(entries: Vec<(&str, TomlValue)>) -> TomlValue {
    TomlValue::Table(entries.into_iter().map(|(k, v)| (String::from(k), v)).collect())
}

fn chars(x: &str) -> Vec<char> {
    x.chars().collect()
}

fn text(v: &[char]) -> String {
    v.iter().collect()
}

fn map(pairs: &[(&str, &str)]) -> StringMap {
    let mut m = StringMap::new();
    for (k, v) in pairs {
        m.insert(String::from(*k), String::from(*v));
    }
    m
}

fn request_table(method: &str, url: &str, response: TomlValue) -> TomlValue {
    table(vec![
        ("type", s("http")),
        ("method", s(method)),
        ("url", s(url)),
        ("headers", TomlValue::Array(vec![s("Authorization"), s("token"), s("Lonely")])),
        ("body", s("{}")),
        ("response", response),
    ])
}

fn response_table() -> TomlValue {
    table(vec![
        ("body", s("{\"status\":")),
        ("set_value", TomlValue::Array(vec![table(vec![("name", s("token")), ("path", s("content/token"))])])),
    ])
}

fn test_table(method: &str, url: &str) -> TomlValue {
    table(vec![("req", TomlValue::Array(vec![request_table(method, url, response_table())]))])
}

fn document() -> TomlValue {
    table(vec![
        ("config", table(vec![("url", s("127.0.0.1")), ("port", TomlValue::Integer(8080))])),
        (
            "tests",
            table(vec![
                ("a_login", test_table("post", "/api/user/login")),
                ("b_create", test_table("POST", "/api/user/create")),
                ("c_info", test_table("get", "/api/user/me")),
            ]),
        ),
    ])
}

const FILE: &str = "[config]\nurl = \"127.0.0.1\"\n\n[tests.b_create]\n[[tests.b_create.req]]\n\n[tests.a_login]\n[[tests.a_login.req]]\n";

#[test]
fn trim_removes_unicode_white_space_at_both_ends() {
    assert_eq!(text(&trim_chars(&chars("  \t name \u{3000}"))), "name");
    assert_eq!(text(&trim_chars(&chars(" \n "))), "");
    assert_eq!(text(&trim_chars(&chars("a b"))), "a b");
}

#[test]
fn split_keeps_empty_pieces() {
    let pieces = split_chars(&chars("{a}{b}"), '{');
    let pieces: Vec<String> = pieces.iter().map(|p| text(p)).collect();
    assert_eq!(pieces, vec!["", "a}", "b}"]);
    assert_eq!(split_chars(&chars(""), '{').len(), 1);
}

#[test]
fn replace_takes_every_occurrence_left_to_right() {
    assert_eq!(text(&replace_chars(&chars("aaa"), &chars("aa"), &chars("b"))), "ba");
    assert_eq!(text(&replace_chars(&chars("x{t}y{t}"), &chars("{t}"), &chars("1"))), "x1y1");
}

#[test]
fn url_values_are_put_in() {
    let values = map(&[("token", "abc"), ("id", "7")]);
    let url = url_replace_set_value_name_with_value(String::from("http://h:1/api/{id}/x?t={token}&u={unknown}"), &values);
    assert_eq!(url, "http://h:1/api/7/x?t=abc&u={unknown}");
}

#[test]
fn url_names_are_trimmed_but_the_braces_must_match_exactly() {
    let values = map(&[("id", "7")]);
    assert_eq!(url_replace_set_value_name_with_value(String::from("/{ id }/{id}"), &values), "/{ id }/7");
    assert_eq!(url_replace_set_value_name_with_value(String::from("/plain"), &values), "/plain");
}

#[test]
fn string_map_keeps_the_last_value() {
    let mut m = map(&[("a", "1")]);
    m.insert(String::from("a"), String::from("2"));
    assert_eq!(m.len(), 1);
    assert_eq!(m.get(&String::from("a")), Some(String::from("2")));
    assert_eq!(m.get(&String::from("b")), None);
}

#[test]
fn headers_pair_up_strings_and_drop_a_lonely_last_one() {
    let value = table(vec![("headers", TomlValue::Array(vec![s("A"), s("1"), TomlValue::Integer(3), s("B"), s("2"), s("C")]))]);
    let headers = Headers::from_value(&value).unwrap();
    assert_eq!(headers.0.len(), 2);
    assert_eq!(headers.0.get(&String::from("A")), Some(String::from("1")));
    assert_eq!(headers.0.get(&String::from("B")), Some(String::from("2")));
    assert!(Headers::from_value(&table(vec![("headers", s("no array"))])).is_none());
    assert!(Headers::from_value(&table(vec![])).is_none());
}

#[test]
fn header_values_naming_known_values_are_replaced() {
    let value = table(vec![("headers", TomlValue::Array(vec![s("Authorization"), s("token"), s("Accept"), s("json")]))]);
    let headers = Headers::from_value(&value).unwrap();
    let sent = headers.to_headervalues(&map(&[("token", "secret")]));
    assert_eq!(sent.0.get(&String::from("Authorization")), Some(String::from("secret")));
    assert_eq!(sent.0.get(&String::from("Accept")), Some(String::from("json")));
}

#[test]
fn response_status_defaults_to_200() {
    let r = Response::from_value(&table(vec![("body", s("ok"))]));
    assert_eq!(r.statuscode, 200);
    assert!(r.set_values.is_none());
    let r = Response::from_value(&table(vec![("body", s("")), ("statuscode", TomlValue::Integer(404))]));
    assert_eq!(r.statuscode, 404);
    let r = Response::from_value(&table(vec![("body", s("")), ("statuscode", TomlValue::Integer(65536 + 201))]));
    assert_eq!(r.statuscode, 201);
}

#[test]
fn response_failures() {
    assert_eq!(Response::read(&table(vec![])).err(), Some(TestFileError::NoResponseBody));
    assert_eq!(Response::read(&table(vec![("body", TomlValue::Integer(1))])).err(), Some(TestFileError::ResponseBodyNotStr));
    assert_eq!(Response::read(&table(vec![("body", s("")), ("statuscode", s("200"))])).err(), Some(TestFileError::StatusCodeNotInteger));
    assert_eq!(Response::read(&table(vec![("set_value", s("x")), ("body", s(""))])).err(), Some(TestFileError::SetValueNotArray));
}

#[test]
fn set_value_failures_come_in_order() {
    assert_eq!(SetValue::read(&vec![table(vec![("path", s("p"))])]).err(), Some(TestFileError::NoName));
    assert_eq!(SetValue::read(&vec![table(vec![("name", TomlValue::Integer(1))])]).err(), Some(TestFileError::NameNotStr));
    assert_eq!(SetValue::read(&vec![table(vec![("name", s("n"))])]).err(), Some(TestFileError::NoPath));
    assert_eq!(SetValue::read(&vec![table(vec![("name", s("n")), ("path", TomlValue::Other)])]).err(), Some(TestFileError::PathNotStr));
    let ok = SetValue::from_value(&vec![table(vec![("name", s("n")), ("path", s("a/b"))])]);
    assert_eq!(ok[0].name, "n");
    assert_eq!(ok[0].json_path, "a/b");
}

#[test]
fn request_failures_come_in_order() {
    assert_eq!(Request::read_unique_element(&table(vec![])).err(), Some(TestFileError::NoType));
    assert_eq!(Request::read_unique_element(&table(vec![("type", s("http"))])).err(), Some(TestFileError::NoMethod));
    assert_eq!(Request::read_unique_element(&table(vec![("type", s("http")), ("method", TomlValue::Integer(1))])).err(), Some(TestFileError::MethodNotStr));
    assert_eq!(
        Request::read_unique_element(&table(vec![("type", s("http")), ("method", s("get")), ("url", s("/"))])).err(),
        Some(TestFileError::HeadersNotConvertible)
    );
    let no_response = table(vec![
        ("type", s("http")),
        ("method", s("get")),
        ("url", s("/")),
        ("headers", TomlValue::Array(vec![])),
        ("body", s("")),
    ]);
    assert_eq!(Request::read_unique_element(&no_response).err(), Some(TestFileError::NoResponse));
}

#[test]
fn a_test_takes_the_first_request() {
    let value = table(vec![(
        "req",
        TomlValue::Array(vec![
            request_table("get", "/first", response_table()),
            request_table("post", "/second", response_table()),
        ]),
    )]);
    let test = Test::from_value(String::from("t"), &value);
    assert_eq!(test.name, "t");
    assert_eq!(test.request.url, "/first");
    assert_eq!(Test::read(String::from("t"), &table(vec![("req", TomlValue::Array(vec![]))])).err(), Some(TestFileError::EmptyReq));
    assert_eq!(Test::read(String::from("t"), &table(vec![])).err(), Some(TestFileError::NoReq));
    assert_eq!(Test::read(String::from("t"), &table(vec![("req", s("x"))])).err(), Some(TestFileError::ReqNotArray));
}

#[test]
fn a_later_bad_request_fails_the_test() {
    let value = table(vec![("req", TomlValue::Array(vec![request_table("get", "/first", response_table()), table(vec![])]))]);
    assert_eq!(Test::read(String::from("t"), &value).err(), Some(TestFileError::NoType));
}

#[test]
fn config_reads_url_and_port() {
    let config = Config::from_value(&document());
    assert_eq!(config.url, "127.0.0.1");
    assert_eq!(config.port, 8080);
    assert_eq!(config.to_text(), "http://127.0.0.1:8080");
    assert_eq!(Config::read(&table(vec![])).err(), Some(TestFileError::NoConfig));
    assert_eq!(Config::read(&table(vec![("config", table(vec![("url", s("h"))]))])).err(), Some(TestFileError::NoPortInConfig));
    assert_eq!(
        Config::read(&table(vec![("config", table(vec![("url", s("h")), ("port", s("80"))]))])).err(),
        Some(TestFileError::PortNotInteger)
    );
}

#[test]
fn tests_come_in_the_order_of_the_file() {
    let tests = Tests::from_document(&document(), FILE).unwrap();
    let names: Vec<&str> = tests.tests.iter().map(|t| t.name.as_str()).collect();
    assert_eq!(names, vec!["b_create", "a_login", "c_info"]);
}

#[test]
fn sorting_keeps_every_test() {
    let tests = Tests::from_document(&document(), "").unwrap();
    let names: Vec<&str> = tests.tests.iter().map(|t| t.name.as_str()).collect();
    assert_eq!(names, vec!["a_login", "b_create", "c_info"]);
    let sorted = Tests::new(tests.config, tests.tests).sort_from_file("[tests.c_info]\n[tests.missing]\n[tests.c_info]\n[[tests.a_login.req]]");
    let names: Vec<&str> = sorted.tests.iter().map(|t| t.name.as_str()).collect();
    assert_eq!(names, vec!["c_info", "a_login", "b_create"]);
}

#[test]
fn a_complete_request_table_is_read() {
    let request = Request::from_value_unique_element(&request_table("get", "/api/x", response_table()));
    assert_eq!(request.request_type, "http");
    assert_eq!(request.method, "get");
    assert_eq!(request.url, "/api/x");
    assert_eq!(request.body, "{}");
    assert_eq!(request.expected_response.statuscode, 200);
}

#[test]
fn every_request_of_a_req_array_is_read() {
    let two = table(vec![(
        "req",
        TomlValue::Array(vec![request_table("get", "/a", response_table()), request_table("put", "/b", response_table())]),
    )]);
    let requests = Request::from_value(&two);
    assert_eq!(requests.len(), 2);
    assert_eq!(requests[1].method, "put");
    assert_eq!(requests[1].url, "/b");
    assert_eq!(Request::read(&table(vec![])).err(), Some(TestFileError::NoReq));
    assert_eq!(Request::read(&table(vec![("req", s("x"))])).err(), Some(TestFileError::ReqNotArray));
}

#[test]
fn a_file_without_tests_is_refused() {
    assert_eq!(Tests::from_document(&table(vec![]), "").err(), Some(TestFileError::NoTests));
}

#[test]
fn prepare_builds_method_url_and_headers() {
    let test = Test::from_value(String::from("t"), &test_table("pOsT", "/api/{ id }/{id}"));
    let config = Config { url: String::from("localhost"), port: 8080 };
    let prepared = test.prepare(&config, &map(&[("id", "42"), ("token", "tok")]));
    assert_eq!(prepared.method, HttpMethod::Post);
    assert_eq!(prepared.url, "http://localhost:8080/api/{ id }/42");
    assert_eq!(prepared.headers.0.get(&String::from("Authorization")), Some(String::from("tok")));
    assert_eq!(prepared.body, "{}");
}

#[test]
fn prepare_refuses_unknown_methods_and_kinds() {
    let config = Config { url: String::from("h"), port: 1 };
    let test = Test::from_value(String::from("t"), &test_table("patch", "/"));
    assert_eq!(test.try_prepare(&config, &StringMap::new()).err(), Some(RunFailure::NoMethod));
    let mut test = Test::from_value(String::from("t"), &test_table("get", "/"));
    test.request.request_type = String::from("ws");
    assert_eq!(test.try_prepare(&config, &StringMap::new()).err(), Some(RunFailure::UnknownType));
    let test = Test::from_value(String::from("t"), &test_table("delete", "/"));
    assert_eq!(test.prepare(&config, &StringMap::new()).method, HttpMethod::Delete);
}

fn response_json(token: JsonValue) -> JsonValue {
    JsonValue::Object(vec![
        (String::from("status"), JsonValue::Str(String::from("Ok"))),
        (String::from("content"), JsonValue::Object(vec![(String::from("token"), token)])),
    ])
}

#[test]
fn check_takes_the_values() {
    let test = Test::from_value(String::from("t"), &test_table("get", "/"));
    let json = response_json(JsonValue::Str(String::from("abc")));
    let taken = test.check(200, "{\"status\":\"Ok\"}", Some(&json)).unwrap();
    assert_eq!(taken, vec![(String::from("token"), String::from("abc"))]);
}

#[test]
fn check_failures() {
    let test = Test::from_value(String::from("t"), &test_table("get", "/"));
    let json = response_json(JsonValue::Str(String::from("abc")));
    assert_eq!(test.check(404, "{\"status\":", Some(&json)).err(), Some(RunFailure::StatusMismatch));
    assert_eq!(test.check(200, "{\"stat", Some(&json)).err(), Some(RunFailure::BodyMismatch));
    assert_eq!(test.check(200, "{\"status\":1", None).err(), Some(RunFailure::NotJson));
    let no_token = JsonValue::Object(vec![(String::from("content"), JsonValue::Object(vec![]))]);
    assert_eq!(test.check(200, "{\"status\":", Some(&no_token)).err(), Some(RunFailure::PathNotFound));
    let number = response_json(JsonValue::Other);
    assert_eq!(test.check(200, "{\"status\":", Some(&number)).err(), Some(RunFailure::NotAString));
}

#[test]
fn recorded_names_are_trimmed() {
    let mut values = map(&[("a", "0")]);
    record_values(&mut values, vec![(String::from(" a "), String::from("1")), (String::from("b"), String::from("2"))]);
    assert_eq!(values.get(&String::from("a")), Some(String::from("1")));
    assert_eq!(values.get(&String::from("b")), Some(String::from("2")));
    assert_eq!(values.len(), 2);
}

#[test]
fn error_messages() {
    assert_eq!(TestFileError::NoReq.message(), "No req in a test");
    assert_eq!(TestFileError::HeadersNotConvertible.message(), "Header cannot be convert");
}

#[test]
fn tests_from_text() {
    let text = "[config]\nurl = \"127.0.0.1\"\nport = 8080\n\n[tests.b]\n[[tests.b.req]]\ntype = \"http\"\nmethod = \"get\"\nurl = \"/b\"\nheaders = []\nbody = \"\"\nresponse = { body = \"\" }\n\n[tests.a]\n[[tests.a.req]]\ntype = \"http\"\nmethod = \"get\"\nurl = \"/a\"\nheaders = []\nbody = \"\"\nresponse = { body = \"\", statuscode = 201 }\n";
    let tests = Tests::from_text(text).unwrap();
    let names: Vec<&str> = tests.tests.iter().map(|t| t.name.as_str()).collect();
    assert_eq!(names, vec!["b", "a"]);
    assert_eq!(tests.tests[1].request.expected_response.statuscode, 201);
    assert_eq!(tests.config.port, 8080);
    assert!(Tests::from_text("not = = toml").is_err());
    assert_eq!(Tests::from_text("x = 1").err().unwrap(), "No tests table");
}

#[test]
fn check_response_reads_the_body_as_json() {
    let test = Test::from_value(String::from("t"), &test_table("get", "/"));
    let taken = test.check_response(200, "{\"status\":\"Ok\",\"content\":{\"token\":\"abc\"}}");
    assert_eq!(taken, vec![(String::from("token"), String::from("abc"))]);
    assert_eq!(test.try_check_response(200, "{\"stat").err(), Some(RunFailure::BodyMismatch));
    assert_eq!(test.try_check_response(200, "{\"status\":1,").err(), Some(RunFailure::NotJson));
}
