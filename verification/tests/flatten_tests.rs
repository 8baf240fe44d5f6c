use ripjson::flatten::{extend_path, flatten, flatten_document, flatten_into, MatchRecord};
use ripjson::json::{parse_document, render_scalar, Json, Member};

fn record(path: &str, text: &str) -> MatchRecord {
    MatchRecord { path: path.to_string(), text: text.to_string() }
}

fn member(key: &str, value: Json) -> Member {
    Member { key: key.to_string(), value }
}

fn number(value: &str) -> Json {
    Json::Number(value.to_string())
}

#[test]
fn an_empty_object_gives_one_record() {
    let document = parse_document("{\"a\": {}}").unwrap();
    assert_eq!(document, vec![member("a", Json::Object(vec![]))]);
    assert_eq!(flatten_document(&document), vec![record("a", "{}")]);
    assert_eq!(flatten(&Json::Object(vec![]), "a"), vec![record("a", "{}")]);
}

#[test]
fn an_empty_array_gives_one_record() {
    let document = parse_document("{\"a\": []}").unwrap();
    assert_eq!(document, vec![member("a", Json::Array(vec![]))]);
    assert_eq!(flatten_document(&document), vec![record("a", "[]")]);
    assert_eq!(flatten(&Json::Array(vec![]), "a"), vec![record("a", "[]")]);
}

#[test]
fn a_document_is_flattened_member_by_member() {
    let document = parse_document(
        "{\"name\":\"John Doe\",\"age\":43,\"address\":{\"street\":\"10 Downing Street\",\"city\":\"London\"},\"phones\":[\"+44 1234567\",\"+44 2345678\"]}",
    )
    .unwrap();
    assert_eq!(
        flatten_document(&document),
        vec![
            record("name", "\"John Doe\""),
            record("age", "43"),
            record("address/street", "\"10 Downing Street\""),
            record("address/city", "\"London\""),
            record("phones", "\"+44 1234567\""),
            record("phones", "\"+44 2345678\""),
        ]
    );
    assert_eq!(flatten_document(&Vec::new()), Vec::new());
}

#[test]
fn a_later_value_replaces_an_earlier_one_under_the_same_key() {
    let document = parse_document("{\"a\": 1, \"b\": 2, \"a\": 3}").unwrap();
    assert_eq!(flatten_document(&document), vec![record("a", "3"), record("b", "2")]);
}

#[test]
fn array_elements_are_flattened_under_the_same_path() {
    let value = Json::Array(vec![number("1"), Json::Text("e2".to_string())]);
    assert_eq!(flatten(&value, "a"), vec![record("a", "1"), record("a", "\"e2\"")]);
}

#[test]
fn nested_containers_are_decomposed() {
    let value = Json::Object(vec![
        member("name", Json::Text("John Doe".to_string())),
        member(
            "address",
            Json::Object(vec![member("city", Json::Text("London".to_string()))]),
        ),
        member("tags", Json::Array(vec![Json::Array(vec![]), Json::Object(vec![]), Json::Null])),
    ]);
    assert_eq!(
        flatten(&value, "p"),
        vec![
            record("p/name", "\"John Doe\""),
            record("p/address/city", "\"London\""),
            record("p/tags", "[]"),
            record("p/tags", "{}"),
            record("p/tags", "null"),
        ]
    );
}

#[test]
fn the_number_of_records_is_the_number_of_leaves() {
    // 3 scalars, 2 empty objects, 1 empty array
    let value = Json::Object(vec![
        member("a", number("1")),
        member("b", Json::Object(vec![])),
        member(
            "c",
            Json::Array(vec![Json::Bool(true), Json::Object(vec![]), Json::Array(vec![])]),
        ),
        member("d", Json::Object(vec![member("e", Json::Null)])),
    ]);
    assert_eq!(flatten(&value, "r").len(), 3 + 2 + 1);
}

#[test]
fn flatten_into_appends() {
    let mut found = vec![record("before", "0")];
    flatten_into(&Json::Bool(false), "x", &mut found);
    flatten_into(&Json::Array(vec![number("2")]), "y", &mut found);
    assert_eq!(found, vec![record("before", "0"), record("x", "false"), record("y", "2")]);
}

#[test]
fn extend_path_joins_with_a_slash() {
    assert_eq!(extend_path("address", "city"), "address/city");
    assert_eq!(extend_path("", "k"), "/k");
    assert_eq!(extend_path("a", ""), "a/");
}

#[test]
fn render_scalar_gives_json_text() {
    assert_eq!(render_scalar(&Json::Null), Some("null".to_string()));
    assert_eq!(render_scalar(&Json::Bool(true)), Some("true".to_string()));
    assert_eq!(render_scalar(&Json::Bool(false)), Some("false".to_string()));
    assert_eq!(render_scalar(&number("-12.5")), Some("-12.5".to_string()));
    assert_eq!(
        render_scalar(&Json::Text("John Doe".to_string())),
        Some("\"John Doe\"".to_string())
    );
    assert_eq!(
        render_scalar(&Json::Text("tab\there \"q\" \\ \u{1}".to_string())),
        Some("\"tab\\there \\\"q\\\" \\\\ \\u0001\"".to_string())
    );
    assert_eq!(render_scalar(&Json::Text(String::new())), Some("\"\"".to_string()));
}

#[test]
fn render_scalar_gives_nothing_for_a_container() {
    assert_eq!(render_scalar(&Json::Array(vec![])), None);
    assert_eq!(render_scalar(&Json::Object(vec![])), None);
    assert_eq!(render_scalar(&Json::Array(vec![Json::Null])), None);
}
