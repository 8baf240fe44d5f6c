use ripjson::error::SearchError;
use ripjson::json::{parse_document, Json, Member};
use ripjson::pattern::{combined_pattern, Matcher};
use ripjson::search::{
    format_match, leaf_suffix, push_line, search_members, search_string, visit_array, visit_obj,
    visit_value,
};

const PERSON: &str = "{\"name\":\"John Doe\",\"age\":43,\"address\":{\"street\":\"10 Downing Street\",\"city\":\"London\"},\"phones\":[\"+44 1234567\",\"+44 2345678\"]}";

fn member(key: &str, value: Json) -> Member {
    Member { key: key.to_string(), value }
}

fn text(value: &str) -> Json {
    Json::Text(value.to_string())
}

fn number(value: &str) -> Json {
    Json::Number(value.to_string())
}

fn matcher(pattern: &str) -> Matcher {
    Matcher::compile(pattern).unwrap()
}

#[test]
fn find_simple_string() {
    let mystr = "{\"name\": \"John Doe\",\"age\": 43,\"address\":
        {\"street\": \"10 Downing Street\",\"city\": \"London\"
        },\"phones\": [\"+44 1234567\",\"+44 2345678\"]}";
    let regex = ".*es.*/cit";
    assert_eq!(
        &search_string(regex, mystr, false).unwrap(),
        "address/city = \"London\"\n"
    );
}

#[test]
fn compact_input_gives_the_city_line_only() {
    assert_eq!(
        search_string(".*es.*/cit", PERSON, false),
        Ok("address/city = \"London\"\n".to_string())
    );
}

#[test]
fn array_elements_share_the_path_of_the_array() {
    assert_eq!(
        search_string("phones", PERSON, false),
        Ok("phones = \"+44 1234567\"\nphones = \"+44 2345678\"\n".to_string())
    );
}

#[test]
fn every_record_is_listed_in_document_order() {
    assert_eq!(
        search_string("", PERSON, false),
        Ok("name = \"John Doe\"\nage = 43\naddress/street = \"10 Downing Street\"\naddress/city = \"London\"\nphones = \"+44 1234567\"\nphones = \"+44 2345678\"\n".to_string())
    );
}

#[test]
fn members_keep_their_insertion_order() {
    assert_eq!(
        search_string("", "{\"z\": {\"y\": 1, \"b\": 2, \"m\": 3}, \"a\": 4}", false),
        Ok("z/y = 1\nz/b = 2\nz/m = 3\na = 4\n".to_string())
    );
}

#[test]
fn the_value_plays_no_part_in_matching() {
    assert_eq!(search_string("London", PERSON, false), Ok(String::new()));
    assert_eq!(search_string("43", PERSON, false), Ok(String::new()));
}

#[test]
fn matching_keeps_the_matching_records_only() {
    let all = search_string("", PERSON, false).unwrap();
    let kept = search_string("^a", PERSON, false).unwrap();
    let expected: String = all
        .lines()
        .filter(|line| line.starts_with('a'))
        .map(|line| format!("{}\n", line))
        .collect();
    assert_eq!(kept, expected);
    assert_eq!(kept, "age = 43\naddress/street = \"10 Downing Street\"\naddress/city = \"London\"\n");
}

#[test]
fn two_runs_give_the_same_output() {
    let first = search_string("e", PERSON, false);
    let second = search_string("e", PERSON, false);
    assert_eq!(first, second);
    assert!(first.is_ok());
}

#[test]
fn empty_containers_have_a_line_of_their_own() {
    assert_eq!(search_string("a", "{\"a\": {}}", false), Ok("a = {}\n".to_string()));
    assert_eq!(search_string("a", "{\"a\": []}", false), Ok("a = []\n".to_string()));
    assert_eq!(
        search_string("", "{\"a\": [{}, [], 1, {\"b\": []}]}", false),
        Ok("a = {}\na = []\na = 1\na/b = []\n".to_string())
    );
}

#[test]
fn a_document_without_members_gives_no_output() {
    assert_eq!(search_string("", "{}", false), Ok(String::new()));
}

#[test]
fn scalars_are_rendered_as_json_text() {
    assert_eq!(
        search_string(
            "",
            "{\"s\": \"a\\\"b\\\\c\\nd\", \"t\": true, \"f\": false, \"n\": null, \"i\": -7, \"x\": 1.5, \"big\": 18446744073709551615}",
            false
        ),
        Ok("s = \"a\\\"b\\\\c\\nd\"\nt = true\nf = false\nn = null\ni = -7\nx = 1.5\nbig = 18446744073709551615\n".to_string())
    );
}

#[test]
fn invalid_json_is_reported() {
    assert_eq!(search_string("a", "[1, 2]", false), Err(SearchError::InvalidJson));
    assert_eq!(search_string("a", "{\"a\": ", false), Err(SearchError::InvalidJson));
    assert_eq!(search_string("a", "", false), Err(SearchError::InvalidJson));
    assert_eq!(search_string("a", "{} {}", false), Err(SearchError::InvalidJson));
}

#[test]
fn invalid_pattern_is_reported() {
    assert_eq!(search_string("(", "{\"a\": 1}", false), Err(SearchError::InvalidPattern));
    assert_eq!(search_string("a{2,1}", "{}", true), Err(SearchError::InvalidPattern));
    assert_eq!(Matcher::compile("[").err(), Some(SearchError::InvalidPattern));
}

#[test]
fn invalid_json_comes_before_an_invalid_pattern() {
    assert_eq!(search_string("(", "not json", false), Err(SearchError::InvalidJson));
}

#[test]
fn ignoring_case_is_a_directive_before_the_expression() {
    assert_eq!(combined_pattern("Foo", true), "(?i)Foo");
    assert_eq!(combined_pattern("Foo", false), "Foo");
    assert_eq!(combined_pattern("", true), "(?i)");
}

#[test]
fn case_matters_unless_it_is_ignored() {
    let insensitive = matcher(&combined_pattern("Foo", true));
    let sensitive = matcher(&combined_pattern("Foo", false));
    assert!(insensitive.is_match("bar/foo"));
    assert!(!sensitive.is_match("bar/foo"));
    assert!(sensitive.is_match("bar/Foo"));
    assert_eq!(
        search_string(&combined_pattern("Foo", true), "{\"foo\": 1}", false),
        Ok("foo = 1\n".to_string())
    );
    assert_eq!(
        search_string(&combined_pattern("Foo", false), "{\"foo\": 1}", false),
        Ok(String::new())
    );
    assert_eq!(
        search_string(&combined_pattern("a|B", true), "{\"A\": 1, \"b\": 2, \"c\": 3}", false),
        Ok("A = 1\nb = 2\n".to_string())
    );
}

#[test]
fn a_pattern_matches_anywhere_in_the_path() {
    let m = matcher("s/c");
    assert!(m.is_match("address/city"));
    assert!(!m.is_match("address"));
    assert!(!matcher("^city").is_match("address/city"));
}

#[test]
fn format_match_skips_what_does_not_match() {
    let mut res = "kept\n".to_string();
    format_match(&matcher("x"), false, "address/city", " = 1", &mut res);
    assert_eq!(res, "kept\n");
    format_match(&matcher("x"), true, "address/city", " = 1", &mut res);
    assert_eq!(res, "kept\n");
}

#[test]
fn format_match_appends_the_line_of_a_match() {
    let mut res = "kept\n".to_string();
    format_match(&matcher("city"), false, "address/city", " = \"London\"", &mut res);
    assert_eq!(res, "kept\naddress/city = \"London\"\n");
    format_match(&matcher("a"), false, "a", "", &mut res);
    assert_eq!(res, "kept\naddress/city = \"London\"\na\n");
}

#[test]
fn highlighting_emphasises_every_match_and_nothing_else() {
    colored::control::set_override(true);
    let mut res = String::new();
    format_match(&matcher("d+"), true, "add/odd", " = dd", &mut res);
    assert_eq!(res, "a\u{1b}[1;31mdd\u{1b}[0m/o\u{1b}[1;31mdd\u{1b}[0m = dd\n");
    assert_eq!(
        search_string("phones", PERSON, true),
        Ok("\u{1b}[1;31mphones\u{1b}[0m = \"+44 1234567\"\n\u{1b}[1;31mphones\u{1b}[0m = \"+44 2345678\"\n".to_string())
    );
    assert_eq!(search_string("nothing", PERSON, true), Ok(String::new()));
    let mut whole = String::new();
    format_match(&matcher("^.*$"), true, "a/b", " = 1", &mut whole);
    assert_eq!(whole, "\u{1b}[1;31ma/b\u{1b}[0m = 1\n");
    let mut ends = String::new();
    format_match(&matcher("^a|c$"), true, "abc", "", &mut ends);
    assert_eq!(ends, "\u{1b}[1;31ma\u{1b}[0mb\u{1b}[1;31mc\u{1b}[0m\n");
    let mut empty = String::new();
    format_match(&matcher("x*"), true, "ab", "", &mut empty);
    assert_eq!(
        empty,
        "\u{1b}[1;31m\u{1b}[0ma\u{1b}[1;31m\u{1b}[0mb\u{1b}[1;31m\u{1b}[0m\n"
    );
    colored::control::set_override(false);
    let mut plain = String::new();
    format_match(&matcher("d+"), true, "add/odd", " = dd", &mut plain);
    assert_eq!(plain, "add/odd = dd\n");
    colored::control::unset_override();
}

#[test]
fn push_line_joins_path_extra_and_newline() {
    let mut res = "x".to_string();
    push_line("a/b", " = 1", &mut res);
    assert_eq!(res, "xa/b = 1\n");
    push_line("", "", &mut res);
    assert_eq!(res, "xa/b = 1\n\n");
}

#[test]
fn leaf_suffix_puts_the_sign_before_the_text() {
    assert_eq!(leaf_suffix("43"), " = 43");
    assert_eq!(leaf_suffix(""), " = ");
}

#[test]
fn visit_value_handles_every_kind() {
    let m = matcher("k");
    let mut res = String::new();
    visit_value(&m, false, "k", &Json::Null, &mut res);
    visit_value(&m, false, "k", &Json::Bool(true), &mut res);
    visit_value(&m, false, "k", &number("1e3"), &mut res);
    visit_value(&m, false, "k", &text("x"), &mut res);
    visit_value(&m, false, "k", &Json::Array(vec![]), &mut res);
    visit_value(&m, false, "k", &Json::Object(vec![]), &mut res);
    visit_value(&m, false, "other", &Json::Null, &mut res);
    assert_eq!(res, "k = null\nk = true\nk = 1e3\nk = \"x\"\nk = []\nk = {}\n");
}

#[test]
fn visit_array_keeps_the_path() {
    let value = Json::Array(vec![
        number("1"),
        Json::Array(vec![number("2"), Json::Array(vec![])]),
        Json::Object(vec![member("in", number("3"))]),
    ]);
    let mut res = String::new();
    visit_array(&matcher(""), false, "a", &value, &mut res);
    assert_eq!(res, "a = 1\na = 2\na = []\na/in = 3\n");
}

#[test]
fn visit_obj_extends_the_path_by_the_key() {
    let value = Json::Object(vec![
        member("x", number("1")),
        member("y", Json::Object(vec![member("z", text("deep"))])),
        member("w", Json::Array(vec![Json::Bool(false)])),
    ]);
    let mut res = String::new();
    visit_obj(&matcher(""), false, "root", &value, &mut res);
    assert_eq!(res, "root/x = 1\nroot/y/z = \"deep\"\nroot/w = false\n");
    let mut some = String::new();
    visit_obj(&matcher("y/"), false, "root", &value, &mut some);
    assert_eq!(some, "root/y/z = \"deep\"\n");
}

#[test]
fn search_members_starts_each_path_at_the_key() {
    let members = vec![member("a", number("1")), member("b", Json::Object(vec![]))];
    let mut res = String::new();
    search_members(&matcher(""), false, &members, &mut res);
    assert_eq!(res, "a = 1\nb = {}\n");
}

#[test]
fn parse_document_reads_the_members_in_order() {
    let members = parse_document("{\"b\": [1, \"two\", null], \"a\": {\"c\": true}, \"n\": 2.50}").unwrap();
    assert_eq!(
        members,
        vec![
            member("b", Json::Array(vec![number("1"), text("two"), Json::Null])),
            member("a", Json::Object(vec![member("c", Json::Bool(true))])),
            member("n", number("2.5")),
        ]
    );
    assert_eq!(parse_document("3").err(), Some(SearchError::InvalidJson));
}
