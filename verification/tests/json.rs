use pickpocket::json::Json;

fn text(s: &str) -> Json {
    Json::Text(s.to_string())
}

#[test]
fn parse_reads_an_object_with_members_in_name_order() {
    let json = Json::parse("{\"b\": 1, \"a\": \"x\"}").unwrap();
    assert_eq!(
        json,
        Json::Object(vec![
            ("a".to_string(), text("x")),
            ("b".to_string(), Json::Number("1".to_string())),
        ])
    );
}

#[test]
fn parse_reads_every_kind_of_document() {
    assert_eq!(Json::parse("null"), Some(Json::Null));
    assert_eq!(Json::parse("true"), Some(Json::Bool(true)));
    assert_eq!(Json::parse("false"), Some(Json::Bool(false)));
    assert_eq!(Json::parse("-12"), Some(Json::Number("-12".to_string())));
    assert_eq!(Json::parse("1.5"), Some(Json::Number("1.5".to_string())));
    assert_eq!(Json::parse("\"a\\nb\""), Some(text("a\nb")));
    assert_eq!(
        Json::parse("[1, [\"x\"], {}]"),
        Some(Json::Array(vec![
            Json::Number("1".to_string()),
            Json::Array(vec![text("x")]),
            Json::Object(vec![]),
        ]))
    );
}

#[test]
fn parse_keeps_the_later_of_two_members_with_one_name() {
    let json = Json::parse("{\"k\": 1, \"k\": 2}").unwrap();
    assert_eq!(json, Json::Object(vec![("k".to_string(), Json::Number("2".to_string()))]));
}

#[test]
fn parse_refuses_what_is_not_json() {
    assert_eq!(Json::parse("{\"list\": "), None);
    assert_eq!(Json::parse(""), None);
    assert_eq!(Json::parse("{} trailing"), None);
    assert_eq!(Json::parse("<html></html>"), None);
}

#[test]
fn member_takes_the_last_of_two_members_with_one_name() {
    let json = Json::Object(vec![
        ("k".to_string(), Json::Bool(false)),
        ("other".to_string(), Json::Null),
        ("k".to_string(), Json::Bool(true)),
    ]);
    assert_eq!(json.member("k"), Some(&Json::Bool(true)));
    assert_eq!(json.member("other"), Some(&Json::Null));
    assert_eq!(json.member("absent"), None);
}

#[test]
fn member_of_what_is_no_object_is_none() {
    assert_eq!(Json::Null.member("k"), None);
    assert_eq!(text("k").member("k"), None);
    assert_eq!(Json::Array(vec![text("k")]).member("k"), None);
}

#[test]
fn text_is_given_by_strings_only() {
    assert_eq!(text("abc").text(), Some(&"abc".to_string()));
    assert_eq!(text("").text(), Some(&"".to_string()));
    assert_eq!(Json::Number("1".to_string()).text(), None);
    assert_eq!(Json::Null.text(), None);
    assert_eq!(Json::Object(vec![]).text(), None);
}

#[test]
fn members_are_given_by_objects_only() {
    let list = vec![("a".to_string(), Json::Null)];
    assert_eq!(Json::Object(vec![("a".to_string(), Json::Null)]).members(), Some(&list));
    assert_eq!(Json::Object(vec![]).members(), Some(&vec![]));
    assert_eq!(Json::Array(vec![]).members(), None);
    assert_eq!(Json::Null.members(), None);
}
