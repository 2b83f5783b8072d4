use gpt_bridge::json::{Json, Member};

fn member(name: &str, value: Json) -> Member {
    Member::new(name, value)
}

#[test]
fn a_string_gives_its_text() {
    assert_eq!(Json::text("hello").as_str(), Some("hello"));
    assert_eq!(Json::text("").as_str(), Some(""));
    assert_eq!(Json::Text("x".to_string()).as_str(), Some("x"));
}

#[test]
fn nothing_but_a_string_gives_a_text() {
    assert_eq!(Json::Null.as_str(), None);
    assert_eq!(Json::Bool(true).as_str(), None);
    assert_eq!(Json::Number("1".to_string()).as_str(), None);
    assert_eq!(Json::array(vec![Json::text("a")]).as_str(), None);
    assert_eq!(Json::object(vec![member("a", Json::text("b"))]).as_str(), None);
}

#[test]
fn an_array_gives_its_elements() {
    let array = Json::array(vec![Json::Null, Json::text("b")]);
    assert_eq!(array.as_array(), Some(&vec![Json::Null, Json::text("b")]));
    assert_eq!(Json::array(vec![]).as_array(), Some(&vec![]));
}

#[test]
fn nothing_but_an_array_gives_elements() {
    assert_eq!(Json::Null.as_array(), None);
    assert_eq!(Json::text("[]").as_array(), None);
    assert_eq!(Json::object(vec![]).as_array(), None);
}

#[test]
fn an_object_gives_the_member_under_a_name() {
    let object = Json::object(vec![
        member("a", Json::text("1")),
        member("b", Json::Bool(false)),
        member("", Json::Null),
    ]);
    assert_eq!(object.get("a"), Some(&Json::text("1")));
    assert_eq!(object.get("b"), Some(&Json::Bool(false)));
    assert_eq!(object.get(""), Some(&Json::Null));
    assert_eq!(object.get("c"), None);
    assert_eq!(object.get("A"), None);
}

#[test]
fn the_first_of_several_members_of_one_name_is_found() {
    let object = Json::object(vec![
        member("k", Json::text("first")),
        member("k", Json::text("second")),
    ]);
    assert_eq!(object.get("k"), Some(&Json::text("first")));
}

#[test]
fn nothing_but_an_object_has_members() {
    assert_eq!(Json::Null.get("a"), None);
    assert_eq!(Json::text("a").get("a"), None);
    assert_eq!(Json::array(vec![Json::object(vec![member("a", Json::Null)])]).get("a"), None);
    assert_eq!(Json::object(vec![]).get("a"), None);
}

#[test]
fn builders_make_the_plain_variants() {
    assert_eq!(Json::text("t"), Json::Text("t".to_string()));
    assert_eq!(Json::array(vec![Json::Null]), Json::Array(vec![Json::Null]));
    assert_eq!(
        Json::object(vec![member("n", Json::Null)]),
        Json::Object(vec![Member { name: "n".to_string(), value: Json::Null }])
    );
}
