use get_proxy::json::{Json, JsonMap, JsonNumber, merge_json_objects, set_at, key, PathStep, scalar_to_text};
use get_proxy::json_text::value_text;

fn obj(pairs: Vec<(&str, Json)>) -> Json {
    let mut m = JsonMap::new();
    for (k, v) in pairs {
        m.insert(String::from(k), v);
    }
    Json::object(m)
}

#[test]
fn merge_adds_replaces_and_recurses() {
    let mut a = obj(vec![
        ("keep", Json::unsigned(1)),
        ("over", Json::string("old")),
        ("inner", obj(vec![("x", Json::unsigned(1)), ("y", Json::unsigned(2))])),
    ]);
    let b = obj(vec![
        ("over", Json::string("new")),
        ("add", Json::boolean(true)),
        ("inner", obj(vec![("y", Json::unsigned(20)), ("z", Json::unsigned(30))])),
    ]);
    merge_json_objects(&mut a, &b);
    assert_eq!(a.get("keep").as_u64(), Some(1));
    assert_eq!(a.get("over").as_str(), Some(String::from("new")));
    assert_eq!(a.get("add").as_bool(), Some(true));
    let inner = a.get("inner");
    assert_eq!(inner.get("x").as_u64(), Some(1));
    assert_eq!(inner.get("y").as_u64(), Some(20));
    assert_eq!(inner.get("z").as_u64(), Some(30));
}

#[test]
fn merge_replaces_an_object_by_a_scalar() {
    let mut a = obj(vec![("k", obj(vec![("x", Json::unsigned(1))]))]);
    let b = obj(vec![("k", Json::unsigned(5))]);
    merge_json_objects(&mut a, &b);
    assert_eq!(a.get("k").as_u64(), Some(5));
}

#[test]
fn merge_with_empty_objects() {
    let mut a = obj(vec![("k", Json::unsigned(1))]);
    merge_json_objects(&mut a, &obj(vec![]));
    assert_eq!(a.get("k").as_u64(), Some(1));
    let mut e = obj(vec![]);
    merge_json_objects(&mut e, &obj(vec![("k", Json::unsigned(2))]));
    assert_eq!(e.get("k").as_u64(), Some(2));
}

#[test]
fn set_at_follows_index_mut() {
    let v = set_at(Json::null(), &[key("a"), key("b")], Json::unsigned(3)).unwrap();
    assert_eq!(v.get("a").get("b").as_u64(), Some(3));
    let arr = Json::array(vec![Json::null()]);
    let w = set_at(arr, &[PathStep::Pos(0), key("c")], Json::boolean(false)).unwrap();
    assert_eq!(w.at(0).get("c").as_bool(), Some(false));
    assert!(set_at(Json::array(vec![]), &[PathStep::Pos(0)], Json::null()).is_none());
    assert!(set_at(Json::unsigned(1), &[key("a")], Json::null()).is_none());
}

#[test]
fn scalar_texts() {
    assert_eq!(scalar_to_text(&Json::null()), Some(String::from("null")));
    assert_eq!(scalar_to_text(&Json::boolean(true)), Some(String::from("true")));
    assert_eq!(scalar_to_text(&Json::unsigned(42)), Some(String::from("42")));
    assert_eq!(scalar_to_text(&Json::string("a\"b")), Some(String::from("a\\\"b")));
    assert_eq!(scalar_to_text(&obj(vec![])), None);
}

#[test]
fn compact_text_of_values() {
    let v = obj(vec![
        ("z", Json::array(vec![Json::unsigned(1), Json::string("a\"b"), Json::null()])),
        ("a", obj(vec![("y", Json::boolean(false)), ("x", obj(vec![]))])),
        ("é", Json::array(vec![])),
        ("B", Json::Number(JsonNumber::NegInt(-5))),
    ]);
    assert_eq!(value_text(&v), "{\"B\":-5,\"a\":{\"x\":{},\"y\":false},\"z\":[1,\"a\\\"b\",null],\"é\":[]}");
    assert_eq!(value_text(&Json::string("t\n")), "\"t\\n\"");
    assert_eq!(value_text(&Json::array(vec![])), "[]");
}
