use telegraph_rs::json::{json_string, json_string_array, push_json_string};
use telegraph_rs::node::{
    checked_content_json, content_json, has_distinct_names, node_has_distinct_names,
    nodes_have_distinct_names, push_node_items, push_node_json, push_nodes_json, Node, NodeElement,
};

fn link(name: &str, value: &str) -> (String, Option<String>) {
    (name.to_owned(), Some(value.to_owned()))
}

fn element(attrs: Vec<(String, Option<String>)>, children: Option<Vec<Node>>) -> Node {
    Node::NodeElement(NodeElement { tag: "a".to_owned(), attrs: Some(attrs), children })
}

#[test]
fn json_string_quotes_and_escapes() {
    assert_eq!(json_string(""), "\"\"");
    assert_eq!(json_string("plain"), "\"plain\"");
    assert_eq!(json_string("a\"b\\c\n\t"), "\"a\\\"b\\\\c\\n\\t\"");
    assert_eq!(json_string("\u{8}\u{c}\r"), "\"\\b\\f\\r\"");
    assert_eq!(json_string("\u{0}\u{1}\u{b}\u{1f}"), "\"\\u0000\\u0001\\u000b\\u001f\"");
    assert_eq!(json_string(" /\u{7f}é\u{2028}"), "\" /\u{7f}é\u{2028}\"");
}

#[test]
fn push_json_string_appends() {
    let mut out = String::from("x=");
    push_json_string(&mut out, "y");
    assert_eq!(out, "x=\"y\"");
}

#[test]
fn json_string_array_frames_with_commas() {
    assert_eq!(json_string_array(&[]), "[]");
    assert_eq!(json_string_array(&["short_name"]), "[\"short_name\"]");
    assert_eq!(
        json_string_array(&["short_name", "page_count", "a\"b"]),
        "[\"short_name\",\"page_count\",\"a\\\"b\"]"
    );
}

#[test]
fn content_json_of_no_content_is_null() {
    assert_eq!(content_json(&None), "null");
    assert_eq!(content_json(&Some(vec![])), "[]");
}

#[test]
fn content_json_writes_tag_attrs_children_in_order() {
    let node = Node::NodeElement(NodeElement {
        tag: "a".to_owned(),
        attrs: Some(vec![link("href", "/x"), ("src".to_owned(), None)]),
        children: Some(vec![
            Node::Text("go".to_owned()),
            Node::NodeElement(NodeElement { tag: "br".to_owned(), attrs: None, children: None }),
        ]),
    });
    assert_eq!(
        content_json(&Some(vec![node, Node::Text("end".to_owned())])),
        r#"[{"tag":"a","attrs":{"href":"/x","src":null},"children":["go",{"tag":"br"}]},"end"]"#
    );
}

#[test]
fn content_json_agrees_with_serde_json_on_the_same_value() {
    let mut attrs = serde_json::Map::new();
    attrs.insert("href".to_owned(), serde_json::Value::String("/x \"y\"".to_owned()));
    let mut object = serde_json::Map::new();
    object.insert("tag".to_owned(), serde_json::Value::String("a".to_owned()));
    object.insert("attrs".to_owned(), serde_json::Value::Object(attrs));
    object.insert(
        "children".to_owned(),
        serde_json::Value::Array(vec![serde_json::Value::String("line\nbreak".to_owned())]),
    );
    let expected = serde_json::Value::Array(vec![serde_json::Value::Object(object)]);
    let node = element(vec![link("href", "/x \"y\"")], Some(vec![Node::Text("line\nbreak".to_owned())]));
    let json = content_json(&Some(vec![node]));
    let parsed: serde_json::Value = serde_json::from_str(&json).unwrap();
    assert_eq!(parsed, expected);
}

#[test]
fn push_node_json_appends_one_node() {
    let mut out = String::from(">");
    push_node_json(&mut out, &Node::Text("t".to_owned()));
    assert_eq!(out, ">\"t\"");
    let nodes = vec![Node::Text("a".to_owned()), Node::Text("b".to_owned())];
    let mut items = String::from("<");
    push_node_items(&mut items, &nodes);
    assert_eq!(items, "<\"a\",\"b\"");
    let mut list = String::new();
    push_nodes_json(&mut list, &nodes);
    assert_eq!(list, "[\"a\",\"b\"]");
}

#[test]
fn has_distinct_names_finds_a_repeated_name() {
    assert!(has_distinct_names(&vec![]));
    assert!(has_distinct_names(&vec![link("href", "a")]));
    assert!(has_distinct_names(&vec![link("href", "a"), link("src", "a"), link("HREF", "a")]));
    assert!(!has_distinct_names(&vec![link("href", "a"), link("src", "b"), link("href", "c")]));
    assert!(!has_distinct_names(&vec![link("src", "a"), ("src".to_owned(), None)]));
}

#[test]
fn distinct_names_are_asked_of_every_depth() {
    let twice = element(vec![link("href", "a"), link("href", "b")], None);
    let once = element(vec![link("href", "a")], None);
    assert!(node_has_distinct_names(&Node::Text("t".to_owned())));
    assert!(node_has_distinct_names(&once));
    assert!(!node_has_distinct_names(&twice));
    let nested = element(vec![link("src", "s")], Some(vec![Node::Text("t".to_owned()), twice]));
    assert!(!node_has_distinct_names(&nested));
    assert!(nodes_have_distinct_names(&vec![]));
    assert!(!nodes_have_distinct_names(&vec![once, nested]));
}

#[test]
fn checked_content_json_refuses_a_repeated_name() {
    assert_eq!(checked_content_json(&None), Some("null".to_owned()));
    let once = element(vec![link("href", "a")], None);
    assert_eq!(
        checked_content_json(&Some(vec![once])),
        Some(r#"[{"tag":"a","attrs":{"href":"a"}}]"#.to_owned())
    );
    let twice = element(vec![link("href", "a"), link("href", "b")], None);
    assert_eq!(checked_content_json(&Some(vec![twice])), None);
}
