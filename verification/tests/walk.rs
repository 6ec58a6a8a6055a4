use telegraph_rs::dom::{clone_attributes, Dom, DomAttribute, DomEvent};
use telegraph_rs::walk::build_forest;

fn open(name: &str) -> DomEvent {
    DomEvent::Open { name: name.to_owned(), attributes: vec![] }
}

#[test]
fn build_forest_of_an_empty_walk_is_empty() {
    assert_eq!(build_forest(&vec![]), Some(vec![]));
}

#[test]
fn build_forest_nests_what_lies_between_open_and_close() {
    let events = vec![
        DomEvent::Other,
        DomEvent::Close,
        open("div"),
        DomEvent::Text("a".to_owned()),
        DomEvent::Close,
        DomEvent::Open {
            name: "img".to_owned(),
            attributes: vec![DomAttribute { name: "src".to_owned(), value: "s".to_owned() }],
        },
        DomEvent::Close,
        DomEvent::Close,
        DomEvent::Text("b".to_owned()),
        DomEvent::Close,
    ];
    assert_eq!(
        build_forest(&events),
        Some(vec![
            Dom::Other,
            Dom::Element {
                name: "div".to_owned(),
                attributes: vec![],
                children: vec![
                    Dom::Text("a".to_owned()),
                    Dom::Element {
                        name: "img".to_owned(),
                        attributes: vec![DomAttribute {
                            name: "src".to_owned(),
                            value: "s".to_owned()
                        }],
                        children: vec![],
                    },
                ],
            },
            Dom::Text("b".to_owned()),
        ])
    );
}

#[test]
fn build_forest_refuses_what_is_no_walk() {
    assert_eq!(build_forest(&vec![DomEvent::Close]), None);
    assert_eq!(build_forest(&vec![open("p")]), None);
    assert_eq!(build_forest(&vec![open("p"), DomEvent::Close, DomEvent::Close]), None);
    assert_eq!(build_forest(&vec![DomEvent::Text("a".to_owned())]), None);
    assert_eq!(
        build_forest(&vec![DomEvent::Text("a".to_owned()), open("p"), DomEvent::Close, DomEvent::Close]),
        None
    );
    assert_eq!(build_forest(&vec![DomEvent::Other, DomEvent::Other, DomEvent::Close]), None);
    assert_eq!(build_forest(&vec![open("p"), open("q"), DomEvent::Close]), None);
}

#[test]
fn clone_attributes_copies_each_attribute() {
    let attributes = vec![
        DomAttribute { name: "href".to_owned(), value: "a".to_owned() },
        DomAttribute { name: "id".to_owned(), value: "".to_owned() },
    ];
    assert_eq!(clone_attributes(&attributes), attributes);
    assert_eq!(clone_attributes(&vec![]), vec![]);
}
