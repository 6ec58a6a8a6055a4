//! From a document to the content of a page.
//!
//! A text node becomes a text. An element becomes an element with its tag in
//! lower case, the `href` and `src` among its attributes, and the nodes that
//! its children become. A node of any other kind becomes nothing.

use crate::dom::{
    attributes_view, document_events, doms_view, events_view, html_events, lemma_doms_view, Dom,
    DomAttribute, DomAttributeView, DomEvent, DomEventView, DomView, MAX_HTML_LEN,
};
use crate::error::{Error, ErrorView};
use crate::node::{
    attrs_view, content_view, distinct_names, is_link_name, lemma_nodes_view,
    lemma_nodes_view_push, lemma_nodes_well_formed_names_distinct, link_names_only, nodes_text,
    nodes_view, nodes_well_formed, push_nodes_json, Node, NodeElement, NodeView,
};
use crate::text::{ascii_lower, eq_ignore_ascii_case};
use crate::walk::{build_forest, walked};
use vstd::prelude::*;
use vstd::string::*;

verus! {

/// A text with its ASCII letters in lower case.
pub open spec fn lower_text(text: Seq<char>) -> Seq<char> {
    text.map_values(|c: char| ascii_lower(c))
}

/// `str::to_ascii_lowercase` returns a copy of the string in which the ASCII
/// letters `A` to `Z` are `a` to `z` and every other character is unchanged.
pub assume_specification[ str::to_ascii_lowercase ](text: &str) -> (lower: String)
    ensures
        lower@ == lower_text(text@),
;

/// Whether an attribute list holds a name.
pub open spec fn has_name(attrs: Seq<(Seq<char>, Option<Seq<char>>)>, name: Seq<char>) -> bool {
    exists|i: int| 0 <= i < attrs.len() && (#[trigger] attrs[i]).0 == name
}

/// An attribute list once `name` has been given `value`: in the place where
/// the name stood, or at the end where it did not occur.
pub open spec fn with_attr(
    attrs: Seq<(Seq<char>, Option<Seq<char>>)>,
    name: Seq<char>,
    value: Seq<char>,
) -> Seq<(Seq<char>, Option<Seq<char>>)> {
    if has_name(attrs, name) {
        attrs.map_values(
            |a: (Seq<char>, Option<Seq<char>>)|
                if a.0 == name {
                    (name, Some(value))
                } else {
                    a
                },
        )
    } else {
        attrs.push((name, Some(value)))
    }
}

/// The attributes that an element keeps: those named `href` or `src`, in any
/// case, each with its value; where a name comes twice, its last value.
pub open spec fn link_attrs(attributes: Seq<DomAttributeView>) -> Seq<
    (Seq<char>, Option<Seq<char>>),
>
    decreases attributes.len(),
{
    if attributes.len() == 0 {
        Seq::empty()
    } else {
        let rest = link_attrs(attributes.drop_last());
        let last = attributes.last();
        if is_link_name(last.name) {
            with_attr(rest, last.name, last.value)
        } else {
            rest
        }
    }
}

/// The `attrs` of the element that an element becomes: absent where it keeps
/// no attribute.
pub open spec fn element_attrs(attributes: Seq<DomAttributeView>) -> Option<
    Seq<(Seq<char>, Option<Seq<char>>)>,
> {
    let attrs = link_attrs(attributes);
    if attrs.len() == 0 {
        None
    } else {
        Some(attrs)
    }
}

/// What a node of a document becomes: `None` for a node that is neither a
/// text nor an element.
pub open spec fn dom_node(dom: DomView) -> Option<NodeView>
    decreases dom,
{
    match dom {
        DomView::Text(text) => Some(NodeView::Text(text)),
        DomView::Element { name, attributes, children } => {
            let nodes = child_nodes(children);
            Some(
                NodeView::Element {
                    tag: lower_text(name),
                    attrs: element_attrs(attributes),
                    children: if nodes.len() == 0 {
                        None
                    } else {
                        Some(nodes)
                    },
                },
            )
        },
        DomView::Other => None,
    }
}

/// What the children of an element become: the nodes of those that become
/// one, in order.
pub open spec fn child_nodes(doms: Seq<DomView>) -> Seq<NodeView>
    decreases doms,
{
    if doms.len() == 0 {
        Seq::empty()
    } else {
        let rest = child_nodes(doms.drop_last());
        match dom_node(doms.last()) {
            Some(node) => rest.push(node),
            None => rest,
        }
    }
}

/// An optional node by its view.
pub open spec fn node_opt_view(node: Option<Node>) -> Option<NodeView> {
    match node {
        Some(node) => Some(node@),
        None => None,
    }
}

/// An optional attribute list by its view.
pub open spec fn attrs_opt_view(attrs: Option<Vec<(String, Option<String>)>>) -> Option<
    Seq<(Seq<char>, Option<Seq<char>>)>,
> {
    match attrs {
        Some(attrs) => Some(attrs_view(attrs@)),
        None => None,
    }
}

/// Whether `name` is `href` or `src`, in any mix of upper and lower case.
pub fn is_link(name: &str) -> (r: bool)
    ensures
        r == is_link_name(name@),
{
    eq_ignore_ascii_case(name, "href") || eq_ignore_ascii_case(name, "src")
}

/// Gives `name` the value `value` in `attrs`: in the place where the name
/// stands, or at the end where it does not occur.
fn set_attr(attrs: &mut Vec<(String, Option<String>)>, name: &str, value: &str)
    requires
        distinct_names(attrs_view(old(attrs)@)),
    ensures
        attrs_view(final(attrs)@) == with_attr(attrs_view(old(attrs)@), name@, value@),
        distinct_names(attrs_view(final(attrs)@)),
{
    let ghost before = attrs_view(attrs@);
    let mut i: usize = 0;
    while i < attrs.len()
        invariant
            i <= attrs.len(),
            attrs_view(attrs@) == before,
            attrs@ == old(attrs)@,
            distinct_names(before),
            forall|k: int| 0 <= k < i ==> (#[trigger] before[k]).0 != name@,
        decreases attrs.len() - i,
    {
        if attrs[i].0.as_str().unicode_len() == name.unicode_len() && str_eq(
            attrs[i].0.as_str(),
            name,
        ) {
            assert(before[i as int].0 == name@);
            attrs.set(i, (String::from_str(name), Some(String::from_str(value))));
            proof {
                let after = attrs_view(attrs@);
                assert(has_name(before, name@));
                assert forall|k: int| 0 <= k < before.len() implies #[trigger] after[k]
                    == with_attr(before, name@, value@)[k] by {
                    if k != i {
                        assert(after[k] == before[k]);
                        if k < i {
                            assert(before[k].0 != name@);
                        } else {
                            assert(before[i as int].0 != before[k].0);
                        }
                    }
                }
                assert(after =~= with_attr(before, name@, value@));
                assert forall|a: int, b: int| 0 <= a < b < after.len() implies
                    (#[trigger] after[a]).0 != (#[trigger] after[b]).0 by {
                    assert(before[a].0 != before[b].0);
                    assert(after[a].0 == before[a].0);
                    assert(after[b].0 == before[b].0);
                }
            }
            return ;
        }
        i += 1;
    }
    attrs.push((String::from_str(name), Some(String::from_str(value))));
    proof {
        let after = attrs_view(attrs@);
        assert(!has_name(before, name@));
        assert(after =~= before.push((name@, Some(value@))));
        assert forall|a: int, b: int| 0 <= a < b < after.len() implies
            (#[trigger] after[a]).0 != (#[trigger] after[b]).0 by {
            if b < before.len() {
                assert(before[a].0 != before[b].0);
            } else {
                assert(before[a].0 != name@);
            }
        }
    }
}

/// Whether two texts are the same.
fn str_eq(a: &str, b: &str) -> (r: bool)
    requires
        a@.len() == b@.len(),
    ensures
        r == (a@ == b@),
{
    let n = a.unicode_len();
    let mut i: usize = 0;
    while i < n
        invariant
            i <= n,
            n == a@.len(),
            n == b@.len(),
            forall|k: int| 0 <= k < i ==> a@[k] == b@[k],
        decreases n - i,
    {
        if a.get_char(i) != b.get_char(i) {
            return false;
        }
        i += 1;
    }
    assert(a@ =~= b@);
    true
}

/// Giving a value to `href` or `src` keeps an attribute list free of
/// repeated names and of other names.
pub proof fn lemma_with_attr_keeps(
    attrs: Seq<(Seq<char>, Option<Seq<char>>)>,
    name: Seq<char>,
    value: Seq<char>,
)
    requires
        distinct_names(attrs),
        link_names_only(attrs),
        is_link_name(name),
    ensures
        distinct_names(with_attr(attrs, name, value)),
        link_names_only(with_attr(attrs, name, value)),
        with_attr(attrs, name, value).len() > 0,
        has_name(with_attr(attrs, name, value), name),
        forall|other: Seq<char>|
            has_name(attrs, other) ==> has_name(with_attr(attrs, name, value), other),
        forall|other: Seq<char>|
            has_name(with_attr(attrs, name, value), other) ==> other == name || has_name(
                attrs,
                other,
            ),
{
    let after = with_attr(attrs, name, value);
    if has_name(attrs, name) {
        let at = choose|i: int| 0 <= i < attrs.len() && (#[trigger] attrs[i]).0 == name;
        assert(after[at].0 == name);
        assert forall|i: int, j: int| 0 <= i < j < after.len() implies
            (#[trigger] after[i]).0 != (#[trigger] after[j]).0 by {
            assert(after[i].0 == attrs[i].0);
            assert(after[j].0 == attrs[j].0);
        }
        assert forall|i: int| 0 <= i < after.len() implies is_link_name((#[trigger] after[i]).0) by {
            assert(after[i].0 == attrs[i].0);
        }
        assert forall|other: Seq<char>| has_name(attrs, other) implies has_name(after, other) by {
            let k = choose|k: int| 0 <= k < attrs.len() && (#[trigger] attrs[k]).0 == other;
            assert(after[k].0 == other);
        }
        assert forall|other: Seq<char>| has_name(after, other) implies other == name || has_name(
            attrs,
            other,
        ) by {
            let k = choose|k: int| 0 <= k < after.len() && (#[trigger] after[k]).0 == other;
            assert(attrs[k].0 == other);
        }
    } else {
        assert(after[attrs.len() as int].0 == name);
        assert forall|i: int, j: int| 0 <= i < j < after.len() implies
            (#[trigger] after[i]).0 != (#[trigger] after[j]).0 by {
            if j < attrs.len() {
                assert(attrs[i].0 != attrs[j].0);
            } else {
                assert(after[i] == attrs[i]);
            }
        }
        assert forall|i: int| 0 <= i < after.len() implies is_link_name((#[trigger] after[i]).0) by {
            if i < attrs.len() {
                assert(after[i] == attrs[i]);
            }
        }
        assert forall|other: Seq<char>| has_name(attrs, other) implies has_name(after, other) by {
            let k = choose|k: int| 0 <= k < attrs.len() && (#[trigger] attrs[k]).0 == other;
            assert(after[k].0 == other);
        }
        assert forall|other: Seq<char>| has_name(after, other) implies other == name || has_name(
            attrs,
            other,
        ) by {
            let k = choose|k: int| 0 <= k < after.len() && (#[trigger] after[k]).0 == other;
            if k < attrs.len() {
                assert(attrs[k].0 == other);
            }
        }
    }
}

/// Whether an element has an attribute of a given name.
pub open spec fn has_attribute(attributes: Seq<DomAttributeView>, name: Seq<char>) -> bool {
    exists|i: int| 0 <= i < attributes.len() && (#[trigger] attributes[i]).name == name
}

/// The attributes that an element keeps name nothing but `href` and `src`
/// and name nothing twice; a name is kept exactly where it is `href` or `src`
/// and the element has an attribute of that name.
pub proof fn lemma_link_attrs(attributes: Seq<DomAttributeView>)
    ensures
        distinct_names(link_attrs(attributes)),
        link_names_only(link_attrs(attributes)),
        forall|name: Seq<char>|
            has_name(link_attrs(attributes), name) <==> is_link_name(name) && has_attribute(
                attributes,
                name,
            ),
    decreases attributes.len(),
{
    let kept = link_attrs(attributes);
    if attributes.len() == 0 {
        assert forall|name: Seq<char>| has_name(kept, name) <==> is_link_name(name)
            && has_attribute(attributes, name) by {}
    } else {
        let before = attributes.drop_last();
        let last = attributes.last();
        let rest = link_attrs(before);
        lemma_link_attrs(before);
        if is_link_name(last.name) {
            lemma_with_attr_keeps(rest, last.name, last.value);
        }
        assert forall|name: Seq<char>| has_name(kept, name) <==> is_link_name(name)
            && has_attribute(attributes, name) by {
            if has_name(kept, name) {
                if is_link_name(last.name) && name == last.name {
                    assert(attributes[attributes.len() - 1].name == name);
                } else {
                    assert(has_name(rest, name));
                    let k = choose|k: int| 0 <= k < before.len() && (#[trigger] before[k]).name == name;
                    assert(attributes[k].name == name);
                }
            }
            if is_link_name(name) && has_attribute(attributes, name) {
                let k = choose|k: int|
                    0 <= k < attributes.len() && (#[trigger] attributes[k]).name == name;
                if k < before.len() {
                    assert(before[k].name == name);
                    assert(has_name(rest, name));
                } else {
                    assert(last.name == name);
                }
            }
        }
    }
}

/// Whether `value` is the value of the last attribute of an element that has
/// the name `name`.
pub open spec fn is_last_value(
    attributes: Seq<DomAttributeView>,
    name: Seq<char>,
    value: Seq<char>,
) -> bool {
    exists|j: int|
        0 <= j < attributes.len() && (#[trigger] attributes[j]).name == name && attributes[j].value
            == value && forall|k: int|
            j < k < attributes.len() ==> (#[trigger] attributes[k]).name != name
}

/// Whether every attribute of a list has a value, and it is the value of the
/// last attribute of that name among `attributes`.
pub open spec fn holds_last_values(
    kept: Seq<(Seq<char>, Option<Seq<char>>)>,
    attributes: Seq<DomAttributeView>,
) -> bool {
    forall|i: int|
        0 <= i < kept.len() ==> (#[trigger] kept[i]).1 is Some && is_last_value(
            attributes,
            kept[i].0,
            kept[i].1.unwrap(),
        )
}

/// Every attribute that an element keeps has a value, the empty text
/// included: the value of the last attribute of that name.
pub proof fn lemma_link_attrs_values(attributes: Seq<DomAttributeView>)
    ensures
        holds_last_values(link_attrs(attributes), attributes),
    decreases attributes.len(),
{
    let kept = link_attrs(attributes);
    if attributes.len() > 0 {
        let before = attributes.drop_last();
        let last = attributes.last();
        let rest = link_attrs(before);
        let end = attributes.len() - 1;
        lemma_link_attrs_values(before);
        lemma_link_attrs(before);
        assert forall|i: int| 0 <= i < kept.len() implies (#[trigger] kept[i]).1 is Some
            && is_last_value(attributes, kept[i].0, kept[i].1.unwrap()) by {
            if is_link_name(last.name) && kept[i].0 == last.name {
                assert(kept[i].1 == Some(last.value));
                assert(attributes[end].name == last.name);
            } else {
                assert(i < rest.len() && kept[i] == rest[i]);
                assert(is_last_value(before, rest[i].0, rest[i].1.unwrap()));
                let j = choose|j: int|
                    0 <= j < before.len() && (#[trigger] before[j]).name == rest[i].0
                        && before[j].value == rest[i].1.unwrap() && forall|k: int|
                        j < k < before.len() ==> (#[trigger] before[k]).name != rest[i].0;
                assert(attributes[j] == before[j]);
                assert(is_link_name(rest[i].0));
                assert forall|k: int| j < k < attributes.len() implies
                    (#[trigger] attributes[k]).name != rest[i].0 by {
                    if k < end {
                        assert(before[k].name != rest[i].0);
                    }
                }
            }
        }
    }
}

/// An element without an attribute named `href` or `src` becomes an element
/// without `attrs`, and only such an element does.
pub proof fn lemma_no_link_no_attrs(attributes: Seq<DomAttributeView>)
    ensures
        element_attrs(attributes) is None <==> forall|i: int|
            0 <= i < attributes.len() ==> !is_link_name((#[trigger] attributes[i]).name),
        element_attrs(attributes) matches Some(attrs) ==> attrs.len() > 0,
{
    lemma_link_attrs(attributes);
    let kept = link_attrs(attributes);
    if kept.len() > 0 {
        assert(has_name(kept, kept[0].0));
        let k = choose|k: int|
            0 <= k < attributes.len() && (#[trigger] attributes[k]).name == kept[0].0;
        assert(is_link_name(attributes[k].name));
    } else {
        assert forall|i: int| 0 <= i < attributes.len() implies !is_link_name(
            (#[trigger] attributes[i]).name,
        ) by {
            if is_link_name(attributes[i].name) {
                assert(has_attribute(attributes, attributes[i].name));
                assert(has_name(kept, attributes[i].name));
            }
        }
    }
}

/// The children of an element become as many nodes as there are texts and
/// elements among them.
pub proof fn lemma_child_nodes_empty(doms: Seq<DomView>)
    ensures
        child_nodes(doms).len() == 0 <==> forall|i: int|
            0 <= i < doms.len() ==> (#[trigger] doms[i]) is Other,
    decreases doms.len(),
{
    if doms.len() > 0 {
        lemma_child_nodes_empty(doms.drop_last());
        assert(child_nodes(doms) == {
            let rest = child_nodes(doms.drop_last());
            match dom_node(doms.last()) {
                Some(node) => rest.push(node),
                None => rest,
            }
        });
        if child_nodes(doms).len() == 0 {
            assert forall|i: int| 0 <= i < doms.len() implies (#[trigger] doms[i]) is Other by {
                if i < doms.len() - 1 {
                    assert(doms.drop_last()[i] is Other);
                }
            }
        } else {
            if forall|i: int| 0 <= i < doms.len() ==> (#[trigger] doms[i]) is Other {
                assert(doms[doms.len() - 1] is Other);
                assert forall|i: int| 0 <= i < doms.drop_last().len() implies
                    (#[trigger] doms.drop_last()[i]) is Other by {
                    assert(doms[i] is Other);
                }
            }
        }
    } else {
        assert(child_nodes(doms) =~= Seq::<NodeView>::empty());
    }
}

/// An element none of whose children is a text or an element becomes an
/// element without `children`, and only such an element does.
pub proof fn lemma_no_child_no_children(
    name: Seq<char>,
    attributes: Seq<DomAttributeView>,
    children: Seq<DomView>,
)
    ensures
        dom_node(DomView::Element { name, attributes, children }) is Some,
        dom_node(DomView::Element { name, attributes, children }).unwrap()->children is None
            <==> forall|i: int| 0 <= i < children.len() ==> (#[trigger] children[i]) is Other,
        dom_node(DomView::Element { name, attributes, children }).unwrap()->children matches Some(
            nodes,
        ) ==> nodes.len() > 0,
{
    lemma_child_nodes_empty(children);
}

/// Every node that a conversion produces is well formed, at every depth: its
/// attributes are `href` and `src` only and never an empty list, and its
/// children are never an empty list.
pub proof fn lemma_dom_node_well_formed(dom: DomView)
    ensures
        dom_node(dom) matches Some(node) ==> node.well_formed(),
    decreases dom, 0nat,
{
    match dom {
        DomView::Element { name, attributes, children } => {
            lemma_link_attrs(attributes);
            lemma_child_nodes_well_formed(children);
        },
        _ => {},
    }
}

/// Every node that the children of an element become is well formed.
pub proof fn lemma_child_nodes_well_formed(doms: Seq<DomView>)
    ensures
        nodes_well_formed(child_nodes(doms)),
    decreases doms, 1nat,
{
    if doms.len() > 0 {
        let rest = child_nodes(doms.drop_last());
        lemma_child_nodes_well_formed(doms.drop_last());
        lemma_dom_node_well_formed(doms.last());
        assert(child_nodes(doms) == match dom_node(doms.last()) {
            Some(node) => rest.push(node),
            None => rest,
        });
        assert forall|i: int| 0 <= i < child_nodes(doms).len() implies (#[trigger] child_nodes(
            doms,
        )[i]).well_formed() by {
            if i < rest.len() {
                assert(child_nodes(doms)[i] == rest[i]);
            }
        }
    } else {
        assert(child_nodes(doms) =~= Seq::<NodeView>::empty());
    }
}

/// The attributes that an element keeps, or `None` where it keeps none.
pub fn element_data_to_attribute(attributes: &Vec<DomAttribute>) -> (r: Option<
    Vec<(String, Option<String>)>,
>)
    ensures
        attrs_opt_view(r) == element_attrs(attributes_view(attributes@)),
        r matches Some(attrs) ==> attrs.len() > 0 && distinct_names(attrs_view(attrs@))
            && link_names_only(attrs_view(attrs@)),
{
    let ghost all = attributes_view(attributes@);
    let mut attrs: Vec<(String, Option<String>)> = Vec::new();
    let mut i: usize = 0;
    proof {
        assert(all.take(0) =~= Seq::<DomAttributeView>::empty());
        assert(attrs_view(attrs@) =~= link_attrs(all.take(0)));
    }
    while i < attributes.len()
        invariant
            i <= attributes.len(),
            all == attributes_view(attributes@),
            attrs_view(attrs@) == link_attrs(all.take(i as int)),
            distinct_names(attrs_view(attrs@)),
        decreases attributes.len() - i,
    {
        proof {
            assert(all.take(i + 1).drop_last() =~= all.take(i as int));
            assert(all.take(i + 1).last() == attributes@[i as int]@);
        }
        if is_link(attributes[i].name.as_str()) {
            set_attr(&mut attrs, attributes[i].name.as_str(), attributes[i].value.as_str());
        }
        i += 1;
    }
    proof {
        assert(all.take(i as int) =~= all);
        lemma_link_attrs(all);
    }
    if attrs.len() == 0 {
        None
    } else {
        Some(attrs)
    }
}

/// What a node of a document becomes: a text for a text, an element for an
/// element, `None` for a node of another kind.
pub fn dom_to_node(node: &Dom) -> (r: Option<Node>)
    ensures
        node_opt_view(r) == dom_node(node@),
        r matches Some(made) ==> made@.well_formed(),
    decreases node,
{
    proof {
        lemma_dom_node_well_formed(node@);
    }
    match node {
        Dom::Text(text) => Some(Node::Text(text.clone())),
        Dom::Element { name, attributes, children } => {
            let nodes = children_to_nodes(children);
            proof {
                lemma_nodes_view(nodes@);
            }
            let made = Node::NodeElement(
                NodeElement {
                    tag: name.as_str().to_ascii_lowercase(),
                    attrs: element_data_to_attribute(attributes),
                    children: if nodes.len() == 0 {
                        None
                    } else {
                        Some(nodes)
                    },
                },
            );
            assert(made@ == dom_node(node@).unwrap());
            Some(made)
        },
        Dom::Other => None,
    }
}

/// What the children of an element become: the nodes of those that are a
/// text or an element, in order.
pub fn children_to_nodes(children: &Vec<Dom>) -> (nodes: Vec<Node>)
    ensures
        nodes_view(nodes@) == child_nodes(doms_view(children@)),
        nodes_well_formed(nodes_view(nodes@)),
    decreases children,
{
    let ghost all = doms_view(children@);
    let mut nodes: Vec<Node> = Vec::new();
    let mut i: usize = 0;
    proof {
        lemma_doms_view(children@);
        assert(all.take(0) =~= Seq::<DomView>::empty());
        assert(nodes_view(nodes@) =~= child_nodes(all.take(0)));
    }
    while i < children.len()
        invariant
            i <= children.len(),
            all == doms_view(children@),
            all.len() == children.len(),
            forall|k: int| 0 <= k < children.len() ==> (#[trigger] all[k]) == children[k]@,
            nodes_view(nodes@) == child_nodes(all.take(i as int)),
        decreases children.len() - i,
    {
        proof {
            assert(all.take(i + 1).drop_last() =~= all.take(i as int));
            assert(all.take(i + 1).last() == all[i as int]);
        }
        match dom_to_node(&children[i]) {
            Some(node) => {
                proof {
                    lemma_nodes_view_push(nodes@, node);
                }
                nodes.push(node);
            },
            None => {},
        }
        i += 1;
    }
    proof {
        assert(all.take(i as int) =~= all);
        lemma_child_nodes_well_formed(all);
    }
    nodes
}

/// What a sequence of nodes of a document becomes: the nodes of those that
/// are a text or an element, in order. A node of another kind is left out,
/// at the top as below an element, so the result is never `None`.
pub fn doms_to_nodes(nodes: &Vec<Dom>) -> (r: Option<Vec<Node>>)
    ensures
        content_view(r) == Some(child_nodes(doms_view(nodes@))),
        r matches Some(made) ==> nodes_well_formed(nodes_view(made@)),
{
    Some(children_to_nodes(nodes))
}

/// The children of a node: none for a node that is not an element.
pub open spec fn children_of(dom: DomView) -> Seq<DomView> {
    match dom {
        DomView::Element { name, attributes, children } => children,
        _ => Seq::empty(),
    }
}

/// The body of a document: the last child of the last of its nodes.
pub open spec fn body_of(document: Seq<DomView>) -> Option<DomView> {
    if document.len() == 0 {
        None
    } else {
        let html = children_of(document.last());
        if html.len() == 0 {
            None
        } else {
            Some(html.last())
        }
    }
}

/// The content that the events of a walk through a document stand for, in
/// its JSON form: the array of what the children of the document's body
/// become. It is there where the events are the walk of a document that has
/// a body.
pub open spec fn events_json(events: Seq<DomEventView>) -> Result<Seq<char>, ErrorView> {
    match walked(events) {
        Some(document) => match body_of(document) {
            Some(body) => Ok(nodes_text(child_nodes(children_of(body)))),
            None => Err(ErrorView::Html),
        },
        None => Err(ErrorView::Html),
    }
}

/// A result with its text and its error taken by their views.
pub open spec fn text_result(r: Result<String, Error>) -> Result<Seq<char>, ErrorView> {
    match r {
        Ok(text) => Ok(text@),
        Err(e) => Err(e@),
    }
}

/// What the children of a document's body become, or `None` where the
/// document has no body.
pub fn body_to_nodes(document: &Vec<Dom>) -> (r: Option<Vec<Node>>)
    ensures
        match r {
            Some(nodes) => body_of(doms_view(document@)) matches Some(body) && nodes_view(nodes@)
                == child_nodes(children_of(body)) && nodes_well_formed(nodes_view(nodes@)),
            None => body_of(doms_view(document@)) is None,
        },
{
    proof {
        lemma_doms_view(document@);
    }
    if document.len() == 0 {
        return None;
    }
    match &document[document.len() - 1] {
        Dom::Element { children: html, .. } => {
            proof {
                lemma_doms_view(html@);
            }
            if html.len() == 0 {
                return None;
            }
            match &html[html.len() - 1] {
                Dom::Element { children, .. } => Some(children_to_nodes(children)),
                _ => {
                    let none: Vec<Node> = Vec::new();
                    assert(nodes_view(none@) =~= child_nodes(Seq::<DomView>::empty()));
                    Some(none)
                },
            }
        },
        _ => None,
    }
}

/// The JSON form of the content that the events of a walk through a
/// document stand for.
pub fn events_to_json(events: &Vec<DomEvent>) -> (r: Result<String, Error>)
    ensures
        text_result(r) == events_json(events_view(events@)),
{
    let document = match build_forest(events) {
        Some(document) => document,
        None => {
            return Err(Error::Html);
        },
    };
    let nodes = match body_to_nodes(&document) {
        Some(nodes) => nodes,
        None => {
            return Err(Error::Html);
        },
    };
    proof {
        lemma_nodes_well_formed_names_distinct(nodes_view(nodes@));
    }
    let mut json = String::new();
    push_nodes_json(&mut json, &nodes);
    assert(json@ =~= nodes_text(nodes_view(nodes@)));
    Ok(json)
}

/// The content of an HTML text in its JSON form, as the service takes it in
/// a request: the array of what the children of the body become that the
/// text parses into. The text is at most [`MAX_HTML_LEN`] bytes long.
pub fn html_to_node(html: &str) -> (r: Result<String, Error>)
    requires
        html.len() <= MAX_HTML_LEN,
    ensures
        text_result(r) == events_json(html_events(html@)),
{
    let events = document_events(html);
    events_to_json(&events)
}

} // verus!
