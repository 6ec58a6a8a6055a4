//! The content of a page: a tree of text leaves and elements, and its JSON
//! form.

use crate::json::{push_json_string, quoted};
use crate::text::{eq_ignore_ascii_case_text, opt_text};
use vstd::prelude::*;
use vstd::string::*;

verus! {

/// An element of page content.
///
/// `attrs` and `children` are `None`, not empty, where the element has none.
/// No name occurs twice in `attrs`.
#[derive(Debug, PartialEq, Eq)]
pub struct NodeElement {
    pub tag: String,
    pub attrs: Option<Vec<(String, Option<String>)>>,
    pub children: Option<Vec<Node>>,
}

/// A unit of page content: a text, or an element with its children.
#[derive(Debug, PartialEq, Eq)]
pub enum Node {
    Text(String),
    NodeElement(NodeElement),
}

/// A [`Node`] with its texts as sequences of characters.
pub enum NodeView {
    Text(Seq<char>),
    Element {
        tag: Seq<char>,
        attrs: Option<Seq<(Seq<char>, Option<Seq<char>>)>>,
        children: Option<Seq<NodeView>>,
    },
}

/// An attribute list with its texts as sequences of characters.
pub open spec fn attrs_view(attrs: Seq<(String, Option<String>)>) -> Seq<
    (Seq<char>, Option<Seq<char>>),
> {
    attrs.map_values(|a: (String, Option<String>)| (a.0@, opt_text(a.1)))
}

impl View for Node {
    type V = NodeView;

    open spec fn view(&self) -> NodeView
        decreases self,
    {
        match self {
            Node::Text(text) => NodeView::Text(text@),
            Node::NodeElement(element) => NodeView::Element {
                tag: element.tag@,
                attrs: match element.attrs {
                    Some(attrs) => Some(attrs_view(attrs@)),
                    None => None,
                },
                children: match element.children {
                    Some(children) => Some(nodes_view(children@)),
                    None => None,
                },
            },
        }
    }
}

/// The views of a sequence of nodes, in order.
pub open spec fn nodes_view(nodes: Seq<Node>) -> Seq<NodeView>
    decreases nodes,
{
    if nodes.len() == 0 {
        Seq::empty()
    } else {
        nodes_view(nodes.drop_last()).push(nodes.last()@)
    }
}

/// The view of an optional list of nodes.
pub open spec fn content_view(content: Option<Vec<Node>>) -> Option<Seq<NodeView>> {
    match content {
        Some(nodes) => Some(nodes_view(nodes@)),
        None => None,
    }
}

/// `nodes_view` keeps the length and maps each node to its view.
pub proof fn lemma_nodes_view(nodes: Seq<Node>)
    ensures
        nodes_view(nodes).len() == nodes.len(),
        forall|i: int| 0 <= i < nodes.len() ==> (#[trigger] nodes_view(nodes)[i]) == nodes[i]@,
    decreases nodes.len(),
{
    if nodes.len() > 0 {
        lemma_nodes_view(nodes.drop_last());
        assert(nodes_view(nodes) == nodes_view(nodes.drop_last()).push(nodes.last()@));
    } else {
        assert(nodes_view(nodes) == Seq::<NodeView>::empty());
    }
}

/// `nodes_view` of a sequence with one more node at its end.
pub proof fn lemma_nodes_view_push(nodes: Seq<Node>, node: Node)
    ensures
        nodes_view(nodes.push(node)) == nodes_view(nodes).push(node@),
{
    assert(nodes.push(node).drop_last() =~= nodes);
}

/// Whether a name is `href` or `src`, in any mix of upper and lower case.
pub open spec fn is_link_name(name: Seq<char>) -> bool {
    eq_ignore_ascii_case_text(name, "href"@) || eq_ignore_ascii_case_text(name, "src"@)
}

/// Whether no name occurs twice in an attribute list.
pub open spec fn distinct_names(attrs: Seq<(Seq<char>, Option<Seq<char>>)>) -> bool {
    forall|i: int, j: int| 0 <= i < j < attrs.len() ==> (#[trigger] attrs[i]).0 != (#[trigger] attrs[j]).0
}

/// Whether every name of an attribute list is `href` or `src`.
pub open spec fn link_names_only(attrs: Seq<(Seq<char>, Option<Seq<char>>)>) -> bool {
    forall|i: int| 0 <= i < attrs.len() ==> is_link_name((#[trigger] attrs[i]).0)
}

impl NodeView {
    /// What holds of every node that a conversion produces, at every depth:
    /// attributes, where present, are not empty, are `href` or `src` only and
    /// name nothing twice; children, where present, are not empty.
    pub open spec fn well_formed(self) -> bool
        decreases self,
    {
        match self {
            NodeView::Text(_) => true,
            NodeView::Element { tag, attrs, children } => {
                &&& match attrs {
                    Some(a) => a.len() > 0 && distinct_names(a) && link_names_only(a),
                    None => true,
                }
                &&& match children {
                    Some(c) => c.len() > 0 && nodes_well_formed(c),
                    None => true,
                }
            },
        }
    }
}

/// Whether every node of a sequence is well formed.
pub open spec fn nodes_well_formed(nodes: Seq<NodeView>) -> bool
    decreases nodes,
{
    forall|i: int| 0 <= i < nodes.len() ==> (#[trigger] nodes[i]).well_formed()
}

impl NodeView {
    /// Whether no name occurs twice among the attributes of the node, nor
    /// among those of any node below it: `attrs` is a mapping at every depth.
    pub open spec fn names_distinct(self) -> bool
        decreases self,
    {
        match self {
            NodeView::Text(_) => true,
            NodeView::Element { tag, attrs, children } => {
                &&& match attrs {
                    Some(a) => distinct_names(a),
                    None => true,
                }
                &&& match children {
                    Some(c) => nodes_names_distinct(c),
                    None => true,
                }
            },
        }
    }
}

/// Whether no node of a sequence repeats a name among its attributes, at any
/// depth.
pub open spec fn nodes_names_distinct(nodes: Seq<NodeView>) -> bool
    decreases nodes,
{
    forall|i: int| 0 <= i < nodes.len() ==> (#[trigger] nodes[i]).names_distinct()
}

/// Whether no node of a page's content repeats a name among its attributes.
pub open spec fn content_names_distinct(content: Option<Seq<NodeView>>) -> bool {
    match content {
        Some(nodes) => nodes_names_distinct(nodes),
        None => true,
    }
}

/// A well-formed node repeats no name among its attributes, at any depth.
pub proof fn lemma_well_formed_names_distinct(node: NodeView)
    requires
        node.well_formed(),
    ensures
        node.names_distinct(),
    decreases node, 0nat,
{
    match node {
        NodeView::Element { tag, attrs, children } => {
            match children {
                Some(c) => lemma_nodes_well_formed_names_distinct(c),
                None => {},
            }
        },
        _ => {},
    }
}

/// Well-formed nodes repeat no name among their attributes, at any depth.
pub proof fn lemma_nodes_well_formed_names_distinct(nodes: Seq<NodeView>)
    requires
        nodes_well_formed(nodes),
    ensures
        nodes_names_distinct(nodes),
    decreases nodes, 1nat,
{
    assert forall|i: int| 0 <= i < nodes.len() implies (#[trigger] nodes[i]).names_distinct() by {
        lemma_well_formed_names_distinct(nodes[i]);
    }
}

/// The JSON member of an attribute: its name, a colon, and its value or `null`.
pub open spec fn attr_text(attr: (Seq<char>, Option<Seq<char>>)) -> Seq<char> {
    quoted(attr.0) + ":"@ + match attr.1 {
        Some(value) => quoted(value),
        None => "null"@,
    }
}

/// The JSON members of an attribute list, separated by commas.
pub open spec fn attr_items(attrs: Seq<(Seq<char>, Option<Seq<char>>)>) -> Seq<char>
    decreases attrs.len(),
{
    if attrs.len() == 0 {
        Seq::empty()
    } else if attrs.len() == 1 {
        attr_text(attrs[0])
    } else {
        attr_items(attrs.drop_last()) + ","@ + attr_text(attrs.last())
    }
}

/// The JSON object of an attribute list.
pub open spec fn attrs_text(attrs: Seq<(Seq<char>, Option<Seq<char>>)>) -> Seq<char> {
    "{"@ + attr_items(attrs) + "}"@
}

impl NodeView {
    /// The JSON form of the node: a string for a text; for an element an
    /// object with `tag`, then `attrs` and `children` where they are present.
    pub open spec fn json_text(self) -> Seq<char>
        decreases self,
    {
        match self {
            NodeView::Text(text) => quoted(text),
            NodeView::Element { tag, attrs, children } => {
                "{\"tag\":"@ + quoted(tag) + (match attrs {
                    Some(a) => ",\"attrs\":"@ + attrs_text(a),
                    None => Seq::empty(),
                }) + (match children {
                    Some(c) => ",\"children\":["@ + node_items(c) + "]"@,
                    None => Seq::empty(),
                }) + "}"@
            },
        }
    }
}

/// The JSON forms of a sequence of nodes, separated by commas.
pub open spec fn node_items(nodes: Seq<NodeView>) -> Seq<char>
    decreases nodes,
{
    if nodes.len() == 0 {
        Seq::empty()
    } else if nodes.len() == 1 {
        nodes[0].json_text()
    } else {
        node_items(nodes.drop_last()) + ","@ + nodes.last().json_text()
    }
}

/// The JSON array of a sequence of nodes.
pub open spec fn nodes_text(nodes: Seq<NodeView>) -> Seq<char> {
    "["@ + node_items(nodes) + "]"@
}

/// The JSON form of a page's content: the array of its nodes, or `null` where
/// there is no content.
pub open spec fn content_text(content: Option<Seq<NodeView>>) -> Seq<char> {
    match content {
        Some(nodes) => nodes_text(nodes),
        None => "null"@,
    }
}

/// Whether no name occurs twice in `attrs`.
pub fn has_distinct_names(attrs: &Vec<(String, Option<String>)>) -> (r: bool)
    ensures
        r == distinct_names(attrs_view(attrs@)),
{
    let ghost names = attrs_view(attrs@);
    let mut j: usize = 0;
    while j < attrs.len()
        invariant
            j <= attrs.len(),
            names == attrs_view(attrs@),
            forall|a: int, b: int| 0 <= a < b < j ==> (#[trigger] names[a]).0 != (#[trigger] names[b]).0,
        decreases attrs.len() - j,
    {
        let mut i: usize = 0;
        while i < j
            invariant
                i <= j < attrs.len(),
                names == attrs_view(attrs@),
                forall|a: int| 0 <= a < i ==> (#[trigger] names[a]).0 != names[j as int].0,
            decreases j - i,
        {
            if attrs[i].0 == attrs[j].0 {
                assert(names[i as int].0 == names[j as int].0);
                return false;
            }
            i += 1;
        }
        j += 1;
    }
    true
}

/// Whether `node` repeats no name among its attributes, at any depth.
pub fn node_has_distinct_names(node: &Node) -> (r: bool)
    ensures
        r == node@.names_distinct(),
    decreases node,
{
    match node {
        Node::Text(_) => true,
        Node::NodeElement(element) => {
            let attrs_distinct = match &element.attrs {
                Some(attrs) => has_distinct_names(attrs),
                None => true,
            };
            let children_distinct = match &element.children {
                Some(children) => nodes_have_distinct_names(children),
                None => true,
            };
            attrs_distinct && children_distinct
        },
    }
}

/// Whether no node of `nodes` repeats a name among its attributes, at any
/// depth.
pub fn nodes_have_distinct_names(nodes: &Vec<Node>) -> (r: bool)
    ensures
        r == nodes_names_distinct(nodes_view(nodes@)),
    decreases nodes,
{
    let ghost items = nodes_view(nodes@);
    proof {
        lemma_nodes_view(nodes@);
    }
    let mut i: usize = 0;
    while i < nodes.len()
        invariant
            i <= nodes.len(),
            items == nodes_view(nodes@),
            items.len() == nodes.len(),
            forall|k: int| 0 <= k < nodes.len() ==> (#[trigger] items[k]) == nodes[k]@,
            forall|k: int| 0 <= k < i ==> (#[trigger] items[k]).names_distinct(),
        decreases nodes.len() - i,
    {
        if !node_has_distinct_names(&nodes[i]) {
            assert(!items[i as int].names_distinct());
            return false;
        }
        i += 1;
    }
    true
}

fn push_attr_json(out: &mut String, attr: &(String, Option<String>))
    ensures
        final(out)@ == old(out)@ + attr_text((attr.0@, opt_text(attr.1))),
{
    let ghost start = out@;
    push_json_string(out, attr.0.as_str());
    out.append(":");
    match &attr.1 {
        Some(value) => {
            push_json_string(out, value.as_str());
            assert(out@ =~= start + (quoted(attr.0@) + ":"@ + quoted(value@)));
        },
        None => {
            out.append("null");
            assert(out@ =~= start + (quoted(attr.0@) + ":"@ + "null"@));
        },
    }
}

fn push_attrs_json(out: &mut String, attrs: &Vec<(String, Option<String>)>)
    ensures
        final(out)@ == old(out)@ + attrs_text(attrs_view(attrs@)),
{
    let ghost start = out@;
    let ghost items = attrs_view(attrs@);
    out.append("{");
    let mut i: usize = 0;
    proof {
        assert(items.take(0) =~= Seq::<(Seq<char>, Option<Seq<char>>)>::empty());
        assert(out@ =~= start + "{"@ + attr_items(items.take(0)));
    }
    while i < attrs.len()
        invariant
            i <= attrs.len(),
            items == attrs_view(attrs@),
            out@ == start + "{"@ + attr_items(items.take(i as int)),
        decreases attrs.len() - i,
    {
        if i > 0 {
            out.append(",");
        }
        push_attr_json(out, &attrs[i]);
        proof {
            let done = items.take(i as int);
            let next = items.take(i + 1);
            assert(next.drop_last() =~= done);
            assert(next.last() == items[i as int]);
            if i == 0 {
                assert(attr_items(done) =~= Seq::<char>::empty());
            }
            assert(out@ =~= start + "{"@ + attr_items(next));
        }
        i += 1;
    }
    assert(items.take(i as int) =~= items);
    out.append("}");
    assert(out@ =~= start + attrs_text(items));
}

/// Appends the JSON form of `node` to `out`. The node repeats no name among
/// its attributes, at any depth, so that each `attrs` is written as a JSON
/// object without a repeated key.
pub fn push_node_json(out: &mut String, node: &Node)
    requires
        node@.names_distinct(),
    ensures
        final(out)@ == old(out)@ + node@.json_text(),
    decreases node,
{
    let ghost start = out@;
    match node {
        Node::Text(text) => push_json_string(out, text.as_str()),
        Node::NodeElement(element) => {
            out.append("{\"tag\":");
            push_json_string(out, element.tag.as_str());
            let ghost head = "{\"tag\":"@ + quoted(element.tag@);
            assert(out@ =~= start + head);
            let ghost middle;
            match &element.attrs {
                Some(attrs) => {
                    out.append(",\"attrs\":");
                    push_attrs_json(out, attrs);
                    proof {
                        middle = head + (",\"attrs\":"@ + attrs_text(attrs_view(attrs@)));
                    }
                },
                None => {
                    proof {
                        middle = head + Seq::<char>::empty();
                    }
                },
            }
            assert(out@ =~= start + middle);
            let ghost tail;
            match &element.children {
                Some(children) => {
                    out.append(",\"children\":[");
                    push_node_items(out, children);
                    out.append("]");
                    proof {
                        tail = middle + (",\"children\":["@ + node_items(nodes_view(children@))
                            + "]"@);
                    }
                },
                None => {
                    proof {
                        tail = middle + Seq::<char>::empty();
                    }
                },
            }
            assert(out@ =~= start + tail);
            out.append("}");
            assert(out@ =~= start + node@.json_text());
        },
    }
}

/// Appends the JSON forms of `nodes` to `out`, separated by commas. No node
/// repeats a name among its attributes, at any depth.
pub fn push_node_items(out: &mut String, nodes: &Vec<Node>)
    requires
        nodes_names_distinct(nodes_view(nodes@)),
    ensures
        final(out)@ == old(out)@ + node_items(nodes_view(nodes@)),
    decreases nodes,
{
    let ghost start = out@;
    let ghost items = nodes_view(nodes@);
    proof {
        lemma_nodes_view(nodes@);
        assert(items.take(0) =~= Seq::<NodeView>::empty());
        assert(out@ =~= start + node_items(items.take(0)));
    }
    let mut i: usize = 0;
    while i < nodes.len()
        invariant
            i <= nodes.len(),
            items == nodes_view(nodes@),
            items.len() == nodes.len(),
            forall|k: int| 0 <= k < nodes.len() ==> (#[trigger] items[k]) == nodes[k]@,
            nodes_names_distinct(items),
            out@ == start + node_items(items.take(i as int)),
        decreases nodes.len() - i,
    {
        if i > 0 {
            out.append(",");
        }
        assert(items[i as int].names_distinct());
        push_node_json(out, &nodes[i]);
        proof {
            let done = items.take(i as int);
            let next = items.take(i + 1);
            assert(next.drop_last() =~= done);
            assert(next.last() == items[i as int]);
            if i == 0 {
                assert(node_items(done) =~= Seq::<char>::empty());
            }
            assert(out@ =~= start + node_items(next));
        }
        i += 1;
    }
    assert(items.take(i as int) =~= items);
}

/// Appends the JSON array of `nodes` to `out`. No node repeats a name among
/// its attributes, at any depth.
pub fn push_nodes_json(out: &mut String, nodes: &Vec<Node>)
    requires
        nodes_names_distinct(nodes_view(nodes@)),
    ensures
        final(out)@ == old(out)@ + nodes_text(nodes_view(nodes@)),
{
    let ghost start = out@;
    out.append("[");
    push_node_items(out, nodes);
    out.append("]");
    assert(out@ =~= start + nodes_text(nodes_view(nodes@)));
}

/// The JSON form of a page's content, as the service takes it in a request.
/// No node repeats a name among its attributes, at any depth.
pub fn content_json(content: &Option<Vec<Node>>) -> (json: String)
    requires
        content_names_distinct(content_view(*content)),
    ensures
        json@ == content_text(content_view(*content)),
{
    match content {
        Some(nodes) => {
            let mut out = String::new();
            push_nodes_json(&mut out, nodes);
            assert(out@ =~= nodes_text(nodes_view(nodes@)));
            out
        },
        None => String::from_str("null"),
    }
}

/// The JSON form of a page's content, or `None` where a node repeats a name
/// among its attributes and `attrs` would be no JSON object.
pub fn checked_content_json(content: &Option<Vec<Node>>) -> (r: Option<String>)
    ensures
        match r {
            Some(json) => content_names_distinct(content_view(*content)) && json@
                == content_text(content_view(*content)),
            None => !content_names_distinct(content_view(*content)),
        },
{
    let distinct = match content {
        Some(nodes) => nodes_have_distinct_names(nodes),
        None => true,
    };
    if distinct {
        Some(content_json(content))
    } else {
        None
    }
}

} // verus!
