//! A parsed document as plain values: the tree of its nodes, and the events
//! of a walk through it.
//!
//! `kuchikiki` parses the HTML. What it hands out is the walk through the
//! document it built, one event where a node is entered and one where it is
//! left; [`crate::walk::build_forest`] puts the tree together again from
//! those events.

use kuchikiki::iter::NodeEdge;
use kuchikiki::traits::TendrilSink;
use kuchikiki::NodeData;
use vstd::prelude::*;

verus! {

/// One attribute of an element: its local name and its value.
#[derive(Debug, PartialEq, Eq)]
pub struct DomAttribute {
    pub name: String,
    pub value: String,
}

/// A node of a document.
#[derive(Debug, PartialEq, Eq)]
pub enum Dom {
    /// A run of text.
    Text(String),
    /// An element: its local name, its attributes in the order of the
    /// document, and its children.
    Element { name: String, attributes: Vec<DomAttribute>, children: Vec<Dom> },
    /// A comment, a doctype, a processing instruction or a document node.
    Other,
}

/// One step of a walk through a document.
#[derive(Debug, PartialEq, Eq)]
pub enum DomEvent {
    /// A text node is entered.
    Text(String),
    /// An element is entered.
    Open { name: String, attributes: Vec<DomAttribute> },
    /// A node of another kind is entered.
    Other,
    /// The node entered last and not yet left is left.
    Close,
}

/// A [`DomAttribute`] with its texts as sequences of characters.
pub struct DomAttributeView {
    pub name: Seq<char>,
    pub value: Seq<char>,
}

/// A [`Dom`] with its texts as sequences of characters.
pub enum DomView {
    Text(Seq<char>),
    Element { name: Seq<char>, attributes: Seq<DomAttributeView>, children: Seq<DomView> },
    Other,
}

/// A [`DomEvent`] with its texts as sequences of characters.
pub enum DomEventView {
    Text(Seq<char>),
    Open { name: Seq<char>, attributes: Seq<DomAttributeView> },
    Other,
    Close,
}

impl View for DomAttribute {
    type V = DomAttributeView;

    open spec fn view(&self) -> DomAttributeView {
        DomAttributeView { name: self.name@, value: self.value@ }
    }
}

/// The views of a sequence of attributes, in order.
pub open spec fn attributes_view(attributes: Seq<DomAttribute>) -> Seq<DomAttributeView> {
    attributes.map_values(|a: DomAttribute| a@)
}

impl View for Dom {
    type V = DomView;

    open spec fn view(&self) -> DomView
        decreases self,
    {
        match self {
            Dom::Text(text) => DomView::Text(text@),
            Dom::Element { name, attributes, children } => DomView::Element {
                name: name@,
                attributes: attributes_view(attributes@),
                children: doms_view(children@),
            },
            Dom::Other => DomView::Other,
        }
    }
}

/// The views of a sequence of nodes, in order.
pub open spec fn doms_view(doms: Seq<Dom>) -> Seq<DomView>
    decreases doms,
{
    if doms.len() == 0 {
        Seq::empty()
    } else {
        doms_view(doms.drop_last()).push(doms.last()@)
    }
}

impl View for DomEvent {
    type V = DomEventView;

    open spec fn view(&self) -> DomEventView {
        match self {
            DomEvent::Text(text) => DomEventView::Text(text@),
            DomEvent::Open { name, attributes } => DomEventView::Open {
                name: name@,
                attributes: attributes_view(attributes@),
            },
            DomEvent::Other => DomEventView::Other,
            DomEvent::Close => DomEventView::Close,
        }
    }
}

/// The views of a sequence of events, in order.
pub open spec fn events_view(events: Seq<DomEvent>) -> Seq<DomEventView> {
    events.map_values(|e: DomEvent| e@)
}

/// `doms_view` keeps the length and maps each node to its view.
pub proof fn lemma_doms_view(doms: Seq<Dom>)
    ensures
        doms_view(doms).len() == doms.len(),
        forall|i: int| 0 <= i < doms.len() ==> (#[trigger] doms_view(doms)[i]) == doms[i]@,
    decreases doms.len(),
{
    if doms.len() > 0 {
        lemma_doms_view(doms.drop_last());
        assert(doms_view(doms) == doms_view(doms.drop_last()).push(doms.last()@));
    } else {
        assert(doms_view(doms) == Seq::<DomView>::empty());
    }
}

/// `doms_view` of a sequence with one more node at its end.
pub proof fn lemma_doms_view_push(doms: Seq<Dom>, dom: Dom)
    ensures
        doms_view(doms.push(dom)) == doms_view(doms).push(dom@),
{
    assert(doms.push(dom).drop_last() =~= doms);
    assert(doms_view(doms.push(dom)) == doms_view(doms.push(dom).drop_last()).push(
        doms.push(dom).last()@,
    ));
}

/// The walk through one node: the event that enters it, the walk through its
/// children, and the event that leaves it.
pub open spec fn node_events(dom: DomView) -> Seq<DomEventView>
    decreases dom,
{
    match dom {
        DomView::Text(text) => seq![DomEventView::Text(text), DomEventView::Close],
        DomView::Element { name, attributes, children } => seq![
            DomEventView::Open { name, attributes },
        ] + forest_events(children) + seq![DomEventView::Close],
        DomView::Other => seq![DomEventView::Other, DomEventView::Close],
    }
}

/// The walk through a sequence of nodes, one after the other.
pub open spec fn forest_events(forest: Seq<DomView>) -> Seq<DomEventView>
    decreases forest,
{
    if forest.len() == 0 {
        Seq::empty()
    } else {
        forest_events(forest.drop_last()) + node_events(forest.last())
    }
}

/// The longest text, in bytes, that is handed to the parser. The parser
/// keeps what it reads in buffers of at most 2^31 bytes and may write three
/// bytes for one that it reads, so a text of this length never fills one.
pub const MAX_HTML_LEN: usize = 0x2AAA_AAAA;

/// The walk through the document that `kuchikiki` parses an HTML text into:
/// for each node below the document node, in the order of the document, the
/// event that enters it and, after its descendants, the event that leaves it.
pub uninterp spec fn html_events(html: Seq<char>) -> Seq<DomEventView>;

/// Parses `html` with `kuchikiki::parse_html` and walks the document with
/// `NodeRef::traverse`. Each edge of the walk becomes one event: the start of
/// a text node its text, the start of an element its local name and its
/// attributes' local names and values in the order of their map, any other
/// start `Other`, and an end `Close`. The events are those that
/// [`html_events`] names. The text is at most [`MAX_HTML_LEN`] bytes long.
#[verifier::external_body]
pub(crate) fn document_events(html: &str) -> (events: Vec<DomEvent>)
    requires
        html.len() <= MAX_HTML_LEN,
    ensures
        events_view(events@) == html_events(html@),
{
    let document = kuchikiki::parse_html().one(html);
    document.traverse().map(|edge| match edge {
        NodeEdge::Start(node) => match node.data() {
            NodeData::Text(text) => DomEvent::Text(text.borrow().clone()),
            NodeData::Element(element) => DomEvent::Open {
                name: element.name.local.to_string(),
                attributes: element.attributes.borrow().map.iter().map(|(name, attribute)| DomAttribute {
                    name: name.local.to_string(),
                    value: attribute.value.clone(),
                }).collect(),
            },
            _ => DomEvent::Other,
        },
        NodeEdge::End(_) => DomEvent::Close,
    }).collect()
}

/// A copy of a list of attributes.
pub fn clone_attributes(attributes: &Vec<DomAttribute>) -> (copy: Vec<DomAttribute>)
    ensures
        attributes_view(copy@) == attributes_view(attributes@),
{
    let mut copy: Vec<DomAttribute> = Vec::new();
    let mut i: usize = 0;
    while i < attributes.len()
        invariant
            i <= attributes.len(),
            copy@.len() == i,
            forall|k: int| 0 <= k < i ==> (#[trigger] copy@[k])@ == attributes@[k]@,
        decreases attributes.len() - i,
    {
        copy.push(
            DomAttribute { name: attributes[i].name.clone(), value: attributes[i].value.clone() },
        );
        i += 1;
    }
    assert(attributes_view(copy@) =~= attributes_view(attributes@));
    copy
}

} // verus!
