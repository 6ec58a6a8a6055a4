//! Putting a document together again from the events of a walk through it.
//!
//! A walk determines its document: no two sequences of nodes have the same
//! walk. [`build_forest`] finds the one that a sequence of events is the walk
//! of, where there is one.

use crate::dom::{
    clone_attributes, doms_view, events_view, forest_events, lemma_doms_view_push, node_events, Dom,
    DomEvent, DomEventView, DomView,
};
use vstd::prelude::*;

verus! {

/// Whether a sequence of events is empty or begins with the event that
/// leaves a node: what follows the walk through all the children of a node.
pub open spec fn closed(events: Seq<DomEventView>) -> bool {
    events.len() > 0 ==> events[0] is Close
}

/// The event that enters a node.
pub open spec fn entering(dom: DomView) -> DomEventView {
    match dom {
        DomView::Text(text) => DomEventView::Text(text),
        DomView::Element { name, attributes, children } => DomEventView::Open { name, attributes },
        DomView::Other => DomEventView::Other,
    }
}

/// The walk through a node begins with the event that enters it, which is
/// not the event that leaves a node, and ends with the event that leaves it.
pub proof fn lemma_node_events_ends(dom: DomView)
    ensures
        node_events(dom).len() >= 2,
        node_events(dom)[0] == entering(dom),
        !(node_events(dom)[0] is Close),
        node_events(dom).last() is Close,
{
}

/// The walk through a sequence with one more node at its end.
pub proof fn lemma_forest_events_push(forest: Seq<DomView>, dom: DomView)
    ensures
        forest_events(forest.push(dom)) == forest_events(forest) + node_events(dom),
{
    assert(forest.push(dom).drop_last() =~= forest);
}

/// The walk through two sequences of nodes, one after the other, is the walk
/// through the first followed by the walk through the second.
pub proof fn lemma_forest_events_concat(first: Seq<DomView>, second: Seq<DomView>)
    ensures
        forest_events(first + second) == forest_events(first) + forest_events(second),
    decreases second.len(),
{
    if second.len() == 0 {
        assert(first + second =~= first);
        assert(forest_events(first) + forest_events(second) =~= forest_events(first));
    } else {
        lemma_forest_events_concat(first, second.drop_last());
        assert((first + second).drop_last() =~= first + second.drop_last());
        assert((first + second).last() == second.last());
        assert(forest_events(first + second) =~= forest_events(first) + forest_events(second));
    }
}

/// The walk through a sequence of nodes that is not empty is the walk
/// through its first node followed by the walk through the others.
pub proof fn lemma_forest_events_front(forest: Seq<DomView>)
    requires
        forest.len() > 0,
    ensures
        forest_events(forest) == node_events(forest[0]) + forest_events(forest.skip(1)),
{
    let head = seq![forest[0]];
    assert(head.drop_last() =~= Seq::<DomView>::empty());
    assert(forest_events(head.drop_last()) =~= Seq::<DomEventView>::empty());
    assert(forest_events(head) == forest_events(head.drop_last()) + node_events(head.last()));
    assert(forest_events(head) =~= node_events(forest[0]));
    assert(head + forest.skip(1) =~= forest);
    lemma_forest_events_concat(head, forest.skip(1));
}

/// Two walks through one node each that begin the same sequence of events
/// are walks through the same node, and the same events follow them.
pub proof fn lemma_node_events_unique(
    a: DomView,
    after_a: Seq<DomEventView>,
    b: DomView,
    after_b: Seq<DomEventView>,
)
    requires
        node_events(a) + after_a == node_events(b) + after_b,
    ensures
        a == b,
        after_a == after_b,
    decreases a, 0nat,
{
    let all = node_events(a) + after_a;
    lemma_node_events_ends(a);
    lemma_node_events_ends(b);
    assert(all[0] == entering(a));
    assert((node_events(b) + after_b)[0] == entering(b));
    match a {
        DomView::Element { name, attributes, children } => {
            let other = b->children;
            let rest_a = seq![DomEventView::Close] + after_a;
            let rest_b = seq![DomEventView::Close] + after_b;
            assert(all.skip(1) =~= forest_events(children) + rest_a);
            assert((node_events(b) + after_b).skip(1) =~= forest_events(other) + rest_b);
            lemma_forest_events_prefix(children, rest_a, other, rest_b);
            let more = other.skip(children.len() as int);
            if more.len() > 0 {
                lemma_forest_events_front(more);
                lemma_node_events_ends(more[0]);
                assert((forest_events(more) + rest_b)[0] == node_events(more[0])[0]);
                assert(false);
            }
            assert(other =~= children);
            assert(forest_events(more) =~= Seq::<DomEventView>::empty());
            assert(rest_a =~= rest_b);
            assert(after_a =~= rest_a.skip(1));
            assert(after_b =~= rest_b.skip(1));
        },
        _ => {
            assert(after_a =~= all.skip(2));
            assert(after_b =~= (node_events(b) + after_b).skip(2));
        },
    }
}

/// Where the walk through one sequence of nodes, followed by any events, is
/// the walk through another followed by events that are closed, the first
/// sequence begins the second, and what follows the first walk is the walk
/// through the rest of the second with the closed events after it.
pub proof fn lemma_forest_events_prefix(
    first: Seq<DomView>,
    after_first: Seq<DomEventView>,
    second: Seq<DomView>,
    after_second: Seq<DomEventView>,
)
    requires
        forest_events(first) + after_first == forest_events(second) + after_second,
        closed(after_second),
    ensures
        first.len() <= second.len(),
        second.take(first.len() as int) == first,
        after_first == forest_events(second.skip(first.len() as int)) + after_second,
    decreases first, 1nat,
{
    if first.len() == 0 {
        assert(second.take(0) =~= first);
        assert(second.skip(0) =~= second);
        assert(forest_events(first) + after_first =~= after_first);
    } else {
        lemma_forest_events_front(first);
        lemma_node_events_ends(first[0]);
        let all = forest_events(first) + after_first;
        assert(all[0] == node_events(first[0])[0]);
        if second.len() == 0 {
            assert(forest_events(second) + after_second =~= after_second);
            assert(false);
        }
        lemma_forest_events_front(second);
        let rest_first = forest_events(first.skip(1)) + after_first;
        let rest_second = forest_events(second.skip(1)) + after_second;
        assert(all =~= node_events(first[0]) + rest_first);
        assert(forest_events(second) + after_second =~= node_events(second[0]) + rest_second);
        lemma_node_events_unique(first[0], rest_first, second[0], rest_second);
        lemma_forest_events_prefix(first.skip(1), after_first, second.skip(1), after_second);
        let n = first.len() as int;
        assert(second.skip(1).take(n - 1) == first.skip(1));
        assert(second.take(n) =~= first) by {
            assert forall|i: int| 0 <= i < n implies second.take(n)[i] == first[i] by {
                if i > 0 {
                    assert(second.skip(1).take(n - 1)[i - 1] == first.skip(1)[i - 1]);
                }
            }
        }
        assert(second.skip(1).skip(n - 1) =~= second.skip(n));
    }
}

/// No two sequences of nodes have the same walk.
pub proof fn lemma_walk_determines_forest(first: Seq<DomView>, second: Seq<DomView>)
    requires
        forest_events(first) == forest_events(second),
    ensures
        first == second,
{
    let none = Seq::<DomEventView>::empty();
    assert(forest_events(first) + none =~= forest_events(second) + none);
    lemma_forest_events_prefix(first, none, second, none);
    lemma_forest_events_prefix(second, none, first, none);
    assert(second.take(first.len() as int) =~= second);
}

/// Whether the events of a walk from position `start` up to position `end`
/// are the walk through `forest`, with nothing after them or the event that
/// leaves the parent of its nodes.
pub open spec fn reads(walk: Seq<DomEventView>, start: int, forest: Seq<DomView>, end: int) -> bool {
    &&& 0 <= start <= end <= walk.len()
    &&& forest_events(forest) == walk.subrange(start, end)
    &&& closed(walk.skip(end))
}

/// From one position a walk reads as at most one sequence of nodes, up to
/// one position.
pub proof fn lemma_reads_unique(
    walk: Seq<DomEventView>,
    start: int,
    first: Seq<DomView>,
    first_end: int,
    second: Seq<DomView>,
    second_end: int,
)
    requires
        reads(walk, start, first, first_end),
        reads(walk, start, second, second_end),
    ensures
        first == second,
        first_end == second_end,
{
    let after_first = walk.skip(first_end);
    let after_second = walk.skip(second_end);
    assert(forest_events(first) + after_first =~= walk.skip(start));
    assert(forest_events(second) + after_second =~= walk.skip(start));
    lemma_forest_events_prefix(first, after_first, second, after_second);
    lemma_forest_events_prefix(second, after_second, first, after_first);
    assert(second.take(first.len() as int) =~= second);
}

/// Where a walk reads as `forest` from `start` and the walk through `done`
/// ends at a position `at` that holds no event that leaves a node, `done`
/// begins `forest`, and the next node of `forest` is the one entered at `at`:
/// its walk begins there. A text or a node of another kind is left at once;
/// after an element is entered the walk reads as its children.
pub proof fn lemma_reads_next(
    walk: Seq<DomEventView>,
    start: int,
    at: int,
    done: Seq<DomView>,
    forest: Seq<DomView>,
    end: int,
)
    requires
        0 <= start <= at < walk.len(),
        forest_events(done) == walk.subrange(start, at),
        reads(walk, start, forest, end),
        !(walk[at] is Close),
    ensures
        done.len() < forest.len(),
        forest.take(done.len() as int) == done,
        entering(forest[done.len() as int]) == walk[at],
        at + node_events(forest[done.len() as int]).len() <= end,
        walk.subrange(at, at + node_events(forest[done.len() as int]).len()) == node_events(
            forest[done.len() as int],
        ),
        !(forest[done.len() as int] is Element) ==> at + 1 < walk.len() && walk[at + 1] is Close,
        forest[done.len() as int] is Element ==> reads(
            walk,
            at + 1,
            forest[done.len() as int]->children,
            at + node_events(forest[done.len() as int]).len() - 1,
        ) && at + node_events(forest[done.len() as int]).len() - 1 < walk.len(),
{
    let after_done = walk.skip(at);
    let after_forest = walk.skip(end);
    assert(forest_events(done) + after_done =~= walk.skip(start));
    assert(forest_events(forest) + after_forest =~= walk.skip(start));
    lemma_forest_events_prefix(done, after_done, forest, after_forest);
    let rest = forest.skip(done.len() as int);
    assert(after_done[0] == walk[at]);
    if rest.len() == 0 {
        assert(forest_events(rest) + after_forest =~= after_forest);
        assert(false);
    }
    let next = rest[0];
    assert(next == forest[done.len() as int]);
    lemma_forest_events_front(rest);
    lemma_node_events_ends(next);
    let n = node_events(next).len() as int;
    let others = forest_events(rest.skip(1)) + after_forest;
    assert(after_done =~= node_events(next) + others);
    assert(after_done.len() == walk.len() - at);
    assert(after_forest.len() == walk.len() - end);
    assert(walk.subrange(at, at + n) =~= node_events(next)) by {
        assert forall|k: int| 0 <= k < n implies walk.subrange(at, at + n)[k] == node_events(
            next,
        )[k] by {
            assert(after_done[k] == walk[at + k]);
        }
    }
    assert(after_done[0] == node_events(next)[0]);
    match next {
        DomView::Element { name, attributes, children } => {
            let inner = forest_events(children);
            assert(n == inner.len() + 2);
            assert(walk.subrange(at + 1, at + n - 1) =~= inner) by {
                assert forall|k: int| 0 <= k < inner.len() implies walk.subrange(
                    at + 1,
                    at + n - 1,
                )[k] == inner[k] by {
                    assert(after_done[k + 1] == walk[at + 1 + k]);
                    assert(node_events(next)[k + 1] == inner[k]);
                }
            }
            assert(walk.skip(at + n - 1)[0] == after_done[n - 1]);
            assert(node_events(next)[n - 1] is Close);
        },
        _ => {
            assert(n == 2);
            assert(after_done[1] == walk[at + 1]);
        },
    }
}

/// Reads the nodes that follow one another from position `start` of a walk,
/// up to the event that leaves their parent or to the end of the walk.
fn read_forest(events: &Vec<DomEvent>, start: usize) -> (r: Option<(Vec<Dom>, usize)>)
    requires
        start <= events.len(),
    ensures
        match r {
            Some((forest, end)) => reads(
                events_view(events@),
                start as int,
                doms_view(forest@),
                end as int,
            ),
            None => forall|forest: Seq<DomView>, end: int|
                !reads(events_view(events@), start as int, forest, end),
        },
    decreases events.len() - start,
{
    let ghost walk = events_view(events@);
    let mut forest: Vec<Dom> = Vec::new();
    let mut i: usize = start;
    proof {
        assert(doms_view(forest@) =~= Seq::<DomView>::empty());
        assert(walk.subrange(start as int, i as int) =~= Seq::<DomEventView>::empty());
    }
    loop
        invariant
            start <= i <= events.len(),
            walk == events_view(events@),
            forest_events(doms_view(forest@)) == walk.subrange(start as int, i as int),
        decreases events.len() - i,
    {
        if i >= events.len() {
            return Some((forest, i));
        }
        let ghost done = doms_view(forest@);
        match &events[i] {
            DomEvent::Close => {
                assert(walk.skip(i as int)[0] == walk[i as int]);
                return Some((forest, i));
            },
            DomEvent::Text(text) => {
                if i + 1 < events.len() && matches!(events[i + 1], DomEvent::Close) {
                    let node = Dom::Text(text.clone());
                    proof {
                        lemma_doms_view_push(forest@, node);
                        lemma_forest_events_push(done, node@);
                        assert(walk.subrange(start as int, i + 2) =~= walk.subrange(
                            start as int,
                            i as int,
                        ) + node_events(node@));
                    }
                    forest.push(node);
                    i += 2;
                } else {
                    assert forall|other: Seq<DomView>, end: int| !reads(
                        walk,
                        start as int,
                        other,
                        end,
                    ) by {
                        if reads(walk, start as int, other, end) {
                            lemma_reads_next(walk, start as int, i as int, done, other, end);
                        }
                    }
                    return None;
                }
            },
            DomEvent::Other => {
                if i + 1 < events.len() && matches!(events[i + 1], DomEvent::Close) {
                    let node = Dom::Other;
                    proof {
                        lemma_doms_view_push(forest@, node);
                        lemma_forest_events_push(done, node@);
                        assert(walk.subrange(start as int, i + 2) =~= walk.subrange(
                            start as int,
                            i as int,
                        ) + node_events(node@));
                    }
                    forest.push(node);
                    i += 2;
                } else {
                    assert forall|other: Seq<DomView>, end: int| !reads(
                        walk,
                        start as int,
                        other,
                        end,
                    ) by {
                        if reads(walk, start as int, other, end) {
                            lemma_reads_next(walk, start as int, i as int, done, other, end);
                        }
                    }
                    return None;
                }
            },
            DomEvent::Open { name, attributes } => {
                match read_forest(events, i + 1) {
                    Some((children, end)) => {
                        if end < events.len() {
                            let node = Dom::Element {
                                name: name.clone(),
                                attributes: clone_attributes(attributes),
                                children,
                            };
                            proof {
                                lemma_doms_view_push(forest@, node);
                                lemma_forest_events_push(done, node@);
                                assert(walk.skip(end as int)[0] == walk[end as int]);
                                assert(node_events(node@) =~= seq![walk[i as int]] + walk.subrange(
                                    i + 1,
                                    end as int,
                                ) + seq![walk[end as int]]);
                                assert(walk.subrange(start as int, end + 1) =~= walk.subrange(
                                    start as int,
                                    i as int,
                                ) + node_events(node@));
                            }
                            forest.push(node);
                            i = end + 1;
                        } else {
                            assert forall|other: Seq<DomView>, other_end: int| !reads(
                                walk,
                                start as int,
                                other,
                                other_end,
                            ) by {
                                if reads(walk, start as int, other, other_end) {
                                    lemma_reads_next(
                                        walk,
                                        start as int,
                                        i as int,
                                        done,
                                        other,
                                        other_end,
                                    );
                                    let next = other[done.len() as int];
                                    lemma_reads_unique(
                                        walk,
                                        i + 1,
                                        doms_view(children@),
                                        end as int,
                                        next->children,
                                        i + node_events(next).len() - 1,
                                    );
                                }
                            }
                            return None;
                        }
                    },
                    None => {
                        assert forall|other: Seq<DomView>, other_end: int| !reads(
                            walk,
                            start as int,
                            other,
                            other_end,
                        ) by {
                            if reads(walk, start as int, other, other_end) {
                                lemma_reads_next(
                                    walk,
                                    start as int,
                                    i as int,
                                    done,
                                    other,
                                    other_end,
                                );
                                let next = other[done.len() as int];
                                assert(reads(
                                    walk,
                                    i + 1,
                                    next->children,
                                    i + node_events(next).len() - 1,
                                ));
                            }
                        }
                        return None;
                    },
                }
            },
        }
    }
}

/// The sequence of nodes that a sequence of events is the walk of, where
/// there is one.
pub open spec fn walked(events: Seq<DomEventView>) -> Option<Seq<DomView>> {
    if exists|forest: Seq<DomView>| forest_events(forest) == events {
        Some(choose|forest: Seq<DomView>| forest_events(forest) == events)
    } else {
        None
    }
}

/// An optional sequence of nodes by its view.
pub open spec fn forest_opt_view(forest: Option<Vec<Dom>>) -> Option<Seq<DomView>> {
    match forest {
        Some(forest) => Some(doms_view(forest@)),
        None => None,
    }
}

/// The nodes that a walk goes through, as trees: the one sequence of nodes
/// whose walk the events are, or `None` where they are the walk of none.
pub fn build_forest(events: &Vec<DomEvent>) -> (r: Option<Vec<Dom>>)
    ensures
        forest_opt_view(r) == walked(events_view(events@)),
        r matches Some(forest) ==> forest_events(doms_view(forest@)) == events_view(events@),
        r is None ==> forall|forest: Seq<DomView>| forest_events(forest) != events_view(events@),
{
    let ghost walk = events_view(events@);
    match read_forest(events, 0) {
        Some((forest, end)) => {
            if end == events.len() {
                proof {
                    assert(walk.subrange(0, end as int) =~= walk);
                    assert(forest_events(doms_view(forest@)) == walk);
                    let found = choose|other: Seq<DomView>| forest_events(other) == walk;
                    lemma_walk_determines_forest(found, doms_view(forest@));
                }
                Some(forest)
            } else {
                assert forall|other: Seq<DomView>| forest_events(other) != walk by {
                    if forest_events(other) == walk {
                        assert(walk.subrange(0, walk.len() as int) =~= walk);
                        assert(walk.skip(walk.len() as int) =~= Seq::<DomEventView>::empty());
                        lemma_reads_unique(
                            walk,
                            0,
                            doms_view(forest@),
                            end as int,
                            other,
                            walk.len() as int,
                        );
                    }
                }
                None
            }
        },
        None => {
            assert forall|other: Seq<DomView>| forest_events(other) != walk by {
                if forest_events(other) == walk {
                    assert(walk.subrange(0, walk.len() as int) =~= walk);
                    assert(walk.skip(walk.len() as int) =~= Seq::<DomEventView>::empty());
                    assert(reads(walk, 0, other, walk.len() as int));
                }
            }
            None
        },
    }
}

/// A sequence of nodes is built again from its walk.
pub proof fn lemma_walked_forest(forest: Seq<DomView>)
    ensures
        walked(forest_events(forest)) == Some(forest),
{
    let found = choose|other: Seq<DomView>| forest_events(other) == forest_events(forest);
    lemma_walk_determines_forest(found, forest);
}

} // verus!
