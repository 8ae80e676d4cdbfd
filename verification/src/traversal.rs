//! Walking the element tree: every element that can be reached from the root
//! of a component, once, depth first and parent before children.

use vstd::prelude::*;
use crate::object_tree::{indices, Document, DocumentModel};

verus! {

/// How many elements are yet to be visited.
pub open spec fn pending(visited: Seq<bool>) -> nat
    decreases visited.len(),
{
    if visited.len() == 0 {
        0
    } else {
        pending(visited.drop_last()) + if visited.last() {
            0nat
        } else {
            1nat
        }
    }
}

/// Visiting an element leaves one element less to visit.
pub proof fn lemma_visit_decreases_pending(visited: Seq<bool>, e: int)
    requires
        0 <= e < visited.len(),
        !visited[e],
    ensures
        pending(visited.update(e, true)) + 1 == pending(visited),
    decreases visited.len(),
{
    if e == visited.len() - 1 {
        assert(visited.update(e, true).drop_last() =~= visited.drop_last());
    } else {
        assert(visited.update(e, true).drop_last() =~= visited.drop_last().update(e, true));
        lemma_visit_decreases_pending(visited.drop_last(), e);
    }
}

/// Whether every entry of `list` is the identity of one of `n` elements.
pub open spec fn all_within(list: Seq<int>, n: nat) -> bool {
    forall|k: int| 0 <= k < list.len() ==> 0 <= #[trigger] list[k] < n
}

/// The elements in the order in which a depth-first walk visits them, when
/// the elements of `stack` are still to be walked from, the last one first,
/// and `visited` marks the elements that were visited already. An element
/// is visited when it is first taken from the stack; its children are walked
/// next, in their order, before what else is on the stack.
pub open spec fn preorder_from(doc: DocumentModel, stack: Seq<int>, visited: Seq<bool>) -> Seq<int>
    decreases pending(visited), stack.len(),
{
    if stack.len() == 0 || visited.len() != doc.elements.len() || !all_within(
        stack,
        doc.elements.len(),
    ) {
        Seq::empty()
    } else {
        let e = stack.last();
        if visited[e] {
            preorder_from(doc, stack.drop_last(), visited)
        } else {
            proof {
                lemma_visit_decreases_pending(visited, e);
            }
            seq![e] + preorder_from(
                doc,
                stack.drop_last() + doc.elements[e].children.reverse(),
                visited.update(e, true),
            )
        }
    }
}

/// The roots of the components, in the order of the components.
pub open spec fn roots(doc: DocumentModel) -> Seq<int> {
    Seq::new(doc.components.len(), |c: int| doc.components[c].root_element)
}

/// The order in which the elements of the document are visited: the tree of
/// each component in turn, depth first, every element once.
pub open spec fn traversal_order(doc: DocumentModel) -> Seq<int> {
    preorder_from(doc, roots(doc).reverse(), Seq::new(doc.elements.len(), |i: int| false))
}

impl Document {
    /// The elements that can be reached from the roots of the components, in
    /// the order in which a pass visits them.
    pub fn traversal_order(&self) -> (order: Vec<usize>)
        requires
            self@.well_formed(),
        ensures
            indices(order@) == traversal_order(self@),
    {
        let count = self.element_count();
        let mut visited: Vec<bool> = Vec::new();
        let mut i: usize = 0;
        while i < count
            invariant
                i <= count,
                visited@ == Seq::new(i as nat, |k: int| false),
            decreases count - i,
        {
            visited.push(false);
            assert(visited@ =~= Seq::new((i + 1) as nat, |k: int| false));
            i += 1;
        }
        let mut stack: Vec<usize> = Vec::new();
        let mut c: usize = self.component_count();
        let ghost all_roots = roots(self@);
        assert(indices(stack@) =~= all_roots.reverse().take(0));
        while c > 0
            invariant
                c <= self@.components.len(),
                all_roots == roots(self@),
                self@.well_formed(),
                indices(stack@) == all_roots.reverse().take(self@.components.len() - c),
            decreases c,
        {
            c -= 1;
            let ghost before = indices(stack@);
            let root = self.component(c).unwrap().root_element;
            stack.push(root);
            proof {
                let taken = self@.components.len() - c;
                assert(all_roots.reverse()[taken - 1] == root as int);
                assert(indices(stack@) =~= before.push(root as int));
                assert(all_roots.reverse().take(taken) =~= all_roots.reverse().take(taken - 1).push(
                    root as int,
                ));
            }
        }
        assert(all_roots.reverse().take(self@.components.len() as int) =~= all_roots.reverse());
        let mut order: Vec<usize> = Vec::new();
        proof {
            assert(indices(order@) =~= Seq::<int>::empty());
            assert(indices(order@) + traversal_order(self@) =~= traversal_order(self@));
            assert(all_within(indices(stack@), self@.elements.len())) by {
                assert forall|k: int| 0 <= k < indices(stack@).len() implies 0 <= #[trigger] indices(
                    stack@,
                )[k] < self@.elements.len() by {
                    let position = all_roots.len() - 1 - k;
                    assert(indices(stack@)[k] == self@.components[position].root_element);
                }
            }
        }
        loop
            invariant
                self@.well_formed(),
                visited@.len() == self@.elements.len(),
                all_within(indices(stack@), self@.elements.len()),
                indices(order@) + preorder_from(self@, indices(stack@), visited@) == traversal_order(
                    self@,
                ),
            ensures
                stack@.len() == 0,
            decreases pending(visited@), stack@.len(),
        {
            let ghost stack_before = indices(stack@);
            let ghost order_before = indices(order@);
            let e = match stack.pop() {
                Some(e) => e,
                None => {
                    break ;
                },
            };
            proof {
                assert(stack_before.last() == e as int);
                assert(indices(stack@) =~= stack_before.drop_last());
                assert(0 <= stack_before[stack_before.len() - 1] < self@.elements.len());
            }
            if !visited[e] {
                proof {
                    lemma_visit_decreases_pending(visited@, e as int);
                }
                visited[e] = true;
                order.push(e);
                let children = &self.element(e).unwrap().children;
                let ghost base = indices(stack@);
                let ghost reversed = indices(children@).reverse();
                let mut j: usize = children.len();
                assert(base + reversed.take(0) =~= base);
                while j > 0
                    invariant
                        j <= children.len(),
                        self@.well_formed(),
                        e < self@.elements.len(),
                        indices(children@) == self@.elements[e as int].children,
                        reversed == indices(children@).reverse(),
                        indices(stack@) == base + reversed.take(children.len() - j),
                    decreases j,
                {
                    j -= 1;
                    let ghost before = indices(stack@);
                    stack.push(children[j]);
                    proof {
                        let taken = children.len() - j;
                        assert(reversed[taken - 1] == children@[j as int] as int);
                        assert(indices(stack@) =~= before.push(children@[j as int] as int));
                        assert(base + reversed.take(taken) =~= (base + reversed.take(taken - 1)).push(
                            children@[j as int] as int,
                        ));
                    }
                }
                proof {
                    assert(reversed.take(children.len() as int) =~= reversed);
                    assert(indices(order@) =~= order_before + seq![e as int]);
                    let rest = preorder_from(self@, indices(stack@), visited@);
                    assert((order_before + seq![e as int]) + rest =~= order_before + (seq![
                        e as int,
                    ] + rest));
                    assert forall|k: int| 0 <= k < indices(stack@).len() implies 0
                        <= #[trigger] indices(stack@)[k] < self@.elements.len() by {
                        if k < base.len() {
                            assert(indices(stack@)[k] == stack_before[k]);
                        } else {
                            let at = children.len() - 1 - (k - base.len());
                            assert(indices(stack@)[k] == self@.elements[e as int].children[at]);
                        }
                    }
                }
            }
        }
        proof {
            assert(indices(order@) + Seq::<int>::empty() =~= indices(order@));
        }
        order
    }
}

/// Whether `child` is among the children of the element `parent`.
pub open spec fn is_child(doc: DocumentModel, parent: int, child: int) -> bool {
    0 <= parent < doc.elements.len() && doc.elements[parent].children.contains(child)
}

/// Whether the entry `k` of `order` is a child of an entry before it.
pub open spec fn follows_parent(doc: DocumentModel, order: Seq<int>, k: int) -> bool {
    exists|p: int| 0 <= p < k && is_child(doc, #[trigger] order[p], order[k])
}

/// A walk visits no element twice, and none that was visited before it.
pub proof fn lemma_preorder_visits_once(doc: DocumentModel, stack: Seq<int>, visited: Seq<bool>)
    requires
        doc.well_formed(),
        visited.len() == doc.elements.len(),
        all_within(stack, doc.elements.len()),
    ensures
        all_within(preorder_from(doc, stack, visited), doc.elements.len()),
        forall|k: int|
            0 <= k < preorder_from(doc, stack, visited).len() ==> !visited[#[trigger] preorder_from(
                doc,
                stack,
                visited,
            )[k]],
        preorder_from(doc, stack, visited).no_duplicates(),
    decreases pending(visited), stack.len(),
{
    if stack.len() > 0 {
        let e = stack.last();
        let rest = stack.drop_last();
        assert(all_within(rest, doc.elements.len())) by {
            assert forall|k: int| 0 <= k < rest.len() implies 0 <= #[trigger] rest[k]
                < doc.elements.len() by {
                assert(rest[k] == stack[k]);
            }
        }
        if visited[e] {
            lemma_preorder_visits_once(doc, rest, visited);
        } else {
            let next = rest + doc.elements[e].children.reverse();
            let marked = visited.update(e, true);
            lemma_next_stack_within(doc, stack);
            lemma_visit_decreases_pending(visited, e);
            lemma_preorder_visits_once(doc, next, marked);
            let tail = preorder_from(doc, next, marked);
            let all = preorder_from(doc, stack, visited);
            assert(all == seq![e] + tail);
            assert forall|k: int| 0 <= k < all.len() implies 0 <= #[trigger] all[k]
                < doc.elements.len() && !visited[all[k]] by {
                if k > 0 {
                    assert(all[k] == tail[k - 1]);
                    assert(!marked[tail[k - 1]]);
                }
            }
            assert forall|k: int, l: int| 0 <= k < all.len() && 0 <= l < all.len() && k != l implies all[k]
                != all[l] by {
                if k > 0 {
                    assert(all[k] == tail[k - 1]);
                    assert(!marked[tail[k - 1]]);
                }
                if l > 0 {
                    assert(all[l] == tail[l - 1]);
                    assert(!marked[tail[l - 1]]);
                }
            }
        }
    }
}

/// The stack that a walk goes on with after it visited the last element of
/// `stack` holds elements of the document only.
pub proof fn lemma_next_stack_within(doc: DocumentModel, stack: Seq<int>)
    requires
        doc.well_formed(),
        stack.len() > 0,
        all_within(stack, doc.elements.len()),
    ensures
        all_within(
            stack.drop_last() + doc.elements[stack.last()].children.reverse(),
            doc.elements.len(),
        ),
{
    let e = stack.last();
    let children = doc.elements[e].children;
    let next = stack.drop_last() + children.reverse();
    assert forall|k: int| 0 <= k < next.len() implies 0 <= #[trigger] next[k]
        < doc.elements.len() by {
        if k < stack.len() - 1 {
            assert(next[k] == stack[k]);
        } else {
            let at = children.len() - 1 - (k - (stack.len() - 1));
            assert(next[k] == doc.elements[e].children[at]);
        }
    }
}

/// A walk leaves nothing out: every element that it was to walk from is
/// visited, unless it was visited before; and with an element that it
/// visits, it visits each of the element's children that was not visited
/// before.
pub proof fn lemma_preorder_is_complete(doc: DocumentModel, stack: Seq<int>, visited: Seq<bool>)
    requires
        doc.well_formed(),
        visited.len() == doc.elements.len(),
        all_within(stack, doc.elements.len()),
    ensures
        forall|k: int|
            0 <= k < stack.len() ==> visited[#[trigger] stack[k]] || preorder_from(
                doc,
                stack,
                visited,
            ).contains(stack[k]),
        forall|x: int, c: int|
            preorder_from(doc, stack, visited).contains(x) && #[trigger] is_child(doc, x, c)
                ==> visited[c] || preorder_from(doc, stack, visited).contains(c),
    decreases pending(visited), stack.len(),
{
    if stack.len() > 0 {
        let e = stack.last();
        let rest = stack.drop_last();
        let all = preorder_from(doc, stack, visited);
        assert(all_within(rest, doc.elements.len())) by {
            assert forall|k: int| 0 <= k < rest.len() implies 0 <= #[trigger] rest[k]
                < doc.elements.len() by {
                assert(rest[k] == stack[k]);
            }
        }
        if visited[e] {
            lemma_preorder_is_complete(doc, rest, visited);
            assert forall|k: int| 0 <= k < stack.len() implies visited[#[trigger] stack[k]]
                || all.contains(stack[k]) by {
                if k < rest.len() {
                    assert(stack[k] == rest[k]);
                }
            }
        } else {
            let children = doc.elements[e].children;
            let next = rest + children.reverse();
            let marked = visited.update(e, true);
            lemma_next_stack_within(doc, stack);
            lemma_visit_decreases_pending(visited, e);
            lemma_preorder_is_complete(doc, next, marked);
            let tail = preorder_from(doc, next, marked);
            assert(all == seq![e] + tail);
            assert(all[0] == e);
            assert forall|y: int| tail.contains(y) implies all.contains(y) by {
                let at = choose|at: int| 0 <= at < tail.len() && tail[at] == y;
                assert(all[at + 1] == y);
            }
            assert forall|k: int| 0 <= k < stack.len() implies visited[#[trigger] stack[k]]
                || all.contains(stack[k]) by {
                if k < rest.len() {
                    assert(stack[k] == next[k]);
                    assert(marked[next[k]] || tail.contains(next[k]));
                }
            }
            assert forall|x: int, c: int| all.contains(x) && #[trigger] is_child(doc, x, c) implies visited[c]
                || all.contains(c) by {
                if x == e {
                    let j = choose|j: int| 0 <= j < children.len() && children[j] == c;
                    let at = rest.len() + (children.len() - 1 - j);
                    assert(next[at] == c);
                    assert(marked[next[at]] || tail.contains(next[at]));
                } else {
                    let at = choose|at: int| 0 <= at < all.len() && all[at] == x;
                    assert(tail[at - 1] == x);
                    assert(tail.contains(x));
                    assert(marked[c] || tail.contains(c));
                }
            }
        }
    }
}

/// A walk visits parents first: every element that it visits is one that it
/// was to walk from, or a child of an element that it visited before.
pub proof fn lemma_preorder_parent_first(doc: DocumentModel, stack: Seq<int>, visited: Seq<bool>)
    requires
        doc.well_formed(),
        visited.len() == doc.elements.len(),
        all_within(stack, doc.elements.len()),
    ensures
        forall|k: int|
            0 <= k < preorder_from(doc, stack, visited).len() ==> stack.contains(
                #[trigger] preorder_from(doc, stack, visited)[k],
            ) || follows_parent(doc, preorder_from(doc, stack, visited), k),
    decreases pending(visited), stack.len(),
{
    if stack.len() > 0 {
        let e = stack.last();
        let rest = stack.drop_last();
        let all = preorder_from(doc, stack, visited);
        assert(all_within(rest, doc.elements.len())) by {
            assert forall|k: int| 0 <= k < rest.len() implies 0 <= #[trigger] rest[k]
                < doc.elements.len() by {
                assert(rest[k] == stack[k]);
            }
        }
        if visited[e] {
            lemma_preorder_parent_first(doc, rest, visited);
            let same = preorder_from(doc, rest, visited);
            assert(all == same);
            assert forall|k: int| 0 <= k < all.len() implies stack.contains(#[trigger] all[k])
                || follows_parent(doc, all, k) by {
                assert(rest.contains(same[k]) || follows_parent(doc, same, k));
                if rest.contains(all[k]) {
                    let at = choose|at: int| 0 <= at < rest.len() && rest[at] == all[k];
                    assert(stack[at] == all[k]);
                }
            }
        } else {
            let children = doc.elements[e].children;
            let next = rest + children.reverse();
            let marked = visited.update(e, true);
            lemma_next_stack_within(doc, stack);
            lemma_visit_decreases_pending(visited, e);
            lemma_preorder_parent_first(doc, next, marked);
            let tail = preorder_from(doc, next, marked);
            assert(all == seq![e] + tail);
            assert(all[0] == e);
            assert(stack[stack.len() - 1] == e);
            assert forall|k: int| 0 <= k < all.len() implies stack.contains(#[trigger] all[k])
                || follows_parent(doc, all, k) by {
                if k > 0 {
                    assert(all[k] == tail[k - 1]);
                    if next.contains(tail[k - 1]) {
                        let at = choose|at: int| 0 <= at < next.len() && next[at] == tail[k - 1];
                        if at < rest.len() {
                            assert(stack[at] == all[k]);
                            assert(stack.contains(all[k]));
                        } else {
                            let j = children.len() - 1 - (at - rest.len());
                            assert(children[j] == all[k]);
                            assert(children.contains(all[k]));
                            assert(is_child(doc, all[0], all[k]));
                            assert(follows_parent(doc, all, k));
                        }
                    } else {
                        assert(follows_parent(doc, tail, k - 1));
                        let p = choose|p: int|
                            0 <= p < k - 1 && is_child(doc, #[trigger] tail[p], tail[k - 1]);
                        assert(all[p + 1] == tail[p]);
                        assert(is_child(doc, all[p + 1], all[k]));
                        assert(follows_parent(doc, all, k));
                    }
                } else {
                    assert(stack[stack.len() - 1] == all[0]);
                    assert(stack.contains(all[0]));
                }
            }
        }
    }
}

/// The traversal visits every element that can be reached from the root of
/// a component exactly once, and no other: it visits no element twice; it
/// visits the root of every component; with an element it visits each of
/// its children; and every element that it visits is a root or a child of
/// an element that was visited before it.
pub proof fn lemma_traversal_visits_the_reachable_once(doc: DocumentModel)
    requires
        doc.well_formed(),
    ensures
        traversal_order(doc).no_duplicates(),
        all_within(traversal_order(doc), doc.elements.len()),
        forall|c: int|
            0 <= c < doc.components.len() ==> traversal_order(doc).contains(
                #[trigger] doc.components[c].root_element,
            ),
        forall|x: int, c: int|
            traversal_order(doc).contains(x) && #[trigger] is_child(doc, x, c) ==> traversal_order(
                doc,
            ).contains(c),
        forall|k: int|
            0 <= k < traversal_order(doc).len() ==> roots(doc).contains(
                #[trigger] traversal_order(doc)[k],
            ) || follows_parent(doc, traversal_order(doc), k),
{
    let stack = roots(doc).reverse();
    let visited = Seq::new(doc.elements.len(), |i: int| false);
    let order = traversal_order(doc);
    assert(all_within(stack, doc.elements.len())) by {
        assert forall|k: int| 0 <= k < stack.len() implies 0 <= #[trigger] stack[k]
            < doc.elements.len() by {
            assert(stack[k] == doc.components[stack.len() - 1 - k].root_element);
        }
    }
    lemma_preorder_visits_once(doc, stack, visited);
    lemma_preorder_is_complete(doc, stack, visited);
    lemma_preorder_parent_first(doc, stack, visited);
    assert forall|c: int| 0 <= c < doc.components.len() implies order.contains(
        #[trigger] doc.components[c].root_element,
    ) by {
        assert(stack[stack.len() - 1 - c] == doc.components[c].root_element);
    }
    assert forall|x: int, c: int| order.contains(x) && #[trigger] is_child(doc, x, c) implies order.contains(
        c,
    ) by {
        let j = choose|j: int|
            0 <= j < doc.elements[x].children.len() && doc.elements[x].children[j] == c;
        assert(0 <= doc.elements[x].children[j] < doc.elements.len());
    }
    assert forall|k: int| 0 <= k < order.len() implies roots(doc).contains(#[trigger] order[k])
        || follows_parent(doc, order, k) by {
        if stack.contains(order[k]) {
            let at = choose|at: int| 0 <= at < stack.len() && stack[at] == order[k];
            assert(roots(doc)[stack.len() - 1 - at] == order[k]);
        }
    }
}

} // verus!
