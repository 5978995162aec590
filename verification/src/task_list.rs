//! The intrusive ready-queue: a singly linked chain of task slots.
//!
//! Tasks are linked through a caller-owned arena of `next` links (one `usize`
//! per task slot), so the list itself stores only its head.  The empty queue
//! is marked by a sentinel: a real, permanently idle task slot whose index is
//! both the canonical empty-queue value and the chain terminator.  A ghost
//! sequence records the chain, and well-formedness ties the two together:
//! the list is empty exactly when the head equals the sentinel.

use vstd::prelude::*;

verus! {

/// The chain `items` starts at `head`, follows `links`, and terminates at the
/// sentinel `end`, which is not itself an item.
spec fn chain(links: Seq<usize>, items: Seq<usize>, head: usize, end: usize) -> bool
    decreases items.len(),
{
    if items.len() == 0 {
        head == end
    } else {
        &&& head == items[0]
        &&& head != end
        &&& (head as int) < links.len()
        &&& chain(links, items.drop_first(), links[head as int], end)
    }
}

/// No index occurs twice in the chain.
spec fn distinct(items: Seq<usize>) -> bool {
    forall|i: int, j: int| 0 <= i < j < items.len() ==> items[i] != items[j]
}

/// Intrusive singly linked queue of task-slot indices with a sentinel
/// terminator.
pub struct TaskList {
    head: usize,
    end: usize,
    items: Ghost<Seq<usize>>,
}

impl TaskList {
    /// The chain of task indices, front first.
    pub closed spec fn items(self) -> Seq<usize> {
        self.items@
    }

    /// The head: the first item, or the sentinel when empty.
    pub closed spec fn head_spec(self) -> usize {
        self.head
    }

    /// The sentinel index terminating the chain.
    pub closed spec fn end_spec(self) -> usize {
        self.end
    }

    /// Well-formed with respect to the link arena `links`.
    pub closed spec fn wf(self, links: Seq<usize>) -> bool {
        &&& (self.end as int) < links.len()
        &&& chain(links, self.items@, self.head, self.end)
        &&& distinct(self.items@)
    }

    /// A new, empty list terminated by the sentinel `end`.
    pub fn new(end: usize) -> (l: TaskList)
        ensures
            l.items() == Seq::<usize>::empty(),
            l.head_spec() == end,
            l.end_spec() == end,
    {
        TaskList { head: end, end, items: Ghost(Seq::empty()) }
    }

    /// The list is empty exactly when its head is the sentinel.
    pub fn is_empty(&self) -> (r: bool)
        ensures
            r == (self.head_spec() == self.end_spec()),
    {
        self.head == self.end
    }

    /// Link `item` in at the front through its own link field.
    pub fn push_front(&mut self, links: &mut Vec<usize>, item: usize)
        requires
            old(self).wf(old(links)@),
            (item as int) < old(links)@.len(),
            item != old(self).end_spec(),
            !old(self).items().contains(item),
        ensures
            final(self).wf(final(links)@),
            final(self).items() == seq![item] + old(self).items(),
            final(self).end_spec() == old(self).end_spec(),
            final(self).head_spec() == item,
            final(links)@ == old(links)@.update(item as int, old(self).head_spec()),
    {
        links.set(item, self.head);
        self.head = item;
        proof {
            let new_items = seq![item] + self.items@;
            lemma_chain_update(old(links)@, self.items@, old(self).head, self.end, item, old(
                self,
            ).head);
            assert(new_items.drop_first() =~= self.items@);
            assert(chain(links@, new_items, item, self.end));
            assert forall|i: int, j: int|
                0 <= i < j < new_items.len() implies new_items[i] != new_items[j] by {
                if i == 0 {
                    assert(self.items@[j - 1] == new_items[j]);
                    assert(self.items@.contains(new_items[j]));
                }
            }
            self.items = Ghost(new_items);
        }
    }

    /// Unlink and return the front item.  The list must not be empty.
    pub fn pop_front(&mut self, links: &Vec<usize>) -> (r: usize)
        requires
            old(self).wf(links@),
            old(self).items().len() > 0,
        ensures
            final(self).wf(links@),
            r == old(self).items()[0],
            final(self).items() == old(self).items().drop_first(),
            final(self).end_spec() == old(self).end_spec(),
            r != old(self).end_spec(),
            (r as int) < links@.len(),
            !final(self).items().contains(r),
    {
        let r = self.head;
        self.head = links[r];
        proof {
            self.items = Ghost(self.items@.drop_first());
            assert forall|k: int| 0 <= k < self.items@.len() implies self.items@[k] != r by {
                assert(old(self).items()[k + 1] == self.items@[k]);
            }
            if self.items@.contains(r) {
                let k = choose|k: int| 0 <= k < self.items@.len() && self.items@[k] == r;
                assert(false);
            }
        }
        r
    }

    /// Atomically swap the whole chain out: the returned list is the old
    /// chain, and this list becomes empty.  This lets the run loop snapshot
    /// the currently ready work.
    pub fn take(&mut self) -> (r: TaskList)
        ensures
            r == *old(self),
            final(self).items() == Seq::<usize>::empty(),
            final(self).head_spec() == old(self).end_spec(),
            final(self).end_spec() == old(self).end_spec(),
            forall|links: Seq<usize>|
                old(self).wf(links) ==> #[trigger] final(self).wf(links),
    {
        let r = TaskList { head: self.head, end: self.end, items: Ghost(self.items@) };
        self.head = self.end;
        proof {
            self.items = Ghost(Seq::empty());
        }
        r
    }

    /// Concatenate `other` onto this list.  An empty list adopts `other`'s
    /// chain as it stands; a non-empty one relinks `other`'s items onto its
    /// front one by one — the cheap way to splice one intrusive chain onto
    /// another — so they end up in reverse order.  The scheduler promises no
    /// fairness beyond retrying every ready task each pass, so the order of
    /// merged-in work is free to differ from `other`'s.
    pub fn merge(&mut self, other: TaskList, links: &mut Vec<usize>)
        requires
            old(self).wf(old(links)@),
            other.wf(old(links)@),
            other.end_spec() == old(self).end_spec(),
            forall|x: usize| old(self).items().contains(x) ==> !other.items().contains(x),
        ensures
            final(self).wf(final(links)@),
            final(self).end_spec() == old(self).end_spec(),
            final(self).items() == if old(self).items().len() == 0 {
                other.items()
            } else {
                other.items().reverse() + old(self).items()
            },
            final(links)@.len() == old(links)@.len(),
    {
        if self.is_empty() {
            proof {
                lemma_empty_iff_sentinel(*old(self), old(links)@);
            }
            self.head = other.head;
            proof {
                self.items = Ghost(other.items@);
            }
        } else {
            let mut rest = other;
            let ghost orig_self = self.items@;
            let ghost orig_other = other.items();
            loop
                invariant
                    self.wf(links@),
                    rest.wf(links@),
                    rest.end_spec() == self.end_spec(),
                    forall|x: usize| self.items().contains(x) ==> !rest.items().contains(x),
                    links@.len() == old(links)@.len(),
                    self.end_spec() == old(self).end_spec(),
                    rest.items().len() <= orig_other.len(),
                    rest.items() == orig_other.subrange(
                        orig_other.len() - rest.items().len(),
                        orig_other.len() as int,
                    ),
                    self.items() == orig_other.subrange(
                        0,
                        orig_other.len() - rest.items().len(),
                    ).reverse() + orig_self,
                ensures
                    self.wf(links@),
                    links@.len() == old(links)@.len(),
                    self.end_spec() == old(self).end_spec(),
                    self.items() == orig_other.reverse() + orig_self,
                decreases rest.items().len(),
            {
                if rest.is_empty() {
                    proof {
                        lemma_empty_iff_sentinel(rest, links@);
                        assert(rest.items().len() == 0);
                        assert(orig_other.subrange(0, orig_other.len() as int) =~= orig_other);
                    }
                    break ;
                }
                proof {
                    lemma_empty_iff_sentinel(rest, links@);
                }
                let ghost pre_rest = rest.items();
                let ghost pre_self = self.items();
                let ghost pre_links = links@;
                let t = rest.pop_front(links);
                proof {
                    assert(pre_rest.contains(t));
                    assert(!self.items().contains(t));
                }
                let ghost pre_head = self.head_spec();
                self.push_front(links, t);
                proof {
                    lemma_wf_links_update(rest, pre_links, t, pre_head);
                    let k = orig_other.len() - pre_rest.len();
                    assert(0 <= k && k < orig_other.len()) by {
                        assert(pre_rest.len() == orig_other.subrange(
                            k,
                            orig_other.len() as int,
                        ).len());
                    }
                    assert(pre_rest == orig_other.subrange(k, orig_other.len() as int));
                    assert(orig_other.subrange(k, orig_other.len() as int)[0] == orig_other[k]);
                    assert(t == orig_other[k]);
                    assert(rest.items() == pre_rest.drop_first());
                    assert forall|i: int| 0 <= i < rest.items().len() implies rest.items()[i]
                        == orig_other.subrange(k + 1, orig_other.len() as int)[i] by {
                        assert(rest.items()[i] == pre_rest[i + 1]);
                        assert(orig_other.subrange(k, orig_other.len() as int)[i + 1]
                            == orig_other[k + i + 1]);
                        assert(orig_other.subrange(k + 1, orig_other.len() as int)[i]
                            == orig_other[k + 1 + i]);
                    }
                    assert(rest.items() =~= orig_other.subrange(
                        k + 1,
                        orig_other.len() as int,
                    ));
                    assert(self.items() =~= orig_other.subrange(0, k + 1).reverse()
                        + orig_self) by {
                        assert(orig_other.subrange(0, k + 1).reverse().drop_first()
                            =~= orig_other.subrange(0, k).reverse());
                        assert(orig_other.subrange(0, k + 1).reverse()[0] == orig_other[k]);
                        assert(self.items() == seq![t] + pre_self);
                        assert(seq![t] + (orig_other.subrange(0, k).reverse() + orig_self)
                            =~= orig_other.subrange(0, k + 1).reverse() + orig_self);
                    }
                    assert forall|x: usize| self.items().contains(x) implies !rest.items().contains(
                        x,
                    ) by {
                        if rest.items().contains(x) {
                            let j = choose|j: int|
                                0 <= j < rest.items().len() && rest.items()[j] == x;
                            assert(pre_rest[j + 1] == x);
                            assert(pre_rest.contains(x));
                            if x == t {
                                assert(pre_rest[0] == t);
                                assert(!distinct(pre_rest) || j + 1 == 0);
                            } else {
                                let m = choose|m: int|
                                    0 <= m < self.items().len() && self.items()[m] == x;
                                assert(pre_self[m - 1] == x);
                                assert(pre_self.contains(x));
                            }
                        }
                    }
                }
            }
        }
    }
}

/// Under well-formedness, the head equals the sentinel exactly when the list
/// holds no items: `is_empty` answers precisely "is the model empty".
pub proof fn lemma_empty_iff_sentinel(l: TaskList, links: Seq<usize>)
    requires
        l.wf(links),
    ensures
        (l.head_spec() == l.end_spec()) <==> l.items().len() == 0,
{
}

/// A new list over any arena that contains its sentinel is well formed.
pub proof fn lemma_new_wf(l: TaskList, links: Seq<usize>)
    requires
        l.items().len() == 0,
        l.head_spec() == l.end_spec(),
        (l.end_spec() as int) < links.len(),
    ensures
        l.wf(links),
{
}

/// Every item of a well-formed list indexes into the arena and differs from
/// the sentinel.
pub proof fn lemma_wf_items_bounded(l: TaskList, links: Seq<usize>)
    requires
        l.wf(links),
    ensures
        forall|i: int|
            0 <= i < l.items().len() ==> ((#[trigger] l.items()[i]) as int) < links.len()
                && l.items()[i] != l.end_spec(),
{
    lemma_chain_bounds(links, l.items(), l.head_spec(), l.end_spec());
}

/// Updating a link that belongs to no item of the list leaves the list well
/// formed: the chain never reads that slot.
pub proof fn lemma_wf_links_update(l: TaskList, links1: Seq<usize>, at: usize, v: usize)
    requires
        l.wf(links1),
        (at as int) < links1.len(),
        !l.items().contains(at),
    ensures
        l.wf(links1.update(at as int, v)),
{
    lemma_chain_update(links1, l.items(), l.head_spec(), l.end_spec(), at, v);
}

/// Growing the arena, keeping existing links, leaves the list well formed.
pub proof fn lemma_wf_links_grow(l: TaskList, links1: Seq<usize>, links2: Seq<usize>)
    requires
        l.wf(links1),
        links1.len() <= links2.len(),
        forall|i: int| 0 <= i < links1.len() ==> links1[i] == links2[i],
    ensures
        l.wf(links2),
{
    lemma_chain_grow(links1, links2, l.items(), l.head_spec(), l.end_spec());
}

proof fn lemma_chain_bounds(links: Seq<usize>, items: Seq<usize>, head: usize, end: usize)
    requires
        chain(links, items, head, end),
    ensures
        forall|i: int|
            0 <= i < items.len() ==> ((#[trigger] items[i]) as int) < links.len() && items[i]
                != end,
    decreases items.len(),
{
    if items.len() > 0 {
        lemma_chain_bounds(links, items.drop_first(), links[head as int], end);
        assert forall|i: int|
            0 <= i < items.len() implies ((#[trigger] items[i]) as int) < links.len() && items[i]
            != end by {
            if i > 0 {
                assert(items.drop_first()[i - 1] == items[i]);
            }
        }
    }
}

proof fn lemma_chain_update(
    links: Seq<usize>,
    items: Seq<usize>,
    head: usize,
    end: usize,
    at: usize,
    v: usize,
)
    requires
        chain(links, items, head, end),
        (at as int) < links.len(),
        !items.contains(at),
    ensures
        chain(links.update(at as int, v), items, head, end),
    decreases items.len(),
{
    if items.len() > 0 {
        assert(items[0] == head);
        assert(items.contains(head));
        assert(head != at);
        let tail = items.drop_first();
        assert forall|k: int| 0 <= k < tail.len() implies tail[k] != at by {
            assert(items[k + 1] == tail[k]);
        }
        if tail.contains(at) {
            let k = choose|k: int| 0 <= k < tail.len() && tail[k] == at;
            assert(false);
        }
        lemma_chain_update(links, tail, links[head as int], end, at, v);
        assert(links.update(at as int, v)[head as int] == links[head as int]);
    }
}

proof fn lemma_chain_grow(
    links1: Seq<usize>,
    links2: Seq<usize>,
    items: Seq<usize>,
    head: usize,
    end: usize,
)
    requires
        chain(links1, items, head, end),
        links1.len() <= links2.len(),
        forall|i: int| 0 <= i < links1.len() ==> links1[i] == links2[i],
    ensures
        chain(links2, items, head, end),
    decreases items.len(),
{
    if items.len() > 0 {
        lemma_chain_grow(links1, links2, items.drop_first(), links1[head as int], end);
    }
}

} // verus!
