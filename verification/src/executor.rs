//! The executor: notification handles, task slots, and the run loop.
//!
//! The executor is an explicit scheduler context.  It owns a slot arena of
//! suspended computations linked into an intrusive ready queue by index, a
//! reentrancy guard, and a scratch slot naming the waker currently being
//! resumed.  The caller owns the waker storage (a `Vec` of [`TaskWaker`]) and
//! the result slots (a `Vec` of [`Value`]), mirroring statically allocated
//! storage on a bare-metal target.
//!
//! A [`NotifyHandle`] is the notification-sink capability: invoking it
//! performs exactly one readiness-bit update on the waker it names, from any
//! context, any number of times; an empty handle is a legal no-op.

use vstd::prelude::*;

use crate::future::{Progress, Value};
use crate::task::{Task, TaskWaker};
use crate::task_list::{
    lemma_empty_iff_sentinel, lemma_new_wf, lemma_wf_items_bounded, lemma_wf_links_grow,
    lemma_wf_links_update, TaskList,
};

verus! {

/// A notification handle: names one task waker by index, or nothing.
///
/// Invoking it marks the named task ready to be polled again.  It never
/// touches the queue, so it is safe from any context and idempotent.
#[derive(Clone, Copy)]
pub struct NotifyHandle {
    target: Option<usize>,
}

/// The waker sequence after one notification: the named waker, when present
/// and in range, has its readiness bit set; nothing else changes.
pub open spec fn notified(wakers: Seq<TaskWaker>, h: NotifyHandle) -> Seq<TaskWaker> {
    match h.spec_target() {
        Some(i) => if i < wakers.len() {
            wakers.update(i as int, wakers[i as int].with_ready())
        } else {
            wakers
        },
        None => wakers,
    }
}

impl NotifyHandle {
    /// The waker index this handle names, if any.
    pub closed spec fn spec_target(self) -> Option<usize> {
        self.target
    }

    /// A no-op handle.  Invoking it is legal and does nothing.
    pub fn empty() -> (h: NotifyHandle)
        ensures
            h.spec_target() is None,
    {
        NotifyHandle { target: None }
    }

    /// A handle that marks the waker at `index` ready when invoked.
    pub fn for_waker(index: usize) -> (h: NotifyHandle)
        ensures
            h.spec_target() == Some(index),
    {
        NotifyHandle { target: Some(index) }
    }

    /// Whether this handle names the same waker (or the same nothing) as
    /// `other`.
    pub fn same_target(&self, other: &NotifyHandle) -> (r: bool)
        ensures
            r == (self.spec_target() == other.spec_target()),
    {
        match (self.target, other.target) {
            (None, None) => true,
            (Some(a), Some(b)) => a == b,
            _ => false,
        }
    }

    /// Invoke the handle: one readiness-bit update on the named waker.
    /// Out-of-range and empty handles change nothing.
    pub fn notify(&self, wakers: &mut Vec<TaskWaker>)
        ensures
            final(wakers)@ == notified(old(wakers)@, *self),
    {
        match self.target {
            None => {},
            Some(i) => {
                if i < wakers.len() {
                    let mut w = wakers[i];
                    w.set_ready_to_poll();
                    wakers.set(i, w);
                }
            },
        }
    }
}

/// The task capability seen by the executor: a typed task is resumed with a
/// notification handle and reports ready-with-value or not-ready.
///
/// `V` is the type of values tasks produce into their result slots; `E` is an
/// environment the caller threads through the run loop for the computations
/// to work on (channels, device state), or `()` where none is needed.
/// While resumed, a computation may start further tasks through the spawn
/// set, await other tasks' result slots, and notify wakers.
pub trait TypedTask<V, E>: Sized {
    /// Attempt progress.  Before reporting not-ready the computation must
    /// arrange for `handle` (or a copy) to be invoked when it can proceed.
    fn resume(
        &mut self,
        handle: NotifyHandle,
        wakers: &mut Vec<TaskWaker>,
        values: &mut Vec<Value<V>>,
        spawned: &mut SpawnSet<Self>,
        env: &mut E,
    ) -> Progress<V>;
}

/// A join handle: names the result slot one task's value will arrive in.
///
/// Polling it through [`TaskResult::join`] takes the value exactly once.
#[derive(Clone, Copy)]
pub struct TaskResult {
    index: usize,
}

impl TaskResult {
    /// The index of the bound result slot.
    pub closed spec fn index_spec(self) -> usize {
        self.index
    }

    /// One poll of the bound result slot: take the task's value if it has
    /// arrived, otherwise register `handle` and report not-ready.  A handle
    /// naming a slot outside the table reports not-ready and changes nothing.
    pub fn join<V>(&self, values: &mut Vec<Value<V>>, handle: NotifyHandle) -> (r: Progress<V>)
        ensures
            (self.index_spec() as int) < old(values)@.len() ==> {
                let (slot, rr) = old(values)@[self.index_spec() as int].spec_poll(handle);
                r == rr && final(values)@ == old(values)@.update(self.index_spec() as int, slot)
            },
            (self.index_spec() as int) < old(values)@.len() ==> final(values)@.len() == old(values)@.len() && final(values)@[self.index_spec() as int].val() is None && match old(values)@[self.index_spec() as int].val() {
                Some(v) => r == Progress::Ready(v),
                None => r is Pending && final(values)@[self.index_spec() as int].registered()
                    == Some(handle),
            },
            (self.index_spec() as int) >= old(values)@.len() ==> r is Pending && final(values)@
                == old(values)@,
    {
        if self.index < values.len() {
            let slot = &mut values[self.index];
            slot.poll(handle)
        } else {
            Progress::Pending
        }
    }
}

/// Tasks started while another task is being resumed, waiting to be placed
/// into the executor's slots when the resumption returns.
pub struct SpawnSet<C> {
    entries: Vec<SpawnEntry<C>>,
}

/// One started-but-not-yet-scheduled task together with the result-slot
/// index its join handle was bound to.
pub struct SpawnEntry<C> {
    task: Task<C>,
    value_index: usize,
}

impl<C> SpawnEntry<C> {
    /// The task waiting to be scheduled.
    pub closed spec fn task_spec(self) -> Task<C> {
        self.task
    }

    /// The result slot its value will arrive in.
    pub closed spec fn value_index_spec(self) -> usize {
        self.value_index
    }
}

impl<C> SpawnSet<C> {
    /// The started tasks in start order, each with its bound result slot.
    pub closed spec fn entries_view(self) -> Seq<SpawnEntry<C>> {
        self.entries@
    }

    /// How many tasks were started into this set.
    pub open spec fn len_spec(self) -> nat {
        self.entries_view().len()
    }

    /// An empty spawn set.
    pub fn new() -> (s: SpawnSet<C>)
        ensures
            s.len_spec() == 0,
    {
        SpawnSet { entries: Vec::new() }
    }

    /// Start `task`: allocate its result slot now and queue the task itself
    /// to be scheduled when the current resumption returns.  Returns the join
    /// handle bound to the fresh slot; the recorded entry binds exactly this
    /// task to exactly that slot.
    pub fn start<V>(&mut self, task: Task<C>, values: &mut Vec<Value<V>>) -> (r: TaskResult)
        ensures
            r.index_spec() == old(values)@.len(),
            final(values)@.len() == old(values)@.len() + 1,
            forall|i: int| 0 <= i < old(values)@.len() ==> final(values)@[i] == old(values)@[i],
            final(values)@[old(values)@.len() as int].val() is None,
            final(values)@[old(values)@.len() as int].registered() is None,
            final(self).len_spec() == old(self).len_spec() + 1,
            forall|i: int|
                0 <= i < old(self).len_spec() ==> #[trigger] final(self).entries_view()[i] == old(self).entries_view()[i],
            final(self).entries_view().last().task_spec() == task,
            final(self).entries_view().last().value_index_spec() == old(values)@.len(),
    {
        let value_index = values.len();
        values.push(Value::new());
        self.entries.push(SpawnEntry { task, value_index });
        TaskResult { index: value_index }
    }
}

/// The waker sequence after marking one spawned task's waker started and
/// ready; a waker index outside the storage marks nothing.
pub open spec fn started_one<C>(wakers: Seq<TaskWaker>, e: SpawnEntry<C>) -> Seq<TaskWaker> {
    let w = e.task_spec().waker_index() as int;
    if w < wakers.len() {
        wakers.update(w, wakers[w].with_started().with_ready())
    } else {
        wakers
    }
}

/// The waker sequence after marking every spawned task's waker started and
/// ready, in start order.
pub open spec fn started_all<C>(wakers: Seq<TaskWaker>, entries: Seq<SpawnEntry<C>>) -> Seq<
    TaskWaker,
>
    decreases entries.len(),
{
    if entries.len() == 0 {
        wakers
    } else {
        started_all(started_one(wakers, entries[0]), entries.drop_first())
    }
}

proof fn lemma_started_all_snoc<C>(
    wakers: Seq<TaskWaker>,
    entries: Seq<SpawnEntry<C>>,
    e: SpawnEntry<C>,
)
    ensures
        started_all(wakers, entries.push(e)) == started_one(started_all(wakers, entries), e),
    decreases entries.len(),
{
    if entries.len() == 0 {
        assert(entries.push(e).drop_first() =~= Seq::<SpawnEntry<C>>::empty());
        assert(entries.push(e)[0] == e);
        assert(started_all(started_one(wakers, e), Seq::<SpawnEntry<C>>::empty()) == started_one(
            wakers,
            e,
        ));
        assert(started_one(started_all(wakers, entries), e) == started_one(wakers, e));
    } else {
        assert(entries.push(e)[0] == entries[0]);
        assert(entries.push(e).drop_first() =~= entries.drop_first().push(e));
        lemma_started_all_snoc(started_one(wakers, entries[0]), entries.drop_first(), e);
    }
}

/// What a call to [`Executor::run`] ended with.
#[derive(Clone, Copy, Debug, PartialEq, Eq, Structural)]
pub enum RunOutcome {
    /// The queue is empty: every started task finished.
    Drained,
    /// Tasks remain but none is ready, and nothing that could mark one ready
    /// can arrive while the run loop holds the waker storage: the loop
    /// stopped rather than spin.
    Stalled,
    /// The step budget was spent before the queue emptied.
    SpentBudget,
}

/// The scheduler context: a slot arena of suspended computations, the ready
/// queue linking them, a reentrancy guard, and a scratch slot naming the
/// waker currently being resumed.
///
/// Slot 0 is the sentinel end-task: a real, permanently idle slot that is
/// never polled and never queued; its index terminates the queue's chain.
pub struct Executor<C> {
    links: Vec<usize>,
    comps: Vec<Option<C>>,
    waker_of: Vec<usize>,
    value_of: Vec<usize>,
    queue: TaskList,
    running: bool,
    current: usize,
}

impl<C> Executor<C> {
    /// Structural well-formedness: the slot columns agree in length, slot 0
    /// exists as the sentinel, and the ready queue is a well-formed chain
    /// through the slots' links, terminated by the sentinel.
    pub closed spec fn wf(self) -> bool {
        &&& self.links@.len() >= 1
        &&& self.comps@.len() == self.links@.len()
        &&& self.waker_of@.len() == self.links@.len()
        &&& self.value_of@.len() == self.links@.len()
        &&& self.queue.wf(self.links@)
        &&& self.queue.end_spec() == 0
    }

    /// The ready/pending queue, front first, as task-slot indices.
    pub closed spec fn queue_items(self) -> Seq<usize> {
        self.queue.items()
    }

    /// Whether a `run` call is in progress.
    pub closed spec fn is_running(self) -> bool {
        self.running
    }

    /// Whether the `j`-th queued task's waker exists in `wakers` and is
    /// marked ready to poll.
    pub closed spec fn queued_task_ready(self, wakers: Seq<TaskWaker>, j: int) -> bool {
        let t = self.queue.items()[j];
        &&& (self.waker_of@[t as int] as int) < wakers.len()
        &&& wakers[self.waker_of@[t as int] as int].ready()
    }

    /// Number of task slots, the sentinel included.
    pub closed spec fn task_count(self) -> nat {
        self.links@.len()
    }

    /// The scratch slot naming the waker of the task most recently resumed.
    pub closed spec fn current_spec(self) -> usize {
        self.current
    }

    /// The computation suspended in slot `t`, if the slot holds one.
    pub closed spec fn task_comp(self, t: int) -> Option<C> {
        self.comps@[t]
    }

    /// The waker index bound to slot `t`.
    pub closed spec fn task_waker(self, t: int) -> usize {
        self.waker_of@[t]
    }

    /// The result-slot index bound to slot `t`.
    pub closed spec fn task_value_slot(self, t: int) -> usize {
        self.value_of@[t]
    }

    /// The waker index of the task most recently resumed; notification glue
    /// can build a handle for "the current task" from it without any
    /// per-task allocation.
    pub fn current_waker(&self) -> (r: usize)
        ensures
            r == self.current_spec(),
    {
        self.current
    }

    /// A fresh executor: only the sentinel slot, an empty queue, not running.
    pub fn new() -> (e: Executor<C>)
        ensures
            e.wf(),
            e.queue_items().len() == 0,
            !e.is_running(),
            e.task_count() == 1,
    {
        let mut links: Vec<usize> = Vec::new();
        links.push(0);
        let mut comps: Vec<Option<C>> = Vec::new();
        comps.push(None);
        let mut waker_of: Vec<usize> = Vec::new();
        waker_of.push(0);
        let mut value_of: Vec<usize> = Vec::new();
        value_of.push(0);
        let queue = TaskList::new(0);
        proof {
            lemma_new_wf(queue, links@);
        }
        Executor { links, comps, waker_of, value_of, queue, running: false, current: 0 }
    }

    /// Start a task: mark its waker started and ready to poll, move it into
    /// a fresh slot, push the slot onto the front of the queue, and return a
    /// join handle bound to a fresh result slot.
    ///
    /// Starting a task whose waker index lies outside the waker storage
    /// leaves the storage unchanged; such a task is queued but will never be
    /// found ready.
    pub fn start<V>(
        &mut self,
        task: Task<C>,
        values: &mut Vec<Value<V>>,
        wakers: &mut Vec<TaskWaker>,
    ) -> (r: TaskResult)
        requires
            old(self).wf(),
        ensures
            final(self).wf(),
            final(self).is_running() == old(self).is_running(),
            final(self).task_count() == old(self).task_count() + 1,
            final(self).queue_items() == seq![(old(self).task_count() as usize)]
                + old(self).queue_items(),
            final(self).task_comp(old(self).task_count() as int) == Some(task.comp()),
            final(self).task_waker(old(self).task_count() as int) == task.waker_index(),
            final(self).task_value_slot(old(self).task_count() as int) == old(values)@.len(),
            forall|i: int|
                0 <= i < old(self).task_count() ==> #[trigger] final(self).task_comp(i) == old(self).task_comp(i) && final(self).task_waker(i) == old(self).task_waker(i) && final(self).task_value_slot(i) == old(self).task_value_slot(i),
            r.index_spec() == old(values)@.len(),
            final(values)@.len() == old(values)@.len() + 1,
            forall|i: int| 0 <= i < old(values)@.len() ==> final(values)@[i] == old(values)@[i],
            final(values)@[old(values)@.len() as int].val() is None,
            final(values)@[old(values)@.len() as int].registered() is None,
            (task.waker_index() as int) < old(wakers)@.len() ==> final(wakers)@ == old(wakers)@.update(
                task.waker_index() as int,
                old(wakers)@[task.waker_index() as int].with_started().with_ready(),
            ),
            (task.waker_index() as int) >= old(wakers)@.len() ==> final(wakers)@ == old(wakers)@,
    {
        let ghost old_links = self.links@;
        let id = self.links.len();
        let (computation, w) = task.into_parts();
        let value_index = values.len();
        self.links.push(0);
        self.comps.push(Some(computation));
        self.waker_of.push(w);
        self.value_of.push(value_index);
        values.push(Value::new());
        if w < wakers.len() {
            let mut tw = wakers[w];
            tw.set_started();
            tw.set_ready_to_poll();
            wakers.set(w, tw);
        }
        proof {
            lemma_wf_links_grow(self.queue, old_links, self.links@);
            lemma_wf_items_bounded(self.queue, old_links);
            if self.queue.items().contains(id) {
                let j = choose|j: int|
                    0 <= j < self.queue.items().len() && self.queue.items()[j] == id;
                assert(false);
            }
        }
        self.queue.push_front(&mut self.links, id);
        TaskResult { index: value_index }
    }

    /// Record the completion of the task in slot `t` with output `value`:
    /// its waker is marked finished, and the value is stored into its result
    /// slot, firing the slot's registered resumption handle exactly once.
    ///
    /// A waker index outside the waker storage, a result-slot index outside
    /// the value table, or a slot already holding a value (none of which a
    /// correct caller produces) is handled defensively: that part of the
    /// completion is skipped and the value dropped.
    pub fn finish_task<V>(
        &self,
        t: usize,
        value: V,
        wakers: &mut Vec<TaskWaker>,
        values: &mut Vec<Value<V>>,
    )
        requires
            self.wf(),
            (t as int) < self.task_count(),
        ensures
            ({
                let w = self.task_waker(t as int) as int;
                let marked = if w < old(wakers)@.len() {
                    old(wakers)@.update(w, old(wakers)@[w].with_finished())
                } else {
                    old(wakers)@
                };
                let vi = self.task_value_slot(t as int) as int;
                if vi < old(values)@.len() && !old(values)@[vi].holds_value() {
                    &&& final(values)@.len() == old(values)@.len()
                    &&& final(values)@[vi].val() == Some(value)
                    &&& final(values)@[vi].registered() is None
                    &&& (forall|j: int|
                        0 <= j < old(values)@.len() && j != vi ==> final(values)@[j] == old(values)@[j])
                    &&& final(wakers)@ == match old(values)@[vi].registered() {
                        Some(h) => notified(marked, h),
                        None => marked,
                    }
                } else {
                    &&& final(values)@ == old(values)@
                    &&& final(wakers)@ == marked
                }
            }),
    {
        let w = self.waker_of[t];
        if w < wakers.len() {
            let mut tw = wakers[w];
            tw.set_finished();
            wakers.set(w, tw);
        }
        let vi = self.value_of[t];
        if vi < values.len() {
            let slot = &mut values[vi];
            if !slot.has_value() {
                slot.set(value, wakers);
            }
        }
    }

    /// Relink `t` onto the front of the live queue, leaving the snapshot
    /// chain the run loop is still draining intact.
    fn requeue(&mut self, t: usize, Ghost(snap): Ghost<TaskList>)
        requires
            old(self).wf(),
            snap.wf(old(self).links@),
            (t as int) < old(self).links@.len(),
            t != 0,
            !snap.items().contains(t),
            !old(self).queue.items().contains(t),
            forall|x: usize| old(self).queue.items().contains(x) ==> !snap.items().contains(x),
        ensures
            final(self).wf(),
            snap.wf(final(self).links@),
            final(self).links@.len() == old(self).links@.len(),
            final(self).queue.items() == seq![t] + old(self).queue.items(),
            forall|x: usize| final(self).queue.items().contains(x) ==> !snap.items().contains(x),
            final(self).running == old(self).running,
            final(self).comps == old(self).comps,
            final(self).waker_of == old(self).waker_of,
            final(self).value_of == old(self).value_of,
    {
        let ghost pre_links = self.links@;
        let ghost pre_head = self.queue.head_spec();
        let ghost pre_items = self.queue.items();
        self.queue.push_front(&mut self.links, t);
        proof {
            lemma_wf_links_update(snap, pre_links, t, pre_head);
            assert forall|x: usize| self.queue.items().contains(x) implies !snap.items().contains(
                x,
            ) by {
                if x != t {
                    let j = choose|j: int|
                        0 <= j < self.queue.items().len() && self.queue.items()[j] == x;
                    assert(pre_items[j - 1] == x);
                    assert(pre_items.contains(x));
                }
            }
        }
    }

    /// Place tasks started during a resumption into fresh slots, mark their
    /// wakers started and ready, and push them onto the front of the live
    /// queue, leaving the snapshot chain intact.
    fn absorb_spawned(
        &mut self,
        spawned: SpawnSet<C>,
        wakers: &mut Vec<TaskWaker>,
        Ghost(snap): Ghost<TaskList>,
    )
        requires
            old(self).wf(),
            snap.wf(old(self).links@),
            snap.end_spec() == 0,
            forall|x: usize| old(self).queue.items().contains(x) ==> !snap.items().contains(x),
        ensures
            final(self).wf(),
            snap.wf(final(self).links@),
            forall|x: usize| final(self).queue.items().contains(x) ==> !snap.items().contains(x),
            final(self).running == old(self).running,
            final(self).links@.len() == old(self).links@.len() + spawned.entries_view().len(),
            forall|i: int|
                0 <= i < old(self).links@.len() ==> final(self).comps@[i] == #[trigger] old(self).comps@[i] && final(self).waker_of@[i] == old(self).waker_of@[i] && final(self).value_of@[i] == old(self).value_of@[i],
            forall|k: int|
                0 <= k < spawned.entries_view().len() ==> final(self).comps@[old(self).links@.len() + k] == Some(
                    (#[trigger] spawned.entries_view()[k]).task_spec().comp(),
                ) && final(self).waker_of@[old(self).links@.len() + k]
                    == spawned.entries_view()[k].task_spec().waker_index() && final(self).value_of@[old(self).links@.len() + k]
                    == spawned.entries_view()[k].value_index_spec(),
            final(self).queue.items() == Seq::new(
                spawned.entries_view().len(),
                |k: int|
                    (old(self).links@.len() + spawned.entries_view().len() - 1 - k) as usize,
            ) + old(self).queue.items(),
            final(wakers)@ == started_all(old(wakers)@, spawned.entries_view()),
    {
        let mut entries = spawned.entries;
        let ghost all = spawned.entries_view();
        let ghost n0 = old(self).links@.len() as int;
        loop
            invariant
                self.wf(),
                snap.wf(self.links@),
                forall|x: usize| self.queue.items().contains(x) ==> !snap.items().contains(x),
                self.running == old(self).running,
                n0 == old(self).links@.len(),
                all == spawned.entries_view(),
                entries@.len() <= all.len(),
                entries@ == all.subrange(all.len() - entries@.len(), all.len() as int),
                self.links@.len() == n0 + all.len() - entries@.len(),
                forall|i: int|
                    0 <= i < n0 ==> self.comps@[i] == #[trigger] old(self).comps@[i]
                        && self.waker_of@[i] == old(self).waker_of@[i] && self.value_of@[i]
                        == old(self).value_of@[i],
                forall|k: int|
                    0 <= k < all.len() - entries@.len() ==> self.comps@[n0 + k] == Some(
                        (#[trigger] all[k]).task_spec().comp(),
                    ) && self.waker_of@[n0 + k] == all[k].task_spec().waker_index()
                        && self.value_of@[n0 + k] == all[k].value_index_spec(),
                self.queue.items() == Seq::new(
                    (all.len() - entries@.len()) as nat,
                    |k: int| (n0 + all.len() - entries@.len() - 1 - k) as usize,
                ) + old(self).queue.items(),
                wakers@ == started_all(old(wakers)@, all.subrange(0, all.len() - entries@.len())),
            ensures
                self.wf(),
                snap.wf(self.links@),
                forall|x: usize| self.queue.items().contains(x) ==> !snap.items().contains(x),
                self.running == old(self).running,
                self.links@.len() == n0 + all.len(),
                forall|i: int|
                    0 <= i < n0 ==> self.comps@[i] == #[trigger] old(self).comps@[i]
                        && self.waker_of@[i] == old(self).waker_of@[i] && self.value_of@[i]
                        == old(self).value_of@[i],
                forall|k: int|
                    0 <= k < all.len() ==> self.comps@[n0 + k] == Some(
                        (#[trigger] all[k]).task_spec().comp(),
                    ) && self.waker_of@[n0 + k] == all[k].task_spec().waker_index()
                        && self.value_of@[n0 + k] == all[k].value_index_spec(),
                self.queue.items() == Seq::new(
                    all.len(),
                    |k: int| (n0 + all.len() - 1 - k) as usize,
                ) + old(self).queue.items(),
                wakers@ == started_all(old(wakers)@, all),
            decreases entries@.len(),
        {
            if entries.len() == 0 {
                proof {
                    assert(all.subrange(0, all.len() as int) =~= all);
                }
                break ;
            }
            let ghost pre_iter = *self;
            let ghost done = all.len() - entries@.len();
            let ghost pre_entries = entries@;
            let entry = entries.remove(0);
            proof {
                assert(pre_entries[0] == all.subrange(done, all.len() as int)[0]);
                assert(entry == all[done]);
                assert(entries@ =~= all.subrange(done + 1, all.len() as int)) by {
                    assert forall|j: int| 0 <= j < entries@.len() implies entries@[j] == all[done
                        + 1 + j] by {
                        assert(entries@[j] == pre_entries[j + 1]);
                        assert(pre_entries[j + 1] == all.subrange(done, all.len() as int)[j + 1]);
                    }
                }
            }
            let SpawnEntry { task, value_index } = entry;
            let ghost old_links = self.links@;
            let ghost pre_queue = self.queue.items();
            let ghost pre_wakers = wakers@;
            let id = self.links.len();
            let (computation, w) = task.into_parts();
            self.links.push(0);
            self.comps.push(Some(computation));
            self.waker_of.push(w);
            self.value_of.push(value_index);
            if w < wakers.len() {
                let mut tw = wakers[w];
                tw.set_started();
                tw.set_ready_to_poll();
                wakers.set(w, tw);
            }
            proof {
                assert(wakers@ == started_one(pre_wakers, all[done]));
                assert(all.subrange(0, done + 1) =~= all.subrange(0, done).push(all[done]));
                lemma_started_all_snoc(old(wakers)@, all.subrange(0, done), all[done]);
                lemma_wf_links_grow(self.queue, old_links, self.links@);
                lemma_wf_links_grow(snap, old_links, self.links@);
                lemma_wf_items_bounded(self.queue, old_links);
                lemma_wf_items_bounded(snap, old_links);
                if self.queue.items().contains(id) {
                    let j = choose|j: int|
                        0 <= j < self.queue.items().len() && self.queue.items()[j] == id;
                    assert(false);
                }
                if snap.items().contains(id) {
                    let j = choose|j: int| 0 <= j < snap.items().len() && snap.items()[j] == id;
                    assert(false);
                }
            }
            self.requeue(id, Ghost(snap));
            proof {
                assert(self.comps@ =~= pre_iter.comps@.push(Some(computation)));
                assert(self.waker_of@ =~= pre_iter.waker_of@.push(w));
                assert(self.value_of@ =~= pre_iter.value_of@.push(value_index));
                assert forall|i: int|
                    0 <= i < n0 implies self.comps@[i] == #[trigger] old(self).comps@[i]
                    && self.waker_of@[i] == old(self).waker_of@[i] && self.value_of@[i] == old(self).value_of@[i] by {
                    assert(pre_iter.comps@[i] == old(self).comps@[i]);
                    assert(self.comps@[i] == pre_iter.comps@[i]);
                    assert(pre_iter.waker_of@[i] == old(self).waker_of@[i]);
                    assert(pre_iter.value_of@[i] == old(self).value_of@[i]);
                }
                assert forall|k: int|
                    0 <= k < done + 1 implies self.comps@[n0 + k] == Some(
                    (#[trigger] all[k]).task_spec().comp(),
                ) && self.waker_of@[n0 + k] == all[k].task_spec().waker_index()
                    && self.value_of@[n0 + k] == all[k].value_index_spec() by {
                    if k < done {
                        assert(pre_iter.links@.len() == n0 + done);
                        assert(pre_iter.comps@.len() == pre_iter.links@.len());
                        vstd::seq::lemma_seq_push_index_different_alt(
                            pre_iter.comps@,
                            Some(computation),
                            n0 + k,
                        );
                        vstd::seq::lemma_seq_push_index_different_alt(
                            pre_iter.waker_of@,
                            w,
                            n0 + k,
                        );
                        vstd::seq::lemma_seq_push_index_different_alt(
                            pre_iter.value_of@,
                            value_index,
                            n0 + k,
                        );
                        assert(pre_iter.comps@[n0 + k] == Some(all[k].task_spec().comp()));
                        assert(self.comps@[n0 + k] == pre_iter.comps@[n0 + k]);
                    } else {
                        assert(self.comps@[n0 + done] == Some(computation));
                        assert(computation == all[done].task_spec().comp());
                        assert(self.waker_of@[n0 + done] == w);
                        assert(w == all[done].task_spec().waker_index());
                        assert(self.value_of@[n0 + done] == value_index);
                        assert(value_index == all[done].value_index_spec());
                    }
                }
                assert(self.queue.items() =~= Seq::new(
                    (done + 1) as nat,
                    |k: int| (n0 + done + 1 - 1 - k) as usize,
                ) + old(self).queue.items()) by {
                    assert(self.queue.items() == seq![id] + pre_queue);
                    assert forall|j: int| 0 <= j < self.queue.items().len() implies self.queue.items()[j] == (Seq::new(
                        (done + 1) as nat,
                        |k: int| (n0 + done - k) as usize,
                    ) + old(self).queue.items())[j] by {
                        if j == 0 {
                        } else if j < done + 1 {
                            assert(self.queue.items()[j] == pre_queue[j - 1]);
                        } else {
                            assert(self.queue.items()[j] == pre_queue[j - 1]);
                        }
                    }
                }
            }
        }
    }

    /// Run the executor until every started and will-be-started task has
    /// finished, no queued task is ready, or the step budget is spent.
    ///
    /// Each pass snapshots the queue and drains the snapshot completely: a
    /// ready task has its readiness bit cleared and is resumed with a handle
    /// carrying its waker's index; an unfinished task is requeued; a finished
    /// task is dropped from the queue with exactly the effect
    /// [`Executor::finish_task`] states — waker marked finished, value stored
    /// into its result slot, the slot's registered handle fired.  Tasks
    /// started during a resumption are scheduled before the pass continues.
    /// When the snapshot is exhausted and the live queue is still non-empty,
    /// the loop re-snapshots, so tasks started or re-armed during a pass are
    /// observed by the same call.
    ///
    /// `max_polls` bounds the number of resumptions, making the loop finite;
    /// the ghost half of the result counts the resumptions actually made, so
    /// [`RunOutcome::SpentBudget`] comes back exactly when the whole budget
    /// was used.  A queue of pending tasks none of which is ready stops the
    /// loop with [`RunOutcome::Stalled`], since no notification can arrive
    /// while the loop holds the waker storage.  Nested calls are refused by
    /// contract.
    pub fn run<V, E>(
        &mut self,
        wakers: &mut Vec<TaskWaker>,
        values: &mut Vec<Value<V>>,
        env: &mut E,
        max_polls: usize,
    ) -> (r: (RunOutcome, Ghost<usize>)) where C: TypedTask<V, E>
        requires
            old(self).wf(),
            !old(self).is_running(),
        ensures
            final(self).wf(),
            !final(self).is_running(),
            r.1@ <= max_polls,
            (r.0 == RunOutcome::Drained) <==> final(self).queue_items().len() == 0,
            r.0 == RunOutcome::SpentBudget ==> r.1@ == max_polls,
            r.0 == RunOutcome::Stalled ==> r.1@ < max_polls,
            r.0 == RunOutcome::Stalled ==> forall|j: int|
                0 <= j < final(self).queue_items().len() ==> !final(self).queued_task_ready(
                    final(wakers)@,
                    j,
                ),
    {
        self.running = true;
        let mut fuel = max_polls;
        let mut stalled = false;
        loop
            invariant_except_break
                !stalled,
            invariant
                self.wf(),
                self.running,
                fuel <= max_polls,
            ensures
                self.wf(),
                self.running,
                fuel <= max_polls,
                fuel == 0 || stalled || self.queue.items().len() == 0,
                stalled ==> fuel > 0,
                stalled ==> forall|j: int|
                    0 <= j < self.queue.items().len() ==> !self.queued_task_ready(wakers@, j),
            decreases fuel,
        {
            let ghost fuel0 = fuel;
            let mut snapshot = self.queue.take();
            let mut polled: usize = 0;
            let ghost pass_wakers = wakers@;
            loop
                invariant
                    self.wf(),
                    self.running,
                    snapshot.wf(self.links@),
                    snapshot.end_spec() == 0,
                    forall|x: usize|
                        self.queue.items().contains(x) ==> !snapshot.items().contains(x),
                    polled as int == fuel0 - fuel,
                    fuel <= fuel0,
                    polled == 0 && fuel > 0 ==> wakers@ == pass_wakers,
                    polled == 0 && fuel > 0 ==> forall|j: int|
                        0 <= j < self.queue.items().len() ==> !self.queued_task_ready(wakers@, j),
                ensures
                    self.wf(),
                    self.running,
                    polled as int == fuel0 - fuel,
                    fuel <= fuel0,
                    polled == 0 && fuel > 0 ==> forall|j: int|
                        0 <= j < self.queue.items().len() ==> !self.queued_task_ready(wakers@, j),
                decreases snapshot.items().len(),
            {
                if snapshot.is_empty() {
                    break ;
                }
                proof {
                    lemma_empty_iff_sentinel(snapshot, self.links@);
                }
                if fuel == 0 {
                    let rest = snapshot.take();
                    self.queue.merge(rest, &mut self.links);
                    proof {
                        lemma_new_wf(snapshot, self.links@);
                    }
                    break ;
                }
                let ghost pre_snapshot = snapshot.items();
                let t = snapshot.pop_front(&self.links);
                proof {
                    assert(pre_snapshot.contains(t));
                    if self.queue.items().contains(t) {
                        assert(false);
                    }
                    assert forall|x: usize|
                        self.queue.items().contains(x) implies !snapshot.items().contains(x) by {
                        if snapshot.items().contains(x) {
                            let j = choose|j: int|
                                0 <= j < snapshot.items().len() && snapshot.items()[j] == x;
                            assert(pre_snapshot[j + 1] == x);
                            assert(pre_snapshot.contains(x));
                        }
                    }
                }
                let w = self.waker_of[t];
                let mut ready = false;
                if w < wakers.len() {
                    let tw = wakers[w];
                    ready = tw.is_ready_to_poll();
                }
                if !ready {
                    // Not ready to poll: leave it on the live queue.  A
                    // pending task waits here for its notification; anything
                    // else is an internal inconsistency handled defensively.
                    let ghost pre_self = *self;
                    self.requeue(t, Ghost(snapshot));
                    proof {
                        if polled == 0 && fuel > 0 {
                            assert forall|j: int|
                                0 <= j < self.queue.items().len() implies !self.queued_task_ready(
                                wakers@,
                                j,
                            ) by {
                                if j == 0 {
                                    assert(self.queue.items()[0] == t);
                                } else {
                                    assert(self.queue.items()[j] == pre_self.queue.items()[j - 1]);
                                    assert(!pre_self.queued_task_ready(wakers@, j - 1));
                                }
                            }
                        }
                    }
                } else {
                    fuel = fuel - 1;
                    polled = polled + 1;
                    let mut tw = wakers[w];
                    tw.clear_ready_to_poll();
                    wakers.set(w, tw);
                    self.current = w;
                    let handle = NotifyHandle::for_waker(w);
                    let comp_opt = self.comps[t].take();
                    match comp_opt {
                        None => {
                            // The slot holds no computation (the sentinel, or
                            // an already-finished task): drop it from the
                            // queue.
                        },
                        Some(mut c) => {
                            let mut spawned = SpawnSet::new();
                            let p = c.resume(handle, wakers, values, &mut spawned, env);
                            match p {
                                Progress::Pending => {
                                    self.comps.set(t, Some(c));
                                    self.requeue(t, Ghost(snapshot));
                                },
                                Progress::Ready(v) => {
                                    // The task is done: drop it from the
                                    // queue after recording its completion.
                                    self.finish_task(t, v, wakers, values);
                                },
                            }
                            self.absorb_spawned(spawned, wakers, Ghost(snapshot));
                        },
                    }
                }
            }
            if fuel == 0 {
                break ;
            }
            if polled == 0 {
                stalled = true;
                break ;
            }
            if self.queue.is_empty() {
                proof {
                    lemma_empty_iff_sentinel(self.queue, self.links@);
                }
                break ;
            }
        }
        let ghost exit_self = *self;
        let ghost spent: usize = (max_polls - fuel) as usize;
        self.running = false;
        proof {
            lemma_empty_iff_sentinel(self.queue, self.links@);
            if stalled {
                assert forall|j: int|
                    0 <= j < self.queue.items().len() implies !self.queued_task_ready(
                    wakers@,
                    j,
                ) by {
                    assert(!exit_self.queued_task_ready(wakers@, j));
                }
            }
        }
        if self.queue.is_empty() {
            (RunOutcome::Drained, Ghost(spent))
        } else if stalled {
            (RunOutcome::Stalled, Ghost(spent))
        } else {
            (RunOutcome::SpentBudget, Ghost(spent))
        }
    }
}

/// Notifying twice with the same handle is the same as notifying once:
/// a notification is idempotent, so delivering it any number of times is safe.
pub proof fn lemma_notify_idempotent(wakers: Seq<TaskWaker>, h: NotifyHandle)
    ensures
        notified(notified(wakers, h), h) == notified(wakers, h),
{
    match h.spec_target() {
        Some(i) => {
            if i < wakers.len() {
                let w1 = notified(wakers, h);
                assert(w1[i as int].with_ready() == w1[i as int]) by {
                    crate::task::lemma_with_ready_idempotent(wakers[i as int]);
                }
                assert(notified(w1, h) =~= w1);
            }
        },
        None => {},
    }
}

} // verus!
