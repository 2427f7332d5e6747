//! The bounded first-in, first-out queue of tasks that are ready to be driven.

use std::collections::VecDeque;
use vstd::prelude::*;

verus! {

/// What one entry counts for `task`: one if it names the task, nothing if it
/// names another.
pub open spec fn hits(entry: usize, task: usize) -> nat {
    if entry == task {
        1
    } else {
        0
    }
}

/// How many entries of `queue` name `task`.
pub open spec fn occurrences(queue: Seq<usize>, task: usize) -> nat
    decreases queue.len(),
{
    if queue.len() == 0 {
        0
    } else {
        occurrences(queue.drop_last(), task) + hits(queue.last(), task)
    }
}

/// An entry appended at the back counts once for its task and not at all for
/// any other.
pub proof fn lemma_occurrences_push(queue: Seq<usize>, entry: usize, task: usize)
    ensures
        occurrences(queue.push(entry), task) == occurrences(queue, task) + hits(entry, task),
{
    assert(queue.push(entry).drop_last() == queue);
}

/// The entry that leaves at the front takes one occurrence of its task with
/// it and none of any other.
pub proof fn lemma_occurrences_skip(queue: Seq<usize>, task: usize)
    requires
        queue.len() > 0,
    ensures
        occurrences(queue, task) == occurrences(queue.skip(1), task) + hits(queue[0], task),
    decreases queue.len(),
{
    let rest = queue.skip(1);
    if queue.len() == 1 {
        assert(occurrences(queue.drop_last(), task) == 0);
    } else {
        lemma_occurrences_skip(queue.drop_last(), task);
        assert(queue.drop_last().skip(1) == rest.drop_last());
        assert(occurrences(rest, task) == occurrences(rest.drop_last(), task) + hits(
            rest.last(),
            task,
        ));
    }
}

/// A task that no entry names does not occur.
pub proof fn lemma_occurrences_absent(queue: Seq<usize>, task: usize)
    requires
        forall|i: int| 0 <= i < queue.len() ==> queue[i] != task,
    ensures
        occurrences(queue, task) == 0,
    decreases queue.len(),
{
    if queue.len() > 0 {
        lemma_occurrences_absent(queue.drop_last(), task);
    }
}

/// The queue already holds as many entries as it was made for.
#[derive(Clone, Copy, Debug, PartialEq, Eq, Structural)]
pub struct QueueFull;

/// A first-in, first-out queue of task numbers with a fixed capacity.
///
/// A task may stand in the queue more than once: every wake adds an entry,
/// whether or not one is already waiting.
#[derive(Debug)]
pub struct ReadyQueue {
    entries: VecDeque<usize>,
    capacity: usize,
}

impl View for ReadyQueue {
    type V = Seq<usize>;

    /// The entries, the one that leaves next first.
    closed spec fn view(&self) -> Seq<usize> {
        self.entries@
    }
}

impl ReadyQueue {
    /// The number of entries that the queue may hold at once.
    pub closed spec fn spec_capacity(&self) -> usize {
        self.capacity
    }

    /// The queue never holds more than its capacity.
    pub open spec fn wf(&self) -> bool {
        self@.len() <= self.spec_capacity()
    }

    /// An empty queue that holds up to `capacity` entries.
    pub fn new(capacity: usize) -> (queue: ReadyQueue)
        ensures
            queue.wf(),
            queue@ == Seq::<usize>::empty(),
            queue.spec_capacity() == capacity,
    {
        ReadyQueue { entries: VecDeque::new(), capacity }
    }

    /// The number of entries that the queue may hold at once.
    #[verifier::when_used_as_spec(spec_capacity)]
    pub fn capacity(&self) -> (capacity: usize)
        ensures
            capacity == self.spec_capacity(),
    {
        self.capacity
    }

    /// The number of entries that wait.
    pub fn len(&self) -> (len: usize)
        ensures
            len == self@.len(),
    {
        self.entries.len()
    }

    /// Whether no entry waits.
    pub fn is_empty(&self) -> (empty: bool)
        ensures
            empty == (self@.len() == 0),
    {
        self.entries.len() == 0
    }

    /// Whether the next `push` would be refused.
    pub fn is_full(&self) -> (full: bool)
        ensures
            full == (self@.len() >= self.spec_capacity()),
    {
        self.entries.len() >= self.capacity
    }

    /// Appends `task` behind the entries that wait, unless the queue is full.
    pub fn push(&mut self, task: usize) -> (result: Result<(), QueueFull>)
        requires
            old(self).wf(),
        ensures
            final(self).wf(),
            final(self).spec_capacity() == old(self).spec_capacity(),
            result == (if old(self)@.len() < old(self).spec_capacity() {
                Ok::<(), QueueFull>(())
            } else {
                Err(QueueFull)
            }),
            final(self)@ == (if result is Ok {
                old(self)@.push(task)
            } else {
                old(self)@
            }),
    {
        if self.entries.len() >= self.capacity {
            return Err(QueueFull);
        }
        self.entries.push_back(task);
        Ok(())
    }

    /// Takes the entry that has waited longest, if there is one.
    pub fn pop(&mut self) -> (task: Option<usize>)
        requires
            old(self).wf(),
        ensures
            final(self).wf(),
            final(self).spec_capacity() == old(self).spec_capacity(),
            task == (if old(self)@.len() > 0 {
                Some(old(self)@[0])
            } else {
                None
            }),
            final(self)@ == (if task is Some {
                old(self)@.skip(1)
            } else {
                old(self)@
            }),
    {
        self.entries.pop_front()
    }
}

} // verus!
