//! The waiting line of a queue: first in, first out.

use std::collections::VecDeque;
use vstd::prelude::*;

verus! {

/// Items that wait, the one that came first in front.
pub struct Queue<T> {
    queue: VecDeque<T>,
}

impl<T> View for Queue<T> {
    type V = Seq<T>;

    closed spec fn view(&self) -> Seq<T> {
        self.queue@
    }
}

impl<T> Queue<T> {
    /// An empty line.
    pub fn new() -> (q: Queue<T>)
        ensures
            q@ == Seq::<T>::empty(),
    {
        Queue { queue: VecDeque::new() }
    }

    /// Puts `task` at the end of the line.
    pub fn push(&mut self, task: T)
        ensures
            final(self)@ == old(self)@.push(task),
    {
        self.queue.push_back(task);
    }

    /// Takes the item in front out of the line. `None` means that the line is
    /// empty and the caller has to wait.
    pub fn pop(&mut self) -> (r: Option<T>)
        ensures
            match r {
                Some(task) => old(self)@.len() > 0 && task == old(self)@[0] && final(self)@ == old(
                    self,
                )@.drop_first(),
                None => old(self)@.len() == 0 && final(self)@ == old(self)@,
            },
    {
        let r = self.queue.pop_front();
        proof {
            if r is Some {
                assert(self.queue@ =~= old(self).queue@.drop_first());
            }
        }
        r
    }

    /// The number of items that wait.
    pub fn len(&self) -> (n: usize)
        ensures
            n == self@.len(),
    {
        self.queue.len()
    }
}

impl<T: Clone> Queue<T> {
    /// A copy of the line as it stands: every item that waits, in order, and
    /// nothing leaves the line.
    pub fn collect(&self) -> (items: Vec<T>)
        ensures
            items@.len() == self@.len(),
            forall|i: int| 0 <= i < self@.len() ==> cloned::<T>(self@[i], #[trigger] items@[i]),
    {
        let mut items: Vec<T> = Vec::new();
        let mut i: usize = 0;
        while i < self.queue.len()
            invariant
                i <= self.queue@.len(),
                items@.len() == i,
                forall|j: int| 0 <= j < i ==> cloned::<T>(self.queue@[j], #[trigger] items@[j]),
            decreases self.queue@.len() - i,
        {
            items.push(self.queue[i].clone());
            i += 1;
        }
        items
    }
}

/// The line `line` after each of `items` has been pushed, in order.
pub open spec fn pushed_all<T>(line: Seq<T>, items: Seq<T>) -> Seq<T>
    decreases items.len(),
{
    if items.len() == 0 {
        line
    } else {
        pushed_all(line.push(items[0]), items.drop_first())
    }
}

/// What comes out of `line` when it is popped until it is empty, in the order
/// in which it comes out.
pub open spec fn drained<T>(line: Seq<T>) -> Seq<T>
    decreases line.len(),
{
    if line.len() == 0 {
        Seq::empty()
    } else {
        seq![line[0]] + drained(line.drop_first())
    }
}

/// Pushing leaves what waits in its place and adds the new items behind it.
pub proof fn lemma_pushed_all<T>(line: Seq<T>, items: Seq<T>)
    ensures
        pushed_all(line, items) == line + items,
    decreases items.len(),
{
    if items.len() == 0 {
        assert(line + items =~= line);
    } else {
        lemma_pushed_all(line.push(items[0]), items.drop_first());
        assert(line.push(items[0]) + items.drop_first() =~= line + items);
    }
}

/// Popping hands out what waits from the front on: every item once.
pub proof fn lemma_drained<T>(line: Seq<T>)
    ensures
        drained(line) == line,
    decreases line.len(),
{
    if line.len() > 0 {
        lemma_drained(line.drop_first());
        assert(seq![line[0]] + line.drop_first() =~= line);
    }
}

/// First in, first out, and each item once: the items pushed on an empty line
/// come out of it in the order in which they went in, none twice and none
/// missing.
pub proof fn lemma_fifo<T>(items: Seq<T>)
    ensures
        drained(pushed_all(Seq::<T>::empty(), items)) == items,
{
    lemma_pushed_all(Seq::<T>::empty(), items);
    assert(Seq::<T>::empty() + items =~= items);
    lemma_drained(items);
}

/// Of two items pushed one after the other, the first comes out first: once
/// what waited before them is gone, the first is in front and the second next.
pub proof fn lemma_first_pushed_first_popped<T>(line: Seq<T>, first: T, second: T)
    ensures
        line.push(first).push(second).skip(line.len() as int) == seq![first, second],
{
    assert(line.push(first).push(second).skip(line.len() as int) =~= seq![first, second]);
}

} // verus!
