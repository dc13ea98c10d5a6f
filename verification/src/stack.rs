//! A bounded "windowed" stack: a fixed-capacity buffer of previous states
//! that supports one-step rewind. Pushing past the capacity evicts the
//! oldest entry, so memory stays bounded under long-running simulations.

use vstd::prelude::*;
use std::collections::VecDeque;

verus! {

/// The capacity a windowed stack is built with when none is given.
pub const DEFAULT_WINDOW_SIZE: usize = 10;

/// The contents of a windowed stack of capacity `size` after one push:
/// the item goes to the back, and if the stack would exceed its capacity,
/// the front (oldest) entry leaves.
pub open spec fn windowed_push<T>(s: Seq<T>, size: nat, item: T) -> Seq<T> {
    if s.len() + 1 > size {
        s.push(item).skip(1)
    } else {
        s.push(item)
    }
}

/// The contents of a windowed stack of capacity `size` after pushing every
/// entry of `items` in order.
pub open spec fn windowed_push_all<T>(s: Seq<T>, size: nat, items: Seq<T>) -> Seq<T>
    decreases items.len(),
{
    if items.len() == 0 {
        s
    } else {
        windowed_push_all(windowed_push(s, size, items[0]), size, items.skip(1))
    }
}

/// After any run of pushes a windowed stack holds exactly the most recent
/// entries of everything it has seen: the last `size` of them, or all of
/// them while they still fit.
proof fn lemma_windowed_push_all_suffix<T>(s: Seq<T>, size: nat, items: Seq<T>)
    requires
        s.len() <= size,
    ensures
        ({
            let q = s + items;
            let kept = if q.len() <= size {
                q.len() as int
            } else {
                size as int
            };
            windowed_push_all(s, size, items) == q.skip(q.len() - kept)
        }),
    decreases items.len(),
{
    let q = s + items;
    let kept = if q.len() <= size {
        q.len() as int
    } else {
        size as int
    };
    if items.len() == 0 {
        assert(q =~= s);
        assert(q.skip(q.len() - kept) =~= s);
    } else {
        let s2 = windowed_push(s, size, items[0]);
        let q2 = s2 + items.skip(1);
        lemma_windowed_push_all_suffix(s2, size, items.skip(1));
        let kept2 = if q2.len() <= size {
            q2.len() as int
        } else {
            size as int
        };
        if s.len() < size {
            assert(q2 =~= q);
            assert(q2.skip(q2.len() - kept2) =~= q.skip(q.len() - kept));
        } else {
            // The stack was full: the front entry left, so the run keeps a
            // one-shorter suffix of the same stream.
            assert(s2 =~= q.subrange(1, s.len() + 1 as int));
            assert(q2 =~= q.skip(1));
            assert(q2.skip(q2.len() - kept2) =~= q.skip(q.len() - kept));
        }
    }
}

/// Capacity bounds a windowed stack exactly: pushing `size + 1` items onto
/// an empty stack of capacity `size` leaves exactly `size` items, the first
/// pushed item having been evicted and every later one retained in order.
pub proof fn lemma_push_eviction<T>(items: Seq<T>, size: nat)
    requires
        items.len() == size + 1,
    ensures
        windowed_push_all(Seq::empty(), size, items) == items.skip(1),
        windowed_push_all(Seq::empty(), size, items).len() == size,
{
    lemma_windowed_push_all_suffix(Seq::empty(), size, items);
    assert(Seq::empty() + items =~= items);
}

/// A fixed-capacity stack holding the most recent `size` entries pushed
/// into it; older entries are evicted from the front.
#[derive(Debug)]
pub struct WindowedStack<T> {
    size: usize,
    inner: VecDeque<T>,
}

impl<T> View for WindowedStack<T> {
    type V = Seq<T>;

    /// The entries of this stack, oldest first.
    closed spec fn view(&self) -> Seq<T> {
        self.inner@
    }
}

impl<T> WindowedStack<T> {
    /// The fixed capacity this stack was built with.
    pub closed spec fn spec_size(self) -> usize {
        self.size
    }

    /// Builds an empty stack of the given fixed capacity.
    pub fn new(size: usize) -> (r: Self)
        ensures
            r@ == Seq::<T>::empty(),
            r.spec_size() == size,
    {
        Self { size, inner: VecDeque::new() }
    }

    /// Appends an item at the back; if the stack would exceed its capacity,
    /// the oldest entry is evicted from the front.
    pub fn push(&mut self, item: T)
        ensures
            final(self)@ == windowed_push(old(self)@, old(self).spec_size() as nat, item),
            final(self).spec_size() == old(self).spec_size(),
    {
        self.inner.push_back(item);
        if self.inner.len() > self.size {
            self.inner.pop_front();
        }
    }

    /// Removes and returns the most recently pushed entry, or `None` when
    /// the stack is empty.
    pub fn pop(&mut self) -> (r: Option<T>)
        ensures
            final(self).spec_size() == old(self).spec_size(),
            match r {
                Some(item) => {
                    &&& old(self)@.len() > 0
                    &&& item == old(self)@.last()
                    &&& final(self)@ == old(self)@.drop_last()
                },
                None => {
                    &&& old(self)@.len() == 0
                    &&& final(self)@ == old(self)@
                },
            },
    {
        self.inner.pop_back()
    }

    /// Whether this stack holds no entries.
    pub fn is_empty(&self) -> (r: bool)
        ensures
            r == (self@.len() == 0),
    {
        self.inner.len() == 0
    }
}

impl<T> Default for WindowedStack<T> {
    /// An empty stack of the default capacity.
    fn default() -> (r: Self)
        ensures
            r@ == Seq::<T>::empty(),
            r.spec_size() == DEFAULT_WINDOW_SIZE,
    {
        Self::new(DEFAULT_WINDOW_SIZE)
    }
}

} // verus!
