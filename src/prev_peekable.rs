//! The adapter itself.
use vstd::prelude::*;
use vstd::std_specs::iter::IteratorSpec;

use crate::model::{deref_of, initial, is_clone_of, peek_of, prev_of, step, AdapterState};

verus! {

/// An iterator with `prev`, `prev_peek` and `peek`, which return the previous
/// element, a reference to the previous element, and a reference to the next
/// element.
///
/// It is made by handing an iterator whose items implement `Clone` to
/// [`PrevPeekable::new`], which pulls the first element at once.
pub struct PrevPeekable<I> where I: Iterator, I::Item: Clone {
    /// The wrapped iterator.
    iterator: I,
    /// The element the next call of `next` returns, already pulled from `iterator`.
    upcoming: Option<I::Item>,
    /// The element returned last, until the end is reached.
    current: Option<I::Item>,
    /// The element returned before `current`; once the end is reached, the last element.
    prev: Option<I::Item>,
    /// Whether a call of `next` has found the end.
    finished: bool,
    /// Every element returned so far, in order.
    returned: Ghost<Seq<I::Item>>,
}

impl<I> PrevPeekable<I> where I: Iterator, I::Item: Clone {
    /// The wrapped iterator, as it stands now.
    pub closed spec fn source(&self) -> I {
        self.iterator
    }

    /// The observable state, given the elements that the wrapped iterator
    /// will still yield (`self.source().remaining()` in contracts): what was
    /// returned, what is still to come, and whether the end was reached.
    pub closed spec fn state(&self, unread: Seq<I::Item>) -> AdapterState<I::Item> {
        AdapterState {
            returned: self.returned@,
            remaining: match self.upcoming {
                Some(x) => seq![x] + unread,
                None => Seq::empty(),
            },
            finished: self.finished,
        }
    }

    /// The internal consistency of the adapter, which `new` establishes and
    /// `next` keeps.
    pub closed spec fn wf(&self) -> bool {
        let h = self.returned@;
        &&& self.iterator.obeys_prophetic_iter_laws()
        &&& self.finished ==> self.upcoming is None
        &&& self.current == if !self.finished && h.len() > 0 {
            Some(h.last())
        } else {
            None
        }
        &&& self.prev == prev_of(self.state(Seq::empty()))
    }

    /// Creates a new `PrevPeekable` over `iterator`, and pulls its first element.
    pub fn new(iterator: I) -> (r: Self)
        requires
            iterator.obeys_prophetic_iter_laws(),
        ensures
            r.wf(),
            r.state(r.source().remaining()) == initial(iterator.remaining()),
    {
        let mut source = iterator;
        let upcoming = source.next();
        let r = PrevPeekable {
            iterator: source,
            upcoming,
            current: None,
            prev: None,
            finished: false,
            returned: Ghost(Seq::empty()),
        };
        proof {
            assert(r.state(r.source().remaining()).remaining =~= iterator.remaining());
        }
        r
    }

    /// Returns the next element, or `None` once the wrapped iterator is
    /// exhausted. The element returned becomes the one `prev` will report after
    /// the following call; the first call that finds the end makes the last
    /// element the one `prev` reports from then on.
    pub fn next(&mut self) -> (r: Option<I::Item>)
        requires
            old(self).wf(),
        ensures
            final(self).wf(),
            final(self).state(final(self).source().remaining()) == step(
                old(self).state(old(self).source().remaining()),
            ).0,
            is_clone_of(step(old(self).state(old(self).source().remaining())).1, r),
    {
        match self.upcoming.take() {
            Some(item) => {
                let out = item.clone();
                self.returned = Ghost(self.returned@.push(item));
                self.prev = self.current.take();
                self.current = Some(item);
                self.upcoming = self.iterator.next();
                proof {
                    let before = old(self).state(old(self).iterator.remaining());
                    assert(self.state(self.iterator.remaining()).remaining
                        =~= before.remaining.drop_first());
                }
                Some(out)
            },
            None => {
                if !self.finished {
                    self.prev = self.current.take();
                    self.finished = true;
                }
                None
            },
        }
    }

    /// Returns a reference to the element the next call of `next` returns,
    /// without advancing.
    pub fn peek(&self) -> (r: Option<&I::Item>)
        ensures
            deref_of(r) == peek_of(self.state(self.source().remaining())),
    {
        self.upcoming.as_ref()
    }

    /// Returns a clone of the element returned before the last one, without
    /// moving backwards. Once the end is reached, it returns the last element.
    pub fn prev(&self) -> (r: Option<I::Item>)
        requires
            self.wf(),
        ensures
            is_clone_of(prev_of(self.state(self.source().remaining())), r),
    {
        self.prev.clone()
    }

    /// Returns a reference to the element returned before the last one,
    /// without moving backwards. Once the end is reached, it returns the last
    /// element.
    pub fn prev_peek(&self) -> (r: Option<&I::Item>)
        requires
            self.wf(),
        ensures
            deref_of(r) == prev_of(self.state(self.source().remaining())),
    {
        self.prev.as_ref()
    }
}

} // verus!
