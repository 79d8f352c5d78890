//! Lists of requests.

use std::collections::VecDeque;
use vstd::prelude::*;

verus! {

/// A list of requests.
pub struct RequestList<U> {
    requests: VecDeque<U>,
}

impl<U> View for RequestList<U> {
    type V = Seq<U>;

    /// The requests, head first.
    closed spec fn view(&self) -> Seq<U> {
        self.requests@
    }
}

impl<U> RequestList<U> {
    /// Create a new [`RequestList`].
    pub fn new() -> (r: Self)
        ensures
            r@ == Seq::<U>::empty(),
    {
        RequestList { requests: VecDeque::new() }
    }

    /// Check if the list is empty.
    pub fn empty(&self) -> (r: bool)
        ensures
            r == (self@.len() == 0),
    {
        self.requests.len() == 0
    }

    /// Pop a request from the head of the list.
    ///
    /// Returns [`None`] if the list is empty.
    pub fn pop(&mut self) -> (r: Option<U>)
        ensures
            match r {
                Some(rq) => {
                    &&& old(self)@.len() > 0
                    &&& rq == old(self)@[0]
                    &&& final(self)@ == old(self)@.skip(1)
                },
                None => old(self)@.len() == 0 && final(self)@ == old(self)@,
            },
    {
        let r = self.requests.pop_front();
        proof {
            if r is Some {
                assert(self@ =~= old(self)@.skip(1));
            }
        }
        r
    }

    /// Push a request on the tail of the list.
    pub fn push_tail(&mut self, rq: U)
        ensures
            final(self)@ == old(self)@.push(rq),
    {
        self.requests.push_back(rq);
    }

    /// Peek at the head of the list.
    ///
    /// Returns [`None`] if the list is empty.
    pub fn peek_raw(&self) -> (r: Option<&U>)
        ensures
            match r {
                Some(rq) => self@.len() > 0 && *rq == self@[0],
                None => self@.len() == 0,
            },
    {
        if self.requests.len() == 0 {
            None
        } else {
            Some(&self.requests[0])
        }
    }

    /// Returns a borrowing iterator over the requests in this list.
    pub fn iter(&self) -> (r: RequestListIter<'_, U>)
        ensures
            r@ == self@,
    {
        let r = RequestListIter { list: self, next: 0 };
        assert(r@ =~= self@);
        r
    }
}

impl<U> Default for RequestList<U> {
    fn default() -> (r: Self)
        ensures
            r@ == Seq::<U>::empty(),
    {
        RequestList::new()
    }
}

/// A borrowing iterator over the requests in a list.
pub struct RequestListIter<'a, U> {
    list: &'a RequestList<U>,
    next: usize,
}

impl<'a, U> View for RequestListIter<'a, U> {
    type V = Seq<U>;

    /// The requests that are still to come.
    closed spec fn view(&self) -> Seq<U> {
        self.list@.skip(self.next as int)
    }
}

impl<'a, U> RequestListIter<'a, U> {
    #[verifier::type_invariant]
    spec fn in_list(self) -> bool {
        self.next <= self.list@.len()
    }

    /// The next request, or [`None`] at the end of the list.
    pub fn next(&mut self) -> (r: Option<&'a U>)
        ensures
            match r {
                Some(rq) => {
                    &&& old(self)@.len() > 0
                    &&& *rq == old(self)@[0]
                    &&& final(self)@ == old(self)@.skip(1)
                },
                None => old(self)@.len() == 0 && final(self)@ == old(self)@,
            },
    {
        proof {
            use_type_invariant(&*self);
        }
        let list = self.list;
        let at: usize = self.next;
        if at >= list.requests.len() {
            return None;
        }
        self.next = at + 1;
        proof {
            assert(self@ =~= old(self)@.skip(1));
        }
        Some(&list.requests[at])
    }
}

/// Requests leave the list in the order in which they were pushed.
pub proof fn lemma_fifo<U>(list: Seq<U>, rq: U, i: int)
    requires
        0 <= i <= list.len(),
    ensures
        list.push(rq)[i] == (if i < list.len() {
            list[i]
        } else {
            rq
        }),
        list.push(rq).skip(i)[0] == list.push(rq)[i],
{
}

} // verus!
