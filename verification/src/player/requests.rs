//! The queue of media requests of a track: one request per address, served
//! from the front, with parts fetched two at a time.

use vstd::prelude::*;

use std::collections::VecDeque;

verus! {

broadcast use vstd::std_specs::vecdeque::group_vec_dequeue_axioms;

/// A queued request: its address, whether it fetches a part, and what the
/// caller keeps with it.
pub struct QueuedRequest<R> {
    pub url: String,
    pub is_part: bool,
    pub item: R,
}

/// The pending media requests of a track, oldest first.
pub struct RequestQueue<R> {
    requests: VecDeque<QueuedRequest<R>>,
}

/// Whether some request of `q` has address `url`.
pub open spec fn has_url<R>(q: Seq<QueuedRequest<R>>, url: Seq<char>) -> bool {
    exists|i: int| 0 <= i < q.len() && (#[trigger] q[i]).url@ == url
}

/// Whether no two requests of `q` share an address.
pub open spec fn distinct_urls<R>(q: Seq<QueuedRequest<R>>) -> bool {
    forall|i: int, j: int|
        0 <= i < q.len() && 0 <= j < q.len() && i != j ==> (#[trigger] q[i]).url@ != (
        #[trigger] q[j]).url@
}

/// How many requests at the front are started together: the front one, and
/// the one after it too when both fetch parts.
pub open spec fn start_count_of<R>(q: Seq<QueuedRequest<R>>) -> nat {
    if q.len() == 0 {
        0
    } else if q[0].is_part && q.len() >= 2 && q[1].is_part {
        2
    } else {
        1
    }
}

impl<R> View for RequestQueue<R> {
    type V = Seq<QueuedRequest<R>>;

    closed spec fn view(&self) -> Seq<QueuedRequest<R>> {
        self.requests@
    }
}

impl<R> RequestQueue<R> {
    /// An empty queue.
    pub fn new() -> (r: Self)
        ensures
            r@ == Seq::<QueuedRequest<R>>::empty(),
    {
        RequestQueue { requests: VecDeque::new() }
    }

    /// The number of queued requests.
    pub fn len(&self) -> (r: usize)
        ensures
            r == self@.len(),
    {
        self.requests.len()
    }

    /// Queues a request at the back, unless one with the same address is
    /// queued already; says whether it was queued.
    pub fn push(&mut self, req: QueuedRequest<R>) -> (r: bool)
        ensures
            r == !has_url(old(self)@, req.url@),
            r ==> final(self)@ == old(self)@.push(req),
            !r ==> final(self)@ == old(self)@,
            has_url(final(self)@, req.url@),
            distinct_urls(old(self)@) ==> distinct_urls(final(self)@),
    {
        let ghost before = self@;
        let ghost url = req.url@;
        let mut i: usize = 0;
        let n = self.requests.len();
        while i < n
            invariant
                n == self@.len(),
                self@ == before,
                i <= n,
                forall|y: int| 0 <= y < i ==> (#[trigger] self@[y]).url@ != req.url@,
            decreases n - i,
        {
            if self.requests[i].url == req.url {
                proof {
                    assert(self@[i as int].url@ == req.url@);
                    lemma_push_keeps_urls_distinct(before, req, self@, false);
                }
                return false;
            }
            i = i + 1;
        }
        let ghost r = req;
        self.requests.push_back(req);
        proof {
            lemma_push_keeps_urls_distinct(before, r, self@, true);
        }
        true
    }

    /// Puts a request back at the front, to be retried first.
    pub fn requeue(&mut self, req: QueuedRequest<R>)
        ensures
            final(self)@ == seq![req] + old(self)@,
    {
        self.requests.push_front(req);
    }

    /// Takes the oldest request out of the queue.
    pub fn pop_front(&mut self) -> (r: Option<QueuedRequest<R>>)
        ensures
            match r {
                Some(x) => old(self)@.len() > 0 && x == old(self)@[0] && final(self)@
                    == old(self)@.drop_first(),
                None => old(self)@.len() == 0 && final(self)@ == old(self)@,
            },
    {
        let r = self.requests.pop_front();
        proof {
            if r is Some {
                assert(old(self)@.subrange(1, old(self)@.len() as int) == old(self)@.drop_first());
            }
        }
        r
    }

    /// The oldest request, if any.
    pub fn front(&self) -> (r: Option<&QueuedRequest<R>>)
        ensures
            match r {
                Some(x) => self@.len() > 0 && *x == self@[0],
                None => self@.len() == 0,
            },
    {
        if self.requests.len() > 0 {
            Some(&self.requests[0])
        } else {
            None
        }
    }

    /// Drops every queued request.
    pub fn clear(&mut self)
        ensures
            final(self)@ == Seq::<QueuedRequest<R>>::empty(),
    {
        self.requests.clear();
    }

    /// How many requests at the front are to be started now: none when the
    /// queue is empty, two when the two oldest both fetch parts, one otherwise.
    pub fn start_count(&self) -> (r: usize)
        ensures
            r == start_count_of(self@),
    {
        let n = self.requests.len();
        if n == 0 {
            0
        } else if self.requests[0].is_part && n >= 2 && self.requests[1].is_part {
            2
        } else {
            1
        }
    }
}

/// Pushing onto a queue whose addresses are distinct keeps them distinct,
/// whether or not the request was queued.
proof fn lemma_push_keeps_urls_distinct<R>(
    before: Seq<QueuedRequest<R>>,
    req: QueuedRequest<R>,
    after: Seq<QueuedRequest<R>>,
    queued: bool,
)
    requires
        queued == !has_url(before, req.url@),
        queued ==> after == before.push(req),
        !queued ==> after == before,
    ensures
        distinct_urls(before) ==> distinct_urls(after),
        has_url(after, req.url@),
{
    if queued && distinct_urls(before) {
        assert forall|i: int, j: int|
            0 <= i < after.len() && 0 <= j < after.len() && i != j implies (#[trigger] after[i]).url@
            != (#[trigger] after[j]).url@ by {
            if i == before.len() as int {
                assert(after[j] == before[j]);
            } else if j == before.len() as int {
                assert(after[i] == before[i]);
            } else {
                assert(after[i] == before[i]);
                assert(after[j] == before[j]);
            }
        }
    }
    if queued {
        assert(after[before.len() as int] == req);
    }
}


/// Taking the oldest request out and putting it back, as a failed request is
/// retried, leaves the queue as it was.
pub proof fn law_requeue_restores_queue<R>(q: Seq<QueuedRequest<R>>)
    requires
        q.len() > 0,
    ensures
        seq![q[0]] + q.drop_first() == q,
{
    assert(seq![q[0]] + q.drop_first() =~= q);
}

} // verus!
