//! The decisions of a bulk run: walking a paginated listing to the end, and
//! starting one rewrite task per key under a bound on tasks in flight,
//! keeping the first failure in key order.
use vstd::prelude::*;
use vstd::set_lib::{lemma_int_range, lemma_len_subset, lemma_subset_equality, set_int_range};

verus! {

/// The keys of a listing page, in order, leaving out entries without one.
pub open spec fn present_keys(page: Seq<Option<String>>) -> Seq<String>
    decreases page.len(),
{
    if page.len() == 0 {
        Seq::empty()
    } else {
        present_keys(page.drop_last()) + match page.last() {
            Some(k) => seq![k],
            None => Seq::empty(),
        }
    }
}

/// A listing being walked page by page.
pub struct Listing {
    /// Every key met so far, in listing order.
    pub keys: Vec<String>,
    /// The continuation token to send with the next page request.
    pub token: Option<String>,
    /// The last page has come: no token came with it.
    pub finished: bool,
}

impl Listing {
    /// A listing not yet begun: the first request carries no token.
    pub fn new() -> (r: Listing)
        ensures
            r.keys@ == Seq::<String>::empty(),
            r.token is None,
            !r.finished,
    {
        Listing { keys: Vec::new(), token: None, finished: false }
    }

    /// The request to make next: `Some(token)` with the continuation token
    /// to send, `None` once the listing is complete.
    pub fn next_request(&self) -> (r: Option<Option<String>>)
        ensures
            r == if self.finished {
                None
            } else {
                Some(self.token)
            },
    {
        if self.finished {
            None
        } else {
            match &self.token {
                None => Some(None),
                Some(t) => Some(Some(t.clone())),
            }
        }
    }

    /// Takes in one page: its keys join the list, and the listing goes on
    /// exactly when a continuation token came with it.
    pub fn accept_page(&mut self, page: Vec<Option<String>>, next_token: Option<String>)
        requires
            !old(self).finished,
        ensures
            final(self).keys@ == old(self).keys@ + present_keys(page@),
            final(self).token == next_token,
            final(self).finished == next_token is None,
    {
        let ghost start = self.keys@;
        let mut i: usize = 0;
        assert(page@.take(0) =~= Seq::<Option<String>>::empty());
        assert(start + Seq::<String>::empty() =~= start);
        while i < page.len()
            invariant
                i <= page@.len(),
                self.keys@ == start + present_keys(page@.take(i as int)),
            decreases page@.len() - i,
        {
            assert(page@.take(i + 1).drop_last() =~= page@.take(i as int));
            match &page[i] {
                Some(k) => {
                    self.keys.push(k.clone());
                },
                None => {},
            }
            i = i + 1;
            assert(self.keys@ =~= start + present_keys(page@.take(i as int)));
        }
        assert(page@.take(i as int) =~= page@);
        self.finished = next_token.is_none();
        self.token = next_token;
    }

    /// The keys met, once the walk is over.
    pub fn into_keys(self) -> (r: Vec<String>)
        ensures
            r@ == self.keys@,
    {
        self.keys
    }
}

/// Starting one task per key, `0..total` in listing order, with at most
/// `limit` in flight; tasks may finish in any order.
pub struct Dispatcher {
    /// How many keys there are.
    pub total: usize,
    /// The most tasks in flight at once.
    pub limit: usize,
    /// The next key to start: tasks of keys `0..next` have been started.
    pub next: usize,
    /// Tasks started and not yet finished.
    pub running: usize,
    /// Tasks finished.
    pub completed: usize,
    /// The least key whose task failed, if any did.
    pub first_failure: Option<usize>,
    /// The keys whose task has finished.
    pub finished: Ghost<Set<int>>,
    /// The keys whose task has failed.
    pub failed: Ghost<Set<int>>,
}

impl Dispatcher {
    /// The counts agree with the sets of keys, and the bound holds.
    pub open spec fn wf(&self) -> bool {
        &&& self.limit > 0
        &&& self.next <= self.total
        &&& self.finished@.finite()
        &&& self.finished@.subset_of(set_int_range(0, self.next as int))
        &&& self.completed == self.finished@.len()
        &&& self.running + self.completed == self.next
        &&& self.running <= self.limit
        &&& self.failed@.subset_of(self.finished@)
        &&& match self.first_failure {
            None => self.failed@ == Set::<int>::empty(),
            Some(i) => self.failed@.contains(i as int) && forall|j: int|
                #[trigger] self.failed@.contains(j) ==> i <= j,
        }
    }

    /// Every task has finished.
    pub open spec fn all_finished(&self) -> bool {
        self.completed == self.total
    }

    /// A run over `total` keys with at most `limit` tasks in flight.
    pub fn new(total: usize, limit: usize) -> (r: Dispatcher)
        requires
            limit > 0,
        ensures
            r.wf(),
            r.total == total,
            r.limit == limit,
            r.next == 0,
            r.running == 0,
            r.finished@ == Set::<int>::empty(),
            r.failed@ == Set::<int>::empty(),
    {
        Dispatcher {
            total,
            limit,
            next: 0,
            running: 0,
            completed: 0,
            first_failure: None,
            finished: Ghost(Set::empty()),
            failed: Ghost(Set::empty()),
        }
    }

    /// Starts the next key where there is one and a free place: returns the
    /// key's index to start its task with.
    pub fn start_next(&mut self) -> (r: Option<usize>)
        requires
            old(self).wf(),
        ensures
            final(self).wf(),
            r is Some <==> old(self).running < old(self).limit && old(self).next < old(self).total,
            r matches Some(i) ==> i == old(self).next && final(self).next == old(self).next + 1
                && final(self).running == old(self).running + 1,
            r is None ==> *final(self) == *old(self),
            final(self).total == old(self).total,
            final(self).limit == old(self).limit,
            final(self).finished == old(self).finished,
            final(self).failed == old(self).failed,
            final(self).completed == old(self).completed,
    {
        if self.running < self.limit && self.next < self.total {
            let i = self.next;
            self.next = self.next + 1;
            self.running = self.running + 1;
            Some(i)
        } else {
            None
        }
    }

    /// Records that the task of key `index` has finished, well or not.
    pub fn finish(&mut self, index: usize, ok: bool)
        requires
            old(self).wf(),
            index < old(self).next,
            !old(self).finished@.contains(index as int),
        ensures
            final(self).wf(),
            final(self).finished@ == old(self).finished@.insert(index as int),
            final(self).failed@ == if ok {
                old(self).failed@
            } else {
                old(self).failed@.insert(index as int)
            },
            final(self).running == old(self).running - 1,
            final(self).completed == old(self).completed + 1,
            final(self).next == old(self).next,
            final(self).total == old(self).total,
            final(self).limit == old(self).limit,
    {
        proof {
            let room = set_int_range(0, self.next as int).remove(index as int);
            lemma_int_range(0, self.next as int);
            assert(self.finished@.subset_of(room));
            lemma_len_subset(self.finished@, room);
        }
        self.running = self.running - 1;
        self.completed = self.completed + 1;
        self.finished = Ghost(self.finished@.insert(index as int));
        if !ok {
            self.failed = Ghost(self.failed@.insert(index as int));
            match self.first_failure {
                None => {
                    self.first_failure = Some(index);
                },
                Some(f) => {
                    if index < f {
                        self.first_failure = Some(index);
                    }
                },
            }
        }
    }

    /// Whether every task has finished.
    pub fn is_done(&self) -> (r: bool)
        ensures
            r == self.all_finished(),
    {
        self.completed == self.total
    }

    /// The run's result: the least failed key, or success where none failed.
    pub fn outcome(&self) -> (r: Result<(), usize>)
        requires
            self.wf(),
        ensures
            r is Ok <==> self.failed@ == Set::<int>::empty(),
            r matches Err(i) ==> self.failed@.contains(i as int) && forall|j: int|
                #[trigger] self.failed@.contains(j) ==> i <= j,
    {
        match self.first_failure {
            None => Ok(()),
            Some(i) => Err(i),
        }
    }
}

/// Once every task has finished, every key had its task started and finished:
/// a failure stops no other key.
pub proof fn lemma_all_keys_attempted(d: Dispatcher)
    requires
        d.wf(),
        d.all_finished(),
    ensures
        d.next == d.total,
        forall|i: int| 0 <= i < d.total ==> #[trigger] d.finished@.contains(i),
{
    lemma_int_range(0, d.next as int);
    lemma_len_subset(d.finished@, set_int_range(0, d.next as int));
    lemma_subset_equality(d.finished@, set_int_range(0, d.next as int));
}

} // verus!
