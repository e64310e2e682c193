use crate::record::{TokenRecord, TokenRecordV};
use vstd::prelude::*;

verus! {

/// One live subscriber: its identity, its bounded queue of undelivered
/// records (oldest first), and whether its conduit has reported closed.
pub struct Subscriber {
    pub id: u64,
    pub queue: Vec<TokenRecord>,
    pub capacity: usize,
    pub closed: bool,
}

/// The mathematical image of a [`Subscriber`].
#[verifier::ext_equal]
pub struct SubscriberV {
    pub id: u64,
    pub queue: Seq<TokenRecordV>,
    pub capacity: usize,
    pub closed: bool,
}

impl View for Subscriber {
    type V = SubscriberV;

    open spec fn view(&self) -> SubscriberV {
        SubscriberV {
            id: self.id,
            queue: self.queue@.map_values(|t: TokenRecord| t@),
            capacity: self.capacity,
            closed: self.closed,
        }
    }
}

impl SubscriberV {
    /// The queue is bounded by a positive capacity.
    pub open spec fn wf(self) -> bool {
        &&& 1 <= self.capacity
        &&& self.queue.len() <= self.capacity
    }
}

/// What one delivery does to a subscriber: the record joins the back of the
/// queue; a full queue loses its oldest undelivered record first.
pub open spec fn deliver_spec(s: SubscriberV, t: TokenRecordV) -> SubscriberV {
    if s.queue.len() < s.capacity {
        SubscriberV { id: s.id, queue: s.queue.push(t), capacity: s.capacity, closed: s.closed }
    } else {
        SubscriberV {
            id: s.id,
            queue: s.queue.drop_first().push(t),
            capacity: s.capacity,
            closed: s.closed,
        }
    }
}

/// What one publish does to the subscriber set: every closed subscriber is
/// pruned, every open one receives the record; relative order is kept.
pub open spec fn publish_subs_spec(subs: Seq<SubscriberV>, t: TokenRecordV) -> Seq<SubscriberV>
    decreases subs.len(),
{
    if subs.len() == 0 {
        Seq::empty()
    } else {
        let init = publish_subs_spec(subs.drop_last(), t);
        if subs.last().closed {
            init
        } else {
            init.push(deliver_spec(subs.last(), t))
        }
    }
}

/// The index of the subscriber with an identity, if one is registered.
pub open spec fn sub_index(subs: Seq<SubscriberV>, id: u64) -> Option<int>
    decreases subs.len(),
{
    if subs.len() == 0 {
        None
    } else if subs.first().id == id {
        Some(0)
    } else {
        match sub_index(subs.drop_first(), id) {
            Some(k) => Some(k + 1),
            None => None,
        }
    }
}

/// The mathematical image of the broadcaster: the registered subscribers,
/// the identity the next subscription takes, and every record published so
/// far in publish order.
#[verifier::ext_equal]
pub struct FeedV {
    pub subs: Seq<SubscriberV>,
    pub next_id: u64,
    pub history: Seq<TokenRecordV>,
}

impl FeedV {
    /// Subscribers are well-formed and carry distinct identities below the
    /// next free one.
    pub open spec fn wf(self) -> bool {
        &&& forall|i: int| 0 <= i < self.subs.len() ==> (#[trigger] self.subs[i]).wf()
        &&& forall|i: int| 0 <= i < self.subs.len() ==> (#[trigger] self.subs[i]).id < self.next_id
        &&& forall|i: int, j: int|
            0 <= i < j < self.subs.len() ==> self.subs[i].id != self.subs[j].id
    }

    /// What a subscription does: a fresh open subscriber with an empty queue
    /// joins at the end; no history is replayed to it.
    pub open spec fn subscribe_spec(self, capacity: usize) -> FeedV {
        FeedV {
            subs: self.subs.push(
                SubscriberV {
                    id: self.next_id,
                    queue: Seq::empty(),
                    capacity: capacity,
                    closed: false,
                },
            ),
            next_id: (self.next_id + 1) as u64,
            history: self.history,
        }
    }

    /// What a publish does: the record reaches every open subscriber and
    /// enters the history; closed subscribers are pruned.
    pub open spec fn publish_spec(self, t: TokenRecordV) -> FeedV {
        FeedV {
            subs: publish_subs_spec(self.subs, t),
            next_id: self.next_id,
            history: self.history.push(t),
        }
    }
}

/// The fan-out broadcaster: sole owner of the live subscriber set.
pub struct Broadcaster {
    pub subs: Vec<Subscriber>,
    pub next_id: u64,
    pub history: Ghost<Seq<TokenRecordV>>,
}

impl View for Broadcaster {
    type V = FeedV;

    open spec fn view(&self) -> FeedV {
        FeedV {
            subs: self.subs@.map_values(|s: Subscriber| s@),
            next_id: self.next_id,
            history: self.history@,
        }
    }
}

impl Subscriber {
    /// Hands one record to this subscriber's bounded queue.
    fn deliver(&mut self, record: &TokenRecord)
        requires
            old(self)@.wf(),
        ensures
            final(self)@ == deliver_spec(old(self)@, record@),
            final(self)@.wf(),
    {
        if self.queue.len() >= self.capacity {
            let _ = self.queue.remove(0);
            proof {
                assert(self@.queue =~= old(self)@.queue.drop_first());
            }
        }
        self.queue.push(record.clone());
        proof {
            assert(self@.queue =~= deliver_spec(old(self)@, record@).queue);
        }
    }
}

impl Broadcaster {
    /// A broadcaster with no subscribers and an empty history.
    pub fn new() -> (b: Self)
        ensures
            b@.wf(),
            b@.subs == Seq::<SubscriberV>::empty(),
            b@.history == Seq::<TokenRecordV>::empty(),
            b@.next_id == 1,
    {
        let b = Broadcaster { subs: Vec::new(), next_id: 1, history: Ghost(Seq::empty()) };
        proof {
            assert(b@.subs =~= Seq::<SubscriberV>::empty());
        }
        b
    }

    /// Registers a new live listener under a fresh identity. Records arrive
    /// on its queue only from this point forward: no history is replayed.
    pub fn subscribe(&mut self, capacity: usize) -> (id: u64)
        requires
            old(self)@.wf(),
            1 <= capacity,
            old(self)@.next_id < u64::MAX,
        ensures
            final(self)@ == old(self)@.subscribe_spec(capacity),
            final(self)@.wf(),
            id == old(self)@.next_id,
            sub_index(final(self)@.subs, id) == Some(old(self)@.subs.len() as int),
    {
        let id = self.next_id;
        self.subs.push(Subscriber { id, queue: Vec::new(), capacity, closed: false });
        self.next_id = id + 1;
        proof {
            assert(self@.subs =~~= old(self)@.subscribe_spec(capacity).subs);
            let ghost k = old(self)@.subs.len() as int;
            assert forall|i: int| 0 <= i < k implies (#[trigger] self@.subs[i]).id
                != self@.subs[k].id by {
                assert(self@.subs[i] == old(self)@.subs[i]);
            }
            lemma_sub_index_of_unique(self@.subs, k);
        }
        id
    }

    /// Publishes one record to every open subscriber, never waiting on any:
    /// a full queue loses its oldest record, a closed subscriber is pruned,
    /// and with no subscribers the publish only enters the history.
    pub fn publish(&mut self, record: &TokenRecord)
        requires
            old(self)@.wf(),
        ensures
            final(self)@ == old(self)@.publish_spec(record@),
            final(self)@.wf(),
    {
        let ghost orig = old(self)@.subs;
        let mut kept: Vec<Subscriber> = Vec::new();
        proof {
            assert(orig.take(0) =~~= Seq::<SubscriberV>::empty());
            assert(orig.skip(0) =~~= orig);
        }
        while self.subs.len() > 0
            invariant
                self.subs@.map_values(|s: Subscriber| s@) == orig.skip(
                    orig.len() - self.subs@.len(),
                ),
                kept@.map_values(|s: Subscriber| s@) == publish_subs_spec(
                    orig.take(orig.len() - self.subs@.len()),
                    record@,
                ),
                self.subs@.len() <= orig.len(),
                self.next_id == old(self).next_id,
                self.history == old(self).history,
                forall|k: int| 0 <= k < orig.len() ==> (#[trigger] orig[k]).wf(),
            decreases self.subs.len(),
        {
            let ghost i = orig.len() - self.subs@.len();
            let ghost prev = self.subs@;
            let mut s = self.subs.remove(0);
            proof {
                assert(prev.map_values(|x: Subscriber| x@)[0] == s@);
                assert(orig.skip(i)[0] == orig[i]);
                assert forall|j: int| 0 <= j < self.subs@.len() implies #[trigger] orig.skip(
                    i + 1,
                )[j] == self.subs@.map_values(|x: Subscriber| x@)[j] by {
                    assert(self.subs@[j] == prev[j + 1]);
                    assert(prev.map_values(|x: Subscriber| x@)[j + 1] == prev[j + 1]@);
                    assert(orig.skip(i)[j + 1] == orig.skip(i + 1)[j]);
                }
                assert(self.subs@.map_values(|x: Subscriber| x@) =~~= orig.skip(i + 1));
                assert(orig.take(i + 1).drop_last() =~~= orig.take(i));
                assert(orig.take(i + 1).last() == orig[i]);
            }
            let ghost kept_before = kept@;
            if !s.closed {
                s.deliver(record);
                kept.push(s);
                proof {
                    assert forall|j: int| 0 <= j < kept@.len() implies #[trigger] publish_subs_spec(
                        orig.take(i + 1),
                        record@,
                    )[j] == kept@.map_values(|x: Subscriber| x@)[j] by {
                        if j < kept_before.len() {
                            assert(kept@[j] == kept_before[j]);
                            assert(kept_before.map_values(|x: Subscriber| x@)[j]
                                == kept_before[j]@);
                        } else {
                            assert(kept@[j] == s);
                        }
                    }
                    assert(kept@.map_values(|x: Subscriber| x@) =~~= publish_subs_spec(
                        orig.take(i + 1),
                        record@,
                    ));
                }
            } else {
                proof {
                    assert(kept@.map_values(|x: Subscriber| x@) =~~= publish_subs_spec(
                        orig.take(i + 1),
                        record@,
                    ));
                }
            }
        }
        proof {
            assert(orig.take(orig.len() as int) =~~= orig);
            assert(self.subs@.len() == 0);
        }
        self.subs = kept;
        proof {
            self.history@ = self.history@.push(record@);
        }
        proof {
            lemma_publish_subs_preserves_feed_wf(orig, record@, old(self)@.next_id);
            assert(self@.subs == publish_subs_spec(orig, record@));
            assert(self@.history == old(self)@.history.push(record@));
            assert(self@.next_id == old(self)@.next_id);
            assert(self@ =~~= old(self)@.publish_spec(record@));
        }
    }

    /// Finds the position of the subscriber registered under an identity.
    fn find_index(&self, id: u64) -> (r: Option<usize>)
        ensures
            match r {
                Some(k) => sub_index(self@.subs, id) == Some(k as int),
                None => sub_index(self@.subs, id) is None,
            },
    {
        let ghost subs = self@.subs;
        let n = self.subs.len();
        let mut i: usize = 0;
        proof {
            assert(subs.skip(0) =~~= subs);
        }
        while i < n
            invariant
                n == self.subs.len(),
                0 <= i <= n,
                subs == self@.subs,
                sub_index(subs, id) == (match sub_index(subs.skip(i as int), id) {
                    Some(k) => Some(k + i),
                    None => None::<int>,
                }),
            decreases n - i,
        {
            proof {
                assert(subs.skip(i as int)[0] == subs[i as int]);
            }
            if self.subs[i].id == id {
                return Some(i);
            }
            proof {
                assert(subs.skip(i as int).drop_first() =~~= subs.skip(i + 1));
            }
            i = i + 1;
        }
        proof {
            assert(subs.skip(n as int) =~~= Seq::<SubscriberV>::empty());
        }
        None
    }

    /// Takes the oldest undelivered record off a subscriber's queue, if the
    /// subscriber is registered and has one waiting.
    pub fn recv(&mut self, id: u64) -> (r: Option<TokenRecord>)
        requires
            old(self)@.wf(),
        ensures
            final(self)@.wf(),
            final(self)@.next_id == old(self)@.next_id,
            final(self)@.history == old(self)@.history,
            match sub_index(old(self)@.subs, id) {
                Some(k) => if old(self)@.subs[k].queue.len() > 0 {
                    &&& (r matches Some(t) && t@ == old(self)@.subs[k].queue.first())
                    &&& final(self)@.subs == old(self)@.subs.update(
                        k,
                        (SubscriberV {
                            id: old(self)@.subs[k].id,
                            queue: old(self)@.subs[k].queue.drop_first(),
                            capacity: old(self)@.subs[k].capacity,
                            closed: old(self)@.subs[k].closed,
                        }),
                    )
                } else {
                    r is None && final(self)@.subs == old(self)@.subs
                },
                None => r is None && final(self)@.subs == old(self)@.subs,
            },
    {
        proof {
            lemma_sub_index_bounds(old(self)@.subs, id);
        }
        match self.find_index(id) {
            None => None,
            Some(k) => {
                let mut s = self.subs.remove(k);
                proof {
                    assert(s@ == old(self)@.subs[k as int]);
                }
                if s.queue.len() > 0 {
                    let t = s.queue.remove(0);
                    proof {
                        assert(s@.queue =~~= old(self)@.subs[k as int].queue.drop_first());
                        assert(t@ == old(self)@.subs[k as int].queue.first());
                    }
                    self.subs.insert(k, s);
                    proof {
                        assert(self@.subs =~~= old(self)@.subs.update(
                            k as int,
                            (SubscriberV {
                                id: old(self)@.subs[k as int].id,
                                queue: old(self)@.subs[k as int].queue.drop_first(),
                                capacity: old(self)@.subs[k as int].capacity,
                                closed: old(self)@.subs[k as int].closed,
                            }),
                        ));
                        lemma_wf_after_update_shrunk(old(self)@, self@, k as int);
                    }
                    Some(t)
                } else {
                    self.subs.insert(k, s);
                    proof {
                        assert(self@.subs =~~= old(self)@.subs);
                        assert(self@ =~~= old(self)@);
                    }
                    None
                }
            },
        }
    }

    /// Notes that a subscriber's conduit reported closed; the subscriber is
    /// pruned on the next publish.
    pub fn close(&mut self, id: u64)
        requires
            old(self)@.wf(),
        ensures
            final(self)@.wf(),
            final(self)@.next_id == old(self)@.next_id,
            final(self)@.history == old(self)@.history,
            match sub_index(old(self)@.subs, id) {
                Some(k) => final(self)@.subs == old(self)@.subs.update(
                    k,
                    (SubscriberV {
                        id: old(self)@.subs[k].id,
                        queue: old(self)@.subs[k].queue,
                        capacity: old(self)@.subs[k].capacity,
                        closed: true,
                    }),
                ),
                None => final(self)@.subs == old(self)@.subs,
            },
    {
        proof {
            lemma_sub_index_bounds(old(self)@.subs, id);
        }
        match self.find_index(id) {
            None => (),
            Some(k) => {
                let mut s = self.subs.remove(k);
                s.closed = true;
                self.subs.insert(k, s);
                proof {
                    assert(self@.subs =~~= old(self)@.subs.update(
                        k as int,
                        (SubscriberV {
                            id: old(self)@.subs[k as int].id,
                            queue: old(self)@.subs[k as int].queue,
                            capacity: old(self)@.subs[k as int].capacity,
                            closed: true,
                        }),
                    ));
                    lemma_wf_after_update_shrunk(old(self)@, self@, k as int);
                }
            },
        }
    }

    /// Removes a subscriber at once; no other subscriber is affected.
    pub fn unsubscribe(&mut self, id: u64)
        requires
            old(self)@.wf(),
        ensures
            final(self)@.wf(),
            final(self)@.next_id == old(self)@.next_id,
            final(self)@.history == old(self)@.history,
            match sub_index(old(self)@.subs, id) {
                Some(k) => final(self)@.subs == old(self)@.subs.remove(k),
                None => final(self)@.subs == old(self)@.subs,
            },
    {
        proof {
            lemma_sub_index_bounds(old(self)@.subs, id);
        }
        match self.find_index(id) {
            None => (),
            Some(k) => {
                let _ = self.subs.remove(k);
                proof {
                    assert(self@.subs =~~= old(self)@.subs.remove(k as int));
                    let now = self@.subs;
                    let prior = old(self)@.subs;
                    assert forall|a: int| 0 <= a < now.len() implies #[trigger] now[a] == (if a
                        < k as int {
                        prior[a]
                    } else {
                        prior[a + 1]
                    }) by {}
                    assert forall|a: int, b: int| 0 <= a < b < now.len() implies now[a].id
                        != now[b].id by {}
                }
            },
        }
    }
}

/// A registered identity is found at a position inside the subscriber set,
/// and that position carries it.
pub proof fn lemma_sub_index_bounds(subs: Seq<SubscriberV>, id: u64)
    ensures
        match sub_index(subs, id) {
            Some(k) => 0 <= k < subs.len() && subs[k].id == id,
            None => true,
        },
    decreases subs.len(),
{
    if subs.len() > 0 && subs.first().id != id {
        lemma_sub_index_bounds(subs.drop_first(), id);
    }
}

/// Replacing one subscriber by a well-formed one with the same identity keeps
/// the whole feed well-formed.
proof fn lemma_wf_after_update_shrunk(prior: FeedV, now: FeedV, k: int)
    requires
        prior.wf(),
        0 <= k < prior.subs.len(),
        now.subs.len() == prior.subs.len(),
        now.next_id == prior.next_id,
        now.subs[k].id == prior.subs[k].id,
        now.subs[k].capacity == prior.subs[k].capacity,
        now.subs[k].queue.len() <= prior.subs[k].queue.len(),
        forall|a: int| 0 <= a < now.subs.len() && a != k ==> now.subs[a] == prior.subs[a],
    ensures
        now.wf(),
{
    assert forall|i: int| 0 <= i < now.subs.len() implies (#[trigger] now.subs[i]).wf() by {
        assert(prior.subs[i].wf());
    }
    assert forall|i: int| 0 <= i < now.subs.len() implies (#[trigger] now.subs[i]).id
        < now.next_id by {
        assert(prior.subs[i].wf());
    }
    assert forall|i: int, j: int| 0 <= i < j < now.subs.len() implies now.subs[i].id
        != now.subs[j].id by {
        assert(prior.subs[i].id != prior.subs[j].id);
    }
}

/// A freshly pushed identity, larger than all before it, is found at the end.
proof fn lemma_sub_index_of_unique(subs: Seq<SubscriberV>, k: int)
    requires
        0 <= k < subs.len(),
        forall|i: int| 0 <= i < k ==> (#[trigger] subs[i]).id != subs[k].id,
    ensures
        sub_index(subs, subs[k].id) == Some(k),
    decreases subs.len(),
{
    if k > 0 {
        assert(subs.drop_first()[k - 1] == subs[k]);
        assert forall|i: int| 0 <= i < k - 1 implies (#[trigger] subs.drop_first()[i]).id
            != subs.drop_first()[k - 1].id by {
            assert(subs.drop_first()[i] == subs[i + 1]);
        }
        lemma_sub_index_of_unique(subs.drop_first(), k - 1);
    }
}

/// Publishing keeps the subscriber set well-formed: every survivor is a
/// delivered-to open subscriber of the old set, so identities stay distinct
/// and below the next free one.
proof fn lemma_publish_subs_preserves_feed_wf(subs: Seq<SubscriberV>, t: TokenRecordV, bound: u64)
    requires
        forall|i: int| 0 <= i < subs.len() ==> (#[trigger] subs[i]).wf(),
        forall|i: int| 0 <= i < subs.len() ==> (#[trigger] subs[i]).id < bound,
        forall|i: int, j: int| 0 <= i < j < subs.len() ==> subs[i].id != subs[j].id,
    ensures
        forall|i: int|
            0 <= i < publish_subs_spec(subs, t).len() ==> (#[trigger] publish_subs_spec(
                subs,
                t,
            )[i]).wf(),
        forall|i: int|
            0 <= i < publish_subs_spec(subs, t).len() ==> (#[trigger] publish_subs_spec(
                subs,
                t,
            )[i]).id < bound,
        forall|i: int, j: int|
            0 <= i < j < publish_subs_spec(subs, t).len() ==> publish_subs_spec(subs, t)[i].id
                != publish_subs_spec(subs, t)[j].id,
        forall|i: int|
            0 <= i < publish_subs_spec(subs, t).len() ==> exists|k: int|
                0 <= k < subs.len() && (#[trigger] publish_subs_spec(subs, t)[i]).id == subs[k].id,
    decreases subs.len(),
{
    if subs.len() > 0 {
        let head = subs.drop_last();
        let out = publish_subs_spec(subs, t);
        let init = publish_subs_spec(head, t);
        lemma_publish_subs_preserves_feed_wf(head, t, bound);
        assert forall|i: int| 0 <= i < init.len() implies exists|k: int|
            0 <= k < subs.len() && (#[trigger] init[i]).id == subs[k].id by {
            let k0 = choose|k0: int| 0 <= k0 < head.len() && init[i].id == head[k0].id;
            assert(subs[k0] == head[k0]);
        }
        if !subs.last().closed {
            assert forall|i: int| 0 <= i < init.len() implies (#[trigger] init[i]).id
                != subs.last().id by {
                let k0 = choose|k0: int| 0 <= k0 < head.len() && init[i].id == head[k0].id;
                assert(subs[k0].id != subs[subs.len() - 1].id);
            }
        }
    }
}

/// Law: one publish prunes exactly the closed subscribers and delivers to
/// exactly the open ones, keeping their relative order; no open subscriber
/// is ever dropped for being slow.
pub proof fn lemma_publish_prunes_and_delivers(subs: Seq<SubscriberV>, t: TokenRecordV)
    ensures
        publish_subs_spec(subs, t) == subs.filter(|s: SubscriberV| !s.closed).map_values(
            |s: SubscriberV| deliver_spec(s, t),
        ),
    decreases subs.len(),
{
    reveal(Seq::filter);
    let open = |s: SubscriberV| !s.closed;
    let deliver = |s: SubscriberV| deliver_spec(s, t);
    if subs.len() == 0 {
        assert(subs.filter(open).map_values(deliver) =~~= Seq::<SubscriberV>::empty());
    } else {
        let head = subs.drop_last();
        lemma_publish_prunes_and_delivers(head, t);
        if !subs.last().closed {
            assert(subs.filter(open) == head.filter(open).push(subs.last()));
            assert forall|j: int| 0 <= j < subs.filter(open).len() implies #[trigger] subs.filter(
                open,
            ).map_values(deliver)[j] == publish_subs_spec(subs, t)[j] by {
                if j < head.filter(open).len() {
                    assert(head.filter(open).map_values(deliver)[j] == deliver(
                        head.filter(open)[j],
                    ));
                }
            }
            assert(publish_subs_spec(subs, t) =~~= subs.filter(open).map_values(deliver));
        } else {
            assert(subs.filter(open) == head.filter(open));
            assert(publish_subs_spec(subs, t) =~~= subs.filter(open).map_values(deliver));
        }
    }
}

/// One subscriber after a run of deliveries, oldest record first.
pub open spec fn deliver_all_spec(s: SubscriberV, records: Seq<TokenRecordV>) -> SubscriberV
    decreases records.len(),
{
    if records.len() == 0 {
        s
    } else {
        deliver_all_spec(deliver_spec(s, records.first()), records.drop_first())
    }
}

/// The subscriber set after a run of publishes, oldest record first.
pub open spec fn publish_all_spec(subs: Seq<SubscriberV>, records: Seq<TokenRecordV>) -> Seq<
    SubscriberV,
>
    decreases records.len(),
{
    if records.len() == 0 {
        subs
    } else {
        publish_all_spec(publish_subs_spec(subs, records.first()), records.drop_first())
    }
}

/// Law: a bounded queue keeps exactly the newest window. After a run of
/// deliveries the queue holds the backlog followed by the delivered records,
/// less only the oldest excess over the capacity; identity, capacity and the
/// closed mark are untouched.
pub proof fn lemma_bounded_queue_window(s: SubscriberV, records: Seq<TokenRecordV>)
    requires
        s.wf(),
    ensures
        ({
            let out = deliver_all_spec(s, records);
            let total = s.queue.len() + records.len();
            let lost: int = if total > s.capacity {
                total - s.capacity
            } else {
                0
            };
            &&& out.id == s.id
            &&& out.capacity == s.capacity
            &&& out.closed == s.closed
            &&& out.wf()
            &&& out.queue == (s.queue + records).skip(lost)
        }),
    decreases records.len(),
{
    let out = deliver_all_spec(s, records);
    let total = s.queue.len() + records.len();
    let lost: int = if total > s.capacity {
        total - s.capacity
    } else {
        0
    };
    if records.len() == 0 {
        assert((s.queue + records).skip(0) =~~= s.queue);
    } else {
        let s1 = deliver_spec(s, records.first());
        lemma_bounded_queue_window(s1, records.drop_first());
        let total1 = s1.queue.len() + records.drop_first().len();
        let lost1: int = if total1 > s.capacity {
            total1 - s.capacity
        } else {
            0
        };
        if s.queue.len() < s.capacity {
            assert(s1.queue + records.drop_first() =~~= s.queue + records);
            assert(lost1 == lost);
        } else {
            assert(s1.queue + records.drop_first() =~~= (s.queue + records).skip(1));
            assert(out.queue == (s.queue + records).skip(1).skip(lost1));
            assert((s.queue + records).skip(1).skip(lost1) =~~= (s.queue + records).skip(
                1 + lost1,
            ));
            assert(1 + lost1 == lost);
        }
    }
}

/// A subscriber standing open at the end of the set stays at the end through
/// a run of publishes, and ends exactly as the deliveries alone leave it.
proof fn lemma_publish_all_keeps_last(subs: Seq<SubscriberV>, records: Seq<TokenRecordV>)
    requires
        subs.len() > 0,
        !subs.last().closed,
    ensures
        publish_all_spec(subs, records).len() > 0,
        publish_all_spec(subs, records).last() == deliver_all_spec(subs.last(), records),
    decreases records.len(),
{
    if records.len() > 0 {
        let subs1 = publish_subs_spec(subs, records.first());
        assert(subs1.last() == deliver_spec(subs.last(), records.first()));
        lemma_publish_all_keeps_last(subs1, records.drop_first());
    }
}

/// Law: a subscriber open through a run of publishes receives the published
/// records in publish order within its capacity window: only the oldest
/// excess over the capacity is lost, and every later record still arrives.
pub proof fn lemma_fanout_window(subs: Seq<SubscriberV>, records: Seq<TokenRecordV>)
    requires
        subs.len() > 0,
        subs.last().wf(),
        !subs.last().closed,
    ensures
        ({
            let out = publish_all_spec(subs, records);
            let s = subs.last();
            let total = s.queue.len() + records.len();
            let lost: int = if total > s.capacity {
                total - s.capacity
            } else {
                0
            };
            &&& out.len() > 0
            &&& out.last().id == s.id
            &&& !out.last().closed
            &&& out.last().queue == (s.queue + records).skip(lost)
        }),
{
    lemma_publish_all_keeps_last(subs, records);
    lemma_bounded_queue_window(subs.last(), records);
}

/// Law: a subscriber that registers before a run of publishes, and whose
/// capacity those publishes never exceed, receives exactly the published
/// records, in publish order, with nothing lost.
pub proof fn lemma_fanout_in_order(f: FeedV, capacity: usize, records: Seq<TokenRecordV>)
    requires
        f.wf(),
        1 <= capacity,
        f.next_id < u64::MAX,
        records.len() <= capacity,
    ensures
        ({
            let out = publish_all_spec(f.subscribe_spec(capacity).subs, records);
            &&& out.len() > 0
            &&& out.last().id == f.next_id
            &&& out.last().queue == records
        }),
{
    let joined = f.subscribe_spec(capacity).subs;
    lemma_fanout_window(joined, records);
    assert((joined.last().queue + records).skip(0) =~~= records);
}

} // verus!
