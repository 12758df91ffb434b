//! A multi-consumer message queue in which every consumer walks the stream of
//! messages on its own, and any consumer may claim a message for itself.
//!
//! Messages are kept in arrival order. A message is either unclaimed (its
//! payload is present) or claimed (its payload has been handed out by
//! [`NextMessage::claim`] and is gone for everybody). Each consumer visits the
//! unclaimed messages once each, in order of arrival, skipping over claimed
//! ones.
use vstd::prelude::*;

verus! {

/// The abstract state of one message: its payload while unclaimed, `None` once claimed.
pub open spec fn slot_view(slot: Option<Vec<u8>>) -> Option<Seq<u8>> {
    match slot {
        Some(payload) => Some(payload@),
        None => None,
    }
}

/// `i` is the first unclaimed message at or after position `p`.
pub open spec fn is_next_unclaimed(v: Seq<Option<Seq<u8>>>, p: int, i: int) -> bool {
    &&& p <= i < v.len()
    &&& v[i] is Some
    &&& forall|j: int| p <= j < i ==> v[j] is None
}

/// Every message at or after position `p` has been claimed (or there is none).
pub open spec fn all_claimed_from(v: Seq<Option<Seq<u8>>>, p: int) -> bool {
    forall|j: int| p <= j < v.len() ==> v[j] is None
}

/// How the queue may change between two observations: messages are only
/// appended, and a message only ever goes from unclaimed to claimed.
pub open spec fn evolves(before: Seq<Option<Seq<u8>>>, after: Seq<Option<Seq<u8>>>) -> bool {
    &&& before.len() <= after.len()
    &&& forall|j: int| 0 <= j < before.len() ==> (after[j] == before[j] || after[j] is None)
}

/// The position a consumer moves to after a visit: just past the visited message,
/// or unchanged when there was nothing left to visit.
pub open spec fn position_after(p: int, visited: Option<int>) -> int {
    match visited {
        Some(i) => i + 1,
        None => p,
    }
}

/// A message queue in which consumers may decide, each on its own, to process any
/// message atomically, independent of other consumers that may be looking at a
/// different set of messages.
///
/// Claimed messages at the front of the queue are dropped, so that the queue holds
/// only the messages from the earliest unclaimed one on.
pub struct LinkMessageQueue {
    base: usize,
    slots: std::collections::VecDeque<Option<Vec<u8>>>,
}

/// A handle on one message of a [`LinkMessageQueue`], as handed out by a consumer.
#[derive(Clone, Copy)]
pub struct NextMessage {
    index: usize,
}

/// An iterator over the messages of a [`LinkMessageQueue`].
///
/// Each unclaimed message is visited once and in order of arrival.
pub struct MessageConsumer {
    position: usize,
}

impl View for LinkMessageQueue {
    type V = Seq<Option<Seq<u8>>>;

    /// Every message ever pushed, in order of arrival: the dropped ones (all claimed),
    /// then the ones still held.
    closed spec fn view(&self) -> Seq<Option<Seq<u8>>> {
        Seq::new(self.base as nat, |i: int| None::<Seq<u8>>) + self.slots@.map_values(
            |slot: Option<Vec<u8>>| slot_view(slot),
        )
    }
}

impl View for NextMessage {
    type V = nat;

    /// The arrival number of the message (0 for the first message ever pushed).
    closed spec fn view(&self) -> nat {
        self.index as nat
    }
}

impl View for MessageConsumer {
    type V = nat;

    /// How many messages, counted in arrival order, the consumer has passed.
    closed spec fn view(&self) -> nat {
        self.position as nat
    }
}

impl LinkMessageQueue {
    /// Arrival numbers fit in a `usize`.
    #[verifier::type_invariant]
    closed spec fn numbers_fit(&self) -> bool {
        self.base + self.slots@.len() <= usize::MAX
    }

    /// Create a new, empty `LinkMessageQueue`.
    pub fn new() -> (queue: Self)
        ensures
            queue@ == Seq::<Option<Seq<u8>>>::empty(),
    {
        let queue = LinkMessageQueue { base: 0, slots: std::collections::VecDeque::new() };
        assert(queue@ =~= Seq::<Option<Seq<u8>>>::empty());
        queue
    }

    /// The number of messages ever pushed, claimed or not.
    pub fn len(&self) -> (n: usize)
        ensures
            n == self@.len(),
    {
        proof {
            use_type_invariant(self);
        }
        self.base + self.slots.len()
    }

    /// Push a message onto the end of the queue.
    ///
    /// Every consumer will reach the new message after the messages that came before it.
    pub fn push(&mut self, payload: Vec<u8>)
        requires
            old(self)@.len() < usize::MAX,
        ensures
            final(self)@ == old(self)@.push(Some(payload@)),
    {
        proof {
            use_type_invariant(&*self);
        }
        let mut slots = std::collections::VecDeque::new();
        std::mem::swap(&mut slots, &mut self.slots);
        slots.push_back(Some(payload));
        self.slots = slots;
        proof {
            assert(self@ =~= old(self)@.push(Some(payload@)));
        }
    }

    /// Create a new `MessageConsumer`.
    ///
    /// The consumer starts before the first message ever pushed, so it will visit
    /// every message that is still unclaimed, in order of arrival.
    pub fn create_consumer(&self) -> (consumer: MessageConsumer)
        ensures
            consumer@ == 0,
    {
        MessageConsumer { position: 0 }
    }

    /// Drop the claimed messages at the front of the queue: afterwards the queue holds
    /// the messages from the earliest unclaimed one on (none when all are claimed),
    /// and the view is unchanged.
    fn drop_claimed_front(&mut self)
        ensures
            final(self)@ == old(self)@,
            old(self).base <= final(self).base,
            final(self).slots@ == old(self).slots@.skip(final(self).base - old(self).base),
            forall|j: int| 0 <= j < final(self).base - old(self).base ==> #[trigger] old(self).slots@[j] is None,
            final(self).slots@.len() == 0 || final(self).slots@[0] is Some,
    {
        proof {
            use_type_invariant(&*self);
            assert(self.slots@ =~= old(self).slots@.skip(0));
        }
        while self.slots.len() > 0 && self.slots[0].is_none()
            invariant
                self@ == old(self)@,
                old(self).base <= self.base,
                self.base - old(self).base <= old(self).slots@.len(),
                self.slots@ == old(self).slots@.skip(self.base - old(self).base),
                forall|j: int| 0 <= j < self.base - old(self).base ==> #[trigger] old(self).slots@[j] is None,
            decreases self.slots@.len(),
        {
            proof {
                use_type_invariant(&*self);
            }
            let ghost before = *self;
            let mut slots = std::collections::VecDeque::new();
            std::mem::swap(&mut slots, &mut self.slots);
            slots.pop_front();
            self.slots = slots;
            self.base = self.base + 1;
            proof {
                assert(before.slots@[0] is None);
                assert(self@ =~= before@);
                assert(old(self).slots@[before.base - old(self).base] == before.slots@[0]);
                assert(self.slots@ =~= old(self).slots@.skip(self.base - old(self).base));
            }
        }
    }
}

impl MessageConsumer {
    /// Return the next unclaimed message after the last one this consumer visited,
    /// without blocking; `None` when every later message has been claimed.
    pub fn try_next(&mut self, queue: &LinkMessageQueue) -> (message: Option<NextMessage>)
        ensures
            match message {
                Some(m) => is_next_unclaimed(queue@, old(self)@ as int, m@ as int),
                None => all_claimed_from(queue@, old(self)@ as int),
            },
            final(self)@ == position_after(
                old(self)@ as int,
                match message {
                    Some(m) => Some(m@ as int),
                    None => None,
                },
            ),
    {
        proof {
            use_type_invariant(queue);
        }
        let base = queue.base;
        let end = base + queue.slots.len();
        let mut i = if self.position < base {
            base
        } else {
            self.position
        };
        while i < end
            invariant
                base == queue.base,
                end == queue@.len(),
                end == base + queue.slots@.len(),
                base <= i,
                self.position <= i,
                self.position == old(self).position,
                forall|j: int| self.position <= j < i ==> queue@[j] is None,
            decreases end - i,
        {
            proof {
                assert(queue@[i as int] == slot_view(queue.slots@[i - base]));
            }
            if queue.slots[i - base].is_some() {
                self.position = i + 1;
                return Some(NextMessage { index: i });
            }
            i = i + 1;
        }
        None
    }
}

impl NextMessage {
    /// Read the message without claiming it. Returns `None` if the message has
    /// since been claimed.
    pub fn read<'a>(&self, queue: &'a LinkMessageQueue) -> (payload: Option<&'a Vec<u8>>)
        ensures
            match payload {
                Some(p) => self@ < queue@.len() && queue@[self@ as int] == Some(p@),
                None => self@ >= queue@.len() || queue@[self@ as int] is None,
            },
    {
        proof {
            use_type_invariant(queue);
        }
        if self.index < queue.base {
            return None;
        }
        let k = self.index - queue.base;
        if k < queue.slots.len() {
            proof {
                assert(queue@[self@ as int] == slot_view(queue.slots@[k as int]));
            }
            queue.slots[k].as_ref()
        } else {
            None
        }
    }

    /// Claim the message and return its payload. Returns `None` if the message has
    /// since been claimed; after a claim, every consumer skips the message and every
    /// later read or claim of it returns `None`.
    pub fn claim(&mut self, queue: &mut LinkMessageQueue) -> (payload: Option<Vec<u8>>)
        ensures
            final(self)@ == old(self)@,
            old(self)@ < old(queue)@.len() ==> {
                &&& slot_view(payload) == old(queue)@[old(self)@ as int]
                &&& final(queue)@ == old(queue)@.update(old(self)@ as int, None)
            },
            old(self)@ >= old(queue)@.len() ==> {
                &&& payload is None
                &&& final(queue)@ == old(queue)@
            },
    {
        proof {
            use_type_invariant(&*queue);
        }
        if self.index < queue.base {
            proof {
                assert(old(queue)@.update(self@ as int, None) =~= old(queue)@);
            }
            return None;
        }
        let k = self.index - queue.base;
        if k < queue.slots.len() {
            let ghost before = queue.slots@;
            let mut slots = std::collections::VecDeque::new();
            std::mem::swap(&mut slots, &mut queue.slots);
            let taken = slots.remove(k);
            slots.insert(k, None);
            queue.slots = slots;
            proof {
                assert(queue.slots@ =~= before.update(k as int, None));
                assert(queue@ =~= old(queue)@.update(self@ as int, None));
            }
            queue.drop_claimed_front();
            match taken {
                Some(slot) => slot,
                None => None,
            }
        } else {
            None
        }
    }
}

/// Pushing appends a message and claiming empties one; neither reorders, changes
/// or revives a message, so the queue only ever evolves.
pub proof fn lemma_push_and_claim_evolve(v: Seq<Option<Seq<u8>>>, payload: Seq<u8>, i: int)
    ensures
        evolves(v, v.push(Some(payload))),
        0 <= i < v.len() ==> evolves(v, v.update(i, None)),
{
}

/// A consumer visits messages in order of arrival and never visits one twice: after
/// a visit to message `i1`, however the queue evolves, its next visit is to a later
/// message.
pub proof fn lemma_visits_in_arrival_order(
    v1: Seq<Option<Seq<u8>>>,
    v2: Seq<Option<Seq<u8>>>,
    p: int,
    i1: int,
    i2: int,
)
    requires
        is_next_unclaimed(v1, p, i1),
        evolves(v1, v2),
        is_next_unclaimed(v2, position_after(p, Some(i1)), i2),
    ensures
        p <= i1 < i2,
{
}

/// No unclaimed message is skipped: while message `j` at or after a consumer's
/// position is unclaimed, the consumer's next visit is to `j` or to an earlier message.
pub proof fn lemma_no_unclaimed_message_skipped(v: Seq<Option<Seq<u8>>>, p: int, j: int)
    requires
        p <= j < v.len(),
        v[j] is Some,
    ensures
        !all_claimed_from(v, p),
        forall|i: int| is_next_unclaimed(v, p, i) ==> i <= j,
{
}

/// A consumer that has found nothing left to visit finds a newly pushed message next.
pub proof fn lemma_pushed_message_is_next(v: Seq<Option<Seq<u8>>>, p: int, payload: Seq<u8>)
    requires
        0 <= p <= v.len(),
        all_claimed_from(v, p),
    ensures
        is_next_unclaimed(v.push(Some(payload)), p, v.len() as int),
        v.push(Some(payload))[v.len() as int] == Some(payload),
{
}

/// A claim is exclusive: once message `i` has been claimed, it reads as claimed and
/// every other message is left as it was.
pub proof fn lemma_claim_is_exclusive(v: Seq<Option<Seq<u8>>>, i: int)
    requires
        0 <= i < v.len(),
    ensures
        v.update(i, None)[i] is None,
        forall|j: int| 0 <= j < v.len() && j != i ==> v.update(i, None)[j] == v[j],
{
}

/// A message is claimed at most once: once message `i` has been claimed, however the
/// queue evolves afterwards, a later claim (or read) of it finds it claimed and gets
/// nothing. `later` is what that later claim returned, as [`NextMessage::claim`]
/// states it for the queue `v2` it found.
pub proof fn lemma_claim_succeeds_at_most_once(
    v1: Seq<Option<Seq<u8>>>,
    v2: Seq<Option<Seq<u8>>>,
    i: nat,
    later: Option<Vec<u8>>,
)
    requires
        i < v1.len(),
        evolves(v1.update(i as int, None), v2),
        i < v2.len() ==> slot_view(later) == v2[i as int],
        i >= v2.len() ==> later is None,
    ensures
        later is None,
{
}

/// A new consumer visits every unclaimed message: its first visit is to the earliest
/// unclaimed message, and it finds nothing only when every message has been claimed.
pub proof fn lemma_new_consumer_sees_all(v: Seq<Option<Seq<u8>>>, i: int)
    requires
        0 <= i < v.len(),
        v[i] is Some,
    ensures
        !all_claimed_from(v, 0),
        forall|k: int| is_next_unclaimed(v, 0, k) ==> k <= i && forall|j: int| 0 <= j < k ==> v[j] is None,
{
}

} // verus!
