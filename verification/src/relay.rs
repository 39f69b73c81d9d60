//! The event relay: inbound frames, fanned out to whoever subscribed.
//!
//! The transport publishes each frame once. Every subscriber of that moment
//! gets it, behind the frames it got before; a frame published before a
//! subscription is not kept for it.

use crate::json::texts;
use vstd::prelude::*;

verus! {

/// The frames that wait for one subscriber.
struct Mailbox {
    id: u64,
    queue: Vec<String>,
}

/// The relay.
pub struct EventBus {
    next_id: u64,
    boxes: Vec<Mailbox>,
}

impl EventBus {
    /// No two subscribers share an identifier, and none has one that is still to be given out.
    pub closed spec fn wf(&self) -> bool {
        &&& forall|i: int| 0 <= i < self.boxes@.len() ==> (#[trigger] self.boxes@[i]).id < self.next_id
        &&& forall|i: int, j: int|
            0 <= i < j < self.boxes@.len() ==> (#[trigger] self.boxes@[i]).id != (
            #[trigger] self.boxes@[j]).id
    }

    /// How many identifiers have been given out so far. They are given
    /// out in order, from zero, and none is given twice.
    pub closed spec fn issued(&self) -> nat {
        self.next_id as nat
    }

    /// Whether `id` names a subscriber.
    pub closed spec fn subscribed(&self, id: u64) -> bool {
        exists|i: int| 0 <= i < self.boxes@.len() && (#[trigger] self.boxes@[i]).id == id
    }

    /// The frames that wait for `id`, oldest first; none for a stranger.
    pub closed spec fn pending(&self, id: u64) -> Seq<Seq<char>> {
        if self.subscribed(id) {
            let i = choose|i: int| 0 <= i < self.boxes@.len() && (#[trigger] self.boxes@[i]).id == id;
            texts(self.boxes@[i].queue@)
        } else {
            Seq::empty()
        }
    }

    proof fn lemma_pending_at(&self, i: int)
        requires
            self.wf(),
            0 <= i < self.boxes@.len(),
        ensures
            self.subscribed(self.boxes@[i].id),
            self.pending(self.boxes@[i].id) == texts(self.boxes@[i].queue@),
    {
        let id = self.boxes@[i].id;
        let k = choose|k: int| 0 <= k < self.boxes@.len() && (#[trigger] self.boxes@[k]).id == id;
        if k < i {
            assert(self.boxes@[k].id != self.boxes@[i].id);
        } else if i < k {
            assert(self.boxes@[i].id != self.boxes@[k].id);
        }
    }

    /// A relay without subscribers.
    pub fn new() -> (bus: EventBus)
        ensures
            bus.wf(),
            bus.issued() == 0,
            forall|id: u64| !bus.subscribed(id),
    {
        EventBus { next_id: 0, boxes: Vec::new() }
    }

    /// Whether `id` names a subscriber.
    pub fn is_subscribed(&self, id: u64) -> (yes: bool)
        ensures
            yes == self.subscribed(id),
    {
        self.position(id).is_some()
    }

    fn position(&self, id: u64) -> (at: Option<usize>)
        ensures
            at is Some <==> self.subscribed(id),
            at matches Some(i) ==> i < self.boxes@.len() && self.boxes@[i as int].id == id,
    {
        let mut i: usize = 0;
        while i < self.boxes.len()
            invariant
                i <= self.boxes.len(),
                forall|k: int| 0 <= k < i ==> (#[trigger] self.boxes@[k]).id != id,
            decreases self.boxes.len() - i,
        {
            if self.boxes[i].id == id {
                return Some(i);
            }
            i += 1;
        }
        None
    }

    /// Adds a subscriber with nothing waiting for it, and gives its
    /// identifier: the next one in order. Once `u64::MAX` identifiers have
    /// been given out there is none left: the answer is `None`, and nothing
    /// changes.
    pub fn subscribe(&mut self) -> (id: Option<u64>)
        requires
            old(self).wf(),
        ensures
            final(self).wf(),
            id is Some <==> old(self).issued() < u64::MAX,
            match id {
                Some(id) => {
                    &&& id == old(self).issued()
                    &&& final(self).issued() == old(self).issued() + 1
                    &&& !old(self).subscribed(id)
                    &&& final(self).subscribed(id)
                    &&& final(self).pending(id) == Seq::<Seq<char>>::empty()
                    &&& forall|other: u64|
                        other != id ==> #[trigger] final(self).subscribed(other) == old(
                            self,
                        ).subscribed(other)
                    &&& forall|other: u64|
                        other != id ==> #[trigger] final(self).pending(other) == old(self).pending(
                            other,
                        )
                },
                None => *final(self) == *old(self),
            },
    {
        if self.next_id == u64::MAX {
            return None;
        }
        let id = self.next_id;
        let ghost before = *self;
        self.boxes.push(Mailbox { id, queue: Vec::new() });
        self.next_id = id + 1;
        proof {
            let n = before.boxes@.len() as int;
            assert(self.boxes@[n].id == id);
            assert(self.wf());
            self.lemma_pending_at(n);
            assert(texts(self.boxes@[n].queue@) =~= Seq::<Seq<char>>::empty());
            assert(!before.subscribed(id));
            assert forall|other: u64| other != id implies #[trigger] self.subscribed(other)
                == before.subscribed(other) && self.pending(other) == before.pending(other) by {
                if before.subscribed(other) {
                    let k = choose|k: int|
                        0 <= k < before.boxes@.len() && (#[trigger] before.boxes@[k]).id == other;
                    assert(self.boxes@[k] == before.boxes@[k]);
                    before.lemma_pending_at(k);
                    self.lemma_pending_at(k);
                }
                if self.subscribed(other) {
                    let k = choose|k: int|
                        0 <= k < self.boxes@.len() && (#[trigger] self.boxes@[k]).id == other;
                    assert(k < n);
                    assert(self.boxes@[k] == before.boxes@[k]);
                    assert(before.subscribed(other));
                }
            }
        }
        Some(id)
    }

    /// Hands `frame` to every subscriber, behind what already waits for it.
    pub fn publish(&mut self, frame: &str)
        requires
            old(self).wf(),
        ensures
            final(self).wf(),
            final(self).issued() == old(self).issued(),
            forall|id: u64| #[trigger] final(self).subscribed(id) == old(self).subscribed(id),
            forall|id: u64|
                old(self).subscribed(id) ==> #[trigger] final(self).pending(id) == old(
                    self,
                ).pending(id).push(frame@),
    {
        let ghost before = *self;
        let mut i: usize = 0;
        while i < self.boxes.len()
            invariant
                i <= self.boxes.len(),
                self.next_id == before.next_id,
                self.boxes@.len() == before.boxes@.len(),
                forall|k: int|
                    0 <= k < self.boxes@.len() ==> (#[trigger] self.boxes@[k]).id
                        == before.boxes@[k].id,
                forall|k: int|
                    0 <= k < i ==> texts((#[trigger] self.boxes@[k]).queue@) == texts(
                        before.boxes@[k].queue@,
                    ).push(frame@),
                forall|k: int|
                    i <= k < self.boxes@.len() ==> (#[trigger] self.boxes@[k]).queue
                        == before.boxes@[k].queue,
            decreases self.boxes.len() - i,
        {
            let ghost queue = self.boxes@[i as int].queue@;
            self.boxes[i].queue.push(frame.to_owned());
            assert(texts(self.boxes@[i as int].queue@) =~= texts(queue).push(frame@));
            i += 1;
        }
        proof {
            assert(self.wf()) by {
                assert forall|a: int, b: int| 0 <= a < b < self.boxes@.len() implies (
                #[trigger] self.boxes@[a]).id != (#[trigger] self.boxes@[b]).id by {
                    assert(before.boxes@[a].id != before.boxes@[b].id);
                }
                assert forall|a: int| 0 <= a < self.boxes@.len() implies (
                #[trigger] self.boxes@[a]).id < self.next_id by {
                    assert(before.boxes@[a].id < before.next_id);
                }
            }
            assert forall|id: u64| #[trigger] self.subscribed(id) == before.subscribed(id) by {
                if before.subscribed(id) {
                    let k = choose|k: int|
                        0 <= k < before.boxes@.len() && (#[trigger] before.boxes@[k]).id == id;
                    assert(self.boxes@[k].id == id);
                }
                if self.subscribed(id) {
                    let k = choose|k: int|
                        0 <= k < self.boxes@.len() && (#[trigger] self.boxes@[k]).id == id;
                    assert(before.boxes@[k].id == id);
                }
            }
            assert forall|id: u64| before.subscribed(id) implies #[trigger] self.pending(id)
                == before.pending(id).push(frame@) by {
                let k = choose|k: int|
                    0 <= k < before.boxes@.len() && (#[trigger] before.boxes@[k]).id == id;
                assert(self.boxes@[k].id == id);
                before.lemma_pending_at(k);
                self.lemma_pending_at(k);
            }
        }
    }

    /// Takes what waits for `id`, oldest first, and leaves nothing waiting
    /// for it. A stranger gets nothing.
    pub fn drain(&mut self, id: u64) -> (frames: Vec<String>)
        requires
            old(self).wf(),
        ensures
            final(self).wf(),
            final(self).issued() == old(self).issued(),
            texts(frames@) == old(self).pending(id),
            final(self).pending(id) == Seq::<Seq<char>>::empty(),
            forall|other: u64| #[trigger] final(self).subscribed(other) == old(self).subscribed(other),
            forall|other: u64|
                other != id ==> #[trigger] final(self).pending(other) == old(self).pending(other),
    {
        let ghost before = *self;
        let mut frames: Vec<String> = Vec::new();
        match self.position(id) {
            Some(i) => {
                proof {
                    before.lemma_pending_at(i as int);
                }
                core::mem::swap(&mut self.boxes[i].queue, &mut frames);
                proof {
                    assert(self.boxes@.len() == before.boxes@.len());
                    assert forall|k: int| 0 <= k < self.boxes@.len() implies (
                    #[trigger] self.boxes@[k]).id == before.boxes@[k].id by {}
                    assert(self.wf()) by {
                        assert forall|a: int, b: int|
                            0 <= a < b < self.boxes@.len() implies (#[trigger] self.boxes@[a]).id
                            != (#[trigger] self.boxes@[b]).id by {
                            assert(before.boxes@[a].id != before.boxes@[b].id);
                        }
                        assert forall|a: int| 0 <= a < self.boxes@.len() implies (
                        #[trigger] self.boxes@[a]).id < self.next_id by {
                            assert(before.boxes@[a].id < before.next_id);
                        }
                    }
                    self.lemma_pending_at(i as int);
                    assert(texts(self.boxes@[i as int].queue@) =~= Seq::<Seq<char>>::empty());
                    assert forall|other: u64| #[trigger]
                        self.subscribed(other) == before.subscribed(other) by {
                        if before.subscribed(other) {
                            let k = choose|k: int|
                                0 <= k < before.boxes@.len() && (#[trigger] before.boxes@[k]).id
                                    == other;
                            assert(self.boxes@[k].id == other);
                        }
                        if self.subscribed(other) {
                            let k = choose|k: int|
                                0 <= k < self.boxes@.len() && (#[trigger] self.boxes@[k]).id
                                    == other;
                            assert(before.boxes@[k].id == other);
                        }
                    }
                    assert forall|other: u64| other != id implies #[trigger] self.pending(other)
                        == before.pending(other) by {
                        if before.subscribed(other) {
                            let k = choose|k: int|
                                0 <= k < before.boxes@.len() && (#[trigger] before.boxes@[k]).id
                                    == other;
                            assert(self.boxes@[k] == before.boxes@[k]);
                            before.lemma_pending_at(k);
                            self.lemma_pending_at(k);
                        }
                    }
                }
            },
            None => {
                assert(texts(frames@) =~= Seq::<Seq<char>>::empty());
            },
        }
        frames
    }

    /// Removes the subscriber `id` and whatever waits for it; says whether there was one.
    pub fn unsubscribe(&mut self, id: u64) -> (was: bool)
        requires
            old(self).wf(),
        ensures
            final(self).wf(),
            final(self).issued() == old(self).issued(),
            was == old(self).subscribed(id),
            !final(self).subscribed(id),
            forall|other: u64|
                other != id ==> #[trigger] final(self).subscribed(other) == old(self).subscribed(
                    other,
                ),
            forall|other: u64|
                other != id ==> #[trigger] final(self).pending(other) == old(self).pending(other),
    {
        let ghost before = *self;
        match self.position(id) {
            Some(i) => {
                let _ = self.boxes.remove(i);
                proof {
                    let at = i as int;
                    assert forall|k: int| 0 <= k < self.boxes@.len() implies #[trigger]
                        self.boxes@[k] == before.boxes@[if k < at {
                            k
                        } else {
                            k + 1
                        }] by {}
                    assert(self.wf()) by {
                        assert forall|a: int, b: int|
                            0 <= a < b < self.boxes@.len() implies (#[trigger] self.boxes@[a]).id
                            != (#[trigger] self.boxes@[b]).id by {
                            let a0 = if a < at { a } else { a + 1 };
                            let b0 = if b < at { b } else { b + 1 };
                            assert(before.boxes@[a0].id != before.boxes@[b0].id);
                        }
                        assert forall|a: int| 0 <= a < self.boxes@.len() implies (
                        #[trigger] self.boxes@[a]).id < self.next_id by {
                            let a0 = if a < at { a } else { a + 1 };
                            assert(before.boxes@[a0].id < before.next_id);
                        }
                    }
                    assert(!self.subscribed(id)) by {
                        if self.subscribed(id) {
                            let k = choose|k: int|
                                0 <= k < self.boxes@.len() && (#[trigger] self.boxes@[k]).id == id;
                            let k0 = if k < at { k } else { k + 1 };
                            assert(before.boxes@[k0].id == id);
                            if k0 < at {
                                assert(before.boxes@[k0].id != before.boxes@[at].id);
                            } else {
                                assert(before.boxes@[at].id != before.boxes@[k0].id);
                            }
                        }
                    }
                    assert forall|other: u64| other != id implies #[trigger] self.subscribed(other)
                        == before.subscribed(other) && self.pending(other) == before.pending(
                        other,
                    ) by {
                        if before.subscribed(other) {
                            let k = choose|k: int|
                                0 <= k < before.boxes@.len() && (#[trigger] before.boxes@[k]).id
                                    == other;
                            let k1 = if k < at { k } else { k - 1 };
                            assert(self.boxes@[k1] == before.boxes@[k]);
                            before.lemma_pending_at(k);
                            self.lemma_pending_at(k1);
                        }
                        if self.subscribed(other) {
                            let k = choose|k: int|
                                0 <= k < self.boxes@.len() && (#[trigger] self.boxes@[k]).id
                                    == other;
                            let k0 = if k < at { k } else { k + 1 };
                            assert(before.boxes@[k0].id == other);
                        }
                    }
                }
                true
            },
            None => false,
        }
    }
}

/// What waits for a subscriber after a run of frames was published, one by one.
pub open spec fn after_publishing(waiting: Seq<Seq<char>>, frames: Seq<Seq<char>>) -> Seq<Seq<char>>
    decreases frames.len(),
{
    if frames.len() == 0 {
        waiting
    } else {
        after_publishing(waiting, frames.drop_last()).push(frames.last())
    }
}

/// Frames are delivered in the order of their arrival: after a run of
/// publications a subscriber has what it had, then the run, in its order.
pub proof fn lemma_delivery_in_arrival_order(waiting: Seq<Seq<char>>, frames: Seq<Seq<char>>)
    ensures
        after_publishing(waiting, frames) == waiting + frames,
    decreases frames.len(),
{
    if frames.len() == 0 {
        assert(waiting + frames =~= waiting);
    } else {
        lemma_delivery_in_arrival_order(waiting, frames.drop_last());
        assert((waiting + frames.drop_last()).push(frames.last()) =~= waiting + frames);
    }
}

} // verus!
