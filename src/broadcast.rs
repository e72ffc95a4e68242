use vstd::prelude::*;

use std::sync::Arc;

verus! {

/// One sent item and the number of receivers that have yet to take it.
pub struct BatchSlot<T> {
    remaining_recv: usize,
    batch: Option<Arc<T>>,
}

/// The state of a channel that fans each sent item out to a fixed set of
/// receivers, in order.
///
/// Waking is left to the caller: the state records, for each receiver, the
/// index of the item it waits for, and each operation reports whom to wake.
pub struct BroadcastState<T> {
    num_receivers: usize,
    batches: Vec<BatchSlot<T>>,
    recv_wakers: Vec<Option<usize>>,
    finished: bool,
}

/// The channel state as mathematical values.
pub struct BroadcastModel<T> {
    pub num_receivers: nat,
    /// For each sent item: how many receivers have yet to take it, and the
    /// item while any has.
    pub slots: Seq<(nat, Option<T>)>,
    /// For each receiver: the index of the item it waits for, if any.
    pub wakers: Seq<Option<nat>>,
    pub finished: bool,
}

/// What one poll of a receiver gives.
pub enum RecvPoll<T> {
    /// An item, or `None` at the end of the stream.
    Ready(Option<Arc<T>>),
    /// Nothing yet: the receiver is registered to be woken.
    Pending,
}

/// What one poll gives, as a value: `Some(item)`, `Some(None)` at the end of
/// the stream, `None` while pending.
pub open spec fn poll_view<T>(p: RecvPoll<T>) -> Option<Option<T>> {
    match p {
        RecvPoll::Ready(Some(b)) => Some(Some(*b)),
        RecvPoll::Ready(None) => Some(None),
        RecvPoll::Pending => None,
    }
}

pub open spec fn model_new<T>(n: nat) -> BroadcastModel<T> {
    BroadcastModel {
        num_receivers: n,
        slots: Seq::empty(),
        wakers: Seq::new(n, |_i: int| None),
        finished: false,
    }
}

/// Sending appends a slot that every receiver has yet to take, and clears
/// the registrations of receivers that waited for it.
pub open spec fn model_send<T>(m: BroadcastModel<T>, item: T) -> BroadcastModel<T> {
    let idx = m.slots.len();
    BroadcastModel {
        slots: m.slots.push((m.num_receivers, Some(item))),
        wakers: m.wakers.map_values(
            |w: Option<nat>|
                if w == Some(idx) {
                    None
                } else {
                    w
                },
        ),
        ..m
    }
}

/// Finishing marks the end of the stream and clears every registration.
pub open spec fn model_finish<T>(m: BroadcastModel<T>) -> BroadcastModel<T> {
    BroadcastModel {
        wakers: Seq::new(m.wakers.len(), |_i: int| None),
        finished: true,
        ..m
    }
}

/// Polling receiver `sub` for item `idx`: a present item is handed out and
/// its count decremented, the payload dropped from the slot with the last
/// taker; past the last item, a finished channel ends the stream, and an
/// open one registers the receiver.
pub open spec fn model_poll<T>(m: BroadcastModel<T>, sub: nat, idx: nat) -> (
    BroadcastModel<T>,
    Option<Option<T>>,
) {
    if idx < m.slots.len() {
        let (rem, item) = m.slots[idx as int];
        if rem > 0 && item is Some {
            let rem2 = (rem - 1) as nat;
            let kept = if rem2 == 0 {
                None
            } else {
                item
            };
            (BroadcastModel { slots: m.slots.update(idx as int, (rem2, kept)), ..m }, Some(item))
        } else {
            (m, Some(None))
        }
    } else if m.finished {
        (m, Some(None))
    } else {
        (BroadcastModel { wakers: m.wakers.update(sub as int, Some(idx)), ..m }, None)
    }
}

pub closed spec fn slot_view<T>(s: BatchSlot<T>) -> (nat, Option<T>) {
    (
        s.remaining_recv as nat,
        match s.batch {
            Some(b) => Some(*b),
            None => None,
        },
    )
}

pub open spec fn waker_view(w: Option<usize>) -> Option<nat> {
    match w {
        Some(i) => Some(i as nat),
        None => None,
    }
}

impl<T> BroadcastState<T> {
    pub closed spec fn view(&self) -> BroadcastModel<T> {
        BroadcastModel {
            num_receivers: self.num_receivers as nat,
            slots: self.batches@.map_values(|s: BatchSlot<T>| slot_view(s)),
            wakers: self.recv_wakers@.map_values(|w: Option<usize>| waker_view(w)),
            finished: self.finished,
        }
    }

    /// One registration slot per receiver.
    pub closed spec fn wf(&self) -> bool {
        self.recv_wakers@.len() == self.num_receivers
    }

    /// A channel for `num_recvs` receivers, with nothing sent.
    pub fn new(num_recvs: usize) -> (r: Self)
        ensures
            r.wf(),
            r.view() == model_new::<T>(num_recvs as nat),
    {
        let mut recv_wakers: Vec<Option<usize>> = Vec::new();
        let mut i: usize = 0;
        while i < num_recvs
            invariant
                i <= num_recvs,
                recv_wakers@ == Seq::new(i as nat, |_j: int| None::<usize>),
            decreases num_recvs - i,
        {
            recv_wakers.push(None);
            i = i + 1;
            proof {
                assert(recv_wakers@ =~= Seq::new(i as nat, |_j: int| None::<usize>));
            }
        }
        let r = BroadcastState { num_receivers: num_recvs, batches: Vec::new(), recv_wakers, finished: false };
        proof {
            assert(r.view().slots =~= Seq::<(nat, Option<T>)>::empty());
            assert(r.view().wakers =~= Seq::new(num_recvs as nat, |_i: int| None::<nat>));
        }
        r
    }

    pub fn num_receivers(&self) -> (r: usize)
        ensures
            r == self.view().num_receivers,
    {
        self.num_receivers
    }

    /// Appends an item for every receiver. Never waits, whatever the
    /// receivers have taken. Returns, for each receiver, whether it waited
    /// for this item and must be woken.
    pub fn send(&mut self, batch: T) -> (woken: Vec<bool>)
        requires
            old(self).wf(),
        ensures
            final(self).wf(),
            final(self).view() == model_send(old(self).view(), batch),
            woken@.len() == old(self).view().num_receivers,
            forall|i: int|
                0 <= i < woken@.len() ==> woken@[i] == (old(self).view().wakers[i] == Some(
                    old(self).view().slots.len(),
                )),
    {
        let ghost m = self.view();
        let idx = self.batches.len();
        let remaining_recv = self.num_receivers;
        self.batches.push(BatchSlot { remaining_recv, batch: Some(Arc::new(batch)) });
        let mut woken: Vec<bool> = Vec::new();
        let mut i: usize = 0;
        while i < self.recv_wakers.len()
            invariant
                self.wf(),
                i <= self.recv_wakers@.len(),
                idx == m.slots.len(),
                self.num_receivers == m.num_receivers,
                self.recv_wakers@.len() == m.wakers.len(),
                self.batches@.map_values(|s: BatchSlot<T>| slot_view(s)) == m.slots.push(
                    (m.num_receivers, Some(batch)),
                ),
                self.finished == m.finished,
                woken@.len() == i,
                forall|k: int| 0 <= k < i ==> woken@[k] == (m.wakers[k] == Some(idx as nat)),
                forall|k: int|
                    0 <= k < self.recv_wakers@.len() ==> #[trigger] waker_view(self.recv_wakers@[k])
                        == if k < i {
                        if m.wakers[k] == Some(idx as nat) {
                            None
                        } else {
                            m.wakers[k]
                        }
                    } else {
                        m.wakers[k]
                    },
            decreases self.recv_wakers@.len() - i,
        {
            proof {
                assert(waker_view(self.recv_wakers@[i as int]) == m.wakers[i as int]);
            }
            let ghost before = self.recv_wakers@;
            let hit = match self.recv_wakers[i] {
                Some(t) => t == idx,
                None => false,
            };
            if hit {
                self.recv_wakers.set(i, None);
            }
            woken.push(hit);
            proof {
                assert forall|k: int| 0 <= k < self.recv_wakers@.len() && k != i implies
                    #[trigger] waker_view(self.recv_wakers@[k]) == waker_view(before[k]) by {
                    assert(self.recv_wakers@[k] == before[k]);
                }
            }
            i = i + 1;
        }
        proof {
            let v = self.view();
            assert(v.slots =~= model_send(m, batch).slots);
            assert(v.wakers =~= model_send(m, batch).wakers);
        }
        woken
    }

    /// Ends the stream. Returns, for each receiver, whether it was waiting
    /// and must be woken.
    pub fn finish(&mut self) -> (woken: Vec<bool>)
        requires
            old(self).wf(),
        ensures
            final(self).wf(),
            final(self).view() == model_finish(old(self).view()),
            woken@.len() == old(self).view().num_receivers,
            forall|i: int| 0 <= i < woken@.len() ==> woken@[i] == (old(self).view().wakers[i] is Some),
    {
        let ghost m = self.view();
        self.finished = true;
        let mut woken: Vec<bool> = Vec::new();
        let mut i: usize = 0;
        while i < self.recv_wakers.len()
            invariant
                self.wf(),
                i <= self.recv_wakers@.len(),
                self.recv_wakers@.len() == m.wakers.len(),
                self.num_receivers == m.num_receivers,
                self.batches == old(self).batches,
                self.finished,
                woken@.len() == i,
                forall|k: int| 0 <= k < i ==> woken@[k] == (m.wakers[k] is Some),
                forall|k: int| 0 <= k < i ==> (#[trigger] self.recv_wakers@[k]) is None,
                forall|k: int|
                    i <= k < self.recv_wakers@.len() ==> (#[trigger] self.recv_wakers@[k])
                        == old(self).recv_wakers@[k],
                m == old(self).view(),
            decreases self.recv_wakers@.len() - i,
        {
            proof {
                assert(waker_view(old(self).recv_wakers@[i as int]) == m.wakers[i as int]);
            }
            let was = self.recv_wakers[i].is_some();
            self.recv_wakers.set(i, None);
            woken.push(was);
            i = i + 1;
        }
        proof {
            let v = self.view();
            assert forall|k: int| 0 <= k < v.wakers.len() implies v.wakers[k] == model_finish(m).wakers[k] by {
                assert(self.recv_wakers@[k] is None);
            }
            assert(v.wakers =~= model_finish(m).wakers);
            assert(v.slots =~= m.slots);
        }
        woken
    }

    /// Polls receiver `subscribe_idx` for the item at `batch_idx`.
    pub fn poll_recv(&mut self, subscribe_idx: usize, batch_idx: usize) -> (r: RecvPoll<T>)
        requires
            old(self).wf(),
            subscribe_idx < old(self).view().num_receivers,
        ensures
            final(self).wf(),
            (final(self).view(), poll_view(r)) == model_poll(
                old(self).view(),
                subscribe_idx as nat,
                batch_idx as nat,
            ),
    {
        let ghost m = self.view();
        if batch_idx < self.batches.len() {
            let rem = self.batches[batch_idx].remaining_recv;
            if rem > 0 && self.batches[batch_idx].batch.is_some() {
                let mut slot = BatchSlot { remaining_recv: 0, batch: None };
                self.batches.set_and_swap(batch_idx, &mut slot);
                let out = if rem - 1 == 0 {
                    let b = slot.batch;
                    slot.batch = None;
                    b
                } else {
                    match &slot.batch {
                        Some(b) => Some(b.clone()),
                        None => None,
                    }
                };
                slot.remaining_recv = rem - 1;
                self.batches.set_and_swap(batch_idx, &mut slot);
                proof {
                    assert(self.view().slots =~= model_poll(m, subscribe_idx as nat, batch_idx as nat).0.slots);
                    assert(self.view().wakers =~= m.wakers);
                }
                RecvPoll::Ready(out)
            } else {
                RecvPoll::Ready(None)
            }
        } else if self.finished {
            RecvPoll::Ready(None)
        } else {
            self.recv_wakers.set(subscribe_idx, Some(batch_idx));
            proof {
                assert(self.view().wakers =~= m.wakers.update(subscribe_idx as int, Some(batch_idx as nat)));
                assert(self.view().slots =~= m.slots);
            }
            RecvPoll::Pending
        }
    }
}

/// Where a receiver stands: its registration slot and the index of the next
/// item it asks for.
pub struct RecvCursor {
    subscribe_idx: usize,
    batch_idx: usize,
}

impl RecvCursor {
    pub closed spec fn spec_subscribe_idx(&self) -> nat {
        self.subscribe_idx as nat
    }

    pub closed spec fn spec_batch_idx(&self) -> nat {
        self.batch_idx as nat
    }

    /// A receiver in slot `subscribe_idx` that has asked for nothing yet.
    pub fn new(subscribe_idx: usize) -> (r: RecvCursor)
        ensures
            r.spec_subscribe_idx() == subscribe_idx,
            r.spec_batch_idx() == 0,
    {
        RecvCursor { subscribe_idx, batch_idx: 0 }
    }

    /// Whether another item can be asked for.
    pub fn can_advance(&self) -> (r: bool)
        ensures
            r == (self.spec_batch_idx() < usize::MAX),
    {
        self.batch_idx < usize::MAX
    }

    /// The slot and item index of the next receive; the cursor moves on by
    /// one at once, whether or not the receive completes.
    pub fn advance(&mut self) -> (r: (usize, usize))
        requires
            old(self).spec_batch_idx() < usize::MAX,
        ensures
            r.0 == old(self).spec_subscribe_idx(),
            r.1 == old(self).spec_batch_idx(),
            final(self).spec_subscribe_idx() == old(self).spec_subscribe_idx(),
            final(self).spec_batch_idx() == old(self).spec_batch_idx() + 1,
    {
        let r = (self.subscribe_idx, self.batch_idx);
        self.batch_idx = self.batch_idx + 1;
        r
    }
}

/// The channel after sending `items` in order.
pub open spec fn model_send_all<T>(m: BroadcastModel<T>, items: Seq<T>) -> BroadcastModel<T>
    decreases items.len(),
{
    if items.len() == 0 {
        m
    } else {
        model_send(model_send_all(m, items.drop_last()), items.last())
    }
}

/// How many receivers, with the given cursors, have yet to take item `i`.
pub open spec fn yet_to_take(cursors: Seq<nat>, i: nat) -> nat
    decreases cursors.len(),
{
    if cursors.len() == 0 {
        0
    } else {
        yet_to_take(cursors.drop_last(), i) + if cursors.last() <= i {
            1nat
        } else {
            0nat
        }
    }
}

/// A finished channel that was sent `items`, where receiver `j` has taken
/// the items before `cursors[j]`: each slot counts the receivers yet to take
/// it, and holds its item exactly while that count is positive.
pub open spec fn delivered<T>(m: BroadcastModel<T>, items: Seq<T>, cursors: Seq<nat>) -> bool {
    &&& m.finished
    &&& m.num_receivers == cursors.len()
    &&& m.slots.len() == items.len()
    &&& forall|i: int|
        0 <= i < items.len() ==> #[trigger] m.slots[i] == (
            yet_to_take(cursors, i as nat),
            if yet_to_take(cursors, i as nat) > 0 {
                Some(items[i])
            } else {
                None
            },
        )
}

proof fn lemma_send_all<T>(n: nat, items: Seq<T>)
    ensures
        model_send_all(model_new::<T>(n), items).num_receivers == n,
        !model_send_all(model_new::<T>(n), items).finished,
        model_send_all(model_new::<T>(n), items).slots == items.map_values(|b: T| (n, Some(b))),
    decreases items.len(),
{
    if items.len() > 0 {
        lemma_send_all(n, items.drop_last());
        assert(items.map_values(|b: T| (n, Some(b))) =~= items.drop_last().map_values(
            |b: T| (n, Some(b)),
        ).push((n, Some(items.last()))));
    } else {
        assert(items.map_values(|b: T| (n, Some(b))) =~= Seq::<(nat, Option<T>)>::empty());
    }
}

proof fn lemma_yet_to_take_zeros(n: nat, i: nat)
    ensures
        yet_to_take(Seq::new(n, |_j: int| 0nat), i) == n,
    decreases n,
{
    if n > 0 {
        assert(Seq::new(n, |_j: int| 0nat).drop_last() =~= Seq::new((n - 1) as nat, |_j: int| 0nat));
        lemma_yet_to_take_zeros((n - 1) as nat, i);
    }
}

proof fn lemma_yet_to_take_step(cursors: Seq<nat>, j: int, i: nat)
    requires
        0 <= j < cursors.len(),
    ensures
        yet_to_take(cursors.update(j, cursors[j] + 1), i) + (if cursors[j] == i {
            1nat
        } else {
            0nat
        }) == yet_to_take(cursors, i),
        cursors[j] <= i ==> yet_to_take(cursors, i) >= 1,
    decreases cursors.len(),
{
    let up = cursors.update(j, cursors[j] + 1);
    if j < cursors.len() - 1 {
        assert(up.drop_last() =~= cursors.drop_last().update(j, cursors[j] + 1));
        lemma_yet_to_take_step(cursors.drop_last(), j, i);
    } else {
        assert(up.drop_last() =~= cursors.drop_last());
    }
}

/// After `items` are sent to `n` receivers and the channel is finished, no
/// receiver has taken anything: every slot holds its item for all `n`.
pub proof fn lemma_fan_out_start<T>(n: nat, items: Seq<T>)
    requires
        n > 0,
    ensures
        delivered(
            model_finish(model_send_all(model_new::<T>(n), items)),
            items,
            Seq::new(n, |_j: int| 0nat),
        ),
{
    lemma_send_all(n, items);
    let m = model_finish(model_send_all(model_new::<T>(n), items));
    assert forall|i: int| 0 <= i < items.len() implies #[trigger] m.slots[i] == (
        yet_to_take(Seq::new(n, |_j: int| 0nat), i as nat),
        if yet_to_take(Seq::new(n, |_j: int| 0nat), i as nat) > 0 {
            Some(items[i])
        } else {
            None
        },
    ) by {
        lemma_yet_to_take_zeros(n, i as nat);
        assert(m.slots[i] == items.map_values(|b: T| (n, Some(b)))[i]);
    }
}

/// In a finished channel that was sent `items`, a receiver that polls at its
/// cursor gets the item there, in send order, or the end of the stream once
/// past the last item; the channel stays in the described state with that
/// receiver's cursor advanced, so the slot of an item that every receiver
/// has taken no longer holds it.
pub proof fn lemma_fan_out_step<T>(m: BroadcastModel<T>, items: Seq<T>, cursors: Seq<nat>, j: int)
    requires
        delivered(m, items, cursors),
        0 <= j < cursors.len(),
    ensures
        model_poll(m, j as nat, cursors[j]).1 == Some(
            if cursors[j] < items.len() {
                Some(items[cursors[j] as int])
            } else {
                None
            },
        ),
        delivered(model_poll(m, j as nat, cursors[j]).0, items, cursors.update(j, cursors[j] + 1)),
{
    let c = cursors[j];
    let up = cursors.update(j, c + 1);
    let m2 = model_poll(m, j as nat, c).0;
    assert forall|i: int| 0 <= i < items.len() implies #[trigger] m2.slots[i] == (
        yet_to_take(up, i as nat),
        if yet_to_take(up, i as nat) > 0 {
            Some(items[i])
        } else {
            None
        },
    ) by {
        lemma_yet_to_take_step(cursors, j, i as nat);
        assert(m.slots[i] == (
            yet_to_take(cursors, i as nat),
            if yet_to_take(cursors, i as nat) > 0 {
                Some(items[i])
            } else {
                None
            },
        ));
    }
    if c < items.len() {
        lemma_yet_to_take_step(cursors, j, c);
        assert(m.slots[c as int] == (
            yet_to_take(cursors, c),
            if yet_to_take(cursors, c) > 0 {
                Some(items[c as int])
            } else {
                None
            },
        ));
    }
}

} // verus!
