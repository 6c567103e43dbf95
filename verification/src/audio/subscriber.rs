//! The queue between the audio pipeline and one subscriber.
use std::collections::VecDeque;

use vstd::prelude::*;

verus! {

/// The sizes that a subscription of the given capacity gets.
#[derive(Clone, Copy, Debug, PartialEq, Eq, Structural)]
pub struct QueueBounds {
    /// The capacity of the channel.
    pub channel: usize,
    /// The frames that may wait in front of the channel.
    pub max_queue: usize,
}

/// A capacity of zero counts as one. Subscriptions that may lose frames queue
/// four times their capacity.
pub fn queue_bounds(capacity: usize, lossless: bool) -> (r: QueueBounds)
    ensures
        r.channel == channel_size(capacity as int),
        r.max_queue == queue_size(capacity as int, lossless),
        r.channel == if capacity == 0 {
            1
        } else {
            capacity
        },
        r.max_queue == if lossless {
            r.channel as int
        } else if r.channel * 4 <= usize::MAX {
            r.channel * 4
        } else {
            usize::MAX as int
        },
{
    let channel: usize = if capacity == 0 {
        1
    } else {
        capacity
    };
    let max_queue: usize = if lossless {
        channel
    } else if channel <= usize::MAX / 4 {
        channel * 4
    } else {
        usize::MAX
    };
    QueueBounds { channel, max_queue }
}

/// The size of a subscriber's channel.
pub open spec fn channel_size(capacity: int) -> int {
    if capacity < 1 {
        1
    } else {
        capacity
    }
}

/// The frames that may wait in front of a subscriber's channel.
pub open spec fn queue_size(capacity: int, lossless: bool) -> int {
    let room = if lossless {
        channel_size(capacity)
    } else {
        4 * channel_size(capacity)
    };
    if room > usize::MAX {
        usize::MAX as int
    } else {
        room
    }
}

/// There is always room for a frame. A subscriber that must not lose any has as
/// many waiting as its channel holds, another one four times as many.
pub proof fn law_subscribers_have_room(capacity: usize)
    ensures
        channel_size(capacity as int) >= 1,
        capacity > 0 ==> channel_size(capacity as int) == capacity,
        queue_size(capacity as int, true) == channel_size(capacity as int),
        4 * capacity <= usize::MAX ==> queue_size(capacity as int, false) == 4 * channel_size(
            capacity as int,
        ),
        queue_size(capacity as int, false) >= queue_size(capacity as int, true),
{
}

/// What becomes of a frame that is offered to a subscriber.
#[derive(Clone, Copy, Debug, PartialEq, Eq, Structural)]
pub enum Offer {
    /// The queue is full and must not lose frames: offer again later.
    Wait,
    /// The frame is queued. `dropped` says whether the oldest one had to go,
    /// `start` whether delivery has to be started.
    Queued { dropped: bool, start: bool },
}

/// The frames that wait for one subscriber.
pub struct PcmSubscriber<F> {
    queue: VecDeque<F>,
    active: bool,
    max_queue: usize,
    lossless: bool,
}

impl<F> PcmSubscriber<F> {
    /// The waiting frames, oldest first.
    pub closed spec fn queue(&self) -> Seq<F> {
        self.queue@
    }

    /// Whether frames are being delivered.
    pub closed spec fn active(&self) -> bool {
        self.active
    }

    pub closed spec fn max_queue(&self) -> usize {
        self.max_queue
    }

    pub closed spec fn lossless(&self) -> bool {
        self.lossless
    }

    /// The queue never outgrows its bound, and frames wait only while they are
    /// being delivered.
    pub open spec fn wf(&self) -> bool {
        &&& self.max_queue() > 0
        &&& self.queue().len() <= self.max_queue()
        &&& !self.active() ==> self.queue().len() == 0
    }

    pub fn new(max_queue: usize, lossless: bool) -> (r: Self)
        requires
            max_queue > 0,
        ensures
            r.wf(),
            r.queue() == Seq::<F>::empty(),
            !r.active(),
            r.max_queue() == max_queue,
            r.lossless() == lossless,
    {
        PcmSubscriber { queue: VecDeque::new(), active: false, max_queue, lossless }
    }

    /// Whether an offered frame has to wait.
    pub fn must_wait(&self) -> (r: bool)
        ensures
            r == (self.lossless() && self.queue().len() >= self.max_queue()),
    {
        self.lossless && self.queue.len() >= self.max_queue
    }

    /// Queues a frame. A full queue that may lose frames loses its oldest one.
    pub fn enqueue(&mut self, frame: F) -> (r: Offer)
        requires
            old(self).wf(),
            !(old(self).lossless() && old(self).queue().len() >= old(self).max_queue()),
        ensures
            final(self).wf(),
            final(self).max_queue() == old(self).max_queue(),
            final(self).lossless() == old(self).lossless(),
            final(self).active(),
            final(self).queue() == queued(old(self).queue(), old(self).max_queue() as nat, frame),
            serves(
                *old(self),
                QueueStep::Added(frame),
                *final(self),
                Seq::empty(),
                r == (Offer::Queued { dropped: true, start: !old(self).active() }),
            ),
            r == (Offer::Queued {
                dropped: old(self).queue().len() >= old(self).max_queue(),
                start: !old(self).active(),
            }),
    {
        let dropped = self.queue.len() >= self.max_queue;
        if dropped {
            let _ = self.queue.pop_front();
        }
        self.queue.push_back(frame);
        let start = !self.active;
        self.active = true;
        Offer::Queued { dropped, start }
    }

    /// Takes the frame that is delivered next. With none left, delivery ends.
    /// Whoever waits for room is to be woken in both cases.
    pub fn next_delivery(&mut self) -> (r: Option<F>)
        requires
            old(self).wf(),
        ensures
            final(self).wf(),
            final(self).max_queue() == old(self).max_queue(),
            final(self).lossless() == old(self).lossless(),
            serves(
                *old(self),
                QueueStep::Delivered,
                *final(self),
                match r {
                    Some(frame) => seq![frame],
                    None => Seq::empty(),
                },
                false,
            ),
            match r {
                Some(frame) => {
                    &&& old(self).queue().len() > 0
                    &&& frame == old(self).queue().first()
                    &&& final(self).queue() == old(self).queue().drop_first()
                    &&& final(self).active() == old(self).active()
                },
                None => {
                    &&& old(self).queue().len() == 0
                    &&& final(self).queue() == old(self).queue()
                    &&& !final(self).active()
                },
            },
    {
        match self.queue.pop_front() {
            Some(frame) => {
                assert(self.queue@ =~= old(self).queue@.drop_first());
                Some(frame)
            },
            None => {
                self.active = false;
                None
            },
        }
    }

    /// The subscriber is gone: nothing waits for it any more.
    pub fn delivery_failed(&mut self)
        requires
            old(self).wf(),
        ensures
            final(self).wf(),
            final(self).max_queue() == old(self).max_queue(),
            final(self).lossless() == old(self).lossless(),
            final(self).queue() == Seq::<F>::empty(),
            !final(self).active(),
            serves(
                *old(self),
                QueueStep::Gone,
                *final(self),
                Seq::empty(),
                old(self).queue().len() > 0,
            ),
    {
        self.queue.clear();
        self.active = false;
    }
}

/// What a queue holds once a frame is added to it, losing the oldest if full.
pub open spec fn queued<F>(queue: Seq<F>, max_queue: nat, frame: F) -> Seq<F> {
    if queue.len() >= max_queue {
        queue.drop_first().push(frame)
    } else {
        queue.push(frame)
    }
}

/// What a queue holds once several frames are added.
pub open spec fn queued_all<F>(queue: Seq<F>, max_queue: nat, frames: Seq<F>) -> Seq<F>
    decreases frames.len(),
{
    if frames.len() == 0 {
        queue
    } else {
        queued(queued_all(queue, max_queue, frames.drop_last()), max_queue, frames.last())
    }
}

/// A subscriber that falls behind loses only the oldest frames: what waits is
/// always the newest part of what was offered, in order.
pub proof fn law_only_oldest_frames_are_lost<F>(queue: Seq<F>, max_queue: nat, frames: Seq<F>)
    requires
        max_queue > 0,
        queue.len() <= max_queue,
    ensures
        ({
            let all = queue + frames;
            let kept = queued_all(queue, max_queue, frames);
            &&& kept.len() <= max_queue
            &&& kept.len() <= all.len()
            &&& kept == all.skip(all.len() - kept.len())
            &&& kept.len() == if all.len() <= max_queue {
                all.len()
            } else {
                max_queue
            }
        }),
    decreases frames.len(),
{
    if frames.len() == 0 {
        assert(queue + frames =~= queue);
        assert(queue.skip(0) =~= queue);
    } else {
        law_only_oldest_frames_are_lost(queue, max_queue, frames.drop_last());
        let before = queue + frames.drop_last();
        let all = queue + frames;
        assert(all =~= before.push(frames.last()));
        let kept = queued_all(queue, max_queue, frames);
        assert(kept =~= all.skip(all.len() - kept.len()));
    }
}

/// What happens to a subscriber's queue.
pub enum QueueStep<F> {
    /// A frame is added.
    Added(F),
    /// The next frame is delivered, if one waits.
    Delivered,
    /// The subscriber is gone.
    Gone,
}

/// How a subscriber is served.
pub struct Service<F> {
    /// What was delivered, in order.
    pub delivered: Seq<F>,
    /// What waits, oldest first.
    pub waiting: Seq<F>,
    /// How many frames were lost.
    pub lost: nat,
}

/// The service after one more step.
pub open spec fn serve<F>(s: Service<F>, max_queue: nat, step: QueueStep<F>) -> Service<F> {
    match step {
        QueueStep::Added(frame) => Service {
            waiting: queued(s.waiting, max_queue, frame),
            lost: if s.waiting.len() >= max_queue {
                s.lost + 1
            } else {
                s.lost
            },
            ..s
        },
        QueueStep::Delivered => if s.waiting.len() == 0 {
            s
        } else {
            Service {
                delivered: s.delivered.push(s.waiting.first()),
                waiting: s.waiting.drop_first(),
                ..s
            }
        },
        QueueStep::Gone => Service {
            waiting: Seq::empty(),
            lost: s.lost + s.waiting.len(),
            ..s
        },
    }
}

/// Whether a step takes a subscriber from `before` to `after`, delivers these
/// frames and loses some or none.
pub open spec fn serves<F>(
    before: PcmSubscriber<F>,
    step: QueueStep<F>,
    after: PcmSubscriber<F>,
    delivered: Seq<F>,
    loses: bool,
) -> bool {
    let start = Service { delivered: Seq::empty(), waiting: before.queue(), lost: 0 };
    let end = serve(start, before.max_queue() as nat, step);
    &&& after.queue() == end.waiting
    &&& delivered == end.delivered
    &&& loses <==> end.lost > 0
}

/// The service of a queue through several steps.
pub open spec fn served<F>(queue: Seq<F>, max_queue: nat, steps: Seq<QueueStep<F>>) -> Service<F>
    decreases steps.len(),
{
    if steps.len() == 0 {
        Service { delivered: Seq::empty(), waiting: queue, lost: 0 }
    } else {
        serve(served(queue, max_queue, steps.drop_last()), max_queue, steps.last())
    }
}

/// The frames that the steps add, in order.
pub open spec fn added<F>(steps: Seq<QueueStep<F>>) -> Seq<F>
    decreases steps.len(),
{
    if steps.len() == 0 {
        Seq::empty()
    } else {
        match steps.last() {
            QueueStep::Added(frame) => added(steps.drop_last()).push(frame),
            _ => added(steps.drop_last()),
        }
    }
}

/// Whether `part` is what stands at the places `picks` of `whole`, which go up.
pub open spec fn picked<F>(part: Seq<F>, whole: Seq<F>, picks: Seq<int>) -> bool {
    &&& picks.len() == part.len()
    &&& forall|i: int|
        0 <= i < picks.len() ==> 0 <= #[trigger] picks[i] < whole.len() && part[i]
            == whole[picks[i]]
    &&& forall|i: int, j: int|
        0 <= i < j < picks.len() ==> #[trigger] picks[i] < #[trigger] picks[j]
}

/// Whether `part` holds frames of `whole`, each at most once and in its order.
pub open spec fn in_order<F>(part: Seq<F>, whole: Seq<F>) -> bool {
    exists|picks: Seq<int>| picked(part, whole, picks)
}

/// The order is kept under any mix of additions and deliveries: what was
/// delivered and then what waits are frames that were added, in the order in
/// which they were; what waits is the newest part of them; and each frame was
/// delivered, waits or was lost. Frames are lost only to a full queue or with
/// the subscriber: where neither happens, all are there.
pub proof fn law_order_is_kept<F>(queue: Seq<F>, max_queue: nat, steps: Seq<QueueStep<F>>)
    requires
        max_queue > 0,
        queue.len() <= max_queue,
    ensures
        ({
            let all = queue + added(steps);
            let s = served(queue, max_queue, steps);
            &&& s.waiting.len() <= max_queue
            &&& s.delivered.len() + s.waiting.len() + s.lost == all.len()
            &&& s.waiting == all.skip(all.len() - s.waiting.len())
            &&& in_order(s.delivered, all.take(all.len() - s.waiting.len()))
            &&& in_order(s.delivered + s.waiting, all)
            &&& s.lost == 0 ==> s.delivered + s.waiting == all
        }),
    decreases steps.len(),
{
    let all = queue + added(steps);
    let s = served(queue, max_queue, steps);
    if steps.len() == 0 {
        assert(all =~= queue);
        assert(queue.skip(0) =~= queue);
        assert(picked(s.delivered, all.take(0), Seq::<int>::empty()));
        assert(s.delivered + s.waiting =~= all);
        lemma_tail_in_order(s.delivered, all, 0);
    } else {
        let before = steps.drop_last();
        law_order_is_kept(queue, max_queue, before);
        let earlier = queue + added(before);
        let t = served(queue, max_queue, before);
        let p = earlier.len() - t.waiting.len();
        let n = all.len() - s.waiting.len();
        let picks = choose|picks: Seq<int>| picked(t.delivered, earlier.take(p), picks);
        match steps.last() {
            QueueStep::Added(frame) => {
                assert(all =~= earlier.push(frame));
                assert(s.waiting =~= all.skip(n));
                assert(picked(s.delivered, all.take(n), picks));
            },
            QueueStep::Delivered => {
                assert(all =~= earlier);
                assert(s.waiting =~= all.skip(n));
                if t.waiting.len() > 0 {
                    assert(t.waiting.first() == all[p]);
                    assert(picked(s.delivered, all.take(n), picks.push(p)));
                } else {
                    assert(picked(s.delivered, all.take(n), picks));
                }
            },
            QueueStep::Gone => {
                assert(all =~= earlier);
                assert(s.waiting =~= all.skip(n));
                assert(picked(s.delivered, all.take(n), picks));
            },
        }
        lemma_tail_in_order(s.delivered, all, n);
        assert(s.delivered + s.waiting == s.delivered + all.skip(n));
        if s.lost == 0 {
            assert(t.delivered + t.waiting == earlier);
            assert(s.delivered + s.waiting =~= all);
        }
    }
}

proof fn lemma_tail_in_order<F>(part: Seq<F>, whole: Seq<F>, n: int)
    requires
        0 <= n <= whole.len(),
        in_order(part, whole.take(n)),
    ensures
        in_order(part + whole.skip(n), whole),
{
    let picks = choose|picks: Seq<int>| picked(part, whole.take(n), picks);
    let all = picks + Seq::new((whole.len() - n) as nat, |i: int| n + i);
    assert(picked(part + whole.skip(n), whole, all));
}

} // verus!
