//! The frames that wait to be sent.
use vstd::prelude::*;

use crate::frame::{Frame, FrameModel};
use crate::scheduler::{MessagePriority, Scheduled, WfqScheduler};

verus! {

/// Frames that wait to be sent, in the scheduler's order.
pub struct Outbox {
    scheduler: WfqScheduler<Frame>,
}

/// What some frames say.
pub open spec fn frame_models(frames: Seq<Frame>) -> Seq<FrameModel> {
    Seq::new(frames.len(), |i: int| frames[i]@)
}

/// What the frames in a scheduler say.
pub open spec fn scheduled_models(s: Scheduled<Frame>) ->
    Scheduled<FrameModel> {
    Scheduled {
        queues: Seq::new(s.queues.len(), |i: int| frame_models(s.queues[i])),
        credits: s.credits,
    }
}

impl View for Outbox {
    type V = Scheduled<FrameModel>;

    closed spec fn view(&self) -> Scheduled<FrameModel> {
        scheduled_models(self.scheduler@)
    }
}

/// The scheduler's order does not rest on what the frames say.
proof fn lemma_order_is_kept(s: Scheduled<Frame>)
    requires
        s.wf(),
    ensures
        scheduled_models(s).wf(),
        scheduled_models(s).next_level() == s.next_level(),
        scheduled_models(s).popped() == scheduled_models(s.popped()),
        match s.next_item() {
            Some(frame) => scheduled_models(s).next_item() == Some(frame@),
            None => scheduled_models(s).next_item() is None,
        },
{
    let m = scheduled_models(s);
    reveal_with_fuel(Scheduled::first_ready, 6);
    reveal_with_fuel(Scheduled::first_waiting, 6);
    assert(m.queues[0].len() == s.queues[0].len());
    assert(m.queues[1].len() == s.queues[1].len());
    assert(m.queues[2].len() == s.queues[2].len());
    assert(m.queues[3].len() == s.queues[3].len());
    assert(m.first_ready(0) == s.first_ready(0));
    assert(m.first_waiting(0) == s.first_waiting(0));
    let i = s.next_level();
    if i < 4 {
        assert(s.queues[i].len() > 0);
        assert(frame_models(s.queues[i].skip(1)) =~= frame_models(s.queues[i]).skip(1));
        assert(m.popped().queues =~= scheduled_models(s.popped()).queues);
    }
}

impl Outbox {
    /// Nothing waits.
    pub fn new() -> (r: Self)
        ensures
            r@.wf(),
            r@ == Scheduled::<FrameModel>::fresh(),
    {
        let r = Outbox { scheduler: WfqScheduler::new() };
        assert forall|i: int| 0 <= i < 4 implies #[trigger] r@.queues[i] =~= Seq::empty() by {
        }
        assert(r@.queues =~= Scheduled::<
            FrameModel,
        >::fresh().queues);
        r
    }

    /// Puts a frame in line.
    pub fn put(&mut self, frame: Frame, priority: MessagePriority)
        requires
            old(self)@.wf(),
        ensures
            final(self)@.wf(),
            final(self)@ == old(self)@.enqueued(frame@, priority.level()),
    {
        let ghost before = self.scheduler@;
        self.scheduler.enqueue(frame, priority);
        proof {
            lemma_order_is_kept(self.scheduler@);
            let level = priority.level();
            assert(frame_models(before.queues[level].push(frame)) =~= frame_models(
                before.queues[level],
            ).push(frame@));
            assert(self@.queues =~= old(self)@.enqueued(frame@, level).queues);
        }
    }

    /// Takes the next frame out.
    pub fn take(&mut self) -> (r: Option<Frame>)
        requires
            old(self)@.wf(),
        ensures
            final(self)@.wf(),
            final(self)@ == old(self)@.popped(),
            match old(self)@.next_item() {
                Some(f) => r matches Some(frame) && frame@ == f,
                None => r is None,
            },
    {
        proof {
            lemma_order_is_kept(self.scheduler@);
        }
        let item = self.scheduler.pop();
        proof {
            lemma_order_is_kept(self.scheduler@);
        }
        item
    }
}

} // verus!
