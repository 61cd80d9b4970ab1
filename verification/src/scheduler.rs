//! Fair interleaving of outgoing messages of different urgency.
use std::collections::VecDeque;
use vstd::prelude::*;

verus! {

/// Priority level for outgoing messages.
///
/// Used by `WfqScheduler` to interleave messages fairly.
/// Weights (messages sent per scheduling round):
/// - `RealTime` → 8   (e.g., audio frames)
/// - `Normal`   → 4   (queries, control messages)
/// - `Stream`   → 2   (video, large data)
/// - `Bulk`     → 1   (file transfers, lowest urgency)
///
/// Each level gets at least 1 slot per round, so lower priorities are
/// never fully starved even on a saturated connection.
#[derive(Debug, Clone, Copy, PartialEq, Eq, PartialOrd, Ord, Structural)]
pub enum MessagePriority {
    /// Real-time, latency-sensitive (audio frames, urgent control).
    RealTime,
    /// Normal priority (queries, subscriptions, events).
    Normal,
    /// Streaming data (video frames).
    Stream,
    /// Bulk transfers (file chunks, recordings).
    Bulk,
}

impl MessagePriority {
    /// The number of the level, the most urgent first.
    pub open spec fn level(self) -> int {
        match self {
            MessagePriority::RealTime => 0,
            MessagePriority::Normal => 1,
            MessagePriority::Stream => 2,
            MessagePriority::Bulk => 3,
        }
    }

    fn index(self) -> (r: usize)
        ensures
            r == self.level(),
            r < 4,
    {
        match self {
            MessagePriority::RealTime => 0,
            MessagePriority::Normal => 1,
            MessagePriority::Stream => 2,
            MessagePriority::Bulk => 3,
        }
    }
}

/// Credits per scheduling round, by level.
const WFQ_WEIGHTS: [usize; 4] = [8, 4, 2, 1];

/// How many messages of a level go out in one round.
pub open spec fn weight(level: int) -> nat {
    if level == 0 {
        8
    } else if level == 1 {
        4
    } else if level == 2 {
        2
    } else {
        1
    }
}

/// Credit-based Weighted Fair Queuing scheduler.
///
/// Maintains one queue per priority level. On each `pop()` call it dequeues
/// from the highest-priority non-empty queue that still has credits.
/// When all credits are exhausted, budgets reset — starting a new round.
pub struct WfqScheduler<T> {
    queues: [VecDeque<T>; 4],
    credits: [usize; 4],
}

/// What a scheduler holds: the waiting items of each level, the first to leave first, and the
/// credits that each level has left in this round.
#[verifier::ext_equal]
pub struct Scheduled<T> {
    pub queues: Seq<Seq<T>>,
    pub credits: Seq<nat>,
}

/// The credits at the start of a round.
pub open spec fn full_credits() -> Seq<nat> {
    Seq::new(4, |i: int| weight(i))
}

impl<T> Scheduled<T> {
    /// Nothing waits, and a round begins.
    pub open spec fn fresh() -> Scheduled<T> {
        Scheduled { queues: Seq::new(4, |i: int| Seq::empty()), credits: full_credits() }
    }

    /// Four levels, none with more credits than its weight.
    pub open spec fn wf(self) -> bool {
        &&& self.queues.len() == 4
        &&& self.credits.len() == 4
        &&& forall|i: int| 0 <= i < 4 ==> #[trigger] self.credits[i] <= weight(i)
    }

    /// Whether a level has an item and a credit.
    pub open spec fn ready(self, i: int) -> bool {
        self.credits[i] > 0 && self.queues[i].len() > 0
    }

    /// The most urgent level from `i` on with an item and a credit, or 4.
    pub open spec fn first_ready(self, i: int) -> int
        decreases 4 - i,
    {
        if i >= 4 || self.ready(i) {
            i
        } else {
            self.first_ready(i + 1)
        }
    }

    /// The most urgent level from `i` on with an item, or 4.
    pub open spec fn first_waiting(self, i: int) -> int
        decreases 4 - i,
    {
        if i >= 4 || self.queues[i].len() > 0 {
            i
        } else {
            self.first_waiting(i + 1)
        }
    }

    /// The scheduler after the oldest item of level `i` left on one of the level's `credits`.
    pub open spec fn serve(self, i: int, credits: Seq<nat>) -> Scheduled<T> {
        Scheduled {
            queues: self.queues.update(i, self.queues[i].skip(1)),
            credits: credits.update(i, (credits[i] - 1) as nat),
        }
    }

    /// The level that is served next, or 4 where nothing waits.
    pub open spec fn next_level(self) -> int {
        if self.first_ready(0) < 4 {
            self.first_ready(0)
        } else {
            self.first_waiting(0)
        }
    }

    /// The item that leaves next.
    pub open spec fn next_item(self) -> Option<T> {
        if self.next_level() < 4 {
            Some(self.queues[self.next_level()][0])
        } else {
            None
        }
    }

    /// The scheduler after the next item left. Where no level has both an item and a credit, a new
    /// round begins.
    pub open spec fn popped(self) -> Scheduled<T> {
        if self.first_ready(0) < 4 {
            self.serve(self.first_ready(0), self.credits)
        } else if self.first_waiting(0) < 4 {
            self.serve(self.first_waiting(0), full_credits())
        } else {
            Scheduled { queues: self.queues, credits: full_credits() }
        }
    }

    /// The scheduler after an item was added behind the others of its level.
    pub open spec fn enqueued(self, item: T, level: int) -> Scheduled<T> {
        Scheduled {
            queues: self.queues.update(level, self.queues[level].push(item)),
            credits: self.credits,
        }
    }

    /// How many items wait.
    pub open spec fn total(self) -> nat {
        self.queues[0].len() + self.queues[1].len() + self.queues[2].len() + self.queues[3].len()
    }
}

impl<T> View for WfqScheduler<T> {
    type V = Scheduled<T>;

    closed spec fn view(&self) -> Scheduled<T> {
        Scheduled {
            queues: Seq::new(4, |i: int| self.queues@[i]@),
            credits: Seq::new(4, |i: int| self.credits@[i] as nat),
        }
    }
}

impl<T> WfqScheduler<T> {
    /// A scheduler without items, at the start of a round.
    pub fn new() -> (r: Self)
        ensures
            r@.wf(),
            r@ == Scheduled::<T>::fresh(),
    {
        let r = WfqScheduler {
            queues: [VecDeque::new(), VecDeque::new(), VecDeque::new(), VecDeque::new()],
            credits: WFQ_WEIGHTS,
        };
        assert(r@.queues =~= Scheduled::<T>::fresh().queues);
        assert(r@.credits =~= full_credits());
        r
    }

    /// Enqueue an item at the given priority level.
    pub fn enqueue(&mut self, item: T, priority: MessagePriority)
        requires
            old(self)@.wf(),
        ensures
            final(self)@.wf(),
            final(self)@ == old(self)@.enqueued(item, priority.level()),
    {
        let i: usize = priority.index();
        self.queues[i].push_back(item);
        assert(self@.credits =~= old(self)@.credits);
        assert(self@.queues =~= old(self)@.enqueued(item, priority.level()).queues);
    }

    /// Dequeue the next item according to WFQ credit rules.
    /// Returns `None` if all queues are empty.
    pub fn pop(&mut self) -> (r: Option<T>)
        requires
            old(self)@.wf(),
        ensures
            final(self)@.wf(),
            final(self)@ == old(self)@.popped(),
            r == old(self)@.next_item(),
    {
        // First pass: respect credit budgets.
        let mut i: usize = 0;
        while i < 4
            invariant
                i <= 4,
                self@ == old(self)@,
                self@.wf(),
                self@.first_ready(0) == self@.first_ready(i as int),
            decreases 4 - i,
        {
            if self.credits[i] > 0 && self.queues[i].len() > 0 {
                self.credits[i] = self.credits[i] - 1;
                let item = self.queues[i].pop_front();
                proof {
                    let served = old(self)@.serve(i as int, old(self)@.credits);
                    assert(self@.credits =~= served.credits);
                    assert(self@.queues =~= served.queues);
                }
                return item;
            }
            i = i + 1;
        }
        // All credits exhausted — reset budgets and try again.
        self.credits = WFQ_WEIGHTS;
        assert(self@.credits =~= full_credits());
        assert(self@.queues =~= old(self)@.queues);
        let mut i: usize = 0;
        while i < 4
            invariant
                i <= 4,
                self@.queues == old(self)@.queues,
                self@.credits == full_credits(),
                self@.wf(),
                old(self)@.wf(),
                old(self)@.first_ready(0) == 4,
                old(self)@.first_waiting(0) == old(self)@.first_waiting(i as int),
            decreases 4 - i,
        {
            if self.queues[i].len() > 0 {
                assert(self@.credits[i as int] == weight(i as int));
                self.credits[i] = self.credits[i] - 1;
                let item = self.queues[i].pop_front();
                proof {
                    assert(old(self)@.queues[i as int].len() > 0);
                    let served = old(self)@.serve(i as int, full_credits());
                    assert(self@.credits =~= served.credits);
                    assert(self@.queues =~= served.queues);
                }
                return item;
            }
            i = i + 1;
        }
        None
    }

    /// Returns `true` if all queues are empty.
    pub fn is_empty(&self) -> (r: bool)
        requires
            self@.wf(),
        ensures
            r == (self@.total() == 0),
    {
        self.queues[0].len() == 0 && self.queues[1].len() == 0 && self.queues[2].len() == 0
            && self.queues[3].len() == 0
    }

    /// Total number of pending items across all queues.
    pub fn len(&self) -> (r: usize)
        requires
            self@.wf(),
            self@.total() <= usize::MAX,
        ensures
            r == self@.total(),
    {
        self.queues[0].len() + self.queues[1].len() + self.queues[2].len() + self.queues[3].len()
    }
}

impl<T> Default for WfqScheduler<T> {
    fn default() -> (r: Self)
        ensures
            r@.wf(),
            r@ == Scheduled::<T>::fresh(),
    {
        WfqScheduler::new()
    }
}

/// Nothing is lost: a `pop` takes one item off the total, and gives none only where none waits.
pub proof fn law_pop_takes_one<T>(s: Scheduled<T>)
    requires
        s.wf(),
    ensures
        s.popped().wf(),
        s.next_item() is None <==> s.total() == 0,
        s.next_item() is Some ==> s.popped().total() + 1 == s.total(),
        s.next_item() is None ==> s.popped().total() == 0,
{
    reveal_with_fuel(Scheduled::first_ready, 6);
    reveal_with_fuel(Scheduled::first_waiting, 6);
}

/// Nothing is made up: an `enqueue` adds one item to the total.
pub proof fn law_enqueue_adds_one<T>(s: Scheduled<T>, item: T, priority: MessagePriority)
    requires
        s.wf(),
    ensures
        s.enqueued(item, priority.level()).wf(),
        s.enqueued(item, priority.level()).total() == s.total() + 1,
{
}

/// Items of one level leave in the order in which they came: what `pop` takes is the oldest item
/// of its level, and every other level keeps its items.
pub proof fn law_levels_are_first_in_first_out<T>(s: Scheduled<T>)
    requires
        s.wf(),
        s.total() > 0,
    ensures
        0 <= s.next_level() < 4,
        s.next_item() == Some(s.queues[s.next_level()][0]),
        s.queues[s.next_level()] == seq![s.queues[s.next_level()][0]]
            + s.popped().queues[s.next_level()],
        forall|i: int|
            0 <= i < 4 && i != s.next_level() ==> s.popped().queues[i] == #[trigger] s.queues[i],
{
    reveal_with_fuel(Scheduled::first_ready, 6);
    reveal_with_fuel(Scheduled::first_waiting, 6);
    let queue = s.queues[s.next_level()];
    assert(queue =~= seq![queue[0]] + queue.skip(1));
}

/// The sum of the first `n` numbers.
pub open spec fn sum_below(c: Seq<nat>, n: int) -> nat
    decreases n,
{
    if n <= 0 {
        0
    } else {
        sum_below(c, n - 1) + c[n - 1]
    }
}

/// How many items of other levels can still leave before one of level `p`, at most.
pub open spec fn wait<T>(s: Scheduled<T>, p: int) -> nat {
    if s.credits[p] > 0 {
        sum_below(s.credits, p)
    } else {
        sum_below(s.credits, 4) + sum_below(full_credits(), p)
    }
}

/// No level starves: while an item of a level waits, each `pop` serves the level or brings it
/// nearer, whatever is enqueued meanwhile, and it is never more than 28 items away.
pub proof fn law_no_level_starves<T>(s: Scheduled<T>, p: int, item: T, priority: MessagePriority)
    requires
        s.wf(),
        0 <= p < 4,
        s.queues[p].len() > 0,
    ensures
        wait(s, p) <= 28,
        s.next_level() == p || (wait(s.popped(), p) < wait(s, p) && s.popped().queues[p]
            == s.queues[p]),
        wait(s.enqueued(item, priority.level()), p) == wait(s, p),
{
    reveal_with_fuel(Scheduled::first_ready, 6);
    reveal_with_fuel(Scheduled::first_waiting, 6);
    reveal_with_fuel(sum_below, 6);
    assert(s.credits[0] <= weight(0) && s.credits[1] <= weight(1) && s.credits[2] <= weight(2)
        && s.credits[3] <= weight(3));
}

/// The items that leave in `n` calls of `pop`.
pub open spec fn pops<T>(s: Scheduled<T>, n: nat) -> Seq<T>
    decreases n,
{
    if n == 0 {
        Seq::empty()
    } else {
        match s.next_item() {
            Some(item) => seq![item] + pops(s.popped(), (n - 1) as nat),
            None => Seq::empty(),
        }
    }
}

/// What is left to leave in this round, the most urgent level first: as many items of each level
/// as it has credits.
pub open spec fn round<T>(s: Scheduled<T>) -> Seq<T> {
    s.queues[0].take(s.credits[0] as int) + s.queues[1].take(s.credits[1] as int)
        + s.queues[2].take(s.credits[2] as int) + s.queues[3].take(s.credits[3] as int)
}

proof fn lemma_sum_of_four(c: Seq<nat>)
    ensures
        sum_below(c, 4) == c[0] + c[1] + c[2] + c[3],
{
    reveal_with_fuel(sum_below, 5);
}

proof fn lemma_first_ready<T>(s: Scheduled<T>)
    requires
        s.wf(),
        forall|i: int| 0 <= i < 4 ==> #[trigger] s.credits[i] <= s.queues[i].len(),
        sum_below(s.credits, 4) > 0,
    ensures
        0 <= s.first_ready(0) < 4,
        s.ready(s.first_ready(0)),
        forall|j: int| 0 <= j < s.first_ready(0) ==> #[trigger] s.credits[j] == 0,
{
    reveal_with_fuel(Scheduled::first_ready, 6);
    lemma_sum_of_four(s.credits);
    assert(s.credits[0] <= s.queues[0].len());
    assert(s.credits[1] <= s.queues[1].len());
    assert(s.credits[2] <= s.queues[2].len());
    assert(s.credits[3] <= s.queues[3].len());
}

proof fn lemma_round_step<T>(s: Scheduled<T>, i: int)
    requires
        s.wf(),
        0 <= i < 4,
        s.ready(i),
        s.credits[i] <= s.queues[i].len(),
        forall|j: int| 0 <= j < i ==> #[trigger] s.credits[j] == 0,
    ensures
        round(s) == seq![s.queues[i][0]] + round(s.serve(i, s.credits)),
{
    let after = s.serve(i, s.credits);
    let queue = s.queues[i];
    let n = s.credits[i] as int;
    assert(queue.take(n) =~= seq![queue[0]] + queue.skip(1).take(n - 1));
    let t0 = s.queues[0].take(s.credits[0] as int);
    let t1 = s.queues[1].take(s.credits[1] as int);
    let t2 = s.queues[2].take(s.credits[2] as int);
    let t3 = s.queues[3].take(s.credits[3] as int);
    let head = seq![queue[0]];
    let tail = queue.skip(1).take(n - 1);
    if i == 0 {
        assert(round(after) == tail + t1 + t2 + t3);
        assert((head + tail) + t1 + t2 + t3 =~= head + (tail + t1 + t2 + t3));
    } else if i == 1 {
        assert(s.credits[0] == 0);
        assert(t0 =~= Seq::empty());
        assert(round(after) =~= tail + t2 + t3);
        assert(t0 + (head + tail) + t2 + t3 =~= head + (tail + t2 + t3));
    } else if i == 2 {
        assert(s.credits[0] == 0 && s.credits[1] == 0);
        assert(t0 =~= Seq::empty() && t1 =~= Seq::empty());
        assert(round(after) =~= tail + t3);
        assert(t0 + t1 + (head + tail) + t3 =~= head + (tail + t3));
    } else {
        assert(s.credits[0] == 0 && s.credits[1] == 0 && s.credits[2] == 0);
        assert(t0 =~= Seq::empty() && t1 =~= Seq::empty() && t2 =~= Seq::empty());
        assert(round(after) =~= tail);
        assert(t0 + t1 + t2 + (head + tail) =~= head + tail);
    }
}

/// On a saturated connection each level gets its weight: where every level has as many items as
/// credits, the items that leave until the credits are used up are the oldest of each level, as
/// many as it has credits. At the start of a round these are 8, 4, 2 and 1.
pub proof fn law_round_gives_each_level_its_weight<T>(s: Scheduled<T>)
    requires
        s.wf(),
        forall|i: int| 0 <= i < 4 ==> #[trigger] s.credits[i] <= s.queues[i].len(),
    ensures
        pops(s, sum_below(s.credits, 4)) == round(s),
        sum_below(full_credits(), 4) == 15,
    decreases sum_below(s.credits, 4),
{
    lemma_sum_of_four(s.credits);
    lemma_sum_of_four(full_credits());
    if sum_below(s.credits, 4) == 0 {
        assert(round(s) =~= Seq::empty());
    } else {
        lemma_first_ready(s);
        let i = s.first_ready(0);
        assert(s.credits[i] <= s.queues[i].len());
        lemma_round_step(s, i);
        let after = s.popped();
        lemma_sum_of_four(after.credits);
        assert forall|j: int| 0 <= j < 4 implies #[trigger] after.credits[j]
            <= after.queues[j].len() && after.credits[j] <= weight(j) by {
            assert(s.credits[j] <= s.queues[j].len());
        }
        law_round_gives_each_level_its_weight(after);
    }
}

/// The most urgent goes first: an item leaves while a more urgent one waits only where the more
/// urgent level has used up its share of the round.
pub proof fn law_most_urgent_goes_first<T>(s: Scheduled<T>, i: int)
    requires
        s.wf(),
        s.total() > 0,
        0 <= i < s.next_level(),
        s.queues[i].len() > 0,
    ensures
        s.credits[i] == 0,
        s.credits[s.next_level()] > 0,
{
    reveal_with_fuel(Scheduled::first_ready, 6);
    reveal_with_fuel(Scheduled::first_waiting, 6);
}

/// An item that leaves costs its level one credit of the round. Where no level that waits has one
/// left, a new round begins first, in which the levels have 8, 4, 2 and 1 credits.
pub proof fn law_leaving_costs_a_credit<T>(s: Scheduled<T>)
    requires
        s.wf(),
    ensures
        ({
            let full = seq![8nat, 4, 2, 1];
            let ready = exists|i: int|
                0 <= i < 4 && #[trigger] s.credits[i] > 0 && s.queues[i].len() > 0;
            let p = s.next_level();
            &&& s.total() > 0 && ready ==> s.credits[p] > 0 && s.popped().credits
                == s.credits.update(p, (s.credits[p] - 1) as nat)
            &&& s.total() > 0 && !ready ==> s.popped().credits == full.update(
                p,
                (full[p] - 1) as nat,
            )
            &&& s.total() == 0 ==> s.popped().credits == full && s.popped().queues == s.queues
            &&& Scheduled::<T>::fresh().credits == full
            &&& Scheduled::<T>::fresh().total() == 0
        }),
{
    reveal_with_fuel(Scheduled::first_ready, 6);
    reveal_with_fuel(Scheduled::first_waiting, 6);
    assert(full_credits() =~= seq![8nat, 4, 2, 1]);
}

/// An item that is enqueued goes behind those of its own level; the other levels and the credits
/// are not touched. Real-time items are the most urgent, then normal ones, streams and bulk.
pub proof fn law_items_line_up_by_level<T>(s: Scheduled<T>, item: T, priority: MessagePriority)
    requires
        s.wf(),
    ensures
        ({
            let after = s.enqueued(item, priority.level());
            let level = match priority {
                MessagePriority::RealTime => 0int,
                MessagePriority::Normal => 1,
                MessagePriority::Stream => 2,
                MessagePriority::Bulk => 3,
            };
            &&& after.queues[level] == s.queues[level].push(item)
            &&& after.queues.len() == 4
            &&& after.credits == s.credits
            &&& forall|i: int| 0 <= i < 4 && i != level ==> #[trigger] after.queues[i]
                == s.queues[i]
        }),
{
}

} // verus!
