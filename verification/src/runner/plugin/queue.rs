//! The queue of work for a plugin or a driver.
//!
//! A queue is state that senders and a receiver share. Each operation here is
//! one visit to that state, by whoever holds it at the moment. Who may add what
//! is up to a [`WorkPolicy`].

use std::collections::VecDeque;

use vstd::multiset::Multiset;
use vstd::prelude::*;

use crate::runner::plugin::{PluginWork, PLUGIN_WORK_QUEUE_CAPACITY};

verus! {

/// What to do with work that comes in.
#[derive(Debug, Clone, Copy, PartialEq, Eq, Structural)]
pub enum Admit {
    /// Add it.
    Accept,
    /// Turn it down.
    DropNewest,
    /// Add it, and drop the oldest work that may go. If none may go, add it all
    /// the same.
    DropOldest,
}

/// Decides what a queue takes in and what it may drop.
pub trait WorkPolicy<T> {
    /// What to do with `work` when `len` are waiting.
    spec fn verdict(&self, len: nat, work: T) -> Admit;

    /// Whether waiting work may be dropped.
    spec fn expendable(&self, work: T) -> bool;

    fn judge(&self, queue_len: usize, work: &T) -> (r: Admit)
        ensures
            r == self.verdict(queue_len as nat, *work),
    ;

    fn evictable(&self, work: &T) -> (r: bool)
        ensures
            r == self.expendable(*work),
    ;
}

/// A plugin's queue by default: when it is full, old events and deliveries make
/// room for new work.
#[derive(Debug, Clone, Copy)]
pub struct Lossy;

/// A plugin's queue that drops nothing.
#[derive(Debug, Clone, Copy)]
pub struct Reliable;

/// Whether plugin work may be dropped: an event or a delivery.
pub open spec fn plugin_work_expendable(work: PluginWork) -> bool {
    work is Event || work is Message
}

/// Whether plugin work may be dropped. The order to stop may not, and neither
/// may the result of a job that the plugin waits for.
pub fn plugin_work_evictable(work: &PluginWork) -> (r: bool)
    ensures
        r == plugin_work_expendable(*work),
{
    match work {
        PluginWork::Event(_) => true,
        PluginWork::Message(_) => true,
        _ => false,
    }
}

/// What a lossy queue does: it takes everything, and drops old work at its
/// capacity unless the new work is a completed job.
pub open spec fn lossy_verdict(len: nat, work: PluginWork) -> Admit {
    if len >= PLUGIN_WORK_QUEUE_CAPACITY && !(work is JobComplete) {
        Admit::DropOldest
    } else {
        Admit::Accept
    }
}

/// The verdict of a lossy queue.
pub fn admit_lossy(queue_len: usize, work: &PluginWork) -> (r: Admit)
    ensures
        r == lossy_verdict(queue_len as nat, *work),
{
    match work {
        PluginWork::JobComplete { .. } => Admit::Accept,
        _ => if queue_len >= PLUGIN_WORK_QUEUE_CAPACITY {
            Admit::DropOldest
        } else {
            Admit::Accept
        },
    }
}

/// The verdict of a queue that drops nothing.
pub fn admit_reliable(_queue_len: usize, _work: &PluginWork) -> (r: Admit)
    ensures
        r == Admit::Accept,
{
    Admit::Accept
}

impl WorkPolicy<PluginWork> for Lossy {
    open spec fn verdict(&self, len: nat, work: PluginWork) -> Admit {
        lossy_verdict(len, work)
    }

    open spec fn expendable(&self, work: PluginWork) -> bool {
        plugin_work_expendable(work)
    }

    fn judge(&self, queue_len: usize, work: &PluginWork) -> Admit {
        admit_lossy(queue_len, work)
    }

    fn evictable(&self, work: &PluginWork) -> bool {
        plugin_work_evictable(work)
    }
}

impl WorkPolicy<PluginWork> for Reliable {
    open spec fn verdict(&self, len: nat, work: PluginWork) -> Admit {
        Admit::Accept
    }

    open spec fn expendable(&self, work: PluginWork) -> bool {
        plugin_work_expendable(work)
    }

    fn judge(&self, queue_len: usize, work: &PluginWork) -> Admit {
        admit_reliable(queue_len, work)
    }

    fn evictable(&self, work: &PluginWork) -> bool {
        plugin_work_evictable(work)
    }
}

/// What the ends of a queue share.
pub struct SharedState<T, P> {
    pub queue: VecDeque<T>,
    /// How many senders there are.
    pub senders: usize,
    /// Whether the receiver is still there.
    pub receiver_alive: bool,
    pub policy: P,
    /// Which queue this is.
    pub channel: Ghost<int>,
}

/// The right to add work to a queue.
pub struct WorkSender {
    channel: Ghost<int>,
}

/// The right to take work from a queue.
pub struct WorkReceiver {
    channel: Ghost<int>,
}

/// Reads the length of a queue whatever it holds.
#[derive(Clone, Copy)]
pub struct QueueLenProbe {
    channel: Ghost<int>,
}

/// Why work was not added.
#[derive(Debug, Clone, Copy, PartialEq, Eq, Structural)]
pub enum PushError {
    /// The policy turned it down.
    Dropped,
    /// Nobody receives any more.
    Disconnected,
}

/// What a visit of the receiver found.
#[derive(Debug)]
pub enum Received<T> {
    /// The oldest work, which has left the queue.
    Work(T),
    /// Nothing, and it will stay so: all senders are gone.
    Disconnected,
    /// Nothing, and the time is over.
    Timeout,
    /// Nothing yet.
    Wait,
}

/// A queue for a plugin that may miss events.
pub fn channel() -> (r: (SharedState<PluginWork, Lossy>, WorkSender, WorkReceiver))
    ensures
        r.0.is_new(),
        r.1.channel() == r.0.channel(),
        r.2.channel() == r.0.channel(),
{
    channel_for(Lossy)
}

/// A queue for a plugin that may miss nothing.
pub fn reliable_channel() -> (r: (SharedState<PluginWork, Reliable>, WorkSender, WorkReceiver))
    ensures
        r.0.is_new(),
        r.1.channel() == r.0.channel(),
        r.2.channel() == r.0.channel(),
{
    channel_for(Reliable)
}

/// An empty queue with one sender and one receiver.
pub fn channel_for<T, P>(policy: P) -> (r: (SharedState<T, P>, WorkSender, WorkReceiver))
    ensures
        r.0.is_new(),
        r.0.policy == policy,
        r.1.channel() == r.0.channel(),
        r.2.channel() == r.0.channel(),
{
    let channel: Ghost<int> = Ghost(arbitrary());
    (
        SharedState { queue: VecDeque::new(), senders: 1, receiver_alive: true, policy, channel },
        WorkSender { channel },
        WorkReceiver { channel },
    )
}

impl<T, P> SharedState<T, P> {
    /// Which queue this is. Its ends and probes name the same.
    pub open spec fn channel(self) -> int {
        self.channel@
    }

    pub open spec fn is_new(self) -> bool {
        self.queue@.len() == 0 && self.senders == 1 && self.receiver_alive
    }

    /// Whether two states differ in the waiting work at most.
    pub open spec fn same_ends(self, other: SharedState<T, P>) -> bool {
        self.senders == other.senders && self.receiver_alive == other.receiver_alive && self.policy
            == other.policy && self.channel() == other.channel()
    }
}

/// Whether the work at index `i` is the oldest that may be dropped.
pub open spec fn oldest_expendable<T, P: WorkPolicy<T>>(policy: P, queue: Seq<T>, i: int) -> bool {
    &&& 0 <= i < queue.len()
    &&& policy.expendable(queue[i])
    &&& forall|j: int| 0 <= j < i ==> !policy.expendable(#[trigger] queue[j])
}

/// What adding work does to a queue and returns.
pub open spec fn pushed<T, P: WorkPolicy<T>>(
    before: SharedState<T, P>,
    work: T,
    after: SharedState<T, P>,
    r: Result<Option<T>, PushError>,
) -> bool {
    let queue = before.queue@;
    if !before.receiver_alive {
        r == Err::<Option<T>, PushError>(PushError::Disconnected) && after.queue@ == queue
    } else {
        match before.policy.verdict(queue.len(), work) {
            Admit::Accept => r == Ok::<Option<T>, PushError>(None) && after.queue@ == queue.push(
                work,
            ),
            Admit::DropNewest => r == Err::<Option<T>, PushError>(PushError::Dropped)
                && after.queue@ == queue,
            Admit::DropOldest => if exists|i: int| oldest_expendable(before.policy, queue, i) {
                exists|i: int| #[trigger] oldest_expendable(before.policy, queue, i) && r == Ok::<
                    Option<T>,
                    PushError,
                >(Some(queue[i])) && after.queue@ == queue.remove(i).push(work)
            } else {
                r == Ok::<Option<T>, PushError>(None) && after.queue@ == queue.push(work)
            },
        }
    }
}

impl<T, P: WorkPolicy<T>> SharedState<T, P> {
    /// Adds work, as the policy says. Work that had to go for it is handed
    /// back.
    pub fn add_work(&mut self, work: T) -> (r: Result<Option<T>, PushError>)
        ensures
            pushed(*old(self), work, *final(self), r),
            final(self).same_ends(*old(self)),
    {
        if !self.receiver_alive {
            return Err(PushError::Disconnected);
        }
        match self.policy.judge(self.queue.len(), &work) {
            Admit::Accept => {
                self.queue.push_back(work);
                Ok(None)
            },
            Admit::DropNewest => Err(PushError::Dropped),
            Admit::DropOldest => {
                let mut i: usize = 0;
                let mut found: Option<usize> = None;
                while i < self.queue.len() && found.is_none()
                    invariant
                        i <= self.queue.len(),
                        *self == *old(self),
                        found is None ==> forall|j: int|
                            0 <= j < i ==> !self.policy.expendable(#[trigger] self.queue@[j]),
                        found matches Some(at) ==> oldest_expendable(
                            self.policy,
                            self.queue@,
                            at as int,
                        ),
                    decreases self.queue.len() - i,
                {
                    if self.policy.evictable(&self.queue[i]) {
                        assert(oldest_expendable(self.policy, self.queue@, i as int));
                        found = Some(i);
                    }
                    i = i + 1;
                }
                let evicted = match found {
                    Some(at) => self.queue.remove(at),
                    None => None,
                };
                self.queue.push_back(work);
                Ok(evicted)
            },
        }
    }
}

impl WorkSender {
    /// The queue that this sender adds to.
    pub closed spec fn channel(self) -> int {
        self.channel@
    }

    /// Adds work, as the policy says. Work that had to go for it is handed
    /// back.
    pub fn push<T, P: WorkPolicy<T>>(&self, shared: &mut SharedState<T, P>, work: T) -> (r: Result<
        Option<T>,
        PushError,
    >)
        requires
            self.channel() == old(shared).channel(),
        ensures
            pushed(*old(shared), work, *final(shared), r),
            final(shared).same_ends(*old(shared)),
    {
        shared.add_work(work)
    }

    /// How much work waits.
    pub fn len<T, P>(&self, shared: &SharedState<T, P>) -> (r: usize)
        requires
            self.channel() == shared.channel(),
        ensures
            r == shared.queue@.len(),
    {
        shared.queue.len()
    }

    /// A probe for the length of the queue, apart from this sender.
    pub fn len_probe(&self) -> (r: QueueLenProbe)
        ensures
            r.channel() == self.channel(),
    {
        QueueLenProbe { channel: self.channel }
    }

    /// A further sender.
    pub fn duplicate<T, P>(&self, shared: &mut SharedState<T, P>) -> (r: WorkSender)
        requires
            self.channel() == old(shared).channel(),
            old(shared).senders < usize::MAX,
        ensures
            r.channel() == self.channel(),
            final(shared).channel() == old(shared).channel(),
            final(shared).senders == old(shared).senders + 1,
            final(shared).queue == old(shared).queue,
            final(shared).receiver_alive == old(shared).receiver_alive,
            final(shared).policy == old(shared).policy,
    {
        shared.senders = shared.senders + 1;
        WorkSender { channel: self.channel }
    }

    /// Gives the sender up. Says whether it was the last one, so that a waiting
    /// receiver has to be told.
    pub fn close<T, P>(self, shared: &mut SharedState<T, P>) -> (r: bool)
        requires
            self.channel() == old(shared).channel(),
            old(shared).senders > 0,
        ensures
            final(shared).channel() == old(shared).channel(),
            final(shared).senders == old(shared).senders - 1,
            final(shared).queue == old(shared).queue,
            final(shared).receiver_alive == old(shared).receiver_alive,
            final(shared).policy == old(shared).policy,
            r == (final(shared).senders == 0),
    {
        shared.senders = shared.senders - 1;
        shared.senders == 0
    }
}

impl QueueLenProbe {
    /// The queue that this probe reads.
    pub closed spec fn channel(self) -> int {
        self.channel@
    }

    /// How much work waits.
    pub fn get<T, P>(&self, shared: &SharedState<T, P>) -> (r: usize)
        requires
            self.channel() == shared.channel(),
        ensures
            r == shared.queue@.len(),
    {
        shared.queue.len()
    }
}

/// What a receiver finds that waits, or does not wait any more if `expired`.
pub open spec fn received<T, P>(
    before: SharedState<T, P>,
    expired: bool,
    after: SharedState<T, P>,
    r: Received<T>,
) -> bool {
    if before.queue@.len() > 0 {
        r == Received::Work(before.queue@[0]) && after.queue@ == before.queue@.drop_first()
    } else {
        &&& after.queue@ == before.queue@
        &&& r == if before.senders == 0 {
            Received::<T>::Disconnected
        } else if expired {
            Received::<T>::Timeout
        } else {
            Received::<T>::Wait
        }
    }
}

impl WorkReceiver {
    /// The queue that this receiver takes from.
    pub closed spec fn channel(self) -> int {
        self.channel@
    }

    /// Takes the oldest work. If there is none, says whether to wait on: not if
    /// all senders are gone, and not if the time is over.
    pub fn recv_timeout<T, P>(&self, shared: &mut SharedState<T, P>, expired: bool) -> (r: Received<
        T,
    >)
        requires
            self.channel() == old(shared).channel(),
        ensures
            received(*old(shared), expired, *final(shared), r),
            final(shared).same_ends(*old(shared)),
    {
        match shared.queue.pop_front() {
            Some(work) => {
                assert(shared.queue@ =~= old(shared).queue@.drop_first());
                Received::Work(work)
            },
            None => if shared.senders == 0 {
                Received::Disconnected
            } else if expired {
                Received::Timeout
            } else {
                Received::Wait
            },
        }
    }

    /// Takes the oldest work. If there is none, says whether to wait on: not if
    /// all senders are gone.
    pub fn recv<T, P>(&self, shared: &mut SharedState<T, P>) -> (r: Received<T>)
        requires
            self.channel() == old(shared).channel(),
        ensures
            received(*old(shared), false, *final(shared), r),
            final(shared).same_ends(*old(shared)),
    {
        self.recv_timeout(shared, false)
    }

    /// Gives the receiver up: from now on nobody can add work.
    pub fn close<T, P>(self, shared: &mut SharedState<T, P>)
        requires
            self.channel() == old(shared).channel(),
        ensures
            final(shared).channel() == old(shared).channel(),
            !final(shared).receiver_alive,
            final(shared).queue == old(shared).queue,
            final(shared).senders == old(shared).senders,
            final(shared).policy == old(shared).policy,
    {
        shared.receiver_alive = false;
    }
}

/// Work that a push hands back may be dropped: neither an order to stop nor a
/// completed job ever goes.
pub proof fn law_only_expendable_work_is_evicted(
    before: SharedState<PluginWork, Lossy>,
    work: PluginWork,
    after: SharedState<PluginWork, Lossy>,
    evicted: PluginWork,
)
    requires
        pushed(before, work, after, Ok(Some(evicted))),
    ensures
        evicted is Event || evicted is Message,
        before.queue@.contains(evicted),
{
    let i = choose|i: int| #[trigger] oldest_expendable(before.policy, before.queue@, i)
        && Ok::<Option<PluginWork>, PushError>(Some(evicted)) == Ok::<
        Option<PluginWork>,
        PushError,
    >(Some(before.queue@[i])) && after.queue@ == before.queue@.remove(i).push(work);
    assert(before.queue@[i] == evicted);
}

/// A lossy queue takes in all work as long as somebody receives.
pub proof fn law_a_lossy_queue_turns_nothing_down(
    before: SharedState<PluginWork, Lossy>,
    work: PluginWork,
    after: SharedState<PluginWork, Lossy>,
    r: Result<Option<PluginWork>, PushError>,
)
    requires
        pushed(before, work, after, r),
        before.receiver_alive,
    ensures
        r is Ok,
        after.queue@.len() > 0,
        after.queue@.last() == work,
{
}

/// A full lossy queue that holds something expendable does not grow by new
/// work, but by a completed job.
pub proof fn law_a_full_lossy_queue_keeps_its_length(
    before: SharedState<PluginWork, Lossy>,
    work: PluginWork,
    after: SharedState<PluginWork, Lossy>,
    r: Result<Option<PluginWork>, PushError>,
    i: int,
)
    requires
        pushed(before, work, after, r),
        before.receiver_alive,
        before.queue@.len() >= PLUGIN_WORK_QUEUE_CAPACITY,
        !(work is JobComplete),
        0 <= i < before.queue@.len(),
        plugin_work_expendable(before.queue@[i]),
    ensures
        after.queue@.len() == before.queue@.len(),
        r matches Ok(Some(_)),
{
    lemma_oldest_exists(before.policy, before.queue@, i);
}

proof fn lemma_oldest_exists<T, P: WorkPolicy<T>>(policy: P, queue: Seq<T>, i: int)
    requires
        0 <= i < queue.len(),
        policy.expendable(queue[i]),
    ensures
        exists|k: int| oldest_expendable(policy, queue, k),
    decreases i,
{
    if exists|j: int| 0 <= j < i && policy.expendable(#[trigger] queue[j]) {
        let j = choose|j: int| 0 <= j < i && policy.expendable(#[trigger] queue[j]);
        lemma_oldest_exists(policy, queue, j);
    } else {
        assert(oldest_expendable(policy, queue, i));
    }
}

/// A reliable queue drops nothing: what waited still waits, in order, and the
/// new work behind it.
pub proof fn law_a_reliable_queue_drops_nothing(
    before: SharedState<PluginWork, Reliable>,
    work: PluginWork,
    after: SharedState<PluginWork, Reliable>,
    r: Result<Option<PluginWork>, PushError>,
)
    requires
        pushed(before, work, after, r),
        before.receiver_alive,
    ensures
        r == Ok::<Option<PluginWork>, PushError>(None),
        after.queue@ == before.queue@.push(work),
{
}

/// Work that waits is handed out before the receiver hears that all senders are
/// gone.
pub proof fn law_waiting_work_comes_before_the_end<T, P>(
    before: SharedState<T, P>,
    expired: bool,
    after: SharedState<T, P>,
    r: Received<T>,
)
    requires
        received(before, expired, after, r),
        r is Disconnected,
    ensures
        before.queue@.len() == 0,
        before.senders == 0,
{
}

/// One visit to a queue and what it gave.
pub enum QueueStep<T> {
    Push { work: T, outcome: Result<Option<T>, PushError> },
    Receive { expired: bool, found: Received<T> },
}

/// Whether a visit leads from one state of a queue to another.
pub open spec fn visited<T, P: WorkPolicy<T>>(
    before: SharedState<T, P>,
    step: QueueStep<T>,
    after: SharedState<T, P>,
) -> bool {
    match step {
        QueueStep::Push { work, outcome } => pushed(before, work, after, outcome),
        QueueStep::Receive { expired, found } => received(before, expired, after, found),
    }
}

/// The work that a visit added.
pub open spec fn step_accepted<T>(step: QueueStep<T>) -> Multiset<T> {
    match step {
        QueueStep::Push { work, outcome: Ok(_) } => Multiset::singleton(work),
        _ => Multiset::empty(),
    }
}

/// The work that visits added.
pub open spec fn accepted_work<T>(steps: Seq<QueueStep<T>>) -> Multiset<T>
    decreases steps.len(),
{
    if steps.len() == 0 {
        Multiset::empty()
    } else {
        accepted_work(steps.drop_last()).add(step_accepted(steps.last()))
    }
}

/// The work that went for other work in a visit.
pub open spec fn step_evicted<T>(step: QueueStep<T>) -> Multiset<T> {
    match step {
        QueueStep::Push { outcome: Ok(Some(evicted)), .. } => Multiset::singleton(evicted),
        _ => Multiset::empty(),
    }
}

/// The work that went for other work.
pub open spec fn evicted_work<T>(steps: Seq<QueueStep<T>>) -> Multiset<T>
    decreases steps.len(),
{
    if steps.len() == 0 {
        Multiset::empty()
    } else {
        evicted_work(steps.drop_last()).add(step_evicted(steps.last()))
    }
}

/// The work that a visit took out.
pub open spec fn step_received<T>(step: QueueStep<T>) -> Multiset<T> {
    match step {
        QueueStep::Receive { found: Received::Work(work), .. } => Multiset::singleton(work),
        _ => Multiset::empty(),
    }
}

/// The work that was received.
pub open spec fn received_work<T>(steps: Seq<QueueStep<T>>) -> Multiset<T>
    decreases steps.len(),
{
    if steps.len() == 0 {
        Multiset::empty()
    } else {
        received_work(steps.drop_last()).add(step_received(steps.last()))
    }
}

proof fn lemma_one_visit<T, P: WorkPolicy<T>>(
    before: SharedState<T, P>,
    step: QueueStep<T>,
    after: SharedState<T, P>,
)
    requires
        visited(before, step, after),
    ensures
        before.queue@.to_multiset().add(step_accepted(step)) == after.queue@.to_multiset().add(
            step_evicted(step),
        ).add(step_received(step)),
{
    broadcast use vstd::seq_lib::group_to_multiset_ensures;

    let queue = before.queue@;
    match step {
        QueueStep::Push { work, outcome: Ok(Some(evicted)) } => {
            let i = choose|i: int| #[trigger]
                oldest_expendable(before.policy, queue, i) && evicted == queue[i] && after.queue@
                    == queue.remove(i).push(work);
            assert(queue.contains(queue[i]));
            assert(queue.remove(i).to_multiset() =~= queue.to_multiset().remove(queue[i]));
            assert(after.queue@.to_multiset() =~= queue.remove(i).to_multiset().insert(work));
        },
        QueueStep::Push { work, outcome: Ok(None) } => {
            assert(after.queue@ == queue.push(work));
        },
        QueueStep::Receive { found: Received::Work(work), .. } => {
            assert(queue.drop_first() =~= queue.remove(0));
            assert(queue.contains(queue[0]));
            assert(queue.remove(0).to_multiset() =~= queue.to_multiset().remove(queue[0]));
        },
        _ => {},
    }
    assert(before.queue@.to_multiset().add(step_accepted(step)) =~= after.queue@.to_multiset().add(
        step_evicted(step),
    ).add(step_received(step)));
}

/// No work vanishes: over any visits, what was added to a queue, and what waited at
/// the start, has been received, has gone for other work, or still waits.
pub proof fn law_accepted_work_is_accounted_for<T, P: WorkPolicy<T>>(
    states: Seq<SharedState<T, P>>,
    steps: Seq<QueueStep<T>>,
)
    requires
        states.len() == steps.len() + 1,
        forall|k: int|
            0 <= k < steps.len() ==> visited(#[trigger] states[k], steps[k], states[k + 1]),
    ensures
        states[0].queue@.to_multiset().add(accepted_work(steps))
            == states.last().queue@.to_multiset().add(evicted_work(steps)).add(
            received_work(steps),
        ),
    decreases steps.len(),
{
    let first = states[0].queue@.to_multiset();
    let waiting = states.last().queue@.to_multiset();
    if steps.len() > 0 {
        let earlier = states.drop_last();
        let before = steps.drop_last();
        assert forall|k: int| 0 <= k < before.len() implies visited(
            #[trigger] earlier[k],
            before[k],
            earlier[k + 1],
        ) by {
            assert(visited(states[k], steps[k], states[k + 1]));
        }
        law_accepted_work_is_accounted_for(earlier, before);
        let last = steps.len() - 1;
        let step = steps.last();
        let middle = states[last].queue@.to_multiset();
        assert(visited(states[last], steps[last], states[last + 1]));
        lemma_one_visit(states[last], step, states[last + 1]);
        assert(first.add(accepted_work(steps)) =~= first.add(accepted_work(before)).add(
            step_accepted(step),
        ));
        assert(middle.add(evicted_work(before)).add(received_work(before)).add(step_accepted(step))
            =~= middle.add(step_accepted(step)).add(evicted_work(before)).add(
            received_work(before),
        ));
    }
    assert(first.add(accepted_work(steps)) =~= waiting.add(evicted_work(steps)).add(
        received_work(steps),
    ));
}

/// A lossy queue takes new work in behind all that waits. Below its capacity, and for a
/// completed job, nothing goes. At its capacity the first event or delivery that waits
/// goes and is handed back, and if none waits, nothing goes.
pub proof fn law_a_full_lossy_queue_makes_room(
    before: SharedState<PluginWork, Lossy>,
    work: PluginWork,
    after: SharedState<PluginWork, Lossy>,
    r: Result<Option<PluginWork>, PushError>,
)
    requires
        pushed(before, work, after, r),
    ensures
        !before.receiver_alive ==> r == Err::<Option<PluginWork>, PushError>(
            PushError::Disconnected,
        ) && after.queue@ == before.queue@,
        before.receiver_alive && (before.queue@.len() < 64 || work is JobComplete) ==> r == Ok::<
            Option<PluginWork>,
            PushError,
        >(None) && after.queue@ == before.queue@.push(work),
        before.receiver_alive && before.queue@.len() >= 64 && !(work is JobComplete) ==> {
            &&& forall|i: int|
                #![trigger before.queue@[i]]
                0 <= i < before.queue@.len() && (before.queue@[i] is Event
                    || before.queue@[i] is Message) && (forall|j: int|
                    0 <= j < i ==> !((#[trigger] before.queue@[j]) is Event) && !(
                    before.queue@[j] is Message)) ==> r == Ok::<Option<PluginWork>, PushError>(
                    Some(before.queue@[i]),
                ) && after.queue@ == before.queue@.remove(i).push(work)
            &&& (forall|i: int|
                0 <= i < before.queue@.len() ==> !((#[trigger] before.queue@[i]) is Event) && !(
                before.queue@[i] is Message)) ==> r == Ok::<Option<PluginWork>, PushError>(None)
                && after.queue@ == before.queue@.push(work)
        },
{
    let queue = before.queue@;
    if before.receiver_alive && queue.len() >= 64 && !(work is JobComplete) {
        assert forall|i: int|
            #![trigger before.queue@[i]]
            0 <= i < before.queue@.len() && (before.queue@[i] is Event || before.queue@[i] is Message)
                && (forall|j: int|
                0 <= j < i ==> !((#[trigger] before.queue@[j]) is Event) && !(
                before.queue@[j] is Message)) implies r == Ok::<Option<PluginWork>, PushError>(
            Some(before.queue@[i]),
        ) && after.queue@ == before.queue@.remove(i).push(work) by {
            assert(oldest_expendable(before.policy, queue, i));
            let k = choose|k: int| #[trigger]
                oldest_expendable(before.policy, queue, k) && r == Ok::<
                    Option<PluginWork>,
                    PushError,
                >(Some(queue[k])) && after.queue@ == queue.remove(k).push(work);
            if i < k {
                assert(!before.policy.expendable(queue[i]));
            } else if k < i {
                assert(!(queue[k] is Event) && !(queue[k] is Message));
            }
        }
    }
}

/// Work comes out in the order in which it waits, one at a time, and what is left moves up.
pub proof fn law_the_oldest_work_comes_first<T, P>(
    before: SharedState<T, P>,
    expired: bool,
    after: SharedState<T, P>,
    r: Received<T>,
)
    requires
        received(before, expired, after, r),
    ensures
        before.queue@.len() > 0 ==> {
            &&& r == Received::Work(before.queue@[0])
            &&& after.queue@.len() == before.queue@.len() - 1
            &&& forall|i: int|
                0 <= i < after.queue@.len() ==> #[trigger] after.queue@[i] == before.queue@[i + 1]
        },
        before.queue@.len() == 0 ==> {
            &&& after.queue@.len() == 0
            &&& r is Disconnected <==> before.senders == 0
            &&& r is Timeout <==> before.senders > 0 && expired
            &&& r is Wait <==> before.senders > 0 && !expired
        },
{
}

} // verus!
