//! The realtime change-feed listener, as a state machine. Its driver opens
//! the subscription, waits for feed events or cancellation, sends changed ids
//! downstream, and reports each outcome; the listener says what comes next.

use vstd::prelude::*;

use crate::firebase_listener::{FirebaseListenerErr, Update};

verus! {

/// One event of the change feed, as the driver observed it.
#[derive(Debug)]
pub enum FeedEvent {
    /// A payload that decoded as an update.
    Update(Update),
    /// A payload that did not decode.
    Malformed,
    /// An event without payload.
    NoPayload,
    /// The feed reported an error for one event and stays open.
    TransportError,
    /// The remote side ended the feed.
    Ended,
}

/// What the driver reports to the listener.
#[derive(Debug)]
pub enum ListenerInput {
    /// The subscription is open.
    Subscribed,
    /// The subscription could not be opened.
    SubscribeFailed(FirebaseListenerErr),
    /// The feed delivered an event.
    Event(FeedEvent),
    /// Cancellation was signalled.
    Cancelled,
    /// The id last asked for was accepted downstream.
    Sent,
    /// The id last asked for could not be sent: the receiver is gone.
    SendFailed,
}

/// Why the listener stopped.
#[derive(Debug, PartialEq)]
pub enum StopReason {
    /// Cancellation was signalled; not an error.
    Cancelled,
    /// The remote side ended the feed; not an error.
    Closed,
    /// Subscribing or forwarding failed.
    Failed(FirebaseListenerErr),
}

impl StopReason {
    /// A copy of this reason.
    pub fn duplicate(&self) -> (r: StopReason)
        ensures
            r == *self,
    {
        match self {
            StopReason::Cancelled => StopReason::Cancelled,
            StopReason::Closed => StopReason::Closed,
            StopReason::Failed(e) => StopReason::Failed(e.duplicate()),
        }
    }
}

/// What the driver is to do next.
#[derive(Debug, PartialEq)]
pub enum ListenerAction {
    /// Open the change-feed subscription.
    Subscribe,
    /// Wait for the next feed event or for cancellation, whichever comes first.
    Await,
    /// Send this id downstream, waiting while the channel is full.
    Forward(i64),
    /// Stop listening.
    Stop(StopReason),
}

/// The listener's state.
pub enum ListenerState {
    Connecting,
    Listening,
    /// Sending the ids of one update; the first one is in flight.
    Forwarding(Seq<i64>),
    Stopped(StopReason),
}

/// The changed item ids an update carries, in order.
pub open spec fn changed_ids(update: Update) -> Seq<i64> {
    match update.data.items {
        Some(ids) => ids@,
        None => Seq::empty(),
    }
}

/// Forwarding the ids `ids`, or back to listening when there are none.
pub open spec fn forwarding(ids: Seq<i64>) -> ListenerState {
    if ids.len() == 0 {
        ListenerState::Listening
    } else {
        ListenerState::Forwarding(ids)
    }
}

/// The state after `input`. Cancellation stops the listener from any state;
/// a stopped listener stays stopped; malformed, empty and failed events are
/// absorbed; inputs that do not fit the state are ignored.
pub open spec fn next_state(state: ListenerState, input: ListenerInput) -> ListenerState {
    match state {
        ListenerState::Stopped(_) => state,
        _ => match input {
            ListenerInput::Cancelled => ListenerState::Stopped(StopReason::Cancelled),
            _ => match state {
                ListenerState::Connecting => match input {
                    ListenerInput::Subscribed => ListenerState::Listening,
                    ListenerInput::SubscribeFailed(e) => ListenerState::Stopped(
                        StopReason::Failed(e),
                    ),
                    _ => state,
                },
                ListenerState::Listening => match input {
                    ListenerInput::Event(FeedEvent::Update(u)) => forwarding(changed_ids(u)),
                    ListenerInput::Event(FeedEvent::Ended) => ListenerState::Stopped(
                        StopReason::Closed,
                    ),
                    _ => state,
                },
                ListenerState::Forwarding(ids) => match input {
                    ListenerInput::Sent => forwarding(ids.drop_first()),
                    ListenerInput::SendFailed => ListenerState::Stopped(
                        StopReason::Failed(FirebaseListenerErr::ChannelError(ids[0])),
                    ),
                    _ => state,
                },
                ListenerState::Stopped(_) => state,
            },
        },
    }
}

/// The action that a state calls for.
pub open spec fn action_of(state: ListenerState) -> ListenerAction {
    match state {
        ListenerState::Connecting => ListenerAction::Subscribe,
        ListenerState::Listening => ListenerAction::Await,
        ListenerState::Forwarding(ids) => ListenerAction::Forward(ids[0]),
        ListenerState::Stopped(r) => ListenerAction::Stop(r),
    }
}

/// The id that `input` confirms as delivered downstream, if any.
pub open spec fn delivered_by(state: ListenerState, input: ListenerInput) -> Seq<i64> {
    match state {
        ListenerState::Forwarding(ids) => match input {
            ListenerInput::Sent => seq![ids[0]],
            _ => Seq::empty(),
        },
        _ => Seq::empty(),
    }
}

/// The state after feeding `inputs` in order.
pub open spec fn run(state: ListenerState, inputs: Seq<ListenerInput>) -> ListenerState
    decreases inputs.len(),
{
    if inputs.len() == 0 {
        state
    } else {
        next_state(run(state, inputs.drop_last()), inputs.last())
    }
}

/// The ids delivered downstream while feeding `inputs` in order.
pub open spec fn delivered(state: ListenerState, inputs: Seq<ListenerInput>) -> Seq<i64>
    decreases inputs.len(),
{
    if inputs.len() == 0 {
        Seq::empty()
    } else {
        delivered(state, inputs.drop_last()) + delivered_by(
            run(state, inputs.drop_last()),
            inputs.last(),
        )
    }
}

/// `n` confirmations of delivery.
pub open spec fn confirmations(n: nat) -> Seq<ListenerInput> {
    Seq::new(n, |k: int| ListenerInput::Sent)
}

proof fn lemma_run_append(state: ListenerState, a: Seq<ListenerInput>, b: Seq<ListenerInput>)
    ensures
        run(state, a + b) == run(run(state, a), b),
        delivered(state, a + b) == delivered(state, a) + delivered(run(state, a), b),
    decreases b.len(),
{
    if b.len() == 0 {
        assert(a + b =~= a);
        assert(delivered(state, a) + Seq::<i64>::empty() =~= delivered(state, a));
    } else {
        assert((a + b).drop_last() =~= a + b.drop_last());
        assert((a + b).last() == b.last());
        lemma_run_append(state, a, b.drop_last());
        let mid = run(state, a);
        assert(delivered(state, a) + delivered(mid, b) =~= delivered(state, a) + delivered(
            mid,
            b.drop_last(),
        ) + delivered_by(run(mid, b.drop_last()), b.last()));
    }
}

proof fn lemma_stopped_is_final(reason: StopReason, inputs: Seq<ListenerInput>)
    ensures
        run(ListenerState::Stopped(reason), inputs) == ListenerState::Stopped(reason),
        delivered(ListenerState::Stopped(reason), inputs) == Seq::<i64>::empty(),
    decreases inputs.len(),
{
    if inputs.len() > 0 {
        lemma_stopped_is_final(reason, inputs.drop_last());
        assert(delivered(ListenerState::Stopped(reason), inputs) =~= Seq::<i64>::empty());
    }
}

proof fn lemma_confirmations_deliver(ids: Seq<i64>, k: nat)
    requires
        k <= ids.len(),
    ensures
        run(forwarding(ids), confirmations(k)) == forwarding(ids.skip(k as int)),
        delivered(forwarding(ids), confirmations(k)) == ids.take(k as int),
    decreases k,
{
    if k == 0 {
        assert(ids.skip(0) =~= ids);
        assert(ids.take(0) =~= Seq::<i64>::empty());
    } else {
        assert(confirmations(k).drop_last() =~= confirmations((k - 1) as nat));
        lemma_confirmations_deliver(ids, (k - 1) as nat);
        let rest = ids.skip(k - 1);
        assert(rest.drop_first() =~= ids.skip(k as int));
        assert(rest[0] == ids[k - 1]);
        assert(ids.take(k - 1) + seq![ids[k - 1]] =~= ids.take(k as int));
    }
}

/// A cancellation stops a listener that has not stopped yet at once, with the
/// reason `Cancelled`; whatever is fed after it, the listener stays stopped
/// and no further id is delivered.
pub proof fn lemma_cancellation_stops(state: ListenerState, later: Seq<ListenerInput>)
    requires
        !(state is Stopped),
    ensures
        action_of(next_state(state, ListenerInput::Cancelled)) == ListenerAction::Stop(
            StopReason::Cancelled,
        ),
        run(state, seq![ListenerInput::Cancelled] + later) == ListenerState::Stopped(
            StopReason::Cancelled,
        ),
        delivered(state, seq![ListenerInput::Cancelled] + later) == Seq::<i64>::empty(),
{
    let first = seq![ListenerInput::Cancelled];
    assert(first.drop_last() =~= Seq::<ListenerInput>::empty());
    assert(run(state, first.drop_last()) == state);
    assert(delivered(state, first.drop_last()) == Seq::<i64>::empty());
    assert(first.last() == ListenerInput::Cancelled);
    assert(run(state, first) == ListenerState::Stopped(StopReason::Cancelled));
    assert(delivered(state, first) =~= Seq::<i64>::empty());
    lemma_run_append(state, first, later);
    lemma_stopped_is_final(StopReason::Cancelled, later);
    assert(delivered(state, first + later) =~= Seq::<i64>::empty());
}

/// A malformed event does not end the subscription: a listening listener fed
/// a malformed event, then an update, then one delivery confirmation per id
/// of that update, delivers exactly the update's ids in order and is
/// listening again.
pub proof fn lemma_malformed_event_is_absorbed(update: Update)
    ensures
        ({
            let inputs = seq![
                ListenerInput::Event(FeedEvent::Malformed),
                ListenerInput::Event(FeedEvent::Update(update)),
            ] + confirmations(changed_ids(update).len());
            &&& run(ListenerState::Listening, inputs) == ListenerState::Listening
            &&& delivered(ListenerState::Listening, inputs) == changed_ids(update)
        }),
{
    let ids = changed_ids(update);
    let head = seq![
        ListenerInput::Event(FeedEvent::Malformed),
        ListenerInput::Event(FeedEvent::Update(update)),
    ];
    assert(head.drop_last() =~= seq![ListenerInput::Event(FeedEvent::Malformed)]);
    assert(head.drop_last().drop_last() =~= Seq::<ListenerInput>::empty());
    assert(run(ListenerState::Listening, head.drop_last().drop_last()) == ListenerState::Listening);
    assert(delivered(ListenerState::Listening, head.drop_last().drop_last()) == Seq::<i64>::empty());
    assert(head.drop_last().last() == ListenerInput::Event(FeedEvent::Malformed));
    assert(head.last() == ListenerInput::Event(FeedEvent::Update(update)));
    assert(run(ListenerState::Listening, head.drop_last()) == ListenerState::Listening);
    assert(run(ListenerState::Listening, head) == forwarding(ids));
    assert(delivered(ListenerState::Listening, head.drop_last()) =~= Seq::<i64>::empty());
    assert(delivered(ListenerState::Listening, head) =~= Seq::<i64>::empty());
    lemma_run_append(ListenerState::Listening, head, confirmations(ids.len()));
    lemma_confirmations_deliver(ids, ids.len());
    assert(ids.skip(ids.len() as int) =~= Seq::<i64>::empty());
    assert(ids.take(ids.len() as int) =~= ids);
    assert(Seq::<i64>::empty() + ids =~= ids);
}

#[derive(Debug, Clone, Copy, PartialEq, Eq, Structural)]
enum Phase {
    Connecting,
    Listening,
    Forwarding,
    Stopped,
}

/// One subscription's lifetime of the change-feed listener.
pub struct RealtimeListener {
    phase: Phase,
    pending: Vec<i64>,
    next: usize,
    reason: Option<StopReason>,
}

impl RealtimeListener {
    pub closed spec fn state(&self) -> ListenerState {
        match self.phase {
            Phase::Connecting => ListenerState::Connecting,
            Phase::Listening => ListenerState::Listening,
            Phase::Forwarding => ListenerState::Forwarding(self.pending@.skip(self.next as int)),
            Phase::Stopped => ListenerState::Stopped(self.reason->Some_0),
        }
    }

    pub closed spec fn wf(&self) -> bool {
        &&& self.phase == Phase::Forwarding ==> self.next < self.pending@.len()
        &&& self.phase == Phase::Stopped ==> self.reason is Some
    }

    /// A listener about to subscribe.
    pub fn new() -> (res: (RealtimeListener, ListenerAction))
        ensures
            res.0.wf(),
            res.0.state() == ListenerState::Connecting,
            res.1 == ListenerAction::Subscribe,
    {
        (
            RealtimeListener {
                phase: Phase::Connecting,
                pending: Vec::new(),
                next: 0,
                reason: None,
            },
            ListenerAction::Subscribe,
        )
    }

    fn current_action(&self) -> (action: ListenerAction)
        requires
            self.wf(),
        ensures
            action == action_of(self.state()),
    {
        match self.phase {
            Phase::Connecting => ListenerAction::Subscribe,
            Phase::Listening => ListenerAction::Await,
            Phase::Forwarding => ListenerAction::Forward(self.pending[self.next]),
            Phase::Stopped => match &self.reason {
                Some(r) => ListenerAction::Stop(r.duplicate()),
                None => ListenerAction::Stop(StopReason::Closed),
            },
        }
    }

    fn stop(&mut self, reason: StopReason)
        ensures
            final(self).wf(),
            final(self).state() == ListenerState::Stopped(reason),
    {
        self.phase = Phase::Stopped;
        self.reason = Some(reason);
    }

    /// Takes in what the driver observed and returns the next action:
    /// the state moves as `next_state` says and the action is the one the new
    /// state calls for.
    pub fn step(&mut self, input: ListenerInput) -> (action: ListenerAction)
        requires
            old(self).wf(),
        ensures
            final(self).wf(),
            final(self).state() == next_state(old(self).state(), input),
            action == action_of(final(self).state()),
    {
        let ghost before = self.state();
        let ghost given = input;
        if self.phase != Phase::Stopped {
            match input {
                ListenerInput::Cancelled => self.stop(StopReason::Cancelled),
                ListenerInput::Subscribed => {
                    if self.phase == Phase::Connecting {
                        self.phase = Phase::Listening;
                    }
                },
                ListenerInput::SubscribeFailed(e) => {
                    if self.phase == Phase::Connecting {
                        self.stop(StopReason::Failed(e));
                    }
                },
                ListenerInput::Event(event) => {
                    if self.phase == Phase::Listening {
                        match event {
                            FeedEvent::Update(update) => {
                                if let Some(ids) = update.data.items {
                                    if ids.len() > 0 {
                                        self.pending = ids;
                                        self.next = 0;
                                        self.phase = Phase::Forwarding;
                                        assert(self.pending@.skip(0) =~= self.pending@);
                                    }
                                }
                            },
                            FeedEvent::Ended => self.stop(StopReason::Closed),
                            _ => {},
                        }
                    }
                },
                ListenerInput::Sent => {
                    if self.phase == Phase::Forwarding {
                        let ghost ids = self.pending@.skip(self.next as int);
                        let len = self.pending.len();
                        assert(self.next < len);
                        self.next = self.next + 1;
                        assert(self.pending@.skip(self.next as int) =~= ids.drop_first());
                        if self.next == self.pending.len() {
                            self.phase = Phase::Listening;
                        }
                    }
                },
                ListenerInput::SendFailed => {
                    if self.phase == Phase::Forwarding {
                        let id = self.pending[self.next];
                        self.stop(StopReason::Failed(FirebaseListenerErr::ChannelError(id)));
                    }
                },
            }
        }
        assert(self.state() == next_state(before, given));
        self.current_action()
    }
}

} // verus!
