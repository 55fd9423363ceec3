use hn_sync::firebase_listener::{FirebaseListenerErr, Update, UpdateData};
use hn_sync::realtime::{FeedEvent, ListenerAction, ListenerInput, RealtimeListener, StopReason};

fn update(ids: Option<Vec<i64>>) -> Update {
    Update {
        path: "/".to_string(),
        data: UpdateData { items: ids, profiles: Some(vec!["pg".to_string()]) },
    }
}

fn listening() -> RealtimeListener {
    let (mut l, first) = RealtimeListener::new();
    assert_eq!(first, ListenerAction::Subscribe);
    assert_eq!(l.step(ListenerInput::Subscribed), ListenerAction::Await);
    l
}

#[test]
fn malformed_event_then_update_forwards_ids_in_order() {
    let mut l = listening();
    assert_eq!(l.step(ListenerInput::Event(FeedEvent::Malformed)), ListenerAction::Await);
    let mut forwarded = Vec::new();
    let mut action = l.step(ListenerInput::Event(FeedEvent::Update(update(Some(vec![1, 2, 3])))));
    while let ListenerAction::Forward(id) = action {
        forwarded.push(id);
        action = l.step(ListenerInput::Sent);
    }
    assert_eq!(forwarded, vec![1, 2, 3]);
    assert_eq!(action, ListenerAction::Await);
}

#[test]
fn absorbed_events_keep_listening() {
    let mut l = listening();
    assert_eq!(l.step(ListenerInput::Event(FeedEvent::NoPayload)), ListenerAction::Await);
    assert_eq!(l.step(ListenerInput::Event(FeedEvent::TransportError)), ListenerAction::Await);
    assert_eq!(l.step(ListenerInput::Event(FeedEvent::Update(update(None)))), ListenerAction::Await);
    assert_eq!(l.step(ListenerInput::Event(FeedEvent::Update(update(Some(vec![]))))), ListenerAction::Await);
}

#[test]
fn cancellation_stops_before_next_event() {
    let mut l = listening();
    assert_eq!(l.step(ListenerInput::Cancelled), ListenerAction::Stop(StopReason::Cancelled));
    let after = l.step(ListenerInput::Event(FeedEvent::Update(update(Some(vec![4, 5])))));
    assert_eq!(after, ListenerAction::Stop(StopReason::Cancelled));
    assert_eq!(l.step(ListenerInput::Sent), ListenerAction::Stop(StopReason::Cancelled));
}

#[test]
fn cancellation_while_forwarding_forwards_nothing_more() {
    let mut l = listening();
    assert_eq!(
        l.step(ListenerInput::Event(FeedEvent::Update(update(Some(vec![7, 8]))))),
        ListenerAction::Forward(7)
    );
    assert_eq!(l.step(ListenerInput::Cancelled), ListenerAction::Stop(StopReason::Cancelled));
    assert_eq!(l.step(ListenerInput::Sent), ListenerAction::Stop(StopReason::Cancelled));
}

#[test]
fn feed_end_closes_normally() {
    let mut l = listening();
    assert_eq!(l.step(ListenerInput::Event(FeedEvent::Ended)), ListenerAction::Stop(StopReason::Closed));
}

#[test]
fn subscribe_failure_is_terminal() {
    let (mut l, _) = RealtimeListener::new();
    let action = l.step(ListenerInput::SubscribeFailed(FirebaseListenerErr::ConnectError(
        "no events".to_string(),
    )));
    assert_eq!(
        action,
        ListenerAction::Stop(StopReason::Failed(FirebaseListenerErr::ConnectError("no events".to_string())))
    );
    assert_eq!(
        l.step(ListenerInput::Subscribed),
        ListenerAction::Stop(StopReason::Failed(FirebaseListenerErr::ConnectError("no events".to_string())))
    );
}

#[test]
fn send_failure_is_terminal() {
    let mut l = listening();
    assert_eq!(
        l.step(ListenerInput::Event(FeedEvent::Update(update(Some(vec![11, 12]))))),
        ListenerAction::Forward(11)
    );
    assert_eq!(l.step(ListenerInput::Sent), ListenerAction::Forward(12));
    assert_eq!(
        l.step(ListenerInput::SendFailed),
        ListenerAction::Stop(StopReason::Failed(FirebaseListenerErr::ChannelError(12)))
    );
}

#[test]
fn inputs_out_of_turn_are_ignored() {
    let (mut l, _) = RealtimeListener::new();
    assert_eq!(l.step(ListenerInput::Sent), ListenerAction::Subscribe);
    assert_eq!(l.step(ListenerInput::Subscribed), ListenerAction::Await);
    assert_eq!(l.step(ListenerInput::Sent), ListenerAction::Await);
    assert_eq!(
        l.step(ListenerInput::Event(FeedEvent::Update(update(Some(vec![3]))))),
        ListenerAction::Forward(3)
    );
    assert_eq!(l.step(ListenerInput::Event(FeedEvent::Malformed)), ListenerAction::Forward(3));
    assert_eq!(l.step(ListenerInput::Sent), ListenerAction::Await);
}
