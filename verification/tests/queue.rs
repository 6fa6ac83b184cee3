use tokio::sync::mpsc::channel;
use wallpaper_controller::channel::{forward_update, offered, prepare_update, Forwarded, Offer};
use wallpaper_controller::monitor::UPDATE_QUEUE_CAPACITY;
use wallpaper_controller::sample::{MonitorMessage, VisibilitySample};

fn sample(monitor_index: i64, current_visible: i64, max_visible: i64) -> VisibilitySample {
    VisibilitySample {
        monitor_id: 7,
        monitor_index,
        current_visible,
        max_visible,
        total_area: max_visible,
    }
}

fn samples_of(message: Option<MonitorMessage>) -> Option<Vec<VisibilitySample>> {
    match message {
        Some(MonitorMessage::VisibilityUpdate(samples)) => Some(samples),
        _ => None,
    }
}

#[test]
fn update_of_an_unwatched_monitor_is_suppressed() {
    let (sender, mut receiver) = channel::<MonitorMessage>(UPDATE_QUEUE_CAPACITY);
    let outcome = forward_update(&sender, &vec![sample(1, 10, 100)], &Some(vec![2]));
    assert_eq!(outcome, Forwarded::Suppressed);
    assert!(receiver.try_recv().is_err());
}

#[test]
fn empty_update_is_suppressed() {
    let (sender, mut receiver) = channel::<MonitorMessage>(4);
    assert_eq!(forward_update(&sender, &vec![], &None), Forwarded::Suppressed);
    assert!(receiver.try_recv().is_err());
}

#[test]
fn update_is_sent_filtered() {
    let (sender, mut receiver) = channel::<MonitorMessage>(4);
    let update = vec![sample(1, 10, 100), sample(2, 20, 100), sample(3, 30, 100)];
    assert_eq!(forward_update(&sender, &update, &Some(vec![3, 1])), Forwarded::Sent);
    assert_eq!(
        samples_of(receiver.try_recv().ok()),
        Some(vec![sample(1, 10, 100), sample(3, 30, 100)])
    );
    assert!(receiver.try_recv().is_err());
}

#[test]
fn updates_arrive_in_order() {
    let (sender, mut receiver) = channel::<MonitorMessage>(4);
    assert_eq!(forward_update(&sender, &vec![sample(1, 1, 100)], &None), Forwarded::Sent);
    assert_eq!(forward_update(&sender, &vec![sample(1, 2, 100)], &None), Forwarded::Sent);
    assert_eq!(samples_of(receiver.try_recv().ok()), Some(vec![sample(1, 1, 100)]));
    assert_eq!(samples_of(receiver.try_recv().ok()), Some(vec![sample(1, 2, 100)]));
}

#[test]
fn full_queue_drops_the_update() {
    let (sender, mut receiver) = channel::<MonitorMessage>(1);
    assert_eq!(forward_update(&sender, &vec![sample(1, 1, 100)], &None), Forwarded::Sent);
    assert_eq!(forward_update(&sender, &vec![sample(1, 2, 100)], &None), Forwarded::Full);
    assert_eq!(samples_of(receiver.try_recv().ok()), Some(vec![sample(1, 1, 100)]));
    assert!(receiver.try_recv().is_err());
    assert_eq!(forward_update(&sender, &vec![sample(1, 3, 100)], &None), Forwarded::Sent);
}

#[test]
fn closed_queue_drops_the_update() {
    let (sender, receiver) = channel::<MonitorMessage>(1);
    drop(receiver);
    assert_eq!(forward_update(&sender, &vec![sample(1, 1, 100)], &None), Forwarded::Closed);
}

#[test]
fn prepared_message_holds_the_watched_samples() {
    let update = vec![sample(1, 10, 100), sample(2, 20, 100)];
    assert_eq!(samples_of(prepare_update(&update, &None)), Some(update.clone()));
    assert_eq!(
        samples_of(prepare_update(&update, &Some(vec![2]))),
        Some(vec![sample(2, 20, 100)])
    );
    assert!(prepare_update(&update, &Some(vec![9])).is_none());
    assert!(prepare_update(&vec![], &None).is_none());
}

#[test]
fn offers_are_told_apart() {
    assert_eq!(offered(Offer::Accepted), Forwarded::Sent);
    assert_eq!(offered(Offer::Full), Forwarded::Full);
    assert_eq!(offered(Offer::Closed), Forwarded::Closed);
}

#[test]
fn queue_holds_a_hundred_updates() {
    assert_eq!(UPDATE_QUEUE_CAPACITY, 100);
    let (sender, _receiver) = channel::<MonitorMessage>(UPDATE_QUEUE_CAPACITY);
    let mut sent = 0;
    while sent < 100 {
        assert_eq!(forward_update(&sender, &vec![sample(1, sent, 100)], &None), Forwarded::Sent);
        sent += 1;
    }
    assert_eq!(forward_update(&sender, &vec![sample(1, 0, 100)], &None), Forwarded::Full);
}
