//! The hand-off from the visibility callback to the decision loop.
//!
//! The callback runs on a thread of the visibility source and must not wait.
//! It filters its samples, drops an update that concerns no watched monitor,
//! and offers the rest to a bounded queue; if the queue is full or closed the
//! update is lost, and the callback returns all the same.

use crate::sample::{allow_list, filter_samples, filtered, MonitorMessage, VisibilitySample};
use tokio::sync::mpsc::error::TrySendError;
use tokio::sync::mpsc::Sender;
use vstd::prelude::*;

verus! {

/// The sending half of tokio's bounded queue. Nothing is known of what it
/// holds: the receiving half empties it from another task.
#[verifier::external_type_specification]
#[verifier::external_body]
#[verifier::reject_recursive_types(T)]
pub struct ExSender<T>(Sender<T>);

/// What became of an update that the callback received.
#[derive(Clone, Copy, Debug, PartialEq, Eq, Structural)]
pub enum Forwarded {
    /// No sample was of a watched monitor; nothing was offered to the queue.
    Suppressed,
    /// The update waits in the queue.
    Sent,
    /// The queue was full; the update is lost.
    Full,
    /// The decision loop is gone; the update is lost.
    Closed,
}

/// What the queue said to an offer.
#[derive(Clone, Copy, Debug, PartialEq, Eq, Structural)]
pub enum Offer {
    Accepted,
    Full,
    Closed,
}

/// The message that an update gives rise to: its samples of watched
/// monitors, and none if there is no such sample.
pub open spec fn message_of(samples: Seq<VisibilitySample>, allow: Option<Seq<i64>>) -> Option<
    Seq<VisibilitySample>,
> {
    if filtered(samples, allow).len() == 0 {
        None
    } else {
        Some(filtered(samples, allow))
    }
}

/// See [`message_of`].
pub fn prepare_update(samples: &Vec<VisibilitySample>, monitor_indices: &Option<Vec<i64>>) -> (message:
    Option<MonitorMessage>)
    ensures
        match message {
            Some(MonitorMessage::VisibilityUpdate(kept)) => message_of(
                samples@,
                allow_list(*monitor_indices),
            ) == Some(kept@),
            Some(MonitorMessage::Shutdown) => false,
            None => message_of(samples@, allow_list(*monitor_indices)) is None,
        },
{
    let kept = filter_samples(samples, monitor_indices);
    if kept.len() == 0 {
        None
    } else {
        Some(MonitorMessage::VisibilityUpdate(kept))
    }
}

/// Calls `Sender::try_send` of tokio, which never waits: it takes the
/// message if the queue has room and its receiver lives, and hands it back
/// in an error otherwise. Which of the three happens depends on the other
/// end of the queue, so nothing is claimed of the result.
#[verifier::external_body]
fn offer(sender: &Sender<MonitorMessage>, message: MonitorMessage) -> (answer: Offer) {
    match sender.try_send(message) {
        Ok(()) => Offer::Accepted,
        Err(TrySendError::Full(_)) => Offer::Full,
        Err(TrySendError::Closed(_)) => Offer::Closed,
    }
}

/// What became of an update that was offered to the queue.
pub fn offered(answer: Offer) -> (outcome: Forwarded)
    ensures
        outcome == match answer {
            Offer::Accepted => Forwarded::Sent,
            Offer::Full => Forwarded::Full,
            Offer::Closed => Forwarded::Closed,
        },
{
    match answer {
        Offer::Accepted => Forwarded::Sent,
        Offer::Full => Forwarded::Full,
        Offer::Closed => Forwarded::Closed,
    }
}

/// The work of the visibility callback: the message of [`prepare_update`],
/// if there is one, is offered to the queue without waiting.
///
/// An update without a sample of a watched monitor is suppressed and never
/// reaches the queue; every other update is offered, and the result tells
/// what the queue said (see [`offered`]).
pub fn forward_update(
    sender: &Sender<MonitorMessage>,
    samples: &Vec<VisibilitySample>,
    monitor_indices: &Option<Vec<i64>>,
) -> (outcome: Forwarded)
    ensures
        outcome == Forwarded::Suppressed <==> message_of(samples@, allow_list(*monitor_indices))
            is None,
{
    match prepare_update(samples, monitor_indices) {
        Some(message) => offered(offer(sender, message)),
        None => Forwarded::Suppressed,
    }
}

} // verus!
