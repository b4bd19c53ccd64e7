//! The dispatch half of a scheduler tick: hand out the oldest waiting
//! notifications, a bounded number per tick, and count those that arrived.

use vstd::prelude::*;
use crate::model::notifications::{notification_views, Notification, NotificationsView};
use crate::types::CallResult;
use crate::{DataView, State};

verus! {

/// The most notifications that one tick hands out.
pub const MAX_NOTIFICATIONS_PER_BATCH: usize = 5;

/// The notifications of one tick and the method to call on each subscriber.
#[derive(Clone, Debug, PartialEq, Eq)]
pub struct Batch {
    pub notifications: Vec<Notification>,
    pub method_name: String,
}

/// How many notifications a tick hands out when `queued` are waiting.
pub open spec fn batch_size(queued: nat) -> nat {
    if queued < MAX_NOTIFICATIONS_PER_BATCH {
        queued
    } else {
        MAX_NOTIFICATIONS_PER_BATCH as nat
    }
}

/// Takes the next batch off the queue: the oldest waiting notifications, in
/// queue order, up to the ceiling. There is no batch when nothing waits.
pub fn next_batch(state: &mut State) -> (batch: Option<Batch>)
    ensures
        old(state).data.wf() ==> final(state).data.wf(),
        match batch {
            None => old(state).data@.notifications.queue.len() == 0 && final(state).data@ == old(
                state,
            ).data@,
            Some(batch) => {
                let queue = old(state).data@.notifications.queue;
                &&& queue.len() > 0
                &&& notification_views(batch.notifications@) == queue.take(
                    batch_size(queue.len()) as int,
                )
                &&& batch.method_name@ == old(state).data@.notification_method_name
                &&& final(state).data@ == (DataView {
                    notifications: NotificationsView {
                        queue: queue.skip(batch_size(queue.len()) as int),
                        ..old(state).data@.notifications
                    },
                    ..old(state).data@
                })
            },
        },
{
    if !state.data.notifications.is_queue_empty() {
        let ghost queue = state.data@.notifications.queue;
        let mut notifications: Vec<Notification> = Vec::new();
        proof {
            assert(notification_views(notifications@) =~= queue.take(0));
            assert(queue.skip(0) =~= queue);
        }
        while notifications.len() < MAX_NOTIFICATIONS_PER_BATCH
            && !state.data.notifications.is_queue_empty()
            invariant
                queue == old(state).data@.notifications.queue,
                notifications@.len() <= MAX_NOTIFICATIONS_PER_BATCH,
                notifications@.len() <= queue.len(),
                notification_views(notifications@) == queue.take(notifications@.len() as int),
                state.data.admins == old(state).data.admins,
                state.data.tokens == old(state).data.tokens,
                state.data.subscriptions == old(state).data.subscriptions,
                state.data@ == (DataView {
                    notifications: NotificationsView {
                        queue: queue.skip(notifications@.len() as int),
                        ..old(state).data@.notifications
                    },
                    ..old(state).data@
                }),
            decreases MAX_NOTIFICATIONS_PER_BATCH - notifications@.len(),
        {
            let ghost taken = notifications@;
            match state.data.notifications.dequeue() {
                Some(notification) => {
                    notifications.push(notification);
                    proof {
                        let n = taken.len() as int;
                        assert(queue.skip(n)[0] == queue[n]);
                        assert(queue.skip(n).skip(1) =~= queue.skip(n + 1));
                        assert(notification_views(notifications@) =~= queue.take(n).push(queue[n]));
                        assert(queue.take(n).push(queue[n]) =~= queue.take(n + 1));
                    }
                },
                None => {},
            }
        }
        Some(Batch { notifications, method_name: state.data.notification_method_name.clone() })
    } else {
        None
    }
}

/// Takes in how a push ended: a notification that arrived is counted, one
/// that did not is dropped; it is neither queued again nor tried again.
pub fn push_completed(response: &CallResult<()>, state: &mut State)
    requires
        response is Ok ==> old(state).data@.notifications.total_sent < u64::MAX,
    ensures
        old(state).data.wf() ==> final(state).data.wf(),
        final(state).data@ == (DataView {
            notifications: NotificationsView {
                total_sent: if response is Ok {
                    (old(state).data@.notifications.total_sent + 1) as u64
                } else {
                    old(state).data@.notifications.total_sent
                },
                ..old(state).data@.notifications
            },
            ..old(state).data@
        }),
{
    match response {
        Ok(_) => state.data.notifications.mark_sent(),
        Err(_) => {},
    }
}

} // verus!
