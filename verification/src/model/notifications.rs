//! The queue of notifications that wait to be pushed, oldest first, and the
//! count of those that were delivered.

use std::collections::VecDeque;
use vstd::prelude::*;
use crate::block::{Block, BlockIndex};
use crate::types::CanisterId;

verus! {

/// What a subscriber is told: one block of one ledger.
#[derive(Clone, Debug, PartialEq, Eq)]
pub struct NotifyTransactionArgs {
    pub token_symbol: String,
    pub ledger_canister_id: CanisterId,
    pub block_index: BlockIndex,
    pub block: Block,
}

pub struct NotifyTransactionArgsView {
    pub token_symbol: Seq<char>,
    pub ledger_canister_id: CanisterId,
    pub block_index: BlockIndex,
    pub block: Block,
}

impl View for NotifyTransactionArgs {
    type V = NotifyTransactionArgsView;

    open spec fn view(&self) -> NotifyTransactionArgsView {
        NotifyTransactionArgsView {
            token_symbol: self.token_symbol@,
            ledger_canister_id: self.ledger_canister_id,
            block_index: self.block_index,
            block: self.block,
        }
    }
}

/// A pending push: the subscriber it goes to and what it says.
#[derive(Clone, Debug, PartialEq, Eq)]
pub struct Notification {
    pub canister_id: CanisterId,
    pub args: NotifyTransactionArgs,
}

pub struct NotificationView {
    pub canister_id: CanisterId,
    pub args: NotifyTransactionArgsView,
}

impl View for Notification {
    type V = NotificationView;

    open spec fn view(&self) -> NotificationView {
        NotificationView { canister_id: self.canister_id, args: self.args@ }
    }
}

/// The views of a sequence of notifications, in the same order.
pub open spec fn notification_views(notifications: Seq<Notification>) -> Seq<NotificationView> {
    notifications.map_values(|n: Notification| n@)
}

pub struct Notifications {
    queue: VecDeque<Notification>,
    total_sent: u64,
}

pub struct NotificationsView {
    /// The pending notifications, oldest first.
    pub queue: Seq<NotificationView>,
    pub total_sent: u64,
}

impl View for Notifications {
    type V = NotificationsView;

    closed spec fn view(&self) -> NotificationsView {
        NotificationsView { queue: notification_views(self.queue@), total_sent: self.total_sent }
    }
}

impl Default for Notifications {
    fn default() -> (notifications: Notifications)
        ensures
            notifications@ == (NotificationsView { queue: Seq::empty(), total_sent: 0 }),
    {
        let notifications = Notifications { queue: VecDeque::new(), total_sent: 0 };
        assert(notifications@.queue =~= Seq::<NotificationView>::empty());
        notifications
    }
}

impl Notifications {
    /// Appends a notification behind all that wait.
    pub fn enqueue(&mut self, notification: Notification)
        ensures
            final(self)@ == (NotificationsView {
                queue: old(self)@.queue.push(notification@),
                ..old(self)@
            }),
    {
        self.queue.push_back(notification);
        assert(notification_views(self.queue@) =~= notification_views(old(self).queue@).push(
            notification@,
        ));
    }

    /// Takes the oldest waiting notification, if there is one.
    pub fn dequeue(&mut self) -> (taken: Option<Notification>)
        ensures
            match taken {
                Some(notification) => {
                    &&& old(self)@.queue.len() > 0
                    &&& notification@ == old(self)@.queue[0]
                    &&& final(self)@ == (NotificationsView {
                        queue: old(self)@.queue.skip(1),
                        ..old(self)@
                    })
                },
                None => old(self)@.queue.len() == 0 && final(self)@ == old(self)@,
            },
    {
        let taken = self.queue.pop_front();
        assert(taken is Some ==> notification_views(self.queue@) =~= notification_views(
            old(self).queue@,
        ).skip(1));
        taken
    }

    /// Counts one delivered notification.
    pub fn mark_sent(&mut self)
        requires
            old(self)@.total_sent < u64::MAX,
        ensures
            final(self)@ == (NotificationsView {
                total_sent: (old(self)@.total_sent + 1) as u64,
                ..old(self)@
            }),
    {
        self.total_sent += 1;
    }

    pub fn total_sent(&self) -> (count: u64)
        ensures
            count == self@.total_sent,
    {
        self.total_sent
    }

    pub fn queue_len(&self) -> (len: usize)
        ensures
            len == self@.queue.len(),
    {
        self.queue.len()
    }

    pub fn is_queue_empty(&self) -> (empty: bool)
        ensures
            empty == (self@.queue.len() == 0),
    {
        self.queue.len() == 0
    }
}

} // verus!
