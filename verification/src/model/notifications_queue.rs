//! A bare first-in, first-out queue of notifications.

use std::collections::VecDeque;
use vstd::prelude::*;
use crate::model::notifications::{notification_views, Notification, NotificationView};

verus! {

pub struct NotificationsQueue {
    queue: VecDeque<Notification>,
}

impl View for NotificationsQueue {
    type V = Seq<NotificationView>;

    /// The waiting notifications, oldest first.
    closed spec fn view(&self) -> Seq<NotificationView> {
        notification_views(self.queue@)
    }
}

impl Default for NotificationsQueue {
    fn default() -> (queue: NotificationsQueue)
        ensures
            queue@ == Seq::<NotificationView>::empty(),
    {
        let queue = NotificationsQueue { queue: VecDeque::new() };
        assert(queue@ =~= Seq::<NotificationView>::empty());
        queue
    }
}

impl NotificationsQueue {
    pub fn add(&mut self, notification: Notification)
        ensures
            final(self)@ == old(self)@.push(notification@),
    {
        self.queue.push_back(notification);
        assert(notification_views(self.queue@) =~= notification_views(old(self).queue@).push(
            notification@,
        ));
    }

    pub fn take(&mut self) -> (taken: Option<Notification>)
        ensures
            match taken {
                Some(notification) => old(self)@.len() > 0 && notification@ == old(self)@[0]
                    && final(self)@ == old(self)@.skip(1),
                None => old(self)@.len() == 0 && final(self)@ == old(self)@,
            },
    {
        let taken = self.queue.pop_front();
        assert(taken is Some ==> notification_views(self.queue@) =~= notification_views(
            old(self).queue@,
        ).skip(1));
        taken
    }

    pub fn is_empty(&self) -> (empty: bool)
        ensures
            empty == (self@.len() == 0),
    {
        self.queue.len() == 0
    }
}

} // verus!
