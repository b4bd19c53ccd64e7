//! Setting the engine up.

use vstd::prelude::*;
use crate::model::notifications::NotificationsView;
use crate::types::{Principal, Version};
use crate::{Data, DataView};

verus! {

#[derive(Clone, Debug, PartialEq, Eq)]
pub struct Args {
    pub admins: Vec<Principal>,
    pub notification_method_name: Option<String>,
    pub wasm_version: Version,
    pub test_mode: bool,
}

/// The method that a push calls on a subscriber where the set-up names none.
pub open spec fn default_notification_method_name() -> Seq<char> {
    "notify_transaction"@
}

/// The engine's memory at set-up: the administrators of the request, no
/// ledger, no subscription, nothing queued and nothing sent.
pub fn init(args: Args) -> (data: Data)
    ensures
        data.wf(),
        data@ == (DataView {
            admins: args.admins@.to_set(),
            notification_method_name: match args.notification_method_name {
                Some(name) => name@,
                None => default_notification_method_name(),
            },
            tokens: Seq::empty(),
            subscriptions: Map::empty(),
            notifications: NotificationsView { queue: Seq::empty(), total_sent: 0 },
            test_mode: args.test_mode,
        }),
{
    let notification_method_name = match args.notification_method_name {
        Some(name) => name,
        None => "notify_transaction".to_string(),
    };
    Data::new(args.admins, notification_method_name, args.test_mode)
}

} // verus!
