//! Subscribing services to accounts.

use vstd::prelude::*;
use crate::block::AccountIdentifier;
use crate::model::subscriptions::{add_subscribers, SubscriptionsView};
use crate::types::CanisterId;
use crate::{DataView, State};

verus! {

/// The services that want to hear about one account.
#[derive(Clone, Debug, PartialEq, Eq)]
pub struct Subscription {
    pub account_identifier: AccountIdentifier,
    pub canister_ids: Vec<CanisterId>,
}

#[derive(Clone, Debug, PartialEq, Eq)]
pub struct Args {
    pub subscriptions: Vec<Subscription>,
}

#[derive(Clone, Copy, Debug, PartialEq, Eq)]
pub enum Response {
    Success,
}

/// The registry after each of `subscriptions` was added, one after the other.
pub open spec fn subscribe_all(m: SubscriptionsView, subscriptions: Seq<Subscription>) -> SubscriptionsView
    decreases subscriptions.len(),
{
    if subscriptions.len() == 0 {
        m
    } else {
        add_subscribers(
            subscribe_all(m, subscriptions.drop_last()),
            subscriptions.last().account_identifier,
            subscriptions.last().canister_ids@,
        )
    }
}

/// Adds every subscription of the request to the registry.
pub fn subscribe_impl(args: Args, state: &mut State) -> (response: Response)
    requires
        old(state).data.wf(),
    ensures
        final(state).data.wf(),
        response == Response::Success,
        final(state).data@ == (DataView {
            subscriptions: subscribe_all(old(state).data@.subscriptions, args.subscriptions@),
            ..old(state).data@
        }),
{
    let ghost subscriptions = args.subscriptions@;
    proof {
        assert(subscriptions.take(0) =~= Seq::<Subscription>::empty());
    }
    for subscription in it: args.subscriptions
        invariant
            it.seq() == subscriptions,
            state.data.wf(),
            state.data@ == (DataView {
                subscriptions: subscribe_all(
                    old(state).data@.subscriptions,
                    subscriptions.take(it.index() as int),
                ),
                ..old(state).data@
            }),
    {
        proof {
            let i = it.index() as int;
            assert(subscriptions.take(i + 1).drop_last() =~= subscriptions.take(i));
            assert(subscriptions.take(i + 1).last() == subscriptions[i]);
        }
        state.data.subscriptions.add(subscription.account_identifier, subscription.canister_ids);
    }
    proof {
        assert(subscriptions.take(subscriptions.len() as int) =~= subscriptions);
    }
    Response::Success
}

} // verus!
