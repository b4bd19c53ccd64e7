//! The subscription registry: which services want to hear about which account.

use vstd::prelude::*;
use crate::block::AccountIdentifier;
use crate::types::CanisterId;
use crate::unique::{
    extend_unique, extend_unique_principals, lemma_extend_unique_idempotent,
    lemma_extend_unique_no_duplicates, lemma_extend_unique_prefix, lemma_extend_unique_to_set,
};

verus! {

/// The registry as a map from an account to its subscribers, each once, in
/// the order in which they subscribed.
pub type SubscriptionsView = Map<AccountIdentifier, Seq<CanisterId>>;

/// The subscribers of `account`, none if the registry does not know it.
pub open spec fn subscribers_of(m: SubscriptionsView, account: AccountIdentifier) -> Seq<
    CanisterId,
> {
    if m.contains_key(account) {
        m[account]
    } else {
        Seq::empty()
    }
}

/// The set of services subscribed to `account`; empty if there is none.
pub open spec fn resolve(m: SubscriptionsView, account: AccountIdentifier) -> Set<CanisterId> {
    subscribers_of(m, account).to_set()
}

/// The registry after `canister_ids` have subscribed to `account`: those not
/// yet subscribed are appended; an account without any subscriber gets no entry.
pub open spec fn add_subscribers(
    m: SubscriptionsView,
    account: AccountIdentifier,
    canister_ids: Seq<CanisterId>,
) -> SubscriptionsView {
    let merged = extend_unique(subscribers_of(m, account), canister_ids);
    if merged.len() == 0 {
        m
    } else {
        m.insert(account, merged)
    }
}

/// Every account of the registry has at least one subscriber and none twice.
pub open spec fn subscriptions_valid(m: SubscriptionsView) -> bool {
    &&& m.dom().finite()
    &&& forall|account: AccountIdentifier| #[trigger]
        m.contains_key(account) ==> m[account].len() > 0 && m[account].no_duplicates()
}

struct AccountSubscribers {
    account: AccountIdentifier,
    canister_ids: Vec<CanisterId>,
}

pub struct Subscriptions {
    subscriptions: Vec<AccountSubscribers>,
}

spec fn has_account(entries: Seq<AccountSubscribers>, account: AccountIdentifier) -> bool {
    exists|i: int| 0 <= i < entries.len() && (#[trigger] entries[i]).account == account
}

spec fn entry_index(entries: Seq<AccountSubscribers>, account: AccountIdentifier) -> int {
    choose|i: int| 0 <= i < entries.len() && (#[trigger] entries[i]).account == account
}

spec fn entries_view(entries: Seq<AccountSubscribers>) -> SubscriptionsView {
    Map::new(
        |account: AccountIdentifier| has_account(entries, account),
        |account: AccountIdentifier| entries[entry_index(entries, account)].canister_ids@,
    )
}

spec fn entries_wf(entries: Seq<AccountSubscribers>) -> bool {
    &&& forall|i: int, j: int|
        0 <= i < j < entries.len() ==> (#[trigger] entries[i]).account != (
        #[trigger] entries[j]).account
    &&& forall|i: int|
        0 <= i < entries.len() ==> (#[trigger] entries[i]).canister_ids@.len() > 0
            && entries[i].canister_ids@.no_duplicates()
}

proof fn lemma_entries_lookup(entries: Seq<AccountSubscribers>, i: int)
    requires
        entries_wf(entries),
        0 <= i < entries.len(),
    ensures
        entries_view(entries).contains_key(entries[i].account),
        entries_view(entries)[entries[i].account] == entries[i].canister_ids@,
{
    let account = entries[i].account;
    assert(has_account(entries, account));
    let k = entry_index(entries, account);
    assert(k == i) by {
        if k < i {
            assert(entries[k].account != entries[i].account);
        }
        if i < k {
            assert(entries[i].account != entries[k].account);
        }
    }
}

proof fn lemma_entries_push(entries: Seq<AccountSubscribers>, entry: AccountSubscribers)
    requires
        entries_wf(entries),
        !has_account(entries, entry.account),
        entry.canister_ids@.len() > 0,
        entry.canister_ids@.no_duplicates(),
    ensures
        entries_wf(entries.push(entry)),
        entries_view(entries.push(entry)) == entries_view(entries).insert(
            entry.account,
            entry.canister_ids@,
        ),
{
    let pushed = entries.push(entry);
    assert forall|i: int, j: int| 0 <= i < j < pushed.len() implies (#[trigger] pushed[i]).account
        != (#[trigger] pushed[j]).account by {
        if j == entries.len() {
            assert(entries[i].account != entry.account);
        } else {
            assert(entries[i].account != entries[j].account);
        }
    }
    assert(entries_wf(pushed));
    let expected = entries_view(entries).insert(entry.account, entry.canister_ids@);
    assert forall|account: AccountIdentifier| expected.contains_key(account) implies #[trigger]
        entries_view(pushed).contains_key(account) && entries_view(pushed)[account]
        == expected[account] by {
        if account == entry.account {
            assert(pushed[entries.len() as int].account == account);
            lemma_entries_lookup(pushed, entries.len() as int);
        } else {
            let i = entry_index(entries, account);
            assert(pushed[i] == entries[i]);
            lemma_entries_lookup(entries, i);
            lemma_entries_lookup(pushed, i);
        }
    }
    assert forall|account: AccountIdentifier| #[trigger]
        entries_view(pushed).contains_key(account) implies expected.contains_key(account) by {
        let i = entry_index(pushed, account);
        if i < entries.len() {
            assert(entries[i].account == account);
        }
    }
    assert(entries_view(pushed) =~= expected);
}

proof fn lemma_entries_update(
    entries: Seq<AccountSubscribers>,
    i: int,
    entry: AccountSubscribers,
)
    requires
        entries_wf(entries),
        0 <= i < entries.len(),
        entry.account == entries[i].account,
        entry.canister_ids@.len() > 0,
        entry.canister_ids@.no_duplicates(),
    ensures
        entries_wf(entries.update(i, entry)),
        entries_view(entries.update(i, entry)) == entries_view(entries).insert(
            entry.account,
            entry.canister_ids@,
        ),
{
    let updated = entries.update(i, entry);
    assert forall|a: int, b: int| 0 <= a < b < updated.len() implies (#[trigger] updated[a]).account
        != (#[trigger] updated[b]).account by {
        assert(updated[a].account == entries[a].account);
        assert(updated[b].account == entries[b].account);
    }
    assert(entries_wf(updated));
    let expected = entries_view(entries).insert(entry.account, entry.canister_ids@);
    assert forall|account: AccountIdentifier| expected.contains_key(account) implies #[trigger]
        entries_view(updated).contains_key(account) && entries_view(updated)[account]
        == expected[account] by {
        if account == entry.account {
            lemma_entries_lookup(updated, i);
        } else {
            let k = entry_index(entries, account);
            assert(updated[k] == entries[k]);
            lemma_entries_lookup(entries, k);
            lemma_entries_lookup(updated, k);
        }
    }
    assert forall|account: AccountIdentifier| #[trigger]
        entries_view(updated).contains_key(account) implies expected.contains_key(account) by {
        let k = entry_index(updated, account);
        assert(entries[k].account == account);
    }
    assert(entries_view(updated) =~= expected);
}

proof fn lemma_entries_count(entries: Seq<AccountSubscribers>)
    requires
        entries_wf(entries),
    ensures
        entries_view(entries).dom().finite(),
        entries_view(entries).dom().len() == entries.len(),
    decreases entries.len(),
{
    if entries.len() == 0 {
        assert(entries_view(entries).dom() =~= Set::<AccountIdentifier>::empty());
    } else {
        let front = entries.drop_last();
        let last = entries.last();
        assert forall|i: int, j: int| 0 <= i < j < front.len() implies (#[trigger] front[i]).account
            != (#[trigger] front[j]).account by {
            assert(entries[i].account != entries[j].account);
        }
        assert forall|i: int| 0 <= i < front.len() implies (#[trigger] front[i]).canister_ids@.len()
            > 0 && front[i].canister_ids@.no_duplicates() by {
            assert(front[i] == entries[i]);
        }
        assert(entries_wf(front));
        lemma_entries_count(front);
        if has_account(front, last.account) {
            let i = entry_index(front, last.account);
            assert(entries[i].account != entries[entries.len() - 1].account);
        }
        lemma_entries_push(front, last);
        assert(front.push(last) =~= entries);
        assert(entries_view(entries).dom() =~= entries_view(front).dom().insert(last.account));
    }
}

impl View for Subscriptions {
    type V = SubscriptionsView;

    closed spec fn view(&self) -> SubscriptionsView {
        entries_view(self.subscriptions@)
    }
}

impl Default for Subscriptions {
    fn default() -> (subscriptions: Subscriptions)
        ensures
            subscriptions.wf(),
            subscriptions@ == Map::<AccountIdentifier, Seq<CanisterId>>::empty(),
    {
        let subscriptions = Subscriptions { subscriptions: Vec::new() };
        assert(subscriptions@ =~= Map::<AccountIdentifier, Seq<CanisterId>>::empty());
        subscriptions
    }
}

impl Subscriptions {
    /// The registry's representation is consistent: one entry per account.
    pub closed spec fn wf(&self) -> bool {
        entries_wf(self.subscriptions@)
    }

    /// A consistent registry stands for a valid map.
    pub proof fn lemma_wf_valid(&self)
        requires
            self.wf(),
        ensures
            subscriptions_valid(self@),
    {
        lemma_entries_count(self.subscriptions@);
        assert forall|account: AccountIdentifier| #[trigger]
            self@.contains_key(account) implies self@[account].len() > 0
            && self@[account].no_duplicates() by {
            let i = entry_index(self.subscriptions@, account);
            lemma_entries_lookup(self.subscriptions@, i);
        }
    }

    fn position(&self, account_identifier: &AccountIdentifier) -> (found: Option<usize>)
        requires
            self.wf(),
        ensures
            match found {
                Some(i) => i < self.subscriptions@.len() && self.subscriptions@[i as int].account
                    == *account_identifier,
                None => !has_account(self.subscriptions@, *account_identifier),
            },
    {
        let mut i: usize = 0;
        while i < self.subscriptions.len()
            invariant
                i <= self.subscriptions.len(),
                forall|j: int| 0 <= j < i ==> (#[trigger] self.subscriptions@[j]).account
                    != *account_identifier,
            decreases self.subscriptions.len() - i,
        {
            if self.subscriptions[i].account.same(account_identifier) {
                return Some(i);
            }
            i += 1;
        }
        None
    }

    /// The subscribers of an account, in subscription order, if it has any.
    pub fn get(&self, account_identifier: &AccountIdentifier) -> (found: Option<&Vec<CanisterId>>)
        requires
            self.wf(),
        ensures
            match found {
                Some(canister_ids) => self@.contains_key(*account_identifier) && canister_ids@
                    == self@[*account_identifier],
                None => !self@.contains_key(*account_identifier),
            },
    {
        match self.position(account_identifier) {
            Some(i) => {
                proof {
                    lemma_entries_lookup(self.subscriptions@, i as int);
                }
                Some(&self.subscriptions[i].canister_ids)
            },
            None => None,
        }
    }

    /// Subscribes `canister_ids` to an account. Subscribing a service that is
    /// subscribed already changes nothing.
    pub fn add(&mut self, account_identifier: AccountIdentifier, canister_ids: Vec<CanisterId>)
        requires
            old(self).wf(),
        ensures
            final(self).wf(),
            final(self)@ == add_subscribers(old(self)@, account_identifier, canister_ids@),
    {
        match self.position(&account_identifier) {
            Some(i) => {
                let ghost before = self.subscriptions@;
                proof {
                    lemma_entries_lookup(before, i as int);
                    lemma_extend_unique_no_duplicates(
                        before[i as int].canister_ids@,
                        canister_ids@,
                    );
                    lemma_extend_unique_prefix(before[i as int].canister_ids@, canister_ids@);
                }
                extend_unique_principals(&mut self.subscriptions[i].canister_ids, &canister_ids);
                proof {
                    assert(self.subscriptions@ =~= before.update(i as int, self.subscriptions@[i as int]));
                    lemma_entries_update(before, i as int, self.subscriptions@[i as int]);
                }
            },
            None => {
                let mut merged: Vec<CanisterId> = Vec::new();
                extend_unique_principals(&mut merged, &canister_ids);
                if merged.len() > 0 {
                    let entry = AccountSubscribers { account: account_identifier, canister_ids: merged };
                    proof {
                        lemma_extend_unique_no_duplicates(Seq::<CanisterId>::empty(), canister_ids@);
                        lemma_entries_push(self.subscriptions@, entry);
                    }
                    self.subscriptions.push(entry);
                }
            },
        }
    }

    /// The number of accounts that have at least one subscriber.
    pub fn len(&self) -> (count: usize)
        requires
            self.wf(),
        ensures
            count == self@.dom().len(),
    {
        proof {
            lemma_entries_count(self.subscriptions@);
        }
        self.subscriptions.len()
    }
}

/// Subscribing the same services to the same account a second time leaves
/// the registry as the first time left it, and so every resolved set.
pub proof fn lemma_subscribe_idempotent(
    m: SubscriptionsView,
    account: AccountIdentifier,
    canister_ids: Seq<CanisterId>,
)
    ensures
        add_subscribers(add_subscribers(m, account, canister_ids), account, canister_ids)
            == add_subscribers(m, account, canister_ids),
        forall|other: AccountIdentifier|
            resolve(
                add_subscribers(add_subscribers(m, account, canister_ids), account, canister_ids),
                other,
            ) == #[trigger] resolve(add_subscribers(m, account, canister_ids), other),
{
    let current = subscribers_of(m, account);
    let once = add_subscribers(m, account, canister_ids);
    lemma_extend_unique_idempotent(current, canister_ids);
    lemma_extend_unique_prefix(current, canister_ids);
    if extend_unique(current, canister_ids).len() == 0 {
        assert(current.len() == 0);
        assert(subscribers_of(once, account) == current);
    } else {
        assert(subscribers_of(once, account) == extend_unique(current, canister_ids));
        assert(add_subscribers(once, account, canister_ids) =~= once);
    }
}

/// After subscribing, an account resolves to its earlier subscribers
/// together with the new ones, and every other account resolves as before.
pub proof fn lemma_subscribe_resolves(
    m: SubscriptionsView,
    account: AccountIdentifier,
    canister_ids: Seq<CanisterId>,
    other: AccountIdentifier,
)
    ensures
        resolve(add_subscribers(m, account, canister_ids), account) == resolve(m, account).union(
            canister_ids.to_set(),
        ),
        other != account ==> resolve(add_subscribers(m, account, canister_ids), other) == resolve(
            m,
            other,
        ),
        other != account ==> subscribers_of(add_subscribers(m, account, canister_ids), other)
            == subscribers_of(m, other),
{
    let current = subscribers_of(m, account);
    lemma_extend_unique_to_set(current, canister_ids);
    lemma_extend_unique_prefix(current, canister_ids);
    if extend_unique(current, canister_ids).len() == 0 {
        assert(current =~= Seq::<CanisterId>::empty());
        assert(canister_ids.len() == 0);
        assert(extend_unique(current, canister_ids) == current);
    }
}

/// Subscribing keeps a valid registry valid.
pub proof fn lemma_subscribe_valid(
    m: SubscriptionsView,
    account: AccountIdentifier,
    canister_ids: Seq<CanisterId>,
)
    requires
        subscriptions_valid(m),
    ensures
        subscriptions_valid(add_subscribers(m, account, canister_ids)),
{
    let current = subscribers_of(m, account);
    if m.contains_key(account) {
        assert(current.no_duplicates());
    }
    lemma_extend_unique_no_duplicates(current, canister_ids);
}

} // verus!
