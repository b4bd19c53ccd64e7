//! A relay between append-only transaction ledgers and the services that
//! follow accounts on them: it keeps one sync cursor per ledger, turns the
//! blocks it is handed into notifications for the subscribers of the accounts
//! they touch, and hands those notifications out in bounded batches.
//!
//! The engine itself never waits on a remote call. Each operation that needs
//! one is cut at the call: a function decides what to ask, the caller asks,
//! and a second function takes the answer and changes the state.

use vstd::prelude::*;
use crate::env::Environment;
use crate::model::notifications::{Notifications, NotificationsView};
use crate::model::subscriptions::{subscriptions_valid, Subscriptions, SubscriptionsView};
use crate::model::token_data::{TokenData, TokenDataView, TokenMetrics};
use crate::types::{Cycles, Principal, TimestampMillis, Version};
use crate::unique::{
    contains_principal, extend_unique_principals, lemma_extend_unique_no_duplicates,
    lemma_extend_unique_to_set,
};

pub mod block;
pub mod env;
pub mod guards;
pub mod lifecycle;
pub mod model;
pub mod queries;
pub mod types;
pub mod unique;
pub mod updates;

verus! {

/// Everything the engine remembers.
pub struct Data {
    pub(crate) admins: Vec<Principal>,
    pub(crate) notification_method_name: String,
    pub(crate) tokens: Vec<TokenData>,
    pub(crate) subscriptions: Subscriptions,
    pub(crate) notifications: Notifications,
    pub(crate) test_mode: bool,
}

pub struct DataView {
    pub admins: Set<Principal>,
    /// The method that a push calls on a subscriber.
    pub notification_method_name: Seq<char>,
    /// The tracked ledgers, in the order in which they were added.
    pub tokens: Seq<TokenDataView>,
    pub subscriptions: SubscriptionsView,
    pub notifications: NotificationsView,
    pub test_mode: bool,
}

/// The views of a sequence of tracked ledgers, in the same order.
pub open spec fn token_views(tokens: Seq<TokenData>) -> Seq<TokenDataView> {
    tokens.map_values(|t: TokenData| t@)
}

/// No two ledgers are tracked under the same symbol.
pub open spec fn symbols_distinct(tokens: Seq<TokenDataView>) -> bool {
    forall|i: int, j: int|
        0 <= i < j < tokens.len() ==> (#[trigger] tokens[i]).token_symbol != (
        #[trigger] tokens[j]).token_symbol
}

/// Some ledger is tracked under `symbol`.
pub open spec fn has_symbol(tokens: Seq<TokenDataView>, symbol: Seq<char>) -> bool {
    exists|i: int| 0 <= i < tokens.len() && (#[trigger] tokens[i]).token_symbol == symbol
}

/// Some tracked ledger lives at `ledger_canister_id`.
pub open spec fn has_ledger(tokens: Seq<TokenDataView>, ledger_canister_id: Principal) -> bool {
    exists|i: int|
        0 <= i < tokens.len() && (#[trigger] tokens[i]).ledger_canister_id == ledger_canister_id
}

impl DataView {
    /// What holds of the engine's memory at all times.
    pub open spec fn valid(self) -> bool {
        &&& self.admins.finite()
        &&& symbols_distinct(self.tokens)
        &&& subscriptions_valid(self.subscriptions)
    }
}

impl View for Data {
    type V = DataView;

    open(crate) spec fn view(&self) -> DataView {
        DataView {
            admins: self.admins@.to_set(),
            notification_method_name: self.notification_method_name@,
            tokens: token_views(self.tokens@),
            subscriptions: self.subscriptions@,
            notifications: self.notifications@,
            test_mode: self.test_mode,
        }
    }
}

/// A snapshot of the engine for whoever watches it.
#[derive(Clone, Debug, PartialEq, Eq)]
pub struct Metrics {
    pub now: TimestampMillis,
    pub memory_used: u64,
    pub cycles_balance: Cycles,
    pub wasm_version: Version,
    pub tokens: Vec<TokenMetrics>,
    pub subscriptions: u64,
    pub notifications_sent: u64,
    pub notifications_queued: u64,
    pub test_mode: bool,
}

impl DataView {
    /// Whether `metrics` reports this memory; the clock reading and the
    /// cycles balance are the environment's and are not looked at.
    pub open spec fn reported_by(self, metrics: Metrics, wasm_version: Version) -> bool {
        &&& metrics.memory_used == 0
        &&& metrics.wasm_version == wasm_version
        &&& metrics.tokens@.len() == self.tokens.len()
        &&& forall|i: int|
            0 <= i < self.tokens.len() ==> (#[trigger] self.tokens[i]).reported_by(
                metrics.tokens@[i],
            )
        &&& metrics.subscriptions == self.subscriptions.dom().len()
        &&& metrics.notifications_sent == self.notifications.total_sent
        &&& metrics.notifications_queued == self.notifications.queue.len()
        &&& metrics.test_mode == self.test_mode
    }
}

impl Data {
    /// The representation is consistent; every `Data` that this crate hands
    /// out is.
    pub open(crate) spec fn wf(&self) -> bool {
        &&& self.admins@.no_duplicates()
        &&& symbols_distinct(token_views(self.tokens@))
        &&& self.subscriptions.wf()
    }

    /// A consistent memory has a valid view.
    pub proof fn lemma_wf_valid(&self)
        requires
            self.wf(),
        ensures
            self@.valid(),
    {
        self.subscriptions.lemma_wf_valid();
        vstd::seq_lib::seq_to_set_is_finite(self.admins@);
    }

    /// An engine that tracks no ledger yet, run by `admins`.
    pub fn new(admins: Vec<Principal>, notification_method_name: String, test_mode: bool) -> (data:
        Data)
        ensures
            data.wf(),
            data@ == (DataView {
                admins: admins@.to_set(),
                notification_method_name: notification_method_name@,
                tokens: Seq::empty(),
                subscriptions: Map::empty(),
                notifications: NotificationsView { queue: Seq::empty(), total_sent: 0 },
                test_mode,
            }),
    {
        let mut distinct: Vec<Principal> = Vec::new();
        extend_unique_principals(&mut distinct, &admins);
        proof {
            lemma_extend_unique_no_duplicates(Seq::<Principal>::empty(), admins@);
            lemma_extend_unique_to_set(Seq::<Principal>::empty(), admins@);
            assert(Seq::<Principal>::empty().to_set() =~= Set::<Principal>::empty());
            assert(distinct@.to_set() =~= admins@.to_set());
        }
        let data = Data {
            admins: distinct,
            notification_method_name,
            tokens: Vec::new(),
            subscriptions: Subscriptions::default(),
            notifications: Notifications::default(),
            test_mode,
        };
        assert(data@.tokens =~= Seq::<TokenDataView>::empty());
        data
    }

    /// Where the ledger tracked under `token_symbol` stands, if there is one.
    pub fn token_position(&self, token_symbol: &str) -> (found: Option<usize>)
        ensures
            match found {
                Some(i) => i < self@.tokens.len() && self@.tokens[i as int].token_symbol
                    == token_symbol@,
                None => !has_symbol(self@.tokens, token_symbol@),
            },
    {
        let wanted = token_symbol.to_string();
        let mut i: usize = 0;
        while i < self.tokens.len()
            invariant
                i <= self.tokens.len(),
                wanted@ == token_symbol@,
                forall|j: int| 0 <= j < i ==> (#[trigger] self@.tokens[j]).token_symbol != wanted@,
            decreases self.tokens.len() - i,
        {
            if self.tokens[i].has_symbol(&wanted) {
                return Some(i);
            }
            i += 1;
        }
        None
    }

    /// The ledger tracked under `token_symbol`, if there is one.
    pub fn token(&self, token_symbol: &str) -> (found: Option<&TokenData>)
        ensures
            match found {
                Some(token) => exists|i: int|
                    0 <= i < self@.tokens.len() && #[trigger] self@.tokens[i] == token@
                        && token@.token_symbol == token_symbol@,
                None => !has_symbol(self@.tokens, token_symbol@),
            },
    {
        match self.token_position(token_symbol) {
            Some(i) => {
                assert(self@.tokens[i as int] == self.tokens@[i as int]@);
                Some(&self.tokens[i])
            },
            None => None,
        }
    }

    pub fn subscriptions(&self) -> (subscriptions: &Subscriptions)
        ensures
            subscriptions@ == self@.subscriptions,
            self.wf() ==> subscriptions.wf(),
    {
        &self.subscriptions
    }

    pub fn notifications(&self) -> (notifications: &Notifications)
        ensures
            notifications@ == self@.notifications,
    {
        &self.notifications
    }

    /// Whether `principal` may administer the engine.
    pub fn is_admin(&self, principal: &Principal) -> (admin: bool)
        ensures
            admin == self@.admins.contains(*principal),
    {
        contains_principal(&self.admins, principal)
    }

    /// The snapshot for a given clock reading and cycles balance.
    pub fn metrics(&self, now: TimestampMillis, cycles_balance: Cycles, wasm_version: Version) -> (metrics: Metrics)
        requires
            self.wf(),
        ensures
            metrics.now == now,
            metrics.cycles_balance == cycles_balance,
            self@.reported_by(metrics, wasm_version),
    {
        let mut tokens: Vec<TokenMetrics> = Vec::new();
        let mut i: usize = 0;
        while i < self.tokens.len()
            invariant
                i <= self.tokens.len(),
                tokens@.len() == i,
                forall|j: int| 0 <= j < i ==> (#[trigger] self@.tokens[j]).reported_by(tokens@[j]),
            decreases self.tokens.len() - i,
        {
            let token_metrics = self.tokens[i].metrics();
            tokens.push(token_metrics);
            i += 1;
        }
        Metrics {
            now,
            memory_used: 0,
            cycles_balance,
            wasm_version,
            tokens,
            subscriptions: self.subscriptions.len() as u64,
            notifications_sent: self.notifications.total_sent(),
            notifications_queued: self.notifications.queue_len() as u64,
            test_mode: self.test_mode,
        }
    }
}

/// The engine's memory together with the environment it runs in.
pub struct State {
    pub env: Box<dyn Environment>,
    pub data: Data,
}

impl State {
    pub fn new(env: Box<dyn Environment>, data: Data) -> (state: State)
        ensures
            state.data == data,
    {
        State { env, data }
    }

    /// The snapshot as of now: the clock and the cycles balance are read
    /// from the environment, the rest reports the memory.
    pub fn metrics(&self, wasm_version: Version) -> (metrics: Metrics)
        requires
            self.data.wf(),
        ensures
            self.data@.reported_by(metrics, wasm_version),
    {
        let now = self.env.now();
        let cycles_balance = self.env.cycles_balance();
        self.data.metrics(now, cycles_balance, wasm_version)
    }
}

} // verus!
