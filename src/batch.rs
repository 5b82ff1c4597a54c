//! The batch coordinator: runs the three extractors over every transaction
//! of a batch and gathers the events, in transaction order.

use vstd::prelude::*;
use crate::text::contains;
use crate::events::{
    lemma_untagged_lines_give_no_event, INITIALIZE_TAG,
    initialize_outcome, initialize_result_view, new_reward_result_view, period_outcome,
    process_initialize, process_new_reward, process_restart_or_add, restart_result_view, texts,
    InitializeTransaction, InitializeView, NewRewardTransaction, PeriodView,
    RestartOrAddTransaction, NEW_REWARD_PREFIX, NEW_REWARD_TAG, RESTART_PREFIX, RESTART_TAG,
};

verus! {

/// Error of a transaction that lacks its signature, its account list or its
/// log lines.
pub const MISSING_METADATA: &'static str = "transaction lacks its signature, accounts or logs";

/// A decoded transaction as the chain delivers it.
pub struct Transaction {
    /// Raw signatures; the first one identifies the transaction.
    pub signatures: Vec<Vec<u8>>,
    /// Raw account addresses in instruction order; `None` when the message
    /// is missing.
    pub account_keys: Option<Vec<Vec<u8>>>,
    /// Program log lines in execution order; `None` when the execution
    /// metadata is missing.
    pub log_messages: Option<Vec<String>>,
}

/// One event read from a transaction.
#[derive(Clone, Debug, PartialEq, Eq)]
pub enum FarmEvent {
    Initialize(InitializeTransaction),
    RestartOrAdd(RestartOrAddTransaction),
    NewReward(NewRewardTransaction),
}

/// Abstract value of a [`FarmEvent`].
pub enum FarmEventView {
    Initialize(InitializeView),
    RestartOrAdd(PeriodView),
    NewReward(PeriodView),
}

impl View for FarmEvent {
    type V = FarmEventView;

    open spec fn view(&self) -> FarmEventView {
        match self {
            FarmEvent::Initialize(e) => FarmEventView::Initialize(e@),
            FarmEvent::RestartOrAdd(e) => FarmEventView::RestartOrAdd(e@),
            FarmEvent::NewReward(e) => FarmEventView::NewReward(e@),
        }
    }
}

/// The base58 text of some bytes.
pub uninterp spec fn base58_of(bytes: Seq<u8>) -> Seq<char>;

/// Relies on `bs58::encode(..).into_string()`: the base58 text (Bitcoin
/// alphabet) of the bytes, which depends on the bytes alone.
#[verifier::external_body]
fn base58(bytes: &Vec<u8>) -> (r: String)
    ensures
        r@ == base58_of(bytes@),
{
    bs58::encode(bytes).into_string()
}

/// The base58 text of each address, in order.
pub open spec fn encoded_accounts(keys: Seq<Vec<u8>>) -> Seq<Seq<char>> {
    keys.map_values(|k: Vec<u8>| base58_of(k@))
}

/// The abstract values of some events, in order.
pub open spec fn event_views(events: Seq<FarmEvent>) -> Seq<FarmEventView> {
    events.map_values(|e: FarmEvent| e@)
}

/// The events that one transaction contributes, in extractor order
/// (initialize, restart-or-add, new reward), or an error when its metadata
/// is missing or an extractor fails.
pub open spec fn transaction_events(tx: Transaction) -> Result<Seq<FarmEventView>, ()> {
    if tx.signatures.len() == 0 || tx.account_keys is None || tx.log_messages is None {
        Err(())
    } else {
        let signature = base58_of(tx.signatures@[0]@);
        let accounts = encoded_accounts(tx.account_keys->Some_0@);
        let lines = texts(tx.log_messages->Some_0@);
        let init = initialize_outcome(lines, signature, accounts);
        let restart = period_outcome(lines, signature, accounts, RESTART_TAG@, RESTART_PREFIX@);
        let reward = period_outcome(lines, signature, accounts, NEW_REWARD_TAG@, NEW_REWARD_PREFIX@);
        match (init, restart, reward) {
            (Ok(i), Ok(r), Ok(n)) => Ok(
                match i {
                    Some(e) => seq![FarmEventView::Initialize(e)],
                    None => Seq::empty(),
                } + match r {
                    Some(e) => seq![FarmEventView::RestartOrAdd(e)],
                    None => Seq::empty(),
                } + match n {
                    Some(e) => seq![FarmEventView::NewReward(e)],
                    None => Seq::empty(),
                },
            ),
            _ => Err(()),
        }
    }
}

/// The events of a batch, transaction after transaction, or an error when
/// any transaction fails.
pub open spec fn batch_events(txs: Seq<Transaction>) -> Result<Seq<FarmEventView>, ()>
    decreases txs.len(),
{
    if txs.len() == 0 {
        Ok(Seq::empty())
    } else {
        match (batch_events(txs.drop_last()), transaction_events(txs.last())) {
            (Ok(a), Ok(b)) => Ok(a + b),
            _ => Err(()),
        }
    }
}

/// What a batch yields: an error when any transaction fails; absent when no
/// transaction contributes an event; else the events.
pub open spec fn batch_outcome(txs: Seq<Transaction>) -> Result<Option<Seq<FarmEventView>>, ()> {
    match batch_events(txs) {
        Err(_) => Err(()),
        Ok(s) => if s.len() == 0 {
            Ok(None)
        } else {
            Ok(Some(s))
        },
    }
}

/// The abstract outcome of a batch run.
pub open spec fn batch_result_view(r: Result<Option<Vec<FarmEvent>>, String>) -> Result<
    Option<Seq<FarmEventView>>,
    (),
> {
    match r {
        Ok(Some(v)) => Ok(Some(event_views(v@))),
        Ok(None) => Ok(None),
        Err(_) => Err(()),
    }
}

/// The base58 text of each address, in order.
pub fn encode_accounts(keys: &Vec<Vec<u8>>) -> (r: Vec<String>)
    ensures
        texts(r@) == encoded_accounts(keys@),
{
    let mut r: Vec<String> = Vec::new();
    let mut i: usize = 0;
    while i < keys.len()
        invariant
            i <= keys.len(),
            r.len() == i,
            texts(r@) == encoded_accounts(keys@).take(i as int),
        decreases keys.len() - i,
    {
        r.push(base58(&keys[i]));
        assert(texts(r@) =~= encoded_accounts(keys@).take(i + 1));
        i = i + 1;
    }
    assert(encoded_accounts(keys@).take(keys.len() as int) =~= encoded_accounts(keys@));
    r
}

/// Appends the events of one transaction to `out`, in extractor order.
pub fn transaction_events_exec(tx: &Transaction, out: &mut Vec<FarmEvent>) -> (r: Result<(), String>)
    ensures
        r is Err <==> transaction_events(*tx) is Err,
        r is Ok ==> event_views(final(out)@) == event_views(old(out)@) + transaction_events(
            *tx,
        )->Ok_0,
{
    if tx.signatures.len() == 0 {
        return Err(MISSING_METADATA.to_owned());
    }
    let log_messages = match &tx.log_messages {
        Some(l) => l,
        None => {
            return Err(MISSING_METADATA.to_owned());
        },
    };
    let keys = match &tx.account_keys {
        Some(k) => k,
        None => {
            return Err(MISSING_METADATA.to_owned());
        },
    };
    let signature = base58(&tx.signatures[0]);
    let accounts = encode_accounts(keys);
    let init = process_initialize(log_messages, &signature, &accounts);
    let restart = process_restart_or_add(log_messages, &signature, &accounts);
    let reward = process_new_reward(log_messages, &signature, &accounts);
    let ghost before = event_views(out@);
    let ghost i_view = initialize_result_view(init);
    let ghost r_view = restart_result_view(restart);
    let ghost n_view = new_reward_result_view(reward);
    match (init, restart, reward) {
        (Ok(i), Ok(r), Ok(n)) => {
            match i {
                Some(e) => out.push(FarmEvent::Initialize(e)),
                None => {},
            }
            match r {
                Some(e) => out.push(FarmEvent::RestartOrAdd(e)),
                None => {},
            }
            match n {
                Some(e) => out.push(FarmEvent::NewReward(e)),
                None => {},
            }
            assert(event_views(out@) =~= before + transaction_events(*tx)->Ok_0);
            Ok(())
        },
        (Err(e), _, _) => Err(e),
        (_, Err(e), _) => Err(e),
        (_, _, Err(e)) => Err(e),
    }
}

/// Reads every farm event of a batch: for each transaction in order, the
/// initialize, restart-or-add and new-reward events, each when present.
/// Absent when the batch holds no event; an error, with no partial output,
/// when any transaction lacks metadata or accounts.
pub fn map_farm_txns(transactions: &Vec<Transaction>) -> (r: Result<Option<Vec<FarmEvent>>, String>)
    ensures
        batch_result_view(r) == batch_outcome(transactions@),
{
    let mut events: Vec<FarmEvent> = Vec::new();
    let mut i: usize = 0;
    assert(event_views(events@) =~= Seq::empty());
    while i < transactions.len()
        invariant
            i <= transactions.len(),
            batch_events(transactions@.take(i as int)) == Ok::<Seq<FarmEventView>, ()>(
                event_views(events@),
            ),
        decreases transactions.len() - i,
    {
        assert(transactions@.take(i + 1).drop_last() == transactions@.take(i as int));
        match transaction_events_exec(&transactions[i], &mut events) {
            Ok(()) => {},
            Err(e) => {
                proof {
                    lemma_batch_error_persists(transactions@, i as int);
                }
                return Err(e);
            },
        }
        i = i + 1;
    }
    assert(transactions@.take(transactions.len() as int) == transactions@);
    if events.len() == 0 {
        Ok(None)
    } else {
        Ok(Some(events))
    }
}

/// Once a transaction of a batch fails, the whole batch fails.
proof fn lemma_batch_error_persists(txs: Seq<Transaction>, i: int)
    requires
        0 <= i < txs.len(),
        transaction_events(txs[i]) is Err,
    ensures
        batch_events(txs) is Err,
    decreases txs.len(),
{
    if i < txs.len() - 1 {
        lemma_batch_error_persists(txs.drop_last(), i);
    }
}

/// A transaction with its metadata and with no log line carrying an event tag.
pub open spec fn untagged(tx: Transaction) -> bool {
    &&& tx.signatures.len() > 0
    &&& tx.account_keys is Some
    &&& tx.log_messages matches Some(l) && forall|i: int|
        0 <= i < l.len() ==> !contains(#[trigger] l@[i]@, INITIALIZE_TAG@) && !contains(
            l@[i]@,
            RESTART_TAG@,
        ) && !contains(l@[i]@, NEW_REWARD_TAG@)
}

/// A batch in which no transaction carries an event tag yields the absent
/// outcome, not an empty list.
pub proof fn lemma_untagged_batch_is_absent(txs: Seq<Transaction>)
    requires
        forall|i: int| 0 <= i < txs.len() ==> untagged(#[trigger] txs[i]),
    ensures
        batch_outcome(txs) == Ok::<Option<Seq<FarmEventView>>, ()>(None),
{
    lemma_untagged_batch_is_empty(txs);
}

proof fn lemma_untagged_batch_is_empty(txs: Seq<Transaction>)
    requires
        forall|i: int| 0 <= i < txs.len() ==> untagged(#[trigger] txs[i]),
    ensures
        batch_events(txs) == Ok::<Seq<FarmEventView>, ()>(Seq::empty()),
    decreases txs.len(),
{
    if txs.len() > 0 {
        let init = txs.drop_last();
        assert forall|i: int| 0 <= i < init.len() implies untagged(#[trigger] init[i]) by {
            assert(init[i] == txs[i]);
        }
        lemma_untagged_batch_is_empty(init);
        let tx = txs.last();
        assert(untagged(txs[txs.len() - 1]));
        let lines = texts(tx.log_messages->Some_0@);
        let l = tx.log_messages->Some_0;
        assert forall|i: int| 0 <= i < lines.len() implies !contains(#[trigger] lines[i], INITIALIZE_TAG@)
            && !contains(lines[i], RESTART_TAG@) && !contains(lines[i], NEW_REWARD_TAG@) by {
            assert(lines[i] == l@[i]@);
        }
        lemma_untagged_lines_give_no_event(
            lines,
            base58_of(tx.signatures@[0]@),
            encoded_accounts(tx.account_keys->Some_0@),
        );
        assert(transaction_events(tx) == Ok::<Seq<FarmEventView>, ()>(Seq::empty()));
        assert(Seq::<FarmEventView>::empty() + Seq::empty() =~= Seq::empty());
    }
}

} // verus!
