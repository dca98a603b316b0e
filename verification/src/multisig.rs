//! A threshold multisig wallet: owners propose transactions, approve them, and a
//! transaction executes once it has as many approvals as the threshold asks.
use vstd::prelude::*;

use crate::address::{addrs_view, contains_addr, distinct_addrs, Addr};

verus! {

/// Where a proposed transaction stands.
#[derive(PartialEq, Eq, Structural, Debug, Clone, Copy)]
pub enum TxStatus {
    Pending,
    Executed,
    Cancelled,
}

/// A proposed transfer and the owners that approved it.
pub struct Transaction {
    pub id: u64,
    pub proposer: Addr,
    pub to: Addr,
    pub amount: i128,
    pub approvals: Vec<Addr>,
    pub status: TxStatus,
}

/// A transaction as plain values.
pub struct TransactionView {
    pub id: u64,
    pub proposer: Seq<char>,
    pub to: Seq<char>,
    pub amount: i128,
    pub approvals: Seq<Seq<char>>,
    pub status: TxStatus,
}

impl View for Transaction {
    type V = TransactionView;

    open spec fn view(&self) -> TransactionView {
        TransactionView {
            id: self.id,
            proposer: self.proposer@,
            to: self.to@,
            amount: self.amount,
            approvals: addrs_view(self.approvals@),
            status: self.status,
        }
    }
}

/// The refusals of the wallet.
#[derive(PartialEq, Eq, Structural, Debug, Clone, Copy)]
pub enum MultisigError {
    AlreadyInitialized,
    OwnersEmpty,
    InvalidThreshold,
    NotInitialized,
    NotAnOwner,
    TransactionNotFound,
    NotPending,
    AlreadyApproved,
    ThresholdNotMet,
    NotProposer,
}

impl MultisigError {
    /// The text of the refusal's message.
    pub open spec fn message_text(self) -> Seq<char> {
        match self {
            MultisigError::AlreadyInitialized => "already initialized"@,
            MultisigError::OwnersEmpty => "owners cannot be empty"@,
            MultisigError::InvalidThreshold => "invalid threshold"@,
            MultisigError::NotInitialized => "not initialized"@,
            MultisigError::NotAnOwner => "not an owner"@,
            MultisigError::TransactionNotFound => "transaction does not exist"@,
            MultisigError::NotPending => "transaction not pending"@,
            MultisigError::AlreadyApproved => "already approved"@,
            MultisigError::ThresholdNotMet => "threshold not met"@,
            MultisigError::NotProposer => "not the proposer"@,
        }
    }

    /// The message with which the contract refuses.
    pub fn message(&self) -> (r: &'static str)
        ensures
            r@ == self.message_text(),
    {
        match self {
            MultisigError::AlreadyInitialized => "already initialized",
            MultisigError::OwnersEmpty => "owners cannot be empty",
            MultisigError::InvalidThreshold => "invalid threshold",
            MultisigError::NotInitialized => "not initialized",
            MultisigError::NotAnOwner => "not an owner",
            MultisigError::TransactionNotFound => "transaction does not exist",
            MultisigError::NotPending => "transaction not pending",
            MultisigError::AlreadyApproved => "already approved",
            MultisigError::ThresholdNotMet => "threshold not met",
            MultisigError::NotProposer => "not the proposer",
        }
    }
}

/// The wallet as plain values: the owners and threshold once set, and the transactions by id.
pub struct MultisigView {
    pub config: Option<(Seq<Seq<char>>, u32)>,
    pub txs: Seq<TransactionView>,
}

/// The wallet's invariant. Before initialization there is no transaction; after it the
/// threshold lies between one and the number of owners, every transaction sits at its id,
/// and its approvals are owners, none twice, the proposer first.
pub open spec fn multisig_valid(v: MultisigView) -> bool {
    &&& v.txs.len() <= u64::MAX
    &&& match v.config {
        None => v.txs.len() == 0,
        Some((owners, threshold)) => {
            &&& 1 <= threshold <= owners.len() <= u32::MAX
            &&& forall|i: int|
                0 <= i < v.txs.len() ==> {
                    &&& (#[trigger] v.txs[i]).id == i
                    &&& v.txs[i].approvals.len() >= 1
                    &&& v.txs[i].approvals[0] == v.txs[i].proposer
                    &&& v.txs[i].approvals.no_duplicates()
                    &&& forall|j: int|
                        0 <= j < v.txs[i].approvals.len() ==> owners.contains(
                            #[trigger] v.txs[i].approvals[j],
                        )
                }
        },
    }
}

/// What `initialize` does.
pub open spec fn initialize_spec(v: MultisigView, owners: Seq<Seq<char>>, threshold: u32) -> Result<
    MultisigView,
    MultisigError,
> {
    if v.config is Some {
        Err(MultisigError::AlreadyInitialized)
    } else if owners.len() == 0 {
        Err(MultisigError::OwnersEmpty)
    } else if threshold == 0 || threshold > owners.len() {
        Err(MultisigError::InvalidThreshold)
    } else {
        Ok(MultisigView { config: Some((owners, threshold)), ..v })
    }
}

/// What `propose` does: the new wallet and the new transaction's id.
pub open spec fn propose_spec(v: MultisigView, proposer: Seq<char>, to: Seq<char>, amount: i128) -> Result<
    (MultisigView, u64),
    MultisigError,
> {
    match v.config {
        None => Err(MultisigError::NotInitialized),
        Some((owners, _)) => {
            if !owners.contains(proposer) {
                Err(MultisigError::NotAnOwner)
            } else {
                let id = v.txs.len() as u64;
                let tx = TransactionView {
                    id,
                    proposer,
                    to,
                    amount,
                    approvals: seq![proposer],
                    status: TxStatus::Pending,
                };
                Ok((MultisigView { txs: v.txs.push(tx), ..v }, id))
            }
        },
    }
}

/// What `approve` does.
pub open spec fn approve_spec(v: MultisigView, tx_id: u64, approver: Seq<char>) -> Result<
    MultisigView,
    MultisigError,
> {
    match v.config {
        None => Err(MultisigError::NotInitialized),
        Some((owners, _)) => {
            if !owners.contains(approver) {
                Err(MultisigError::NotAnOwner)
            } else if tx_id >= v.txs.len() {
                Err(MultisigError::TransactionNotFound)
            } else if v.txs[tx_id as int].status != TxStatus::Pending {
                Err(MultisigError::NotPending)
            } else if v.txs[tx_id as int].approvals.contains(approver) {
                Err(MultisigError::AlreadyApproved)
            } else {
                let tx = v.txs[tx_id as int];
                Ok(
                    MultisigView {
                        txs: v.txs.update(
                            tx_id as int,
                            TransactionView { approvals: tx.approvals.push(approver), ..tx },
                        ),
                        ..v
                    },
                )
            }
        },
    }
}

/// What `execute` does.
pub open spec fn execute_spec(v: MultisigView, tx_id: u64) -> Result<MultisigView, MultisigError> {
    if tx_id >= v.txs.len() {
        Err(MultisigError::TransactionNotFound)
    } else if v.txs[tx_id as int].status != TxStatus::Pending {
        Err(MultisigError::NotPending)
    } else {
        match v.config {
            None => Err(MultisigError::NotInitialized),
            Some((_, threshold)) => {
                let tx = v.txs[tx_id as int];
                if tx.approvals.len() < threshold {
                    Err(MultisigError::ThresholdNotMet)
                } else {
                    Ok(
                        MultisigView {
                            txs: v.txs.update(
                                tx_id as int,
                                TransactionView { status: TxStatus::Executed, ..tx },
                            ),
                            ..v
                        },
                    )
                }
            },
        }
    }
}

/// What `cancel` does.
pub open spec fn cancel_spec(v: MultisigView, tx_id: u64, canceller: Seq<char>) -> Result<
    MultisigView,
    MultisigError,
> {
    if tx_id >= v.txs.len() {
        Err(MultisigError::TransactionNotFound)
    } else if v.txs[tx_id as int].status != TxStatus::Pending {
        Err(MultisigError::NotPending)
    } else if v.txs[tx_id as int].proposer != canceller {
        Err(MultisigError::NotProposer)
    } else {
        let tx = v.txs[tx_id as int];
        Ok(
            MultisigView {
                txs: v.txs.update(tx_id as int, TransactionView { status: TxStatus::Cancelled, ..tx }),
                ..v
            },
        )
    }
}

/// The refusal, if any, of a call that only an owner may make, given the owners once set.
pub open spec fn owner_check(owners: Option<Seq<Seq<char>>>, who: Seq<char>) -> Option<MultisigError> {
    match owners {
        None => Some(MultisigError::NotInitialized),
        Some(o) => if !o.contains(who) {
            Some(MultisigError::NotAnOwner)
        } else {
            None
        },
    }
}

/// The refusal, if any, of setting `owners` and `threshold` on a wallet.
pub open spec fn config_check(initialized: bool, owners: Seq<Seq<char>>, threshold: u32) -> Option<MultisigError> {
    if initialized {
        Some(MultisigError::AlreadyInitialized)
    } else if owners.len() == 0 {
        Some(MultisigError::OwnersEmpty)
    } else if threshold == 0 || threshold > owners.len() {
        Some(MultisigError::InvalidThreshold)
    } else {
        None
    }
}

/// The views of optional owners.
pub open spec fn owners_view(owners: Option<&Vec<Addr>>) -> Option<Seq<Seq<char>>> {
    match owners {
        Some(o) => Some(addrs_view(o@)),
        None => None,
    }
}

/// What approving a transaction does to it.
pub open spec fn approve_one_spec(t: TransactionView, approver: Seq<char>) -> Result<TransactionView, MultisigError> {
    if t.status != TxStatus::Pending {
        Err(MultisigError::NotPending)
    } else if t.approvals.contains(approver) {
        Err(MultisigError::AlreadyApproved)
    } else {
        Ok(TransactionView { approvals: t.approvals.push(approver), ..t })
    }
}

/// What executing a transaction does to it, given the threshold once set.
pub open spec fn execute_one_spec(t: TransactionView, threshold: Option<u32>) -> Result<
    TransactionView,
    MultisigError,
> {
    if t.status != TxStatus::Pending {
        Err(MultisigError::NotPending)
    } else {
        match threshold {
            None => Err(MultisigError::NotInitialized),
            Some(th) => if t.approvals.len() < th {
                Err(MultisigError::ThresholdNotMet)
            } else {
                Ok(TransactionView { status: TxStatus::Executed, ..t })
            },
        }
    }
}

/// What cancelling a transaction does to it.
pub open spec fn cancel_one_spec(t: TransactionView, canceller: Seq<char>) -> Result<TransactionView, MultisigError> {
    if t.status != TxStatus::Pending {
        Err(MultisigError::NotPending)
    } else if t.proposer != canceller {
        Err(MultisigError::NotProposer)
    } else {
        Ok(TransactionView { status: TxStatus::Cancelled, ..t })
    }
}

/// Refuses a call that only an owner may make: before initialization, or by a non-owner.
pub fn check_owner(owners: Option<&Vec<Addr>>, who: &Addr) -> (r: Result<(), MultisigError>)
    ensures
        match owner_check(owners_view(owners), who@) {
            Some(e) => r == Err::<(), MultisigError>(e),
            None => r is Ok,
        },
{
    match owners {
        None => Err(MultisigError::NotInitialized),
        Some(o) => if contains_addr(o, who) {
            Ok(())
        } else {
            Err(MultisigError::NotAnOwner)
        },
    }
}

/// Refuses an initialization: when already initialized, with no owner, or with a threshold
/// of zero or above the number of owners.
pub fn check_config(initialized: bool, owners: &Vec<Addr>, threshold: u32) -> (r: Result<(), MultisigError>)
    ensures
        match config_check(initialized, addrs_view(owners@), threshold) {
            Some(e) => r == Err::<(), MultisigError>(e),
            None => r is Ok,
        },
{
    if initialized {
        return Err(MultisigError::AlreadyInitialized);
    }
    if owners.len() == 0 {
        return Err(MultisigError::OwnersEmpty);
    }
    if threshold == 0 || threshold as usize > owners.len() {
        return Err(MultisigError::InvalidThreshold);
    }
    Ok(())
}

impl Transaction {
    /// A pending transaction proposed by `proposer`, who is its first approval.
    pub fn open(id: u64, proposer: &Addr, to: Addr, amount: i128) -> (t: Transaction)
        ensures
            t@ == (TransactionView {
                id,
                proposer: proposer@,
                to: to@,
                amount,
                approvals: seq![proposer@],
                status: TxStatus::Pending,
            }),
    {
        let mut approvals: Vec<Addr> = Vec::new();
        approvals.push(proposer.clone());
        let t = Transaction { id, proposer: proposer.clone(), to, amount, approvals, status: TxStatus::Pending };
        assert(addrs_view(t.approvals@) =~= seq![proposer@]);
        t
    }

    /// Adds `approver`'s approval; refused unless pending or when already approved by it.
    pub fn approve(&mut self, approver: &Addr) -> (r: Result<(), MultisigError>)
        ensures
            match approve_one_spec(old(self)@, approver@) {
                Ok(t) => r is Ok && final(self)@ == t,
                Err(e) => r == Err::<(), MultisigError>(e) && final(self)@ == old(self)@,
            },
    {
        if self.status != TxStatus::Pending {
            return Err(MultisigError::NotPending);
        }
        if contains_addr(&self.approvals, approver) {
            return Err(MultisigError::AlreadyApproved);
        }
        let ghost a0 = addrs_view(self.approvals@);
        self.approvals.push(approver.clone());
        assert(addrs_view(self.approvals@) =~= a0.push(approver@));
        Ok(())
    }

    /// Marks the transaction executed; refused unless pending, before a threshold is set,
    /// or while its approvals are below the threshold.
    pub fn execute(&mut self, threshold: Option<u32>) -> (r: Result<(), MultisigError>)
        ensures
            match execute_one_spec(old(self)@, threshold) {
                Ok(t) => r is Ok && final(self)@ == t,
                Err(e) => r == Err::<(), MultisigError>(e) && final(self)@ == old(self)@,
            },
    {
        if self.status != TxStatus::Pending {
            return Err(MultisigError::NotPending);
        }
        let th = match threshold {
            Some(t) => t,
            None => {
                return Err(MultisigError::NotInitialized);
            },
        };
        if (self.approvals.len() as u64) < th as u64 {
            return Err(MultisigError::ThresholdNotMet);
        }
        self.status = TxStatus::Executed;
        Ok(())
    }

    /// Marks the transaction cancelled; refused unless pending, and only its proposer may.
    pub fn cancel(&mut self, canceller: &Addr) -> (r: Result<(), MultisigError>)
        ensures
            match cancel_one_spec(old(self)@, canceller@) {
                Ok(t) => r is Ok && final(self)@ == t,
                Err(e) => r == Err::<(), MultisigError>(e) && final(self)@ == old(self)@,
            },
    {
        if self.status != TxStatus::Pending {
            return Err(MultisigError::NotPending);
        }
        if !self.proposer.same(canceller) {
            return Err(MultisigError::NotProposer);
        }
        self.status = TxStatus::Cancelled;
        Ok(())
    }

    /// Whether the approvals reach `threshold`.
    pub fn threshold_met(&self, threshold: u32) -> (r: bool)
        ensures
            r == (self@.approvals.len() >= threshold),
    {
        self.approvals.len() as u64 >= threshold as u64
    }
}

/// What the wallet invariant asks of transaction `t` stored at index `i`, with `owners`.
pub open spec fn tx_fits(t: TransactionView, i: int, owners: Seq<Seq<char>>) -> bool {
    &&& t.id == i
    &&& t.approvals.len() >= 1
    &&& t.approvals[0] == t.proposer
    &&& t.approvals.no_duplicates()
    &&& forall|j: int| 0 <= j < t.approvals.len() ==> owners.contains(#[trigger] t.approvals[j])
}

/// The wallet with the stored configuration `config` and transactions `txs`, as plain values.
pub open spec fn stored_wallet(config: Option<(Vec<Addr>, u32)>, txs: Seq<Transaction>) -> MultisigView {
    MultisigView {
        config: match config {
            Some((owners, threshold)) => Some((addrs_view(owners@), threshold)),
            None => None,
        },
        txs: txs.map_values(|t: Transaction| t@),
    }
}

/// Whether transaction `t`, stored at index `i`, meets the wallet invariant with `owners`.
fn check_tx(t: &Transaction, i: u64, owners: &Vec<Addr>) -> (r: bool)
    ensures
        r == tx_fits(t@, i as int, addrs_view(owners@)),
{
    if t.id != i || t.approvals.len() == 0 {
        return false;
    }
    if !t.approvals[0].same(&t.proposer) {
        return false;
    }
    if !distinct_addrs(&t.approvals) {
        return false;
    }
    let ghost a = t@.approvals;
    let n = t.approvals.len();
    let mut j: usize = 0;
    while j < n
        invariant
            n == t.approvals@.len(),
            a == t@.approvals,
            j <= n,
            forall|k: int| 0 <= k < j ==> addrs_view(owners@).contains(#[trigger] a[k]),
        decreases n - j,
    {
        if !contains_addr(owners, &t.approvals[j]) {
            proof {
                assert(a[j as int] == t.approvals@[j as int]@);
            }
            return false;
        }
        proof {
            assert(a[j as int] == t.approvals@[j as int]@);
        }
        j = j + 1;
    }
    proof {
        assert(t@.approvals[0] == t.approvals@[0]@);
    }
    true
}

/// Changing only a transaction's status keeps the wallet valid.
proof fn lemma_status_change_valid(v: MultisigView, i: int, t: TransactionView)
    requires
        multisig_valid(v),
        0 <= i < v.txs.len(),
        t == (TransactionView { status: t.status, ..v.txs[i] }),
    ensures
        multisig_valid(MultisigView { txs: v.txs.update(i, t), ..v }),
{
    let w = MultisigView { txs: v.txs.update(i, t), ..v };
    if let Some((owners, _)) = v.config {
        assert forall|k: int| 0 <= k < w.txs.len() implies {
            &&& (#[trigger] w.txs[k]).id == k
            &&& w.txs[k].approvals.len() >= 1
            &&& w.txs[k].approvals[0] == w.txs[k].proposer
            &&& w.txs[k].approvals.no_duplicates()
            &&& forall|j: int|
                0 <= j < w.txs[k].approvals.len() ==> owners.contains(#[trigger] w.txs[k].approvals[j])
        } by {
            assert(v.txs[k].approvals == w.txs[k].approvals);
        }
    }
}

/// A valid wallet never holds more approvals on a transaction than it has owners.
pub proof fn lemma_approvals_bounded(v: MultisigView, i: int)
    requires
        multisig_valid(v),
        v.config is Some,
        0 <= i < v.txs.len(),
    ensures
        v.txs[i].approvals.len() <= v.config->Some_0.0.len(),
        v.txs[i].approvals.len() <= u32::MAX,
{
    let owners = v.config->Some_0.0;
    let approvals = v.txs[i].approvals;
    approvals.unique_seq_to_set();
    owners.lemma_cardinality_of_set();
    assert(approvals.to_set().subset_of(owners.to_set())) by {
        assert forall|x: Seq<char>| approvals.to_set().contains(x) implies owners.to_set().contains(
            x,
        ) by {
            let j = choose|j: int| 0 <= j < approvals.len() && approvals[j] == x;
            assert(owners.contains(approvals[j]));
        }
    }
    vstd::seq_lib::seq_to_set_is_finite(owners);
    vstd::set_lib::lemma_len_subset(approvals.to_set(), owners.to_set());
}

/// The wallet's state.
pub struct MultisigContract {
    config: Option<(Vec<Addr>, u32)>,
    transactions: Vec<Transaction>,
}

impl View for MultisigContract {
    type V = MultisigView;

    closed spec fn view(&self) -> MultisigView {
        MultisigView {
            config: match self.config {
                Some((owners, threshold)) => Some((addrs_view(owners@), threshold)),
                None => None,
            },
            txs: self.transactions@.map_values(|t: Transaction| t@),
        }
    }
}

impl MultisigContract {
    /// An uninitialized wallet.
    pub fn new() -> (r: MultisigContract)
        ensures
            multisig_valid(r@),
            r@.config is None,
            r@.txs.len() == 0,
    {
        let r = MultisigContract { config: None, transactions: Vec::new() };
        assert(r@.txs =~= Seq::<TransactionView>::empty());
        r
    }

    /// The wallet with the stored configuration `config` and transactions `transactions`,
    /// when they meet the wallet invariant; `None` otherwise.
    pub fn restore(config: Option<(Vec<Addr>, u32)>, transactions: Vec<Transaction>) -> (r: Option<
        MultisigContract,
    >)
        ensures
            r is Some <==> multisig_valid(stored_wallet(config, transactions@)),
            r matches Some(c) ==> c@ == stored_wallet(config, transactions@),
    {
        let ghost v = stored_wallet(config, transactions@);
        let ghost txs = transactions@.map_values(|t: Transaction| t@);
        match &config {
            None => {
                if transactions.len() != 0 {
                    return None;
                }
            },
            Some((owners, threshold)) => {
                let threshold = *threshold;
                assert(v.txs == txs && v.config == Some((addrs_view(owners@), threshold)));
                if threshold < 1 || owners.len() as u64 > u32::MAX as u64 || threshold as u64
                    > owners.len() as u64 {
                    return None;
                }
                let n = transactions.len();
                let mut i: usize = 0;
                while i < n
                    invariant
                        n == transactions@.len(),
                        txs == transactions@.map_values(|t: Transaction| t@),
                        v == stored_wallet(config, transactions@),
                        v.txs == txs,
                        v.config == Some((addrs_view(owners@), threshold)),
                        i <= n,
                        forall|k: int| 0 <= k < i ==> tx_fits(#[trigger] txs[k], k, addrs_view(owners@)),
                    decreases n - i,
                {
                    if !check_tx(&transactions[i], i as u64, owners) {
                        proof {
                            assert(txs[i as int] == transactions@[i as int]@);
                            assert(v.txs == txs);
                            if multisig_valid(v) {
                                let t = v.txs[i as int];
                                assert(t.id == i);
                                assert forall|j: int| 0 <= j < t.approvals.len() implies addrs_view(
                                    owners@,
                                ).contains(#[trigger] t.approvals[j]) by {}
                                assert(tx_fits(t, i as int, addrs_view(owners@)));
                            }
                        }
                        return None;
                    }
                    proof {
                        assert(txs[i as int] == transactions@[i as int]@);
                    }
                    i = i + 1;
                }
                proof {
                    assert forall|k: int| 0 <= k < txs.len() implies {
                        &&& (#[trigger] txs[k]).id == k
                        &&& txs[k].approvals.len() >= 1
                        &&& txs[k].approvals[0] == txs[k].proposer
                        &&& txs[k].approvals.no_duplicates()
                        &&& forall|j: int|
                            0 <= j < txs[k].approvals.len() ==> addrs_view(owners@).contains(
                                #[trigger] txs[k].approvals[j],
                            )
                    } by {
                        assert(tx_fits(txs[k], k, addrs_view(owners@)));
                    }
                }
            },
        }
        let r = MultisigContract { config, transactions };
        assert(r@ == v);
        Some(r)
    }

    /// Sets the owners and the approval threshold; refused when already set, when `owners`
    /// is empty, or when the threshold is zero or above the number of owners.
    pub fn initialize(&mut self, owners: Vec<Addr>, threshold: u32) -> (r: Result<(), MultisigError>)
        requires
            multisig_valid(old(self)@),
            owners@.len() <= u32::MAX,
        ensures
            multisig_valid(final(self)@),
            match initialize_spec(old(self)@, addrs_view(owners@), threshold) {
                Ok(v) => r is Ok && final(self)@ == v,
                Err(e) => r == Err::<(), MultisigError>(e) && final(self)@ == old(self)@,
            },
    {
        check_config(self.config.is_some(), &owners, threshold)?;
        self.config = Some((owners, threshold));
        Ok(())
    }

    fn owners_opt(&self) -> (r: Option<&Vec<Addr>>)
        ensures
            owners_view(r) == match self@.config {
                None => None::<Seq<Seq<char>>>,
                Some((owners, _)) => Some(owners),
            },
    {
        match &self.config {
            Some((owners, _)) => Some(owners),
            None => None,
        }
    }

    /// Proposes a transfer of `amount` to `to`; the proposer must be an owner and counts as
    /// its first approval. Returns the new transaction's id.
    pub fn propose(&mut self, proposer: &Addr, to: Addr, amount: i128) -> (r: Result<u64, MultisigError>)
        requires
            multisig_valid(old(self)@),
            propose_spec(old(self)@, proposer@, to@, amount) is Ok ==> old(self)@.txs.len() < u64::MAX,
        ensures
            multisig_valid(final(self)@),
            match propose_spec(old(self)@, proposer@, to@, amount) {
                Ok((v, id)) => r == Ok::<u64, MultisigError>(id) && final(self)@ == v,
                Err(e) => r == Err::<u64, MultisigError>(e) && final(self)@ == old(self)@,
            },
    {
        check_owner(self.owners_opt(), proposer)?;
        let id = self.transactions.len() as u64;
        let tx = Transaction::open(id, proposer, to, amount);
        let ghost v0 = self@;
        self.transactions.push(tx);
        proof {
            assert(self@.txs =~= v0.txs.push(tx@));
            let owners_v = v0.config->Some_0.0;
            assert forall|i: int| 0 <= i < self@.txs.len() implies {
                &&& (#[trigger] self@.txs[i]).id == i
                &&& self@.txs[i].approvals.len() >= 1
                &&& self@.txs[i].approvals[0] == self@.txs[i].proposer
                &&& self@.txs[i].approvals.no_duplicates()
                &&& forall|j: int|
                    0 <= j < self@.txs[i].approvals.len() ==> owners_v.contains(
                        #[trigger] self@.txs[i].approvals[j],
                    )
            } by {
                if i < v0.txs.len() {
                    assert(self@.txs[i] == v0.txs[i]);
                }
            }
        }
        Ok(id)
    }

    /// The transaction with id `tx_id`.
    pub fn get_transaction(&self, tx_id: u64) -> (r: Result<&Transaction, MultisigError>)
        ensures
            tx_id >= self@.txs.len() ==> r == Err::<&Transaction, MultisigError>(
                MultisigError::TransactionNotFound,
            ),
            tx_id < self@.txs.len() ==> (r matches Ok(t) && t@ == self@.txs[tx_id as int]),
    {
        if tx_id >= self.transactions.len() as u64 {
            return Err(MultisigError::TransactionNotFound);
        }
        Ok(&self.transactions[tx_id as usize])
    }

    /// The owners; refused before initialization.
    pub fn get_owners(&self) -> (r: Result<&Vec<Addr>, MultisigError>)
        ensures
            match self@.config {
                None => r == Err::<&Vec<Addr>, MultisigError>(MultisigError::NotInitialized),
                Some((owners, _)) => r matches Ok(o) && addrs_view(o@) == owners,
            },
    {
        match self.owners_opt() {
            Some(o) => Ok(o),
            None => Err(MultisigError::NotInitialized),
        }
    }

    /// The approval threshold; refused before initialization.
    pub fn get_threshold(&self) -> (r: Result<u32, MultisigError>)
        ensures
            match self@.config {
                None => r == Err::<u32, MultisigError>(MultisigError::NotInitialized),
                Some((_, t)) => r == Ok::<u32, MultisigError>(t),
            },
    {
        match &self.config {
            Some((_, t)) => Ok(*t),
            None => Err(MultisigError::NotInitialized),
        }
    }

    /// Whether `address` is one of the owners; refused before initialization.
    pub fn is_owner(&self, address: &Addr) -> (r: Result<bool, MultisigError>)
        ensures
            match self@.config {
                None => r == Err::<bool, MultisigError>(MultisigError::NotInitialized),
                Some((owners, _)) => r == Ok::<bool, MultisigError>(owners.contains(address@)),
            },
    {
        match self.owners_opt() {
            Some(o) => Ok(contains_addr(o, address)),
            None => Err(MultisigError::NotInitialized),
        }
    }

    /// The number of transactions proposed so far.
    pub fn total_transactions(&self) -> (r: u64)
        requires
            multisig_valid(self@),
        ensures
            r == self@.txs.len(),
    {
        self.transactions.len() as u64
    }

    /// Adds `approver`'s approval to a pending transaction; the approver must be an owner
    /// that has not approved it yet.
    pub fn approve(&mut self, tx_id: u64, approver: &Addr) -> (r: Result<(), MultisigError>)
        requires
            multisig_valid(old(self)@),
        ensures
            multisig_valid(final(self)@),
            match approve_spec(old(self)@, tx_id, approver@) {
                Ok(v) => r is Ok && final(self)@ == v,
                Err(e) => r == Err::<(), MultisigError>(e) && final(self)@ == old(self)@,
            },
    {
        check_owner(self.owners_opt(), approver)?;
        if tx_id >= self.transactions.len() as u64 {
            return Err(MultisigError::TransactionNotFound);
        }
        let i = tx_id as usize;
        let ghost v0 = self@;
        let mut tx = self.transactions.remove(i);
        let ghost t0 = tx@;
        let done = tx.approve(approver);
        self.transactions.insert(i, tx);
        if let Err(e) = done {
            assert(self@.txs =~= v0.txs);
            return Err(e);
        }
        proof {
            let t1 = TransactionView { approvals: t0.approvals.push(approver@), ..t0 };
            assert(self@.txs =~= v0.txs.update(i as int, t1));
            let owners_v = v0.config->Some_0.0;
            assert forall|k: int| 0 <= k < self@.txs.len() implies {
                &&& (#[trigger] self@.txs[k]).id == k
                &&& self@.txs[k].approvals.len() >= 1
                &&& self@.txs[k].approvals[0] == self@.txs[k].proposer
                &&& self@.txs[k].approvals.no_duplicates()
                &&& forall|j: int|
                    0 <= j < self@.txs[k].approvals.len() ==> owners_v.contains(
                        #[trigger] self@.txs[k].approvals[j],
                    )
            } by {
                if k != i {
                    assert(self@.txs[k] == v0.txs[k]);
                } else {
                    let a = t1.approvals;
                    assert(v0.txs[k] == t0);
                    assert forall|x: int, y: int|
                        0 <= x < a.len() && 0 <= y < a.len() && x != y implies a[x] != a[y] by {
                        if x < a.len() - 1 && y < a.len() - 1 {
                            assert(a[x] == t0.approvals[x] && a[y] == t0.approvals[y]);
                        } else if x < a.len() - 1 {
                            assert(a[x] == t0.approvals[x]);
                        } else {
                            assert(a[y] == t0.approvals[y]);
                        }
                    }
                    assert forall|j: int| 0 <= j < a.len() implies owners_v.contains(#[trigger] a[j]) by {
                        if j < a.len() - 1 {
                            assert(a[j] == t0.approvals[j]);
                        }
                    }
                }
            }
        }
        Ok(())
    }

    /// Marks a pending transaction executed once its approvals reach the threshold.
    pub fn execute(&mut self, tx_id: u64) -> (r: Result<(), MultisigError>)
        requires
            multisig_valid(old(self)@),
        ensures
            multisig_valid(final(self)@),
            match execute_spec(old(self)@, tx_id) {
                Ok(v) => r is Ok && final(self)@ == v,
                Err(e) => r == Err::<(), MultisigError>(e) && final(self)@ == old(self)@,
            },
    {
        if tx_id >= self.transactions.len() as u64 {
            return Err(MultisigError::TransactionNotFound);
        }
        let threshold = match &self.config {
            Some((_, t)) => Some(*t),
            None => None,
        };
        let i = tx_id as usize;
        let ghost v0 = self@;
        let mut tx = self.transactions.remove(i);
        let done = tx.execute(threshold);
        let ghost t1 = tx@;
        self.transactions.insert(i, tx);
        if let Err(e) = done {
            assert(self@.txs =~= v0.txs);
            return Err(e);
        }
        proof {
            assert(self@.txs =~= v0.txs.update(i as int, t1));
            lemma_status_change_valid(v0, i as int, t1);
        }
        Ok(())
    }

    /// Marks a pending transaction cancelled; only its proposer may.
    pub fn cancel(&mut self, tx_id: u64, canceller: &Addr) -> (r: Result<(), MultisigError>)
        requires
            multisig_valid(old(self)@),
        ensures
            multisig_valid(final(self)@),
            match cancel_spec(old(self)@, tx_id, canceller@) {
                Ok(v) => r is Ok && final(self)@ == v,
                Err(e) => r == Err::<(), MultisigError>(e) && final(self)@ == old(self)@,
            },
    {
        if tx_id >= self.transactions.len() as u64 {
            return Err(MultisigError::TransactionNotFound);
        }
        let i = tx_id as usize;
        let ghost v0 = self@;
        let mut tx = self.transactions.remove(i);
        let done = tx.cancel(canceller);
        let ghost t1 = tx@;
        self.transactions.insert(i, tx);
        if let Err(e) = done {
            assert(self@.txs =~= v0.txs);
            return Err(e);
        }
        proof {
            assert(self@.txs =~= v0.txs.update(i as int, t1));
            lemma_status_change_valid(v0, i as int, t1);
        }
        Ok(())
    }

    /// The number of approvals a transaction has.
    pub fn get_approval_count(&self, tx_id: u64) -> (r: Result<u32, MultisigError>)
        requires
            multisig_valid(self@),
        ensures
            tx_id >= self@.txs.len() ==> r == Err::<u32, MultisigError>(
                MultisigError::TransactionNotFound,
            ),
            tx_id < self@.txs.len() ==> r == Ok::<u32, MultisigError>(
                self@.txs[tx_id as int].approvals.len() as u32,
            ),
    {
        if tx_id >= self.transactions.len() as u64 {
            return Err(MultisigError::TransactionNotFound);
        }
        let i = tx_id as usize;
        proof {
            lemma_approvals_bounded(self@, i as int);
            assert(self@.txs[i as int].approvals.len() == self.transactions@[i as int].approvals@.len());
        }
        Ok(self.transactions[i].approvals.len() as u32)
    }

    /// Whether a transaction's approvals reach the threshold.
    pub fn is_threshold_met(&self, tx_id: u64) -> (r: Result<bool, MultisigError>)
        requires
            multisig_valid(self@),
        ensures
            tx_id >= self@.txs.len() ==> r == Err::<bool, MultisigError>(
                MultisigError::TransactionNotFound,
            ),
            tx_id < self@.txs.len() ==> r == Ok::<bool, MultisigError>(
                self@.txs[tx_id as int].approvals.len() >= self@.config->Some_0.1,
            ),
    {
        if tx_id >= self.transactions.len() as u64 {
            return Err(MultisigError::TransactionNotFound);
        }
        let threshold = self.get_threshold()?;
        Ok(self.transactions[tx_id as usize].threshold_met(threshold))
    }
}

/// A transaction executes only from `Pending` and only once its approvals reach the threshold.
pub proof fn lemma_execute_needs_threshold(v: MultisigView, tx_id: u64)
    requires
        execute_spec(v, tx_id) is Ok,
    ensures
        v.config is Some,
        tx_id < v.txs.len(),
        v.txs[tx_id as int].status == TxStatus::Pending,
        v.txs[tx_id as int].approvals.len() >= v.config->Some_0.1,
        execute_spec(v, tx_id)->Ok_0.txs[tx_id as int].status == TxStatus::Executed,
{
}

/// Once a transaction leaves `Pending` (executed or cancelled) it never changes again:
/// approving, executing and cancelling it are all refused.
pub proof fn lemma_settled_transaction_final(v: MultisigView, tx_id: u64, who: Seq<char>)
    requires
        tx_id < v.txs.len(),
        v.txs[tx_id as int].status != TxStatus::Pending,
    ensures
        approve_spec(v, tx_id, who) is Err,
        execute_spec(v, tx_id) == Err::<MultisigView, MultisigError>(MultisigError::NotPending),
        cancel_spec(v, tx_id, who) == Err::<MultisigView, MultisigError>(MultisigError::NotPending),
{
}

/// The proposer's approval is counted when it proposes: approving its own proposal again is
/// refused.
pub proof fn lemma_proposer_already_approved(v: MultisigView, proposer: Seq<char>, to: Seq<char>, amount: i128)
    requires
        multisig_valid(v),
        propose_spec(v, proposer, to, amount) is Ok,
    ensures
        ({
            let (w, id) = propose_spec(v, proposer, to, amount)->Ok_0;
            approve_spec(w, id, proposer) == Err::<MultisigView, MultisigError>(
                MultisigError::AlreadyApproved,
            )
        }),
{
    let (w, id) = propose_spec(v, proposer, to, amount)->Ok_0;
    assert(id as int == v.txs.len());
    assert(w.txs[id as int].approvals[0] == proposer);
    assert(w.txs[id as int].approvals.contains(proposer));
}


/// A pending transaction executes exactly when its approvals reach the threshold: with at
/// least as many approvals as the threshold it becomes `Executed` (and nothing else of it
/// changes); with fewer it is refused and stays as it was.
pub proof fn lemma_transaction_executes_at_threshold(t: TransactionView, threshold: u32)
    requires
        t.status == TxStatus::Pending,
    ensures
        t.approvals.len() >= threshold ==> execute_one_spec(t, Some(threshold)) == Ok::<
            TransactionView,
            MultisigError,
        >(TransactionView { status: TxStatus::Executed, ..t }),
        t.approvals.len() < threshold ==> execute_one_spec(t, Some(threshold)) == Err::<
            TransactionView,
            MultisigError,
        >(MultisigError::ThresholdNotMet),
{
}

/// On an initialized wallet, executing an existing pending transaction succeeds whenever its
/// approvals reach the threshold (any count at or above it), marks exactly that transaction
/// `Executed`, and changes nothing else.
pub proof fn lemma_execute_succeeds_at_threshold(v: MultisigView, tx_id: u64, other: int)
    requires
        v.config is Some,
        tx_id < v.txs.len(),
        v.txs[tx_id as int].status == TxStatus::Pending,
        v.txs[tx_id as int].approvals.len() >= v.config->Some_0.1,
    ensures
        execute_spec(v, tx_id) is Ok,
        ({
            let w = execute_spec(v, tx_id)->Ok_0;
            &&& w.txs[tx_id as int].status == TxStatus::Executed
            &&& w.txs[tx_id as int].approvals == v.txs[tx_id as int].approvals
            &&& w.txs[tx_id as int].to == v.txs[tx_id as int].to
            &&& w.txs[tx_id as int].amount == v.txs[tx_id as int].amount
            &&& w.txs.len() == v.txs.len()
            &&& (0 <= other < v.txs.len() && other != tx_id ==> w.txs[other] == v.txs[other])
            &&& w.config == v.config
        }),
{
}

} // verus!
