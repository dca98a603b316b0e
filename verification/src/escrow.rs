//! Time-locked escrows: released to the beneficiary once the release time is reached,
//! or refunded to the depositor before it.
use vstd::prelude::*;

use crate::address::Addr;

verus! {

/// Where an escrow stands.
#[derive(PartialEq, Eq, Structural, Debug, Clone, Copy)]
pub enum EscrowStatus {
    Active,
    Released,
    Refunded,
}

/// An escrowed amount and its terms.
pub struct Escrow {
    pub id: u64,
    pub depositor: Addr,
    pub beneficiary: Addr,
    pub amount: i128,
    pub release_time: u64,
    pub status: EscrowStatus,
}

/// An escrow as plain values.
pub struct EscrowView {
    pub id: u64,
    pub depositor: Seq<char>,
    pub beneficiary: Seq<char>,
    pub amount: i128,
    pub release_time: u64,
    pub status: EscrowStatus,
}

impl View for Escrow {
    type V = EscrowView;

    open spec fn view(&self) -> EscrowView {
        EscrowView {
            id: self.id,
            depositor: self.depositor@,
            beneficiary: self.beneficiary@,
            amount: self.amount,
            release_time: self.release_time,
            status: self.status,
        }
    }
}

/// The refusals of the escrow contract.
#[derive(PartialEq, Eq, Structural, Debug, Clone, Copy)]
pub enum EscrowError {
    AmountNotPositive,
    ReleaseTimeNotInFuture,
    EscrowNotFound,
    NotActive,
    ReleaseTimeNotReached,
    NotDepositor,
    ReleaseTimeReached,
}

impl EscrowError {
    /// The text of the refusal's message.
    pub open spec fn message_text(self) -> Seq<char> {
        match self {
            EscrowError::AmountNotPositive => "amount must be positive"@,
            EscrowError::ReleaseTimeNotInFuture => "release time must be in the future"@,
            EscrowError::EscrowNotFound => "escrow does not exist"@,
            EscrowError::NotActive => "escrow not active"@,
            EscrowError::ReleaseTimeNotReached => "release time not reached"@,
            EscrowError::NotDepositor => "not the depositor"@,
            EscrowError::ReleaseTimeReached => "release time reached, use release instead"@,
        }
    }

    /// The message with which the contract refuses.
    pub fn message(&self) -> (r: &'static str)
        ensures
            r@ == self.message_text(),
    {
        match self {
            EscrowError::AmountNotPositive => "amount must be positive",
            EscrowError::ReleaseTimeNotInFuture => "release time must be in the future",
            EscrowError::EscrowNotFound => "escrow does not exist",
            EscrowError::NotActive => "escrow not active",
            EscrowError::ReleaseTimeNotReached => "release time not reached",
            EscrowError::NotDepositor => "not the depositor",
            EscrowError::ReleaseTimeReached => "release time reached, use release instead",
        }
    }
}

/// The contract's invariant: each escrow sits at its id, holds a positive amount,
/// and there are no more escrows than ids.
pub open spec fn escrows_valid(s: Seq<EscrowView>) -> bool {
    &&& s.len() <= u64::MAX
    &&& forall|i: int| 0 <= i < s.len() ==> (#[trigger] s[i]).id == i && s[i].amount > 0
}

/// The escrow that depositing `amount` until `release_time` at ledger time `now` opens,
/// or the refusal: a non-positive amount, or a release time not after `now`.
pub open spec fn open_spec(
    id: u64,
    depositor: Seq<char>,
    beneficiary: Seq<char>,
    amount: i128,
    release_time: u64,
    now: u64,
) -> Result<EscrowView, EscrowError> {
    if amount <= 0 {
        Err(EscrowError::AmountNotPositive)
    } else if release_time <= now {
        Err(EscrowError::ReleaseTimeNotInFuture)
    } else {
        Ok(EscrowView { id, depositor, beneficiary, amount, release_time, status: EscrowStatus::Active })
    }
}

/// What releasing an escrow at ledger time `now` does to it.
pub open spec fn release_one_spec(e: EscrowView, now: u64) -> Result<EscrowView, EscrowError> {
    if e.status != EscrowStatus::Active {
        Err(EscrowError::NotActive)
    } else if now < e.release_time {
        Err(EscrowError::ReleaseTimeNotReached)
    } else {
        Ok(EscrowView { status: EscrowStatus::Released, ..e })
    }
}

/// What refunding an escrow to `depositor` at ledger time `now` does to it.
pub open spec fn refund_one_spec(e: EscrowView, depositor: Seq<char>, now: u64) -> Result<EscrowView, EscrowError> {
    if e.status != EscrowStatus::Active {
        Err(EscrowError::NotActive)
    } else if e.depositor != depositor {
        Err(EscrowError::NotDepositor)
    } else if now >= e.release_time {
        Err(EscrowError::ReleaseTimeReached)
    } else {
        Ok(EscrowView { status: EscrowStatus::Refunded, ..e })
    }
}

/// What `deposit` does at ledger time `now`: the new escrows and the new escrow's id.
pub open spec fn deposit_spec(
    s: Seq<EscrowView>,
    depositor: Seq<char>,
    beneficiary: Seq<char>,
    amount: i128,
    release_time: u64,
    now: u64,
) -> Result<(Seq<EscrowView>, u64), EscrowError> {
    let id = s.len() as u64;
    match open_spec(id, depositor, beneficiary, amount, release_time, now) {
        Ok(e) => Ok((s.push(e), id)),
        Err(err) => Err(err),
    }
}

/// What `release` does at ledger time `now`.
pub open spec fn release_spec(s: Seq<EscrowView>, id: u64, now: u64) -> Result<Seq<EscrowView>, EscrowError> {
    if id >= s.len() {
        Err(EscrowError::EscrowNotFound)
    } else {
        match release_one_spec(s[id as int], now) {
            Ok(e) => Ok(s.update(id as int, e)),
            Err(err) => Err(err),
        }
    }
}

/// What `refund` does at ledger time `now`.
pub open spec fn refund_spec(s: Seq<EscrowView>, id: u64, depositor: Seq<char>, now: u64) -> Result<
    Seq<EscrowView>,
    EscrowError,
> {
    if id >= s.len() {
        Err(EscrowError::EscrowNotFound)
    } else {
        match refund_one_spec(s[id as int], depositor, now) {
            Ok(e) => Ok(s.update(id as int, e)),
            Err(err) => Err(err),
        }
    }
}

impl Escrow {
    /// Opens escrow `id` locking `amount` for `beneficiary` until `release_time`, at ledger
    /// time `now`; refused for a non-positive amount or a release time not after `now`.
    pub fn open(id: u64, depositor: Addr, beneficiary: Addr, amount: i128, release_time: u64, now: u64) -> (r:
        Result<Escrow, EscrowError>)
        ensures
            match open_spec(id, depositor@, beneficiary@, amount, release_time, now) {
                Ok(e) => r matches Ok(x) && x@ == e,
                Err(err) => r matches Err(x) && x == err,
            },
    {
        if amount <= 0 {
            return Err(EscrowError::AmountNotPositive);
        }
        if release_time <= now {
            return Err(EscrowError::ReleaseTimeNotInFuture);
        }
        Ok(Escrow { id, depositor, beneficiary, amount, release_time, status: EscrowStatus::Active })
    }

    /// Releases the escrow to its beneficiary once ledger time `now` reaches its release time.
    pub fn release(&mut self, now: u64) -> (r: Result<(), EscrowError>)
        ensures
            match release_one_spec(old(self)@, now) {
                Ok(e) => r is Ok && final(self)@ == e,
                Err(err) => r == Err::<(), EscrowError>(err) && final(self)@ == old(self)@,
            },
    {
        if self.status != EscrowStatus::Active {
            return Err(EscrowError::NotActive);
        }
        if now < self.release_time {
            return Err(EscrowError::ReleaseTimeNotReached);
        }
        self.status = EscrowStatus::Released;
        Ok(())
    }

    /// Refunds the escrow to its depositor while ledger time `now` is before its release
    /// time; only the depositor may.
    pub fn refund(&mut self, depositor: &Addr, now: u64) -> (r: Result<(), EscrowError>)
        ensures
            match refund_one_spec(old(self)@, depositor@, now) {
                Ok(e) => r is Ok && final(self)@ == e,
                Err(err) => r == Err::<(), EscrowError>(err) && final(self)@ == old(self)@,
            },
    {
        if self.status != EscrowStatus::Active {
            return Err(EscrowError::NotActive);
        }
        if !self.depositor.same(depositor) {
            return Err(EscrowError::NotDepositor);
        }
        if now >= self.release_time {
            return Err(EscrowError::ReleaseTimeReached);
        }
        self.status = EscrowStatus::Refunded;
        Ok(())
    }

    /// Whether the escrow is active and its release time is reached at ledger time `now`.
    pub fn can_release(&self, now: u64) -> (r: bool)
        ensures
            r == (self@.status == EscrowStatus::Active && now >= self@.release_time),
    {
        self.status == EscrowStatus::Active && now >= self.release_time
    }
}

/// The escrows by id.
pub struct EscrowContract {
    escrows: Vec<Escrow>,
}

impl View for EscrowContract {
    type V = Seq<EscrowView>;

    closed spec fn view(&self) -> Seq<EscrowView> {
        self.escrows@.map_values(|e: Escrow| e@)
    }
}

impl EscrowContract {
    /// A contract with no escrow.
    pub fn new() -> (r: EscrowContract)
        ensures
            escrows_valid(r@),
            r@.len() == 0,
    {
        let r = EscrowContract { escrows: Vec::new() };
        assert(r@ =~= Seq::<EscrowView>::empty());
        r
    }

    /// A contract holding `escrows` when they are valid (each at the index of its id, each
    /// with a positive amount); `None` otherwise.
    pub fn restore(escrows: Vec<Escrow>) -> (r: Option<EscrowContract>)
        ensures
            r is Some <==> escrows_valid(escrows@.map_values(|e: Escrow| e@)),
            r matches Some(c) ==> c@ == escrows@.map_values(|e: Escrow| e@),
    {
        let ghost s = escrows@.map_values(|e: Escrow| e@);
        let mut i: usize = 0;
        while i < escrows.len()
            invariant
                0 <= i <= escrows.len(),
                s == escrows@.map_values(|e: Escrow| e@),
                forall|j: int| 0 <= j < i ==> (#[trigger] s[j]).id == j && s[j].amount > 0,
            decreases escrows.len() - i,
        {
            if escrows[i].id != i as u64 || escrows[i].amount <= 0 {
                proof {
                    assert(s[i as int] == escrows@[i as int]@);
                }
                return None;
            }
            proof {
                assert(s[i as int] == escrows@[i as int]@);
            }
            i += 1;
        }
        Some(EscrowContract { escrows })
    }

    /// Locks `amount` for `beneficiary` until `release_time`, at ledger time `now`; refused
    /// for a non-positive amount or a release time not after `now`. Returns the escrow's id.
    pub fn deposit(
        &mut self,
        depositor: Addr,
        beneficiary: Addr,
        amount: i128,
        release_time: u64,
        now: u64,
    ) -> (r: Result<u64, EscrowError>)
        requires
            escrows_valid(old(self)@),
            open_spec(old(self)@.len() as u64, depositor@, beneficiary@, amount, release_time, now) is Ok
                ==> old(self)@.len() < u64::MAX,
        ensures
            escrows_valid(final(self)@),
            match deposit_spec(old(self)@, depositor@, beneficiary@, amount, release_time, now) {
                Ok((s, id)) => r == Ok::<u64, EscrowError>(id) && final(self)@ == s,
                Err(e) => r == Err::<u64, EscrowError>(e) && final(self)@ == old(self)@,
            },
    {
        let id = self.escrows.len() as u64;
        let e = Escrow::open(id, depositor, beneficiary, amount, release_time, now)?;
        let ghost s0 = self@;
        self.escrows.push(e);
        proof {
            assert(self@ =~= s0.push(e@));
        }
        Ok(id)
    }

    /// Releases an active escrow to its beneficiary once ledger time `now` reaches its
    /// release time.
    pub fn release(&mut self, escrow_id: u64, now: u64) -> (r: Result<(), EscrowError>)
        requires
            escrows_valid(old(self)@),
        ensures
            escrows_valid(final(self)@),
            match release_spec(old(self)@, escrow_id, now) {
                Ok(s) => r is Ok && final(self)@ == s,
                Err(e) => r == Err::<(), EscrowError>(e) && final(self)@ == old(self)@,
            },
    {
        if escrow_id >= self.escrows.len() as u64 {
            return Err(EscrowError::EscrowNotFound);
        }
        let i = escrow_id as usize;
        let ghost s0 = self@;
        let mut e = self.escrows.remove(i);
        let done = e.release(now);
        let ghost e1 = e@;
        self.escrows.insert(i, e);
        proof {
            assert(self@ =~= s0.update(i as int, e1));
            assert forall|j: int| 0 <= j < self@.len() implies (#[trigger] self@[j]).id == j
                && self@[j].amount > 0 by {
                assert(s0[j].id == j);
            }
            if done is Err {
                assert(self@ =~= s0);
            }
        }
        done
    }

    /// Refunds an active escrow to its depositor while ledger time `now` is before its
    /// release time; only the depositor may.
    pub fn refund(&mut self, escrow_id: u64, depositor: &Addr, now: u64) -> (r: Result<(), EscrowError>)
        requires
            escrows_valid(old(self)@),
        ensures
            escrows_valid(final(self)@),
            match refund_spec(old(self)@, escrow_id, depositor@, now) {
                Ok(s) => r is Ok && final(self)@ == s,
                Err(e) => r == Err::<(), EscrowError>(e) && final(self)@ == old(self)@,
            },
    {
        if escrow_id >= self.escrows.len() as u64 {
            return Err(EscrowError::EscrowNotFound);
        }
        let i = escrow_id as usize;
        let ghost s0 = self@;
        let mut e = self.escrows.remove(i);
        let done = e.refund(depositor, now);
        let ghost e1 = e@;
        self.escrows.insert(i, e);
        proof {
            assert(self@ =~= s0.update(i as int, e1));
            assert forall|j: int| 0 <= j < self@.len() implies (#[trigger] self@[j]).id == j
                && self@[j].amount > 0 by {
                assert(s0[j].id == j);
            }
            if done is Err {
                assert(self@ =~= s0);
            }
        }
        done
    }

    /// The escrow with id `escrow_id`.
    pub fn get_escrow(&self, escrow_id: u64) -> (r: Result<&Escrow, EscrowError>)
        ensures
            escrow_id >= self@.len() ==> r == Err::<&Escrow, EscrowError>(EscrowError::EscrowNotFound),
            escrow_id < self@.len() ==> (r matches Ok(e) && e@ == self@[escrow_id as int]),
    {
        if escrow_id >= self.escrows.len() as u64 {
            return Err(EscrowError::EscrowNotFound);
        }
        Ok(&self.escrows[escrow_id as usize])
    }

    /// Whether the escrow is active and its release time is reached at ledger time `now`.
    pub fn can_release(&self, escrow_id: u64, now: u64) -> (r: Result<bool, EscrowError>)
        ensures
            escrow_id >= self@.len() ==> r == Err::<bool, EscrowError>(EscrowError::EscrowNotFound),
            escrow_id < self@.len() ==> r == Ok::<bool, EscrowError>(
                self@[escrow_id as int].status == EscrowStatus::Active && now
                    >= self@[escrow_id as int].release_time,
            ),
    {
        let e = self.get_escrow(escrow_id)?;
        Ok(e.can_release(now))
    }

    /// The number of escrows created so far.
    pub fn total_escrows(&self) -> (r: u64)
        requires
            escrows_valid(self@),
        ensures
            r == self@.len(),
    {
        self.escrows.len() as u64
    }
}

/// `can_release` holds exactly when `release` would succeed.
pub proof fn lemma_can_release_iff_release_succeeds(s: Seq<EscrowView>, id: u64, now: u64)
    requires
        id < s.len(),
    ensures
        (s[id as int].status == EscrowStatus::Active && now >= s[id as int].release_time)
            <==> release_spec(s, id, now) is Ok,
{
}

/// A settled escrow stays settled: neither `release` nor `refund` changes it again.
pub proof fn lemma_settled_is_final(s: Seq<EscrowView>, id: u64, now: u64, who: Seq<char>)
    requires
        id < s.len(),
        s[id as int].status != EscrowStatus::Active,
    ensures
        release_spec(s, id, now) == Err::<Seq<EscrowView>, EscrowError>(EscrowError::NotActive),
        refund_spec(s, id, who, now) == Err::<Seq<EscrowView>, EscrowError>(EscrowError::NotActive),
{
}

/// At any ledger time an active escrow can be settled one way and not the other:
/// by its depositor's refund before the release time, by release from it on.
pub proof fn lemma_release_refund_exclusive(s: Seq<EscrowView>, id: u64, now: u64)
    requires
        id < s.len(),
        s[id as int].status == EscrowStatus::Active,
    ensures
        release_spec(s, id, now) is Ok <==> !(refund_spec(s, id, s[id as int].depositor, now) is Ok),
{
}

/// Opening an escrow records exactly what was asked: it succeeds exactly for a positive
/// amount and a release time after `now`, and then holds the given id, depositor,
/// beneficiary, amount and release time, active.
pub proof fn lemma_open_records_arguments(
    id: u64,
    depositor: Seq<char>,
    beneficiary: Seq<char>,
    amount: i128,
    release_time: u64,
    now: u64,
)
    ensures
        open_spec(id, depositor, beneficiary, amount, release_time, now) is Ok <==> amount > 0 && release_time
            > now,
        open_spec(id, depositor, beneficiary, amount, release_time, now) is Ok ==> ({
            let e = open_spec(id, depositor, beneficiary, amount, release_time, now)->Ok_0;
            &&& e.id == id
            &&& e.depositor == depositor
            &&& e.beneficiary == beneficiary
            &&& e.amount == amount
            &&& e.release_time == release_time
            &&& e.status == EscrowStatus::Active
        }),
{
}

/// A deposit appends one escrow, under the next id, whose depositor and beneficiary are the
/// given ones, with the given amount and release time, active; every earlier escrow is left
/// as it was. It succeeds exactly for a positive amount and a release time after `now`.
pub proof fn lemma_deposit_records_arguments(
    s: Seq<EscrowView>,
    depositor: Seq<char>,
    beneficiary: Seq<char>,
    amount: i128,
    release_time: u64,
    now: u64,
    i: int,
)
    requires
        s.len() < u64::MAX,
    ensures
        deposit_spec(s, depositor, beneficiary, amount, release_time, now) is Ok <==> amount > 0 && release_time
            > now,
        deposit_spec(s, depositor, beneficiary, amount, release_time, now) is Ok ==> ({
            let (t, id) = deposit_spec(s, depositor, beneficiary, amount, release_time, now)->Ok_0;
            &&& id == s.len()
            &&& t.len() == s.len() + 1
            &&& t[id as int].id == id
            &&& t[id as int].depositor == depositor
            &&& t[id as int].beneficiary == beneficiary
            &&& t[id as int].amount == amount
            &&& t[id as int].release_time == release_time
            &&& t[id as int].status == EscrowStatus::Active
            &&& (0 <= i < s.len() ==> t[i] == s[i])
        }),
{
}

} // verus!
