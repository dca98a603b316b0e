//! Proposals that addresses vote on until a deadline, then finalized by their tally.
use vstd::prelude::*;

use crate::address::Addr;
use crate::keymap::{KeyEq, KeyMap};

verus! {

/// The outcome of a proposal; `Active` until it is finalized.
#[derive(PartialEq, Eq, Structural, Debug, Clone, Copy)]
pub enum ProposalStatus {
    Active,
    Passed,
    Rejected,
    Tied,
}

/// A proposal and its running tally.
pub struct Proposal {
    pub id: u64,
    pub description: String,
    pub creator: Addr,
    pub yes_votes: u64,
    pub no_votes: u64,
    pub deadline: u64,
    pub status: ProposalStatus,
    pub finalized: bool,
}

/// A proposal as plain values.
pub struct ProposalView {
    pub id: u64,
    pub description: Seq<char>,
    pub creator: Seq<char>,
    pub yes_votes: u64,
    pub no_votes: u64,
    pub deadline: u64,
    pub status: ProposalStatus,
    pub finalized: bool,
}

impl View for Proposal {
    type V = ProposalView;

    open spec fn view(&self) -> ProposalView {
        ProposalView {
            id: self.id,
            description: self.description@,
            creator: self.creator@,
            yes_votes: self.yes_votes,
            no_votes: self.no_votes,
            deadline: self.deadline,
            status: self.status,
            finalized: self.finalized,
        }
    }
}

/// The key under which a voter's ballot on a proposal is recorded.
pub struct VoteKey {
    pub proposal_id: u64,
    pub voter: Addr,
}

impl View for VoteKey {
    type V = (u64, Seq<char>);

    open spec fn view(&self) -> (u64, Seq<char>) {
        (self.proposal_id, self.voter@)
    }
}

impl KeyEq for VoteKey {
    fn key_eq(&self, other: &Self) -> (r: bool) {
        self.proposal_id == other.proposal_id && self.voter.same(&other.voter)
    }
}

/// The refusals of the voting contract.
#[derive(PartialEq, Eq, Structural, Debug, Clone, Copy)]
pub enum VotingError {
    AlreadyVoted,
    ProposalNotFound,
    VotingEnded,
    AlreadyFinalized,
    VotingNotEnded,
}

impl VotingError {
    /// The text of the refusal's message.
    pub open spec fn message_text(self) -> Seq<char> {
        match self {
            VotingError::AlreadyVoted => "already voted"@,
            VotingError::ProposalNotFound => "proposal does not exist"@,
            VotingError::VotingEnded => "voting period ended"@,
            VotingError::AlreadyFinalized => "proposal already finalized"@,
            VotingError::VotingNotEnded => "voting period not ended"@,
        }
    }

    /// The message with which the contract refuses.
    pub fn message(&self) -> (r: &'static str)
        ensures
            r@ == self.message_text(),
    {
        match self {
            VotingError::AlreadyVoted => "already voted",
            VotingError::ProposalNotFound => "proposal does not exist",
            VotingError::VotingEnded => "voting period ended",
            VotingError::AlreadyFinalized => "proposal already finalized",
            VotingError::VotingNotEnded => "voting period not ended",
        }
    }
}

/// The contract as plain values: the proposals by id and the recorded ballots.
pub struct VotingView {
    pub proposals: Seq<ProposalView>,
    pub votes: Map<(u64, Seq<char>), bool>,
}

/// The voters whose ballot on proposal `pid` is `side`.
pub open spec fn voters_on(votes: Map<(u64, Seq<char>), bool>, pid: u64, side: bool) -> Set<Seq<char>> {
    Set::new(|v: Seq<char>| votes.contains_key((pid, v)) && votes[(pid, v)] == side)
}

/// The contract's invariant: each proposal sits at its id, is finalized exactly when its
/// status is no longer `Active`, and its tally counts each recorded ballot exactly once;
/// every ballot is on an existing proposal.
pub open spec fn voting_valid(v: VotingView) -> bool {
    &&& v.proposals.len() <= u64::MAX
    &&& forall|k: (u64, Seq<char>)| #[trigger] v.votes.contains_key(k) ==> k.0 < v.proposals.len()
    &&& forall|i: int|
        0 <= i < v.proposals.len() ==> {
            &&& (#[trigger] v.proposals[i]).id == i
            &&& v.proposals[i].finalized <==> v.proposals[i].status != ProposalStatus::Active
            &&& voters_on(v.votes, i as u64, true).finite()
            &&& voters_on(v.votes, i as u64, true).len() == v.proposals[i].yes_votes
            &&& voters_on(v.votes, i as u64, false).finite()
            &&& voters_on(v.votes, i as u64, false).len() == v.proposals[i].no_votes
        }
}

/// Recorded ballots, each as the proposal's id, the voter and the side, as plain values.
pub open spec fn ballots_view(b: Seq<(u64, Addr, bool)>) -> Seq<(u64, Seq<char>, bool)> {
    b.map_values(|t: (u64, Addr, bool)| (t.0, t.1@, t.2))
}

/// The ballot table that recording `b` in order gives.
pub open spec fn ballots_map(b: Seq<(u64, Seq<char>, bool)>) -> Map<(u64, Seq<char>), bool>
    decreases b.len(),
{
    if b.len() == 0 {
        Map::empty()
    } else {
        ballots_map(b.drop_last()).insert((b.last().0, b.last().1), b.last().2)
    }
}

/// No voter has two ballots on one proposal in `b`.
pub open spec fn ballots_distinct(b: Seq<(u64, Seq<char>, bool)>) -> bool {
    forall|i: int, j: int| 0 <= i < j < b.len() ==> (b[i].0, b[i].1) != (b[j].0, b[j].1)
}

/// Whether the stored proposals `ps` and ballots `b` form a valid contract state.
pub open spec fn restorable(ps: Seq<ProposalView>, b: Seq<(u64, Seq<char>, bool)>) -> bool {
    &&& ballots_distinct(b)
    &&& voting_valid(VotingView { proposals: ps, votes: ballots_map(b) })
}

/// Proposal `j`'s tallies `yes[j]` and `no[j]` count its side's voters in `votes`, and
/// neither exceeds `bound`.
pub open spec fn tally_counts(votes: Map<(u64, Seq<char>), bool>, yes: Seq<u64>, no: Seq<u64>, bound: int, j: int) -> bool {
    &&& voters_on(votes, j as u64, true).finite()
    &&& voters_on(votes, j as u64, true).len() == yes[j]
    &&& voters_on(votes, j as u64, false).finite()
    &&& voters_on(votes, j as u64, false).len() == no[j]
    &&& yes[j] <= bound
    &&& no[j] <= bound
}

/// Each tally in `yes` and `no` counts its side's voters in `votes`, and none exceeds `bound`.
pub open spec fn tallies_count(votes: Map<(u64, Seq<char>), bool>, yes: Seq<u64>, no: Seq<u64>, bound: int) -> bool {
    &&& yes.len() == no.len()
    &&& forall|j: int| 0 <= j < yes.len() ==> #[trigger] tally_counts(votes, yes, no, bound, j)
}

/// The keys of the table that `b` records are exactly the keys of its ballots.
proof fn lemma_ballots_map_keys(b: Seq<(u64, Seq<char>, bool)>)
    ensures
        forall|k: (u64, Seq<char>)| #[trigger] ballots_map(b).contains_key(k) <==> exists|j: int|
            0 <= j < b.len() && k == (b[j].0, b[j].1),
    decreases b.len(),
{
    if b.len() > 0 {
        let c = b.drop_last();
        lemma_ballots_map_keys(c);
        assert forall|k: (u64, Seq<char>)| #[trigger] ballots_map(b).contains_key(k) <==> exists|j: int|
            0 <= j < b.len() && k == (b[j].0, b[j].1) by {
            if ballots_map(b).contains_key(k) {
                if k == (b.last().0, b.last().1) {
                    assert(k == (b[b.len() - 1].0, b[b.len() - 1].1));
                } else {
                    assert(ballots_map(c).contains_key(k));
                    let j = choose|j: int| 0 <= j < c.len() && k == (c[j].0, c[j].1);
                    assert(k == (b[j].0, b[j].1));
                }
            }
            if exists|j: int| 0 <= j < b.len() && k == (b[j].0, b[j].1) {
                let j = choose|j: int| 0 <= j < b.len() && k == (b[j].0, b[j].1);
                if j < b.len() - 1 {
                    assert(k == (c[j].0, c[j].1));
                    assert(ballots_map(c).contains_key(k));
                }
            }
        }
    }
}

/// What `create_proposal` does: the new contract and the new proposal's id.
pub open spec fn create_proposal_spec(
    v: VotingView,
    creator: Seq<char>,
    description: Seq<char>,
    deadline: u64,
) -> (VotingView, u64) {
    let id = v.proposals.len() as u64;
    let p = ProposalView {
        id,
        description,
        creator,
        yes_votes: 0,
        no_votes: 0,
        deadline,
        status: ProposalStatus::Active,
        finalized: false,
    };
    (VotingView { proposals: v.proposals.push(p), ..v }, id)
}

/// What counting a ballot does to a proposal at ledger time `now`: refused once the
/// proposal is finalized or its deadline has passed, else one more vote on its side.
pub open spec fn ballot_spec(p: ProposalView, in_favor: bool, now: u64) -> Result<ProposalView, VotingError> {
    if p.finalized {
        Err(VotingError::AlreadyFinalized)
    } else if now > p.deadline {
        Err(VotingError::VotingEnded)
    } else if in_favor {
        Ok(ProposalView { yes_votes: (p.yes_votes + 1) as u64, ..p })
    } else {
        Ok(ProposalView { no_votes: (p.no_votes + 1) as u64, ..p })
    }
}

/// Counting a ballot does not overflow its side's tally.
pub open spec fn ballot_defined(p: ProposalView, in_favor: bool, now: u64) -> bool {
    (!p.finalized && now <= p.deadline) ==> if in_favor {
        p.yes_votes < u64::MAX
    } else {
        p.no_votes < u64::MAX
    }
}

/// The refusal, if any, of a ballot before the proposal itself is looked at: the voter
/// already voted, or the proposal does not exist (checked in that order).
pub open spec fn admission_spec(already_voted: bool, exists: bool) -> Option<VotingError> {
    if already_voted {
        Some(VotingError::AlreadyVoted)
    } else if !exists {
        Some(VotingError::ProposalNotFound)
    } else {
        None
    }
}

/// What `vote` does at ledger time `now`.
pub open spec fn vote_spec(v: VotingView, pid: u64, voter: Seq<char>, in_favor: bool, now: u64) -> Result<
    VotingView,
    VotingError,
> {
    match admission_spec(v.votes.contains_key((pid, voter)), pid < v.proposals.len()) {
        Some(e) => Err(e),
        None => match ballot_spec(v.proposals[pid as int], in_favor, now) {
            Err(e) => Err(e),
            Ok(p2) => Ok(
                VotingView {
                    proposals: v.proposals.update(pid as int, p2),
                    votes: v.votes.insert((pid, voter), in_favor),
                },
            ),
        },
    }
}

/// `vote` meets no overflow: a ballot it would count does not overflow its side's tally.
pub open spec fn vote_defined(v: VotingView, pid: u64, voter: Seq<char>, in_favor: bool, now: u64) -> bool {
    (!v.votes.contains_key((pid, voter)) && pid < v.proposals.len()) ==> ballot_defined(
        v.proposals[pid as int],
        in_favor,
        now,
    )
}

/// The outcome a tally decides.
pub open spec fn outcome(yes: u64, no: u64) -> ProposalStatus {
    if yes > no {
        ProposalStatus::Passed
    } else if no > yes {
        ProposalStatus::Rejected
    } else {
        ProposalStatus::Tied
    }
}

/// What deciding a proposal at ledger time `now` does: refused once finalized or while the
/// deadline has not passed, else the tally's outcome, finalized.
pub open spec fn decide_spec(p: ProposalView, now: u64) -> Result<ProposalView, VotingError> {
    if p.finalized {
        Err(VotingError::AlreadyFinalized)
    } else if now <= p.deadline {
        Err(VotingError::VotingNotEnded)
    } else {
        Ok(ProposalView { status: outcome(p.yes_votes, p.no_votes), finalized: true, ..p })
    }
}

/// What `finalize` does at ledger time `now`.
pub open spec fn finalize_spec(v: VotingView, pid: u64, now: u64) -> Result<VotingView, VotingError> {
    if pid >= v.proposals.len() {
        Err(VotingError::ProposalNotFound)
    } else {
        match decide_spec(v.proposals[pid as int], now) {
            Err(e) => Err(e),
            Ok(p2) => Ok(VotingView { proposals: v.proposals.update(pid as int, p2), ..v }),
        }
    }
}

/// Refuses a ballot before the proposal is looked at: when the voter already voted, or
/// else when the proposal does not exist.
pub fn admit_ballot(already_voted: bool, exists: bool) -> (r: Result<(), VotingError>)
    ensures
        match admission_spec(already_voted, exists) {
            Some(e) => r == Err::<(), VotingError>(e),
            None => r is Ok,
        },
{
    if already_voted {
        return Err(VotingError::AlreadyVoted);
    }
    if !exists {
        return Err(VotingError::ProposalNotFound);
    }
    Ok(())
}

impl Proposal {
    /// A new, active proposal with no votes.
    pub fn open(id: u64, creator: Addr, description: String, deadline: u64) -> (p: Proposal)
        ensures
            p@ == (ProposalView {
                id,
                description: description@,
                creator: creator@,
                yes_votes: 0,
                no_votes: 0,
                deadline,
                status: ProposalStatus::Active,
                finalized: false,
            }),
    {
        Proposal {
            id,
            description,
            creator,
            yes_votes: 0,
            no_votes: 0,
            deadline,
            status: ProposalStatus::Active,
            finalized: false,
        }
    }

    /// Counts a ballot at ledger time `now`; refused once finalized or past the deadline.
    pub fn count_ballot(&mut self, in_favor: bool, now: u64) -> (r: Result<(), VotingError>)
        requires
            ballot_defined(old(self)@, in_favor, now),
        ensures
            match ballot_spec(old(self)@, in_favor, now) {
                Ok(p) => r is Ok && final(self)@ == p,
                Err(e) => r == Err::<(), VotingError>(e) && final(self)@ == old(self)@,
            },
    {
        if self.finalized {
            return Err(VotingError::AlreadyFinalized);
        }
        if now > self.deadline {
            return Err(VotingError::VotingEnded);
        }
        if in_favor {
            self.yes_votes = self.yes_votes + 1;
        } else {
            self.no_votes = self.no_votes + 1;
        }
        Ok(())
    }

    /// Decides the proposal by its tally at ledger time `now`; refused once finalized or
    /// while the deadline has not passed.
    pub fn decide(&mut self, now: u64) -> (r: Result<(), VotingError>)
        ensures
            match decide_spec(old(self)@, now) {
                Ok(p) => r is Ok && final(self)@ == p,
                Err(e) => r == Err::<(), VotingError>(e) && final(self)@ == old(self)@,
            },
    {
        if self.finalized {
            return Err(VotingError::AlreadyFinalized);
        }
        if now <= self.deadline {
            return Err(VotingError::VotingNotEnded);
        }
        self.status = if self.yes_votes > self.no_votes {
            ProposalStatus::Passed
        } else if self.no_votes > self.yes_votes {
            ProposalStatus::Rejected
        } else {
            ProposalStatus::Tied
        };
        self.finalized = true;
        Ok(())
    }
}

/// The contract's state.
pub struct VotingContract {
    proposals: Vec<Proposal>,
    votes: KeyMap<VoteKey, bool>,
}

impl View for VotingContract {
    type V = VotingView;

    closed spec fn view(&self) -> VotingView {
        VotingView { proposals: self.proposals@.map_values(|p: Proposal| p@), votes: self.votes@ }
    }
}

impl VotingContract {
    /// The state's invariant.
    pub closed spec fn wf(&self) -> bool {
        self.votes.wf() && voting_valid(self@)
    }

    /// A contract with no proposal.
    pub fn new() -> (r: VotingContract)
        ensures
            r.wf(),
            r@.proposals.len() == 0,
            r@.votes == Map::<(u64, Seq<char>), bool>::empty(),
    {
        let r = VotingContract { proposals: Vec::new(), votes: KeyMap::new() };
        assert(r@.proposals =~= Seq::<ProposalView>::empty());
        r
    }

    /// The contract holding the stored proposals `proposals` and the recorded ballots
    /// `ballots` (proposal id, voter, side), when they form a valid state: every proposal at
    /// its id, finalized exactly once decided, no voter twice on one proposal, every ballot
    /// on an existing proposal, and each tally equal to its ballots. `None` otherwise.
    #[verifier::loop_isolation(false)]
    pub fn restore(proposals: Vec<Proposal>, ballots: Vec<(u64, Addr, bool)>) -> (r: Option<VotingContract>)
        ensures
            r is Some <==> restorable(proposals@.map_values(|p: Proposal| p@), ballots_view(ballots@)),
            r matches Some(c) ==> c.wf() && c@ == (VotingView {
                proposals: proposals@.map_values(|p: Proposal| p@),
                votes: ballots_map(ballots_view(ballots@)),
            }),
    {
        let ghost ps = proposals@.map_values(|p: Proposal| p@);
        let ghost bv = ballots_view(ballots@);
        proof {
            lemma_ballots_map_keys(bv);
        }
        let n = proposals.len();
        let mut yes: Vec<u64> = Vec::new();
        let mut no: Vec<u64> = Vec::new();
        let mut i: usize = 0;
        while i < n
            invariant
                i <= n,
                yes@.len() == i,
                no@.len() == i,
                forall|j: int| 0 <= j < i ==> yes@[j] == 0 && no@[j] == 0,
            decreases n - i,
        {
            yes.push(0);
            no.push(0);
            i = i + 1;
        }
        let mut votes: KeyMap<VoteKey, bool> = KeyMap::new();
        proof {
            assert(bv.take(0) =~= Seq::<(u64, Seq<char>, bool)>::empty());
            let ghost vs = votes@;
            let ghost ys = yes@;
            let ghost ns = no@;
            assert(vs =~= Map::<(u64, Seq<char>), bool>::empty());
            assert forall|j: int| 0 <= j < ys.len() implies #[trigger] tally_counts(vs, ys, ns, 0, j) by {
                assert(voters_on(vs, j as u64, true) =~= Set::<Seq<char>>::empty());
                assert(voters_on(vs, j as u64, false) =~= Set::<Seq<char>>::empty());
            }
            assert(tallies_count(vs, ys, ns, 0));
        }
        let m = ballots.len();
        let mut k: usize = 0;
        while k < m
            invariant
                k <= m,
                yes@.len() == n,
                no@.len() == n,
                votes.wf(),
                votes@ == ballots_map(bv.take(k as int)),
                ballots_distinct(bv.take(k as int)),
                forall|key: (u64, Seq<char>)| #[trigger] votes@.contains_key(key) ==> key.0 < n,
                tallies_count(votes@, yes@, no@, k as int),
            decreases m - k,
        {
            let pid = ballots[k].0;
            let side = ballots[k].2;
            let ghost pre = bv.take(k as int);
            let ghost kv = (bv[k as int].0, bv[k as int].1);
            proof {
                lemma_ballots_map_keys(pre);
                assert(bv[k as int] == (pid, ballots@[k as int].1@, side));
            }
            if pid >= n as u64 {
                proof {
                    assert(0 <= k < bv.len() && kv == (bv[k as int].0, bv[k as int].1));
                    assert(ballots_map(bv).contains_key(kv));
                    assert(ps.len() == n);
                    assert(kv.0 == pid);
                    assert(kv.0 >= ps.len());
                    let vv = VotingView { proposals: ps, votes: ballots_map(bv) };
                    if voting_valid(vv) {
                        assert(vv.votes.contains_key(kv));
                    }
                }
                return None;
            }
            let key = VoteKey { proposal_id: pid, voter: ballots[k].1.clone() };
            if votes.contains_key(&key) {
                proof {
                    let j = choose|j: int| 0 <= j < pre.len() && kv == (pre[j].0, pre[j].1);
                    assert(bv[j] == pre[j]);
                    assert(!ballots_distinct(bv));
                }
                return None;
            }
            let ghost v0 = votes@;
            let ghost y0 = yes@;
            let ghost n0 = no@;
            votes.insert(key, side);
            let idx = pid as usize;
            proof {
                assert(tally_counts(v0, yes@, no@, k as int, idx as int));
            }
            if side {
                let t = yes[idx];
                yes.set(idx, t + 1);
            } else {
                let t = no[idx];
                no.set(idx, t + 1);
            }
            proof {
                let post = bv.take(k + 1);
                assert(post.drop_last() =~= pre);
                assert(votes@ == ballots_map(post));
                assert forall|a: int, b: int| 0 <= a < b < post.len() implies (post[a].0, post[a].1) != (
                    post[b].0,
                    post[b].1,
                ) by {
                    if b == k {
                        assert(pre[a] == post[a]);
                    } else {
                        assert(pre[a] == post[a] && pre[b] == post[b]);
                    }
                }
                assert forall|key2: (u64, Seq<char>)| #[trigger] votes@.contains_key(key2) implies key2.0 < n by {
                    if key2 != kv {
                        assert(v0.contains_key(key2));
                    }
                }
                assert forall|j: int| 0 <= j < yes@.len() implies #[trigger] tally_counts(
                    votes@,
                    yes@,
                    no@,
                    k + 1,
                    j,
                ) by {
                    assert(tally_counts(v0, y0, n0, k as int, j));
                    if j != idx {
                        assert(yes@[j] == y0[j] && no@[j] == n0[j]);
                        assert(voters_on(votes@, j as u64, true) =~= voters_on(v0, j as u64, true));
                        assert(voters_on(votes@, j as u64, false) =~= voters_on(v0, j as u64, false));
                    } else {
                        let same = voters_on(v0, j as u64, side);
                        let other = voters_on(v0, j as u64, !side);
                        assert(voters_on(votes@, j as u64, side) =~= same.insert(kv.1));
                        assert(voters_on(votes@, j as u64, !side) =~= other);
                        assert(!same.contains(kv.1));
                    }
                }
                assert(tallies_count(votes@, yes@, no@, k + 1));
            }
            k = k + 1;
        }
        proof {
            assert(bv.take(m as int) =~= bv);
        }
        let mut i: usize = 0;
        while i < n
            invariant
                i <= n,
                forall|j: int|
                    0 <= j < i ==> {
                        &&& (#[trigger] ps[j]).id == j
                        &&& ps[j].finalized <==> ps[j].status != ProposalStatus::Active
                        &&& ps[j].yes_votes == yes@[j]
                        &&& ps[j].no_votes == no@[j]
                    },
            decreases n - i,
        {
            let p = &proposals[i];
            proof {
                assert(ps[i as int] == p@);
            }
            if p.id != i as u64 || p.finalized != (p.status != ProposalStatus::Active) || p.yes_votes
                != yes[i] || p.no_votes != no[i] {
                proof {
                    assert(!voting_valid(VotingView { proposals: ps, votes: ballots_map(bv) })) by {
                        if voting_valid(VotingView { proposals: ps, votes: ballots_map(bv) }) {
                            assert(ps[i as int].id == i);
                            assert(tally_counts(votes@, yes@, no@, m as int, i as int));
                        }
                    }
                }
                return None;
            }
            i = i + 1;
        }
        let r = VotingContract { proposals, votes };
        proof {
            assert(r@.proposals == ps);
            assert forall|j: int| 0 <= j < r@.proposals.len() implies {
                &&& (#[trigger] r@.proposals[j]).id == j
                &&& r@.proposals[j].finalized <==> r@.proposals[j].status != ProposalStatus::Active
                &&& voters_on(r@.votes, j as u64, true).finite()
                &&& voters_on(r@.votes, j as u64, true).len() == r@.proposals[j].yes_votes
                &&& voters_on(r@.votes, j as u64, false).finite()
                &&& voters_on(r@.votes, j as u64, false).len() == r@.proposals[j].no_votes
            } by {
                assert(ps[j].id == j);
                assert(tally_counts(votes@, yes@, no@, m as int, j));
            }
        }
        Some(r)
    }

    /// Opens a proposal that accepts ballots until `deadline` and returns its id.
    pub fn create_proposal(&mut self, creator: Addr, description: String, deadline: u64) -> (r: u64)
        requires
            old(self).wf(),
            old(self)@.proposals.len() < u64::MAX,
        ensures
            final(self).wf(),
            (final(self)@, r) == create_proposal_spec(old(self)@, creator@, description@, deadline),
    {
        let id = self.proposals.len() as u64;
        let p = Proposal::open(id, creator, description, deadline);
        let ghost v0 = self@;
        self.proposals.push(p);
        proof {
            assert(self@.proposals =~= v0.proposals.push(p@));
            assert forall|i: int| 0 <= i < self@.proposals.len() implies {
                &&& (#[trigger] self@.proposals[i]).id == i
                &&& self@.proposals[i].finalized <==> self@.proposals[i].status != ProposalStatus::Active
                &&& voters_on(self@.votes, i as u64, true).finite()
                &&& voters_on(self@.votes, i as u64, true).len() == self@.proposals[i].yes_votes
                &&& voters_on(self@.votes, i as u64, false).finite()
                &&& voters_on(self@.votes, i as u64, false).len() == self@.proposals[i].no_votes
            } by {
                if i < v0.proposals.len() {
                    assert(self@.proposals[i] == v0.proposals[i]);
                } else {
                    assert(voters_on(self@.votes, i as u64, true) =~= Set::<Seq<char>>::empty()) by {
                        assert forall|x: Seq<char>| !#[trigger] voters_on(self@.votes, i as u64, true).contains(x) by {
                            if self@.votes.contains_key((i as u64, x)) {
                                assert(v0.votes.contains_key((i as u64, x)));
                            }
                        }
                    }
                    assert(voters_on(self@.votes, i as u64, false) =~= Set::<Seq<char>>::empty()) by {
                        assert forall|x: Seq<char>| !#[trigger] voters_on(self@.votes, i as u64, false).contains(x) by {
                            if self@.votes.contains_key((i as u64, x)) {
                                assert(v0.votes.contains_key((i as u64, x)));
                            }
                        }
                    }
                }
            }
            assert forall|k: (u64, Seq<char>)| #[trigger] self@.votes.contains_key(k) implies k.0
                < self@.proposals.len() by {
                assert(v0.votes.contains_key(k));
            }
        }
        id
    }

    /// Whether `vote` with these inputs would overflow the tally of the ballot's side.
    pub fn vote_faults(&self, proposal_id: u64, voter: &Addr, in_favor: bool, now: u64) -> (r: bool)
        requires
            self.wf(),
        ensures
            r == !vote_defined(self@, proposal_id, voter@, in_favor, now),
    {
        if self.has_voted(proposal_id, voter) || proposal_id >= self.proposals.len() as u64 {
            return false;
        }
        let p = &self.proposals[proposal_id as usize];
        if p.finalized || now > p.deadline {
            return false;
        }
        if in_favor {
            p.yes_votes == u64::MAX
        } else {
            p.no_votes == u64::MAX
        }
    }

    /// Records `voter`'s ballot on a proposal at ledger time `now` and counts it; refused
    /// when the voter already voted, the proposal does not exist, it is finalized, or its
    /// deadline has passed (checked in that order).
    pub fn vote(&mut self, proposal_id: u64, voter: &Addr, in_favor: bool, now: u64) -> (r: Result<
        (),
        VotingError,
    >)
        requires
            old(self).wf(),
            vote_defined(old(self)@, proposal_id, voter@, in_favor, now),
        ensures
            final(self).wf(),
            match vote_spec(old(self)@, proposal_id, voter@, in_favor, now) {
                Ok(v) => r is Ok && final(self)@ == v,
                Err(e) => r == Err::<(), VotingError>(e) && final(self)@ == old(self)@,
            },
    {
        let key = VoteKey { proposal_id, voter: voter.clone() };
        admit_ballot(self.votes.contains_key(&key), proposal_id < self.proposals.len() as u64)?;
        let i = proposal_id as usize;
        let ghost v0 = self@;
        let mut p = self.proposals.remove(i);
        let ghost p0 = p@;
        let counted = p.count_ballot(in_favor, now);
        let ghost p1 = p@;
        self.proposals.insert(i, p);
        if let Err(e) = counted {
            assert(self@.proposals =~= v0.proposals);
            return Err(e);
        }
        self.votes.insert(key, in_favor);
        proof {
            assert(self@.proposals =~= v0.proposals.update(i as int, p1));
            let kv = (proposal_id, voter@);
            assert(self@.votes == v0.votes.insert(kv, in_favor));
            assert forall|k: (u64, Seq<char>)| #[trigger] self@.votes.contains_key(k) implies k.0
                < self@.proposals.len() by {
                if k != kv {
                    assert(v0.votes.contains_key(k));
                }
            }
            assert forall|j: int| 0 <= j < self@.proposals.len() implies {
                &&& (#[trigger] self@.proposals[j]).id == j
                &&& self@.proposals[j].finalized <==> self@.proposals[j].status != ProposalStatus::Active
                &&& voters_on(self@.votes, j as u64, true).finite()
                &&& voters_on(self@.votes, j as u64, true).len() == self@.proposals[j].yes_votes
                &&& voters_on(self@.votes, j as u64, false).finite()
                &&& voters_on(self@.votes, j as u64, false).len() == self@.proposals[j].no_votes
            } by {
                let pj = v0.proposals[j];
                assert(v0.proposals[j].id == j);
                if j != i {
                    assert(self@.proposals[j] == pj);
                    assert(voters_on(self@.votes, j as u64, true) =~= voters_on(v0.votes, j as u64, true));
                    assert(voters_on(self@.votes, j as u64, false) =~= voters_on(v0.votes, j as u64, false));
                } else {
                    let same = voters_on(v0.votes, j as u64, in_favor);
                    let other = voters_on(v0.votes, j as u64, !in_favor);
                    assert(voters_on(self@.votes, j as u64, in_favor) =~= same.insert(voter@));
                    assert(voters_on(self@.votes, j as u64, !in_favor) =~= other);
                    assert(!same.contains(voter@));
                }
            }
        }
        Ok(())
    }

    /// The proposal with id `proposal_id`.
    pub fn get_proposal(&self, proposal_id: u64) -> (r: Result<&Proposal, VotingError>)
        ensures
            proposal_id >= self@.proposals.len() ==> r == Err::<&Proposal, VotingError>(
                VotingError::ProposalNotFound,
            ),
            proposal_id < self@.proposals.len() ==> (r matches Ok(p) && p@
                == self@.proposals[proposal_id as int]),
    {
        if proposal_id >= self.proposals.len() as u64 {
            return Err(VotingError::ProposalNotFound);
        }
        Ok(&self.proposals[proposal_id as usize])
    }

    /// Whether `voter` has a ballot recorded on the proposal.
    pub fn has_voted(&self, proposal_id: u64, voter: &Addr) -> (r: bool)
        requires
            self.wf(),
        ensures
            r == self@.votes.contains_key((proposal_id, voter@)),
    {
        let key = VoteKey { proposal_id, voter: voter.clone() };
        self.votes.contains_key(&key)
    }

    /// The number of proposals created so far.
    pub fn total_proposals(&self) -> (r: u64)
        requires
            self.wf(),
        ensures
            r == self@.proposals.len(),
    {
        self.proposals.len() as u64
    }

    /// Decides a proposal once its deadline has passed (ledger time `now` beyond it):
    /// passed, rejected or tied by its tally.
    pub fn finalize(&mut self, proposal_id: u64, now: u64) -> (r: Result<(), VotingError>)
        requires
            old(self).wf(),
        ensures
            final(self).wf(),
            match finalize_spec(old(self)@, proposal_id, now) {
                Ok(v) => r is Ok && final(self)@ == v,
                Err(e) => r == Err::<(), VotingError>(e) && final(self)@ == old(self)@,
            },
    {
        if proposal_id >= self.proposals.len() as u64 {
            return Err(VotingError::ProposalNotFound);
        }
        let i = proposal_id as usize;
        let ghost v0 = self@;
        let mut p = self.proposals.remove(i);
        let decided = p.decide(now);
        let ghost p1 = p@;
        self.proposals.insert(i, p);
        if let Err(e) = decided {
            assert(self@.proposals =~= v0.proposals);
            return Err(e);
        }
        proof {
            assert(self@.proposals =~= v0.proposals.update(i as int, p1));
            assert forall|j: int| 0 <= j < self@.proposals.len() implies {
                &&& (#[trigger] self@.proposals[j]).id == j
                &&& self@.proposals[j].finalized <==> self@.proposals[j].status != ProposalStatus::Active
                &&& voters_on(self@.votes, j as u64, true).finite()
                &&& voters_on(self@.votes, j as u64, true).len() == self@.proposals[j].yes_votes
                &&& voters_on(self@.votes, j as u64, false).finite()
                &&& voters_on(self@.votes, j as u64, false).len() == self@.proposals[j].no_votes
            } by {
                assert(v0.proposals[j].id == j);
            }
        }
        Ok(())
    }

    /// The status of a proposal.
    pub fn get_status(&self, proposal_id: u64) -> (r: Result<ProposalStatus, VotingError>)
        ensures
            proposal_id >= self@.proposals.len() ==> r == Err::<ProposalStatus, VotingError>(
                VotingError::ProposalNotFound,
            ),
            proposal_id < self@.proposals.len() ==> r == Ok::<ProposalStatus, VotingError>(
                self@.proposals[proposal_id as int].status,
            ),
    {
        let p = self.get_proposal(proposal_id)?;
        Ok(p.status)
    }

    /// The tally `(yes, no)` of a proposal.
    pub fn get_tally(&self, proposal_id: u64) -> (r: Result<(u64, u64), VotingError>)
        ensures
            proposal_id >= self@.proposals.len() ==> r == Err::<(u64, u64), VotingError>(
                VotingError::ProposalNotFound,
            ),
            proposal_id < self@.proposals.len() ==> r == Ok::<(u64, u64), VotingError>(
                (
                    self@.proposals[proposal_id as int].yes_votes,
                    self@.proposals[proposal_id as int].no_votes,
                ),
            ),
    {
        let p = self.get_proposal(proposal_id)?;
        Ok((p.yes_votes, p.no_votes))
    }

    /// Whether a proposal is finalized.
    pub fn is_finalized(&self, proposal_id: u64) -> (r: Result<bool, VotingError>)
        ensures
            proposal_id >= self@.proposals.len() ==> r == Err::<bool, VotingError>(
                VotingError::ProposalNotFound,
            ),
            proposal_id < self@.proposals.len() ==> r == Ok::<bool, VotingError>(
                self@.proposals[proposal_id as int].finalized,
            ),
    {
        let p = self.get_proposal(proposal_id)?;
        Ok(p.finalized)
    }
}

/// Each voter's ballot on a proposal counts once: after a ballot is accepted, any further
/// ballot by the same voter on the same proposal is refused and changes nothing.
pub proof fn lemma_second_vote_refused(
    v: VotingView,
    pid: u64,
    voter: Seq<char>,
    first: bool,
    second: bool,
    now1: u64,
    now2: u64,
)
    requires
        vote_spec(v, pid, voter, first, now1) is Ok,
    ensures
        vote_spec(vote_spec(v, pid, voter, first, now1)->Ok_0, pid, voter, second, now2)
            == Err::<VotingView, VotingError>(VotingError::AlreadyVoted),
{
}

/// An accepted ballot adds one to exactly its side of the tally.
pub proof fn lemma_vote_counts_one(v: VotingView, pid: u64, voter: Seq<char>, in_favor: bool, now: u64)
    requires
        vote_spec(v, pid, voter, in_favor, now) is Ok,
    ensures
        ({
            let w = vote_spec(v, pid, voter, in_favor, now)->Ok_0;
            let p = v.proposals[pid as int];
            let q = w.proposals[pid as int];
            &&& in_favor ==> q.yes_votes == (p.yes_votes + 1) as u64 && q.no_votes == p.no_votes
            &&& !in_favor ==> q.no_votes == (p.no_votes + 1) as u64 && q.yes_votes == p.yes_votes
        }),
{
}

/// A finalized proposal is decided by its tally and accepts no further ballot or finalization.
pub proof fn lemma_finalize_decides(v: VotingView, pid: u64, now: u64, voter: Seq<char>, side: bool, later: u64)
    requires
        finalize_spec(v, pid, now) is Ok,
    ensures
        ({
            let w = finalize_spec(v, pid, now)->Ok_0;
            let p = v.proposals[pid as int];
            &&& w.proposals[pid as int].status == outcome(p.yes_votes, p.no_votes)
            &&& w.proposals[pid as int].finalized
            &&& finalize_spec(w, pid, later) == Err::<VotingView, VotingError>(
                VotingError::AlreadyFinalized,
            )
            &&& vote_spec(w, pid, voter, side, later) is Err
        }),
{
}


/// Deciding a proposal follows its tally: it passes exactly when more voted yes, is
/// rejected exactly when more voted no, and ties exactly when the counts are equal. It
/// succeeds exactly when the proposal is not yet finalized and its deadline has passed, and
/// it changes nothing but the status and the finalized flag.
pub proof fn lemma_decide_follows_tally(p: ProposalView, now: u64)
    ensures
        decide_spec(p, now) is Ok <==> !p.finalized && now > p.deadline,
        decide_spec(p, now) is Ok ==> ({
            let q = decide_spec(p, now)->Ok_0;
            &&& q.status == ProposalStatus::Passed <==> p.yes_votes > p.no_votes
            &&& q.status == ProposalStatus::Rejected <==> p.no_votes > p.yes_votes
            &&& q.status == ProposalStatus::Tied <==> p.yes_votes == p.no_votes
            &&& q.finalized
            &&& q.yes_votes == p.yes_votes
            &&& q.no_votes == p.no_votes
            &&& q.id == p.id && q.description == p.description && q.creator == p.creator
            &&& q.deadline == p.deadline
        }),
{
}

/// Finalizing a proposal decides it by its tally (passed exactly when yes outnumbers no,
/// rejected exactly when no outnumbers yes, tied exactly on equal counts), and leaves every
/// other proposal and every ballot as it was.
pub proof fn lemma_finalize_follows_tally(v: VotingView, pid: u64, now: u64, other: int)
    requires
        finalize_spec(v, pid, now) is Ok,
    ensures
        ({
            let w = finalize_spec(v, pid, now)->Ok_0;
            let p = v.proposals[pid as int];
            let q = w.proposals[pid as int];
            &&& pid < v.proposals.len()
            &&& q.status == ProposalStatus::Passed <==> p.yes_votes > p.no_votes
            &&& q.status == ProposalStatus::Rejected <==> p.no_votes > p.yes_votes
            &&& q.status == ProposalStatus::Tied <==> p.yes_votes == p.no_votes
            &&& q.finalized
            &&& q.yes_votes == p.yes_votes && q.no_votes == p.no_votes
            &&& w.proposals.len() == v.proposals.len()
            &&& (0 <= other < v.proposals.len() && other != pid ==> w.proposals[other] == v.proposals[other])
            &&& w.votes == v.votes
        }),
{
    lemma_decide_follows_tally(v.proposals[pid as int], now);
}

} // verus!
