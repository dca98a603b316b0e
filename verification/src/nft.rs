//! Non-fungible tokens with sequential ids and one owner each.
use vstd::prelude::*;

use crate::address::Addr;

verus! {

/// The refusals of the NFT contract.
#[derive(PartialEq, Eq, Structural, Debug, Clone, Copy)]
pub enum NftError {
    TokenNotFound,
    NotOwner,
}

impl NftError {
    /// The text of the refusal's message.
    pub open spec fn message_text(self) -> Seq<char> {
        match self {
            NftError::TokenNotFound => "token does not exist"@,
            NftError::NotOwner => "not the owner"@,
        }
    }

    /// The message with which the contract refuses.
    pub fn message(&self) -> (r: &'static str)
        ensures
            r@ == self.message_text(),
    {
        match self {
            NftError::TokenNotFound => "token does not exist",
            NftError::NotOwner => "not the owner",
        }
    }
}

/// What `transfer` does to the owners (indexed by token id).
pub open spec fn nft_transfer_spec(owners: Seq<Seq<char>>, token_id: u64, from: Seq<char>, to: Seq<char>) -> Result<
    Seq<Seq<char>>,
    NftError,
> {
    if token_id >= owners.len() {
        Err(NftError::TokenNotFound)
    } else if owners[token_id as int] != from {
        Err(NftError::NotOwner)
    } else {
        Ok(owners.update(token_id as int, to))
    }
}

/// Refuses handing a token over: when it does not exist (no recorded `owner`), or when
/// `from` is not its owner.
pub fn check_transfer(owner: Option<&Addr>, from: &Addr) -> (r: Result<(), NftError>)
    ensures
        match owner {
            None => r == Err::<(), NftError>(NftError::TokenNotFound),
            Some(o) => if o@ != from@ {
                r == Err::<(), NftError>(NftError::NotOwner)
            } else {
                r is Ok
            },
        },
{
    match owner {
        None => Err(NftError::TokenNotFound),
        Some(o) => if o.same(from) {
            Ok(())
        } else {
            Err(NftError::NotOwner)
        },
    }
}

/// The owner of each minted token, indexed by token id.
pub struct NftContract {
    owners: Vec<Addr>,
}

impl View for NftContract {
    type V = Seq<Seq<char>>;

    closed spec fn view(&self) -> Seq<Seq<char>> {
        self.owners@.map_values(|a: Addr| a@)
    }
}

impl NftContract {
    /// A contract with no token.
    pub fn new() -> (r: NftContract)
        ensures
            r@.len() == 0,
    {
        let r = NftContract { owners: Vec::new() };
        assert(r@ =~= Seq::<Seq<char>>::empty());
        r
    }

    /// A contract whose token `i` belongs to `owners[i]`.
    pub fn restore(owners: Vec<Addr>) -> (r: NftContract)
        ensures
            r@ == owners@.map_values(|a: Addr| a@),
    {
        NftContract { owners }
    }

    /// Mints the next token to `to` and returns its id (the number of tokens before it).
    pub fn mint(&mut self, to: Addr) -> (r: u64)
        requires
            old(self)@.len() < u64::MAX,
        ensures
            r == old(self)@.len(),
            final(self)@ == old(self)@.push(to@),
    {
        let id = self.owners.len() as u64;
        let ghost s0 = self@;
        let ghost t = to@;
        self.owners.push(to);
        assert(self@ =~= s0.push(t));
        id
    }

    /// Gives token `token_id` from `from` to `to`; refused when the token does not exist or
    /// `from` does not own it.
    pub fn transfer(&mut self, token_id: u64, from: &Addr, to: Addr) -> (r: Result<(), NftError>)
        ensures
            match nft_transfer_spec(old(self)@, token_id, from@, to@) {
                Ok(s) => r is Ok && final(self)@ == s,
                Err(e) => r == Err::<(), NftError>(e) && final(self)@ == old(self)@,
            },
    {
        let owner = if token_id < self.owners.len() as u64 {
            Some(&self.owners[token_id as usize])
        } else {
            None
        };
        check_transfer(owner, from)?;
        let i = token_id as usize;
        let ghost s0 = self@;
        let ghost t = to@;
        self.owners.set(i, to);
        assert(self@ =~= s0.update(i as int, t));
        Ok(())
    }

    /// The owner of token `token_id`.
    pub fn owner_of(&self, token_id: u64) -> (r: Result<Addr, NftError>)
        ensures
            token_id >= self@.len() ==> r == Err::<Addr, NftError>(NftError::TokenNotFound),
            token_id < self@.len() ==> (r matches Ok(a) && a@ == self@[token_id as int]),
    {
        if token_id >= self.owners.len() as u64 {
            return Err(NftError::TokenNotFound);
        }
        Ok(self.owners[token_id as usize].clone())
    }

    /// The number of tokens minted so far.
    pub fn total_supply(&self) -> (r: u64)
        requires
            self@.len() <= u64::MAX,
        ensures
            r == self@.len(),
    {
        self.owners.len() as u64
    }
}

/// A transfer by the owner hands over exactly that token: it now belongs to the receiver,
/// every other token keeps its owner, and the supply is unchanged.
pub proof fn lemma_transfer_moves_one_token(
    owners: Seq<Seq<char>>,
    token_id: u64,
    to: Seq<char>,
    other: int,
)
    requires
        token_id < owners.len(),
        0 <= other < owners.len(),
        other != token_id,
    ensures
        ({
            let after = nft_transfer_spec(owners, token_id, owners[token_id as int], to)->Ok_0;
            &&& nft_transfer_spec(owners, token_id, owners[token_id as int], to) is Ok
            &&& after[token_id as int] == to
            &&& after[other] == owners[other]
            &&& after.len() == owners.len()
        }),
{
}

} // verus!
