//! An admin-fed price oracle: the admin posts prices per asset, anyone reads them.
use vstd::prelude::*;

use crate::address::Addr;
use crate::keymap::KeyMap;

verus! {

/// A posted price, with the ledger time it was posted at.
pub struct PriceData {
    pub asset: String,
    pub price: i128,
    pub decimals: u32,
    pub timestamp: u64,
}

/// A posted price as plain values.
pub struct PriceDataView {
    pub asset: Seq<char>,
    pub price: i128,
    pub decimals: u32,
    pub timestamp: u64,
}

impl View for PriceData {
    type V = PriceDataView;

    open spec fn view(&self) -> PriceDataView {
        PriceDataView {
            asset: self.asset@,
            price: self.price,
            decimals: self.decimals,
            timestamp: self.timestamp,
        }
    }
}

/// The refusals of the oracle.
#[derive(PartialEq, Eq, Structural, Debug, Clone, Copy)]
pub enum OracleError {
    AlreadyInitialized,
    NotInitialized,
    NotAdmin,
    NegativePrice,
    PriceNotSet,
}

impl OracleError {
    /// The text of the refusal's message.
    pub open spec fn message_text(self) -> Seq<char> {
        match self {
            OracleError::AlreadyInitialized => "already initialized"@,
            OracleError::NotInitialized => "not initialized"@,
            OracleError::NotAdmin => "not the admin"@,
            OracleError::NegativePrice => "price cannot be negative"@,
            OracleError::PriceNotSet => "price not set"@,
        }
    }

    /// The message with which the contract refuses.
    pub fn message(&self) -> (r: &'static str)
        ensures
            r@ == self.message_text(),
    {
        match self {
            OracleError::AlreadyInitialized => "already initialized",
            OracleError::NotInitialized => "not initialized",
            OracleError::NotAdmin => "not the admin",
            OracleError::NegativePrice => "price cannot be negative",
            OracleError::PriceNotSet => "price not set",
        }
    }
}

/// The oracle as plain values: its admin once set, and the latest price of each asset.
pub struct OracleView {
    pub admin: Option<Seq<char>>,
    pub prices: Map<Seq<char>, PriceDataView>,
}

/// What `set_price` does at ledger time `now`.
pub open spec fn set_price_spec(
    v: OracleView,
    admin: Seq<char>,
    asset: Seq<char>,
    price: i128,
    decimals: u32,
    now: u64,
) -> Result<OracleView, OracleError> {
    match v.admin {
        None => Err(OracleError::NotInitialized),
        Some(a) => {
            if a != admin {
                Err(OracleError::NotAdmin)
            } else if price < 0 {
                Err(OracleError::NegativePrice)
            } else {
                Ok(
                    OracleView {
                        prices: v.prices.insert(
                            asset,
                            PriceDataView { asset, price, decimals, timestamp: now },
                        ),
                        ..v
                    },
                )
            }
        },
    }
}

/// What `transfer_admin` does.
pub open spec fn transfer_admin_spec(v: OracleView, current: Seq<char>, new_admin: Seq<char>) -> Result<
    OracleView,
    OracleError,
> {
    match v.admin {
        None => Err(OracleError::NotInitialized),
        Some(a) => if a != current {
            Err(OracleError::NotAdmin)
        } else {
            Ok(OracleView { admin: Some(new_admin), ..v })
        },
    }
}

/// The seconds elapsed from `t` to `now`, zero when `t` is later.
pub open spec fn age(now: u64, t: u64) -> u64 {
    if now >= t {
        (now - t) as u64
    } else {
        0
    }
}

/// The oracle's state.
pub struct OracleContract {
    admin: Option<Addr>,
    prices: KeyMap<String, PriceData>,
}

impl View for OracleContract {
    type V = OracleView;

    closed spec fn view(&self) -> OracleView {
        OracleView {
            admin: match self.admin {
                Some(a) => Some(a@),
                None => None,
            },
            prices: self.prices@.map_values(|p: PriceData| p@),
        }
    }
}

impl OracleContract {
    /// The state's invariant: each asset is held once.
    pub closed spec fn wf(&self) -> bool {
        self.prices.wf()
    }

    /// An oracle with no admin and no price.
    pub fn new() -> (r: OracleContract)
        ensures
            r.wf(),
            r@.admin is None,
            r@.prices == Map::<Seq<char>, PriceDataView>::empty(),
    {
        let r = OracleContract { admin: None, prices: KeyMap::new() };
        assert(r@.prices =~= Map::<Seq<char>, PriceDataView>::empty());
        r
    }

    /// An oracle restored from its stored admin, with no price loaded yet.
    pub fn restore(admin: Option<Addr>) -> (r: OracleContract)
        ensures
            r.wf(),
            r@.admin == match admin {
                Some(a) => Some(a@),
                None => None::<Seq<char>>,
            },
            r@.prices == Map::<Seq<char>, PriceDataView>::empty(),
    {
        let r = OracleContract { admin, prices: KeyMap::new() };
        assert(r@.prices =~= Map::<Seq<char>, PriceDataView>::empty());
        r
    }

    /// Loads a stored price under its asset.
    pub fn load_price(&mut self, data: PriceData)
        requires
            old(self).wf(),
        ensures
            final(self).wf(),
            final(self)@ == (OracleView { prices: old(self)@.prices.insert(data@.asset, data@), ..old(self)@ }),
    {
        let ghost v0 = self@;
        let ghost d = data@;
        let asset = data.asset.clone();
        self.prices.insert(asset, data);
        assert(self@.prices =~= v0.prices.insert(d.asset, d));
    }

    /// Sets the admin; refused once one is set.
    pub fn initialize(&mut self, admin: Addr) -> (r: Result<(), OracleError>)
        ensures
            final(self).wf() == old(self).wf(),
            old(self)@.admin is Some ==> r == Err::<(), OracleError>(OracleError::AlreadyInitialized)
                && final(self)@ == old(self)@,
            old(self)@.admin is None ==> r is Ok && final(self)@ == (OracleView {
                admin: Some(admin@),
                ..old(self)@
            }),
    {
        if self.admin.is_some() {
            return Err(OracleError::AlreadyInitialized);
        }
        self.admin = Some(admin);
        Ok(())
    }

    fn check_admin(&self, who: &Addr) -> (r: Result<(), OracleError>)
        ensures
            match self@.admin {
                None => r == Err::<(), OracleError>(OracleError::NotInitialized),
                Some(a) => if a != who@ {
                    r == Err::<(), OracleError>(OracleError::NotAdmin)
                } else {
                    r is Ok
                },
            },
    {
        match &self.admin {
            None => Err(OracleError::NotInitialized),
            Some(a) => if a.same(who) {
                Ok(())
            } else {
                Err(OracleError::NotAdmin)
            },
        }
    }

    /// Posts `price` (with `decimals`) for `asset` at ledger time `now`; only the admin may,
    /// and the price may not be negative.
    pub fn set_price(&mut self, admin: &Addr, asset: String, price: i128, decimals: u32, now: u64) -> (r:
        Result<(), OracleError>)
        requires
            old(self).wf(),
        ensures
            final(self).wf(),
            match set_price_spec(old(self)@, admin@, asset@, price, decimals, now) {
                Ok(v) => r is Ok && final(self)@ == v,
                Err(e) => r == Err::<(), OracleError>(e) && final(self)@ == old(self)@,
            },
    {
        self.check_admin(admin)?;
        if price < 0 {
            return Err(OracleError::NegativePrice);
        }
        let ghost v0 = self@;
        let ghost a = asset@;
        let data = PriceData { asset: asset.clone(), price, decimals, timestamp: now };
        self.prices.insert(asset, data);
        proof {
            assert(self@.prices =~= v0.prices.insert(
                a,
                PriceDataView { asset: a, price, decimals, timestamp: now },
            ));
        }
        Ok(())
    }

    /// The latest price of `asset`.
    pub fn get_price(&self, asset: &String) -> (r: Result<i128, OracleError>)
        requires
            self.wf(),
        ensures
            !self@.prices.contains_key(asset@) ==> r == Err::<i128, OracleError>(OracleError::PriceNotSet),
            self@.prices.contains_key(asset@) ==> r == Ok::<i128, OracleError>(
                self@.prices[asset@].price,
            ),
    {
        let data = self.get_price_data(asset)?;
        Ok(data.price)
    }

    /// The latest price data of `asset`.
    pub fn get_price_data(&self, asset: &String) -> (r: Result<&PriceData, OracleError>)
        requires
            self.wf(),
        ensures
            !self@.prices.contains_key(asset@) ==> r == Err::<&PriceData, OracleError>(
                OracleError::PriceNotSet,
            ),
            self@.prices.contains_key(asset@) ==> (r matches Ok(d) && d@ == self@.prices[asset@]),
    {
        match self.prices.get(asset) {
            Some(d) => Ok(d),
            None => Err(OracleError::PriceNotSet),
        }
    }

    /// Seconds since `asset`'s price was posted, at ledger time `now` (zero if posted later).
    pub fn get_price_age(&self, asset: &String, now: u64) -> (r: Result<u64, OracleError>)
        requires
            self.wf(),
        ensures
            !self@.prices.contains_key(asset@) ==> r == Err::<u64, OracleError>(OracleError::PriceNotSet),
            self@.prices.contains_key(asset@) ==> r == Ok::<u64, OracleError>(
                age(now, self@.prices[asset@].timestamp),
            ),
    {
        let data = self.get_price_data(asset)?;
        Ok(now.saturating_sub(data.timestamp))
    }

    /// Whether a price was posted for `asset`.
    pub fn has_price(&self, asset: &String) -> (r: bool)
        requires
            self.wf(),
        ensures
            r == self@.prices.contains_key(asset@),
    {
        self.prices.contains_key(asset)
    }

    /// The admin; refused before initialization.
    pub fn get_admin(&self) -> (r: Result<Addr, OracleError>)
        ensures
            match self@.admin {
                None => r == Err::<Addr, OracleError>(OracleError::NotInitialized),
                Some(a) => r matches Ok(x) && x@ == a,
            },
    {
        match &self.admin {
            Some(a) => Ok(a.clone()),
            None => Err(OracleError::NotInitialized),
        }
    }

    /// Hands the admin role from `current_admin` to `new_admin`; only the admin may.
    pub fn transfer_admin(&mut self, current_admin: &Addr, new_admin: Addr) -> (r: Result<(), OracleError>)
        ensures
            final(self).wf() == old(self).wf(),
            match transfer_admin_spec(old(self)@, current_admin@, new_admin@) {
                Ok(v) => r is Ok && final(self)@ == v,
                Err(e) => r == Err::<(), OracleError>(e) && final(self)@ == old(self)@,
            },
    {
        self.check_admin(current_admin)?;
        self.admin = Some(new_admin);
        Ok(())
    }
}

/// Reading a price right after the admin posts it gives the posted price, aged zero.
pub proof fn lemma_set_then_get(
    v: OracleView,
    admin: Seq<char>,
    asset: Seq<char>,
    price: i128,
    decimals: u32,
    now: u64,
)
    requires
        v.admin == Some(admin),
        price >= 0,
    ensures
        set_price_spec(v, admin, asset, price, decimals, now) is Ok,
        set_price_spec(v, admin, asset, price, decimals, now)->Ok_0.prices.contains_key(asset),
        set_price_spec(v, admin, asset, price, decimals, now)->Ok_0.prices[asset].price == price,
        age(now, set_price_spec(v, admin, asset, price, decimals, now)->Ok_0.prices[asset].timestamp)
            == 0,
{
}

/// Only the admin changes prices: a post by anyone else is refused and changes nothing.
pub proof fn lemma_only_admin_posts(
    v: OracleView,
    who: Seq<char>,
    asset: Seq<char>,
    price: i128,
    decimals: u32,
    now: u64,
)
    requires
        v.admin != Some(who),
    ensures
        set_price_spec(v, who, asset, price, decimals, now) is Err,
{
}

/// A post replaces the asset's whole price data: after the admin posts `price` with
/// `decimals` at time `now`, the asset's data is exactly that asset, price, decimals and
/// time, whatever was stored before; every other asset's data and the admin are unchanged.
/// The post succeeds exactly when the poster is the admin and the price is not negative.
pub proof fn lemma_set_price_replaces_data(
    v: OracleView,
    admin: Seq<char>,
    asset: Seq<char>,
    price: i128,
    decimals: u32,
    now: u64,
    other: Seq<char>,
)
    ensures
        set_price_spec(v, admin, asset, price, decimals, now) is Ok <==> v.admin == Some(admin) && price >= 0,
        set_price_spec(v, admin, asset, price, decimals, now) is Ok ==> ({
            let w = set_price_spec(v, admin, asset, price, decimals, now)->Ok_0;
            &&& w.prices.contains_key(asset)
            &&& w.prices[asset].asset == asset
            &&& w.prices[asset].price == price
            &&& w.prices[asset].decimals == decimals
            &&& w.prices[asset].timestamp == now
            &&& (other != asset ==> (w.prices.contains_key(other) <==> v.prices.contains_key(other)))
            &&& (other != asset && v.prices.contains_key(other) ==> w.prices[other] == v.prices[other])
            &&& w.admin == v.admin
        }),
{
}

} // verus!
