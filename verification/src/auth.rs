//! Authorization patterns over a balance table: an admin, roles, and a pause switch.
use vstd::prelude::*;

use crate::address::Addr;
use crate::arith::ArithFault;
use crate::keymap::KeyMap;

verus! {

/// The role an address holds; an address without a recorded role is a `User`.
#[derive(PartialEq, Eq, Structural, Debug, Clone, Copy)]
pub enum Role {
    Admin,
    Moderator,
    User,
}

/// The refusals of the contract.
#[derive(PartialEq, Eq, Structural, Debug, Clone, Copy)]
pub enum AuthError {
    AlreadyInitialized,
    NotInitialized,
    NotAdmin,
    InsufficientPermissions,
    InsufficientBalance,
    Paused,
}

impl AuthError {
    /// The text of the refusal's message.
    pub open spec fn message_text(self) -> Seq<char> {
        match self {
            AuthError::AlreadyInitialized => "already initialized"@,
            AuthError::NotInitialized => "not initialized"@,
            AuthError::NotAdmin => "not the admin"@,
            AuthError::InsufficientPermissions => "insufficient permissions"@,
            AuthError::InsufficientBalance => "insufficient balance"@,
            AuthError::Paused => "contract is paused"@,
        }
    }

    /// The message with which the contract refuses.
    pub fn message(&self) -> (r: &'static str)
        ensures
            r@ == self.message_text(),
    {
        match self {
            AuthError::AlreadyInitialized => "already initialized",
            AuthError::NotInitialized => "not initialized",
            AuthError::NotAdmin => "not the admin",
            AuthError::InsufficientPermissions => "insufficient permissions",
            AuthError::InsufficientBalance => "insufficient balance",
            AuthError::Paused => "contract is paused",
        }
    }
}

/// The contract as plain values.
pub struct AuthView {
    pub admin: Option<Seq<char>>,
    pub paused: bool,
    pub roles: Map<Seq<char>, Role>,
    pub balances: Map<Seq<char>, i128>,
}

impl AuthView {
    /// The role of `a` (`User` when none was granted).
    pub open spec fn role_of(self, a: Seq<char>) -> Role {
        if self.roles.contains_key(a) {
            self.roles[a]
        } else {
            Role::User
        }
    }

    /// The balance of `a` (zero when none was set).
    pub open spec fn balance_of(self, a: Seq<char>) -> i128 {
        if self.balances.contains_key(a) {
            self.balances[a]
        } else {
            0
        }
    }

    /// The refusal, if any, of an admin-only call made by `who`.
    pub open spec fn admin_check(self, who: Seq<char>) -> Option<AuthError> {
        match self.admin {
            None => Some(AuthError::NotInitialized),
            Some(a) => if a != who {
                Some(AuthError::NotAdmin)
            } else {
                None
            },
        }
    }
}

/// The value `x` fits in an `i128`.
pub open spec fn fits(x: int) -> bool {
    i128::MIN <= x <= i128::MAX
}

/// What `initialize` does.
pub open spec fn auth_initialize_spec(v: AuthView, admin: Seq<char>) -> Result<AuthView, AuthError> {
    if v.admin is Some {
        Err(AuthError::AlreadyInitialized)
    } else {
        Ok(AuthView { admin: Some(admin), paused: false, roles: v.roles.insert(admin, Role::Admin), ..v })
    }
}

/// What `admin_set_balance` does.
pub open spec fn admin_set_balance_spec(v: AuthView, admin: Seq<char>, user: Seq<char>, amount: i128) -> Result<
    AuthView,
    AuthError,
> {
    match v.admin_check(admin) {
        Some(e) => Err(e),
        None => Ok(AuthView { balances: v.balances.insert(user, amount), ..v }),
    }
}

/// What `moderate_set_balance` does: only an admin or a moderator may.
pub open spec fn moderate_set_balance_spec(v: AuthView, caller: Seq<char>, user: Seq<char>, amount: i128) -> Result<
    AuthView,
    AuthError,
> {
    if v.role_of(caller) != Role::Admin && v.role_of(caller) != Role::Moderator {
        Err(AuthError::InsufficientPermissions)
    } else {
        Ok(AuthView { balances: v.balances.insert(user, amount), ..v })
    }
}

/// The balances after debiting `amount` from `from`.
pub open spec fn auth_debited(v: AuthView, from: Seq<char>, amount: i128) -> AuthView {
    AuthView { balances: v.balances.insert(from, (v.balance_of(from) - amount) as i128), ..v }
}

/// What `multi_auth_transfer` does: `from` is debited, then `to` is credited, so a transfer
/// from an account to itself leaves its balance as it was.
pub open spec fn multi_auth_transfer_spec(
    v: AuthView,
    admin: Seq<char>,
    from: Seq<char>,
    to: Seq<char>,
    amount: i128,
) -> Result<AuthView, AuthError> {
    match v.admin_check(admin) {
        Some(e) => Err(e),
        None => if v.balance_of(from) < amount {
            Err(AuthError::InsufficientBalance)
        } else {
            let d = auth_debited(v, from, amount);
            Ok(AuthView { balances: d.balances.insert(to, (d.balance_of(to) + amount) as i128), ..v })
        },
    }
}

/// The first arithmetic fault, if any, that `multi_auth_transfer` meets: only once the admin
/// and balance checks have passed, the debit and then the credit.
pub open spec fn multi_auth_transfer_fault(
    v: AuthView,
    admin: Seq<char>,
    from: Seq<char>,
    to: Seq<char>,
    amount: i128,
) -> Option<ArithFault> {
    if v.admin_check(admin) is Some || v.balance_of(from) < amount {
        None
    } else if !fits(v.balance_of(from) - amount) {
        Some(ArithFault::SubOverflow)
    } else if !fits(auth_debited(v, from, amount).balance_of(to) + amount) {
        Some(ArithFault::AddOverflow)
    } else {
        None
    }
}

/// What `pausable_operation` does: while not paused, adds one to the user's balance.
pub open spec fn pausable_operation_spec(v: AuthView, user: Seq<char>) -> Result<AuthView, AuthError> {
    if v.paused {
        Err(AuthError::Paused)
    } else {
        Ok(AuthView { balances: v.balances.insert(user, (v.balance_of(user) + 1) as i128), ..v })
    }
}

/// What `pause` (with `to == true`) and `unpause` (with `to == false`) do.
pub open spec fn set_paused_spec(v: AuthView, admin: Seq<char>, to: bool) -> Result<AuthView, AuthError> {
    match v.admin_check(admin) {
        Some(e) => Err(e),
        None => Ok(AuthView { paused: to, ..v }),
    }
}

/// What `grant_role` does.
pub open spec fn grant_role_spec(v: AuthView, admin: Seq<char>, user: Seq<char>, role: Role) -> Result<
    AuthView,
    AuthError,
> {
    match v.admin_check(admin) {
        Some(e) => Err(e),
        None => Ok(AuthView { roles: v.roles.insert(user, role), ..v }),
    }
}

/// The contract's state.
pub struct AuthContract {
    admin: Option<Addr>,
    paused: bool,
    roles: KeyMap<Addr, Role>,
    balances: KeyMap<Addr, i128>,
}

impl View for AuthContract {
    type V = AuthView;

    closed spec fn view(&self) -> AuthView {
        AuthView {
            admin: match self.admin {
                Some(a) => Some(a@),
                None => None,
            },
            paused: self.paused,
            roles: self.roles@,
            balances: self.balances@,
        }
    }
}

impl AuthContract {
    /// The state's invariant: each address is held once in each table.
    pub closed spec fn wf(&self) -> bool {
        self.roles.wf() && self.balances.wf()
    }

    /// A contract with no admin, not paused, with no role or balance recorded.
    pub fn new() -> (r: AuthContract)
        ensures
            r.wf(),
            r@.admin is None,
            !r@.paused,
            r@.roles == Map::<Seq<char>, Role>::empty(),
            r@.balances == Map::<Seq<char>, i128>::empty(),
    {
        AuthContract { admin: None, paused: false, roles: KeyMap::new(), balances: KeyMap::new() }
    }

    /// A contract restored from its stored admin and pause flag, with no role or balance
    /// recorded yet.
    pub fn restore(admin: Option<Addr>, paused: bool) -> (r: AuthContract)
        ensures
            r.wf(),
            r@.admin == match admin {
                Some(a) => Some(a@),
                None => None::<Seq<char>>,
            },
            r@.paused == paused,
            r@.roles == Map::<Seq<char>, Role>::empty(),
            r@.balances == Map::<Seq<char>, i128>::empty(),
    {
        AuthContract { admin, paused, roles: KeyMap::new(), balances: KeyMap::new() }
    }

    /// Records the stored role of `user`.
    pub fn load_role(&mut self, user: &Addr, role: Role)
        requires
            old(self).wf(),
        ensures
            final(self).wf(),
            final(self)@ == (AuthView { roles: old(self)@.roles.insert(user@, role), ..old(self)@ }),
    {
        self.roles.insert(user.clone(), role);
    }

    /// Makes `admin` the admin (with the `Admin` role) and unpauses; refused once an admin
    /// is set.
    pub fn initialize(&mut self, admin: Addr) -> (r: Result<(), AuthError>)
        requires
            old(self).wf(),
        ensures
            final(self).wf(),
            match auth_initialize_spec(old(self)@, admin@) {
                Ok(v) => r is Ok && final(self)@ == v,
                Err(e) => r == Err::<(), AuthError>(e) && final(self)@ == old(self)@,
            },
    {
        if self.admin.is_some() {
            return Err(AuthError::AlreadyInitialized);
        }
        self.roles.insert(admin.clone(), Role::Admin);
        self.admin = Some(admin);
        self.paused = false;
        Ok(())
    }

    fn check_admin(&self, who: &Addr) -> (r: Result<(), AuthError>)
        ensures
            match self@.admin_check(who@) {
                Some(e) => r == Err::<(), AuthError>(e),
                None => r is Ok,
            },
    {
        match &self.admin {
            None => Err(AuthError::NotInitialized),
            Some(a) => if a.same(who) {
                Ok(())
            } else {
                Err(AuthError::NotAdmin)
            },
        }
    }

    /// Sets `user`'s balance to `amount`.
    pub fn set_balance(&mut self, user: &Addr, amount: i128)
        requires
            old(self).wf(),
        ensures
            final(self).wf(),
            final(self)@ == (AuthView { balances: old(self)@.balances.insert(user@, amount), ..old(self)@ }),
    {
        self.balances.insert(user.clone(), amount);
    }

    /// Sets `user`'s balance to `amount`; only the admin may.
    pub fn admin_set_balance(&mut self, admin: &Addr, user: &Addr, amount: i128) -> (r: Result<(), AuthError>)
        requires
            old(self).wf(),
        ensures
            final(self).wf(),
            match admin_set_balance_spec(old(self)@, admin@, user@, amount) {
                Ok(v) => r is Ok && final(self)@ == v,
                Err(e) => r == Err::<(), AuthError>(e) && final(self)@ == old(self)@,
            },
    {
        self.check_admin(admin)?;
        self.balances.insert(user.clone(), amount);
        Ok(())
    }

    /// Sets `user`'s balance to `amount`; only an admin or a moderator may.
    pub fn moderate_set_balance(&mut self, caller: &Addr, user: &Addr, amount: i128) -> (r: Result<
        (),
        AuthError,
    >)
        requires
            old(self).wf(),
        ensures
            final(self).wf(),
            match moderate_set_balance_spec(old(self)@, caller@, user@, amount) {
                Ok(v) => r is Ok && final(self)@ == v,
                Err(e) => r == Err::<(), AuthError>(e) && final(self)@ == old(self)@,
            },
    {
        let role = self.get_role(caller);
        if role != Role::Admin && role != Role::Moderator {
            return Err(AuthError::InsufficientPermissions);
        }
        self.balances.insert(user.clone(), amount);
        Ok(())
    }

    /// The first arithmetic fault, if any, that `multi_auth_transfer` with these inputs
    /// would meet.
    pub fn multi_auth_transfer_faults(&self, admin: &Addr, from: &Addr, to: &Addr, amount: i128) -> (r: Option<
        ArithFault,
    >)
        requires
            self.wf(),
        ensures
            r == multi_auth_transfer_fault(self@, admin@, from@, to@, amount),
    {
        if self.check_admin(admin).is_err() {
            return None;
        }
        let from_balance = self.get_balance(from);
        if from_balance < amount {
            return None;
        }
        let rest = match from_balance.checked_sub(amount) {
            None => {
                return Some(ArithFault::SubOverflow);
            },
            Some(x) => x,
        };
        let to_balance = if from.same(to) {
            rest
        } else {
            self.get_balance(to)
        };
        if to_balance.checked_add(amount).is_none() {
            Some(ArithFault::AddOverflow)
        } else {
            None
        }
    }

    /// Moves `amount` from `from` to `to`; only the admin may, and `from`'s balance must
    /// cover the amount. `from` is debited before `to` is credited.
    pub fn multi_auth_transfer(&mut self, admin: &Addr, from: &Addr, to: &Addr, amount: i128) -> (r:
        Result<(), AuthError>)
        requires
            old(self).wf(),
            multi_auth_transfer_fault(old(self)@, admin@, from@, to@, amount) is None,
        ensures
            final(self).wf(),
            match multi_auth_transfer_spec(old(self)@, admin@, from@, to@, amount) {
                Ok(v) => r is Ok && final(self)@ == v,
                Err(e) => r == Err::<(), AuthError>(e) && final(self)@ == old(self)@,
            },
    {
        self.check_admin(admin)?;
        let from_balance = self.get_balance(from);
        if from_balance < amount {
            return Err(AuthError::InsufficientBalance);
        }
        self.balances.insert(from.clone(), from_balance - amount);
        let to_balance = self.get_balance(to);
        self.balances.insert(to.clone(), to_balance + amount);
        Ok(())
    }

    /// Adds one to `user`'s balance; refused while paused.
    pub fn pausable_operation(&mut self, user: &Addr) -> (r: Result<(), AuthError>)
        requires
            old(self).wf(),
            !old(self)@.paused ==> old(self)@.balance_of(user@) < i128::MAX,
        ensures
            final(self).wf(),
            match pausable_operation_spec(old(self)@, user@) {
                Ok(v) => r is Ok && final(self)@ == v,
                Err(e) => r == Err::<(), AuthError>(e) && final(self)@ == old(self)@,
            },
    {
        if self.paused {
            return Err(AuthError::Paused);
        }
        let balance = self.get_balance(user);
        self.balances.insert(user.clone(), balance + 1);
        Ok(())
    }

    /// Pauses the contract; only the admin may.
    pub fn pause(&mut self, admin: &Addr) -> (r: Result<(), AuthError>)
        requires
            old(self).wf(),
        ensures
            final(self).wf(),
            match set_paused_spec(old(self)@, admin@, true) {
                Ok(v) => r is Ok && final(self)@ == v,
                Err(e) => r == Err::<(), AuthError>(e) && final(self)@ == old(self)@,
            },
    {
        self.check_admin(admin)?;
        self.paused = true;
        Ok(())
    }

    /// Unpauses the contract; only the admin may.
    pub fn unpause(&mut self, admin: &Addr) -> (r: Result<(), AuthError>)
        requires
            old(self).wf(),
        ensures
            final(self).wf(),
            match set_paused_spec(old(self)@, admin@, false) {
                Ok(v) => r is Ok && final(self)@ == v,
                Err(e) => r == Err::<(), AuthError>(e) && final(self)@ == old(self)@,
            },
    {
        self.check_admin(admin)?;
        self.paused = false;
        Ok(())
    }

    /// Gives `user` the role `role`; only the admin may.
    pub fn grant_role(&mut self, admin: &Addr, user: &Addr, role: Role) -> (r: Result<(), AuthError>)
        requires
            old(self).wf(),
        ensures
            final(self).wf(),
            match grant_role_spec(old(self)@, admin@, user@, role) {
                Ok(v) => r is Ok && final(self)@ == v,
                Err(e) => r == Err::<(), AuthError>(e) && final(self)@ == old(self)@,
            },
    {
        self.check_admin(admin)?;
        self.roles.insert(user.clone(), role);
        Ok(())
    }

    /// The balance of `user`.
    pub fn get_balance(&self, user: &Addr) -> (r: i128)
        requires
            self.wf(),
        ensures
            r == self@.balance_of(user@),
    {
        match self.balances.get(user) {
            Some(b) => *b,
            None => 0,
        }
    }

    /// The role of `user`.
    pub fn get_role(&self, user: &Addr) -> (r: Role)
        requires
            self.wf(),
        ensures
            r == self@.role_of(user@),
    {
        match self.roles.get(user) {
            Some(role) => *role,
            None => Role::User,
        }
    }

    /// Whether the contract is paused.
    pub fn is_paused(&self) -> (r: bool)
        ensures
            r == self@.paused,
    {
        self.paused
    }

    /// The admin; refused before initialization.
    pub fn get_admin(&self) -> (r: Result<Addr, AuthError>)
        ensures
            match self@.admin {
                None => r == Err::<Addr, AuthError>(AuthError::NotInitialized),
                Some(a) => r matches Ok(x) && x@ == a,
            },
    {
        match &self.admin {
            Some(a) => Ok(a.clone()),
            None => Err(AuthError::NotInitialized),
        }
    }
}

/// An admin's transfer conserves balances: between two different accounts the sender loses
/// exactly `amount` and the receiver gains it; a transfer to oneself leaves the balance as it
/// was. No other balance changes.
pub proof fn lemma_multi_auth_transfer_conserves(
    v: AuthView,
    admin: Seq<char>,
    from: Seq<char>,
    to: Seq<char>,
    amount: i128,
    other: Seq<char>,
)
    requires
        multi_auth_transfer_fault(v, admin, from, to, amount) is None,
        multi_auth_transfer_spec(v, admin, from, to, amount) is Ok,
    ensures
        ({
            let w = multi_auth_transfer_spec(v, admin, from, to, amount)->Ok_0;
            &&& from != to ==> w.balance_of(from) == v.balance_of(from) - amount
            &&& from != to ==> w.balance_of(to) == v.balance_of(to) + amount
            &&& from == to ==> w.balance_of(from) == v.balance_of(from)
            &&& w.balance_of(from) + w.balance_of(to) == v.balance_of(from) + v.balance_of(to)
            &&& (other != from && other != to ==> w.balance_of(other) == v.balance_of(other))
        }),
{
}

/// Every admin-only operation called by anyone but the admin is refused.
pub proof fn lemma_admin_only(v: AuthView, who: Seq<char>, user: Seq<char>, amount: i128, to: Seq<char>, role: Role, flag: bool)
    requires
        v.admin != Some(who),
    ensures
        admin_set_balance_spec(v, who, user, amount) is Err,
        multi_auth_transfer_spec(v, who, user, to, amount) is Err,
        set_paused_spec(v, who, flag) is Err,
        grant_role_spec(v, who, user, role) is Err,
{
}

/// Role-based access: a moderated write succeeds exactly for admins and moderators, and
/// the initializing admin holds the `Admin` role.
pub proof fn lemma_moderation_by_role(v: AuthView, caller: Seq<char>, user: Seq<char>, amount: i128)
    ensures
        moderate_set_balance_spec(v, caller, user, amount) is Ok <==> (v.role_of(caller) == Role::Admin
            || v.role_of(caller) == Role::Moderator),
        auth_initialize_spec(v, caller) is Ok ==> auth_initialize_spec(v, caller)->Ok_0.role_of(caller)
            == Role::Admin,
{
}

/// The pause switch: once the admin pauses, the pausable operation is refused; once the
/// admin unpauses, it goes through.
pub proof fn lemma_pause_blocks(v: AuthView, admin: Seq<char>, user: Seq<char>)
    requires
        v.admin == Some(admin),
    ensures
        pausable_operation_spec(set_paused_spec(v, admin, true)->Ok_0, user) == Err::<AuthView, AuthError>(
            AuthError::Paused,
        ),
        pausable_operation_spec(set_paused_spec(v, admin, false)->Ok_0, user) is Ok,
{
}

/// Granting a role sets it: after the admin grants `role` to `user`, `user` holds exactly
/// `role` (whatever it held before, `User` included), every other address keeps its role,
/// and balances, the admin and the pause flag are unchanged. Only the admin may grant.
pub proof fn lemma_grant_role_sets_role(v: AuthView, admin: Seq<char>, user: Seq<char>, role: Role, other: Seq<char>)
    ensures
        grant_role_spec(v, admin, user, role) is Ok <==> v.admin == Some(admin),
        grant_role_spec(v, admin, user, role) is Ok ==> ({
            let w = grant_role_spec(v, admin, user, role)->Ok_0;
            &&& w.role_of(user) == role
            &&& (other != user ==> w.role_of(other) == v.role_of(other))
            &&& w.balances == v.balances
            &&& w.admin == v.admin
            &&& w.paused == v.paused
        }),
{
}

} // verus!
