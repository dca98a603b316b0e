//! A constant-product market maker (x * y = k) over two tokens, with liquidity shares.
use vstd::prelude::*;

use crate::address::Addr;
use crate::arith::ArithFault;
use crate::keymap::KeyMap;

verus! {

/// The integer square root: the largest `r` with `r * r <= x` (zero for `x <= 0`).
pub open spec fn isqrt(x: int) -> int
    decreases x,
{
    if x <= 0 {
        0
    } else {
        let r = isqrt(x - 1);
        if (r + 1) * (r + 1) <= x {
            r + 1
        } else {
            r
        }
    }
}

/// `isqrt(x)` is the floor of the square root of `x`.
pub proof fn lemma_isqrt(x: int)
    requires
        x >= 0,
    ensures
        isqrt(x) >= 0,
        isqrt(x) * isqrt(x) <= x,
        x < (isqrt(x) + 1) * (isqrt(x) + 1),
    decreases x,
{
    if x > 0 {
        lemma_isqrt(x - 1);
        let r = isqrt(x - 1);
        if (r + 1) * (r + 1) <= x {
            assert((r + 1) * (r + 1) == x) by (nonlinear_arith)
                requires
                    x - 1 < (r + 1) * (r + 1),
                    (r + 1) * (r + 1) <= x,
            ;
            assert(x < (r + 2) * (r + 2)) by (nonlinear_arith)
                requires
                    (r + 1) * (r + 1) == x,
                    r >= 0,
            ;
        }
    }
}

/// The floor square root is the only `r >= 0` with `r * r <= x < (r + 1) * (r + 1)`.
pub proof fn lemma_isqrt_unique(x: int, r: int)
    requires
        r >= 0,
        r * r <= x,
        x < (r + 1) * (r + 1),
    ensures
        r == isqrt(x),
{
    lemma_isqrt(x);
    let s = isqrt(x);
    if r < s {
        assert((r + 1) * (r + 1) <= s * s) by (nonlinear_arith)
            requires
                r + 1 <= s,
                r >= 0,
        ;
    } else if r > s {
        assert((s + 1) * (s + 1) <= r * r) by (nonlinear_arith)
            requires
                s + 1 <= r,
                s >= 0,
        ;
    }
}

/// One Newton step from `y` never goes below the floor square root `s`.
proof fn lemma_newton_step_ge(x: int, y: int, s: int)
    requires
        x >= 0,
        y >= 1,
        s >= 0,
        s * s <= x,
    ensures
        (x / y + y) / 2 >= s,
{
    let q = x / y;
    assert(q >= 0 && q * y <= x && x < (q + 1) * y) by (nonlinear_arith)
        requires
            x >= 0,
            y >= 1,
            q == x / y,
    ;
    if q + y < 2 * s {
        assert((q + 1) * y <= s * s) by (nonlinear_arith)
            requires
                q + y + 1 <= 2 * s,
                q >= 0,
                y >= 1,
        ;
    }
}

/// When the Newton step does not move below `y`, `y` is at most the square root.
proof fn lemma_newton_stop(x: int, y: int)
    requires
        x >= 0,
        y >= 1,
        (x / y + y) / 2 >= y,
    ensures
        y * y <= x,
{
    let q = x / y;
    assert(q * y <= x) by (nonlinear_arith)
        requires
            x >= 0,
            y >= 1,
            q == x / y,
    ;
    assert(q >= y);
    assert(y * y <= q * y) by (nonlinear_arith)
        requires
            q >= y,
            y >= 1,
    ;
}

/// The Newton step from a `y` no larger than `(x + 1) / 2` stays no larger than `(x + 1) / 2`,
/// and its numerator does not exceed `x + 1`.
proof fn lemma_newton_bound(x: int, y: int)
    requires
        x >= 1,
        1 <= y <= (x + 1) / 2,
    ensures
        x / y + y <= x + 1,
        y >= 2 ==> x / y + y <= x,
        (x / y + y) / 2 <= (x + 1) / 2,
{
    if y >= 2 {
        assert(x / y <= x / 2) by (nonlinear_arith)
            requires
                x >= 0,
                y >= 2,
        ;
    }
}

/// The value `x` fits in an `i128`.
pub open spec fn fits(x: int) -> bool {
    i128::MIN <= x <= i128::MAX
}

/// Division rounding toward zero, as `i128` division does.
pub open spec fn tdiv(x: int, d: int) -> int {
    if x == 0 {
        0
    } else if x > 0 && d > 0 {
        x / d
    } else if x < 0 && d < 0 {
        (x * -1) / (d * -1)
    } else if x < 0 {
        ((x * -1) / d) * -1
    } else {
        (x / (d * -1)) * -1
    }
}

/// `x / d` on `i128`, rounding toward zero.
pub fn div_trunc(x: i128, d: i128) -> (r: i128)
    requires
        d != 0,
        !(x == i128::MIN && d == -1),
    ensures
        r == tdiv(x as int, d as int),
{
    proof {
        let xi = x as int;
        let di = d as int;
        let q = tdiv(xi, di);
        if xi > 0 && di > 0 {
            assert(0 <= q <= xi) by (nonlinear_arith)
                requires
                    xi > 0,
                    di > 0,
                    q == xi / di,
            ;
        } else if xi < 0 && di < 0 {
            assert(0 <= q <= -xi) by (nonlinear_arith)
                requires
                    xi < 0,
                    di < 0,
                    q == (xi * -1) / (di * -1),
            ;
            if x == i128::MIN {
                assert(q < -xi) by (nonlinear_arith)
                    requires
                        xi < 0,
                        di <= -2,
                        q == (xi * -1) / (di * -1),
                ;
            }
        } else if xi < 0 {
            assert(xi <= q <= 0) by (nonlinear_arith)
                requires
                    xi < 0,
                    di > 0,
                    q == ((xi * -1) / di) * -1,
            ;
        } else if xi > 0 {
            assert(-xi <= q <= 0) by (nonlinear_arith)
                requires
                    xi > 0,
                    di < 0,
                    q == (xi / (di * -1)) * -1,
            ;
        }
    }
    match x.checked_div(d) {
        Some(q) => q,
        None => 0,
    }
}

/// A swap into positive reserves pays out less than the out-reserve and keeps the product.
proof fn lemma_swap_math(r_in: int, r_out: int, amount: int)
    requires
        r_in > 0,
        r_out > 0,
        amount > 0,
    ensures
        0 <= (amount * r_out) / (r_in + amount) < r_out,
        (r_in + amount) * (r_out - (amount * r_out) / (r_in + amount)) >= r_in * r_out,
{
    let d = r_in + amount;
    let n = amount * r_out;
    let out = n / d;
    assert(0 <= out && out * d <= n) by (nonlinear_arith)
        requires
            d > 0,
            n >= 0,
            out == n / d,
    ;
    assert(n < d * r_out) by (nonlinear_arith)
        requires
            n == amount * r_out,
            d == r_in + amount,
            r_in > 0,
            r_out > 0,
    ;
    assert(out < r_out) by (nonlinear_arith)
        requires
            out * d <= n,
            n < d * r_out,
            d > 0,
    ;
    assert(d * (r_out - out) >= r_in * r_out) by (nonlinear_arith)
        requires
            out * d <= n,
            n == amount * r_out,
            d == r_in + amount,
    ;
}

/// Withdrawing `s` of `t` shares takes at most the whole reserve `r`, and all of it
/// exactly when all shares are withdrawn.
proof fn lemma_withdraw_math(s: int, t: int, r: int)
    requires
        1 <= s <= t,
        r > 0,
    ensures
        0 <= (s * r) / t <= r,
        s < t ==> (s * r) / t < r,
        s == t ==> (s * r) / t == r,
{
    let out = (s * r) / t;
    assert(0 <= out && out * t <= s * r) by (nonlinear_arith)
        requires
            t > 0,
            s * r >= 0,
            out == (s * r) / t,
        ;
    if s < t {
        assert(out < r) by (nonlinear_arith)
            requires
                out * t <= s * r,
                s < t,
                r > 0,
                t > 0,
        ;
    } else {
        assert(out == r) by (nonlinear_arith)
            requires
                s == t,
                t > 0,
                out == (s * r) / t,
        ;
    }
    assert(out <= r) by (nonlinear_arith)
        requires
            out * t <= s * r,
            s <= t,
            r > 0,
            t > 0,
    ;
}

/// The fault, if any, of computing `x * y` (already known as the integer `p`) and dividing
/// it by `d`, in that order.
pub open spec fn mul_div_fault(p: int, d: int) -> Option<ArithFault> {
    if !fits(p) {
        Some(ArithFault::MulOverflow)
    } else if d == 0 {
        Some(ArithFault::DivByZero)
    } else if p == i128::MIN && d == -1 {
        Some(ArithFault::DivOverflow)
    } else {
        None
    }
}

/// Errors that the pool reports; each stands for one refusal of the contract.
#[derive(PartialEq, Eq, Structural, Debug, Clone, Copy)]
pub enum AmmError {
    AlreadyInitialized,
    NotInitialized,
    NoLiquidity,
    AmountsMustBePositive,
    Overflow,
    InsufficientLiquidity,
    SharesMustBePositive,
    InsufficientShares,
    AmountMustBePositive,
    SlippageExceeded,
}

impl AmmError {
    /// The text of the refusal's message.
    pub open spec fn message_text(self) -> Seq<char> {
        match self {
            AmmError::AlreadyInitialized => "already initialized"@,
            AmmError::NotInitialized => "not initialized"@,
            AmmError::NoLiquidity => "no liquidity"@,
            AmmError::AmountsMustBePositive => "amounts must be positive"@,
            AmmError::Overflow => "overflow"@,
            AmmError::InsufficientLiquidity => "insufficient liquidity"@,
            AmmError::SharesMustBePositive => "shares must be positive"@,
            AmmError::InsufficientShares => "insufficient shares"@,
            AmmError::AmountMustBePositive => "amount must be positive"@,
            AmmError::SlippageExceeded => "slippage exceeded"@,
        }
    }

    /// The message with which the contract refuses.
    pub fn message(&self) -> (r: &'static str)
        ensures
            r@ == self.message_text(),
    {
        match self {
            AmmError::AlreadyInitialized => "already initialized",
            AmmError::NotInitialized => "not initialized",
            AmmError::NoLiquidity => "no liquidity",
            AmmError::AmountsMustBePositive => "amounts must be positive",
            AmmError::Overflow => "overflow",
            AmmError::InsufficientLiquidity => "insufficient liquidity",
            AmmError::SharesMustBePositive => "shares must be positive",
            AmmError::InsufficientShares => "insufficient shares",
            AmmError::AmountMustBePositive => "amount must be positive",
            AmmError::SlippageExceeded => "slippage exceeded",
        }
    }
}

/// What the pool holds, as plain values.
pub struct AmmView {
    pub tokens: Option<(Seq<char>, Seq<char>)>,
    pub reserve_a: i128,
    pub reserve_b: i128,
    pub total_shares: i128,
    pub shares: Map<Seq<char>, i128>,
}

impl AmmView {
    /// The shares that `p` holds (zero when none were ever recorded).
    pub open spec fn share_of(self, p: Seq<char>) -> i128 {
        if self.shares.contains_key(p) {
            self.shares[p]
        } else {
            0
        }
    }

    /// The reserves are both empty exactly when no share exists, and both positive while
    /// shares are outstanding.
    pub open spec fn reserves_track_shares(self) -> bool {
        &&& (self.total_shares == 0 <==> self.reserve_a == 0 && self.reserve_b == 0)
        &&& self.total_shares > 0 ==> self.reserve_a > 0 && self.reserve_b > 0
    }

    /// The constant product of the reserves.
    pub open spec fn k(self) -> int {
        self.reserve_a * self.reserve_b
    }
}

/// The smaller of two integers.
pub open spec fn min_int(a: int, b: int) -> int {
    if a < b {
        a
    } else {
        b
    }
}

/// The shares that depositing `a` and `b` into `v` mints (before the positivity check):
/// the square root of `a * b` into an empty pool, else the smaller proportional share.
pub open spec fn minted_shares(v: AmmView, a: i128, b: i128) -> int {
    if v.total_shares == 0 {
        isqrt(a * b)
    } else {
        min_int(tdiv(a * v.total_shares, v.reserve_a as int), tdiv(b * v.total_shares, v.reserve_b as int))
    }
}

/// `add_liquidity` meets no arithmetic fault (overflow or division by zero) on these inputs.
pub open spec fn add_liquidity_defined(v: AmmView, p: Seq<char>, a: i128, b: i128) -> bool {
    a > 0 && b > 0 ==> {
        &&& v.total_shares != 0 ==> {
            &&& fits(a * v.total_shares)
            &&& fits(b * v.total_shares)
            &&& v.reserve_a != 0
            &&& v.reserve_b != 0
            &&& !(a * v.total_shares == i128::MIN && v.reserve_a == -1)
            &&& !(b * v.total_shares == i128::MIN && v.reserve_b == -1)
        }
        &&& ((v.total_shares == 0 ==> fits(a * b)) && minted_shares(v, a, b) > 0) ==> {
            &&& fits(v.reserve_a + a)
            &&& fits(v.reserve_b + b)
            &&& fits(v.share_of(p) + minted_shares(v, a, b))
            &&& fits(v.total_shares + minted_shares(v, a, b))
        }
    }
}

/// The first arithmetic fault, if any, that `add_liquidity` meets on these inputs, in the
/// order the contract computes: the minted shares, then the new reserves, the provider's
/// shares and the share total.
pub open spec fn add_liquidity_fault(v: AmmView, p: Seq<char>, a: i128, b: i128) -> Option<ArithFault> {
    if a <= 0 || b <= 0 {
        None
    } else if v.total_shares == 0 && !fits(a * b) {
        None
    } else if v.total_shares != 0 && mul_div_fault(a * v.total_shares, v.reserve_a as int) is Some {
        mul_div_fault(a * v.total_shares, v.reserve_a as int)
    } else if v.total_shares != 0 && mul_div_fault(b * v.total_shares, v.reserve_b as int) is Some {
        mul_div_fault(b * v.total_shares, v.reserve_b as int)
    } else if minted_shares(v, a, b) <= 0 {
        None
    } else if !fits(v.reserve_a + a) || !fits(v.reserve_b + b) || !fits(v.share_of(p) + minted_shares(v, a, b))
        || !fits(v.total_shares + minted_shares(v, a, b)) {
        Some(ArithFault::AddOverflow)
    } else {
        None
    }
}

/// The first arithmetic fault, if any, that `remove_liquidity` meets on these inputs.
pub open spec fn remove_liquidity_fault(v: AmmView, p: Seq<char>, s: i128) -> Option<ArithFault> {
    if s <= 0 || v.share_of(p) < s {
        None
    } else if mul_div_fault(s * v.reserve_a, v.total_shares as int) is Some {
        mul_div_fault(s * v.reserve_a, v.total_shares as int)
    } else if mul_div_fault(s * v.reserve_b, v.total_shares as int) is Some {
        mul_div_fault(s * v.reserve_b, v.total_shares as int)
    } else if tdiv(s * v.reserve_a, v.total_shares as int) <= 0 || tdiv(s * v.reserve_b, v.total_shares as int)
        <= 0 {
        None
    } else if !fits(v.reserve_a - tdiv(s * v.reserve_a, v.total_shares as int)) || !fits(
        v.reserve_b - tdiv(s * v.reserve_b, v.total_shares as int),
    ) || !fits(v.total_shares - s) {
        Some(ArithFault::SubOverflow)
    } else {
        None
    }
}

/// The first arithmetic fault, if any, of a swap of `amount_in` into `r_in` against `r_out`
/// asking for at least `min_out`: the product, the new input reserve, the division, then the
/// new output reserve.
pub open spec fn swap_fault(r_in: i128, r_out: i128, amount_in: i128, min_out: i128) -> Option<ArithFault> {
    if amount_in <= 0 || r_in == 0 || r_out == 0 {
        None
    } else if !fits(amount_in * r_out) {
        Some(ArithFault::MulOverflow)
    } else if !fits(r_in + amount_in) {
        Some(ArithFault::AddOverflow)
    } else if r_in + amount_in == 0 {
        Some(ArithFault::DivByZero)
    } else if amount_in * r_out == i128::MIN && r_in + amount_in == -1 {
        Some(ArithFault::DivOverflow)
    } else if tdiv(amount_in * r_out, r_in + amount_in) >= min_out && !fits(
        r_out - tdiv(amount_in * r_out, r_in + amount_in),
    ) {
        Some(ArithFault::SubOverflow)
    } else {
        None
    }
}

/// What `add_liquidity` does: the new pool and the minted shares, or the refusal.
pub open spec fn add_liquidity_spec(v: AmmView, p: Seq<char>, a: i128, b: i128) -> Result<
    (AmmView, i128),
    AmmError,
> {
    if a <= 0 || b <= 0 {
        Err(AmmError::AmountsMustBePositive)
    } else if v.total_shares == 0 && !fits(a * b) {
        Err(AmmError::Overflow)
    } else {
        let m = minted_shares(v, a, b);
        if m <= 0 {
            Err(AmmError::InsufficientLiquidity)
        } else {
            Ok(
                (
                    AmmView {
                        reserve_a: (v.reserve_a + a) as i128,
                        reserve_b: (v.reserve_b + b) as i128,
                        total_shares: (v.total_shares + m) as i128,
                        shares: v.shares.insert(p, (v.share_of(p) + m) as i128),
                        ..v
                    },
                    m as i128,
                ),
            )
        }
    }
}

/// `remove_liquidity` meets no arithmetic fault on these inputs.
pub open spec fn remove_liquidity_defined(v: AmmView, p: Seq<char>, s: i128) -> bool {
    s > 0 && v.share_of(p) >= s ==> {
        &&& v.total_shares != 0
        &&& fits(s * v.reserve_a)
        &&& fits(s * v.reserve_b)
        &&& !(s * v.reserve_a == i128::MIN && v.total_shares == -1)
        &&& !(s * v.reserve_b == i128::MIN && v.total_shares == -1)
        &&& (tdiv(s * v.reserve_a, v.total_shares as int) > 0 && tdiv(s * v.reserve_b, v.total_shares as int)
            > 0) ==> {
            &&& fits(v.reserve_a - tdiv(s * v.reserve_a, v.total_shares as int))
            &&& fits(v.reserve_b - tdiv(s * v.reserve_b, v.total_shares as int))
            &&& fits(v.total_shares - s)
        }
    }
}

/// What `remove_liquidity` does: the new pool and the amounts paid out, or the refusal.
pub open spec fn remove_liquidity_spec(v: AmmView, p: Seq<char>, s: i128) -> Result<
    (AmmView, (i128, i128)),
    AmmError,
> {
    if s <= 0 {
        Err(AmmError::SharesMustBePositive)
    } else if v.share_of(p) < s {
        Err(AmmError::InsufficientShares)
    } else {
        let out_a = tdiv(s * v.reserve_a, v.total_shares as int);
        let out_b = tdiv(s * v.reserve_b, v.total_shares as int);
        if out_a <= 0 || out_b <= 0 {
            Err(AmmError::InsufficientLiquidity)
        } else {
            Ok(
                (
                    AmmView {
                        reserve_a: (v.reserve_a - out_a) as i128,
                        reserve_b: (v.reserve_b - out_b) as i128,
                        total_shares: (v.total_shares - s) as i128,
                        shares: v.shares.insert(p, (v.share_of(p) - s) as i128),
                        ..v
                    },
                    (out_a as i128, out_b as i128),
                ),
            )
        }
    }
}

/// A swap of `amount_in` into the reserve `r_in` against the reserve `r_out`, asking for
/// at least `min_out`, meets no arithmetic fault.
pub open spec fn swap_defined(r_in: i128, r_out: i128, amount_in: i128, min_out: i128) -> bool {
    amount_in > 0 && r_in != 0 && r_out != 0 ==> {
        &&& fits(amount_in * r_out)
        &&& fits(r_in + amount_in)
        &&& r_in + amount_in != 0
        &&& !(amount_in * r_out == i128::MIN && r_in + amount_in == -1)
        &&& tdiv(amount_in * r_out, r_in + amount_in) >= min_out ==> fits(
            r_out - tdiv(amount_in * r_out, r_in + amount_in),
        )
    }
}

/// The amount a swap pays out: `amount_in * r_out / (r_in + amount_in)`.
pub open spec fn swap_out(r_in: i128, r_out: i128, amount_in: i128) -> int {
    tdiv(amount_in * r_out, r_in + amount_in)
}

/// What a swap does to the reserves `(r_in, r_out)`: the new reserves and the amount paid out.
pub open spec fn swap_spec(r_in: i128, r_out: i128, amount_in: i128, min_out: i128) -> Result<
    (i128, i128, i128),
    AmmError,
> {
    if amount_in <= 0 {
        Err(AmmError::AmountMustBePositive)
    } else if r_in == 0 || r_out == 0 {
        Err(AmmError::NoLiquidity)
    } else {
        let out = swap_out(r_in, r_out, amount_in);
        if out < min_out {
            Err(AmmError::SlippageExceeded)
        } else {
            Ok(((r_in + amount_in) as i128, (r_out - out) as i128, out as i128))
        }
    }
}

/// The pool's state: the two token addresses once set, the reserves,
/// the share total and each provider's shares.
pub struct AmmContract {
    tokens: Option<(Addr, Addr)>,
    reserve_a: i128,
    reserve_b: i128,
    total_shares: i128,
    shares: KeyMap<Addr, i128>,
}

impl View for AmmContract {
    type V = AmmView;

    closed spec fn view(&self) -> AmmView {
        AmmView {
            tokens: match self.tokens {
                Some((a, b)) => Some((a@, b@)),
                None => None,
            },
            reserve_a: self.reserve_a,
            reserve_b: self.reserve_b,
            total_shares: self.total_shares,
            shares: self.shares@,
        }
    }
}

impl AmmContract {
    /// The state's invariant: the share table holds each provider once.
    pub closed spec fn wf(&self) -> bool {
        self.shares.wf()
    }

    /// The sum of all providers' shares.
    pub closed spec fn share_sum(&self) -> int {
        self.shares.total()
    }

    /// The share total is the sum of the providers' shares.
    pub open spec fn shares_balanced(&self) -> bool {
        self.share_sum() == self@.total_shares
    }

    /// The pool is consistent: the share total is the sum of the providers' shares, no
    /// share or reserve is negative, and the reserves are positive exactly while shares exist.
    pub open spec fn consistent(&self) -> bool {
        &&& self.share_sum() == self@.total_shares
        &&& forall|p: Seq<char>| #[trigger] self@.shares.contains_key(p) ==> self@.shares[p] >= 0
        &&& self@.reserve_a >= 0
        &&& self@.reserve_b >= 0
        &&& self@.total_shares > 0 ==> self@.reserve_a > 0 && self@.reserve_b > 0
        &&& self@.total_shares == 0 ==> self@.reserve_a == 0 && self@.reserve_b == 0
    }

    /// In a consistent pool the share total is not negative and bounds each provider's shares.
    pub proof fn lemma_consistent_share_bound(&self, p: Seq<char>)
        requires
            self.wf(),
            self.consistent(),
        ensures
            self@.total_shares >= 0,
            0 <= self@.share_of(p) <= self@.total_shares,
    {
        assert(self.shares.all_nonneg()) by {
            assert forall|k: Seq<char>| #[trigger] self.shares@.contains_key(k) implies self.shares@[k]
                >= 0 by {
                assert(self@.shares.contains_key(k));
            }
        }
        self.shares.lemma_amount_le_total(p);
    }

    /// An uninitialized, empty pool.
    pub fn new() -> (r: AmmContract)
        ensures
            r.wf(),
            r.consistent(),
            r@.tokens is None,
            r@.reserve_a == 0 && r@.reserve_b == 0 && r@.total_shares == 0,
            r@.shares == Map::<Seq<char>, i128>::empty(),
    {
        let r = AmmContract {
            tokens: None,
            reserve_a: 0,
            reserve_b: 0,
            total_shares: 0,
            shares: KeyMap::new(),
        };
        proof {
            assert(r.shares.total() == 0) by {
                r.shares.lemma_empty_total();
            }
        }
        r
    }

    /// A pool restored from its stored tokens, reserves and share total, with no provider's
    /// shares loaded yet.
    pub fn restore(tokens: Option<(Addr, Addr)>, reserve_a: i128, reserve_b: i128, total_shares: i128) -> (r:
        AmmContract)
        ensures
            r.wf(),
            r@.tokens == match tokens {
                Some((a, b)) => Some((a@, b@)),
                None => None::<(Seq<char>, Seq<char>)>,
            },
            r@.reserve_a == reserve_a,
            r@.reserve_b == reserve_b,
            r@.total_shares == total_shares,
            r@.shares == Map::<Seq<char>, i128>::empty(),
    {
        AmmContract { tokens, reserve_a, reserve_b, total_shares, shares: KeyMap::new() }
    }

    /// Loads the stored shares of `provider`.
    pub fn load_shares(&mut self, provider: &Addr, shares: i128)
        requires
            old(self).wf(),
        ensures
            final(self).wf(),
            final(self)@ == (AmmView { shares: old(self)@.shares.insert(provider@, shares), ..old(self)@ }),
    {
        self.shares.insert(provider.clone(), shares);
    }

    /// Sets the two token addresses and empties the reserves and the share total;
    /// refused once the tokens are set. Providers' recorded shares are left as they are.
    pub fn initialize(&mut self, token_a: Addr, token_b: Addr) -> (r: Result<(), AmmError>)
        requires
            old(self).wf(),
        ensures
            final(self).wf(),
            old(self)@.tokens is Some ==> r == Err::<(), AmmError>(AmmError::AlreadyInitialized)
                && final(self)@ == old(self)@,
            old(self)@.tokens is None ==> r is Ok && final(self)@ == (AmmView {
                tokens: Some((token_a@, token_b@)),
                reserve_a: 0,
                reserve_b: 0,
                total_shares: 0,
                ..old(self)@
            }),
            old(self).consistent() && old(self)@.total_shares == 0 ==> final(self).consistent(),
    {
        if self.tokens.is_some() {
            return Err(AmmError::AlreadyInitialized);
        }
        self.tokens = Some((token_a, token_b));
        self.reserve_a = 0;
        self.reserve_b = 0;
        proof {
            if old(self).consistent() && old(self)@.total_shares == 0 {
                assert(self.shares.total() == 0);
            }
        }
        self.total_shares = 0;
        Ok(())
    }

    /// The two reserves `(reserve_a, reserve_b)`.
    pub fn get_reserves(&self) -> (r: (i128, i128))
        ensures
            r == (self@.reserve_a, self@.reserve_b),
    {
        (self.reserve_a, self.reserve_b)
    }

    /// The two token addresses; refused before initialization.
    pub fn get_tokens(&self) -> (r: Result<(Addr, Addr), AmmError>)
        ensures
            match self@.tokens {
                None => r == Err::<(Addr, Addr), AmmError>(AmmError::NotInitialized),
                Some((a, b)) => r matches Ok((ra, rb)) && ra@ == a && rb@ == b,
            },
    {
        match &self.tokens {
            Some((a, b)) => Ok((a.clone(), b.clone())),
            None => Err(AmmError::NotInitialized),
        }
    }

    /// The shares that `provider` holds.
    pub fn get_shares(&self, provider: &Addr) -> (r: i128)
        requires
            self.wf(),
        ensures
            r == self@.share_of(provider@),
    {
        match self.shares.get(provider) {
            Some(v) => *v,
            None => 0,
        }
    }

    /// The total of all shares.
    pub fn get_total_shares(&self) -> (r: i128)
        ensures
            r == self@.total_shares,
    {
        self.total_shares
    }

    /// The constant product `reserve_a * reserve_b`, or zero where it does not fit an `i128`.
    pub fn get_k(&self) -> (r: i128)
        ensures
            fits(self@.k()) ==> r == self@.k(),
            !fits(self@.k()) ==> r == 0,
    {
        match self.reserve_a.checked_mul(self.reserve_b) {
            Some(k) => k,
            None => 0,
        }
    }

    /// The price of token A in token B, `reserve_b / reserve_a`; refused while `reserve_a` is zero.
    pub fn get_price_a(&self) -> (r: Result<i128, AmmError>)
        requires
            !(self@.reserve_b == i128::MIN && self@.reserve_a == -1),
        ensures
            self@.reserve_a == 0 ==> r == Err::<i128, AmmError>(AmmError::NoLiquidity),
            self@.reserve_a != 0 ==> r == Ok::<i128, AmmError>(
                tdiv(self@.reserve_b as int, self@.reserve_a as int) as i128,
            ),
    {
        if self.reserve_a == 0 {
            return Err(AmmError::NoLiquidity);
        }
        Ok(div_trunc(self.reserve_b, self.reserve_a))
    }

    /// The price of token B in token A, `reserve_a / reserve_b`; refused while `reserve_b` is zero.
    pub fn get_price_b(&self) -> (r: Result<i128, AmmError>)
        requires
            !(self@.reserve_a == i128::MIN && self@.reserve_b == -1),
        ensures
            self@.reserve_b == 0 ==> r == Err::<i128, AmmError>(AmmError::NoLiquidity),
            self@.reserve_b != 0 ==> r == Ok::<i128, AmmError>(
                tdiv(self@.reserve_a as int, self@.reserve_b as int) as i128,
            ),
    {
        if self.reserve_b == 0 {
            return Err(AmmError::NoLiquidity);
        }
        Ok(div_trunc(self.reserve_a, self.reserve_b))
    }

    /// Integer square root by Newton's method; a negative `x` is returned as it is.
    pub fn sqrt(x: i128) -> (r: i128)
        ensures
            x >= 0 ==> r == isqrt(x as int),
            x >= 0 ==> r * r <= x < (r + 1) * (r + 1),
            x < 0 ==> r == x,
    {
        if x < 0 {
            return x;
        }
        if x == 0 {
            assert(0 * 0 == 0 && (0 + 1) * (0 + 1) == 1) by (nonlinear_arith);
            return 0;
        }
        let ghost s = isqrt(x as int);
        proof {
            lemma_isqrt(x as int);
            assert(s >= 1) by (nonlinear_arith)
                requires
                    x >= 1,
                    s >= 0,
                    x < (s + 1) * (s + 1),
            ;
            lemma_newton_step_ge(x as int, x as int, s);
            assert((x / x + x) / 2 == (x + 1) / 2) by (nonlinear_arith)
                requires
                    x >= 1,
            ;
            assert(x / 2 + x % 2 == (x + 1) / 2);
        }
        let mut z: i128 = x / 2 + x % 2;
        let mut y: i128 = x;
        while z < y
            invariant
                x >= 1,
                s == isqrt(x as int),
                s >= 1,
                s * s <= x,
                x < (s + 1) * (s + 1),
                1 <= y <= x,
                y >= s,
                z == (x / y + y) / 2,
                z >= s,
                z <= (x + 1) / 2,
            decreases y,
        {
            y = z;
            proof {
                lemma_newton_bound(x as int, y as int);
                lemma_newton_step_ge(x as int, y as int, s);
                if y < 2 {
                    assert(x < 4) by (nonlinear_arith)
                        requires
                            y == 1,
                            y >= s,
                            s >= 1,
                            x < (s + 1) * (s + 1),
                    ;
                }
            }
            z = (x / z + z) / 2;
        }
        proof {
            lemma_newton_stop(x as int, y as int);
            assert(x < (y + 1) * (y + 1)) by (nonlinear_arith)
                requires
                    y >= s,
                    s >= 0,
                    x < (s + 1) * (s + 1),
            ;
            lemma_isqrt_unique(x as int, y as int);
        }
        y
    }

    /// The first arithmetic fault (an overflow or a division by zero) that `add_liquidity`
    /// with these inputs would meet, if any.
    pub fn add_liquidity_faults(&self, provider: &Addr, amount_a: i128, amount_b: i128) -> (r: Option<ArithFault>)
        requires
            self.wf(),
        ensures
            r == add_liquidity_fault(self@, provider@, amount_a, amount_b),
            r is None <==> add_liquidity_defined(self@, provider@, amount_a, amount_b),
    {
        if amount_a <= 0 || amount_b <= 0 {
            return None;
        }
        let total = self.total_shares;
        let reserve_a = self.reserve_a;
        let reserve_b = self.reserve_b;
        let minted: i128 = if total == 0 {
            match amount_a.checked_mul(amount_b) {
                None => {
                    return None;
                },
                Some(product) => Self::sqrt(product),
            }
        } else {
            let share_a = match Self::mul_div(amount_a, total, reserve_a) {
                Err(f) => {
                    return Some(f);
                },
                Ok(q) => q,
            };
            let share_b = match Self::mul_div(amount_b, total, reserve_b) {
                Err(f) => {
                    return Some(f);
                },
                Ok(q) => q,
            };
            if share_a < share_b {
                share_a
            } else {
                share_b
            }
        };
        if minted <= 0 {
            return None;
        }
        let provider_shares = self.get_shares(provider);
        if reserve_a.checked_add(amount_a).is_none() || reserve_b.checked_add(amount_b).is_none()
            || provider_shares.checked_add(minted).is_none() || total.checked_add(minted).is_none() {
            Some(ArithFault::AddOverflow)
        } else {
            None
        }
    }

    /// `x * y / d` rounding toward zero, or the first fault that computing it meets.
    fn mul_div(x: i128, y: i128, d: i128) -> (r: Result<i128, ArithFault>)
        ensures
            match mul_div_fault(x * y, d as int) {
                Some(f) => r == Err::<i128, ArithFault>(f),
                None => r matches Ok(q) && q == tdiv(x * y, d as int),
            },
    {
        let n = match x.checked_mul(y) {
            None => {
                return Err(ArithFault::MulOverflow);
            },
            Some(n) => n,
        };
        if d == 0 {
            return Err(ArithFault::DivByZero);
        }
        if n == i128::MIN && d == -1 {
            return Err(ArithFault::DivOverflow);
        }
        Ok(div_trunc(n, d))
    }

    /// The first arithmetic fault that `remove_liquidity` with these inputs would meet, if any.
    pub fn remove_liquidity_faults(&self, provider: &Addr, shares: i128) -> (r: Option<ArithFault>)
        requires
            self.wf(),
        ensures
            r == remove_liquidity_fault(self@, provider@, shares),
            r is None <==> remove_liquidity_defined(self@, provider@, shares),
    {
        if shares <= 0 || self.get_shares(provider) < shares {
            return None;
        }
        let total = self.total_shares;
        let out_a = match Self::mul_div(shares, self.reserve_a, total) {
            Err(f) => {
                return Some(f);
            },
            Ok(q) => q,
        };
        let out_b = match Self::mul_div(shares, self.reserve_b, total) {
            Err(f) => {
                return Some(f);
            },
            Ok(q) => q,
        };
        if out_a <= 0 || out_b <= 0 {
            return None;
        }
        if self.reserve_a.checked_sub(out_a).is_none() || self.reserve_b.checked_sub(out_b).is_none()
            || total.checked_sub(shares).is_none() {
            Some(ArithFault::SubOverflow)
        } else {
            None
        }
    }

    /// The first arithmetic fault that a swap of `amount_in` into the reserve `r_in` against
    /// `r_out`, asking for at least `min_out`, would meet, if any.
    pub fn swap_faults(r_in: i128, r_out: i128, amount_in: i128, min_out: i128) -> (r: Option<ArithFault>)
        ensures
            r == swap_fault(r_in, r_out, amount_in, min_out),
            r is None <==> swap_defined(r_in, r_out, amount_in, min_out),
    {
        if amount_in <= 0 || r_in == 0 || r_out == 0 {
            return None;
        }
        let n = match amount_in.checked_mul(r_out) {
            None => {
                return Some(ArithFault::MulOverflow);
            },
            Some(x) => x,
        };
        let d = match r_in.checked_add(amount_in) {
            None => {
                return Some(ArithFault::AddOverflow);
            },
            Some(x) => x,
        };
        if d == 0 {
            return Some(ArithFault::DivByZero);
        }
        if n == i128::MIN && d == -1 {
            return Some(ArithFault::DivOverflow);
        }
        let out = div_trunc(n, d);
        if out >= min_out && r_out.checked_sub(out).is_none() {
            Some(ArithFault::SubOverflow)
        } else {
            None
        }
    }

    /// Deposits `amount_a` and `amount_b` for `provider` and returns the shares minted:
    /// the square root of their product into an empty pool, else the smaller proportional share.
    pub fn add_liquidity(&mut self, provider: &Addr, amount_a: i128, amount_b: i128) -> (r: Result<
        i128,
        AmmError,
    >)
        requires
            old(self).wf(),
            add_liquidity_defined(old(self)@, provider@, amount_a, amount_b),
        ensures
            final(self).wf(),
            match add_liquidity_spec(old(self)@, provider@, amount_a, amount_b) {
                Ok((v, m)) => r == Ok::<i128, AmmError>(m) && final(self)@ == v,
                Err(e) => r == Err::<i128, AmmError>(e) && final(self)@ == old(self)@,
            },
            old(self).consistent() ==> final(self).consistent(),
            old(self).shares_balanced() ==> final(self).shares_balanced(),
    {
        if amount_a <= 0 || amount_b <= 0 {
            return Err(AmmError::AmountsMustBePositive);
        }
        let reserve_a = self.reserve_a;
        let reserve_b = self.reserve_b;
        let total = self.total_shares;
        let minted: i128 = if total == 0 {
            let product = match amount_a.checked_mul(amount_b) {
                Some(p) => p,
                None => {
                    return Err(AmmError::Overflow);
                },
            };
            Self::sqrt(product)
        } else {
            let share_a = div_trunc(amount_a * total, reserve_a);
            let share_b = div_trunc(amount_b * total, reserve_b);
            if share_a < share_b {
                share_a
            } else {
                share_b
            }
        };
        if minted <= 0 {
            return Err(AmmError::InsufficientLiquidity);
        }
        let ghost v0 = self@;
        let ghost sum0 = self.share_sum();
        let provider_shares = self.get_shares(provider);
        proof {
            if old(self).consistent() {
                self.lemma_consistent_share_bound(provider@);
            }
        }
        self.reserve_a = reserve_a + amount_a;
        self.reserve_b = reserve_b + amount_b;
        self.shares.set_amount(provider.clone(), provider_shares + minted);
        self.total_shares = total + minted;
        proof {
            assert(self@.shares == v0.shares.insert(provider@, (provider_shares + minted) as i128));
            assert(self.share_sum() == sum0 + minted);
            if old(self).consistent() {
                assert forall|p: Seq<char>| #[trigger] self@.shares.contains_key(p) implies self@.shares[p]
                    >= 0 by {
                    if p != provider@ {
                        assert(v0.shares.contains_key(p));
                    }
                }
            }
        }
        Ok(minted)
    }

    /// Returns `shares` of `provider` to the pool and pays out the proportional amounts of both
    /// reserves.
    pub fn remove_liquidity(&mut self, provider: &Addr, shares: i128) -> (r: Result<
        (i128, i128),
        AmmError,
    >)
        requires
            old(self).wf(),
            remove_liquidity_defined(old(self)@, provider@, shares),
        ensures
            final(self).wf(),
            match remove_liquidity_spec(old(self)@, provider@, shares) {
                Ok((v, out)) => r == Ok::<(i128, i128), AmmError>(out) && final(self)@ == v,
                Err(e) => r == Err::<(i128, i128), AmmError>(e) && final(self)@ == old(self)@,
            },
            old(self).consistent() ==> final(self).consistent(),
            old(self).shares_balanced() ==> final(self).shares_balanced(),
            old(self).shares_balanced() && old(self)@.reserves_track_shares() && old(self)@.share_of(provider@)
                <= old(self)@.total_shares ==> final(self)@.reserves_track_shares(),
    {
        if shares <= 0 {
            return Err(AmmError::SharesMustBePositive);
        }
        let provider_shares = self.get_shares(provider);
        if provider_shares < shares {
            return Err(AmmError::InsufficientShares);
        }
        let reserve_a = self.reserve_a;
        let reserve_b = self.reserve_b;
        let total = self.total_shares;
        let amount_a = div_trunc(shares * reserve_a, total);
        let amount_b = div_trunc(shares * reserve_b, total);
        if amount_a <= 0 || amount_b <= 0 {
            return Err(AmmError::InsufficientLiquidity);
        }
        let ghost v0 = self@;
        let ghost sum0 = self.share_sum();
        proof {
            if old(self).consistent() {
                self.lemma_consistent_share_bound(provider@);
            }
            if old(self).consistent() || (old(self)@.reserves_track_shares() && provider_shares <= total) {
                lemma_withdraw_math(shares as int, total as int, reserve_a as int);
                lemma_withdraw_math(shares as int, total as int, reserve_b as int);
            }
        }
        self.reserve_a = reserve_a - amount_a;
        self.reserve_b = reserve_b - amount_b;
        self.shares.set_amount(provider.clone(), provider_shares - shares);
        self.total_shares = total - shares;
        proof {
            assert(self@.shares == v0.shares.insert(provider@, (provider_shares - shares) as i128));
            assert(self.share_sum() == sum0 - shares);
            if old(self).consistent() {
                assert forall|p: Seq<char>| #[trigger] self@.shares.contains_key(p) implies self@.shares[p]
                    >= 0 by {
                    if p != provider@ {
                        assert(v0.shares.contains_key(p));
                    }
                }
            }
        }
        Ok((amount_a, amount_b))
    }

    /// Swaps `amount_a_in` of token A for token B at the constant-product rate; refused when
    /// the payout is below `min_amount_b_out`.
    pub fn swap_a_for_b(&mut self, amount_a_in: i128, min_amount_b_out: i128) -> (r: Result<
        i128,
        AmmError,
    >)
        requires
            swap_defined(old(self)@.reserve_a, old(self)@.reserve_b, amount_a_in, min_amount_b_out),
        ensures
            final(self).wf() == old(self).wf(),
            match swap_spec(old(self)@.reserve_a, old(self)@.reserve_b, amount_a_in, min_amount_b_out) {
                Ok((na, nb, out)) => r == Ok::<i128, AmmError>(out) && final(self)@ == (AmmView {
                    reserve_a: na,
                    reserve_b: nb,
                    ..old(self)@
                }),
                Err(e) => r == Err::<i128, AmmError>(e) && final(self)@ == old(self)@,
            },
            old(self).consistent() ==> final(self).consistent(),
            old(self).consistent() && r is Ok ==> final(self)@.k() >= old(self)@.k(),
    {
        let reserve_a = self.reserve_a;
        let reserve_b = self.reserve_b;
        match Self::swap_step(reserve_a, reserve_b, amount_a_in, min_amount_b_out) {
            Ok((na, nb, out)) => {
                self.reserve_a = na;
                self.reserve_b = nb;
                Ok(out)
            },
            Err(e) => Err(e),
        }
    }

    /// Swaps `amount_b_in` of token B for token A at the constant-product rate; refused when
    /// the payout is below `min_amount_a_out`.
    pub fn swap_b_for_a(&mut self, amount_b_in: i128, min_amount_a_out: i128) -> (r: Result<
        i128,
        AmmError,
    >)
        requires
            swap_defined(old(self)@.reserve_b, old(self)@.reserve_a, amount_b_in, min_amount_a_out),
        ensures
            final(self).wf() == old(self).wf(),
            match swap_spec(old(self)@.reserve_b, old(self)@.reserve_a, amount_b_in, min_amount_a_out) {
                Ok((nb, na, out)) => r == Ok::<i128, AmmError>(out) && final(self)@ == (AmmView {
                    reserve_a: na,
                    reserve_b: nb,
                    ..old(self)@
                }),
                Err(e) => r == Err::<i128, AmmError>(e) && final(self)@ == old(self)@,
            },
            old(self).consistent() ==> final(self).consistent(),
            old(self).consistent() && r is Ok ==> final(self)@.k() >= old(self)@.k(),
    {
        let reserve_a = self.reserve_a;
        let reserve_b = self.reserve_b;
        match Self::swap_step(reserve_b, reserve_a, amount_b_in, min_amount_a_out) {
            Ok((nb, na, out)) => {
                proof {
                    assert(na * nb == nb * na) by (nonlinear_arith);
                    assert(reserve_a * reserve_b == reserve_b * reserve_a) by (nonlinear_arith);
                }
                self.reserve_a = na;
                self.reserve_b = nb;
                Ok(out)
            },
            Err(e) => Err(e),
        }
    }

    /// One swap against the reserves `(r_in, r_out)`: the new reserves and the payout.
    fn swap_step(r_in: i128, r_out: i128, amount_in: i128, min_out: i128) -> (r: Result<
        (i128, i128, i128),
        AmmError,
    >)
        requires
            swap_defined(r_in, r_out, amount_in, min_out),
        ensures
            r == swap_spec(r_in, r_out, amount_in, min_out),
            r is Ok && r_in > 0 && r_out > 0 ==> r->Ok_0.0 > 0 && r->Ok_0.1 > 0 && r->Ok_0.0 * r->Ok_0.1
                >= r_in * r_out,
    {
        if amount_in <= 0 {
            return Err(AmmError::AmountMustBePositive);
        }
        if r_in == 0 || r_out == 0 {
            return Err(AmmError::NoLiquidity);
        }
        let denom = r_in + amount_in;
        let out = div_trunc(amount_in * r_out, denom);
        if out < min_out {
            return Err(AmmError::SlippageExceeded);
        }
        proof {
            if r_in > 0 && r_out > 0 {
                lemma_swap_math(r_in as int, r_out as int, amount_in as int);
            }
        }
        Ok((denom, r_out - out, out))
    }
}

/// Depositing and then withdrawing exactly the minted shares gives back no more than was
/// deposited, of either token, from a pool whose reserves are positive exactly while shares
/// exist.
pub proof fn lemma_add_then_remove_no_gain(v: AmmView, p: Seq<char>, a: i128, b: i128)
    requires
        v.reserve_a >= 0,
        v.reserve_b >= 0,
        v.total_shares >= 0,
        v.total_shares > 0 ==> v.reserve_a > 0 && v.reserve_b > 0,
        v.total_shares == 0 ==> v.reserve_a == 0 && v.reserve_b == 0,
        v.share_of(p) >= 0,
        add_liquidity_defined(v, p, a, b),
        add_liquidity_spec(v, p, a, b) is Ok,
        remove_liquidity_spec(
            add_liquidity_spec(v, p, a, b)->Ok_0.0,
            p,
            add_liquidity_spec(v, p, a, b)->Ok_0.1,
        ) is Ok,
    ensures
        ({
            let (w, m) = add_liquidity_spec(v, p, a, b)->Ok_0;
            let out = remove_liquidity_spec(w, p, m)->Ok_0.1;
            out.0 <= a && out.1 <= b
        }),
{
    let (w, m) = add_liquidity_spec(v, p, a, b)->Ok_0;
    let t = v.total_shares as int;
    let mi = m as int;
    assert(mi == minted_shares(v, a, b));
    assert(w.reserve_a == v.reserve_a + a && w.reserve_b == v.reserve_b + b);
    assert(w.total_shares == t + mi);
    if t > 0 {
        assert(mi <= (a * v.total_shares) / (v.reserve_a as int));
        assert(mi <= (b * v.total_shares) / (v.reserve_b as int));
    }
    lemma_no_gain_one_side(v.reserve_a as int, a as int, t, mi);
    lemma_no_gain_one_side(v.reserve_b as int, b as int, t, mi);
}

/// Into an empty pool, depositing and then withdrawing exactly the minted shares returns the
/// whole deposit and leaves the pool as it was: empty reserves, no shares, and the provider's
/// shares back at what they were.
pub proof fn lemma_first_deposit_round_trip(v: AmmView, p: Seq<char>, a: i128, b: i128)
    requires
        v.total_shares == 0,
        v.reserve_a == 0,
        v.reserve_b == 0,
        v.share_of(p) >= 0,
        add_liquidity_defined(v, p, a, b),
        add_liquidity_spec(v, p, a, b) is Ok,
        remove_liquidity_defined(
            add_liquidity_spec(v, p, a, b)->Ok_0.0,
            p,
            add_liquidity_spec(v, p, a, b)->Ok_0.1,
        ),
    ensures
        ({
            let (w, m) = add_liquidity_spec(v, p, a, b)->Ok_0;
            remove_liquidity_spec(w, p, m) == Ok::<(AmmView, (i128, i128)), AmmError>(
                (AmmView { shares: v.shares.insert(p, v.share_of(p)), ..v }, (a, b)),
            )
        }),
{
    let (w, m) = add_liquidity_spec(v, p, a, b)->Ok_0;
    let mi = m as int;
    assert(mi > 0);
    assert(w.reserve_a == a && w.reserve_b == b && w.total_shares == mi);
    assert(w.share_of(p) == v.share_of(p) + mi);
    assert((mi * a) / mi == a) by (nonlinear_arith)
        requires
            mi > 0,
            a > 0,
    ;
    assert((mi * b) / mi == b) by (nonlinear_arith)
        requires
            mi > 0,
            b > 0,
    ;
    assert(mi * a > 0) by (nonlinear_arith)
        requires
            mi > 0,
            a > 0,
    ;
    assert(mi * b > 0) by (nonlinear_arith)
        requires
            mi > 0,
            b > 0,
    ;
    assert(tdiv(mi * a, mi) == a);
    assert(tdiv(mi * b, mi) == b);
    let (u, out) = remove_liquidity_spec(w, p, m)->Ok_0;
    assert(u.shares =~= v.shares.insert(p, v.share_of(p)));
}

/// One side of the no-gain law: with `m` at most `amount * t / r` (or `t == r == 0`),
/// withdrawing `m` of `t + m` shares from `r + amount` pays at most `amount`.
proof fn lemma_no_gain_one_side(r: int, amount: int, t: int, m: int)
    requires
        r >= 0,
        amount > 0,
        t >= 0,
        m > 0,
        t > 0 ==> r > 0 && m <= (amount * t) / r,
        t == 0 ==> r == 0,
    ensures
        tdiv(m * (r + amount), t + m) <= amount,
{
    let n = m * (r + amount);
    let d = t + m;
    assert(n > 0) by (nonlinear_arith)
        requires
            m > 0,
            r + amount > 0,
            n == m * (r + amount),
    ;
    if t > 0 {
        assert(m * r <= amount * t) by (nonlinear_arith)
            requires
                r > 0,
                amount * t >= 0,
                m <= (amount * t) / r,
        ;
    }
    assert(n <= amount * d) by (nonlinear_arith)
        requires
            n == m * (r + amount),
            d == t + m,
            m * r <= amount * t || (t == 0 && r == 0),
    ;
    assert(n / d <= amount) by (nonlinear_arith)
        requires
            n <= amount * d,
            d > 0,
            n >= 0,
    ;
}

} // verus!
