use vstd::prelude::*;

use crate::access_control::{
    role_admin, role_oracle, spec_role_admin, spec_role_oracle, AccessControl,
};
use crate::effects::{Effect, Event};
use crate::table::Table;
use crate::util::{div_trunc, trunc_div};
use crate::{Address, Symbol};

verus! {

/// Staleness threshold used when none was configured (one day).
pub const DEFAULT_STALENESS_SECS: u64 = 86_400;

/// Ten to the power `n`.
pub open spec fn pow10(n: nat) -> int
    decreases n,
{
    if n == 0 {
        1
    } else {
        10 * pow10((n - 1) as nat)
    }
}

/// Ten to a power grows with the power and stays positive.
pub proof fn lemma_pow10_monotone(a: nat, b: nat)
    requires
        a <= b,
    ensures
        1 <= pow10(a) <= pow10(b),
    decreases b,
{
    if b == 0 {
    } else if a == b {
        lemma_pow10_monotone((b - 1) as nat, (b - 1) as nat);
    } else {
        lemma_pow10_monotone(a, (b - 1) as nat);
    }
}

/// `10^n` as an `i128`.
pub fn pow10_i128(n: u32) -> (r: i128)
    requires
        n <= 38,
    ensures
        r == pow10(n as nat),
        r >= 1,
{
    let mut t: i128 = 1;
    let mut i: u32 = 0;
    proof {
        reveal_with_fuel(pow10, 40);
        assert(pow10(38) == 100000000000000000000000000000000000000int);
    }
    while i < n
        invariant
            i <= n <= 38,
            t == pow10(i as nat),
            pow10(38) == 100000000000000000000000000000000000000int,
        decreases n - i,
    {
        proof {
            lemma_pow10_monotone((i + 1) as nat, 38);
        }
        t = t * 10;
        i = i + 1;
    }
    proof {
        lemma_pow10_monotone(0, n as nat);
    }
    t
}

/// A published exchange rate.
#[derive(Debug, PartialEq, Eq)]
pub struct RateData {
    pub pair: Symbol,
    pub rate: i128,
    pub decimals: u32,
    pub updated_at: u64,
}

impl Clone for RateData {
    fn clone(&self) -> (r: Self)
        ensures
            r == *self,
    {
        RateData {
            pair: self.pair.clone(),
            rate: self.rate,
            decimals: self.decimals,
            updated_at: self.updated_at,
        }
    }
}

/// Errors of the exchange-rate oracle.
#[derive(Clone, Copy, Debug, PartialEq, Eq, Structural)]
pub enum FXOracleError {
    RateNotFound,
    RateStale,
    Unauthorized,
}

impl FXOracleError {
    /// The code of each error.
    pub open spec fn code_of(self) -> u32 {
        match self {
            FXOracleError::RateNotFound => 1,
            FXOracleError::RateStale => 2,
            FXOracleError::Unauthorized => 3,
        }
    }

    /// The numeric code under which the error is reported on chain.
    pub fn code(&self) -> (r: u32)
        ensures
            r == self.code_of(),
    {
        match self {
            FXOracleError::RateNotFound => 1,
            FXOracleError::RateStale => 2,
            FXOracleError::Unauthorized => 3,
        }
    }
}

/// Exchange rates published by oracle operators, with a staleness limit.
pub struct FXOracle {
    pub access: AccessControl,
    pub rates: Table<RateData>,
    /// Seconds after which a rate is stale (the default applies when unset).
    pub staleness_threshold: Option<u64>,
    /// Effects of the calls so far, for the host to carry out in order.
    pub effects: Vec<Effect>,
}

impl FXOracle {
    /// Internal consistency.
    pub open spec fn wf(&self) -> bool {
        self.access.wf() && self.rates.wf()
    }

    /// The staleness threshold in force.
    pub open spec fn spec_threshold(&self) -> u64 {
        match self.staleness_threshold {
            Some(t) => t,
            None => DEFAULT_STALENESS_SECS,
        }
    }

    /// What `get_rate(pair)` answers at time `now`.
    pub open spec fn spec_get_rate(&self, pair: Seq<char>, now: u64) -> Result<RateData, FXOracleError> {
        if !self.rates@.contains_key(pair) {
            Err(FXOracleError::RateNotFound)
        } else if now > self.rates@[pair].updated_at + self.spec_threshold() {
            Err(FXOracleError::RateStale)
        } else {
            Ok(self.rates@[pair])
        }
    }

    /// An oracle with no administrator and no rates.
    pub fn new() -> (r: Self)
        ensures
            r.wf(),
            r.rates@ == Map::<Seq<char>, RateData>::empty(),
            r.staleness_threshold is None,
            r.effects@ == Seq::<Effect>::empty(),
            r.access.admin_view() is None,
            r.access.members_view() == Map::<Seq<char>, Seq<String>>::empty(),
    {
        FXOracle {
            access: AccessControl::new(),
            rates: Table::new(),
            staleness_threshold: None,
            effects: Vec::new(),
        }
    }

    /// Storage layout version.
    pub fn version() -> (r: u32)
        ensures
            r == 1,
    {
        1
    }

    /// Sets the administrator and the staleness threshold.
    pub fn oracle_initialize(&mut self, admin: Address, staleness_threshold: u64)
        requires
            old(self).wf(),
        ensures
            final(self).wf(),
            final(self).access.admin_view() == Some(admin@),
            final(self).access.admin_address() == Some(admin),
            final(self).access.spec_has_role(spec_role_admin(), admin@),
            forall|r: Seq<char>, a: Seq<char>|
                r != spec_role_admin() ==> (final(self).access.spec_has_role(r, a) == old(self).access.spec_has_role(r, a)),
            final(self).staleness_threshold == Some(staleness_threshold),
            final(self).rates == old(self).rates,
            final(self).effects == old(self).effects,
    {
        self.access.initialize(admin);
        self.staleness_threshold = Some(staleness_threshold);
    }

    /// The administrator `admin` gives `role` to `account`.
    pub fn oracle_grant_role(&mut self, admin: &Address, role: String, account: Address) -> (r:
        Result<(), FXOracleError>)
        requires
            old(self).wf(),
        ensures
            final(self).wf(),
            final(self).rates == old(self).rates,
            final(self).effects == old(self).effects,
            final(self).staleness_threshold == old(self).staleness_threshold,
            !old(self).access.spec_has_role(spec_role_admin(), admin@) ==> r == Err::<(), FXOracleError>(
                FXOracleError::Unauthorized,
            ) && final(self).access == old(self).access,
            old(self).access.spec_has_role(spec_role_admin(), admin@) ==> r is Ok && final(self).access.spec_has_role(role@, account@)
                && (forall|r2: Seq<char>, a2: Seq<char>|
                (r2 != role@ || a2 != account@) ==> final(self).access.spec_has_role(r2, a2) == old(self).access.spec_has_role(r2, a2))
                && final(self).access.admin_address() == old(self).access.admin_address(),
    {
        match self.access.grant_role(admin, role, account) {
            Ok(()) => Ok(()),
            Err(_) => Err(FXOracleError::Unauthorized),
        }
    }

    /// Whether `account` holds `role`.
    pub fn oracle_has_role(&self, role: &String, account: &Address) -> (r: bool)
        requires
            self.wf(),
        ensures
            r == self.access.spec_has_role(role@, account@),
    {
        self.access.has_role(role, account)
    }

    /// The administrator, if any.
    pub fn get_fx_admin(&self) -> (r: Option<Address>)
        ensures
            r == self.access.admin_address(),
            match r {
                Some(a) => self.access.admin_view() == Some(a@),
                None => self.access.admin_view() is None,
            },
    {
        self.access.get_admin()
    }

    /// An oracle operator publishes the rate for `pair`, stamped with the current time.
    pub fn set_rate(&mut self, operator: &Address, pair: Symbol, rate: i128, decimals: u32, now: u64) -> (r:
        Result<(), FXOracleError>)
        requires
            old(self).wf(),
        ensures
            final(self).wf(),
            final(self).access == old(self).access,
            final(self).staleness_threshold == old(self).staleness_threshold,
            !old(self).access.spec_has_role(spec_role_oracle(), operator@) ==> r == Err::<(), FXOracleError>(
                FXOracleError::Unauthorized,
            ) && final(self).rates == old(self).rates && final(self).effects == old(self).effects,
            old(self).access.spec_has_role(spec_role_oracle(), operator@) ==> r is Ok && final(self).rates@ == old(self).rates@.insert(
                pair@,
                RateData { pair, rate, decimals, updated_at: now },
            ) && final(self).effects@ == old(self).effects@.push(
                Effect::Emit(Event::RateUpdated { pair }),
            ),
    {
        let oracle_role = role_oracle();
        if !self.access.has_role(&oracle_role, operator) {
            return Err(FXOracleError::Unauthorized);
        }
        let data = RateData { pair: pair.clone(), rate, decimals, updated_at: now };
        self.rates.set(pair.clone(), data);
        self.effects.push(Effect::Emit(Event::RateUpdated { pair }));
        Ok(())
    }

    /// The rate for `pair`, unless it is missing or older than the staleness threshold.
    pub fn get_rate(&self, pair: &Symbol, now: u64) -> (r: Result<RateData, FXOracleError>)
        requires
            self.wf(),
            self.rates@.contains_key(pair@) ==> self.rates@[pair@].updated_at + self.spec_threshold()
                <= u64::MAX,
        ensures
            r == self.spec_get_rate(pair@, now),
            (r == Err::<RateData, FXOracleError>(FXOracleError::RateStale)) <==> (self.rates@.contains_key(pair@) && now
                > self.rates@[pair@].updated_at + self.spec_threshold()),
    {
        let data = match self.rates.get(pair) {
            Some(d) => d,
            None => {
                return Err(FXOracleError::RateNotFound);
            },
        };
        let threshold = self.get_staleness_threshold();
        if now > data.updated_at + threshold {
            return Err(FXOracleError::RateStale);
        }
        Ok(data.clone())
    }

    /// Converts `usdc_amount` at the current rate for `target_currency`
    /// (`amount * rate / 10^decimals`, rounded toward zero).
    pub fn get_settlement_amount(&self, usdc_amount: i128, target_currency: &Symbol, now: u64) -> (r:
        Result<i128, FXOracleError>)
        requires
            self.wf(),
            self.rates@.contains_key(target_currency@) ==> {
                let d = self.rates@[target_currency@];
                &&& d.updated_at + self.spec_threshold() <= u64::MAX
                &&& d.decimals <= 38
                &&& i128::MIN <= usdc_amount * d.rate <= i128::MAX
            },
        ensures
            match self.spec_get_rate(target_currency@, now) {
                Ok(d) => r == Ok::<i128, FXOracleError>(
                    trunc_div(usdc_amount * d.rate, pow10(d.decimals as nat)) as i128,
                ),
                Err(e) => r == Err::<i128, FXOracleError>(e),
            },
    {
        let data = self.get_rate(target_currency, now)?;
        let divisor = pow10_i128(data.decimals);
        Ok(div_trunc(usdc_amount * data.rate, divisor))
    }

    /// The staleness threshold in force.
    pub fn get_staleness_threshold(&self) -> (r: u64)
        ensures
            r == self.spec_threshold(),
    {
        match self.staleness_threshold {
            Some(t) => t,
            None => DEFAULT_STALENESS_SECS,
        }
    }

    /// The administrator changes the staleness threshold.
    pub fn set_staleness_threshold(&mut self, admin: &Address, threshold: u64) -> (r: Result<
        (),
        FXOracleError,
    >)
        requires
            old(self).wf(),
        ensures
            final(self).wf(),
            final(self).access == old(self).access,
            final(self).rates == old(self).rates,
            final(self).effects == old(self).effects,
            !old(self).access.spec_has_role(spec_role_admin(), admin@) ==> r == Err::<(), FXOracleError>(
                FXOracleError::Unauthorized,
            ) && final(self).staleness_threshold == old(self).staleness_threshold,
            old(self).access.spec_has_role(spec_role_admin(), admin@) ==> r is Ok && final(self).staleness_threshold == Some(threshold),
    {
        let admin_role = role_admin();
        if !self.access.has_role(&admin_role, admin) {
            return Err(FXOracleError::Unauthorized);
        }
        self.staleness_threshold = Some(threshold);
        Ok(())
    }

    /// Hands the accumulated effects to the host, leaving none.
    pub fn take_effects(&mut self) -> (r: Vec<Effect>)
        ensures
            r@ == old(self).effects@,
            final(self).effects@ == Seq::<Effect>::empty(),
            final(self).access == old(self).access,
            final(self).rates == old(self).rates,
            final(self).staleness_threshold == old(self).staleness_threshold,
    {
        let mut out: Vec<Effect> = Vec::new();
        std::mem::swap(&mut out, &mut self.effects);
        out
    }
}

} // verus!
