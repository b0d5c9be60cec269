use vstd::prelude::*;

use crate::access_control::{clone_strings, role_merchant, seq_has, spec_role_merchant};
use crate::effects::{Effect, Event};
use crate::table::Table;
use crate::types::clone_opt_str;
use crate::util::{clamp_i128, div_trunc, sat_add, trunc_div};
use crate::Address;

verus! {

/// KYC tier of a merchant; payment limits and fees vary by tier.
#[derive(Clone, Copy, Debug, PartialEq, Eq, Structural)]
pub enum KycTier {
    Unverified,
    Basic,
    Full,
    Business,
}

/// A merchant's fee settings.
#[derive(Debug, PartialEq, Eq)]
pub struct FeeConfig {
    /// Platform fee in basis points (100 is one percent).
    pub platform_fee_bps: i32,
    /// Fixed fee per transaction, in the smallest currency unit.
    pub fixed_fee: i128,
    /// Where fees go (the administrator when none is set).
    pub fee_recipient: Option<Address>,
}

impl Clone for FeeConfig {
    fn clone(&self) -> (r: Self)
        ensures
            r == *self,
    {
        FeeConfig {
            platform_fee_bps: self.platform_fee_bps,
            fixed_fee: self.fixed_fee,
            fee_recipient: clone_opt_str(&self.fee_recipient),
        }
    }
}

fn clone_opt_fee(o: &Option<FeeConfig>) -> (r: Option<FeeConfig>)
    ensures
        r == *o,
{
    match o {
        Some(c) => Some(c.clone()),
        None => None,
    }
}

/// A registered merchant.
#[derive(Debug, PartialEq, Eq)]
pub struct Merchant {
    pub merchant_id: Address,
    pub business_name: String,
    pub settlement_currency: String,
    /// On-chain address where settled funds go.
    pub payout_address: Option<Address>,
    /// Off-chain bank account reference for fiat payouts.
    pub bank_account: Option<String>,
    pub kyc_tier: KycTier,
    pub active: bool,
    pub created_at: u64,
    pub suspension_reason: Option<String>,
    pub suspended_at: Option<u64>,
    pub fee_config: Option<FeeConfig>,
}

impl Clone for Merchant {
    fn clone(&self) -> (r: Self)
        ensures
            r == *self,
    {
        Merchant {
            merchant_id: self.merchant_id.clone(),
            business_name: self.business_name.clone(),
            settlement_currency: self.settlement_currency.clone(),
            payout_address: clone_opt_str(&self.payout_address),
            bank_account: clone_opt_str(&self.bank_account),
            kyc_tier: self.kyc_tier,
            active: self.active,
            created_at: self.created_at,
            suspension_reason: clone_opt_str(&self.suspension_reason),
            suspended_at: self.suspended_at,
            fee_config: clone_opt_fee(&self.fee_config),
        }
    }
}

/// Errors of the merchant registry.
#[derive(Clone, Copy, Debug, PartialEq, Eq, Structural)]
pub enum MerchantError {
    MerchantAlreadyExists,
    MerchantNotFound,
    Unauthorized,
    NotVerified,
    AdminAlreadySet,
}

impl MerchantError {
    /// The code of each error.
    pub open spec fn code_of(self) -> u32 {
        match self {
            MerchantError::MerchantAlreadyExists => 1,
            MerchantError::MerchantNotFound => 2,
            MerchantError::Unauthorized => 3,
            MerchantError::NotVerified => 4,
            MerchantError::AdminAlreadySet => 5,
        }
    }

    /// The numeric code under which the error is reported on chain.
    pub fn code(&self) -> (r: u32)
        ensures
            r == self.code_of(),
    {
        match self {
            MerchantError::MerchantAlreadyExists => 1,
            MerchantError::MerchantNotFound => 2,
            MerchantError::Unauthorized => 3,
            MerchantError::NotVerified => 4,
            MerchantError::AdminAlreadySet => 5,
        }
    }
}

/// The directory of merchants, their KYC tiers and fee settings.
pub struct MerchantRegistry {
    admin: Option<Address>,
    merchants: Table<Merchant>,
    merchant_list: Vec<Address>,
    refund_manager: Option<Address>,
    effects: Vec<Effect>,
}

/// Whether the text `s` spells the optional address `o`.
pub open spec fn opt_is(o: Option<Address>, s: Seq<char>) -> bool {
    o matches Some(a) && a@ == s
}

/// The platform fee and net amount for `amount` under a fee configuration:
/// no configuration, or a zero one, takes nothing; a fee that reaches the amount takes it all.
pub open spec fn spec_fee(config: Option<FeeConfig>, amount: i128) -> (i128, i128) {
    match config {
        None => (0, amount),
        Some(c) => if c.platform_fee_bps == 0 && c.fixed_fee == 0 {
            (0, amount)
        } else {
            let total = clamp_i128(trunc_div(amount * c.platform_fee_bps, 10_000) + c.fixed_fee);
            if total >= amount {
                (amount, 0)
            } else {
                (total as i128, clamp_i128(amount - total) as i128)
            }
        },
    }
}

/// A merchant's record once suspended for `reason` at `now`.
pub open spec fn suspended_record(m: Merchant, reason: String, now: u64) -> Merchant {
    Merchant { active: false, suspension_reason: Some(reason), suspended_at: Some(now), ..m }
}

/// A merchant's record once reinstated: active, with no suspension on record.
pub open spec fn reinstated_record(m: Merchant) -> Merchant {
    Merchant { active: true, suspension_reason: None, suspended_at: None, ..m }
}

impl MerchantRegistry {
    /// The stored merchants by the text of their address.
    pub closed spec fn merchants_view(&self) -> Map<Seq<char>, Merchant> {
        self.merchants@
    }

    /// Registered merchants in registration order.
    pub closed spec fn list_view(&self) -> Seq<String> {
        self.merchant_list@
    }

    /// Effects of the calls so far, for the host to carry out in order.
    pub closed spec fn effects_view(&self) -> Seq<Effect> {
        self.effects@
    }

    /// The administrator.
    pub closed spec fn admin_view(&self) -> Option<Address> {
        self.admin
    }

    /// The refund manager to which verified merchants are reported.
    pub closed spec fn refund_manager_view(&self) -> Option<Address> {
        self.refund_manager
    }

    /// Internal consistency: the registration order lists exactly the stored merchants.
    pub closed spec fn wf(&self) -> bool {
        &&& self.merchants.wf()
        &&& forall|i: int|
            0 <= i < self.merchant_list@.len() ==> self.merchants@.contains_key(
                #[trigger] self.merchant_list@[i]@,
            )
        &&& forall|k: Seq<char>|
            #[trigger] self.merchants@.contains_key(k) ==> seq_has(self.merchant_list@, k)
    }

    /// Whether `admin` is the stored administrator.
    pub open spec fn is_admin(&self, admin: Seq<char>) -> bool {
        opt_is(self.admin_view(), admin)
    }

    /// An empty registry with no administrator.
    pub fn new() -> (r: Self)
        ensures
            r.wf(),
            r.admin_view() is None,
            r.merchants_view() == Map::<Seq<char>, Merchant>::empty(),
            r.list_view() == Seq::<String>::empty(),
            r.effects_view() == Seq::<Effect>::empty(),
            r.refund_manager_view() is None,
    {
        MerchantRegistry {
            admin: None,
            merchants: Table::new(),
            merchant_list: Vec::new(),
            refund_manager: None,
            effects: Vec::new(),
        }
    }

    /// Storage layout version.
    pub fn version() -> (r: u32)
        ensures
            r == 1,
    {
        1
    }

    /// Sets the administrator, once.
    pub fn initialize(&mut self, admin: Address) -> (r: Result<(), MerchantError>)
        requires
            old(self).wf(),
        ensures
            final(self).wf(),
            final(self).merchants_view() == old(self).merchants_view(),
            final(self).list_view() == old(self).list_view(),
            final(self).effects_view() == old(self).effects_view(),
            final(self).refund_manager_view() == old(self).refund_manager_view(),
            old(self).admin_view() is Some ==> r == Err::<(), MerchantError>(
                MerchantError::AdminAlreadySet,
            ) && final(self).admin_view() == old(self).admin_view(),
            old(self).admin_view() is None ==> r is Ok && final(self).admin_view() == Some(admin),
    {
        if self.admin.is_some() {
            return Err(MerchantError::AdminAlreadySet);
        }
        self.admin = Some(admin);
        Ok(())
    }

    fn add_to_merchant_list(&mut self, merchant_id: &Address)
        ensures
            final(self).list_view() == (if seq_has(old(self).list_view(), merchant_id@) {
                old(self).list_view()
            } else {
                old(self).list_view().push(*merchant_id)
            }),
            final(self).merchants == old(self).merchants,
            final(self).admin == old(self).admin,
            final(self).refund_manager == old(self).refund_manager,
            final(self).effects_view() == old(self).effects_view(),
    {
        let mut i: usize = 0;
        while i < self.merchant_list.len()
            invariant
                i <= self.merchant_list.len(),
                forall|j: int| 0 <= j < i ==> self.merchant_list@[j]@ != merchant_id@,
            decreases self.merchant_list.len() - i,
        {
            if self.merchant_list[i] == *merchant_id {
                return;
            }
            i = i + 1;
        }
        self.merchant_list.push(merchant_id.clone());
    }

    /// `merchant_id` registers itself, unverified and active.
    pub fn register_merchant(
        &mut self,
        merchant_id: Address,
        business_name: String,
        settlement_currency: String,
        payout_address: Option<Address>,
        bank_account: Option<String>,
        fee_config: Option<FeeConfig>,
        now: u64,
    ) -> (r: Result<(), MerchantError>)
        requires
            old(self).wf(),
        ensures
            final(self).wf(),
            final(self).admin_view() == old(self).admin_view(),
            final(self).refund_manager_view() == old(self).refund_manager_view(),
            final(self).effects_view() == old(self).effects_view(),
            old(self).merchants_view().contains_key(merchant_id@) ==> r == Err::<(), MerchantError>(
                MerchantError::MerchantAlreadyExists,
            ) && final(self).merchants_view() == old(self).merchants_view() && final(self).list_view() == old(self).list_view(),
            !old(self).merchants_view().contains_key(merchant_id@) ==> r is Ok && final(self).merchants_view() == old(self).merchants_view().insert(
                merchant_id@,
                Merchant {
                    merchant_id,
                    business_name,
                    settlement_currency,
                    payout_address,
                    bank_account,
                    kyc_tier: KycTier::Unverified,
                    active: true,
                    created_at: now,
                    suspension_reason: None,
                    suspended_at: None,
                    fee_config,
                },
            ) && final(self).list_view() == old(self).list_view().push(merchant_id),
    {
        if self.merchants.contains(&merchant_id) {
            return Err(MerchantError::MerchantAlreadyExists);
        }
        let key = merchant_id.clone();
        self.add_to_merchant_list(&merchant_id);
        let merchant = Merchant {
            merchant_id,
            business_name,
            settlement_currency,
            payout_address,
            bank_account,
            kyc_tier: KycTier::Unverified,
            active: true,
            created_at: now,
            suspension_reason: None,
            suspended_at: None,
            fee_config,
        };
        proof {
            if seq_has(old(self).merchant_list@, merchant_id@) {
                let i = choose|i: int| 0 <= i < old(self).merchant_list@.len() && (#[trigger] old(self).merchant_list@[i])@ == merchant_id@;
                assert(old(self).merchants@.contains_key(old(self).merchant_list@[i]@));
            }
        }
        self.merchants.set(key, merchant);
        proof {
            assert forall|k: Seq<char>| #[trigger] self.merchants@.contains_key(k) implies seq_has(self.merchant_list@, k) by {
                if k == merchant_id@ {
                    assert(self.merchant_list@[self.merchant_list@.len() - 1]@ == k);
                } else {
                    assert(old(self).merchants@.contains_key(k));
                    let i = choose|i: int| 0 <= i < old(self).merchant_list@.len() && (#[trigger] old(self).merchant_list@[i])@ == k;
                    assert(self.merchant_list@[i] == old(self).merchant_list@[i]);
                }
            }
        }
        Ok(())
    }

    /// `merchant_id` changes the settings it passes; the others keep their values.
    pub fn update_merchant(
        &mut self,
        merchant_id: Address,
        business_name: Option<String>,
        settlement_currency: Option<String>,
        active: Option<bool>,
        payout_address: Option<Address>,
        bank_account: Option<String>,
        fee_config: Option<FeeConfig>,
    ) -> (r: Result<(), MerchantError>)
        requires
            old(self).wf(),
        ensures
            final(self).wf(),
            final(self).admin_view() == old(self).admin_view(),
            final(self).refund_manager_view() == old(self).refund_manager_view(),
            final(self).list_view() == old(self).list_view(),
            !old(self).merchants_view().contains_key(merchant_id@) ==> r == Err::<(), MerchantError>(
                MerchantError::MerchantNotFound,
            ) && final(self).merchants_view() == old(self).merchants_view() && final(self).effects_view()
                == old(self).effects_view(),
            old(self).merchants_view().contains_key(merchant_id@) ==> {
                let m = old(self).merchants_view()[merchant_id@];
                &&& r is Ok
                &&& final(self).merchants_view() == old(self).merchants_view().insert(
                    merchant_id@,
                    Merchant {
                        business_name: match business_name {
                            Some(n) => n,
                            None => m.business_name,
                        },
                        settlement_currency: match settlement_currency {
                            Some(c) => c,
                            None => m.settlement_currency,
                        },
                        active: match active {
                            Some(a) => a,
                            None => m.active,
                        },
                        payout_address: match payout_address {
                            Some(p) => Some(p),
                            None => m.payout_address,
                        },
                        bank_account: match bank_account {
                            Some(b) => Some(b),
                            None => m.bank_account,
                        },
                        fee_config: match fee_config {
                            Some(f) => Some(f),
                            None => m.fee_config,
                        },
                        ..m
                    },
                )
                &&& final(self).effects_view() == old(self).effects_view().push(
                    Effect::Emit(Event::MerchantUpdated { merchant_id }),
                )
            },
    {
        let taken = self.merchants.take(&merchant_id);
        let mut merchant = match taken {
            Some(m) => m,
            None => {
                return Err(MerchantError::MerchantNotFound);
            },
        };
        if let Some(name) = business_name {
            merchant.business_name = name;
        }
        if let Some(currency) = settlement_currency {
            merchant.settlement_currency = currency;
        }
        if let Some(is_active) = active {
            merchant.active = is_active;
        }
        if let Some(addr) = payout_address {
            merchant.payout_address = Some(addr);
        }
        if let Some(acct) = bank_account {
            merchant.bank_account = Some(acct);
        }
        if let Some(config) = fee_config {
            merchant.fee_config = Some(config);
        }
        self.merchants.set(merchant_id.clone(), merchant);
        proof {
            assert(old(self).merchants_view().remove(merchant_id@).insert(merchant_id@, merchant)
                =~= old(self).merchants_view().insert(merchant_id@, merchant));
        }
        self.effects.push(Effect::Emit(Event::MerchantUpdated { merchant_id }));
        Ok(())
    }

    /// The merchant registered under `merchant_id`.
    pub fn get_merchant(&self, merchant_id: &Address) -> (r: Result<Merchant, MerchantError>)
        requires
            self.wf(),
        ensures
            self.merchants_view().contains_key(merchant_id@) ==> r == Ok::<Merchant, MerchantError>(
                self.merchants_view()[merchant_id@],
            ),
            !self.merchants_view().contains_key(merchant_id@) ==> r == Err::<Merchant, MerchantError>(
                MerchantError::MerchantNotFound,
            ),
    {
        match self.merchants.get(merchant_id) {
            Some(m) => Ok(m.clone()),
            None => Err(MerchantError::MerchantNotFound),
        }
    }

    fn check_admin(&self, admin: &Address) -> (r: Result<(), MerchantError>)
        ensures
            self.is_admin(admin@) ==> r is Ok,
            !self.is_admin(admin@) ==> r == Err::<(), MerchantError>(MerchantError::Unauthorized),
    {
        match &self.admin {
            Some(stored) => {
                if *admin != *stored {
                    Err(MerchantError::Unauthorized)
                } else {
                    Ok(())
                }
            },
            None => Err(MerchantError::Unauthorized),
        }
    }

    /// Replaces the record of an existing merchant with `f(record)`.
    fn put(&mut self, merchant_id: &Address, merchant: Merchant)
        requires
            old(self).wf(),
            old(self).merchants@.contains_key(merchant_id@),
        ensures
            final(self).wf(),
            final(self).merchants_view() == old(self).merchants_view().insert(merchant_id@, merchant),
            final(self).admin == old(self).admin,
            final(self).merchant_list == old(self).merchant_list,
            final(self).refund_manager == old(self).refund_manager,
            final(self).effects_view() == old(self).effects_view(),
    {
        self.merchants.set(merchant_id.clone(), merchant);
        proof {
            assert forall|k: Seq<char>| #[trigger] self.merchants@.contains_key(k) implies seq_has(self.merchant_list@, k) by {
                assert(old(self).merchants@.contains_key(k));
            }
        }
    }

    /// The administrator marks a merchant verified (basic tier); when a refund manager is
    /// configured, the merchant is also given the merchant role there.
    pub fn verify_merchant(&mut self, admin: Address, merchant_id: Address) -> (r: Result<
        (),
        MerchantError,
    >)
        requires
            old(self).wf(),
        ensures
            final(self).wf(),
            final(self).admin_view() == old(self).admin_view(),
            final(self).refund_manager_view() == old(self).refund_manager_view(),
            final(self).list_view() == old(self).list_view(),
            !old(self).is_admin(admin@) ==> r == Err::<(), MerchantError>(MerchantError::Unauthorized)
                && final(self).merchants_view() == old(self).merchants_view() && final(self).effects_view()
                == old(self).effects_view(),
            old(self).is_admin(admin@) && !old(self).merchants_view().contains_key(merchant_id@)
                ==> r == Err::<(), MerchantError>(MerchantError::MerchantNotFound) && final(self).merchants_view() == old(self).merchants_view() && final(self).effects_view() == old(self).effects_view(),
            old(self).is_admin(admin@) && old(self).merchants_view().contains_key(merchant_id@) ==> {
                &&& r is Ok
                &&& final(self).merchants_view() == old(self).merchants_view().insert(
                    merchant_id@,
                    Merchant {
                        kyc_tier: KycTier::Basic,
                        ..old(self).merchants_view()[merchant_id@]
                    },
                )
                &&& match old(self).refund_manager_view() {
                    Some(rm) => {
                        &&& final(self).effects_view().len() == old(self).effects_view().len() + 2
                        &&& final(self).effects_view().take(old(self).effects_view().len() as int) == old(self).effects_view()
                        &&& is_merchant_grant(final(self).effects_view()[old(self).effects_view().len() as int], rm, admin, merchant_id)
                        &&& final(self).effects_view().last() == Effect::Emit(Event::MerchantVerified { merchant_id })
                    },
                    None => final(self).effects_view() == old(self).effects_view().push(
                        Effect::Emit(Event::MerchantVerified { merchant_id }),
                    ),
                }
            },
    {
        self.check_admin(&admin)?;
        let mut merchant = match self.merchants.get(&merchant_id) {
            Some(m) => m.clone(),
            None => {
                return Err(MerchantError::MerchantNotFound);
            },
        };
        merchant.kyc_tier = KycTier::Basic;
        self.put(&merchant_id, merchant);
        match &self.refund_manager {
            Some(rm) => {
                let eff = Effect::GrantRole {
                    contract: rm.clone(),
                    admin,
                    role: role_merchant(),
                    account: merchant_id.clone(),
                };
                self.effects.push(eff);
            },
            None => {},
        }
        self.effects.push(Effect::Emit(Event::MerchantVerified { merchant_id }));
        proof {
            if old(self).refund_manager_view() is Some {
                assert(self.effects@.take(old(self).effects_view().len() as int) =~= old(self).effects_view());
            }
        }
        Ok(())
    }

    /// The administrator sets a merchant's KYC tier.
    pub fn set_kyc_tier(&mut self, admin: Address, merchant_id: Address, tier: KycTier) -> (r:
        Result<(), MerchantError>)
        requires
            old(self).wf(),
        ensures
            final(self).wf(),
            final(self).admin_view() == old(self).admin_view(),
            final(self).refund_manager_view() == old(self).refund_manager_view(),
            final(self).list_view() == old(self).list_view(),
            final(self).effects_view() == old(self).effects_view(),
            !old(self).is_admin(admin@) ==> r == Err::<(), MerchantError>(MerchantError::Unauthorized)
                && final(self).merchants_view() == old(self).merchants_view(),
            old(self).is_admin(admin@) && !old(self).merchants_view().contains_key(merchant_id@)
                ==> r == Err::<(), MerchantError>(MerchantError::MerchantNotFound) && final(self).merchants_view() == old(self).merchants_view(),
            old(self).is_admin(admin@) && old(self).merchants_view().contains_key(merchant_id@)
                ==> r is Ok && final(self).merchants_view() == old(self).merchants_view().insert(
                merchant_id@,
                Merchant { kyc_tier: tier, ..old(self).merchants_view()[merchant_id@] },
            ),
    {
        self.check_admin(&admin)?;
        let mut merchant = match self.merchants.get(&merchant_id) {
            Some(m) => m.clone(),
            None => {
                return Err(MerchantError::MerchantNotFound);
            },
        };
        merchant.kyc_tier = tier;
        self.put(&merchant_id, merchant);
        Ok(())
    }

    /// The administrator sets the refund manager that verified merchants are reported to.
    pub fn set_refund_manager_address(&mut self, admin: Address, refund_manager: Address) -> (r:
        Result<(), MerchantError>)
        requires
            old(self).wf(),
        ensures
            final(self).wf(),
            final(self).admin_view() == old(self).admin_view(),
            final(self).merchants_view() == old(self).merchants_view(),
            final(self).list_view() == old(self).list_view(),
            final(self).effects_view() == old(self).effects_view(),
            !old(self).is_admin(admin@) ==> r == Err::<(), MerchantError>(MerchantError::Unauthorized)
                && final(self).refund_manager_view() == old(self).refund_manager_view(),
            old(self).is_admin(admin@) ==> r is Ok && final(self).refund_manager_view() == Some(
                refund_manager,
            ),
    {
        self.check_admin(&admin)?;
        self.refund_manager = Some(refund_manager);
        Ok(())
    }

    /// The administrator suspends a merchant, recording why and when.
    pub fn suspend_merchant(&mut self, admin: Address, merchant_id: Address, reason: String, now: u64) -> (r:
        Result<(), MerchantError>)
        requires
            old(self).wf(),
        ensures
            final(self).wf(),
            final(self).admin_view() == old(self).admin_view(),
            final(self).refund_manager_view() == old(self).refund_manager_view(),
            final(self).list_view() == old(self).list_view(),
            !old(self).is_admin(admin@) ==> r == Err::<(), MerchantError>(MerchantError::Unauthorized)
                && final(self).merchants_view() == old(self).merchants_view() && final(self).effects_view()
                == old(self).effects_view(),
            old(self).is_admin(admin@) && !old(self).merchants_view().contains_key(merchant_id@)
                ==> r == Err::<(), MerchantError>(MerchantError::MerchantNotFound) && final(self).merchants_view() == old(self).merchants_view() && final(self).effects_view() == old(self).effects_view(),
            old(self).is_admin(admin@) && old(self).merchants_view().contains_key(merchant_id@)
                ==> r is Ok && final(self).merchants_view() == old(self).merchants_view().insert(
                merchant_id@,
                suspended_record(old(self).merchants_view()[merchant_id@], reason, now),
            ) && final(self).effects_view() == old(self).effects_view().push(
                Effect::Emit(Event::MerchantSuspended { merchant_id }),
            ),
    {
        self.check_admin(&admin)?;
        let mut merchant = match self.merchants.get(&merchant_id) {
            Some(m) => m.clone(),
            None => {
                return Err(MerchantError::MerchantNotFound);
            },
        };
        merchant.active = false;
        merchant.suspension_reason = Some(reason);
        merchant.suspended_at = Some(now);
        self.put(&merchant_id, merchant);
        self.effects.push(Effect::Emit(Event::MerchantSuspended { merchant_id }));
        Ok(())
    }

    /// The administrator lifts a merchant's suspension.
    pub fn reinstate_merchant(&mut self, admin: Address, merchant_id: Address) -> (r: Result<
        (),
        MerchantError,
    >)
        requires
            old(self).wf(),
        ensures
            final(self).wf(),
            final(self).admin_view() == old(self).admin_view(),
            final(self).refund_manager_view() == old(self).refund_manager_view(),
            final(self).list_view() == old(self).list_view(),
            !old(self).is_admin(admin@) ==> r == Err::<(), MerchantError>(MerchantError::Unauthorized)
                && final(self).merchants_view() == old(self).merchants_view() && final(self).effects_view()
                == old(self).effects_view(),
            old(self).is_admin(admin@) && !old(self).merchants_view().contains_key(merchant_id@)
                ==> r == Err::<(), MerchantError>(MerchantError::MerchantNotFound) && final(self).merchants_view() == old(self).merchants_view() && final(self).effects_view() == old(self).effects_view(),
            old(self).is_admin(admin@) && old(self).merchants_view().contains_key(merchant_id@)
                ==> r is Ok && final(self).merchants_view() == old(self).merchants_view().insert(
                merchant_id@,
                reinstated_record(old(self).merchants_view()[merchant_id@]),
            ) && final(self).effects_view() == old(self).effects_view().push(
                Effect::Emit(Event::MerchantReinstated { merchant_id }),
            ),
    {
        self.check_admin(&admin)?;
        let mut merchant = match self.merchants.get(&merchant_id) {
            Some(m) => m.clone(),
            None => {
                return Err(MerchantError::MerchantNotFound);
            },
        };
        merchant.active = true;
        merchant.suspension_reason = None;
        merchant.suspended_at = None;
        self.put(&merchant_id, merchant);
        self.effects.push(Effect::Emit(Event::MerchantReinstated { merchant_id }));
        Ok(())
    }

    /// Registered merchants at positions `offset .. offset + limit` of the registration order.
    pub fn get_all_merchants(&self, offset: u32, limit: u32) -> (r: Vec<Merchant>)
        requires
            self.wf(),
        ensures
            r@ == Seq::new(
                page_len(self.list_view().len() as int, offset as int, limit as int),
                |i: int| self.merchants_view()[self.list_view()[offset + i]@],
            ),
    {
        let mut result: Vec<Merchant> = Vec::new();
        if limit == 0 {
            assert(result@ =~= Seq::new(
                page_len(self.list_view().len() as int, offset as int, limit as int),
                |i: int| self.merchants_view()[self.list_view()[offset + i]@],
            ));
            return result;
        }
        let total = self.merchant_list.len();
        let start: usize = if (offset as usize) < total { offset as usize } else { total };
        let end: usize = if (limit as usize) < total - start { start + limit as usize } else { total };
        let mut i: usize = start;
        while i < end
            invariant
                self.wf(),
                total == self.list_view().len(),
                start <= i <= end <= total,
                start == offset || (start == total && offset >= total),
                end - start == page_len(total as int, offset as int, limit as int),
                result@.len() == i - start,
                forall|k: int|
                    0 <= k < result@.len() ==> result@[k] == self.merchants_view()[self.list_view()[offset
                        + k]@],
            decreases end - i,
        {
            let id = &self.merchant_list[i];
            assert(self.merchants@.contains_key(self.merchant_list@[i as int]@));
            let m = self.merchants.get(id).unwrap();
            result.push(m.clone());
            i = i + 1;
        }
        assert(result@ =~= Seq::new(
            page_len(self.list_view().len() as int, offset as int, limit as int),
            |i: int| self.merchants_view()[self.list_view()[offset + i]@],
        ));
        result
    }

    /// Every registered merchant whose tier is above unverified, in registration order.
    pub fn get_verified_merchants(&self) -> (r: Vec<Merchant>)
        requires
            self.wf(),
        ensures
            r@ == self.list_view().map_values(|a: String| self.merchants_view()[a@]).filter(
                |m: Merchant| m.kyc_tier != KycTier::Unverified,
            ),
    {
        let mut result: Vec<Merchant> = Vec::new();
        let mut i: usize = 0;
        let ghost all = self.list_view().map_values(|a: String| self.merchants_view()[a@]);
        while i < self.merchant_list.len()
            invariant
                self.wf(),
                i <= self.merchant_list.len(),
                all == self.list_view().map_values(|a: String| self.merchants_view()[a@]),
                result@ == all.take(i as int).filter(|m: Merchant| m.kyc_tier != KycTier::Unverified),
            decreases self.merchant_list.len() - i,
        {
            proof {
                assert(all.take(i as int + 1).drop_last() =~= all.take(i as int));
                reveal_with_fuel(Seq::<_>::filter, 1);
            }
            let id = &self.merchant_list[i];
            assert(self.merchants@.contains_key(self.merchant_list@[i as int]@));
            let m = self.merchants.get(id).unwrap();
            if m.kyc_tier != KycTier::Unverified {
                result.push(m.clone());
            }
            i = i + 1;
        }
        assert(all.take(self.merchant_list.len() as int) =~= all);
        result
    }

    /// The platform fee and the net amount for `amount` under the merchant's fee settings.
    pub fn calculate_fee(&self, merchant_id: &Address, amount: i128) -> (r: Result<
        (i128, i128),
        MerchantError,
    >)
        requires
            self.wf(),
            self.merchants_view().contains_key(merchant_id@) ==> match self.merchants_view()[merchant_id@].fee_config {
                Some(c) => i128::MIN <= amount * c.platform_fee_bps <= i128::MAX,
                None => true,
            },
        ensures
            !self.merchants_view().contains_key(merchant_id@) ==> r == Err::<(i128, i128), MerchantError>(
                MerchantError::MerchantNotFound,
            ),
            self.merchants_view().contains_key(merchant_id@) ==> r == Ok::<(i128, i128), MerchantError>(
                spec_fee(self.merchants_view()[merchant_id@].fee_config, amount),
            ),
    {
        let merchant = match self.merchants.get(merchant_id) {
            Some(m) => m,
            None => {
                return Err(MerchantError::MerchantNotFound);
            },
        };
        match &merchant.fee_config {
            Some(config) => {
                if config.platform_fee_bps == 0 && config.fixed_fee == 0 {
                    return Ok((0, amount));
                }
                let bps = config.platform_fee_bps as i128;
                let percentage_fee = div_trunc(amount * bps, 10_000);
                let total_fee = sat_add(percentage_fee, config.fixed_fee);
                if total_fee >= amount {
                    return Ok((amount, 0));
                }
                let net_amount = crate::util::sat_sub(amount, total_fee);
                Ok((total_fee, net_amount))
            },
            None => Ok((0, amount)),
        }
    }

    /// Where a merchant's fees go: its own fee recipient, else the administrator.
    pub fn get_fee_recipient(&self, merchant_id: &Address) -> (r: Result<Address, MerchantError>)
        requires
            self.wf(),
        ensures
            !self.merchants_view().contains_key(merchant_id@) ==> r == Err::<Address, MerchantError>(
                MerchantError::MerchantNotFound,
            ),
            self.merchants_view().contains_key(merchant_id@) ==> match self.merchants_view()[merchant_id@].fee_config {
                Some(FeeConfig { fee_recipient: Some(rcpt), .. }) => r == Ok::<Address, MerchantError>(rcpt),
                _ => match self.admin_view() {
                    Some(a) => r == Ok::<Address, MerchantError>(a),
                    None => r == Err::<Address, MerchantError>(MerchantError::Unauthorized),
                },
            },
    {
        let merchant = match self.merchants.get(merchant_id) {
            Some(m) => m,
            None => {
                return Err(MerchantError::MerchantNotFound);
            },
        };
        if let Some(config) = &merchant.fee_config {
            if let Some(recipient) = &config.fee_recipient {
                return Ok(recipient.clone());
            }
        }
        match &self.admin {
            Some(a) => Ok(a.clone()),
            None => Err(MerchantError::Unauthorized),
        }
    }

    /// Hands the accumulated effects to the host, leaving none.
    pub fn take_effects(&mut self) -> (r: Vec<Effect>)
        ensures
            r@ == old(self).effects_view(),
            final(self).effects_view() == Seq::<Effect>::empty(),
            old(self).wf() ==> final(self).wf(),
            final(self).merchants_view() == old(self).merchants_view(),
            final(self).admin_view() == old(self).admin_view(),
            final(self).list_view() == old(self).list_view(),
            final(self).refund_manager_view() == old(self).refund_manager_view(),
    {
        let mut out: Vec<Effect> = Vec::new();
        std::mem::swap(&mut out, &mut self.effects);
        out
    }
}

/// How many entries a page at `offset` of at most `limit` entries holds, out of `total`.
pub open spec fn page_len(total: int, offset: int, limit: int) -> nat {
    if offset >= total {
        0
    } else if limit > total - offset {
        (total - offset) as nat
    } else {
        limit as nat
    }
}

/// Whether `e` asks contract `rm` to give `account` the merchant role on behalf of `admin`.
pub open spec fn is_merchant_grant(e: Effect, rm: Address, admin: Address, account: Address) -> bool {
    e matches Effect::GrantRole { contract, admin: a, role, account: acc } && contract == rm && a == admin
        && role@ == spec_role_merchant() && acc == account
}

} // verus!
