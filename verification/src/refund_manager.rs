use vstd::prelude::*;

use crate::access_control::{
    lemma_without_membership, list_without, role_admin, role_oracle, role_settlement_operator,
    seq_has, seq_without, spec_role_admin, spec_role_oracle, spec_role_settlement_operator,
    AccessControl,
};
use crate::effects::{make_transfer, transfer_effect, Effect, Event, TransferMode};
use crate::ledger::{lemma_sum_eq, lemma_sum_le, lemma_sum_prefix, lemma_sum_push, lemma_sum_without, nonneg_on, sum_over};
use crate::merchant_registry::{KycTier, Merchant};
use crate::payment_processor::list_or_empty;
use crate::table::Table;
use crate::types::{
    spec_zero_address, zero_contract_address, Dispute, DisputeOperatorNote, DisputeStatus, Error,
    PaymentCharge, PaymentStatus, Refund, RefundStatus, Subscription, SubscriptionPlan, VoteChoice,
    VoteTally, REFUND_FEE_BPS, REFUND_FEE_BPS_BASIC, REFUND_FEE_BPS_BUSINESS, REFUND_FEE_BPS_FULL,
};
use crate::util::{format_id, lemma_format_id_unique_and_readable, spec_format_id};
use crate::{Address, Symbol};

verus! {

/// The prefix of refund identifiers.
pub open spec fn refund_prefix() -> Seq<char> {
    "refund_"@
}

/// The prefix of dispute identifiers.
pub open spec fn dispute_prefix() -> Seq<char> {
    "dispute_"@
}

/// What the refund stored under `id` counts toward its payment's refunded total: its amount,
/// unless it was rejected (or is missing).
pub open spec fn refund_contrib(refunds: Map<Seq<char>, Refund>, id: Seq<char>) -> int {
    if refunds.contains_key(id) && refunds[id].status != RefundStatus::Rejected {
        refunds[id].amount as int
    } else {
        0
    }
}

/// What the dispute stored under `id` counts toward its payment's disputed total: its amount,
/// unless it was rejected (or is missing).
pub open spec fn dispute_contrib(disputes: Map<Seq<char>, Dispute>, id: Seq<char>) -> int {
    if disputes.contains_key(id) && disputes[id].status != DisputeStatus::Rejected {
        disputes[id].amount as int
    } else {
        0
    }
}

/// The refund contributions of a store of refunds, as a function of the id.
pub open spec fn refund_term(refunds: Map<Seq<char>, Refund>) -> spec_fn(Seq<char>) -> int {
    |id: Seq<char>| refund_contrib(refunds, id)
}

/// The dispute contributions of a store of disputes, as a function of the id.
pub open spec fn dispute_term(disputes: Map<Seq<char>, Dispute>) -> spec_fn(Seq<char>) -> int {
    |id: Seq<char>| dispute_contrib(disputes, id)
}

/// The refunded total of a list of refund ids.
pub open spec fn refund_sum(refunds: Map<Seq<char>, Refund>, ids: Seq<String>) -> int {
    sum_over(ids, refund_term(refunds))
}

/// The disputed total of a list of dispute ids.
pub open spec fn dispute_sum(disputes: Map<Seq<char>, Dispute>, ids: Seq<String>) -> int {
    sum_over(ids, dispute_term(disputes))
}

/// The effects of paying out a refund of `amount` from `from` to `to` in `token`: the amount
/// less the fee to `to` (in `first_mode`), the fee to the administrator when there is one and
/// the fee is positive, then `completed`.
pub open spec fn payout_effects(
    token: Address,
    from: Address,
    to: Address,
    amount: i128,
    fee: int,
    admin: Option<Address>,
    first_mode: TransferMode,
    completed: Effect,
) -> Seq<Effect> {
    let net = transfer_effect(token, from, to, (amount - fee) as i128, first_mode);
    if fee > 0 && admin is Some {
        seq![net, transfer_effect(token, from, admin->Some_0, fee as i128, TransferMode::BestEffort), completed]
    } else {
        seq![net, completed]
    }
}

/// How many effects follow the amount transfer of a payout.
pub open spec fn payout_tail(fee: int, admin: Option<Address>) -> u32 {
    if fee > 0 && admin is Some {
        2
    } else {
        1
    }
}

/// The fee, in basis points, kept from a refund: by the merchant's tier when a registry is
/// configured and answered, one percent otherwise.
pub open spec fn refund_fee_bps(registry_set: bool, merchant: Option<Merchant>) -> i128 {
    if registry_set {
        match merchant {
            Some(m) => match m.kyc_tier {
                KycTier::Business => REFUND_FEE_BPS_BUSINESS,
                KycTier::Full => REFUND_FEE_BPS_FULL,
                KycTier::Basic => REFUND_FEE_BPS_BASIC,
                KycTier::Unverified => REFUND_FEE_BPS,
            },
            None => REFUND_FEE_BPS,
        }
    } else {
        REFUND_FEE_BPS
    }
}

/// The fee kept from a refund of `amount` at `bps` basis points (rounded toward zero).
pub open spec fn refund_fee(amount: i128, bps: i128) -> int {
    (amount * bps) / 10_000
}

/// The refund manager: refunds of confirmed payments, disputes with their arbitration, and
/// subscriptions.
pub struct RefundManager {
    /// This contract's own address.
    pub contract_address: Address,
    pub access: AccessControl,
    /// The token refunds are paid in.
    pub usdc_token: Option<Address>,
    /// The merchant registry consulted for refund fee tiers, if any.
    pub merchant_registry: Option<Address>,
    pub payments: Table<PaymentCharge>,
    pub refunds: Table<Refund>,
    /// Each payment's refund ids, in creation order.
    pub payment_refunds: Table<Vec<String>>,
    pub refund_counter: u64,
    pub disputes: Table<Dispute>,
    /// Each payment's dispute ids, in creation order.
    pub payment_disputes: Table<Vec<String>>,
    pub dispute_counter: u64,
    pub operator_notes: Table<DisputeOperatorNote>,
    /// Locked arbitration stakes, by dispute and then arbitrator.
    pub stakes: Table<Table<i128>>,
    /// Arbitration votes, by dispute and then arbitrator.
    pub votes: Table<Table<VoteChoice>>,
    pub tallies: Table<VoteTally>,
    pub plans: Table<SubscriptionPlan>,
    pub subscriptions: Table<Subscription>,
    /// Each payer's subscription ids, in creation order.
    pub payer_subscriptions: Table<Vec<String>>,
    pub subscription_counter: u64,
    /// Effects of the calls so far, for the host to carry out in order.
    pub effects: Vec<Effect>,
}

impl RefundManager {
    /// The refunded total of a payment: the amounts of its refunds that were not rejected.
    pub open spec fn refund_total(&self, payment_id: Seq<char>) -> int {
        refund_sum(self.refunds@, list_or_empty(self.payment_refunds@, payment_id))
    }

    /// The disputed total of a payment: the amounts of its disputes that were not rejected.
    pub open spec fn dispute_total(&self, payment_id: Seq<char>) -> int {
        dispute_sum(self.disputes@, list_or_empty(self.payment_disputes@, payment_id))
    }

    /// Every store is internally consistent.
    pub open spec fn tables_wf(&self) -> bool {
        &&& self.access.wf()
        &&& self.payments.wf()
        &&& self.refunds.wf()
        &&& self.payment_refunds.wf()
        &&& self.disputes.wf()
        &&& self.payment_disputes.wf()
        &&& self.operator_notes.wf()
        &&& self.stakes.wf()
        &&& forall|d: Seq<char>| #[trigger] self.stakes@.contains_key(d) ==> self.stakes@[d].wf()
        &&& self.votes.wf()
        &&& forall|d: Seq<char>| #[trigger] self.votes@.contains_key(d) ==> self.votes@[d].wf()
        &&& self.tallies.wf()
        &&& self.plans.wf()
        &&& self.subscriptions.wf()
        &&& self.payer_subscriptions.wf()
    }

    /// Refund records: positive amounts, identifiers issued by the counter, and per-payment
    /// lists that name only refunds of that payment.
    pub open spec fn refunds_consistent(&self) -> bool {
        &&& forall|k: Seq<char>| #[trigger] self.refunds@.contains_key(k) ==> self.refunds@[k].amount > 0
            && self.payments@.contains_key(self.refunds@[k].payment_id@)
            && exists|n: nat| 1 <= n <= self.refund_counter && k == #[trigger] spec_format_id(refund_prefix(), n)
        &&& forall|p: Seq<char>| #[trigger] self.payment_refunds@.contains_key(p) ==> self.payments@.contains_key(p)
        &&& forall|p: Seq<char>, i: int|
            #![trigger self.payment_refunds@[p]@[i]]
            self.payment_refunds@.contains_key(p) && 0 <= i < self.payment_refunds@[p]@.len()
                ==> self.refunds@.contains_key(self.payment_refunds@[p]@[i]@)
                && self.refunds@[self.payment_refunds@[p]@[i]@].payment_id@ == p
    }

    /// Dispute records: positive amounts, identifiers issued by the counter, and per-payment
    /// lists that name only disputes of that payment.
    pub open spec fn disputes_consistent(&self) -> bool {
        &&& forall|k: Seq<char>| #[trigger] self.disputes@.contains_key(k) ==> self.disputes@[k].amount > 0
            && self.payments@.contains_key(self.disputes@[k].payment_id@)
            && exists|n: nat| 1 <= n <= self.dispute_counter && k == #[trigger] spec_format_id(dispute_prefix(), n)
        &&& forall|p: Seq<char>| #[trigger] self.payment_disputes@.contains_key(p) ==> self.payments@.contains_key(p)
        &&& forall|p: Seq<char>, i: int|
            #![trigger self.payment_disputes@[p]@[i]]
            self.payment_disputes@.contains_key(p) && 0 <= i < self.payment_disputes@[p]@.len()
                ==> self.disputes@.contains_key(self.payment_disputes@[p]@[i]@)
                && self.disputes@[self.payment_disputes@[p]@[i]@].payment_id@ == p
    }

    /// No payment is refunded, or disputed, beyond its amount.
    pub open spec fn within_limits(&self) -> bool {
        forall|p: Seq<char>| #[trigger] self.payments@.contains_key(p) ==> {
            &&& (self.refund_total(p) == 0 || self.refund_total(p) <= self.payments@[p].amount)
            &&& (self.dispute_total(p) == 0 || self.dispute_total(p) <= self.payments@[p].amount)
        }
    }

    /// Arbitration records: every locked stake is positive and every tally is non-negative.
    pub open spec fn arbitration_ok(&self) -> bool {
        &&& forall|d: Seq<char>, a: Seq<char>|
            #![trigger self.stakes@[d]@[a]]
            self.stakes@.contains_key(d) && self.stakes@[d]@.contains_key(a) ==> self.stakes@[d]@[a] > 0
        &&& forall|d: Seq<char>| #[trigger] self.tallies@.contains_key(d) ==> self.tallies@[d].favour_weight >= 0
            && self.tallies@[d].against_weight >= 0
    }

    /// The invariant every call keeps.
    pub open spec fn wf(&self) -> bool {
        &&& self.tables_wf()
        &&& self.refunds_consistent()
        &&& self.disputes_consistent()
        &&& self.within_limits()
        &&& self.arbitration_ok()
    }

    /// Whether `account` holds `role` here.
    pub open spec fn spec_has_role(&self, role: Seq<char>, account: Seq<char>) -> bool {
        self.access.spec_has_role(role, account)
    }

    /// Whether `account` may act as an operator (settlement operator or oracle).
    pub open spec fn is_operator(&self, account: Seq<char>) -> bool {
        self.spec_has_role(spec_role_settlement_operator(), account) || self.spec_has_role(spec_role_oracle(), account)
    }

    /// A refund manager with empty storage, not yet initialized.
    pub fn new(contract_address: Address) -> (r: Self)
        ensures
            r.wf(),
            r.contract_address == contract_address,
            r.access.admin_view() is None,
            r.usdc_token is None,
            r.merchant_registry is None,
            r.payments@ == Map::<Seq<char>, PaymentCharge>::empty(),
            r.refunds@ == Map::<Seq<char>, Refund>::empty(),
            r.disputes@ == Map::<Seq<char>, Dispute>::empty(),
            r.refund_counter == 0,
            r.dispute_counter == 0,
            r.subscription_counter == 0,
            r.effects@ == Seq::<Effect>::empty(),
            r.access.members_view() == Map::<Seq<char>, Seq<String>>::empty(),
            r.payment_refunds@ == Map::<Seq<char>, Vec<String>>::empty(),
            r.payment_disputes@ == Map::<Seq<char>, Vec<String>>::empty(),
            r.operator_notes@ == Map::<Seq<char>, DisputeOperatorNote>::empty(),
            r.stakes@ == Map::<Seq<char>, Table<i128>>::empty(),
            r.votes@ == Map::<Seq<char>, Table<VoteChoice>>::empty(),
            r.tallies@ == Map::<Seq<char>, VoteTally>::empty(),
            r.plans@ == Map::<Seq<char>, SubscriptionPlan>::empty(),
            r.subscriptions@ == Map::<Seq<char>, Subscription>::empty(),
            r.payer_subscriptions@ == Map::<Seq<char>, Vec<String>>::empty(),
    {
        RefundManager {
            contract_address,
            access: AccessControl::new(),
            usdc_token: None,
            merchant_registry: None,
            payments: Table::new(),
            refunds: Table::new(),
            payment_refunds: Table::new(),
            refund_counter: 0,
            disputes: Table::new(),
            payment_disputes: Table::new(),
            dispute_counter: 0,
            operator_notes: Table::new(),
            stakes: Table::new(),
            votes: Table::new(),
            tallies: Table::new(),
            plans: Table::new(),
            subscriptions: Table::new(),
            payer_subscriptions: Table::new(),
            subscription_counter: 0,
            effects: Vec::new(),
        }
    }

    /// Storage layout version.
    pub fn version() -> (r: u32)
        ensures
            r == 1,
    {
        1
    }

    /// Sets the administrator and the refund token. Both must be set, differ, and not be the
    /// all-zero contract address.
    pub fn initialize_refund_manager(&mut self, admin: Address, usdc_token_address: Address) -> (r: Result<(), Error>)
        requires
            old(self).wf(),
        ensures
            final(self).wf(),
            (admin@ == usdc_token_address@ || admin@ == spec_zero_address() || usdc_token_address@ == spec_zero_address())
                ==> r == Err::<(), Error>(Error::InvalidAddress) && *final(self) == *old(self),
            !(admin@ == usdc_token_address@ || admin@ == spec_zero_address() || usdc_token_address@ == spec_zero_address())
                ==> {
                &&& r is Ok
                &&& final(self).access.admin_view() == Some(admin@)
                &&& final(self).access.admin_address() == Some(admin)
                &&& final(self).spec_has_role(spec_role_admin(), admin@)
                &&& final(self).usdc_token == Some(usdc_token_address)
                &&& *final(self) == (RefundManager { access: final(self).access, usdc_token: final(self).usdc_token, ..*old(self) })
            },
    {
        if admin == usdc_token_address {
            return Err(Error::InvalidAddress);
        }
        let zero = zero_contract_address();
        if admin == zero || usdc_token_address == zero {
            return Err(Error::InvalidAddress);
        }
        self.access.initialize(admin);
        self.usdc_token = Some(usdc_token_address);
        Ok(())
    }

    /// The administrator `admin` gives `role` to `account`.
    pub fn grant_role(&mut self, admin: &Address, role: String, account: Address) -> (r: Result<(), Error>)
        requires
            old(self).wf(),
        ensures
            final(self).wf(),
            !old(self).spec_has_role(spec_role_admin(), admin@) ==> r == Err::<(), Error>(Error::AccessControlError)
                && *final(self) == *old(self),
            old(self).spec_has_role(spec_role_admin(), admin@) ==> r is Ok && final(self).spec_has_role(role@, account@)
                && (forall|r2: Seq<char>, a2: Seq<char>|
                (r2 != role@ || a2 != account@) ==> final(self).spec_has_role(r2, a2) == old(self).spec_has_role(r2, a2))
                && final(self).access.admin_view() == old(self).access.admin_view()
                && final(self).access.admin_address() == old(self).access.admin_address()
                && *final(self) == (RefundManager { access: final(self).access, ..*old(self) }),
    {
        match self.access.grant_role(admin, role, account) {
            Ok(()) => Ok(()),
            Err(_) => Err(Error::AccessControlError),
        }
    }

    /// The administrator `admin` takes `role` away from `account`.
    pub fn revoke_role(&mut self, admin: &Address, role: &String, account: &Address) -> (r: Result<(), Error>)
        requires
            old(self).wf(),
        ensures
            final(self).wf(),
            !old(self).spec_has_role(spec_role_admin(), admin@) ==> r == Err::<(), Error>(Error::AccessControlError)
                && *final(self) == *old(self),
            old(self).spec_has_role(spec_role_admin(), admin@) ==> r is Ok && !final(self).spec_has_role(role@, account@)
                && final(self).access.spec_members(role@) == seq_without(old(self).access.spec_members(role@), account@)
                && (forall|r2: Seq<char>, a2: Seq<char>|
                (r2 != role@ || a2 != account@) ==> final(self).spec_has_role(r2, a2) == old(self).spec_has_role(r2, a2))
                && final(self).access.admin_address() == old(self).access.admin_address()
                && *final(self) == (RefundManager { access: final(self).access, ..*old(self) }),
    {
        match self.access.revoke_role(admin, role, account) {
            Ok(()) => Ok(()),
            Err(_) => Err(Error::AccessControlError),
        }
    }

    /// Whether `account` holds `role`.
    pub fn has_role(&self, role: &String, account: &Address) -> (r: bool)
        requires
            self.wf(),
        ensures
            r == self.spec_has_role(role@, account@),
    {
        self.access.has_role(role, account)
    }

    /// `account` gives up `role`.
    pub fn renounce_role(&mut self, account: &Address, role: &String) -> (r: Result<(), Error>)
        requires
            old(self).wf(),
        ensures
            final(self).wf(),
            !old(self).spec_has_role(role@, account@) ==> r == Err::<(), Error>(Error::AccessControlError)
                && *final(self) == *old(self),
            old(self).spec_has_role(role@, account@) ==> r is Ok && !final(self).spec_has_role(role@, account@)
                && (forall|r2: Seq<char>, a2: Seq<char>|
                (r2 != role@ || a2 != account@) ==> final(self).spec_has_role(r2, a2) == old(self).spec_has_role(r2, a2))
                && final(self).access.admin_address() == old(self).access.admin_address()
                && *final(self) == (RefundManager { access: final(self).access, ..*old(self) }),
    {
        match self.access.renounce_role(account, role) {
            Ok(()) => Ok(()),
            Err(_) => Err(Error::AccessControlError),
        }
    }

    /// The administrator `current_admin` hands the administrator role over to `new_admin`.
    pub fn transfer_admin(&mut self, current_admin: &Address, new_admin: Address) -> (r: Result<(), Error>)
        requires
            old(self).wf(),
        ensures
            final(self).wf(),
            !old(self).spec_has_role(spec_role_admin(), current_admin@) ==> r == Err::<(), Error>(
                Error::AccessControlError,
            ) && *final(self) == *old(self),
            old(self).spec_has_role(spec_role_admin(), current_admin@) ==> r is Ok
                && final(self).access.admin_view() == Some(new_admin@)
                && final(self).access.admin_address() == Some(new_admin)
                && final(self).spec_has_role(spec_role_admin(), new_admin@)
                && (current_admin@ != new_admin@ ==> !final(self).spec_has_role(spec_role_admin(), current_admin@))
                && (forall|r2: Seq<char>, a2: Seq<char>|
                r2 != spec_role_admin() ==> final(self).spec_has_role(r2, a2) == old(self).spec_has_role(r2, a2))
                && *final(self) == (RefundManager { access: final(self).access, ..*old(self) }),
    {
        match self.access.transfer_admin(current_admin, new_admin) {
            Ok(()) => Ok(()),
            Err(_) => Err(Error::AccessControlError),
        }
    }

    /// The administrator, if any.
    pub fn get_admin(&self) -> (r: Option<Address>)
        ensures
            r == self.access.admin_address(),
            match r {
                Some(a) => self.access.admin_view() == Some(a@),
                None => self.access.admin_view() is None,
            },
    {
        self.access.get_admin()
    }

    /// The holders of `role`, in the order they were granted it.
    pub fn get_role_members(&self, role: &String) -> (r: Vec<Address>)
        requires
            self.wf(),
        ensures
            r@ == self.access.spec_members(role@),
    {
        self.access.get_role_members(role)
    }

    /// Hands the accumulated effects to the host, leaving none.
    pub fn take_effects(&mut self) -> (r: Vec<Effect>)
        ensures
            r@ == old(self).effects@,
            final(self).effects@ == Seq::<Effect>::empty(),
            *final(self) == (RefundManager { effects: final(self).effects, ..*old(self) }),
    {
        let mut out: Vec<Effect> = Vec::new();
        std::mem::swap(&mut out, &mut self.effects);
        out
    }

    /// Records a payment so that refunds of it can be checked against its amount. A payment
    /// already recorded is left as it is.
    pub fn register_payment(&mut self, payment_id: String, merchant_id: Address, amount: i128, currency: Symbol, now: u64)
        requires
            old(self).wf(),
        ensures
            final(self).wf(),
            old(self).payments@.contains_key(payment_id@) ==> *final(self) == *old(self),
            !old(self).payments@.contains_key(payment_id@) ==> {
                &&& final(self).payments@ == old(self).payments@.insert(
                    payment_id@,
                    PaymentCharge {
                        payment_id,
                        merchant_id,
                        amount,
                        currency,
                        deposit_address: old(self).contract_address,
                        status: PaymentStatus::Confirmed,
                        payer_address: None,
                        transaction_hash: None,
                        created_at: now,
                        confirmed_at: None,
                        expires_at: 0,
                        amount_received: None,
                        memo: None,
                        memo_type: None,
                        token_address: None,
                        metadata_hash: None,
                    },
                )
                &&& *final(self) == (RefundManager { payments: final(self).payments, ..*old(self) })
            },
    {
        if self.payments.contains(&payment_id) {
            return;
        }
        let payment = PaymentCharge {
            payment_id: payment_id.clone(),
            merchant_id,
            amount,
            currency,
            deposit_address: self.contract_address.clone(),
            status: PaymentStatus::Confirmed,
            payer_address: None,
            transaction_hash: None,
            created_at: now,
            confirmed_at: None,
            expires_at: 0,
            amount_received: None,
            memo: None,
            memo_type: None,
            token_address: None,
            metadata_hash: None,
        };
        let ghost old_self = *self;
        self.payments.set(payment_id, payment);
        proof {
            assert forall|p: Seq<char>| #[trigger] self.payments@.contains_key(p) implies {
                &&& (self.refund_total(p) == 0 || self.refund_total(p) <= self.payments@[p].amount)
                &&& (self.dispute_total(p) == 0 || self.dispute_total(p) <= self.payments@[p].amount)
            } by {
                if p == payment_id@ {
                    assert(!old_self.payment_refunds@.contains_key(p));
                    assert(!old_self.payment_disputes@.contains_key(p));
                    assert(list_or_empty(self.payment_refunds@, p) =~= Seq::<String>::empty());
                    assert(list_or_empty(self.payment_disputes@, p) =~= Seq::<String>::empty());
                } else {
                    assert(old_self.payments@.contains_key(p));
                }
            }
        }
    }
}

/// The refund terms of a consistent store are never negative.
pub proof fn lemma_refund_terms_nonneg(refunds: Map<Seq<char>, Refund>, ids: Seq<String>)
    requires
        forall|k: Seq<char>| #[trigger] refunds.contains_key(k) ==> refunds[k].amount > 0,
    ensures
        nonneg_on(ids, refund_term(refunds)),
{
    assert forall|j: int| 0 <= j < ids.len() implies refund_term(refunds)((#[trigger] ids[j])@) >= 0 by {
        if refunds.contains_key(ids[j]@) {
            assert(refunds[ids[j]@].amount > 0);
        }
    }
}

/// Refunded totals compare as the refunds' contributions do.
pub proof fn lemma_refund_sum_le(m1: Map<Seq<char>, Refund>, m2: Map<Seq<char>, Refund>, ids: Seq<String>)
    requires
        forall|j: int| 0 <= j < ids.len() ==> refund_contrib(m1, (#[trigger] ids[j])@) <= refund_contrib(m2, ids[j]@),
    ensures
        refund_sum(m1, ids) <= refund_sum(m2, ids),
{
    assert forall|j: int| 0 <= j < ids.len() implies refund_term(m1)((#[trigger] ids[j])@) <= refund_term(m2)(ids[j]@) by {
        assert(refund_contrib(m1, ids[j]@) <= refund_contrib(m2, ids[j]@));
    }
    lemma_sum_le(ids, refund_term(m1), refund_term(m2));
}

impl RefundManager {
    /// Why a refund of `amount` for `payment_id` is refused, if it is: the amount must be
    /// positive, the payment known and confirmed, and the refunded total may not pass its amount.
    pub open spec fn refund_error(&self, payment_id: Seq<char>, amount: i128) -> Option<Error> {
        if amount <= 0 {
            Some(Error::InvalidAmount)
        } else if !self.payments@.contains_key(payment_id) {
            Some(Error::PaymentNotFound)
        } else if self.payments@[payment_id].status != PaymentStatus::Confirmed {
            Some(Error::PaymentAlreadyProcessed)
        } else if self.refund_total(payment_id) + amount > self.payments@[payment_id].amount {
            Some(Error::RefundExceedsPayment)
        } else {
            None
        }
    }

    /// Whether a refund request stays within machine limits: the refunded total plus the
    /// request fits in an `i128`, and the refund counter can advance.
    pub open spec fn refund_fits(&self, payment_id: Seq<char>, amount: i128) -> bool {
        &&& (amount > 0 && self.payments@.contains_key(payment_id) && self.payments@[payment_id].status
            == PaymentStatus::Confirmed ==> self.refund_total(payment_id) + amount <= i128::MAX)
        &&& (self.refund_error(payment_id, amount) is None ==> self.refund_counter < u64::MAX)
    }

    /// `new` is `self` with the pending refund `id` of `amount` added to `payment_id`'s refunds
    /// and announced; nothing else changes.
    pub open spec fn refund_added(
        &self,
        new: &Self,
        id: String,
        payment_id: String,
        amount: i128,
        reason: String,
        requester: Address,
        now: u64,
    ) -> bool {
        let p = payment_id@;
        &&& id@ == spec_format_id(refund_prefix(), (self.refund_counter + 1) as nat)
        &&& new.refund_counter == self.refund_counter + 1
        &&& new.refunds@ == self.refunds@.insert(
            id@,
            Refund {
                refund_id: id,
                payment_id,
                amount,
                reason,
                status: RefundStatus::Pending,
                requester,
                created_at: now,
                processed_at: None,
            },
        )
        &&& new.payment_refunds@.dom() == self.payment_refunds@.dom().insert(p)
        &&& new.payment_refunds@[p]@ == list_or_empty(self.payment_refunds@, p).push(id)
        &&& forall|k: Seq<char>|
            k != p && #[trigger] self.payment_refunds@.contains_key(k) ==> new.payment_refunds@[k]
                == self.payment_refunds@[k]
        &&& new.effects@ == self.effects@.push(
            Effect::Emit(Event::RefundCreated { payment_id, refund_id: id, amount }),
        )
        &&& *new == (RefundManager {
            refunds: new.refunds,
            payment_refunds: new.payment_refunds,
            refund_counter: new.refund_counter,
            effects: new.effects,
            ..*self
        })
    }

    /// The refunded total of a recorded payment.
    pub(crate) fn refunded_total(&self, payment_id: &String) -> (t: i128)
        requires
            self.wf(),
            self.payments@.contains_key(payment_id@),
        ensures
            t == self.refund_total(payment_id@),
    {
        let ids = match self.payment_refunds.get(payment_id) {
            Some(l) => l,
            None => {
                return 0;
            },
        };
        let ghost m = self.refunds@;
        proof {
            lemma_refund_terms_nonneg(m, ids@);
        }
        let mut total: i128 = 0;
        let mut i: usize = 0;
        while i < ids.len()
            invariant
                self.wf(),
                self.payments@.contains_key(payment_id@),
                m == self.refunds@,
                ids@ == list_or_empty(self.payment_refunds@, payment_id@),
                nonneg_on(ids@, refund_term(m)),
                i <= ids@.len(),
                total == sum_over(ids@.take(i as int), refund_term(m)),
            decreases ids.len() - i,
        {
            proof {
                lemma_sum_prefix(ids@, refund_term(m), i as int + 1);
                assert(ids@.take(i as int + 1).drop_last() =~= ids@.take(i as int));
                assert(ids@.take(i as int + 1).last() == ids@[i as int]);
            }
            match self.refunds.get(&ids[i]) {
                Some(r) => {
                    if r.status != RefundStatus::Rejected {
                        total = total + r.amount;
                    }
                },
                None => {},
            }
            i = i + 1;
        }
        assert(ids@.take(ids@.len() as int) =~= ids@);
        total
    }

    /// Runs the checks of a refund request; nothing is stored.
    pub(crate) fn check_refund_request(&self, payment_id: &String, refund_amount: i128) -> (r: Result<(), Error>)
        requires
            self.wf(),
            self.refund_fits(payment_id@, refund_amount),
        ensures
            match self.refund_error(payment_id@, refund_amount) {
                Some(e) => r == Err::<(), Error>(e),
                None => r is Ok,
            },
    {
        if refund_amount <= 0 {
            return Err(Error::InvalidAmount);
        }
        let payment = match self.payments.get(payment_id) {
            Some(p) => p,
            None => {
                return Err(Error::PaymentNotFound);
            },
        };
        if payment.status != PaymentStatus::Confirmed {
            return Err(Error::PaymentAlreadyProcessed);
        }
        let total_refunded = self.refunded_total(payment_id);
        if total_refunded + refund_amount > payment.amount {
            return Err(Error::RefundExceedsPayment);
        }
        Ok(())
    }

    /// Adds a pending refund after the checks of [`Self::refund_error`].
    pub(crate) fn create_refund_internal(
        &mut self,
        payment_id: String,
        refund_amount: i128,
        reason: String,
        requester: Address,
        now: u64,
    ) -> (r: Result<String, Error>)
        requires
            old(self).wf(),
            old(self).refund_fits(payment_id@, refund_amount),
        ensures
            final(self).wf(),
            match old(self).refund_error(payment_id@, refund_amount) {
                Some(e) => r == Err::<String, Error>(e) && *final(self) == *old(self),
                None => r is Ok && old(self).refund_added(&*final(self), r->Ok_0, payment_id, refund_amount, reason, requester, now),
            },
    {
        self.check_refund_request(&payment_id, refund_amount)?;
        let ghost old_self = *self;
        let counter = self.refund_counter + 1;
        self.refund_counter = counter;
        let refund_id = format_id("refund_", counter);
        proof {
            reveal_strlit("refund_");
            // The new identifier was never issued.
            if old_self.refunds@.contains_key(refund_id@) {
                let n = choose|n: nat| 1 <= n <= old_self.refund_counter && refund_id@ == #[trigger] spec_format_id(refund_prefix(), n);
                lemma_format_id_unique_and_readable(refund_prefix(), n, counter as nat);
            }
        }
        let refund = Refund {
            refund_id: refund_id.clone(),
            payment_id: payment_id.clone(),
            amount: refund_amount,
            reason,
            status: RefundStatus::Pending,
            requester,
            created_at: now,
            processed_at: None,
        };
        self.refunds.set(refund_id.clone(), refund);
        let mut list = match self.payment_refunds.take(&payment_id) {
            Some(l) => l,
            None => Vec::new(),
        };
        list.push(refund_id.clone());
        self.payment_refunds.set(payment_id.clone(), list);
        self.effects.push(
            Effect::Emit(Event::RefundCreated { payment_id: payment_id.clone(), refund_id: refund_id.clone(), amount: refund_amount }),
        );
        proof {
            let p = payment_id@;
            let id = refund_id@;
            let m0 = old_self.refunds@;
            let m1 = self.refunds@;
            assert(self.payment_refunds@.dom() =~= old_self.payment_refunds@.dom().insert(p));
            assert forall|k: Seq<char>| #[trigger] self.refunds@.contains_key(k) implies self.refunds@[k].amount > 0
                && self.payments@.contains_key(self.refunds@[k].payment_id@)
                && exists|n: nat| 1 <= n <= self.refund_counter && k == #[trigger] spec_format_id(refund_prefix(), n) by {
                if k == id {
                    assert(k == spec_format_id(refund_prefix(), counter as nat));
                } else {
                    assert(m0.contains_key(k));
                    let n = choose|n: nat| 1 <= n <= old_self.refund_counter && k == #[trigger] spec_format_id(refund_prefix(), n);
                    assert(k == spec_format_id(refund_prefix(), n));
                }
            }
            assert forall|q: Seq<char>, i: int|
                #![trigger self.payment_refunds@[q]@[i]]
                self.payment_refunds@.contains_key(q) && 0 <= i < self.payment_refunds@[q]@.len()
                    implies self.refunds@.contains_key(self.payment_refunds@[q]@[i]@)
                    && self.refunds@[self.payment_refunds@[q]@[i]@].payment_id@ == q by {
                if q == p {
                    let old_list = list_or_empty(old_self.payment_refunds@, p);
                    if i < old_list.len() {
                        assert(self.payment_refunds@[q]@[i] == old_self.payment_refunds@[q]@[i]);
                        assert(old_self.refunds@.contains_key(old_self.payment_refunds@[q]@[i]@));
                    }
                } else {
                    assert(old_self.payment_refunds@.contains_key(q));
                    assert(old_self.refunds@.contains_key(old_self.payment_refunds@[q]@[i]@));
                }
            }
            assert forall|q: Seq<char>| #[trigger] self.payments@.contains_key(q) implies {
                &&& (self.refund_total(q) == 0 || self.refund_total(q) <= self.payments@[q].amount)
                &&& (self.dispute_total(q) == 0 || self.dispute_total(q) <= self.payments@[q].amount)
            } by {
                let old_list = list_or_empty(old_self.payment_refunds@, q);
                assert forall|j: int| 0 <= j < old_list.len() implies refund_contrib(m0, (#[trigger] old_list[j])@)
                    == refund_contrib(m1, old_list[j]@) by {
                    assert(old_self.payment_refunds@.contains_key(q));
                    assert(old_self.refunds@.contains_key(old_self.payment_refunds@[q]@[j]@));
                }
                lemma_refund_sum_le(m0, m1, old_list);
                lemma_refund_sum_le(m1, m0, old_list);
                assert(dispute_sum(self.disputes@, list_or_empty(self.payment_disputes@, q)) == old_self.dispute_total(q));
                if q == p {
                    assert(list_or_empty(self.payment_refunds@, q) == old_list.push(refund_id));
                    lemma_sum_push(old_list, refund_id, refund_term(m1));
                } else {
                    assert(list_or_empty(self.payment_refunds@, q) == old_list);
                }
            }
        }
        Ok(refund_id)
    }

    /// `requester` asks for a refund of `refund_amount` of a confirmed payment. The refund
    /// starts pending; its id is `refund_` followed by the refund counter.
    pub fn create_refund(
        &mut self,
        payment_id: String,
        refund_amount: i128,
        reason: String,
        requester: Address,
        now: u64,
    ) -> (r: Result<String, Error>)
        requires
            old(self).wf(),
            old(self).refund_fits(payment_id@, refund_amount),
        ensures
            final(self).wf(),
            match old(self).refund_error(payment_id@, refund_amount) {
                Some(e) => r == Err::<String, Error>(e) && *final(self) == *old(self),
                None => r is Ok && old(self).refund_added(&*final(self), r->Ok_0, payment_id, refund_amount, reason, requester, now),
            },
    {
        self.create_refund_internal(payment_id, refund_amount, reason, requester, now)
    }
}

/// The records stored under the ids of a list, in its order (ids with no record are skipped).
pub open spec fn refund_records(refunds: Map<Seq<char>, Refund>, ids: Seq<String>) -> Seq<Refund>
    decreases ids.len(),
{
    if ids.len() == 0 {
        Seq::empty()
    } else {
        let init = refund_records(refunds, ids.drop_last());
        if refunds.contains_key(ids.last()@) {
            init.push(refunds[ids.last()@])
        } else {
            init
        }
    }
}

/// The fee rate of a refund, given the merchant registry's answer for the payment's merchant.
pub fn fee_bps_for(registry_set: bool, merchant: &Option<Merchant>) -> (r: i128)
    ensures
        r == refund_fee_bps(registry_set, *merchant),
        REFUND_FEE_BPS_BUSINESS <= r <= REFUND_FEE_BPS,
{
    if registry_set {
        match merchant {
            Some(m) => match m.kyc_tier {
                KycTier::Business => REFUND_FEE_BPS_BUSINESS,
                KycTier::Full => REFUND_FEE_BPS_FULL,
                KycTier::Basic => REFUND_FEE_BPS_BASIC,
                KycTier::Unverified => REFUND_FEE_BPS,
            },
            None => REFUND_FEE_BPS,
        }
    } else {
        REFUND_FEE_BPS
    }
}

impl RefundManager {
    /// Why processing the refund `refund_id` is refused, if it is.
    pub open spec fn process_error(&self, refund_id: Seq<char>) -> Option<Error> {
        if !self.refunds@.contains_key(refund_id) {
            Some(Error::RefundNotFound)
        } else if self.refunds@[refund_id].status != RefundStatus::Pending {
            Some(Error::RefundAlreadyProcessed)
        } else if self.usdc_token is None {
            Some(Error::Unauthorized)
        } else if !self.payments@.contains_key(self.refunds@[refund_id].payment_id@) {
            Some(Error::PaymentNotFound)
        } else {
            None
        }
    }

    /// Whether the fee of processing `refund_id` can be computed without overflow.
    pub open spec fn fee_fits(&self, refund_id: Seq<char>, merchant: Option<Merchant>) -> bool {
        self.process_error(refund_id) is None ==> self.refunds@[refund_id].amount * refund_fee_bps(
            self.merchant_registry is Some,
            merchant,
        ) <= i128::MAX
    }

    /// `new` is `self` with the refund `refund_id` completed at `now` and paid out (the amount
    /// less the fee to the requester, the fee to the administrator), announced as completed.
    pub open spec fn refund_processed(&self, new: &Self, refund_id: String, now: u64, merchant: Option<Merchant>) -> bool {
        let rf = self.refunds@[refund_id@];
        let fee = refund_fee(rf.amount, refund_fee_bps(self.merchant_registry is Some, merchant));
        let admin = self.access.admin_address();
        &&& new.refunds@ == self.refunds@.insert(
            refund_id@,
            Refund { status: RefundStatus::Completed, processed_at: Some(now), ..rf },
        )
        &&& new.effects@ == self.effects@ + payout_effects(
            self.usdc_token->Some_0,
            self.contract_address,
            rf.requester,
            rf.amount,
            fee,
            admin,
            TransferMode::SkipOnFailure(payout_tail(fee, admin)),
            Effect::Emit(Event::RefundCompleted { payment_id: rf.payment_id, refund_id, amount: rf.amount }),
        )
        &&& *new == (RefundManager { refunds: new.refunds, effects: new.effects, ..*self })
    }

    /// Replacing a refund record by one of the same payment and amount that counts no more
    /// toward its payment keeps the invariant.
    proof fn lemma_refund_replaced(&self, new: &Self, k: Seq<char>, v: Refund)
        requires
            self.wf(),
            self.refunds@.contains_key(k),
            new.refunds.wf(),
            new.refunds@ == self.refunds@.insert(k, v),
            v.amount == self.refunds@[k].amount,
            v.payment_id == self.refunds@[k].payment_id,
            refund_contrib(new.refunds@, k) <= refund_contrib(self.refunds@, k),
            *new == (RefundManager { refunds: new.refunds, effects: new.effects, ..*self }),
        ensures
            new.wf(),
            forall|p: Seq<char>| new.refund_total(p) <= self.refund_total(p),
    {
        let m0 = self.refunds@;
        let m1 = new.refunds@;
        assert forall|kk: Seq<char>| #[trigger] new.refunds@.contains_key(kk) implies new.refunds@[kk].amount > 0
            && new.payments@.contains_key(new.refunds@[kk].payment_id@)
            && exists|n: nat| 1 <= n <= new.refund_counter && kk == #[trigger] spec_format_id(refund_prefix(), n) by {
            assert(m0.contains_key(kk));
            let n = choose|n: nat| 1 <= n <= self.refund_counter && kk == #[trigger] spec_format_id(refund_prefix(), n);
            assert(kk == spec_format_id(refund_prefix(), n));
        }
        assert forall|q: Seq<char>, i: int|
            #![trigger new.payment_refunds@[q]@[i]]
            new.payment_refunds@.contains_key(q) && 0 <= i < new.payment_refunds@[q]@.len()
                implies new.refunds@.contains_key(new.payment_refunds@[q]@[i]@)
                && new.refunds@[new.payment_refunds@[q]@[i]@].payment_id@ == q by {
            assert(self.refunds@.contains_key(self.payment_refunds@[q]@[i]@));
        }
        assert forall|p: Seq<char>| new.refund_total(p) <= self.refund_total(p) by {
            let l = list_or_empty(self.payment_refunds@, p);
            lemma_refund_sum_le(m1, m0, l);
        }
        assert forall|q: Seq<char>| #[trigger] new.payments@.contains_key(q) implies {
            &&& (new.refund_total(q) == 0 || new.refund_total(q) <= new.payments@[q].amount)
            &&& (new.dispute_total(q) == 0 || new.dispute_total(q) <= new.payments@[q].amount)
        } by {
            let l = list_or_empty(self.payment_refunds@, q);
            lemma_refund_terms_nonneg(m1, l);
            lemma_sum_prefix(l, refund_term(m1), l.len() as int);
            assert(l.take(l.len() as int) =~= l);
            assert(new.refund_total(q) <= self.refund_total(q));
        }
    }

    /// Completes a pending refund and pays it out, after the checks of [`Self::process_error`].
    /// `merchant` is the registry's answer for the payment's merchant (consulted only when a
    /// registry is configured); it decides the fee rate.
    pub(crate) fn process_refund_internal(&mut self, refund_id: &String, now: u64, merchant: &Option<Merchant>) -> (r: Result<(), Error>)
        requires
            old(self).wf(),
            old(self).fee_fits(refund_id@, *merchant),
        ensures
            final(self).wf(),
            match old(self).process_error(refund_id@) {
                Some(e) => r == Err::<(), Error>(e) && *final(self) == *old(self),
                None => r is Ok && old(self).refund_processed(&*final(self), *refund_id, now, *merchant),
            },
    {
        let refund = match self.refunds.get(refund_id) {
            Some(rf) => rf.clone(),
            None => {
                return Err(Error::RefundNotFound);
            },
        };
        if refund.status != RefundStatus::Pending {
            return Err(Error::RefundAlreadyProcessed);
        }
        let token = match &self.usdc_token {
            Some(t) => t.clone(),
            None => {
                return Err(Error::Unauthorized);
            },
        };
        if !self.payments.contains(&refund.payment_id) {
            return Err(Error::PaymentNotFound);
        }
        let fee_bps = fee_bps_for(self.merchant_registry.is_some(), merchant);
        assert(refund.amount * fee_bps >= 0) by (nonlinear_arith)
            requires
                refund.amount > 0,
                fee_bps > 0,
        ;
        let fee = refund.amount * fee_bps / 10_000;
        let net = refund.amount - fee;
        let ghost old_self = *self;
        let updated = Refund { status: RefundStatus::Completed, processed_at: Some(now), ..refund.clone() };
        self.refunds.set(refund_id.clone(), updated);
        let admin = self.access.get_admin();
        let tail: u32 = if fee > 0 && admin.is_some() {
            2
        } else {
            1
        };
        self.effects.push(
            make_transfer(
                token.clone(),
                self.contract_address.clone(),
                refund.requester.clone(),
                net,
                TransferMode::SkipOnFailure(tail),
            ),
        );
        if fee > 0 {
            match admin {
                Some(a) => {
                    self.effects.push(
                        make_transfer(token, self.contract_address.clone(), a, fee, TransferMode::BestEffort),
                    );
                },
                None => {},
            }
        }
        self.effects.push(
            Effect::Emit(Event::RefundCompleted { payment_id: refund.payment_id.clone(), refund_id: refund_id.clone(), amount: refund.amount }),
        );
        proof {
            old_self.lemma_refund_replaced(&*self, refund_id@, updated);
            let rf = old_self.refunds@[refund_id@];
            let ad = old_self.access.admin_address();
            let feev = refund_fee(rf.amount, refund_fee_bps(old_self.merchant_registry is Some, *merchant));
            assert(self.effects@ =~= old_self.effects@ + payout_effects(
                old_self.usdc_token->Some_0,
                old_self.contract_address,
                rf.requester,
                rf.amount,
                feev,
                ad,
                TransferMode::SkipOnFailure(payout_tail(feev, ad)),
                Effect::Emit(Event::RefundCompleted { payment_id: rf.payment_id, refund_id: *refund_id, amount: rf.amount }),
            ));
        }
        Ok(())
    }

    /// A settlement operator or oracle completes a pending refund and pays it out: the amount
    /// less the fee to the requester, then the fee to the administrator. When the first transfer
    /// fails the refund stays completed and nothing more happens.
    ///
    /// `merchant` is the registry's answer for the payment's merchant (consulted only when a
    /// registry is configured); it decides the fee rate.
    pub fn process_refund(&mut self, operator: &Address, refund_id: &String, now: u64, merchant: &Option<Merchant>) -> (r: Result<(), Error>)
        requires
            old(self).wf(),
            old(self).fee_fits(refund_id@, *merchant),
        ensures
            final(self).wf(),
            !old(self).is_operator(operator@) ==> r == Err::<(), Error>(Error::Unauthorized) && *final(self) == *old(self),
            old(self).is_operator(operator@) ==> match old(self).process_error(refund_id@) {
                Some(e) => r == Err::<(), Error>(e) && *final(self) == *old(self),
                None => r is Ok && old(self).refund_processed(&*final(self), *refund_id, now, *merchant),
            },
    {
        let settle_role = role_settlement_operator();
        let oracle_role = role_oracle();
        if !self.access.has_role(&settle_role, operator) && !self.access.has_role(&oracle_role, operator) {
            return Err(Error::Unauthorized);
        }
        self.process_refund_internal(refund_id, now, merchant)
    }

    /// A settlement operator or oracle rejects a pending refund; it no longer counts toward
    /// its payment's refunded total.
    pub fn reject_refund(&mut self, operator: &Address, refund_id: &String, now: u64) -> (r: Result<(), Error>)
        requires
            old(self).wf(),
        ensures
            final(self).wf(),
            !old(self).is_operator(operator@) ==> r == Err::<(), Error>(Error::Unauthorized) && *final(self) == *old(self),
            old(self).is_operator(operator@) && !old(self).refunds@.contains_key(refund_id@) ==> r == Err::<(), Error>(
                Error::RefundNotFound,
            ) && *final(self) == *old(self),
            old(self).is_operator(operator@) && old(self).refunds@.contains_key(refund_id@) ==> {
                let rf = old(self).refunds@[refund_id@];
                if rf.status != RefundStatus::Pending {
                    r == Err::<(), Error>(Error::RefundAlreadyProcessed) && *final(self) == *old(self)
                } else {
                    &&& r is Ok
                    &&& final(self).refunds@ == old(self).refunds@.insert(
                        refund_id@,
                        Refund { status: RefundStatus::Rejected, processed_at: Some(now), ..rf },
                    )
                    &&& final(self).effects@ == old(self).effects@.push(
                        Effect::Emit(Event::RefundRejected { payment_id: rf.payment_id, refund_id: *refund_id, amount: rf.amount }),
                    )
                    &&& *final(self) == (RefundManager { refunds: final(self).refunds, effects: final(self).effects, ..*old(self) })
                }
            },
    {
        let settle_role = role_settlement_operator();
        let oracle_role = role_oracle();
        if !self.access.has_role(&settle_role, operator) && !self.access.has_role(&oracle_role, operator) {
            return Err(Error::Unauthorized);
        }
        let refund = match self.refunds.get(refund_id) {
            Some(rf) => rf.clone(),
            None => {
                return Err(Error::RefundNotFound);
            },
        };
        if refund.status != RefundStatus::Pending {
            return Err(Error::RefundAlreadyProcessed);
        }
        let ghost old_self = *self;
        let updated = Refund { status: RefundStatus::Rejected, processed_at: Some(now), ..refund.clone() };
        self.refunds.set(refund_id.clone(), updated);
        self.effects.push(
            Effect::Emit(Event::RefundRejected { payment_id: refund.payment_id, refund_id: refund_id.clone(), amount: refund.amount }),
        );
        proof {
            old_self.lemma_refund_replaced(&*self, refund_id@, updated);
        }
        Ok(())
    }

    /// The requester or the administrator withdraws a pending refund: the record is removed
    /// and the payment's refund list no longer names it.
    pub fn cancel_refund(&mut self, caller: &Address, refund_id: &String) -> (r: Result<(), Error>)
        requires
            old(self).wf(),
        ensures
            final(self).wf(),
            !old(self).refunds@.contains_key(refund_id@) ==> r == Err::<(), Error>(Error::RefundNotFound) && *final(self)
                == *old(self),
            old(self).refunds@.contains_key(refund_id@) ==> {
                let rf = old(self).refunds@[refund_id@];
                let p = rf.payment_id@;
                if rf.status != RefundStatus::Pending {
                    r == Err::<(), Error>(Error::RefundAlreadyProcessed) && *final(self) == *old(self)
                } else if caller@ != rf.requester@ && !old(self).spec_has_role(spec_role_admin(), caller@) {
                    r == Err::<(), Error>(Error::Unauthorized) && *final(self) == *old(self)
                } else {
                    &&& r is Ok
                    &&& final(self).refunds@ == old(self).refunds@.remove(refund_id@)
                    &&& final(self).payment_refunds@.dom() == old(self).payment_refunds@.dom().insert(p)
                    &&& final(self).payment_refunds@[p]@ == seq_without(list_or_empty(old(self).payment_refunds@, p), refund_id@)
                    &&& forall|k: Seq<char>|
                        k != p && #[trigger] old(self).payment_refunds@.contains_key(k) ==> final(self).payment_refunds@[k]
                            == old(self).payment_refunds@[k]
                    &&& final(self).effects@ == old(self).effects@.push(
                        Effect::Emit(Event::RefundCancelled { payment_id: rf.payment_id, refund_id: *refund_id, amount: rf.amount }),
                    )
                    &&& *final(self) == (RefundManager {
                        refunds: final(self).refunds,
                        payment_refunds: final(self).payment_refunds,
                        effects: final(self).effects,
                        ..*old(self)
                    })
                }
            },
    {
        let refund = match self.refunds.get(refund_id) {
            Some(rf) => rf.clone(),
            None => {
                return Err(Error::RefundNotFound);
            },
        };
        if refund.status != RefundStatus::Pending {
            return Err(Error::RefundAlreadyProcessed);
        }
        let is_requester = *caller == refund.requester;
        let admin_role = role_admin();
        let is_admin = self.access.has_role(&admin_role, caller);
        if !is_requester && !is_admin {
            return Err(Error::Unauthorized);
        }
        let ghost old_self = *self;
        let existing = match self.payment_refunds.take(&refund.payment_id) {
            Some(l) => l,
            None => Vec::new(),
        };
        let updated = list_without(&existing, refund_id);
        proof {
            lemma_without_membership(existing@, refund_id@);
        }
        self.payment_refunds.set(refund.payment_id.clone(), updated);
        let _ = self.refunds.take(refund_id);
        self.effects.push(
            Effect::Emit(Event::RefundCancelled { payment_id: refund.payment_id.clone(), refund_id: refund_id.clone(), amount: refund.amount }),
        );
        proof {
            let p = refund.payment_id@;
            let x = refund_id@;
            let m0 = old_self.refunds@;
            let m1 = self.refunds@;
            assert(self.payment_refunds@.dom() =~= old_self.payment_refunds@.dom().insert(p));
            assert(old_self.payments@.contains_key(p));
            assert forall|kk: Seq<char>| #[trigger] self.refunds@.contains_key(kk) implies self.refunds@[kk].amount > 0
                && self.payments@.contains_key(self.refunds@[kk].payment_id@)
                && exists|n: nat| 1 <= n <= self.refund_counter && kk == #[trigger] spec_format_id(refund_prefix(), n) by {
                assert(m0.contains_key(kk));
                let n = choose|n: nat| 1 <= n <= old_self.refund_counter && kk == #[trigger] spec_format_id(refund_prefix(), n);
                assert(kk == spec_format_id(refund_prefix(), n));
            }
            assert forall|q: Seq<char>, i: int|
                #![trigger self.payment_refunds@[q]@[i]]
                self.payment_refunds@.contains_key(q) && 0 <= i < self.payment_refunds@[q]@.len()
                    implies self.refunds@.contains_key(self.payment_refunds@[q]@[i]@)
                    && self.refunds@[self.payment_refunds@[q]@[i]@].payment_id@ == q by {
                let e = self.payment_refunds@[q]@[i]@;
                if q == p {
                    assert(seq_has(updated@, e));
                    assert(e != x);
                    assert(seq_has(existing@, e));
                    let j = choose|j: int| 0 <= j < existing@.len() && (#[trigger] existing@[j])@ == e;
                    assert(old_self.payment_refunds@.contains_key(q));
                    assert(old_self.payment_refunds@[q]@[j] == existing@[j]);
                    assert(m0.contains_key(old_self.payment_refunds@[q]@[j]@));
                } else {
                    assert(old_self.payment_refunds@.contains_key(q));
                    assert(m0.contains_key(old_self.payment_refunds@[q]@[i]@));
                    assert(m0[e].payment_id@ == q);
                    assert(e != x);
                }
            }
            assert forall|q: Seq<char>| #[trigger] self.payments@.contains_key(q) implies {
                &&& (self.refund_total(q) == 0 || self.refund_total(q) <= self.payments@[q].amount)
                &&& (self.dispute_total(q) == 0 || self.dispute_total(q) <= self.payments@[q].amount)
            } by {
                let l0 = list_or_empty(old_self.payment_refunds@, q);
                let l1 = list_or_empty(self.payment_refunds@, q);
                lemma_refund_terms_nonneg(m0, l0);
                lemma_refund_terms_nonneg(m1, l1);
                lemma_sum_prefix(l1, refund_term(m1), l1.len() as int);
                assert(l1.take(l1.len() as int) =~= l1);
                if q == p {
                    assert(l1 == seq_without(l0, x));
                    assert forall|j: int| 0 <= j < l1.len() implies refund_contrib(m1, (#[trigger] l1[j])@)
                        <= refund_contrib(m0, l1[j]@) by {
                        assert(seq_has(l1, l1[j]@));
                    }
                    lemma_refund_sum_le(m1, m0, l1);
                    lemma_sum_without(l0, x, refund_term(m0));
                } else {
                    assert(l1 == l0);
                    assert forall|j: int| 0 <= j < l1.len() implies refund_contrib(m1, (#[trigger] l1[j])@)
                        <= refund_contrib(m0, l1[j]@) by {
                        assert(old_self.payment_refunds@.contains_key(q));
                        assert(m0.contains_key(old_self.payment_refunds@[q]@[j]@));
                    }
                    lemma_refund_sum_le(m1, m0, l1);
                }
            }
        }
        Ok(())
    }

    /// The refund stored under `refund_id`.
    pub fn get_refund(&self, refund_id: &String) -> (r: Result<Refund, Error>)
        requires
            self.wf(),
        ensures
            self.refunds@.contains_key(refund_id@) ==> r == Ok::<Refund, Error>(self.refunds@[refund_id@]),
            !self.refunds@.contains_key(refund_id@) ==> r == Err::<Refund, Error>(Error::RefundNotFound),
    {
        match self.refunds.get(refund_id) {
            Some(rf) => Ok(rf.clone()),
            None => Err(Error::RefundNotFound),
        }
    }

    /// A payment's refunds, in the order they were requested.
    pub fn get_payment_refunds(&self, payment_id: &String) -> (r: Result<Vec<Refund>, Error>)
        requires
            self.wf(),
        ensures
            r matches Ok(v) && v@ == refund_records(self.refunds@, list_or_empty(self.payment_refunds@, payment_id@)),
    {
        let mut out: Vec<Refund> = Vec::new();
        let ids = match self.payment_refunds.get(payment_id) {
            Some(l) => l,
            None => {
                return Ok(out);
            },
        };
        let mut i: usize = 0;
        while i < ids.len()
            invariant
                self.wf(),
                ids@ == list_or_empty(self.payment_refunds@, payment_id@),
                i <= ids@.len(),
                out@ == refund_records(self.refunds@, ids@.take(i as int)),
            decreases ids.len() - i,
        {
            proof {
                assert(ids@.take(i as int + 1).drop_last() =~= ids@.take(i as int));
                assert(ids@.take(i as int + 1).last() == ids@[i as int]);
            }
            match self.refunds.get(&ids[i]) {
                Some(rf) => {
                    out.push(rf.clone());
                },
                None => {},
            }
            i = i + 1;
        }
        assert(ids@.take(ids@.len() as int) =~= ids@);
        Ok(out)
    }
}

/// Whether a registry answer shows a merchant trusted with instant refunds (full or business tier).
pub open spec fn high_trust(merchant: Option<Merchant>) -> bool {
    merchant matches Some(m) && (m.kyc_tier == KycTier::Full || m.kyc_tier == KycTier::Business)
}

impl RefundManager {
    /// Why an instant refund is refused, if it is, in the order the checks are made.
    pub open spec fn instant_refund_error(
        &self,
        merchant_id: Seq<char>,
        payment_id: Seq<char>,
        amount: i128,
        registry_merchant: Option<Merchant>,
    ) -> Option<Error> {
        if !high_trust(registry_merchant) {
            Some(Error::Unauthorized)
        } else if !self.payments@.contains_key(payment_id) {
            Some(Error::PaymentNotFound)
        } else if self.payments@[payment_id].merchant_id@ != merchant_id {
            Some(Error::Unauthorized)
        } else if self.payments@[payment_id].status != PaymentStatus::Confirmed {
            Some(Error::PaymentAlreadyProcessed)
        } else if self.payments@[payment_id].payer_address is None {
            Some(Error::Unauthorized)
        } else if self.refund_error(payment_id, amount) is Some {
            self.refund_error(payment_id, amount)
        } else if self.usdc_token is None {
            Some(Error::Unauthorized)
        } else {
            None
        }
    }

    /// A merchant of full or business tier refunds its own confirmed payment at once, with no
    /// operator: the refund is recorded completed and paid to the payer, less a one percent fee
    /// that goes to the administrator.
    ///
    /// `registry_merchant` is what the merchant registry answered for `merchant_id` (none when
    /// the lookup failed).
    pub fn refund_instantly(
        &mut self,
        merchant_id: &Address,
        payment_id: String,
        refund_amount: i128,
        reason: String,
        registry_merchant: &Option<Merchant>,
        now: u64,
    ) -> (r: Result<String, Error>)
        requires
            old(self).wf(),
            old(self).refund_fits(payment_id@, refund_amount),
            old(self).instant_refund_error(merchant_id@, payment_id@, refund_amount, *registry_merchant) is None
                ==> refund_amount * REFUND_FEE_BPS <= i128::MAX,
        ensures
            final(self).wf(),
            match old(self).instant_refund_error(merchant_id@, payment_id@, refund_amount, *registry_merchant) {
                Some(e) => r == Err::<String, Error>(e) && *final(self) == *old(self),
                None => {
                    let id = r->Ok_0;
                    let p = payment_id@;
                    let payer = old(self).payments@[p].payer_address->Some_0;
                    let fee = refund_fee(refund_amount, REFUND_FEE_BPS);
                    &&& r is Ok
                    &&& id@ == spec_format_id(refund_prefix(), (old(self).refund_counter + 1) as nat)
                    &&& final(self).refund_counter == old(self).refund_counter + 1
                    &&& final(self).refunds@ == old(self).refunds@.insert(
                        id@,
                        Refund {
                            refund_id: id,
                            payment_id,
                            amount: refund_amount,
                            reason,
                            status: RefundStatus::Completed,
                            requester: payer,
                            created_at: now,
                            processed_at: Some(now),
                        },
                    )
                    &&& final(self).payment_refunds@.dom() == old(self).payment_refunds@.dom().insert(p)
                    &&& final(self).payment_refunds@[p]@ == list_or_empty(old(self).payment_refunds@, p).push(id)
                    &&& forall|k: Seq<char>|
                        k != p && #[trigger] old(self).payment_refunds@.contains_key(k) ==> final(self).payment_refunds@[k]
                            == old(self).payment_refunds@[k]
                    &&& final(self).effects@ == old(self).effects@.push(
                        Effect::Emit(Event::RefundCreated { payment_id, refund_id: id, amount: refund_amount }),
                    ) + payout_effects(
                        old(self).usdc_token->Some_0,
                        old(self).contract_address,
                        payer,
                        refund_amount,
                        fee,
                        old(self).access.admin_address(),
                        TransferMode::BestEffort,
                        Effect::Emit(Event::RefundCompleted { payment_id, refund_id: id, amount: refund_amount }),
                    )
                    &&& *final(self) == (RefundManager {
                        refunds: final(self).refunds,
                        payment_refunds: final(self).payment_refunds,
                        refund_counter: final(self).refund_counter,
                        effects: final(self).effects,
                        ..*old(self)
                    })
                },
            },
    {
        let trusted = match registry_merchant {
            Some(m) => m.kyc_tier == KycTier::Full || m.kyc_tier == KycTier::Business,
            None => false,
        };
        if !trusted {
            return Err(Error::Unauthorized);
        }
        let payment = match self.payments.get(&payment_id) {
            Some(p) => p.clone(),
            None => {
                return Err(Error::PaymentNotFound);
            },
        };
        if payment.merchant_id != *merchant_id {
            return Err(Error::Unauthorized);
        }
        if payment.status != PaymentStatus::Confirmed {
            return Err(Error::PaymentAlreadyProcessed);
        }
        let payer = match &payment.payer_address {
            Some(a) => a.clone(),
            None => {
                return Err(Error::Unauthorized);
            },
        };
        self.check_refund_request(&payment_id, refund_amount)?;
        let token = match &self.usdc_token {
            Some(t) => t.clone(),
            None => {
                return Err(Error::Unauthorized);
            },
        };
        let ghost old_self = *self;
        let refund_id = self.create_refund_internal(payment_id.clone(), refund_amount, reason, payer.clone(), now)?;
        let ghost mid = *self;
        assert(refund_amount * REFUND_FEE_BPS >= 0) by (nonlinear_arith)
            requires
                refund_amount > 0,
        ;
        let fee = refund_amount * REFUND_FEE_BPS / 10_000;
        let net = refund_amount - fee;
        let refund = match self.refunds.get(&refund_id) {
            Some(rf) => rf.clone(),
            None => {
                return Err(Error::RefundNotFound);
            },
        };
        let updated = Refund { status: RefundStatus::Completed, processed_at: Some(now), ..refund };
        self.refunds.set(refund_id.clone(), updated);
        let admin = self.access.get_admin();
        self.effects.push(
            make_transfer(token.clone(), self.contract_address.clone(), payer.clone(), net, TransferMode::BestEffort),
        );
        if fee > 0 {
            match admin {
                Some(a) => {
                    self.effects.push(
                        make_transfer(token, self.contract_address.clone(), a, fee, TransferMode::BestEffort),
                    );
                },
                None => {},
            }
        }
        self.effects.push(
            Effect::Emit(Event::RefundCompleted { payment_id: payment_id.clone(), refund_id: refund_id.clone(), amount: refund_amount }),
        );
        proof {
            mid.lemma_refund_replaced(&*self, refund_id@, updated);
            let feev = refund_fee(refund_amount, REFUND_FEE_BPS);
            assert(self.effects@ =~= old_self.effects@.push(
                Effect::Emit(Event::RefundCreated { payment_id, refund_id, amount: refund_amount }),
            ) + payout_effects(
                old_self.usdc_token->Some_0,
                old_self.contract_address,
                payer,
                refund_amount,
                feev,
                old_self.access.admin_address(),
                TransferMode::BestEffort,
                Effect::Emit(Event::RefundCompleted { payment_id, refund_id, amount: refund_amount }),
            ));
            assert(self.refunds@ =~= old_self.refunds@.insert(
                refund_id@,
                Refund {
                    refund_id,
                    payment_id,
                    amount: refund_amount,
                    reason,
                    status: RefundStatus::Completed,
                    requester: payer,
                    created_at: now,
                    processed_at: Some(now),
                },
            ));
        }
        Ok(refund_id)
    }
}

impl RefundManager {
    /// A payment's refunded total is never negative.
    pub proof fn lemma_refund_total_nonneg(&self, payment_id: Seq<char>)
        requires
            self.wf(),
        ensures
            self.refund_total(payment_id) >= 0,
    {
        let l = list_or_empty(self.payment_refunds@, payment_id);
        lemma_refund_terms_nonneg(self.refunds@, l);
        lemma_sum_prefix(l, refund_term(self.refunds@), l.len() as int);
        assert(l.take(l.len() as int) =~= l);
    }
}

} // verus!
