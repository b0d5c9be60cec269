use vstd::prelude::*;

use crate::access_control::{role_merchant, role_oracle, role_settlement_operator, spec_role_merchant};
use crate::effects::{make_transfer, transfer_effect, Effect, Event, TransferMode};
use crate::payment_processor::list_or_empty;
use crate::refund_manager::RefundManager;
use crate::types::{
    same_plan, spec_interval_secs, BillingInterval, Error, SettlementSplit, Subscription, SubscriptionPlan,
    SubscriptionStatus, SUBSCRIPTION_MAX_RETRIES, SUBSCRIPTION_RETRY_INTERVAL_SECS,
};
use crate::util::{
    clamp_i128, clamp_u32, clamp_u64, div_trunc, format_id, sat_add_u32, sat_add_u64, sat_mul, sat_sub,
    spec_format_id, trunc_div,
};
use crate::{Address, Symbol};

verus! {

/// The transfers paying each split of a bundled plan from `from`, in order.
pub open spec fn split_transfers(token: Address, from: Address, splits: Seq<SettlementSplit>) -> Seq<Effect>
    decreases splits.len(),
{
    if splits.len() == 0 {
        Seq::empty()
    } else {
        split_transfers(token, from, splits.drop_last()).push(
            transfer_effect(token, from, splits.last().recipient, splits.last().amount, TransferMode::BestEffort),
        )
    }
}

/// A subscription as a charge attempt at `now` first sees it: a paused subscription whose
/// resume time has come is active again, its next payment one interval after the resume time.
/// The flag says whether it was resumed.
pub open spec fn resumed(s: Subscription, now: u64) -> (Subscription, bool) {
    if s.status == SubscriptionStatus::Paused && s.resume_at is Some && now >= s.resume_at->Some_0 {
        (
            Subscription {
                status: SubscriptionStatus::Active,
                resume_at: None,
                next_payment_at: clamp_u64(s.resume_at->Some_0 + s.interval_secs) as u64,
                ..s
            },
            true,
        )
    } else {
        (s, false)
    }
}

/// When a subscription's next charge is due: its retry time during a grace period, else its
/// next payment time.
pub open spec fn due_at(s: Subscription) -> u64 {
    match s.next_retry_at {
        Some(t) => t,
        None => s.next_payment_at,
    }
}

/// How a collected charge of `s` is paid on from `from`: to each split of a bundled plan;
/// else the affiliate's share to the affiliate and the rest to the merchant; else all to the
/// merchant.
pub open spec fn charge_payouts(s: Subscription, plan: Option<SubscriptionPlan>, token: Address, from: Address) -> Seq<Effect> {
    let to_merchant = seq![transfer_effect(token, from, s.merchant_id, s.amount, TransferMode::BestEffort)];
    match plan {
        Some(p) => if p.payout_splits@.len() > 0 {
            split_transfers(token, from, p.payout_splits@)
        } else if s.affiliate is Some && s.affiliate_fee_bps is Some {
            let fee = trunc_div(clamp_i128(s.amount * s.affiliate_fee_bps->Some_0), 10_000);
            let rest = clamp_i128(s.amount - fee);
            let fee_part: Seq<Effect> = if fee > 0 {
                seq![transfer_effect(token, from, s.affiliate->Some_0, fee as i128, TransferMode::BestEffort)]
            } else {
                Seq::empty()
            };
            fee_part.push(transfer_effect(token, from, s.merchant_id, rest as i128, TransferMode::BestEffort))
        } else {
            to_merchant
        },
        None => to_merchant,
    }
}

/// The outcome of a charge attempt of the subscription `id`, stored as `s0`, at `now`:
/// the subscription stored afterwards, the effects, and the answer. `collected` says whether
/// the payer's transfer of the amount due went through.
pub open spec fn charge_outcome(
    id: String,
    s0: Subscription,
    plan: Option<SubscriptionPlan>,
    now: u64,
    collected: bool,
    token: Address,
    contract: Address,
) -> (Subscription, Seq<Effect>, Result<SubscriptionStatus, Error>) {
    let s = resumed(s0, now).0;
    let payer = s.payer_address;
    let e0: Seq<Effect> = if resumed(s0, now).1 {
        seq![Effect::Emit(Event::SubscriptionResumed { subscription_id: id, payer })]
    } else {
        Seq::empty()
    };
    if s.status != SubscriptionStatus::Active || now < due_at(s) {
        (s, e0, Ok(s.status))
    } else if collected {
        let total = clamp_u32(s.total_payments + 1) as u32;
        let status = if s.max_payments matches Some(m) && total >= m {
            SubscriptionStatus::Expired
        } else {
            s.status
        };
        let s2 = Subscription {
            last_payment_at: Some(now),
            total_payments: total,
            retry_count: 0,
            next_retry_at: None,
            next_payment_at: clamp_u64(now + s.interval_secs) as u64,
            status,
            ..s
        };
        let e1 = e0 + charge_payouts(s, plan, token, contract) + seq![
            Effect::Emit(
                Event::SubscriptionCharged {
                    subscription_id: id,
                    payer,
                    merchant: s.merchant_id,
                    amount: s.amount,
                    total_payments: total,
                },
            ),
        ];
        (
            s2,
            if status == SubscriptionStatus::Expired {
                e1.push(Effect::Emit(Event::SubscriptionExpired { subscription_id: id, payer }))
            } else {
                e1
            },
            Ok(status),
        )
    } else {
        let retries = clamp_u32(s.retry_count + 1) as u32;
        if retries >= SUBSCRIPTION_MAX_RETRIES {
            (
                Subscription { retry_count: retries, status: SubscriptionStatus::Cancelled, next_retry_at: None, ..s },
                e0 + seq![
                    Effect::Emit(Event::SubscriptionRetriesExhausted { subscription_id: id, payer, retry_count: retries }),
                    Effect::Emit(Event::SubscriptionCancelled { subscription: Some(id), payer }),
                ],
                Err(Error::SubscriptionRetryExhausted),
            )
        } else {
            let next = clamp_u64(now + SUBSCRIPTION_RETRY_INTERVAL_SECS) as u64;
            (
                Subscription { retry_count: retries, next_retry_at: Some(next), ..s },
                e0 + seq![
                    Effect::Emit(
                        Event::SubscriptionPaymentFailed { subscription_id: id, payer, retry_count: retries, next_retry: next },
                    ),
                ],
                Err(Error::SubscriptionInGracePeriod),
            )
        }
    }
}

/// The records stored under the ids of a list, in its order (ids with no record are skipped).
pub open spec fn subscription_records(subs: Map<Seq<char>, Subscription>, ids: Seq<String>) -> Seq<Subscription>
    decreases ids.len(),
{
    if ids.len() == 0 {
        Seq::empty()
    } else {
        let init = subscription_records(subs, ids.drop_last());
        if subs.contains_key(ids.last()@) {
            init.push(subs[ids.last()@])
        } else {
            init
        }
    }
}

impl RefundManager {
    /// The plan stored under `plan_id`, if any.
    pub open spec fn plan_of(&self, plan_id: Seq<char>) -> Option<SubscriptionPlan> {
        if self.plans@.contains_key(plan_id) {
            Some(self.plans@[plan_id])
        } else {
            None
        }
    }

    /// A merchant offers a plan charging `amount` every billing interval. A plan stored under
    /// the same id is replaced.
    pub fn create_subscription_plan(
        &mut self,
        merchant: Address,
        plan_id: String,
        name: String,
        description: String,
        amount: i128,
        currency: Symbol,
        billing_interval: BillingInterval,
    ) -> (r: Result<(), Error>)
        requires
            old(self).wf(),
        ensures
            final(self).wf(),
            !old(self).spec_has_role(spec_role_merchant(), merchant@) ==> r == Err::<(), Error>(Error::Unauthorized)
                && *final(self) == *old(self),
            old(self).spec_has_role(spec_role_merchant(), merchant@) && amount <= 0 ==> r == Err::<(), Error>(
                Error::InvalidAmount,
            ) && *final(self) == *old(self),
            old(self).spec_has_role(spec_role_merchant(), merchant@) && amount > 0 ==> {
                let p = final(self).plans@[plan_id@];
                &&& r is Ok
                &&& final(self).plans@ == old(self).plans@.insert(plan_id@, p)
                &&& p == (SubscriptionPlan {
                    plan_id,
                    merchant_id: merchant,
                    name,
                    description,
                    amount,
                    currency,
                    interval_secs: spec_interval_secs(billing_interval),
                    billing_interval,
                    active: true,
                    payout_splits: p.payout_splits,
                })
                &&& p.payout_splits@.len() == 0
                &&& *final(self) == (RefundManager { plans: final(self).plans, ..*old(self) })
            },
    {
        let merchant_role = role_merchant();
        if !self.access.has_role(&merchant_role, &merchant) {
            return Err(Error::Unauthorized);
        }
        if amount <= 0 {
            return Err(Error::InvalidAmount);
        }
        let interval_secs = billing_interval.to_secs();
        let plan = SubscriptionPlan {
            plan_id: plan_id.clone(),
            merchant_id: merchant,
            name,
            description,
            amount,
            currency,
            interval_secs,
            billing_interval,
            active: true,
            payout_splits: Vec::new(),
        };
        self.plans.set(plan_id, plan);
        Ok(())
    }

    /// The plan stored under `plan_id`.
    pub fn get_subscription_plan(&self, plan_id: &String) -> (r: Result<SubscriptionPlan, Error>)
        requires
            self.wf(),
        ensures
            self.plans@.contains_key(plan_id@) ==> (r matches Ok(p) && same_plan(p, self.plans@[plan_id@])),
            !self.plans@.contains_key(plan_id@) ==> r == Err::<SubscriptionPlan, Error>(Error::PaymentNotFound),
    {
        match self.plans.get(plan_id) {
            Some(p) => Ok(p.clone()),
            None => Err(Error::PaymentNotFound),
        }
    }

    /// The merchant that owns a plan withdraws it; existing subscriptions go on.
    pub fn deactivate_subscription_plan(&mut self, merchant: &Address, plan_id: &String) -> (r: Result<(), Error>)
        requires
            old(self).wf(),
        ensures
            final(self).wf(),
            !old(self).plans@.contains_key(plan_id@) ==> r == Err::<(), Error>(Error::PaymentNotFound) && *final(self)
                == *old(self),
            old(self).plans@.contains_key(plan_id@) && old(self).plans@[plan_id@].merchant_id@ != merchant@ ==> r
                == Err::<(), Error>(Error::Unauthorized) && *final(self) == *old(self),
            old(self).plans@.contains_key(plan_id@) && old(self).plans@[plan_id@].merchant_id@ == merchant@ ==> {
                let p = final(self).plans@[plan_id@];
                &&& r is Ok
                &&& final(self).plans@ == old(self).plans@.insert(plan_id@, p)
                &&& same_plan(p, SubscriptionPlan { active: false, ..old(self).plans@[plan_id@] })
                &&& *final(self) == (RefundManager { plans: final(self).plans, ..*old(self) })
            },
    {
        let plan = match self.plans.get(plan_id) {
            Some(p) => p.clone(),
            None => {
                return Err(Error::PaymentNotFound);
            },
        };
        if plan.merchant_id != *merchant {
            return Err(Error::Unauthorized);
        }
        let updated = SubscriptionPlan { active: false, ..plan };
        self.plans.set(plan_id.clone(), updated);
        Ok(())
    }

    /// A payer subscribes to an active plan. The subscription's id is `sub_` followed by the
    /// subscription counter; its first payment is due one interval from now.
    pub fn subscribe(
        &mut self,
        payer: Address,
        plan_id: String,
        max_payments: Option<u32>,
        affiliate: Option<Address>,
        affiliate_fee_bps: Option<u32>,
        now: u64,
    ) -> (r: Result<String, Error>)
        requires
            old(self).wf(),
            old(self).plans@.contains_key(plan_id@) && old(self).plans@[plan_id@].active ==> old(self).subscription_counter
                < u64::MAX,
        ensures
            final(self).wf(),
            !old(self).plans@.contains_key(plan_id@) ==> r == Err::<String, Error>(Error::PaymentNotFound) && *final(self)
                == *old(self),
            old(self).plans@.contains_key(plan_id@) && !old(self).plans@[plan_id@].active ==> r == Err::<String, Error>(
                Error::PaymentAlreadyProcessed,
            ) && *final(self) == *old(self),
            old(self).plans@.contains_key(plan_id@) && old(self).plans@[plan_id@].active ==> {
                let plan = old(self).plans@[plan_id@];
                let id = r->Ok_0;
                &&& r is Ok
                &&& id@ == spec_format_id("sub_"@, (old(self).subscription_counter + 1) as nat)
                &&& final(self).subscription_counter == old(self).subscription_counter + 1
                &&& final(self).subscriptions@ == old(self).subscriptions@.insert(
                    id@,
                    Subscription {
                        subscription_id: id,
                        merchant_id: plan.merchant_id,
                        payer_address: payer,
                        plan_id,
                        amount: plan.amount,
                        currency: plan.currency,
                        interval_secs: plan.interval_secs,
                        next_payment_at: clamp_u64(now + plan.interval_secs) as u64,
                        status: SubscriptionStatus::Active,
                        created_at: now,
                        last_payment_at: None,
                        total_payments: 0,
                        max_payments,
                        retry_count: 0,
                        next_retry_at: None,
                        resume_at: None,
                        affiliate,
                        affiliate_fee_bps,
                    },
                )
                &&& final(self).payer_subscriptions@.dom() == old(self).payer_subscriptions@.dom().insert(payer@)
                &&& final(self).payer_subscriptions@[payer@]@ == list_or_empty(old(self).payer_subscriptions@, payer@).push(id)
                &&& forall|k: Seq<char>|
                    k != payer@ && #[trigger] old(self).payer_subscriptions@.contains_key(k) ==> final(self).payer_subscriptions@[k]
                        == old(self).payer_subscriptions@[k]
                &&& final(self).effects@ == old(self).effects@.push(
                    Effect::Emit(Event::SubscriptionCreated { subscription_id: id, payer, plan_id }),
                )
                &&& *final(self) == (RefundManager {
                    subscriptions: final(self).subscriptions,
                    payer_subscriptions: final(self).payer_subscriptions,
                    subscription_counter: final(self).subscription_counter,
                    effects: final(self).effects,
                    ..*old(self)
                })
            },
    {
        let plan = match self.plans.get(&plan_id) {
            Some(p) => p.clone(),
            None => {
                return Err(Error::PaymentNotFound);
            },
        };
        if !plan.active {
            return Err(Error::PaymentAlreadyProcessed);
        }
        let ghost s0 = *self;
        let counter = self.subscription_counter + 1;
        self.subscription_counter = counter;
        let subscription_id = format_id("sub_", counter);
        proof {
            reveal_strlit("sub_");
        }
        let subscription = Subscription {
            subscription_id: subscription_id.clone(),
            merchant_id: plan.merchant_id.clone(),
            payer_address: payer.clone(),
            plan_id: plan_id.clone(),
            amount: plan.amount,
            currency: plan.currency.clone(),
            interval_secs: plan.interval_secs,
            next_payment_at: sat_add_u64(now, plan.interval_secs),
            status: SubscriptionStatus::Active,
            created_at: now,
            last_payment_at: None,
            total_payments: 0,
            max_payments,
            retry_count: 0,
            next_retry_at: None,
            resume_at: None,
            affiliate,
            affiliate_fee_bps,
        };
        self.subscriptions.set(subscription_id.clone(), subscription);
        let mut list = match self.payer_subscriptions.take(&payer) {
            Some(l) => l,
            None => Vec::new(),
        };
        list.push(subscription_id.clone());
        self.payer_subscriptions.set(payer.clone(), list);
        self.effects.push(
            Effect::Emit(Event::SubscriptionCreated { subscription_id: subscription_id.clone(), payer, plan_id }),
        );
        proof {
            assert(self.payer_subscriptions@.dom() =~= s0.payer_subscriptions@.dom().insert(payer@));
        }
        Ok(subscription_id)
    }

    /// The subscription stored under `subscription_id`.
    pub fn get_subscription(&self, subscription_id: &String) -> (r: Result<Subscription, Error>)
        requires
            self.wf(),
        ensures
            self.subscriptions@.contains_key(subscription_id@) ==> r == Ok::<Subscription, Error>(
                self.subscriptions@[subscription_id@],
            ),
            !self.subscriptions@.contains_key(subscription_id@) ==> r == Err::<Subscription, Error>(Error::PaymentNotFound),
    {
        match self.subscriptions.get(subscription_id) {
            Some(s) => Ok(s.clone()),
            None => Err(Error::PaymentNotFound),
        }
    }

    /// A payer's subscriptions, in the order they were made.
    pub fn get_payer_subscriptions(&self, payer: &Address) -> (r: Vec<Subscription>)
        requires
            self.wf(),
        ensures
            r@ == subscription_records(self.subscriptions@, list_or_empty(self.payer_subscriptions@, payer@)),
    {
        let mut out: Vec<Subscription> = Vec::new();
        let ids = match self.payer_subscriptions.get(payer) {
            Some(l) => l,
            None => {
                return out;
            },
        };
        let mut i: usize = 0;
        while i < ids.len()
            invariant
                self.wf(),
                ids@ == list_or_empty(self.payer_subscriptions@, payer@),
                i <= ids@.len(),
                out@ == subscription_records(self.subscriptions@, ids@.take(i as int)),
            decreases ids.len() - i,
        {
            proof {
                assert(ids@.take(i as int + 1).drop_last() =~= ids@.take(i as int));
                assert(ids@.take(i as int + 1).last() == ids@[i as int]);
            }
            match self.subscriptions.get(&ids[i]) {
                Some(s) => {
                    out.push(s.clone());
                },
                None => {},
            }
            i = i + 1;
        }
        assert(ids@.take(ids@.len() as int) =~= ids@);
        out
    }

    /// Why the payer `payer` may not change the subscription `subscription_id` from the
    /// status `required`, if so.
    pub open spec fn owner_error(&self, payer: Seq<char>, subscription_id: Seq<char>, required: SubscriptionStatus) -> Option<Error> {
        if !self.subscriptions@.contains_key(subscription_id) {
            Some(Error::PaymentNotFound)
        } else if self.subscriptions@[subscription_id].payer_address@ != payer {
            Some(Error::Unauthorized)
        } else if self.subscriptions@[subscription_id].status != required {
            Some(Error::PaymentAlreadyProcessed)
        } else {
            None
        }
    }

    /// The payer pauses an active subscription until it resumes it.
    pub fn pause_subscription(&mut self, payer: &Address, subscription_id: &String) -> (r: Result<(), Error>)
        requires
            old(self).wf(),
        ensures
            final(self).wf(),
            match old(self).owner_error(payer@, subscription_id@, SubscriptionStatus::Active) {
                Some(e) => r == Err::<(), Error>(e) && *final(self) == *old(self),
                None => {
                    &&& r is Ok
                    &&& final(self).subscriptions@ == old(self).subscriptions@.insert(
                        subscription_id@,
                        Subscription { status: SubscriptionStatus::Paused, ..old(self).subscriptions@[subscription_id@] },
                    )
                    &&& *final(self) == (RefundManager { subscriptions: final(self).subscriptions, ..*old(self) })
                },
            },
    {
        let sub = match self.subscriptions.get(subscription_id) {
            Some(s) => s.clone(),
            None => {
                return Err(Error::PaymentNotFound);
            },
        };
        if sub.payer_address != *payer {
            return Err(Error::Unauthorized);
        }
        if sub.status != SubscriptionStatus::Active {
            return Err(Error::PaymentAlreadyProcessed);
        }
        self.subscriptions.set(subscription_id.clone(), Subscription { status: SubscriptionStatus::Paused, ..sub });
        Ok(())
    }

    /// The payer pauses an active subscription until `resume_timestamp`, which must be in the
    /// future; the next charge attempt after that time resumes it.
    pub fn pause_subscription_with_resume_date(
        &mut self,
        payer: &Address,
        subscription_id: &String,
        resume_timestamp: u64,
        now: u64,
    ) -> (r: Result<(), Error>)
        requires
            old(self).wf(),
        ensures
            final(self).wf(),
            resume_timestamp <= now ==> r == Err::<(), Error>(Error::InvalidResumeTimestamp) && *final(self) == *old(self),
            resume_timestamp > now ==> match old(self).owner_error(payer@, subscription_id@, SubscriptionStatus::Active) {
                Some(e) => r == Err::<(), Error>(e) && *final(self) == *old(self),
                None => {
                    &&& r is Ok
                    &&& final(self).subscriptions@ == old(self).subscriptions@.insert(
                        subscription_id@,
                        Subscription {
                            status: SubscriptionStatus::Paused,
                            resume_at: Some(resume_timestamp),
                            ..old(self).subscriptions@[subscription_id@]
                        },
                    )
                    &&& final(self).effects@ == old(self).effects@.push(
                        Effect::Emit(
                            Event::SubscriptionPaused { subscription_id: *subscription_id, payer: *payer, resume_at: resume_timestamp },
                        ),
                    )
                    &&& *final(self) == (RefundManager {
                        subscriptions: final(self).subscriptions,
                        effects: final(self).effects,
                        ..*old(self)
                    })
                },
            },
    {
        if resume_timestamp <= now {
            return Err(Error::InvalidResumeTimestamp);
        }
        let sub = match self.subscriptions.get(subscription_id) {
            Some(s) => s.clone(),
            None => {
                return Err(Error::PaymentNotFound);
            },
        };
        if sub.payer_address != *payer {
            return Err(Error::Unauthorized);
        }
        if sub.status != SubscriptionStatus::Active {
            return Err(Error::PaymentAlreadyProcessed);
        }
        self.subscriptions.set(
            subscription_id.clone(),
            Subscription { status: SubscriptionStatus::Paused, resume_at: Some(resume_timestamp), ..sub },
        );
        self.effects.push(
            Effect::Emit(
                Event::SubscriptionPaused { subscription_id: subscription_id.clone(), payer: payer.clone(), resume_at: resume_timestamp },
            ),
        );
        Ok(())
    }

    /// The payer resumes a paused subscription; its next payment is due one interval from now.
    pub fn resume_subscription(&mut self, payer: &Address, subscription_id: &String, now: u64) -> (r: Result<(), Error>)
        requires
            old(self).wf(),
        ensures
            final(self).wf(),
            match old(self).owner_error(payer@, subscription_id@, SubscriptionStatus::Paused) {
                Some(e) => r == Err::<(), Error>(e) && *final(self) == *old(self),
                None => {
                    let s = old(self).subscriptions@[subscription_id@];
                    &&& r is Ok
                    &&& final(self).subscriptions@ == old(self).subscriptions@.insert(
                        subscription_id@,
                        Subscription {
                            status: SubscriptionStatus::Active,
                            next_payment_at: clamp_u64(now + s.interval_secs) as u64,
                            ..s
                        },
                    )
                    &&& *final(self) == (RefundManager { subscriptions: final(self).subscriptions, ..*old(self) })
                },
            },
    {
        let sub = match self.subscriptions.get(subscription_id) {
            Some(s) => s.clone(),
            None => {
                return Err(Error::PaymentNotFound);
            },
        };
        if sub.payer_address != *payer {
            return Err(Error::Unauthorized);
        }
        if sub.status != SubscriptionStatus::Paused {
            return Err(Error::PaymentAlreadyProcessed);
        }
        let next = sat_add_u64(now, sub.interval_secs);
        self.subscriptions.set(
            subscription_id.clone(),
            Subscription { status: SubscriptionStatus::Active, next_payment_at: next, ..sub },
        );
        Ok(())
    }

    /// The payer cancels its subscription, whatever its status.
    pub fn cancel_subscription(&mut self, payer: &Address, subscription_id: &String) -> (r: Result<(), Error>)
        requires
            old(self).wf(),
        ensures
            final(self).wf(),
            !old(self).subscriptions@.contains_key(subscription_id@) ==> r == Err::<(), Error>(Error::PaymentNotFound)
                && *final(self) == *old(self),
            old(self).subscriptions@.contains_key(subscription_id@) && old(self).subscriptions@[subscription_id@].payer_address@
                != payer@ ==> r == Err::<(), Error>(Error::Unauthorized) && *final(self) == *old(self),
            old(self).subscriptions@.contains_key(subscription_id@) && old(self).subscriptions@[subscription_id@].payer_address@
                == payer@ ==> {
                &&& r is Ok
                &&& final(self).subscriptions@ == old(self).subscriptions@.insert(
                    subscription_id@,
                    Subscription { status: SubscriptionStatus::Cancelled, ..old(self).subscriptions@[subscription_id@] },
                )
                &&& final(self).effects@ == old(self).effects@.push(
                    Effect::Emit(Event::SubscriptionCancelled { subscription: None, payer: *payer }),
                )
                &&& *final(self) == (RefundManager {
                    subscriptions: final(self).subscriptions,
                    effects: final(self).effects,
                    ..*old(self)
                })
            },
    {
        let sub = match self.subscriptions.get(subscription_id) {
            Some(s) => s.clone(),
            None => {
                return Err(Error::PaymentNotFound);
            },
        };
        if sub.payer_address != *payer {
            return Err(Error::Unauthorized);
        }
        self.subscriptions.set(subscription_id.clone(), Subscription { status: SubscriptionStatus::Cancelled, ..sub });
        self.effects.push(Effect::Emit(Event::SubscriptionCancelled { subscription: None, payer: payer.clone() }));
        Ok(())
    }

    /// An oracle or settlement operator runs the subscription sweep; it processes none.
    pub fn process_due_subscriptions(&self, operator: &Address) -> (r: Result<u32, Error>)
        requires
            self.wf(),
        ensures
            self.is_operator(operator@) ==> r == Ok::<u32, Error>(0),
            !self.is_operator(operator@) ==> r == Err::<u32, Error>(Error::Unauthorized),
    {
        let settle_role = role_settlement_operator();
        let oracle_role = role_oracle();
        if !self.access.has_role(&oracle_role, operator) && !self.access.has_role(&settle_role, operator) {
            return Err(Error::Unauthorized);
        }
        Ok(0)
    }
}

impl RefundManager {
    /// Whether a charge attempt of the subscription `subscription_id` at `now` asks the payer
    /// for its amount: it exists, is active once any due resumption is applied, and is due.
    pub open spec fn charge_attempted(&self, subscription_id: Seq<char>, now: u64) -> bool {
        self.subscriptions@.contains_key(subscription_id) && {
            let s = resumed(self.subscriptions@[subscription_id], now).0;
            s.status == SubscriptionStatus::Active && now >= due_at(s)
        }
    }

    /// The amount a charge attempt at `now` asks the payer of `subscription_id` to transfer to
    /// this contract, if it asks anything. The host makes that transfer before
    /// [`Self::charge_subscription`] and reports whether it went through.
    pub fn due_charge(&self, subscription_id: &String, now: u64) -> (r: Option<i128>)
        requires
            self.wf(),
        ensures
            self.charge_attempted(subscription_id@, now) ==> r == Some(self.subscriptions@[subscription_id@].amount),
            !self.charge_attempted(subscription_id@, now) ==> r is None,
    {
        let sub = match self.subscriptions.get(subscription_id) {
            Some(s) => s,
            None => {
                return None;
            },
        };
        let mut status = sub.status;
        let mut next_payment_at = sub.next_payment_at;
        if status == SubscriptionStatus::Paused {
            if let Some(resume_at) = sub.resume_at {
                if now >= resume_at {
                    status = SubscriptionStatus::Active;
                    next_payment_at = sat_add_u64(resume_at, sub.interval_secs);
                }
            }
        }
        if status != SubscriptionStatus::Active {
            return None;
        }
        let due = match sub.next_retry_at {
            Some(t) => t,
            None => next_payment_at,
        };
        if now < due {
            return None;
        }
        Some(sub.amount)
    }

    /// An oracle or settlement operator attempts to charge a subscription at `now`.
    ///
    /// A paused subscription whose resume time has come is resumed first. Only an active
    /// subscription that is due is charged. `collected` says whether the payer's transfer of the
    /// amount to this contract (see [`Self::due_charge`]) went through. When it did, the amount
    /// is paid on (to the plan's splits, or the affiliate's share and the rest to the merchant,
    /// or all to the merchant), the payment is counted, and the subscription expires once it
    /// reaches its maximum number of payments. When it did not, a grace period starts or goes
    /// on: a retry two days later, or, at the third failure in a row, cancellation. The
    /// subscription's new state is kept in either case, also when the answer is an error.
    pub fn charge_subscription(
        &mut self,
        operator: &Address,
        subscription_id: &String,
        token: Address,
        now: u64,
        collected: bool,
    ) -> (r: Result<SubscriptionStatus, Error>)
        requires
            old(self).wf(),
        ensures
            final(self).wf(),
            !old(self).is_operator(operator@) ==> r == Err::<SubscriptionStatus, Error>(Error::Unauthorized)
                && *final(self) == *old(self),
            old(self).is_operator(operator@) && !old(self).subscriptions@.contains_key(subscription_id@) ==> r == Err::<
                SubscriptionStatus,
                Error,
            >(Error::PaymentNotFound) && *final(self) == *old(self),
            old(self).is_operator(operator@) && old(self).subscriptions@.contains_key(subscription_id@) ==> {
                let s0 = old(self).subscriptions@[subscription_id@];
                let out = charge_outcome(
                    *subscription_id,
                    s0,
                    old(self).plan_of(s0.plan_id@),
                    now,
                    collected,
                    token,
                    old(self).contract_address,
                );
                &&& r == out.2
                &&& final(self).subscriptions@ == old(self).subscriptions@.insert(subscription_id@, out.0)
                &&& final(self).effects@ == old(self).effects@ + out.1
                &&& *final(self) == (RefundManager {
                    subscriptions: final(self).subscriptions,
                    effects: final(self).effects,
                    ..*old(self)
                })
            },
            old(self).is_operator(operator@) && collected && old(self).charge_attempted(subscription_id@, now) ==> {
                let s1 = final(self).subscriptions@[subscription_id@];
                &&& s1.next_retry_at is None
                &&& s1.retry_count == 0
                &&& s1.last_payment_at == Some(now)
                &&& s1.next_payment_at == clamp_u64(now + old(self).subscriptions@[subscription_id@].interval_secs)
            },
    {
        let oracle_role = role_oracle();
        let settle_role = role_settlement_operator();
        if !self.access.has_role(&oracle_role, operator) && !self.access.has_role(&settle_role, operator) {
            return Err(Error::Unauthorized);
        }
        let mut sub = match self.subscriptions.get(subscription_id) {
            Some(s) => s.clone(),
            None => {
                return Err(Error::PaymentNotFound);
            },
        };
        let ghost s0 = *self;
        let ghost sub0 = sub;
        let mut out: Vec<Effect> = Vec::new();
        if sub.status == SubscriptionStatus::Paused {
            if let Some(resume_at) = sub.resume_at {
                if now >= resume_at {
                    sub.status = SubscriptionStatus::Active;
                    sub.resume_at = None;
                    sub.next_payment_at = sat_add_u64(resume_at, sub.interval_secs);
                    out.push(
                        Effect::Emit(
                            Event::SubscriptionResumed { subscription_id: subscription_id.clone(), payer: sub.payer_address.clone() },
                        ),
                    );
                }
            }
        }
        assert(sub == resumed(sub0, now).0);
        let ghost e0 = out@;
        let due = match sub.next_retry_at {
            Some(t) => t,
            None => sub.next_payment_at,
        };
        if sub.status != SubscriptionStatus::Active || now < due {
            let status = sub.status;
            self.subscriptions.set(subscription_id.clone(), sub);
            self.effects.append(&mut out);
            return Ok(status);
        }
        let payer = sub.payer_address.clone();
        let merchant = sub.merchant_id.clone();
        let amount = sub.amount;
        if collected {
            let ghost before_payouts = out@;
            match self.plans.get(&sub.plan_id) {
                Some(plan) => {
                    if plan.payout_splits.len() > 0 {
                        let mut i: usize = 0;
                        while i < plan.payout_splits.len()
                            invariant
                                i <= plan.payout_splits@.len(),
                                out@ == before_payouts + split_transfers(token, s0.contract_address, plan.payout_splits@.take(i as int)),
                                self.contract_address == s0.contract_address,
                            decreases plan.payout_splits.len() - i,
                        {
                            proof {
                                assert(plan.payout_splits@.take(i as int + 1).drop_last() =~= plan.payout_splits@.take(i as int));
                            }
                            let split = &plan.payout_splits[i];
                            out.push(
                                make_transfer(
                                    token.clone(),
                                    self.contract_address.clone(),
                                    split.recipient.clone(),
                                    split.amount,
                                    TransferMode::BestEffort,
                                ),
                            );
                            i = i + 1;
                        }
                        assert(plan.payout_splits@.take(plan.payout_splits@.len() as int) =~= plan.payout_splits@);
                    } else if sub.affiliate.is_some() && sub.affiliate_fee_bps.is_some() {
                        let aff = match &sub.affiliate {
                            Some(a) => a.clone(),
                            None => merchant.clone(),
                        };
                        let bps: u32 = match sub.affiliate_fee_bps {
                            Some(b) => b,
                            None => 0,
                        };
                        let fee = div_trunc(sat_mul(amount, bps as i128), 10_000);
                        let merchant_amount = sat_sub(amount, fee);
                        if fee > 0 {
                            out.push(make_transfer(token.clone(), self.contract_address.clone(), aff, fee, TransferMode::BestEffort));
                        }
                        out.push(
                            make_transfer(token.clone(), self.contract_address.clone(), merchant.clone(), merchant_amount, TransferMode::BestEffort),
                        );
                    } else {
                        out.push(make_transfer(token.clone(), self.contract_address.clone(), merchant.clone(), amount, TransferMode::BestEffort));
                    }
                },
                None => {
                    out.push(make_transfer(token.clone(), self.contract_address.clone(), merchant.clone(), amount, TransferMode::BestEffort));
                },
            }
            proof {
                assert(out@ =~= before_payouts + charge_payouts(sub, s0.plan_of(sub.plan_id@), token, s0.contract_address));
            }
            sub.last_payment_at = Some(now);
            sub.total_payments = sat_add_u32(sub.total_payments, 1);
            sub.retry_count = 0;
            sub.next_retry_at = None;
            sub.next_payment_at = sat_add_u64(now, sub.interval_secs);
            if let Some(max) = sub.max_payments {
                if sub.total_payments >= max {
                    sub.status = SubscriptionStatus::Expired;
                }
            }
            let total = sub.total_payments;
            let status = sub.status;
            self.subscriptions.set(subscription_id.clone(), sub);
            out.push(
                Effect::Emit(
                    Event::SubscriptionCharged {
                        subscription_id: subscription_id.clone(),
                        payer: payer.clone(),
                        merchant,
                        amount,
                        total_payments: total,
                    },
                ),
            );
            if status == SubscriptionStatus::Expired {
                out.push(Effect::Emit(Event::SubscriptionExpired { subscription_id: subscription_id.clone(), payer }));
            }
            let ghost outv = out@;
            self.effects.append(&mut out);
            proof {
                let o = charge_outcome(*subscription_id, sub0, s0.plan_of(sub0.plan_id@), now, collected, token, s0.contract_address);
                assert(outv =~= o.1);
            }
            Ok(status)
        } else {
            sub.retry_count = sat_add_u32(sub.retry_count, 1);
            let retries = sub.retry_count;
            if retries >= SUBSCRIPTION_MAX_RETRIES {
                sub.status = SubscriptionStatus::Cancelled;
                sub.next_retry_at = None;
                self.subscriptions.set(subscription_id.clone(), sub);
                out.push(
                    Effect::Emit(
                        Event::SubscriptionRetriesExhausted {
                            subscription_id: subscription_id.clone(),
                            payer: payer.clone(),
                            retry_count: retries,
                        },
                    ),
                );
                out.push(Effect::Emit(Event::SubscriptionCancelled { subscription: Some(subscription_id.clone()), payer }));
                let ghost outv = out@;
                self.effects.append(&mut out);
                proof {
                    let o = charge_outcome(*subscription_id, sub0, s0.plan_of(sub0.plan_id@), now, collected, token, s0.contract_address);
                    assert(outv =~= o.1);
                }
                Err(Error::SubscriptionRetryExhausted)
            } else {
                let next_retry = sat_add_u64(now, SUBSCRIPTION_RETRY_INTERVAL_SECS);
                sub.next_retry_at = Some(next_retry);
                self.subscriptions.set(subscription_id.clone(), sub);
                out.push(
                    Effect::Emit(
                        Event::SubscriptionPaymentFailed {
                            subscription_id: subscription_id.clone(),
                            payer,
                            retry_count: retries,
                            next_retry,
                        },
                    ),
                );
                let ghost outv = out@;
                self.effects.append(&mut out);
                proof {
                    let o = charge_outcome(*subscription_id, sub0, s0.plan_of(sub0.plan_id@), now, collected, token, s0.contract_address);
                    assert(outv =~= o.1);
                }
                Err(Error::SubscriptionInGracePeriod)
            }
        }
    }

    /// An oracle or settlement operator records metered usage: the subscription's amount
    /// becomes `units_used * unit_price` (saturating), and a charge is attempted at once as by
    /// [`Self::charge_subscription`].
    pub fn submit_usage_metrics(
        &mut self,
        operator: &Address,
        subscription_id: &String,
        units_used: i128,
        unit_price: i128,
        token: Address,
        now: u64,
        collected: bool,
    ) -> (r: Result<SubscriptionStatus, Error>)
        requires
            old(self).wf(),
        ensures
            final(self).wf(),
            !old(self).is_operator(operator@) ==> r == Err::<SubscriptionStatus, Error>(Error::Unauthorized)
                && *final(self) == *old(self),
            old(self).is_operator(operator@) && (units_used <= 0 || unit_price <= 0) ==> r == Err::<
                SubscriptionStatus,
                Error,
            >(Error::InvalidAmount) && *final(self) == *old(self),
            old(self).is_operator(operator@) && units_used > 0 && unit_price > 0 && !old(self).subscriptions@.contains_key(
                subscription_id@,
            ) ==> r == Err::<SubscriptionStatus, Error>(Error::PaymentNotFound) && *final(self) == *old(self),
            old(self).is_operator(operator@) && units_used > 0 && unit_price > 0 && old(self).subscriptions@.contains_key(
                subscription_id@,
            ) ==> {
                let metered = clamp_i128(units_used * unit_price) as i128;
                let s0 = Subscription { amount: metered, ..old(self).subscriptions@[subscription_id@] };
                let out = charge_outcome(
                    *subscription_id,
                    s0,
                    old(self).plan_of(s0.plan_id@),
                    now,
                    collected,
                    token,
                    old(self).contract_address,
                );
                &&& r == out.2
                &&& final(self).subscriptions@ == old(self).subscriptions@.insert(subscription_id@, out.0)
                &&& final(self).effects@ == old(self).effects@.push(
                    Effect::Emit(
                        Event::UsageRecorded { subscription_id: *subscription_id, units_used, unit_price, metered_amount: metered },
                    ),
                ) + out.1
                &&& *final(self) == (RefundManager {
                    subscriptions: final(self).subscriptions,
                    effects: final(self).effects,
                    ..*old(self)
                })
            },
    {
        let oracle_role = role_oracle();
        let settle_role = role_settlement_operator();
        if !self.access.has_role(&oracle_role, operator) && !self.access.has_role(&settle_role, operator) {
            return Err(Error::Unauthorized);
        }
        if units_used <= 0 || unit_price <= 0 {
            return Err(Error::InvalidAmount);
        }
        let sub = match self.subscriptions.get(subscription_id) {
            Some(s) => s.clone(),
            None => {
                return Err(Error::PaymentNotFound);
            },
        };
        let metered_amount = sat_mul(units_used, unit_price);
        self.subscriptions.set(subscription_id.clone(), Subscription { amount: metered_amount, ..sub });
        self.effects.push(
            Effect::Emit(
                Event::UsageRecorded {
                    subscription_id: subscription_id.clone(),
                    units_used,
                    unit_price,
                    metered_amount,
                },
            ),
        );
        self.charge_subscription(operator, subscription_id, token, now, collected)
    }
}

} // verus!
