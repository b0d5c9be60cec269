use vstd::prelude::*;

use crate::access_control::{role_oracle, role_settlement_operator};
use crate::effects::{Effect, Event, TransferMode};
use crate::ledger::{lemma_sum_le, lemma_sum_prefix, lemma_sum_push, nonneg_on, sum_over};
use crate::merchant_registry::Merchant;
use crate::payment_processor::list_or_empty;
use crate::refund_manager::{
    dispute_contrib, dispute_prefix, dispute_sum, dispute_term, lemma_refund_sum_le, payout_effects,
    payout_tail, refund_contrib, refund_fee, refund_fee_bps, refund_prefix, RefundManager,
};
use crate::types::{Dispute, DisputeOperatorNote, DisputeStatus, Error, Refund, RefundStatus};
use crate::util::{format_id, lemma_format_id_unique_and_readable, spec_format_id};
use crate::Address;

verus! {

/// The dispute terms of a consistent store are never negative.
pub proof fn lemma_dispute_terms_nonneg(disputes: Map<Seq<char>, Dispute>, ids: Seq<String>)
    requires
        forall|k: Seq<char>| #[trigger] disputes.contains_key(k) ==> disputes[k].amount > 0,
    ensures
        nonneg_on(ids, dispute_term(disputes)),
{
    assert forall|j: int| 0 <= j < ids.len() implies dispute_term(disputes)((#[trigger] ids[j])@) >= 0 by {
        if disputes.contains_key(ids[j]@) {
            assert(disputes[ids[j]@].amount > 0);
        }
    }
}

/// Disputed totals compare as the disputes' contributions do.
pub proof fn lemma_dispute_sum_le(m1: Map<Seq<char>, Dispute>, m2: Map<Seq<char>, Dispute>, ids: Seq<String>)
    requires
        forall|j: int| 0 <= j < ids.len() ==> dispute_contrib(m1, (#[trigger] ids[j])@) <= dispute_contrib(m2, ids[j]@),
    ensures
        dispute_sum(m1, ids) <= dispute_sum(m2, ids),
{
    assert forall|j: int| 0 <= j < ids.len() implies dispute_term(m1)((#[trigger] ids[j])@) <= dispute_term(m2)(ids[j]@) by {
        assert(dispute_contrib(m1, ids[j]@) <= dispute_contrib(m2, ids[j]@));
    }
    lemma_sum_le(ids, dispute_term(m1), dispute_term(m2));
}

/// The records stored under the ids of a list, in its order (ids with no record are skipped).
pub open spec fn dispute_records(disputes: Map<Seq<char>, Dispute>, ids: Seq<String>) -> Seq<Dispute>
    decreases ids.len(),
{
    if ids.len() == 0 {
        Seq::empty()
    } else {
        let init = dispute_records(disputes, ids.drop_last());
        if disputes.contains_key(ids.last()@) {
            init.push(disputes[ids.last()@])
        } else {
            init
        }
    }
}

/// Whether a dispute is finished (resolved or rejected).
pub open spec fn is_closed(status: DisputeStatus) -> bool {
    status == DisputeStatus::Resolved || status == DisputeStatus::Rejected
}

/// The operator note recorded when a dispute is settled.
pub open spec fn note_of(dispute_id: String, operator: Address, notes: String, signature: String, now: u64) -> DisputeOperatorNote {
    DisputeOperatorNote {
        dispute_id,
        operator,
        resolution_notes: notes,
        operator_signature: signature,
        recorded_at: now,
    }
}

/// The event carrying an operator note in full.
pub open spec fn note_event(dispute_id: String, operator: Address, notes: String, signature: String) -> Effect {
    Effect::Emit(
        Event::DisputeOperatorNote {
            dispute_id,
            operator,
            resolution_notes: notes,
            operator_signature: signature,
        },
    )
}

impl RefundManager {
    /// Why a dispute of `amount` against `payment_id` is refused, if it is: the amount must be
    /// positive and at most the payment's, the payment confirmed, and the disputed and refunded
    /// totals together may not pass the payment's amount.
    pub open spec fn dispute_error(&self, payment_id: Seq<char>, amount: i128) -> Option<Error> {
        if amount <= 0 {
            Some(Error::InvalidAmount)
        } else if !self.payments@.contains_key(payment_id) {
            Some(Error::PaymentNotFound)
        } else if self.payments@[payment_id].status != crate::types::PaymentStatus::Confirmed {
            Some(Error::PaymentAlreadyProcessed)
        } else if amount > self.payments@[payment_id].amount {
            Some(Error::InvalidAmount)
        } else if self.dispute_total(payment_id) + self.refund_total(payment_id) + amount > self.payments@[payment_id].amount {
            Some(Error::RefundExceedsPayment)
        } else {
            None
        }
    }

    /// Whether a dispute stays within machine limits: the totals plus the amount fit in an
    /// `i128`, and the dispute counter can advance.
    pub open spec fn dispute_fits(&self, payment_id: Seq<char>, amount: i128) -> bool {
        &&& (amount > 0 && self.payments@.contains_key(payment_id) && self.payments@[payment_id].status
            == crate::types::PaymentStatus::Confirmed && amount <= self.payments@[payment_id].amount
            ==> self.dispute_total(payment_id) + self.refund_total(payment_id) + amount <= i128::MAX)
        &&& (self.dispute_error(payment_id, amount) is None ==> self.dispute_counter < u64::MAX)
    }

    /// The disputed total of a recorded payment.
    fn disputed_total(&self, payment_id: &String) -> (t: i128)
        requires
            self.wf(),
            self.payments@.contains_key(payment_id@),
        ensures
            t == self.dispute_total(payment_id@),
    {
        let ids = match self.payment_disputes.get(payment_id) {
            Some(l) => l,
            None => {
                return 0;
            },
        };
        let ghost m = self.disputes@;
        proof {
            lemma_dispute_terms_nonneg(m, ids@);
        }
        let mut total: i128 = 0;
        let mut i: usize = 0;
        while i < ids.len()
            invariant
                self.wf(),
                self.payments@.contains_key(payment_id@),
                m == self.disputes@,
                ids@ == list_or_empty(self.payment_disputes@, payment_id@),
                nonneg_on(ids@, dispute_term(m)),
                i <= ids@.len(),
                total == sum_over(ids@.take(i as int), dispute_term(m)),
            decreases ids.len() - i,
        {
            proof {
                lemma_sum_prefix(ids@, dispute_term(m), i as int + 1);
                assert(ids@.take(i as int + 1).drop_last() =~= ids@.take(i as int));
                assert(ids@.take(i as int + 1).last() == ids@[i as int]);
            }
            match self.disputes.get(&ids[i]) {
                Some(d) => {
                    if d.status != DisputeStatus::Rejected {
                        total = total + d.amount;
                    }
                },
                None => {},
            }
            i = i + 1;
        }
        assert(ids@.take(ids@.len() as int) =~= ids@);
        total
    }

    /// Replacing a dispute record by one of the same payment and amount that counts no more
    /// toward its payment keeps the invariant.
    pub proof fn lemma_dispute_replaced(&self, new: &Self, k: Seq<char>, v: Dispute)
        requires
            self.wf(),
            self.disputes@.contains_key(k),
            new.disputes.wf(),
            new.disputes@ == self.disputes@.insert(k, v),
            v.amount == self.disputes@[k].amount,
            v.payment_id == self.disputes@[k].payment_id,
            dispute_contrib(new.disputes@, k) <= dispute_contrib(self.disputes@, k),
            *new == (RefundManager { disputes: new.disputes, effects: new.effects, ..*self }),
        ensures
            new.wf(),
    {
        let m0 = self.disputes@;
        let m1 = new.disputes@;
        assert forall|kk: Seq<char>| #[trigger] new.disputes@.contains_key(kk) implies new.disputes@[kk].amount > 0
            && new.payments@.contains_key(new.disputes@[kk].payment_id@)
            && exists|n: nat| 1 <= n <= new.dispute_counter && kk == #[trigger] spec_format_id(dispute_prefix(), n) by {
            assert(m0.contains_key(kk));
            let n = choose|n: nat| 1 <= n <= self.dispute_counter && kk == #[trigger] spec_format_id(dispute_prefix(), n);
            assert(kk == spec_format_id(dispute_prefix(), n));
        }
        assert forall|q: Seq<char>, i: int|
            #![trigger new.payment_disputes@[q]@[i]]
            new.payment_disputes@.contains_key(q) && 0 <= i < new.payment_disputes@[q]@.len()
                implies new.disputes@.contains_key(new.payment_disputes@[q]@[i]@)
                && new.disputes@[new.payment_disputes@[q]@[i]@].payment_id@ == q by {
            assert(self.disputes@.contains_key(self.payment_disputes@[q]@[i]@));
        }
        assert forall|q: Seq<char>| #[trigger] new.payments@.contains_key(q) implies {
            &&& (new.refund_total(q) == 0 || new.refund_total(q) <= new.payments@[q].amount)
            &&& (new.dispute_total(q) == 0 || new.dispute_total(q) <= new.payments@[q].amount)
        } by {
            let l = list_or_empty(self.payment_disputes@, q);
            lemma_dispute_sum_le(m1, m0, l);
            lemma_dispute_terms_nonneg(m1, l);
            lemma_sum_prefix(l, dispute_term(m1), l.len() as int);
            assert(l.take(l.len() as int) =~= l);
        }
    }

    /// A payment's disputed total is never negative.
    pub proof fn lemma_dispute_total_nonneg(&self, payment_id: Seq<char>)
        requires
            self.wf(),
        ensures
            self.dispute_total(payment_id) >= 0,
    {
        let l = list_or_empty(self.payment_disputes@, payment_id);
        lemma_dispute_terms_nonneg(self.disputes@, l);
        lemma_sum_prefix(l, dispute_term(self.disputes@), l.len() as int);
        assert(l.take(l.len() as int) =~= l);
    }

    /// `disputer` challenges `amount` of a confirmed payment. The dispute starts open; its id is
    /// `dispute_` followed by the dispute counter.
    pub fn create_dispute(
        &mut self,
        payment_id: String,
        amount: i128,
        reason: String,
        evidence: String,
        disputer: Address,
        now: u64,
    ) -> (r: Result<String, Error>)
        requires
            old(self).wf(),
            old(self).dispute_fits(payment_id@, amount),
        ensures
            final(self).wf(),
            match old(self).dispute_error(payment_id@, amount) {
                Some(e) => r == Err::<String, Error>(e) && *final(self) == *old(self),
                None => {
                    let id = r->Ok_0;
                    let p = payment_id@;
                    &&& r is Ok
                    &&& id@ == spec_format_id(dispute_prefix(), (old(self).dispute_counter + 1) as nat)
                    &&& final(self).dispute_counter == old(self).dispute_counter + 1
                    &&& final(self).disputes@ == old(self).disputes@.insert(
                        id@,
                        Dispute {
                            dispute_id: id,
                            payment_id,
                            refund_id: None,
                            amount,
                            reason,
                            evidence,
                            status: DisputeStatus::Open,
                            disputer,
                            created_at: now,
                            resolved_at: None,
                            resolution_notes: None,
                            review_deadline: None,
                            escalated: false,
                        },
                    )
                    &&& final(self).payment_disputes@.dom() == old(self).payment_disputes@.dom().insert(p)
                    &&& final(self).payment_disputes@[p]@ == list_or_empty(old(self).payment_disputes@, p).push(id)
                    &&& forall|k: Seq<char>|
                        k != p && #[trigger] old(self).payment_disputes@.contains_key(k) ==> final(self).payment_disputes@[k]
                            == old(self).payment_disputes@[k]
                    &&& final(self).effects@ == old(self).effects@.push(
                        Effect::Emit(Event::DisputeCreated { dispute_id: id, payment_id }),
                    )
                    &&& *final(self) == (RefundManager {
                        disputes: final(self).disputes,
                        payment_disputes: final(self).payment_disputes,
                        dispute_counter: final(self).dispute_counter,
                        effects: final(self).effects,
                        ..*old(self)
                    })
                },
            },
    {
        if amount <= 0 {
            return Err(Error::InvalidAmount);
        }
        let payment_amount = match self.payments.get(&payment_id) {
            Some(p) => {
                if p.status != crate::types::PaymentStatus::Confirmed {
                    return Err(Error::PaymentAlreadyProcessed);
                }
                p.amount
            },
            None => {
                return Err(Error::PaymentNotFound);
            },
        };
        if amount > payment_amount {
            return Err(Error::InvalidAmount);
        }
        let total_disputed = self.disputed_total(&payment_id);
        let total_refunded = self.refunded_total(&payment_id);
        proof {
            self.lemma_refund_total_nonneg(payment_id@);
            self.lemma_dispute_total_nonneg(payment_id@);
        }
        if total_disputed + total_refunded + amount > payment_amount {
            return Err(Error::RefundExceedsPayment);
        }
        let ghost old_self = *self;
        let counter = self.dispute_counter + 1;
        self.dispute_counter = counter;
        let dispute_id = format_id("dispute_", counter);
        proof {
            reveal_strlit("dispute_");
            if old_self.disputes@.contains_key(dispute_id@) {
                let n = choose|n: nat| 1 <= n <= old_self.dispute_counter && dispute_id@ == #[trigger] spec_format_id(dispute_prefix(), n);
                lemma_format_id_unique_and_readable(dispute_prefix(), n, counter as nat);
            }
        }
        let dispute = Dispute {
            dispute_id: dispute_id.clone(),
            payment_id: payment_id.clone(),
            refund_id: None,
            amount,
            reason,
            evidence,
            status: DisputeStatus::Open,
            disputer,
            created_at: now,
            resolved_at: None,
            resolution_notes: None,
            review_deadline: None,
            escalated: false,
        };
        self.disputes.set(dispute_id.clone(), dispute);
        let mut list = match self.payment_disputes.take(&payment_id) {
            Some(l) => l,
            None => Vec::new(),
        };
        list.push(dispute_id.clone());
        self.payment_disputes.set(payment_id.clone(), list);
        self.effects.push(Effect::Emit(Event::DisputeCreated { dispute_id: dispute_id.clone(), payment_id: payment_id.clone() }));
        proof {
            let p = payment_id@;
            let id = dispute_id@;
            let m0 = old_self.disputes@;
            let m1 = self.disputes@;
            assert(self.payment_disputes@.dom() =~= old_self.payment_disputes@.dom().insert(p));
            assert forall|k: Seq<char>| #[trigger] self.disputes@.contains_key(k) implies self.disputes@[k].amount > 0
                && self.payments@.contains_key(self.disputes@[k].payment_id@)
                && exists|n: nat| 1 <= n <= self.dispute_counter && k == #[trigger] spec_format_id(dispute_prefix(), n) by {
                if k == id {
                    assert(k == spec_format_id(dispute_prefix(), counter as nat));
                } else {
                    assert(m0.contains_key(k));
                    let n = choose|n: nat| 1 <= n <= old_self.dispute_counter && k == #[trigger] spec_format_id(dispute_prefix(), n);
                    assert(k == spec_format_id(dispute_prefix(), n));
                }
            }
            assert forall|q: Seq<char>, i: int|
                #![trigger self.payment_disputes@[q]@[i]]
                self.payment_disputes@.contains_key(q) && 0 <= i < self.payment_disputes@[q]@.len()
                    implies self.disputes@.contains_key(self.payment_disputes@[q]@[i]@)
                    && self.disputes@[self.payment_disputes@[q]@[i]@].payment_id@ == q by {
                if q == p {
                    let old_list = list_or_empty(old_self.payment_disputes@, p);
                    if i < old_list.len() {
                        assert(self.payment_disputes@[q]@[i] == old_self.payment_disputes@[q]@[i]);
                        assert(old_self.disputes@.contains_key(old_self.payment_disputes@[q]@[i]@));
                    }
                } else {
                    assert(old_self.payment_disputes@.contains_key(q));
                    assert(old_self.disputes@.contains_key(old_self.payment_disputes@[q]@[i]@));
                }
            }
            assert forall|q: Seq<char>| #[trigger] self.payments@.contains_key(q) implies {
                &&& (self.refund_total(q) == 0 || self.refund_total(q) <= self.payments@[q].amount)
                &&& (self.dispute_total(q) == 0 || self.dispute_total(q) <= self.payments@[q].amount)
            } by {
                let old_list = list_or_empty(old_self.payment_disputes@, q);
                assert forall|j: int| 0 <= j < old_list.len() implies dispute_contrib(m0, (#[trigger] old_list[j])@)
                    == dispute_contrib(m1, old_list[j]@) by {
                    assert(old_self.payment_disputes@.contains_key(q));
                    assert(old_self.disputes@.contains_key(old_self.payment_disputes@[q]@[j]@));
                }
                lemma_dispute_sum_le(m0, m1, old_list);
                lemma_dispute_sum_le(m1, m0, old_list);
                if q == p {
                    assert(list_or_empty(self.payment_disputes@, q) == old_list.push(dispute_id));
                    lemma_sum_push(old_list, dispute_id, dispute_term(m1));
                    old_self.lemma_refund_total_nonneg(q);
                } else {
                    assert(list_or_empty(self.payment_disputes@, q) == old_list);
                }
            }
        }
        Ok(dispute_id)
    }

    /// A settlement operator or oracle starts reviewing an open dispute.
    pub fn review_dispute(&mut self, operator: &Address, dispute_id: &String) -> (r: Result<(), Error>)
        requires
            old(self).wf(),
        ensures
            final(self).wf(),
            !old(self).is_operator(operator@) ==> r == Err::<(), Error>(Error::Unauthorized) && *final(self) == *old(self),
            old(self).is_operator(operator@) && !old(self).disputes@.contains_key(dispute_id@) ==> r == Err::<(), Error>(
                Error::DisputeNotFound,
            ) && *final(self) == *old(self),
            old(self).is_operator(operator@) && old(self).disputes@.contains_key(dispute_id@) ==> {
                let d = old(self).disputes@[dispute_id@];
                if d.status != DisputeStatus::Open {
                    r == Err::<(), Error>(Error::DisputeAlreadyResolved) && *final(self) == *old(self)
                } else {
                    &&& r is Ok
                    &&& final(self).disputes@ == old(self).disputes@.insert(
                        dispute_id@,
                        Dispute { status: DisputeStatus::UnderReview, ..d },
                    )
                    &&& final(self).effects@ == old(self).effects@.push(
                        Effect::Emit(Event::DisputeReviewed { dispute_id: *dispute_id, payment_id: d.payment_id }),
                    )
                    &&& *final(self) == (RefundManager { disputes: final(self).disputes, effects: final(self).effects, ..*old(self) })
                }
            },
    {
        let settle_role = role_settlement_operator();
        let oracle_role = role_oracle();
        if !self.access.has_role(&settle_role, operator) && !self.access.has_role(&oracle_role, operator) {
            return Err(Error::Unauthorized);
        }
        let dispute = match self.disputes.get(dispute_id) {
            Some(d) => d.clone(),
            None => {
                return Err(Error::DisputeNotFound);
            },
        };
        if dispute.status != DisputeStatus::Open {
            return Err(Error::DisputeAlreadyResolved);
        }
        let ghost old_self = *self;
        let updated = Dispute { status: DisputeStatus::UnderReview, ..dispute.clone() };
        self.disputes.set(dispute_id.clone(), updated);
        self.effects.push(Effect::Emit(Event::DisputeReviewed { dispute_id: dispute_id.clone(), payment_id: dispute.payment_id }));
        proof {
            old_self.lemma_dispute_replaced(&*self, dispute_id@, updated);
        }
        Ok(())
    }

    /// A settlement operator or oracle sets the review deadline of an unfinished dispute. A
    /// deadline already past escalates the dispute (once).
    pub fn set_dispute_deadline(&mut self, operator: &Address, dispute_id: &String, deadline: u64, now: u64) -> (r: Result<(), Error>)
        requires
            old(self).wf(),
        ensures
            final(self).wf(),
            !old(self).is_operator(operator@) ==> r == Err::<(), Error>(Error::Unauthorized) && *final(self) == *old(self),
            old(self).is_operator(operator@) && !old(self).disputes@.contains_key(dispute_id@) ==> r == Err::<(), Error>(
                Error::DisputeNotFound,
            ) && *final(self) == *old(self),
            old(self).is_operator(operator@) && old(self).disputes@.contains_key(dispute_id@) ==> {
                let d = old(self).disputes@[dispute_id@];
                let escalate = now > deadline && !d.escalated;
                let deadline_set = Effect::Emit(Event::DisputeDeadlineSet { payment_id: d.payment_id, dispute_id: *dispute_id, deadline });
                if is_closed(d.status) {
                    r == Err::<(), Error>(Error::DisputeAlreadyResolved) && *final(self) == *old(self)
                } else {
                    &&& r is Ok
                    &&& final(self).disputes@ == old(self).disputes@.insert(
                        dispute_id@,
                        Dispute { review_deadline: Some(deadline), escalated: d.escalated || escalate, ..d },
                    )
                    &&& final(self).effects@ == (if escalate {
                        old(self).effects@.push(
                            Effect::Emit(Event::DisputeEscalated { payment_id: d.payment_id, dispute_id: *dispute_id, amount: d.amount }),
                        ).push(deadline_set)
                    } else {
                        old(self).effects@.push(deadline_set)
                    })
                    &&& *final(self) == (RefundManager { disputes: final(self).disputes, effects: final(self).effects, ..*old(self) })
                }
            },
    {
        let settle_role = role_settlement_operator();
        let oracle_role = role_oracle();
        if !self.access.has_role(&settle_role, operator) && !self.access.has_role(&oracle_role, operator) {
            return Err(Error::Unauthorized);
        }
        let dispute = match self.disputes.get(dispute_id) {
            Some(d) => d.clone(),
            None => {
                return Err(Error::DisputeNotFound);
            },
        };
        if dispute.status == DisputeStatus::Resolved || dispute.status == DisputeStatus::Rejected {
            return Err(Error::DisputeAlreadyResolved);
        }
        let ghost old_self = *self;
        let escalate = now > deadline && !dispute.escalated;
        let updated = Dispute { review_deadline: Some(deadline), escalated: dispute.escalated || escalate, ..dispute.clone() };
        self.disputes.set(dispute_id.clone(), updated);
        if escalate {
            self.effects.push(
                Effect::Emit(Event::DisputeEscalated { payment_id: dispute.payment_id.clone(), dispute_id: dispute_id.clone(), amount: dispute.amount }),
            );
        }
        self.effects.push(
            Effect::Emit(Event::DisputeDeadlineSet { payment_id: dispute.payment_id, dispute_id: dispute_id.clone(), deadline }),
        );
        proof {
            old_self.lemma_dispute_replaced(&*self, dispute_id@, updated);
        }
        Ok(())
    }
}

impl RefundManager {
    /// Whether resolving the dispute `dispute_id` with a refund stays within machine limits:
    /// the refund fits (see [`RefundManager::refund_fits`]) and so does its fee.
    pub open spec fn resolve_fits(&self, dispute_id: Seq<char>, merchant: Option<Merchant>) -> bool {
        self.disputes@.contains_key(dispute_id) && !is_closed(self.disputes@[dispute_id].status) ==> {
            let d = self.disputes@[dispute_id];
            &&& self.refund_fits(d.payment_id@, d.amount)
            &&& (self.refund_error(d.payment_id@, d.amount) is None && self.usdc_token is Some
                ==> d.amount * refund_fee_bps(self.merchant_registry is Some, merchant) <= i128::MAX)
        }
    }

    /// Why settling the dispute `dispute_id` is refused, if it is, before any refund is made.
    pub open spec fn settle_error(&self, operator: Seq<char>, dispute_id: Seq<char>) -> Option<Error> {
        if !self.is_operator(operator) {
            Some(Error::Unauthorized)
        } else if !self.disputes@.contains_key(dispute_id) {
            Some(Error::DisputeNotFound)
        } else if is_closed(self.disputes@[dispute_id].status) {
            Some(Error::DisputeAlreadyResolved)
        } else {
            None
        }
    }

    /// A settlement operator or oracle resolves an unfinished dispute in the disputer's favour:
    /// a refund of the disputed amount is created and processed at once, the operator's note is
    /// kept, and the dispute is marked resolved with that refund.
    ///
    /// `merchant` is the registry's answer for the payment's merchant, as in
    /// [`RefundManager::process_refund`].
    pub fn resolve_dispute_with_refund(
        &mut self,
        operator: &Address,
        dispute_id: &String,
        resolution_notes: String,
        operator_signature: String,
        now: u64,
        merchant: &Option<Merchant>,
    ) -> (r: Result<String, Error>)
        requires
            old(self).wf(),
            old(self).resolve_fits(dispute_id@, *merchant),
        ensures
            final(self).wf(),
            match old(self).settle_error(operator@, dispute_id@) {
                Some(e) => r == Err::<String, Error>(e) && *final(self) == *old(self),
                None => {
                    let d = old(self).disputes@[dispute_id@];
                    let p = d.payment_id@;
                    match old(self).refund_error(p, d.amount) {
                        Some(e) => r == Err::<String, Error>(e) && *final(self) == *old(self),
                        None => if old(self).usdc_token is None {
                            r == Err::<String, Error>(Error::Unauthorized) && *final(self) == *old(self)
                        } else {
                            let id = r->Ok_0;
                            let fee = refund_fee(d.amount, refund_fee_bps(old(self).merchant_registry is Some, *merchant));
                            let admin = old(self).access.admin_address();
                            let rf = final(self).refunds@[id@];
                            &&& r is Ok
                            &&& id@ == spec_format_id(refund_prefix(), (old(self).refund_counter + 1) as nat)
                            &&& final(self).refund_counter == old(self).refund_counter + 1
                            &&& final(self).refunds@ == old(self).refunds@.insert(id@, rf)
                            &&& rf == (Refund {
                                refund_id: id,
                                payment_id: d.payment_id,
                                amount: d.amount,
                                reason: rf.reason,
                                status: RefundStatus::Completed,
                                requester: d.disputer,
                                created_at: now,
                                processed_at: Some(now),
                            })
                            &&& rf.reason@ == "Refund issued due to dispute resolution"@
                            &&& final(self).payment_refunds@.dom() == old(self).payment_refunds@.dom().insert(p)
                            &&& final(self).payment_refunds@[p]@ == list_or_empty(old(self).payment_refunds@, p).push(id)
                            &&& forall|k: Seq<char>|
                                k != p && #[trigger] old(self).payment_refunds@.contains_key(k) ==> final(self).payment_refunds@[k]
                                    == old(self).payment_refunds@[k]
                            &&& final(self).operator_notes@ == old(self).operator_notes@.insert(
                                dispute_id@,
                                note_of(*dispute_id, *operator, resolution_notes, operator_signature, now),
                            )
                            &&& final(self).disputes@ == old(self).disputes@.insert(
                                dispute_id@,
                                Dispute {
                                    status: DisputeStatus::Resolved,
                                    refund_id: Some(id),
                                    resolved_at: Some(now),
                                    resolution_notes: Some(resolution_notes),
                                    ..d
                                },
                            )
                            &&& final(self).effects@ == old(self).effects@.push(
                                Effect::Emit(Event::RefundCreated { payment_id: d.payment_id, refund_id: id, amount: d.amount }),
                            ) + payout_effects(
                                old(self).usdc_token->Some_0,
                                old(self).contract_address,
                                d.disputer,
                                d.amount,
                                fee,
                                admin,
                                TransferMode::SkipOnFailure(payout_tail(fee, admin)),
                                Effect::Emit(Event::RefundCompleted { payment_id: d.payment_id, refund_id: id, amount: d.amount }),
                            ) + seq![
                                note_event(*dispute_id, *operator, resolution_notes, operator_signature),
                                Effect::Emit(Event::DisputeResolved { dispute_id: *dispute_id, payment_id: d.payment_id }),
                            ]
                            &&& *final(self) == (RefundManager {
                                refunds: final(self).refunds,
                                payment_refunds: final(self).payment_refunds,
                                refund_counter: final(self).refund_counter,
                                operator_notes: final(self).operator_notes,
                                disputes: final(self).disputes,
                                effects: final(self).effects,
                                ..*old(self)
                            })
                        },
                    }
                },
            },
    {
        let settle_role = role_settlement_operator();
        let oracle_role = role_oracle();
        if !self.access.has_role(&settle_role, operator) && !self.access.has_role(&oracle_role, operator) {
            return Err(Error::Unauthorized);
        }
        let dispute = match self.disputes.get(dispute_id) {
            Some(d) => d.clone(),
            None => {
                return Err(Error::DisputeNotFound);
            },
        };
        if dispute.status == DisputeStatus::Resolved || dispute.status == DisputeStatus::Rejected {
            return Err(Error::DisputeAlreadyResolved);
        }
        self.check_refund_request(&dispute.payment_id, dispute.amount)?;
        if self.usdc_token.is_none() {
            return Err(Error::Unauthorized);
        }
        let ghost s0 = *self;
        let reason = String::from_str("Refund issued due to dispute resolution");
        proof {
            reveal_strlit("Refund issued due to dispute resolution");
        }
        let refund_id = self.create_refund_internal(dispute.payment_id.clone(), dispute.amount, reason, dispute.disputer.clone(), now)?;
        let ghost s1 = *self;
        self.process_refund_internal(&refund_id, now, merchant)?;
        let ghost s2 = *self;
        let note = DisputeOperatorNote {
            dispute_id: dispute_id.clone(),
            operator: operator.clone(),
            resolution_notes: resolution_notes.clone(),
            operator_signature: operator_signature.clone(),
            recorded_at: now,
        };
        self.operator_notes.set(dispute_id.clone(), note);
        self.effects.push(
            Effect::Emit(
                Event::DisputeOperatorNote {
                    dispute_id: dispute_id.clone(),
                    operator: operator.clone(),
                    resolution_notes: resolution_notes.clone(),
                    operator_signature,
                },
            ),
        );
        let ghost s3 = *self;
        let updated = Dispute {
            status: DisputeStatus::Resolved,
            refund_id: Some(refund_id.clone()),
            resolved_at: Some(now),
            resolution_notes: Some(resolution_notes),
            ..dispute.clone()
        };
        self.disputes.set(dispute_id.clone(), updated);
        self.effects.push(Effect::Emit(Event::DisputeResolved { dispute_id: dispute_id.clone(), payment_id: dispute.payment_id }));
        proof {
            assert(s3.wf());
            s3.lemma_dispute_replaced(&*self, dispute_id@, updated);
            assert(self.effects@ =~= s0.effects@.push(
                Effect::Emit(Event::RefundCreated { payment_id: dispute.payment_id, refund_id, amount: dispute.amount }),
            ) + payout_effects(
                s0.usdc_token->Some_0,
                s0.contract_address,
                dispute.disputer,
                dispute.amount,
                refund_fee(dispute.amount, refund_fee_bps(s0.merchant_registry is Some, *merchant)),
                s0.access.admin_address(),
                TransferMode::SkipOnFailure(payout_tail(
                    refund_fee(dispute.amount, refund_fee_bps(s0.merchant_registry is Some, *merchant)),
                    s0.access.admin_address(),
                )),
                Effect::Emit(Event::RefundCompleted { payment_id: dispute.payment_id, refund_id, amount: dispute.amount }),
            ) + seq![
                note_event(*dispute_id, *operator, resolution_notes, operator_signature),
                Effect::Emit(Event::DisputeResolved { dispute_id: *dispute_id, payment_id: dispute.payment_id }),
            ]);
            assert(self.refunds@ =~= s0.refunds@.insert(refund_id@, self.refunds@[refund_id@]));
        }
        Ok(refund_id)
    }

    /// A settlement operator or oracle rejects an unfinished dispute; the operator's note is
    /// kept and the dispute no longer counts toward its payment's disputed total.
    pub fn reject_dispute(
        &mut self,
        operator: &Address,
        dispute_id: &String,
        resolution_notes: String,
        operator_signature: String,
        now: u64,
    ) -> (r: Result<(), Error>)
        requires
            old(self).wf(),
        ensures
            final(self).wf(),
            match old(self).settle_error(operator@, dispute_id@) {
                Some(e) => r == Err::<(), Error>(e) && *final(self) == *old(self),
                None => {
                    let d = old(self).disputes@[dispute_id@];
                    &&& r is Ok
                    &&& final(self).operator_notes@ == old(self).operator_notes@.insert(
                        dispute_id@,
                        note_of(*dispute_id, *operator, resolution_notes, operator_signature, now),
                    )
                    &&& final(self).disputes@ == old(self).disputes@.insert(
                        dispute_id@,
                        Dispute {
                            status: DisputeStatus::Rejected,
                            resolved_at: Some(now),
                            resolution_notes: Some(resolution_notes),
                            ..d
                        },
                    )
                    &&& final(self).effects@ == old(self).effects@ + seq![
                        note_event(*dispute_id, *operator, resolution_notes, operator_signature),
                        Effect::Emit(Event::DisputeRejected { dispute_id: *dispute_id, payment_id: d.payment_id }),
                    ]
                    &&& *final(self) == (RefundManager {
                        operator_notes: final(self).operator_notes,
                        disputes: final(self).disputes,
                        effects: final(self).effects,
                        ..*old(self)
                    })
                },
            },
    {
        let settle_role = role_settlement_operator();
        let oracle_role = role_oracle();
        if !self.access.has_role(&settle_role, operator) && !self.access.has_role(&oracle_role, operator) {
            return Err(Error::Unauthorized);
        }
        let dispute = match self.disputes.get(dispute_id) {
            Some(d) => d.clone(),
            None => {
                return Err(Error::DisputeNotFound);
            },
        };
        if dispute.status == DisputeStatus::Resolved || dispute.status == DisputeStatus::Rejected {
            return Err(Error::DisputeAlreadyResolved);
        }
        let ghost s0 = *self;
        let note = DisputeOperatorNote {
            dispute_id: dispute_id.clone(),
            operator: operator.clone(),
            resolution_notes: resolution_notes.clone(),
            operator_signature: operator_signature.clone(),
            recorded_at: now,
        };
        self.operator_notes.set(dispute_id.clone(), note);
        self.effects.push(
            Effect::Emit(
                Event::DisputeOperatorNote {
                    dispute_id: dispute_id.clone(),
                    operator: operator.clone(),
                    resolution_notes: resolution_notes.clone(),
                    operator_signature,
                },
            ),
        );
        let ghost s1 = *self;
        let updated = Dispute {
            status: DisputeStatus::Rejected,
            resolved_at: Some(now),
            resolution_notes: Some(resolution_notes),
            ..dispute.clone()
        };
        self.disputes.set(dispute_id.clone(), updated);
        self.effects.push(Effect::Emit(Event::DisputeRejected { dispute_id: dispute_id.clone(), payment_id: dispute.payment_id }));
        proof {
            assert(s1.wf());
            s1.lemma_dispute_replaced(&*self, dispute_id@, updated);
            assert(self.effects@ =~= s0.effects@ + seq![
                note_event(*dispute_id, *operator, resolution_notes, operator_signature),
                Effect::Emit(Event::DisputeRejected { dispute_id: *dispute_id, payment_id: dispute.payment_id }),
            ]);
        }
        Ok(())
    }

    /// The operator note kept for a dispute.
    pub fn get_dispute_operator_note(&self, dispute_id: &String) -> (r: Result<DisputeOperatorNote, Error>)
        requires
            self.wf(),
        ensures
            self.operator_notes@.contains_key(dispute_id@) ==> r == Ok::<DisputeOperatorNote, Error>(
                self.operator_notes@[dispute_id@],
            ),
            !self.operator_notes@.contains_key(dispute_id@) ==> r == Err::<DisputeOperatorNote, Error>(
                Error::DisputeNotFound,
            ),
    {
        match self.operator_notes.get(dispute_id) {
            Some(n) => Ok(n.clone()),
            None => Err(Error::DisputeNotFound),
        }
    }

    /// The dispute stored under `dispute_id`. Reading an unfinished dispute whose review
    /// deadline has passed escalates it (once).
    pub fn get_dispute(&mut self, dispute_id: &String, now: u64) -> (r: Result<Dispute, Error>)
        requires
            old(self).wf(),
        ensures
            final(self).wf(),
            !old(self).disputes@.contains_key(dispute_id@) ==> r == Err::<Dispute, Error>(Error::DisputeNotFound)
                && *final(self) == *old(self),
            old(self).disputes@.contains_key(dispute_id@) ==> {
                let d = old(self).disputes@[dispute_id@];
                let escalate = d.review_deadline matches Some(dl) && now > dl && !d.escalated && !is_closed(d.status);
                if escalate {
                    &&& r == Ok::<Dispute, Error>(Dispute { escalated: true, ..d })
                    &&& final(self).disputes@ == old(self).disputes@.insert(dispute_id@, Dispute { escalated: true, ..d })
                    &&& final(self).effects@ == old(self).effects@.push(
                        Effect::Emit(Event::DisputeEscalated { payment_id: d.payment_id, dispute_id: *dispute_id, amount: d.amount }),
                    )
                    &&& *final(self) == (RefundManager { disputes: final(self).disputes, effects: final(self).effects, ..*old(self) })
                } else {
                    r == Ok::<Dispute, Error>(d) && *final(self) == *old(self)
                }
            },
    {
        let dispute = match self.disputes.get(dispute_id) {
            Some(d) => d.clone(),
            None => {
                return Err(Error::DisputeNotFound);
            },
        };
        let escalate = match dispute.review_deadline {
            Some(deadline) => now > deadline && !dispute.escalated && dispute.status != DisputeStatus::Resolved
                && dispute.status != DisputeStatus::Rejected,
            None => false,
        };
        if !escalate {
            return Ok(dispute);
        }
        let ghost s0 = *self;
        let updated = Dispute { escalated: true, ..dispute.clone() };
        self.disputes.set(dispute_id.clone(), updated.clone());
        self.effects.push(
            Effect::Emit(Event::DisputeEscalated { payment_id: dispute.payment_id, dispute_id: dispute_id.clone(), amount: dispute.amount }),
        );
        proof {
            s0.lemma_dispute_replaced(&*self, dispute_id@, updated);
        }
        Ok(updated)
    }

    /// A payment's disputes, in the order they were raised.
    pub fn get_payment_disputes(&self, payment_id: &String) -> (r: Result<Vec<Dispute>, Error>)
        requires
            self.wf(),
        ensures
            r matches Ok(v) && v@ == dispute_records(self.disputes@, list_or_empty(self.payment_disputes@, payment_id@)),
    {
        let mut out: Vec<Dispute> = Vec::new();
        let ids = match self.payment_disputes.get(payment_id) {
            Some(l) => l,
            None => {
                return Ok(out);
            },
        };
        let mut i: usize = 0;
        while i < ids.len()
            invariant
                self.wf(),
                ids@ == list_or_empty(self.payment_disputes@, payment_id@),
                i <= ids@.len(),
                out@ == dispute_records(self.disputes@, ids@.take(i as int)),
            decreases ids.len() - i,
        {
            proof {
                assert(ids@.take(i as int + 1).drop_last() =~= ids@.take(i as int));
                assert(ids@.take(i as int + 1).last() == ids@[i as int]);
            }
            match self.disputes.get(&ids[i]) {
                Some(d) => {
                    out.push(d.clone());
                },
                None => {},
            }
            i = i + 1;
        }
        assert(ids@.take(ids@.len() as int) =~= ids@);
        Ok(out)
    }
}

} // verus!
