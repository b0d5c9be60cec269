use vstd::prelude::*;

use crate::access_control::{role_oracle, role_settlement_operator};
use crate::disputes::{is_closed, lemma_dispute_terms_nonneg};
use crate::effects::{make_transfer, transfer_effect, Effect, Event, TransferMode};
use crate::merchant_registry::Merchant;
use crate::payment_processor::list_or_empty;
use crate::refund_manager::{payout_effects, payout_tail, refund_fee, refund_fee_bps, refund_prefix, RefundManager};
use crate::table::Table;
use crate::types::{Dispute, DisputeStatus, Error, RefundStatus, VoteChoice, VoteTally};
use crate::util::{clamp_i128, sat_add, sat_add_u32, sat_sub, spec_format_id, trunc_div, div_trunc, clamp_u32};
use crate::Address;

verus! {

/// Share of a losing arbitrator's stake that is slashed, in basis points (ten percent).
pub const SLASH_BPS: i128 = 1_000;

/// The side that wins a tally: in favour when its weight is at least the weight against.
pub open spec fn majority_of(t: VoteTally) -> VoteChoice {
    if t.favour_weight >= t.against_weight {
        VoteChoice::Favour
    } else {
        VoteChoice::Against
    }
}

/// The effects of returning one arbitrator's stake `s`: all of it to an arbitrator who voted
/// with the majority; otherwise the stake less the slash, and the slash to the administrator.
pub open spec fn stake_return(
    s: i128,
    with_majority: bool,
    arbitrator: Address,
    admin: Option<Address>,
    token: Address,
    contract: Address,
) -> Seq<Effect> {
    if with_majority {
        seq![transfer_effect(token, contract, arbitrator, s, TransferMode::Required)]
    } else {
        let slash = trunc_div(s * SLASH_BPS, 10_000);
        let rest = clamp_i128(s - slash);
        let e1: Seq<Effect> = if rest > 0 {
            seq![transfer_effect(token, contract, arbitrator, rest as i128, TransferMode::Required)]
        } else {
            Seq::empty()
        };
        if slash > 0 && admin is Some {
            e1.push(transfer_effect(token, contract, admin->Some_0, slash as i128, TransferMode::Required))
        } else {
            e1
        }
    }
}

/// The stakes left and the transfers made after settling the arbitrators of `arbs` in order:
/// each who has both a stake and a vote has the stake removed and returned (see
/// [`stake_return`]); the others are passed over.
pub open spec fn stake_settlement(
    stakes: Map<Seq<char>, i128>,
    votes: Map<Seq<char>, VoteChoice>,
    arbs: Seq<String>,
    majority: VoteChoice,
    admin: Option<Address>,
    token: Address,
    contract: Address,
) -> (Map<Seq<char>, i128>, Seq<Effect>)
    decreases arbs.len(),
{
    if arbs.len() == 0 {
        (stakes, Seq::empty())
    } else {
        let prev = stake_settlement(stakes, votes, arbs.drop_last(), majority, admin, token, contract);
        let a = arbs.last();
        if prev.0.contains_key(a@) && votes.contains_key(a@) {
            (
                prev.0.remove(a@),
                prev.1 + stake_return(prev.0[a@], votes[a@] == majority, a, admin, token, contract),
            )
        } else {
            prev
        }
    }
}

/// Settling removes stakes and never changes one.
pub proof fn lemma_settlement_submap(
    stakes: Map<Seq<char>, i128>,
    votes: Map<Seq<char>, VoteChoice>,
    arbs: Seq<String>,
    majority: VoteChoice,
    admin: Option<Address>,
    token: Address,
    contract: Address,
)
    ensures
        forall|k: Seq<char>| #[trigger] stake_settlement(stakes, votes, arbs, majority, admin, token, contract).0.contains_key(k)
            ==> stakes.contains_key(k) && stake_settlement(stakes, votes, arbs, majority, admin, token, contract).0[k] == stakes[k],
    decreases arbs.len(),
{
    if arbs.len() > 0 {
        lemma_settlement_submap(stakes, votes, arbs.drop_last(), majority, admin, token, contract);
        let prev = stake_settlement(stakes, votes, arbs.drop_last(), majority, admin, token, contract);
        let cur = stake_settlement(stakes, votes, arbs, majority, admin, token, contract);
        assert forall|k: Seq<char>| #[trigger] cur.0.contains_key(k) implies stakes.contains_key(k) && cur.0[k] == stakes[k] by {
            assert(prev.0.contains_key(k));
        }
    }
}

impl RefundManager {
    /// The stakes locked on a dispute, by arbitrator.
    pub open spec fn stake_map(&self, dispute_id: Seq<char>) -> Map<Seq<char>, i128> {
        if self.stakes@.contains_key(dispute_id) {
            self.stakes@[dispute_id]@
        } else {
            Map::empty()
        }
    }

    /// The votes cast on a dispute, by arbitrator.
    pub open spec fn vote_map(&self, dispute_id: Seq<char>) -> Map<Seq<char>, VoteChoice> {
        if self.votes@.contains_key(dispute_id) {
            self.votes@[dispute_id]@
        } else {
            Map::empty()
        }
    }

    /// A dispute's tally (all zero before any vote).
    pub open spec fn tally_of(&self, dispute_id: Seq<char>) -> VoteTally {
        if self.tallies@.contains_key(dispute_id) {
            self.tallies@[dispute_id]
        } else {
            VoteTally { favour_weight: 0, against_weight: 0, vote_count: 0 }
        }
    }

    /// Why a stake or vote on `dispute_id` is refused for the dispute's sake, if it is.
    pub open spec fn open_dispute_error(&self, dispute_id: Seq<char>) -> Option<Error> {
        if !self.disputes@.contains_key(dispute_id) {
            Some(Error::DisputeNotFound)
        } else if is_closed(self.disputes@[dispute_id].status) {
            Some(Error::DisputeAlreadyResolved)
        } else {
            None
        }
    }

    /// An arbitrator locks `amount` of a governance token on an unfinished dispute, once; the
    /// tokens move from the arbitrator to this contract.
    pub fn lock_stake(&mut self, arbitrator: Address, dispute_id: &String, token: Address, amount: i128) -> (r: Result<(), Error>)
        requires
            old(self).wf(),
        ensures
            final(self).wf(),
            amount <= 0 ==> r == Err::<(), Error>(Error::InvalidAmount) && *final(self) == *old(self),
            amount > 0 && old(self).open_dispute_error(dispute_id@) is Some ==> r == Err::<(), Error>(
                old(self).open_dispute_error(dispute_id@)->Some_0,
            ) && *final(self) == *old(self),
            amount > 0 && old(self).open_dispute_error(dispute_id@) is None && old(self).stake_map(dispute_id@).contains_key(arbitrator@)
                ==> r == Err::<(), Error>(Error::Unauthorized) && *final(self) == *old(self),
            amount > 0 && old(self).open_dispute_error(dispute_id@) is None && !old(self).stake_map(dispute_id@).contains_key(arbitrator@)
                ==> {
                &&& r is Ok
                &&& final(self).stakes@.dom() == old(self).stakes@.dom().insert(dispute_id@)
                &&& final(self).stake_map(dispute_id@) == old(self).stake_map(dispute_id@).insert(arbitrator@, amount)
                &&& forall|k: Seq<char>|
                    k != dispute_id@ && #[trigger] old(self).stakes@.contains_key(k) ==> final(self).stakes@[k] == old(self).stakes@[k]
                &&& final(self).effects@ == old(self).effects@ + seq![
                    transfer_effect(token, arbitrator, old(self).contract_address, amount, TransferMode::Required),
                    Effect::Emit(Event::StakeLocked { dispute_id: *dispute_id, arbitrator, amount }),
                ]
                &&& *final(self) == (RefundManager { stakes: final(self).stakes, effects: final(self).effects, ..*old(self) })
            },
    {
        if amount <= 0 {
            return Err(Error::InvalidAmount);
        }
        match self.disputes.get(dispute_id) {
            Some(d) => {
                if d.status == DisputeStatus::Resolved || d.status == DisputeStatus::Rejected {
                    return Err(Error::DisputeAlreadyResolved);
                }
            },
            None => {
                return Err(Error::DisputeNotFound);
            },
        }
        let already = match self.stakes.get(dispute_id) {
            Some(inner) => inner.contains(&arbitrator),
            None => false,
        };
        if already {
            return Err(Error::Unauthorized);
        }
        let ghost s0 = *self;
        let mut inner = match self.stakes.take(dispute_id) {
            Some(t) => t,
            None => Table::new(),
        };
        inner.set(arbitrator.clone(), amount);
        self.stakes.set(dispute_id.clone(), inner);
        self.effects.push(make_transfer(token, arbitrator.clone(), self.contract_address.clone(), amount, TransferMode::Required));
        self.effects.push(Effect::Emit(Event::StakeLocked { dispute_id: dispute_id.clone(), arbitrator, amount }));
        proof {
            assert(self.stakes@.dom() =~= s0.stakes@.dom().insert(dispute_id@));
            assert(self.stake_map(dispute_id@) =~= s0.stake_map(dispute_id@).insert(arbitrator@, amount));
            assert(self.effects@ =~= s0.effects@ + seq![
                transfer_effect(token, arbitrator, s0.contract_address, amount, TransferMode::Required),
                Effect::Emit(Event::StakeLocked { dispute_id: *dispute_id, arbitrator, amount }),
            ]);
        }
        Ok(())
    }

    /// An arbitrator with a locked stake votes once on an unfinished dispute; the stake is
    /// added to the chosen side of the tally (saturating) and the vote count grows by one.
    pub fn cast_vote(&mut self, arbitrator: Address, dispute_id: &String, choice: VoteChoice) -> (r: Result<(), Error>)
        requires
            old(self).wf(),
        ensures
            final(self).wf(),
            old(self).open_dispute_error(dispute_id@) is Some ==> r == Err::<(), Error>(
                old(self).open_dispute_error(dispute_id@)->Some_0,
            ) && *final(self) == *old(self),
            old(self).open_dispute_error(dispute_id@) is None && (!old(self).stake_map(dispute_id@).contains_key(arbitrator@)
                || old(self).vote_map(dispute_id@).contains_key(arbitrator@)) ==> r == Err::<(), Error>(Error::Unauthorized)
                && *final(self) == *old(self),
            old(self).open_dispute_error(dispute_id@) is None && old(self).stake_map(dispute_id@).contains_key(arbitrator@)
                && !old(self).vote_map(dispute_id@).contains_key(arbitrator@) ==> {
                let stake = old(self).stake_map(dispute_id@)[arbitrator@];
                let t = old(self).tally_of(dispute_id@);
                &&& r is Ok
                &&& final(self).votes@.dom() == old(self).votes@.dom().insert(dispute_id@)
                &&& final(self).vote_map(dispute_id@) == old(self).vote_map(dispute_id@).insert(arbitrator@, choice)
                &&& forall|k: Seq<char>|
                    k != dispute_id@ && #[trigger] old(self).votes@.contains_key(k) ==> final(self).votes@[k] == old(self).votes@[k]
                &&& final(self).tallies@ == old(self).tallies@.insert(
                    dispute_id@,
                    VoteTally {
                        favour_weight: if choice == VoteChoice::Favour {
                            clamp_i128(t.favour_weight + stake) as i128
                        } else {
                            t.favour_weight
                        },
                        against_weight: if choice == VoteChoice::Against {
                            clamp_i128(t.against_weight + stake) as i128
                        } else {
                            t.against_weight
                        },
                        vote_count: clamp_u32(t.vote_count + 1) as u32,
                    },
                )
                &&& final(self).effects@ == old(self).effects@.push(
                    Effect::Emit(Event::VoteCast { dispute_id: *dispute_id, arbitrator, stake }),
                )
                &&& *final(self) == (RefundManager {
                    votes: final(self).votes,
                    tallies: final(self).tallies,
                    effects: final(self).effects,
                    ..*old(self)
                })
            },
    {
        match self.disputes.get(dispute_id) {
            Some(d) => {
                if d.status == DisputeStatus::Resolved || d.status == DisputeStatus::Rejected {
                    return Err(Error::DisputeAlreadyResolved);
                }
            },
            None => {
                return Err(Error::DisputeNotFound);
            },
        }
        let stake: i128 = match self.stakes.get(dispute_id) {
            Some(inner) => match inner.get(&arbitrator) {
                Some(s) => *s,
                None => {
                    return Err(Error::Unauthorized);
                },
            },
            None => {
                return Err(Error::Unauthorized);
            },
        };
        let voted = match self.votes.get(dispute_id) {
            Some(inner) => inner.contains(&arbitrator),
            None => false,
        };
        if voted {
            return Err(Error::Unauthorized);
        }
        let ghost s0 = *self;
        let mut inner = match self.votes.take(dispute_id) {
            Some(t) => t,
            None => Table::new(),
        };
        inner.set(arbitrator.clone(), choice);
        self.votes.set(dispute_id.clone(), inner);
        let mut tally = match self.tallies.get(dispute_id) {
            Some(t) => *t,
            None => VoteTally { favour_weight: 0, against_weight: 0, vote_count: 0 },
        };
        match choice {
            VoteChoice::Favour => {
                tally.favour_weight = sat_add(tally.favour_weight, stake);
            },
            VoteChoice::Against => {
                tally.against_weight = sat_add(tally.against_weight, stake);
            },
        }
        tally.vote_count = sat_add_u32(tally.vote_count, 1);
        self.tallies.set(dispute_id.clone(), tally);
        self.effects.push(Effect::Emit(Event::VoteCast { dispute_id: dispute_id.clone(), arbitrator, stake }));
        proof {
            assert(self.votes@.dom() =~= s0.votes@.dom().insert(dispute_id@));
            assert(self.vote_map(dispute_id@) =~= s0.vote_map(dispute_id@).insert(arbitrator@, choice));
        }
        Ok(())
    }

    /// A dispute's tally (all zero before any vote).
    pub fn get_vote_tally(&self, dispute_id: &String) -> (r: VoteTally)
        requires
            self.wf(),
        ensures
            r == self.tally_of(dispute_id@),
    {
        match self.tallies.get(dispute_id) {
            Some(t) => *t,
            None => VoteTally { favour_weight: 0, against_weight: 0, vote_count: 0 },
        }
    }
}

impl RefundManager {
    /// Whether finalizing the vote on `dispute_id` stays within machine limits: every slash
    /// that is computed fits in an `i128`, and so do the refund and its fee when the vote
    /// favours the disputer.
    pub open spec fn vote_fits(&self, dispute_id: Seq<char>, arbitrators: Seq<String>, merchant: Option<Merchant>) -> bool {
        self.open_dispute_error(dispute_id) is None ==> {
            let d = self.disputes@[dispute_id];
            let t = self.tally_of(dispute_id);
            let stakes = self.stake_map(dispute_id);
            let votes = self.vote_map(dispute_id);
            &&& forall|i: int|
                0 <= i < arbitrators.len() && stakes.contains_key((#[trigger] arbitrators[i])@) && votes.contains_key(arbitrators[i]@)
                    && votes[arbitrators[i]@] != majority_of(t) ==> i128::MIN <= stakes[arbitrators[i]@] * SLASH_BPS <= i128::MAX
            &&& (majority_of(t) == VoteChoice::Favour ==> {
                &&& self.refund_fits(d.payment_id@, d.amount)
                &&& (self.refund_error(d.payment_id@, d.amount) is None && self.usdc_token is Some
                    ==> d.amount * refund_fee_bps(self.merchant_registry is Some, merchant) <= i128::MAX)
            })
        }
    }

    /// A settlement operator or oracle closes the stake-weighted vote on an unfinished dispute.
    /// The side with at least as much stake wins (ties favour the disputer). Each listed
    /// arbitrator with a stake and a vote gets the stake back, less a ten percent slash sent to
    /// the administrator when the vote lost. When the disputer wins, a refund of the disputed
    /// amount is attempted and, if created, processed; the dispute is then resolved, otherwise
    /// rejected.
    ///
    /// `merchant` is the registry's answer for the payment's merchant, as in
    /// [`RefundManager::process_refund`].
    #[verifier::rlimit(40)]
    pub fn finalize_dispute_vote(
        &mut self,
        operator: &Address,
        dispute_id: &String,
        token: Address,
        arbitrators: &Vec<Address>,
        now: u64,
        merchant: &Option<Merchant>,
    ) -> (r: Result<(), Error>)
        requires
            old(self).wf(),
            old(self).vote_fits(dispute_id@, arbitrators@, *merchant),
        ensures
            final(self).wf(),
            match old(self).settle_error(operator@, dispute_id@) {
                Some(e) => r == Err::<(), Error>(e) && *final(self) == *old(self),
                None => {
                    let d = old(self).disputes@[dispute_id@];
                    let t = old(self).tally_of(dispute_id@);
                    let favour = majority_of(t) == VoteChoice::Favour;
                    let settled = stake_settlement(
                        old(self).stake_map(dispute_id@),
                        old(self).vote_map(dispute_id@),
                        arbitrators@,
                        majority_of(t),
                        old(self).access.admin_address(),
                        token,
                        old(self).contract_address,
                    );
                    let finished = Effect::Emit(
                        Event::VoteFinalized {
                            dispute_id: *dispute_id,
                            favour_weight: t.favour_weight,
                            against_weight: t.against_weight,
                            favour_wins: favour,
                        },
                    );
                    let p = d.payment_id@;
                    &&& r is Ok
                    &&& (t.favour_weight >= t.against_weight ==> final(self).disputes@[dispute_id@].status
                        == DisputeStatus::Resolved)
                    &&& (t.against_weight > t.favour_weight ==> final(self).disputes@[dispute_id@].status
                        == DisputeStatus::Rejected && final(self).refunds == old(self).refunds && final(self).refund_counter
                        == old(self).refund_counter)
                    &&& final(self).stakes@.dom() == old(self).stakes@.dom()
                    &&& final(self).stake_map(dispute_id@) == settled.0
                    &&& forall|k: Seq<char>|
                        k != dispute_id@ && #[trigger] old(self).stakes@.contains_key(k) ==> final(self).stakes@[k]
                            == old(self).stakes@[k]
                    &&& final(self).disputes@ == old(self).disputes@.insert(
                        dispute_id@,
                        Dispute {
                            status: if favour {
                                DisputeStatus::Resolved
                            } else {
                                DisputeStatus::Rejected
                            },
                            resolved_at: Some(now),
                            ..d
                        },
                    )
                    &&& if favour && old(self).refund_error(p, d.amount) is None {
                        let idv = spec_format_id(refund_prefix(), (old(self).refund_counter + 1) as nat);
                        let rf = final(self).refunds@[idv];
                        let fee = refund_fee(d.amount, refund_fee_bps(old(self).merchant_registry is Some, *merchant));
                        let admin = old(self).access.admin_address();
                        &&& final(self).refund_counter == old(self).refund_counter + 1
                        &&& final(self).refunds@ == old(self).refunds@.insert(idv, rf)
                        &&& rf.refund_id@ == idv
                        &&& rf.payment_id == d.payment_id
                        &&& rf.amount == d.amount
                        &&& rf.reason@ == "Resolved by stake-weighted arbitration vote"@
                        &&& rf.requester == d.disputer
                        &&& rf.created_at == now
                        &&& (old(self).usdc_token is Some ==> rf.status == RefundStatus::Completed && rf.processed_at
                            == Some(now))
                        &&& (old(self).usdc_token is None ==> rf.status == RefundStatus::Pending && rf.processed_at is None)
                        &&& final(self).payment_refunds@.dom() == old(self).payment_refunds@.dom().insert(p)
                        &&& final(self).payment_refunds@[p]@ == list_or_empty(old(self).payment_refunds@, p).push(rf.refund_id)
                        &&& forall|k: Seq<char>|
                            k != p && #[trigger] old(self).payment_refunds@.contains_key(k) ==> final(self).payment_refunds@[k]
                                == old(self).payment_refunds@[k]
                        &&& final(self).effects@ == old(self).effects@ + settled.1 + seq![
                            Effect::Emit(Event::RefundCreated { payment_id: d.payment_id, refund_id: rf.refund_id, amount: d.amount }),
                        ] + (if old(self).usdc_token is Some {
                            payout_effects(
                                old(self).usdc_token->Some_0,
                                old(self).contract_address,
                                d.disputer,
                                d.amount,
                                fee,
                                admin,
                                TransferMode::SkipOnFailure(payout_tail(fee, admin)),
                                Effect::Emit(Event::RefundCompleted { payment_id: d.payment_id, refund_id: rf.refund_id, amount: d.amount }),
                            )
                        } else {
                            Seq::empty()
                        }) + seq![finished]
                        &&& *final(self) == (RefundManager {
                            stakes: final(self).stakes,
                            disputes: final(self).disputes,
                            refunds: final(self).refunds,
                            payment_refunds: final(self).payment_refunds,
                            refund_counter: final(self).refund_counter,
                            effects: final(self).effects,
                            ..*old(self)
                        })
                    } else {
                        &&& final(self).effects@ == old(self).effects@ + settled.1 + seq![finished]
                        &&& *final(self) == (RefundManager {
                            stakes: final(self).stakes,
                            disputes: final(self).disputes,
                            effects: final(self).effects,
                            ..*old(self)
                        })
                    }
                },
            },
    {
        let settle_role = role_settlement_operator();
        let oracle_role = role_oracle();
        if !self.access.has_role(&settle_role, operator) && !self.access.has_role(&oracle_role, operator) {
            return Err(Error::Unauthorized);
        }
        let dispute = match self.disputes.get(dispute_id) {
            Some(d) => d.clone(),
            None => {
                return Err(Error::DisputeNotFound);
            },
        };
        if dispute.status == DisputeStatus::Resolved || dispute.status == DisputeStatus::Rejected {
            return Err(Error::DisputeAlreadyResolved);
        }
        let ghost s0 = *self;
        let tally = self.get_vote_tally(dispute_id);
        let favour_wins = tally.favour_weight >= tally.against_weight;
        let majority = if favour_wins {
            VoteChoice::Favour
        } else {
            VoteChoice::Against
        };
        let admin = self.access.get_admin();
        let ghost stakes0 = s0.stake_map(dispute_id@);
        let ghost votes0 = s0.vote_map(dispute_id@);
        let had_stakes = self.stakes.contains(dispute_id);
        let mut stake_table = match self.stakes.take(dispute_id) {
            Some(t) => t,
            None => Table::new(),
        };
        let mut i: usize = 0;
        while i < arbitrators.len()
            invariant
                s0.wf(),
                s0.vote_fits(dispute_id@, arbitrators@, *merchant),
                s0.open_dispute_error(dispute_id@) is None,
                majority == majority_of(s0.tally_of(dispute_id@)),
                admin == s0.access.admin_address(),
                stakes0 == s0.stake_map(dispute_id@),
                votes0 == s0.vote_map(dispute_id@),
                had_stakes == s0.stakes@.contains_key(dispute_id@),
                self.stakes@ == s0.stakes@.remove(dispute_id@),
                self.stakes.wf(),
                self.votes == s0.votes,
                self.contract_address == s0.contract_address,
                stake_table.wf(),
                i <= arbitrators@.len(),
                stake_table@ == stake_settlement(stakes0, votes0, arbitrators@.take(i as int), majority, admin, token, s0.contract_address).0,
                self.effects@ == s0.effects@ + stake_settlement(stakes0, votes0, arbitrators@.take(i as int), majority, admin, token, s0.contract_address).1,
                *self == (RefundManager { stakes: self.stakes, effects: self.effects, ..s0 }),
            decreases arbitrators.len() - i,
        {
            let arb = &arbitrators[i];
            proof {
                assert(arbitrators@.take(i as int + 1).drop_last() =~= arbitrators@.take(i as int));
                assert(arbitrators@.take(i as int + 1).last() == arbitrators@[i as int]);
                lemma_settlement_submap(stakes0, votes0, arbitrators@.take(i as int), majority, admin, token, s0.contract_address);
            }
            let stake_opt: Option<i128> = match stake_table.get(arb) {
                Some(s) => Some(*s),
                None => None,
            };
            let vote_opt: Option<VoteChoice> = match self.votes.get(dispute_id) {
                Some(vt) => match vt.get(arb) {
                    Some(v) => Some(*v),
                    None => None,
                },
                None => None,
            };
            if let (Some(stake), Some(vote)) = (stake_opt, vote_opt) {
                let _ = stake_table.take(arb);
                let ghost e_before = self.effects@;
                if vote == majority {
                    self.effects.push(make_transfer(token.clone(), self.contract_address.clone(), arb.clone(), stake, TransferMode::Required));
                } else {
                    assert(i128::MIN <= stake * SLASH_BPS <= i128::MAX);
                    let slash = div_trunc(stake * SLASH_BPS, 10_000);
                    let remainder = sat_sub(stake, slash);
                    if remainder > 0 {
                        self.effects.push(make_transfer(token.clone(), self.contract_address.clone(), arb.clone(), remainder, TransferMode::Required));
                    }
                    if slash > 0 {
                        match &admin {
                            Some(a) => {
                                self.effects.push(make_transfer(token.clone(), self.contract_address.clone(), a.clone(), slash, TransferMode::Required));
                            },
                            None => {},
                        }
                    }
                }
                proof {
                    assert(self.effects@ =~= e_before + stake_return(stake, vote == majority, *arb, admin, token, s0.contract_address));
                }
            }
            i = i + 1;
        }
        proof {
            assert(arbitrators@.take(arbitrators@.len() as int) =~= arbitrators@);
        }
        if had_stakes {
            self.stakes.set(dispute_id.clone(), stake_table);
        }
        let ghost s1 = *self;
        proof {
            assert(self.stakes@.dom() =~= s0.stakes@.dom());
            lemma_settlement_submap(stakes0, votes0, arbitrators@, majority, admin, token, s0.contract_address);
            assert forall|d: Seq<char>, a: Seq<char>|
                s1.stakes@.contains_key(d) && s1.stakes@[d]@.contains_key(a) implies #[trigger] s1.stakes@[d]@[a] > 0 by {
                if d == dispute_id@ {
                    assert(stakes0.contains_key(a));
                    assert(s0.stakes@[d]@[a] > 0);
                } else {
                    assert(s0.stakes@.contains_key(d));
                    assert(s0.stakes@[d]@[a] > 0);
                }
            }
            assert(s1.wf());
            assert(self.stake_map(dispute_id@) =~= stake_settlement(
                stakes0,
                votes0,
                arbitrators@,
                majority,
                admin,
                token,
                s0.contract_address,
            ).0);
        }
        if favour_wins {
            let reason = String::from_str("Resolved by stake-weighted arbitration vote");
            proof {
                reveal_strlit("Resolved by stake-weighted arbitration vote");
            }
            match self.create_refund_internal(dispute.payment_id.clone(), dispute.amount, reason, dispute.disputer.clone(), now) {
                Ok(refund_id) => {
                    let _ = self.process_refund_internal(&refund_id, now, merchant);
                },
                Err(_) => {},
            }
        }
        let ghost s2 = *self;
        let updated = Dispute {
            status: if favour_wins {
                DisputeStatus::Resolved
            } else {
                DisputeStatus::Rejected
            },
            resolved_at: Some(now),
            ..dispute.clone()
        };
        self.disputes.set(dispute_id.clone(), updated);
        self.effects.push(
            Effect::Emit(
                Event::VoteFinalized {
                    dispute_id: dispute_id.clone(),
                    favour_weight: tally.favour_weight,
                    against_weight: tally.against_weight,
                    favour_wins,
                },
            ),
        );
        proof {
            s2.lemma_dispute_replaced(&*self, dispute_id@, updated);
        }
        Ok(())
    }
}

} // verus!
