use vstd::prelude::*;

use crate::effects::{make_transfer, transfer_effect, Effect, Event, TransferMode};
use crate::table::Table;
use crate::types::{clone_opt_str, Error};
use crate::util::{format_id, spec_format_id};
use crate::{Address, Symbol};

verus! {

/// A reusable payment link published by a merchant.
#[derive(Debug, PartialEq, Eq)]
pub struct PaymentLink {
    pub link_id: String,
    pub merchant_id: Address,
    /// Fixed amount to pay, or none for an amount the payer chooses.
    pub amount: Option<i128>,
    pub currency: Symbol,
    pub description: String,
    pub expires_at: Option<u64>,
    pub max_uses: Option<u32>,
    pub use_count: u32,
    pub active: bool,
    /// When set, each use moves the amount from the payer straight to the merchant.
    pub direct_transfer: bool,
    /// Optional note carried with the link.
    pub memo: Option<String>,
}

impl Clone for PaymentLink {
    fn clone(&self) -> (r: Self)
        ensures
            r == *self,
    {
        PaymentLink {
            link_id: self.link_id.clone(),
            merchant_id: self.merchant_id.clone(),
            amount: self.amount,
            currency: self.currency.clone(),
            description: self.description.clone(),
            expires_at: self.expires_at,
            max_uses: self.max_uses,
            use_count: self.use_count,
            active: self.active,
            direct_transfer: self.direct_transfer,
            memo: clone_opt_str(&self.memo),
        }
    }
}

/// Why using a link at `now` with `amount` is refused, if it is, in the order the checks are
/// made. `token` is the token a direct-transfer link is paid in.
pub open spec fn use_error(link: Option<PaymentLink>, amount: i128, token: Option<Address>, now: u64) -> Option<Error> {
    match link {
        None => Some(Error::PaymentNotFound),
        Some(l) => if !l.active {
            Some(Error::Unauthorized)
        } else if l.expires_at matches Some(t) && now > t {
            Some(Error::PaymentExpired)
        } else if l.max_uses matches Some(m) && l.use_count >= m {
            Some(Error::PaymentAlreadyProcessed)
        } else if l.amount matches Some(fixed) && amount != fixed {
            Some(Error::InvalidAmount)
        } else if l.amount is None && amount <= 0 {
            Some(Error::InvalidAmount)
        } else if l.direct_transfer && token is None {
            Some(Error::Unauthorized)
        } else {
            None
        }
    }
}

/// The payment links of merchants.
pub struct PaymentLinkManager {
    pub links: Table<PaymentLink>,
    /// Effects of the calls so far, for the host to carry out in order.
    pub effects: Vec<Effect>,
}

impl PaymentLinkManager {
    /// The stores are consistent.
    pub open spec fn wf(&self) -> bool {
        self.links.wf()
    }

    /// The link stored under `link_id`, if any.
    pub open spec fn link_of(&self, link_id: Seq<char>) -> Option<PaymentLink> {
        if self.links@.contains_key(link_id) {
            Some(self.links@[link_id])
        } else {
            None
        }
    }

    /// A manager with no links.
    pub fn new() -> (r: Self)
        ensures
            r.wf(),
            r.links@ == Map::<Seq<char>, PaymentLink>::empty(),
            r.effects@ == Seq::<Effect>::empty(),
    {
        PaymentLinkManager { links: Table::new(), effects: Vec::new() }
    }

    /// Storage layout version.
    pub fn version() -> (r: u32)
        ensures
            r == 1,
    {
        1
    }

    /// A merchant publishes a link (replacing any link with the same id); it starts active and
    /// unused. Answers the link id.
    pub fn create_link(
        &mut self,
        merchant: Address,
        link_id: String,
        amount: Option<i128>,
        currency: Symbol,
        description: String,
        expires_at: Option<u64>,
        max_uses: Option<u32>,
        direct_transfer: bool,
        memo: Option<String>,
    ) -> (r: String)
        requires
            old(self).wf(),
        ensures
            final(self).wf(),
            r == link_id,
            final(self).links@ == old(self).links@.insert(
                link_id@,
                PaymentLink {
                    link_id,
                    merchant_id: merchant,
                    amount,
                    currency,
                    description,
                    expires_at,
                    max_uses,
                    use_count: 0,
                    active: true,
                    direct_transfer,
                    memo,
                },
            ),
            final(self).effects@ == old(self).effects@.push(
                Effect::Emit(Event::LinkCreated { link_id, merchant_id: merchant }),
            ),
    {
        let link = PaymentLink {
            link_id: link_id.clone(),
            merchant_id: merchant.clone(),
            amount,
            currency,
            description,
            expires_at,
            max_uses,
            use_count: 0,
            active: true,
            direct_transfer,
            memo,
        };
        self.links.set(link_id.clone(), link);
        self.effects.push(Effect::Emit(Event::LinkCreated { link_id: link_id.clone(), merchant_id: merchant }));
        link_id
    }

    /// A payer pays through a link at `now`: the use is counted and a payment id
    /// `lnk_pay_` followed by `now` is answered. A direct-transfer link moves the amount from
    /// the payer to the merchant in `usdc_token`, which must then be given.
    pub fn use_link(
        &mut self,
        payer: Address,
        link_id: &String,
        amount: i128,
        usdc_token: Option<Address>,
        now: u64,
    ) -> (r: Result<String, Error>)
        requires
            old(self).wf(),
            use_error(old(self).link_of(link_id@), amount, usdc_token, now) is None ==> old(self).links@[link_id@].use_count
                < u32::MAX,
        ensures
            final(self).wf(),
            match use_error(old(self).link_of(link_id@), amount, usdc_token, now) {
                Some(e) => r == Err::<String, Error>(e) && *final(self) == *old(self),
                None => {
                    let l = old(self).links@[link_id@];
                    let id = r->Ok_0;
                    let used = Effect::Emit(Event::LinkUsed { link_id: *link_id, payer, amount, payment_id: id });
                    &&& r is Ok
                    &&& id@ == spec_format_id("lnk_pay_"@, now as nat)
                    &&& final(self).links@ == old(self).links@.insert(link_id@, PaymentLink { use_count: (l.use_count + 1) as u32, ..l })
                    &&& final(self).effects@ == old(self).effects@ + (if l.direct_transfer {
                        seq![transfer_effect(usdc_token->Some_0, payer, l.merchant_id, amount, TransferMode::Required), used]
                    } else {
                        seq![used]
                    })
                },
            },
    {
        let link = match self.links.get(link_id) {
            Some(l) => l.clone(),
            None => {
                return Err(Error::PaymentNotFound);
            },
        };
        if !link.active {
            return Err(Error::Unauthorized);
        }
        if let Some(expires_at) = link.expires_at {
            if now > expires_at {
                return Err(Error::PaymentExpired);
            }
        }
        if let Some(max_uses) = link.max_uses {
            if link.use_count >= max_uses {
                return Err(Error::PaymentAlreadyProcessed);
            }
        }
        match link.amount {
            Some(fixed) => {
                if amount != fixed {
                    return Err(Error::InvalidAmount);
                }
            },
            None => {
                if amount <= 0 {
                    return Err(Error::InvalidAmount);
                }
            },
        }
        if link.direct_transfer && usdc_token.is_none() {
            return Err(Error::Unauthorized);
        }
        let ghost s0 = *self;
        let merchant = link.merchant_id.clone();
        let direct = link.direct_transfer;
        let updated = PaymentLink { use_count: link.use_count + 1, ..link };
        self.links.set(link_id.clone(), updated);
        let payment_id = format_id("lnk_pay_", now);
        proof {
            reveal_strlit("lnk_pay_");
        }
        if direct {
            match usdc_token {
                Some(token) => {
                    self.effects.push(make_transfer(token, payer.clone(), merchant, amount, TransferMode::Required));
                },
                None => {},
            }
        }
        self.effects.push(
            Effect::Emit(Event::LinkUsed { link_id: link_id.clone(), payer: payer.clone(), amount, payment_id: payment_id.clone() }),
        );
        proof {
            let used = Effect::Emit(Event::LinkUsed { link_id: *link_id, payer, amount, payment_id });
            if direct {
                assert(self.effects@ =~= s0.effects@ + seq![
                    transfer_effect(usdc_token->Some_0, payer, link.merchant_id, amount, TransferMode::Required),
                    used,
                ]);
            } else {
                assert(self.effects@ =~= s0.effects@ + seq![used]);
            }
        }
        Ok(payment_id)
    }

    /// The merchant that owns a link deactivates it.
    pub fn deactivate_link(&mut self, merchant: &Address, link_id: &String) -> (r: Result<(), Error>)
        requires
            old(self).wf(),
        ensures
            final(self).wf(),
            !old(self).links@.contains_key(link_id@) ==> r == Err::<(), Error>(Error::PaymentNotFound) && *final(self)
                == *old(self),
            old(self).links@.contains_key(link_id@) && old(self).links@[link_id@].merchant_id@ != merchant@ ==> r == Err::<
                (),
                Error,
            >(Error::Unauthorized) && *final(self) == *old(self),
            old(self).links@.contains_key(link_id@) && old(self).links@[link_id@].merchant_id@ == merchant@ ==> {
                &&& r is Ok
                &&& final(self).links@ == old(self).links@.insert(link_id@, PaymentLink { active: false, ..old(self).links@[link_id@] })
                &&& final(self).effects@ == old(self).effects@.push(Effect::Emit(Event::LinkDeactivated { link_id: *link_id }))
            },
    {
        let link = match self.links.get(link_id) {
            Some(l) => l.clone(),
            None => {
                return Err(Error::PaymentNotFound);
            },
        };
        if link.merchant_id != *merchant {
            return Err(Error::Unauthorized);
        }
        self.links.set(link_id.clone(), PaymentLink { active: false, ..link });
        self.effects.push(Effect::Emit(Event::LinkDeactivated { link_id: link_id.clone() }));
        Ok(())
    }

    /// The link stored under `link_id`.
    pub fn get_link(&self, link_id: &String) -> (r: Result<PaymentLink, Error>)
        requires
            self.wf(),
        ensures
            self.links@.contains_key(link_id@) ==> r == Ok::<PaymentLink, Error>(self.links@[link_id@]),
            !self.links@.contains_key(link_id@) ==> r == Err::<PaymentLink, Error>(Error::PaymentNotFound),
    {
        match self.links.get(link_id) {
            Some(l) => Ok(l.clone()),
            None => Err(Error::PaymentNotFound),
        }
    }

    /// Hands the accumulated effects to the host, leaving none.
    pub fn take_effects(&mut self) -> (r: Vec<Effect>)
        ensures
            r@ == old(self).effects@,
            final(self).effects@ == Seq::<Effect>::empty(),
            final(self).links == old(self).links,
    {
        let mut out: Vec<Effect> = Vec::new();
        std::mem::swap(&mut out, &mut self.effects);
        out
    }
}

} // verus!
