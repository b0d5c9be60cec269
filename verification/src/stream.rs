use vstd::prelude::*;

use crate::effects::{make_transfer, transfer_effect, Effect, Event, TransferMode};
use crate::payment_processor::list_or_empty;
use crate::table::Table;
use crate::types::WithdrawalRecipient;
use crate::util::{clamp_i128, clamp_u64, sat_add, sat_mul, sat_sub, sat_sub_u64};
use crate::Address;

verus! {

/// Lifecycle of a payment stream.
#[derive(Clone, Copy, Debug, PartialEq, Eq, Structural)]
pub enum StreamStatus {
    /// The deposit is flowing to the receiver at the stream's rate.
    Active,
    /// The sender cancelled the stream; the unaccrued deposit went back to the sender.
    Cancelled,
    /// The deposit was fully paid out.
    Exhausted,
}

/// A continuous payment from a sender to a receiver, funded by a deposit held by the contract.
///
/// What has accrued since the last checkpoint is computed lazily:
/// `accrued_at_checkpoint + (now - last_checkpoint_at) * rate_per_second`, capped by the deposit.
#[derive(Debug, PartialEq, Eq)]
pub struct PaymentStream {
    pub stream_id: String,
    pub sender: Address,
    pub receiver: Address,
    /// Fixed destination for withdrawals anyone may trigger, once the receiver sets it.
    pub destination: Option<Address>,
    pub token: Address,
    /// Tokens per second.
    pub rate_per_second: i128,
    /// Deposit still held for the stream.
    pub remaining_deposit: i128,
    pub last_checkpoint_at: u64,
    /// Tokens accrued to the receiver, and not yet withdrawn, up to the last checkpoint.
    pub accrued_at_checkpoint: i128,
    pub status: StreamStatus,
    /// Withdrawals are allowed only while this is set.
    pub milestones_approved: bool,
}

impl Clone for PaymentStream {
    fn clone(&self) -> (r: Self)
        ensures
            r == *self,
    {
        PaymentStream {
            stream_id: self.stream_id.clone(),
            sender: self.sender.clone(),
            receiver: self.receiver.clone(),
            destination: crate::types::clone_opt_str(&self.destination),
            token: self.token.clone(),
            rate_per_second: self.rate_per_second,
            remaining_deposit: self.remaining_deposit,
            last_checkpoint_at: self.last_checkpoint_at,
            accrued_at_checkpoint: self.accrued_at_checkpoint,
            status: self.status,
            milestones_approved: self.milestones_approved,
        }
    }
}

/// Errors of payment streaming.
#[derive(Clone, Copy, Debug, PartialEq, Eq, Structural)]
pub enum StreamError {
    StreamNotFound,
    /// The caller is not the party the operation belongs to.
    Unauthorized,
    /// The new rate must be strictly below the current one.
    RateNotDecreased,
    InvalidRate,
    StreamAlreadyExists,
    InvalidDeposit,
    StreamNotActive,
    /// No destination is configured for a withdrawal anyone may trigger.
    DestinationNotSet,
    ContractPaused,
    /// Withdrawals are locked until the sender approves the milestones.
    MilestoneNotApproved,
    /// A withdrawal of the stream is already in progress.
    WithdrawalInProgress,
}

impl StreamError {
    /// The code of each error.
    pub open spec fn code_of(self) -> u32 {
        match self {
            StreamError::StreamNotFound => 1,
            StreamError::Unauthorized => 2,
            StreamError::RateNotDecreased => 3,
            StreamError::InvalidRate => 4,
            StreamError::StreamAlreadyExists => 5,
            StreamError::InvalidDeposit => 6,
            StreamError::StreamNotActive => 7,
            StreamError::DestinationNotSet => 8,
            StreamError::ContractPaused => 9,
            StreamError::MilestoneNotApproved => 10,
            StreamError::WithdrawalInProgress => 11,
        }
    }

    /// The numeric code under which the error is reported on chain.
    pub fn code(&self) -> (r: u32)
        ensures
            r == self.code_of(),
    {
        match self {
            StreamError::StreamNotFound => 1,
            StreamError::Unauthorized => 2,
            StreamError::RateNotDecreased => 3,
            StreamError::InvalidRate => 4,
            StreamError::StreamAlreadyExists => 5,
            StreamError::InvalidDeposit => 6,
            StreamError::StreamNotActive => 7,
            StreamError::DestinationNotSet => 8,
            StreamError::ContractPaused => 9,
            StreamError::MilestoneNotApproved => 10,
            StreamError::WithdrawalInProgress => 11,
        }
    }
}

/// A stream's books balance: what has accrued is never negative and never more than the
/// deposit, and the rate is positive.
pub open spec fn stream_ok(s: PaymentStream) -> bool {
    &&& 0 <= s.accrued_at_checkpoint <= s.remaining_deposit
    &&& s.rate_per_second > 0
}

/// The stream after accruing from its last checkpoint to `now` at its rate, capped by the
/// part of the deposit not yet accrued.
pub open spec fn checkpoint(s: PaymentStream, now: u64) -> PaymentStream {
    let elapsed = clamp_u64(now - s.last_checkpoint_at);
    let owed = clamp_i128(elapsed * s.rate_per_second);
    let room = s.remaining_deposit - s.accrued_at_checkpoint;
    let newly = if owed < room {
        owed
    } else {
        room
    };
    PaymentStream {
        accrued_at_checkpoint: clamp_i128(s.accrued_at_checkpoint + newly) as i128,
        last_checkpoint_at: now,
        ..s
    }
}

/// What a stream has accrued at `now`: for an active stream, the accrual up to now (capped by
/// the deposit); otherwise what was accrued at the last checkpoint.
pub open spec fn accrued_at(s: PaymentStream, now: u64) -> i128 {
    if s.status != StreamStatus::Active {
        s.accrued_at_checkpoint
    } else {
        let owed = clamp_i128(clamp_u64(now - s.last_checkpoint_at) * s.rate_per_second);
        let total = clamp_i128(s.accrued_at_checkpoint + owed);
        if total < s.remaining_deposit {
            total as i128
        } else {
            s.remaining_deposit
        }
    }
}

/// The part of the deposit given back when the rate falls from `old_rate` to `new_rate`:
/// the unaccrued deposit `unlocked` would have lasted `unlocked / old_rate` seconds; at the
/// new rate those seconds need less, and the difference is returned.
pub open spec fn rate_surplus(unlocked: int, old_rate: int, new_rate: int) -> int {
    if unlocked > 0 && old_rate > 0 {
        let needed = clamp_i128((unlocked / old_rate) * new_rate);
        let s = clamp_i128(unlocked - needed);
        if s > 0 {
            s
        } else {
            0
        }
    } else {
        0
    }
}

/// The stream after a rate change to `new_rate` at `now`, with the surplus given back on a
/// decrease.
pub open spec fn rate_changed(s: PaymentStream, new_rate: i128, now: u64) -> (PaymentStream, int) {
    let c = checkpoint(s, now);
    let surplus = if new_rate < s.rate_per_second {
        rate_surplus(clamp_i128(c.remaining_deposit - c.accrued_at_checkpoint), s.rate_per_second as int, new_rate as int)
    } else {
        0
    };
    (
        PaymentStream {
            rate_per_second: new_rate,
            remaining_deposit: clamp_i128(c.remaining_deposit - surplus) as i128,
            ..c
        },
        surplus,
    )
}

/// The stream after cancellation at `now`, what had accrued, and what goes back to the sender.
pub open spec fn cancelled(s: PaymentStream, now: u64) -> (PaymentStream, i128, i128) {
    let c = checkpoint(s, now);
    let accrued = c.accrued_at_checkpoint;
    let refund = clamp_i128(c.remaining_deposit - accrued) as i128;
    (PaymentStream { status: StreamStatus::Cancelled, remaining_deposit: accrued, ..c }, accrued, refund)
}

/// The effects of cancelling the stream `id`: the accrued part to the receiver, the rest back
/// to the sender, then the announcement.
pub open spec fn cancel_effects(id: String, s: PaymentStream, now: u64, contract: Address) -> Seq<Effect> {
    let (c, accrued, refund) = cancelled(s, now);
    let e1: Seq<Effect> = if accrued > 0 {
        seq![transfer_effect(s.token, contract, s.receiver, accrued, TransferMode::Required)]
    } else {
        Seq::empty()
    };
    let e2 = if refund > 0 {
        e1.push(transfer_effect(s.token, contract, s.sender, refund, TransferMode::Required))
    } else {
        e1
    };
    e2.push(Effect::Emit(Event::StreamCancelled { stream_id: id, sender: s.sender, accrued, refund }))
}

/// The stream after paying out `w` of what it has accrued.
pub open spec fn paid_out(c: PaymentStream, w: i128) -> PaymentStream {
    let rest = clamp_i128(c.remaining_deposit - w) as i128;
    PaymentStream {
        accrued_at_checkpoint: clamp_i128(c.accrued_at_checkpoint - w) as i128,
        remaining_deposit: rest,
        status: if rest == 0 {
            StreamStatus::Exhausted
        } else {
            c.status
        },
        ..c
    }
}

/// Entries `page * size .. min(count, page * size + size)` of a list, with the size capped at
/// one hundred and the multiplication and addition saturating at `u32::MAX`.
pub open spec fn stream_page(ids: Seq<String>, page: u32, page_size: u32) -> (int, int) {
    let size = if page_size < 100 {
        page_size as int
    } else {
        100
    };
    let start = if page * size > u32::MAX {
        u32::MAX as int
    } else {
        page * size
    };
    let end0 = if start + size > u32::MAX {
        u32::MAX as int
    } else {
        start + size
    };
    let end = if end0 < ids.len() {
        end0
    } else {
        ids.len() as int
    };
    (start, end)
}

/// The records of the ids `ids[lo..hi]` that exist, in order.
pub open spec fn stream_records(streams: Map<Seq<char>, PaymentStream>, ids: Seq<String>, lo: int, hi: int) -> Seq<PaymentStream>
    decreases hi - lo,
{
    if hi <= lo {
        Seq::empty()
    } else {
        let init = stream_records(streams, ids, lo, hi - 1);
        if streams.contains_key(ids[hi - 1]@) {
            init.push(streams[ids[hi - 1]@])
        } else {
            init
        }
    }
}

/// Payment streaming: continuous payments from a deposit, with withdrawals, top-ups, rate
/// changes and cancellation.
pub struct PaymentStreaming {
    /// The address of the contract holding the deposits.
    pub contract_address: Address,
    pub streams: Table<PaymentStream>,
    /// Each sender's stream ids, in creation order.
    pub sender_index: Table<Vec<String>>,
    /// Each receiver's stream ids, in creation order.
    pub recipient_index: Table<Vec<String>>,
    /// Streams whose withdrawal lock is held.
    pub locks: Table<bool>,
    /// Effects of the calls so far, for the host to carry out in order.
    pub effects: Vec<Effect>,
}

impl PaymentStreaming {
    /// Every store is consistent and every stream's books balance.
    pub open spec fn wf(&self) -> bool {
        &&& self.streams.wf()
        &&& self.sender_index.wf()
        &&& self.recipient_index.wf()
        &&& self.locks.wf()
        &&& forall|k: Seq<char>| #[trigger] self.streams@.contains_key(k) ==> stream_ok(self.streams@[k])
    }

    /// Whether the withdrawal lock of `stream_id` is held.
    pub open spec fn locked(&self, stream_id: Seq<char>) -> bool {
        self.locks@.contains_key(stream_id)
    }

    /// Payment streaming with no streams.
    pub fn new(contract_address: Address) -> (r: Self)
        ensures
            r.wf(),
            r.contract_address == contract_address,
            r.streams@ == Map::<Seq<char>, PaymentStream>::empty(),
            r.sender_index@ == Map::<Seq<char>, Vec<String>>::empty(),
            r.recipient_index@ == Map::<Seq<char>, Vec<String>>::empty(),
            r.locks@ == Map::<Seq<char>, bool>::empty(),
            r.effects@ == Seq::<Effect>::empty(),
    {
        PaymentStreaming {
            contract_address,
            streams: Table::new(),
            sender_index: Table::new(),
            recipient_index: Table::new(),
            locks: Table::new(),
            effects: Vec::new(),
        }
    }

    /// Version of the streaming logic.
    pub fn version() -> (r: u32)
        ensures
            r == 1,
    {
        1
    }

    /// The sender opens a stream of `deposit` tokens to `receiver` at `rate_per_second`; the
    /// deposit moves from the sender to the contract. Withdrawals are allowed from the start.
    pub fn create_stream(
        &mut self,
        sender: Address,
        receiver: Address,
        token: Address,
        rate_per_second: i128,
        deposit: i128,
        stream_id: String,
        now: u64,
    ) -> (r: Result<PaymentStream, StreamError>)
        requires
            old(self).wf(),
        ensures
            final(self).wf(),
            rate_per_second <= 0 ==> r == Err::<PaymentStream, StreamError>(StreamError::InvalidRate) && *final(self) == *old(self),
            rate_per_second > 0 && deposit <= 0 ==> r == Err::<PaymentStream, StreamError>(StreamError::InvalidDeposit)
                && *final(self) == *old(self),
            rate_per_second > 0 && deposit > 0 && old(self).streams@.contains_key(stream_id@) ==> r == Err::<
                PaymentStream,
                StreamError,
            >(StreamError::StreamAlreadyExists) && *final(self) == *old(self),
            rate_per_second > 0 && deposit > 0 && !old(self).streams@.contains_key(stream_id@) ==> {
                let s = PaymentStream {
                    stream_id,
                    sender,
                    receiver,
                    destination: None,
                    token,
                    rate_per_second,
                    remaining_deposit: deposit,
                    last_checkpoint_at: now,
                    accrued_at_checkpoint: 0,
                    status: StreamStatus::Active,
                    milestones_approved: true,
                };
                &&& r == Ok::<PaymentStream, StreamError>(s)
                &&& final(self).streams@ == old(self).streams@.insert(stream_id@, s)
                &&& final(self).sender_index@.dom() == old(self).sender_index@.dom().insert(sender@)
                &&& final(self).sender_index@[sender@]@ == list_or_empty(old(self).sender_index@, sender@).push(stream_id)
                &&& forall|k: Seq<char>|
                    k != sender@ && #[trigger] old(self).sender_index@.contains_key(k) ==> final(self).sender_index@[k]
                        == old(self).sender_index@[k]
                &&& final(self).recipient_index@.dom() == old(self).recipient_index@.dom().insert(receiver@)
                &&& final(self).recipient_index@[receiver@]@ == list_or_empty(old(self).recipient_index@, receiver@).push(
                    stream_id,
                )
                &&& forall|k: Seq<char>|
                    k != receiver@ && #[trigger] old(self).recipient_index@.contains_key(k) ==> final(self).recipient_index@[k]
                        == old(self).recipient_index@[k]
                &&& final(self).effects@ == old(self).effects@ + seq![
                    transfer_effect(token, sender, old(self).contract_address, deposit, TransferMode::Required),
                    Effect::Emit(Event::StreamCreated { stream_id, sender, receiver, deposit }),
                ]
                &&& final(self).locks == old(self).locks
                &&& final(self).contract_address == old(self).contract_address
            },
    {
        if rate_per_second <= 0 {
            return Err(StreamError::InvalidRate);
        }
        if deposit <= 0 {
            return Err(StreamError::InvalidDeposit);
        }
        if self.streams.contains(&stream_id) {
            return Err(StreamError::StreamAlreadyExists);
        }
        let ghost s0 = *self;
        let stream = PaymentStream {
            stream_id: stream_id.clone(),
            sender: sender.clone(),
            receiver: receiver.clone(),
            destination: None,
            token: token.clone(),
            rate_per_second,
            remaining_deposit: deposit,
            last_checkpoint_at: now,
            accrued_at_checkpoint: 0,
            status: StreamStatus::Active,
            milestones_approved: true,
        };
        self.streams.set(stream_id.clone(), stream.clone());
        let mut slist = match self.sender_index.take(&sender) {
            Some(l) => l,
            None => Vec::new(),
        };
        slist.push(stream_id.clone());
        self.sender_index.set(sender.clone(), slist);
        let mut rlist = match self.recipient_index.take(&receiver) {
            Some(l) => l,
            None => Vec::new(),
        };
        rlist.push(stream_id.clone());
        self.recipient_index.set(receiver.clone(), rlist);
        self.effects.push(make_transfer(token, sender.clone(), self.contract_address.clone(), deposit, TransferMode::Required));
        self.effects.push(Effect::Emit(Event::StreamCreated { stream_id, sender: sender.clone(), receiver: receiver.clone(), deposit }));
        proof {
            assert(self.sender_index@.dom() =~= s0.sender_index@.dom().insert(sender@));
            assert(self.recipient_index@.dom() =~= s0.recipient_index@.dom().insert(receiver@));
        }
        Ok(stream)
    }

    /// The stream stored under `stream_id`.
    pub fn get_stream(&self, stream_id: &String) -> (r: Result<PaymentStream, StreamError>)
        requires
            self.wf(),
        ensures
            self.streams@.contains_key(stream_id@) ==> r == Ok::<PaymentStream, StreamError>(self.streams@[stream_id@]),
            !self.streams@.contains_key(stream_id@) ==> r == Err::<PaymentStream, StreamError>(StreamError::StreamNotFound),
    {
        match self.streams.get(stream_id) {
            Some(s) => Ok(s.clone()),
            None => Err(StreamError::StreamNotFound),
        }
    }

    /// What the stream has accrued at `now` (see [`accrued_at`]); nothing is stored.
    pub fn get_accrued_amount(&self, stream_id: &String, now: u64) -> (r: Result<i128, StreamError>)
        requires
            self.wf(),
        ensures
            self.streams@.contains_key(stream_id@) ==> r == Ok::<i128, StreamError>(accrued_at(self.streams@[stream_id@], now)),
            !self.streams@.contains_key(stream_id@) ==> r == Err::<i128, StreamError>(StreamError::StreamNotFound),
    {
        let s = match self.streams.get(stream_id) {
            Some(s) => s,
            None => {
                return Err(StreamError::StreamNotFound);
            },
        };
        if s.status != StreamStatus::Active {
            return Ok(s.accrued_at_checkpoint);
        }
        let elapsed = sat_sub_u64(now, s.last_checkpoint_at);
        let newly = sat_mul(elapsed as i128, s.rate_per_second);
        let total = sat_add(s.accrued_at_checkpoint, newly);
        if total < s.remaining_deposit {
            Ok(total)
        } else {
            Ok(s.remaining_deposit)
        }
    }

    /// Accrues a stream up to `now` (see [`checkpoint`]).
    fn checkpointed(s: &PaymentStream, now: u64) -> (r: PaymentStream)
        requires
            stream_ok(*s),
        ensures
            r == checkpoint(*s, now),
            stream_ok(r),
    {
        let elapsed = sat_sub_u64(now, s.last_checkpoint_at);
        let owed = sat_mul(elapsed as i128, s.rate_per_second);
        let room = s.remaining_deposit - s.accrued_at_checkpoint;
        let newly = if owed < room {
            owed
        } else {
            room
        };
        assert(owed >= 0) by (nonlinear_arith)
            requires
                owed == clamp_i128(elapsed * s.rate_per_second),
                elapsed >= 0,
                s.rate_per_second > 0,
        ;
        PaymentStream {
            accrued_at_checkpoint: sat_add(s.accrued_at_checkpoint, newly),
            last_checkpoint_at: now,
            ..s.clone()
        }
    }

    /// The receiver sets where withdrawals of an active stream go; anyone may then trigger them.
    pub fn set_stream_destination(&mut self, recipient: &Address, stream_id: &String, destination: Address) -> (r: Result<
        (),
        StreamError,
    >)
        requires
            old(self).wf(),
        ensures
            final(self).wf(),
            !old(self).streams@.contains_key(stream_id@) ==> r == Err::<(), StreamError>(StreamError::StreamNotFound) && *final(self)
                == *old(self),
            old(self).streams@.contains_key(stream_id@) ==> {
                let s = old(self).streams@[stream_id@];
                if s.receiver@ != recipient@ {
                    r == Err::<(), StreamError>(StreamError::Unauthorized) && *final(self) == *old(self)
                } else if s.status != StreamStatus::Active {
                    r == Err::<(), StreamError>(StreamError::StreamNotActive) && *final(self) == *old(self)
                } else {
                    &&& r is Ok
                    &&& final(self).streams@ == old(self).streams@.insert(stream_id@, PaymentStream { destination: Some(destination), ..s })
                    &&& final(self).effects@ == old(self).effects@.push(
                        Effect::Emit(Event::StreamDestinationSet { stream_id: *stream_id, recipient: *recipient, destination }),
                    )
                    &&& *final(self) == (PaymentStreaming { streams: final(self).streams, effects: final(self).effects, ..*old(self) })
                }
            },
    {
        let s = match self.streams.get(stream_id) {
            Some(s) => s.clone(),
            None => {
                return Err(StreamError::StreamNotFound);
            },
        };
        if s.receiver != *recipient {
            return Err(StreamError::Unauthorized);
        }
        if s.status != StreamStatus::Active {
            return Err(StreamError::StreamNotActive);
        }
        self.streams.set(stream_id.clone(), PaymentStream { destination: Some(destination.clone()), ..s });
        self.effects.push(
            Effect::Emit(Event::StreamDestinationSet { stream_id: stream_id.clone(), recipient: recipient.clone(), destination }),
        );
        Ok(())
    }

    /// The sender approves the stream's milestones, allowing withdrawals.
    pub fn approve_stream_milestone(&mut self, sender: &Address, stream_id: &String) -> (r: Result<(), StreamError>)
        requires
            old(self).wf(),
        ensures
            final(self).wf(),
            !old(self).streams@.contains_key(stream_id@) ==> r == Err::<(), StreamError>(StreamError::StreamNotFound) && *final(self)
                == *old(self),
            old(self).streams@.contains_key(stream_id@) ==> {
                let s = old(self).streams@[stream_id@];
                if s.sender@ != sender@ {
                    r == Err::<(), StreamError>(StreamError::Unauthorized) && *final(self) == *old(self)
                } else {
                    &&& r is Ok
                    &&& final(self).streams@ == old(self).streams@.insert(stream_id@, PaymentStream { milestones_approved: true, ..s })
                    &&& final(self).effects@ == old(self).effects@.push(
                        Effect::Emit(Event::StreamMilestoneApproved { stream_id: *stream_id, sender: *sender }),
                    )
                    &&& *final(self) == (PaymentStreaming { streams: final(self).streams, effects: final(self).effects, ..*old(self) })
                }
            },
    {
        let s = match self.streams.get(stream_id) {
            Some(s) => s.clone(),
            None => {
                return Err(StreamError::StreamNotFound);
            },
        };
        if s.sender != *sender {
            return Err(StreamError::Unauthorized);
        }
        self.streams.set(stream_id.clone(), PaymentStream { milestones_approved: true, ..s });
        self.effects.push(Effect::Emit(Event::StreamMilestoneApproved { stream_id: stream_id.clone(), sender: sender.clone() }));
        Ok(())
    }

    /// The rate change of an active stream at `now`, with the surplus (see [`rate_changed`]).
    fn change_rate(s: &PaymentStream, new_rate: i128, now: u64) -> (r: (PaymentStream, i128))
        requires
            stream_ok(*s),
            new_rate > 0,
        ensures
            r.0 == rate_changed(*s, new_rate, now).0,
            r.1 == rate_changed(*s, new_rate, now).1,
            stream_ok(r.0),
            r.1 >= 0,
    {
        let old_rate = s.rate_per_second;
        let c = Self::checkpointed(s, now);
        let surplus: i128 = if new_rate < old_rate {
            let unlocked = sat_sub(c.remaining_deposit, c.accrued_at_checkpoint);
            if unlocked > 0 && old_rate > 0 {
                let secs = unlocked / old_rate;
                let needed = sat_mul(secs, new_rate);
                assert(0 <= secs * new_rate <= unlocked) by (nonlinear_arith)
                    requires
                        secs == unlocked / old_rate,
                        unlocked > 0,
                        old_rate > 0,
                        0 < new_rate < old_rate,
                ;
                let sur = sat_sub(unlocked, needed);
                if sur > 0 {
                    sur
                } else {
                    0
                }
            } else {
                0
            }
        } else {
            0
        };
        let updated = PaymentStream {
            rate_per_second: new_rate,
            remaining_deposit: sat_sub(c.remaining_deposit, surplus),
            ..c
        };
        (updated, surplus)
    }

    /// The sender lowers the rate of an active stream. What accrued so far is checkpointed at
    /// the old rate, and the deposit the new rate no longer needs goes back to the sender (see
    /// [`rate_surplus`]).
    pub fn decrease_rate_per_second(&mut self, sender: &Address, stream_id: &String, new_rate: i128, now: u64) -> (r:
        Result<(), StreamError>)
        requires
            old(self).wf(),
        ensures
            final(self).wf(),
            !old(self).streams@.contains_key(stream_id@) ==> r == Err::<(), StreamError>(StreamError::StreamNotFound) && *final(self)
                == *old(self),
            old(self).streams@.contains_key(stream_id@) ==> {
                let s = old(self).streams@[stream_id@];
                let (s2, surplus) = rate_changed(s, new_rate, now);
                if s.sender@ != sender@ {
                    r == Err::<(), StreamError>(StreamError::Unauthorized) && *final(self) == *old(self)
                } else if s.status != StreamStatus::Active {
                    r == Err::<(), StreamError>(StreamError::StreamNotActive) && *final(self) == *old(self)
                } else if new_rate <= 0 {
                    r == Err::<(), StreamError>(StreamError::InvalidRate) && *final(self) == *old(self)
                } else if new_rate >= s.rate_per_second {
                    r == Err::<(), StreamError>(StreamError::RateNotDecreased) && *final(self) == *old(self)
                } else {
                    let done = Effect::Emit(
                        Event::StreamRateDecreased {
                            stream_id: *stream_id,
                            sender: *sender,
                            old_rate: s.rate_per_second,
                            new_rate,
                            surplus: surplus as i128,
                        },
                    );
                    &&& r is Ok
                    &&& final(self).streams@ == old(self).streams@.insert(stream_id@, s2)
                    &&& final(self).effects@ == old(self).effects@ + (if surplus > 0 {
                        seq![
                            transfer_effect(s.token, old(self).contract_address, s.sender, surplus as i128, TransferMode::Required),
                            done,
                        ]
                    } else {
                        seq![done]
                    })
                    &&& *final(self) == (PaymentStreaming { streams: final(self).streams, effects: final(self).effects, ..*old(self) })
                }
            },
    {
        let s = match self.streams.get(stream_id) {
            Some(s) => s.clone(),
            None => {
                return Err(StreamError::StreamNotFound);
            },
        };
        if s.sender != *sender {
            return Err(StreamError::Unauthorized);
        }
        if s.status != StreamStatus::Active {
            return Err(StreamError::StreamNotActive);
        }
        if new_rate <= 0 {
            return Err(StreamError::InvalidRate);
        }
        if new_rate >= s.rate_per_second {
            return Err(StreamError::RateNotDecreased);
        }
        let ghost s0 = *self;
        let old_rate = s.rate_per_second;
        let (updated, surplus) = Self::change_rate(&s, new_rate, now);
        let token = updated.token.clone();
        let to = updated.sender.clone();
        self.streams.set(stream_id.clone(), updated);
        if surplus > 0 {
            self.effects.push(make_transfer(token, self.contract_address.clone(), to, surplus, TransferMode::Required));
        }
        self.effects.push(
            Effect::Emit(
                Event::StreamRateDecreased { stream_id: stream_id.clone(), sender: sender.clone(), old_rate, new_rate, surplus },
            ),
        );
        proof {
            let done = Effect::Emit(
                Event::StreamRateDecreased { stream_id: *stream_id, sender: *sender, old_rate: s.rate_per_second, new_rate, surplus },
            );
            if surplus > 0 {
                assert(self.effects@ =~= s0.effects@ + seq![
                    transfer_effect(s.token, s0.contract_address, s.sender, surplus, TransferMode::Required),
                    done,
                ]);
            } else {
                assert(self.effects@ =~= s0.effects@ + seq![done]);
            }
        }
        Ok(())
    }

    /// The sender changes the rate of an active stream, up or down, while the contract is not
    /// paused. Accrual is checkpointed at the old rate; a decrease gives the surplus back as
    /// [`Self::decrease_rate_per_second`] does.
    pub fn update_stream_rate(&mut self, sender: &Address, stream_id: &String, new_rate: i128, now: u64, paused: bool) -> (r:
        Result<(), StreamError>)
        requires
            old(self).wf(),
        ensures
            final(self).wf(),
            paused ==> r == Err::<(), StreamError>(StreamError::ContractPaused) && *final(self) == *old(self),
            !paused && !old(self).streams@.contains_key(stream_id@) ==> r == Err::<(), StreamError>(StreamError::StreamNotFound)
                && *final(self) == *old(self),
            !paused && old(self).streams@.contains_key(stream_id@) ==> {
                let s = old(self).streams@[stream_id@];
                let (s2, surplus) = rate_changed(s, new_rate, now);
                if s.sender@ != sender@ {
                    r == Err::<(), StreamError>(StreamError::Unauthorized) && *final(self) == *old(self)
                } else if s.status != StreamStatus::Active {
                    r == Err::<(), StreamError>(StreamError::StreamNotActive) && *final(self) == *old(self)
                } else if new_rate <= 0 {
                    r == Err::<(), StreamError>(StreamError::InvalidRate) && *final(self) == *old(self)
                } else {
                    let done = Effect::Emit(
                        Event::StreamRateUpdated {
                            stream_id: *stream_id,
                            sender: *sender,
                            old_rate: s.rate_per_second,
                            new_rate,
                            surplus: surplus as i128,
                        },
                    );
                    &&& r is Ok
                    &&& final(self).streams@ == old(self).streams@.insert(stream_id@, s2)
                    &&& final(self).effects@ == old(self).effects@ + (if surplus > 0 {
                        seq![
                            transfer_effect(s.token, old(self).contract_address, s.sender, surplus as i128, TransferMode::Required),
                            done,
                        ]
                    } else {
                        seq![done]
                    })
                    &&& *final(self) == (PaymentStreaming { streams: final(self).streams, effects: final(self).effects, ..*old(self) })
                }
            },
    {
        if paused {
            return Err(StreamError::ContractPaused);
        }
        let s = match self.streams.get(stream_id) {
            Some(s) => s.clone(),
            None => {
                return Err(StreamError::StreamNotFound);
            },
        };
        if s.sender != *sender {
            return Err(StreamError::Unauthorized);
        }
        if s.status != StreamStatus::Active {
            return Err(StreamError::StreamNotActive);
        }
        if new_rate <= 0 {
            return Err(StreamError::InvalidRate);
        }
        let ghost s0 = *self;
        let old_rate = s.rate_per_second;
        let (updated, surplus) = Self::change_rate(&s, new_rate, now);
        let token = updated.token.clone();
        let to = updated.sender.clone();
        self.streams.set(stream_id.clone(), updated);
        if surplus > 0 {
            self.effects.push(make_transfer(token, self.contract_address.clone(), to, surplus, TransferMode::Required));
        }
        self.effects.push(
            Effect::Emit(
                Event::StreamRateUpdated { stream_id: stream_id.clone(), sender: sender.clone(), old_rate, new_rate, surplus },
            ),
        );
        proof {
            let done = Effect::Emit(
                Event::StreamRateUpdated { stream_id: *stream_id, sender: *sender, old_rate: s.rate_per_second, new_rate, surplus },
            );
            if surplus > 0 {
                assert(self.effects@ =~= s0.effects@ + seq![
                    transfer_effect(s.token, s0.contract_address, s.sender, surplus, TransferMode::Required),
                    done,
                ]);
            } else {
                assert(self.effects@ =~= s0.effects@ + seq![done]);
            }
        }
        Ok(())
    }
}

/// The record stored under `k`, if any.
pub open spec fn lookup(m: Map<Seq<char>, PaymentStream>, k: Seq<char>) -> Option<PaymentStream> {
    if m.contains_key(k) {
        Some(m[k])
    } else {
        None
    }
}

/// What one item of a batch does: the record to store under its stream id (none: unchanged),
/// its effects, and the stream ids it adds to the answer.
pub type StepOut = (Option<PaymentStream>, Seq<Effect>, Seq<String>);

/// The state of a batch: the streams, the effects so far and the stream ids answered so far.
pub type BatchState = (Map<Seq<char>, PaymentStream>, Seq<Effect>, Seq<String>);

/// A batch run item by item, in order, from `st`; the first failing item fails the whole
/// batch. `key` gives the stream id of an item, and `step` what the item does given the
/// record stored under that id and the ids answered so far.
pub open spec fn run_batch<T>(
    st: BatchState,
    items: Seq<T>,
    key: spec_fn(T) -> Seq<char>,
    step: spec_fn(Option<PaymentStream>, Seq<String>, T) -> Result<StepOut, StreamError>,
) -> Result<BatchState, StreamError>
    decreases items.len(),
{
    if items.len() == 0 {
        Ok(st)
    } else {
        match run_batch(st, items.drop_last(), key, step) {
            Err(e) => Err(e),
            Ok(s1) => {
                let it = items.last();
                match step(lookup(s1.0, key(it)), s1.2, it) {
                    Err(e) => Err(e),
                    Ok(o) => Ok(
                        (
                            match o.0 {
                                Some(rec) => s1.0.insert(key(it), rec),
                                None => s1.0,
                            },
                            s1.1 + o.1,
                            s1.2 + o.2,
                        ),
                    ),
                }
            },
        }
    }
}

/// A batch whose first items fail fails as they do.
pub proof fn lemma_run_batch_prefix_err<T>(
    st: BatchState,
    items: Seq<T>,
    key: spec_fn(T) -> Seq<char>,
    step: spec_fn(Option<PaymentStream>, Seq<String>, T) -> Result<StepOut, StreamError>,
    j: int,
)
    requires
        0 <= j <= items.len(),
        run_batch(st, items.take(j), key, step) is Err,
    ensures
        run_batch(st, items, key, step) == run_batch(st, items.take(j), key, step),
    decreases items.len() - j,
{
    if j == items.len() {
        assert(items.take(j) =~= items);
    } else {
        assert(items.take(j + 1).drop_last() =~= items.take(j));
        lemma_run_batch_prefix_err(st, items, key, step, j + 1);
    }
}

/// What cancelling the stream `id`, stored as `cur`, by `sender` at `now` does.
pub open spec fn cancel_spec(cur: Option<PaymentStream>, id: String, sender: Address, now: u64, contract: Address) -> Result<
    (PaymentStream, Seq<Effect>),
    StreamError,
> {
    match cur {
        None => Err(StreamError::StreamNotFound),
        Some(s) => if s.sender@ != sender@ {
            Err(StreamError::Unauthorized)
        } else if s.status != StreamStatus::Active {
            Err(StreamError::StreamNotActive)
        } else {
            Ok((cancelled(s, now).0, cancel_effects(id, s, now, contract)))
        },
    }
}

/// One item of a batch cancellation that stops at the first failure.
pub open spec fn cancel_step(sender: Address, now: u64, contract: Address) -> spec_fn(
    Option<PaymentStream>,
    Seq<String>,
    String,
) -> Result<StepOut, StreamError> {
    |cur: Option<PaymentStream>, done: Seq<String>, id: String|
        match cancel_spec(cur, id, sender, now, contract) {
            Err(e) => Err(e),
            Ok(o) => Ok((Some(o.0), o.1, seq![id])),
        }
}

/// One item of a batch cancellation that passes over streams it cannot cancel.
pub open spec fn cancel_or_skip_step(sender: Address, now: u64, contract: Address) -> spec_fn(
    Option<PaymentStream>,
    Seq<String>,
    String,
) -> Result<StepOut, StreamError> {
    |cur: Option<PaymentStream>, done: Seq<String>, id: String|
        match cancel_spec(cur, id, sender, now, contract) {
            Err(e) => Ok((None, Seq::<Effect>::empty(), Seq::<String>::empty())),
            Ok(o) => Ok((Some(o.0), o.1, seq![id])),
        }
}

/// The stream id of a batch item that is a stream id.
pub open spec fn id_key() -> spec_fn(String) -> Seq<char> {
    |id: String| id@
}

/// Most streams one batch cancellation that passes over failures looks at.
pub const MAX_BATCH_CANCEL: usize = 20;

impl PaymentStreaming {
    /// Cancels the stream `id`, stored as `cur`, by `sender` at `now`; nothing is stored.
    fn cancel_one(cur: Option<PaymentStream>, id: &String, sender: &Address, now: u64, contract: &Address) -> (r: Result<
        (PaymentStream, Vec<Effect>),
        StreamError,
    >)
        requires
            cur matches Some(s) ==> stream_ok(s),
        ensures
            match r {
                Ok(o) => cancel_spec(cur, *id, *sender, now, *contract) == Ok::<(PaymentStream, Seq<Effect>), StreamError>((o.0, o.1@))
                    && stream_ok(o.0),
                Err(e) => cancel_spec(cur, *id, *sender, now, *contract) == Err::<(PaymentStream, Seq<Effect>), StreamError>(e),
            },
    {
        let s = match cur {
            Some(s) => s,
            None => {
                return Err(StreamError::StreamNotFound);
            },
        };
        if s.sender != *sender {
            return Err(StreamError::Unauthorized);
        }
        if s.status != StreamStatus::Active {
            return Err(StreamError::StreamNotActive);
        }
        let c = Self::checkpointed(&s, now);
        let accrued = c.accrued_at_checkpoint;
        let refund = sat_sub(c.remaining_deposit, accrued);
        let mut out: Vec<Effect> = Vec::new();
        if accrued > 0 {
            out.push(make_transfer(s.token.clone(), contract.clone(), s.receiver.clone(), accrued, TransferMode::Required));
        }
        if refund > 0 {
            out.push(make_transfer(s.token.clone(), contract.clone(), s.sender.clone(), refund, TransferMode::Required));
        }
        out.push(Effect::Emit(Event::StreamCancelled { stream_id: id.clone(), sender: s.sender.clone(), accrued, refund }));
        let updated = PaymentStream { status: StreamStatus::Cancelled, remaining_deposit: accrued, ..c };
        proof {
            assert(out@ =~= cancel_effects(*id, s, now, *contract));
        }
        Ok((updated, out))
    }

    /// The sender cancels an active stream: what accrued up to now goes to the receiver, the
    /// rest of the deposit back to the sender, and the stream keeps only the accrued part.
    pub fn cancel_stream(&mut self, sender: &Address, stream_id: &String, now: u64) -> (r: Result<(), StreamError>)
        requires
            old(self).wf(),
        ensures
            final(self).wf(),
            match cancel_spec(lookup(old(self).streams@, stream_id@), *stream_id, *sender, now, old(self).contract_address) {
                Err(e) => r == Err::<(), StreamError>(e) && *final(self) == *old(self),
                Ok(o) => {
                    &&& r is Ok
                    &&& final(self).streams@ == old(self).streams@.insert(stream_id@, o.0)
                    &&& final(self).effects@ == old(self).effects@ + o.1
                    &&& *final(self) == (PaymentStreaming { streams: final(self).streams, effects: final(self).effects, ..*old(self) })
                },
            },
    {
        let cur = match self.streams.get(stream_id) {
            Some(s) => Some(s.clone()),
            None => None,
        };
        let (updated, mut out) = Self::cancel_one(cur, stream_id, sender, now, &self.contract_address)?;
        self.streams.set(stream_id.clone(), updated);
        self.effects.append(&mut out);
        Ok(())
    }

    /// The sender cancels several active streams at once, in order; if any of them cannot be
    /// cancelled nothing is. Answers the cancelled ids.
    pub fn cancel_multiple_streams(&mut self, sender: &Address, stream_ids: &Vec<String>, now: u64) -> (r: Result<
        Vec<String>,
        StreamError,
    >)
        requires
            old(self).wf(),
        ensures
            final(self).wf(),
            match run_batch(
                (old(self).streams@, Seq::<Effect>::empty(), Seq::<String>::empty()),
                stream_ids@,
                id_key(),
                cancel_step(*sender, now, old(self).contract_address),
            ) {
                Err(e) => r == Err::<Vec<String>, StreamError>(e) && *final(self) == *old(self),
                Ok(st) => {
                    &&& (r matches Ok(v) && v@ == st.2)
                    &&& final(self).streams@ == st.0
                    &&& final(self).effects@ == old(self).effects@ + st.1
                    &&& *final(self) == (PaymentStreaming { streams: final(self).streams, effects: final(self).effects, ..*old(self) })
                },
            },
    {
        let ghost st0: BatchState = (self.streams@, Seq::<Effect>::empty(), Seq::<String>::empty());
        let ghost step = cancel_step(*sender, now, self.contract_address);
        // A dry run on a scratch copy of the touched streams, so that a failure changes nothing.
        let mut scratch: Table<PaymentStream> = Table::new();
        let mut i: usize = 0;
        let ghost mut gst: BatchState = st0;
        while i < stream_ids.len()
            invariant
                self.wf(),
                *self == *old(self),
                st0 == (self.streams@, Seq::<Effect>::empty(), Seq::<String>::empty()),
                step == cancel_step(*sender, now, self.contract_address),
                scratch.wf(),
                forall|k: Seq<char>| #[trigger] scratch@.contains_key(k) ==> stream_ok(scratch@[k]),
                i <= stream_ids@.len(),
                run_batch(st0, stream_ids@.take(i as int), id_key(), step) == Ok::<BatchState, StreamError>(gst),
                gst.0 == self.streams@.union_prefer_right(scratch@),
            decreases stream_ids.len() - i,
        {
            let id = &stream_ids[i];
            proof {
                assert(stream_ids@.take(i as int + 1).drop_last() =~= stream_ids@.take(i as int));
                assert(stream_ids@.take(i as int + 1).last() == stream_ids@[i as int]);
            }
            let cur = match scratch.get(id) {
                Some(s) => Some(s.clone()),
                None => match self.streams.get(id) {
                    Some(s) => Some(s.clone()),
                    None => None,
                },
            };
            assert(cur == lookup(gst.0, id@));
            match Self::cancel_one(cur, id, sender, now, &self.contract_address) {
                Ok((updated, out)) => {
                    let ghost sc = scratch@;
                    proof {
                        gst = (gst.0.insert(id@, updated), gst.1 + out@, gst.2 + seq![*id]);
                    }
                    scratch.set(id.clone(), updated);
                    proof {
                        assert(gst.0 =~= self.streams@.union_prefer_right(scratch@));
                    }
                },
                Err(e) => {
                    proof {
                        lemma_run_batch_prefix_err(st0, stream_ids@, id_key(), step, i as int + 1);
                    }
                    return Err(e);
                },
            }
            i = i + 1;
        }
        proof {
            assert(stream_ids@.take(stream_ids@.len() as int) =~= stream_ids@);
        }
        // Every cancellation succeeds now.
        let ghost final_st = gst;
        let mut cancelled_ids: Vec<String> = Vec::new();
        let mut j: usize = 0;
        let ghost mut generated: Seq<Effect> = Seq::empty();
        proof {
            assert(stream_ids@.take(0) =~= Seq::<String>::empty());
            assert(cancelled_ids@ =~= Seq::<String>::empty());
        }
        while j < stream_ids.len()
            invariant
                self.wf(),
                st0 == (old(self).streams@, Seq::<Effect>::empty(), Seq::<String>::empty()),
                step == cancel_step(*sender, now, old(self).contract_address),
                run_batch(st0, stream_ids@, id_key(), step) == Ok::<BatchState, StreamError>(final_st),
                j <= stream_ids@.len(),
                run_batch(st0, stream_ids@.take(j as int), id_key(), step) == Ok::<BatchState, StreamError>(
                    (self.streams@, generated, cancelled_ids@),
                ),
                self.effects@ == old(self).effects@ + generated,
                *self == (PaymentStreaming { streams: self.streams, effects: self.effects, ..*old(self) }),
            decreases stream_ids.len() - j,
        {
            let id = &stream_ids[j];
            proof {
                assert(stream_ids@.take(j as int + 1).drop_last() =~= stream_ids@.take(j as int));
                assert(stream_ids@.take(j as int + 1).last() == stream_ids@[j as int]);
                if run_batch(st0, stream_ids@.take(j as int + 1), id_key(), step) is Err {
                    lemma_run_batch_prefix_err(st0, stream_ids@, id_key(), step, j as int + 1);
                }
            }
            let cur = match self.streams.get(id) {
                Some(s) => Some(s.clone()),
                None => None,
            };
            assert(cur == lookup(self.streams@, id@));
            match Self::cancel_one(cur, id, sender, now, &self.contract_address) {
                Ok((updated, mut out)) => {
                    proof {
                        generated = generated + out@;
                    }
                    let ghost ids_before = cancelled_ids@;
                    self.streams.set(id.clone(), updated);
                    self.effects.append(&mut out);
                    cancelled_ids.push(id.clone());
                    proof {
                        assert(self.effects@ =~= old(self).effects@ + generated);
                        assert(cancelled_ids@ =~= ids_before + seq![*id]);
                    }
                },
                Err(e) => {
                    return Err(e);
                },
            }
            j = j + 1;
        }
        proof {
            assert(stream_ids@.take(stream_ids@.len() as int) =~= stream_ids@);
        }
        Ok(cancelled_ids)
    }
}

/// The stream id of a top-up item.
pub open spec fn top_up_key() -> spec_fn((String, i128)) -> Seq<char> {
    |t: (String, i128)| t.0@
}

/// The stream id of a withdrawal item.
pub open spec fn withdrawal_key() -> spec_fn(WithdrawalRecipient) -> Seq<char> {
    |w: WithdrawalRecipient| w.stream_id@
}

/// One item of a batch top-up by `sender`: the amount is added to an active stream of the
/// sender's and moves from the sender to the contract.
pub open spec fn top_up_step(sender: Address, contract: Address) -> spec_fn(
    Option<PaymentStream>,
    Seq<String>,
    (String, i128),
) -> Result<StepOut, StreamError> {
    |cur: Option<PaymentStream>, done: Seq<String>, t: (String, i128)|
        if t.1 <= 0 {
            Err(StreamError::InvalidDeposit)
        } else {
            match cur {
                None => Err(StreamError::StreamNotFound),
                Some(s) => if s.sender@ != sender@ {
                    Err(StreamError::Unauthorized)
                } else if s.status != StreamStatus::Active {
                    Err(StreamError::StreamNotActive)
                } else {
                    Ok(
                        (
                            Some(PaymentStream { remaining_deposit: clamp_i128(s.remaining_deposit + t.1) as i128, ..s }),
                            seq![
                                transfer_effect(s.token, sender, contract, t.1, TransferMode::Required),
                                Effect::Emit(Event::StreamToppedUp { stream_id: t.0, sender, amount: t.1 }),
                            ],
                            Seq::<String>::empty(),
                        ),
                    )
                },
            }
        }
}

/// One item of a batch withdrawal by `recipient` at `now`: up to the item's amount of what
/// accrued goes to the item's destination (nothing happens when that is zero).
pub open spec fn withdraw_to_step(recipient: Address, now: u64, contract: Address) -> spec_fn(
    Option<PaymentStream>,
    Seq<String>,
    WithdrawalRecipient,
) -> Result<StepOut, StreamError> {
    |cur: Option<PaymentStream>, done: Seq<String>, w: WithdrawalRecipient|
        match cur {
            None => Err(StreamError::StreamNotFound),
            Some(s) => if s.receiver@ != recipient@ {
                Err(StreamError::Unauthorized)
            } else if s.status != StreamStatus::Active {
                Err(StreamError::StreamNotActive)
            } else if !s.milestones_approved {
                Err(StreamError::MilestoneNotApproved)
            } else {
                let c = checkpoint(s, now);
                let capped = if c.accrued_at_checkpoint < w.amount {
                    c.accrued_at_checkpoint
                } else {
                    w.amount
                };
                let wd = if capped > 0 {
                    capped
                } else {
                    0
                };
                if wd == 0 {
                    Ok((None, Seq::<Effect>::empty(), Seq::<String>::empty()))
                } else {
                    Ok(
                        (
                            Some(paid_out(c, wd)),
                            seq![
                                transfer_effect(s.token, contract, w.destination, wd, TransferMode::Required),
                                Effect::Emit(
                                    Event::StreamWithdrawn {
                                        stream_id: w.stream_id,
                                        receiver: recipient,
                                        destination: w.destination,
                                        amount: wd,
                                    },
                                ),
                            ],
                            seq![w.stream_id],
                        ),
                    )
                }
            },
        }
}

/// One stream of a receiver's sweep at `now`, at most `max_streams` being paid: an active,
/// approved stream of the receiver's with something accrued pays it to the receiver; others
/// are passed over. A stream whose withdrawal lock is held (`locks`) fails the sweep.
pub open spec fn sweep_step(recipient: Address, max_streams: u32, now: u64, contract: Address, locks: Map<Seq<char>, bool>) -> spec_fn(
    Option<PaymentStream>,
    Seq<String>,
    String,
) -> Result<StepOut, StreamError> {
    |cur: Option<PaymentStream>, done: Seq<String>, id: String|
        if done.len() >= max_streams {
            Ok((None, Seq::<Effect>::empty(), Seq::<String>::empty()))
        } else {
            match cur {
                None => Err(StreamError::StreamNotFound),
                Some(s) => if s.receiver@ != recipient@ || s.status != StreamStatus::Active || !s.milestones_approved {
                    Ok((None, Seq::<Effect>::empty(), Seq::<String>::empty()))
                } else {
                    let c = checkpoint(s, now);
                    let wd = c.accrued_at_checkpoint;
                    if wd <= 0 {
                        Ok((None, Seq::<Effect>::empty(), Seq::<String>::empty()))
                    } else if locks.contains_key(id@) {
                        Err(StreamError::WithdrawalInProgress)
                    } else {
                        Ok(
                            (
                                Some(paid_out(c, wd)),
                                seq![
                                    transfer_effect(s.token, contract, recipient, wd, TransferMode::Required),
                                    Effect::Emit(
                                        Event::StreamWithdrawn { stream_id: id, receiver: recipient, destination: recipient, amount: wd },
                                    ),
                                ],
                                seq![id],
                            ),
                        )
                    }
                },
            }
        }
}

impl PaymentStreaming {
    /// One item of a batch top-up (see [`top_up_step`]); nothing is stored.
    fn top_up_one(cur: Option<PaymentStream>, item: &(String, i128), sender: &Address, contract: &Address) -> (r: Result<
        (Option<PaymentStream>, Vec<Effect>, Vec<String>),
        StreamError,
    >)
        requires
            cur matches Some(s) ==> stream_ok(s),
        ensures
            match r {
                Ok(o) => top_up_step(*sender, *contract)(cur, Seq::empty(), *item) == Ok::<StepOut, StreamError>((o.0, o.1@, o.2@))
                    && (o.0 matches Some(s2) ==> stream_ok(s2)),
                Err(e) => top_up_step(*sender, *contract)(cur, Seq::empty(), *item) == Err::<StepOut, StreamError>(e),
            },
    {
        let amount = item.1;
        if amount <= 0 {
            return Err(StreamError::InvalidDeposit);
        }
        let s = match cur {
            Some(s) => s,
            None => {
                return Err(StreamError::StreamNotFound);
            },
        };
        if s.sender != *sender {
            return Err(StreamError::Unauthorized);
        }
        if s.status != StreamStatus::Active {
            return Err(StreamError::StreamNotActive);
        }
        let mut out: Vec<Effect> = Vec::new();
        out.push(make_transfer(s.token.clone(), sender.clone(), contract.clone(), amount, TransferMode::Required));
        out.push(Effect::Emit(Event::StreamToppedUp { stream_id: item.0.clone(), sender: sender.clone(), amount }));
        let updated = PaymentStream { remaining_deposit: sat_add(s.remaining_deposit, amount), ..s };
        proof {
            assert(out@ =~= seq![
                transfer_effect(s.token, *sender, *contract, amount, TransferMode::Required),
                Effect::Emit(Event::StreamToppedUp { stream_id: item.0, sender: *sender, amount }),
            ]);
        }
        Ok((Some(updated), out, Vec::new()))
    }

    /// Pays out at most `cap` of what a checkpointed stream has accrued (see [`paid_out`]).
    fn pay_out(c: PaymentStream, wd: i128) -> (r: PaymentStream)
        requires
            stream_ok(c),
            0 < wd <= c.accrued_at_checkpoint,
        ensures
            r == paid_out(c, wd),
            stream_ok(r),
    {
        let rest = sat_sub(c.remaining_deposit, wd);
        let status = if rest == 0 {
            StreamStatus::Exhausted
        } else {
            c.status
        };
        PaymentStream { accrued_at_checkpoint: sat_sub(c.accrued_at_checkpoint, wd), remaining_deposit: rest, status, ..c }
    }

    /// One item of a batch withdrawal (see [`withdraw_to_step`]); nothing is stored.
    fn withdraw_to_one(cur: Option<PaymentStream>, w: &WithdrawalRecipient, recipient: &Address, now: u64, contract: &Address) -> (r:
        Result<(Option<PaymentStream>, Vec<Effect>, Vec<String>), StreamError>)
        requires
            cur matches Some(s) ==> stream_ok(s),
        ensures
            match r {
                Ok(o) => withdraw_to_step(*recipient, now, *contract)(cur, Seq::empty(), *w) == Ok::<StepOut, StreamError>(
                    (o.0, o.1@, o.2@),
                ) && (o.0 matches Some(s2) ==> stream_ok(s2)),
                Err(e) => withdraw_to_step(*recipient, now, *contract)(cur, Seq::empty(), *w) == Err::<StepOut, StreamError>(e),
            },
    {
        let s = match cur {
            Some(s) => s,
            None => {
                return Err(StreamError::StreamNotFound);
            },
        };
        if s.receiver != *recipient {
            return Err(StreamError::Unauthorized);
        }
        if s.status != StreamStatus::Active {
            return Err(StreamError::StreamNotActive);
        }
        if !s.milestones_approved {
            return Err(StreamError::MilestoneNotApproved);
        }
        let c = Self::checkpointed(&s, now);
        let capped = if c.accrued_at_checkpoint < w.amount {
            c.accrued_at_checkpoint
        } else {
            w.amount
        };
        let wd = if capped > 0 {
            capped
        } else {
            0
        };
        if wd == 0 {
            return Ok((None, Vec::new(), Vec::new()));
        }
        let token = c.token.clone();
        let updated = Self::pay_out(c, wd);
        let mut out: Vec<Effect> = Vec::new();
        out.push(make_transfer(token, contract.clone(), w.destination.clone(), wd, TransferMode::Required));
        out.push(
            Effect::Emit(
                Event::StreamWithdrawn {
                    stream_id: w.stream_id.clone(),
                    receiver: recipient.clone(),
                    destination: w.destination.clone(),
                    amount: wd,
                },
            ),
        );
        let mut ids: Vec<String> = Vec::new();
        ids.push(w.stream_id.clone());
        proof {
            assert(ids@ =~= seq![w.stream_id]);
            assert(out@ =~= seq![
                transfer_effect(s.token, *contract, w.destination, wd, TransferMode::Required),
                Effect::Emit(
                    Event::StreamWithdrawn { stream_id: w.stream_id, receiver: *recipient, destination: w.destination, amount: wd },
                ),
            ]);
        }
        Ok((Some(updated), out, ids))
    }

    /// One stream of a receiver's sweep (see [`sweep_step`]); nothing is stored.
    fn sweep_one(
        &self,
        cur: Option<PaymentStream>,
        done: usize,
        id: &String,
        recipient: &Address,
        max_streams: u32,
        now: u64,
    ) -> (r: Result<(Option<PaymentStream>, Vec<Effect>, Vec<String>), StreamError>)
        requires
            self.wf(),
            cur matches Some(s) ==> stream_ok(s),
        ensures
            forall|d: Seq<String>| d.len() == done ==> match r {
                Ok(o) => #[trigger] sweep_step(*recipient, max_streams, now, self.contract_address, self.locks@)(cur, d, *id)
                    == Ok::<StepOut, StreamError>((o.0, o.1@, o.2@)),
                Err(e) => sweep_step(*recipient, max_streams, now, self.contract_address, self.locks@)(cur, d, *id) == Err::<
                    StepOut,
                    StreamError,
                >(e),
            },
            r matches Ok(o) ==> (o.0 matches Some(s2) ==> stream_ok(s2)),
    {
        if done >= max_streams as usize {
            return Ok((None, Vec::new(), Vec::new()));
        }
        let s = match cur {
            Some(s) => s,
            None => {
                return Err(StreamError::StreamNotFound);
            },
        };
        if s.receiver != *recipient || s.status != StreamStatus::Active || !s.milestones_approved {
            return Ok((None, Vec::new(), Vec::new()));
        }
        let c = Self::checkpointed(&s, now);
        let wd = c.accrued_at_checkpoint;
        if wd <= 0 {
            return Ok((None, Vec::new(), Vec::new()));
        }
        if self.locks.contains(id) {
            return Err(StreamError::WithdrawalInProgress);
        }
        let token = c.token.clone();
        let updated = Self::pay_out(c, wd);
        let mut out: Vec<Effect> = Vec::new();
        out.push(make_transfer(token, self.contract_address.clone(), recipient.clone(), wd, TransferMode::Required));
        out.push(
            Effect::Emit(
                Event::StreamWithdrawn { stream_id: id.clone(), receiver: recipient.clone(), destination: recipient.clone(), amount: wd },
            ),
        );
        let mut ids: Vec<String> = Vec::new();
        ids.push(id.clone());
        proof {
            assert(ids@ =~= seq![*id]);
            assert(out@ =~= seq![
                transfer_effect(s.token, self.contract_address, *recipient, wd, TransferMode::Required),
                Effect::Emit(
                    Event::StreamWithdrawn { stream_id: *id, receiver: *recipient, destination: *recipient, amount: wd },
                ),
            ]);
        }
        Ok((Some(updated), out, ids))
    }
}

/// The first `n` entries of a list (all of them when it is shorter).
pub fn take_ids(v: &Vec<String>, n: usize) -> (r: Vec<String>)
    ensures
        r@ == v@.take(if v@.len() < n { v@.len() as int } else { n as int }),
{
    let m = if v.len() < n {
        v.len()
    } else {
        n
    };
    let mut out: Vec<String> = Vec::new();
    let mut i: usize = 0;
    while i < m
        invariant
            m <= v@.len(),
            m == (if v@.len() < n { v@.len() as int } else { n as int }),
            i <= m,
            out@ == v@.take(i as int),
        decreases m - i,
    {
        out.push(v[i].clone());
        i = i + 1;
        assert(out@ =~= v@.take(i as int));
    }
    out
}

impl PaymentStreaming {
    /// One item of a cancellation that passes over failures (see [`cancel_or_skip_step`]).
    fn cancel_or_skip_one(cur: Option<PaymentStream>, id: &String, sender: &Address, now: u64, contract: &Address) -> (r: Result<
        (Option<PaymentStream>, Vec<Effect>, Vec<String>),
        StreamError,
    >)
        requires
            cur matches Some(s) ==> stream_ok(s),
        ensures
            r is Ok,
            forall|d: Seq<String>| match r {
                Ok(o) => #[trigger] cancel_or_skip_step(*sender, now, *contract)(cur, d, *id) == Ok::<StepOut, StreamError>((o.0, o.1@, o.2@)),
                Err(e) => false,
            },
            r matches Ok(o) ==> (o.0 matches Some(s2) ==> stream_ok(s2)),
    {
        match Self::cancel_one(cur, id, sender, now, contract) {
            Ok((updated, out)) => {
                let mut ids: Vec<String> = Vec::new();
                ids.push(id.clone());
                assert(ids@ =~= seq![*id]);
                Ok((Some(updated), out, ids))
            },
            Err(_) => Ok((None, Vec::new(), Vec::new())),
        }
    }
}

impl PaymentStreaming {
    /// The sender tops up several of its active streams at once, in order; each amount moves
    /// from the sender to the contract. If any top-up fails, none happens.
    pub fn top_up_multiple_streams(&mut self, sender: &Address, top_ups: &Vec<(String, i128)>) -> (r: Result<(), StreamError>)
        requires
            old(self).wf(),
        ensures
            final(self).wf(),
            match run_batch(
                (old(self).streams@, Seq::<Effect>::empty(), Seq::<String>::empty()),
                top_ups@,
                top_up_key(),
                top_up_step(*sender, old(self).contract_address),
            ) {
                Err(e) => r == Err::<(), StreamError>(e) && *final(self) == *old(self),
                Ok(st) => {
                    &&& r is Ok
                    &&& final(self).streams@ == st.0
                    &&& final(self).effects@ == old(self).effects@ + st.1
                    &&& *final(self) == (PaymentStreaming { streams: final(self).streams, effects: final(self).effects, ..*old(self) })
                },
            },
    {
        
        let ghost st0: BatchState = (self.streams@, Seq::<Effect>::empty(), Seq::<String>::empty());
        let ghost step = top_up_step(*sender, self.contract_address);
        // A dry run on a scratch copy of the touched streams, so that a failure changes nothing.
        let mut scratch: Table<PaymentStream> = Table::new();
        let mut sim_ids: Vec<String> = Vec::new();
        let mut i: usize = 0;
        let ghost mut gst: BatchState = st0;
        proof {
            assert(top_ups@.take(0) =~= Seq::<(String, i128)>::empty());
            assert(sim_ids@ =~= Seq::<String>::empty());
            assert(self.streams@.union_prefer_right(scratch@) =~= self.streams@);
        }
        while i < top_ups.len()
            invariant
                self.wf(),
                *self == *old(self),
                st0 == (self.streams@, Seq::<Effect>::empty(), Seq::<String>::empty()),
                step == top_up_step(*sender, self.contract_address),
                scratch.wf(),
                forall|k: Seq<char>| #[trigger] scratch@.contains_key(k) ==> stream_ok(scratch@[k]),
                i <= top_ups@.len(),
                run_batch(st0, top_ups@.take(i as int), top_up_key(), step) == Ok::<BatchState, StreamError>(gst),
                gst.0 == self.streams@.union_prefer_right(scratch@),
                gst.2 == sim_ids@,
            decreases top_ups.len() - i,
        {
            let item = &top_ups[i];
            proof {
                assert(top_ups@.take(i as int + 1).drop_last() =~= top_ups@.take(i as int));
                assert(top_ups@.take(i as int + 1).last() == top_ups@[i as int]);
            }
            let k = &item.0;
            let cur = match scratch.get(k) {
                Some(s) => Some(s.clone()),
                None => match self.streams.get(k) {
                    Some(s) => Some(s.clone()),
                    None => None,
                },
            };
            assert(cur == lookup(gst.0, top_up_key()(*item)));
            let done = sim_ids.len();
            match Self::top_up_one(cur, item, sender, &self.contract_address) {
                Ok((rec, out, mut ids)) => {
                    let ghost grec = rec;
                    proof {
                        gst = (
                            match grec {
                                Some(x) => gst.0.insert(top_up_key()(*item), x),
                                None => gst.0,
                            },
                            gst.1 + out@,
                            gst.2 + ids@,
                        );
                    }
                    match rec {
                        Some(x) => {
                            scratch.set(k.clone(), x);
                        },
                        None => {},
                    }
                    sim_ids.append(&mut ids);
                    proof {
                        assert(gst.0 =~= self.streams@.union_prefer_right(scratch@));
                    }
                },
                Err(e) => {
                    proof {
                        lemma_run_batch_prefix_err(st0, top_ups@, top_up_key(), step, i as int + 1);
                    }
                    return Err(e);
                },
            }
            i = i + 1;
        }
        proof {
            assert(top_ups@.take(top_ups@.len() as int) =~= top_ups@);
        }
        // Every item succeeds now.
        let ghost final_st = gst;
        let mut done_ids: Vec<String> = Vec::new();
        let mut j: usize = 0;
        let ghost mut generated: Seq<Effect> = Seq::empty();
        proof {
            assert(done_ids@ =~= Seq::<String>::empty());
        }
        while j < top_ups.len()
            invariant
                self.wf(),
                st0 == (old(self).streams@, Seq::<Effect>::empty(), Seq::<String>::empty()),
                step == top_up_step(*sender, old(self).contract_address),
                run_batch(st0, top_ups@, top_up_key(), step) == Ok::<BatchState, StreamError>(final_st),
                j <= top_ups@.len(),
                run_batch(st0, top_ups@.take(j as int), top_up_key(), step) == Ok::<BatchState, StreamError>(
                    (self.streams@, generated, done_ids@),
                ),
                self.effects@ == old(self).effects@ + generated,
                *self == (PaymentStreaming { streams: self.streams, effects: self.effects, ..*old(self) }),
            decreases top_ups.len() - j,
        {
            let item = &top_ups[j];
            proof {
                assert(top_ups@.take(j as int + 1).drop_last() =~= top_ups@.take(j as int));
                assert(top_ups@.take(j as int + 1).last() == top_ups@[j as int]);
                if run_batch(st0, top_ups@.take(j as int + 1), top_up_key(), step) is Err {
                    lemma_run_batch_prefix_err(st0, top_ups@, top_up_key(), step, j as int + 1);
                }
            }
            let k = &item.0;
            let cur = match self.streams.get(k) {
                Some(s) => Some(s.clone()),
                None => None,
            };
            assert(cur == lookup(self.streams@, top_up_key()(*item)));
            let done = done_ids.len();
            match Self::top_up_one(cur, item, sender, &self.contract_address) {
                Ok((rec, mut out, mut ids)) => {
                    proof {
                        generated = generated + out@;
                    }
                    let ghost ids_before = done_ids@;
                    match rec {
                        Some(x) => {
                            self.streams.set(k.clone(), x);
                        },
                        None => {},
                    }
                    self.effects.append(&mut out);
                    done_ids.append(&mut ids);
                    proof {
                        assert(self.effects@ =~= old(self).effects@ + generated);
                    }
                },
                Err(e) => {
                    return Err(e);
                },
            }
            j = j + 1;
        }
        proof {
            assert(top_ups@.take(top_ups@.len() as int) =~= top_ups@);
        }
        Ok(())
    }

    /// The receiver withdraws from several of its active streams at once, each up to its
    /// amount and to its own destination; streams with nothing to withdraw are passed over. If
    /// any withdrawal fails, none happens. Answers the ids withdrawn from.
    pub fn batch_withdraw_to(&mut self, recipient: &Address, withdrawals: &Vec<WithdrawalRecipient>, now: u64) -> (r: Result<Vec<String>, StreamError>)
        requires
            old(self).wf(),
        ensures
            final(self).wf(),
            match run_batch(
                (old(self).streams@, Seq::<Effect>::empty(), Seq::<String>::empty()),
                withdrawals@,
                withdrawal_key(),
                withdraw_to_step(*recipient, now, old(self).contract_address),
            ) {
                Err(e) => r == Err::<Vec<String>, StreamError>(e) && *final(self) == *old(self),
                Ok(st) => {
                    &&& (r matches Ok(v) && v@ == st.2)
                    &&& final(self).streams@ == st.0
                    &&& final(self).effects@ == old(self).effects@ + st.1
                    &&& *final(self) == (PaymentStreaming { streams: final(self).streams, effects: final(self).effects, ..*old(self) })
                },
            },
    {
        
        let ghost st0: BatchState = (self.streams@, Seq::<Effect>::empty(), Seq::<String>::empty());
        let ghost step = withdraw_to_step(*recipient, now, self.contract_address);
        // A dry run on a scratch copy of the touched streams, so that a failure changes nothing.
        let mut scratch: Table<PaymentStream> = Table::new();
        let mut sim_ids: Vec<String> = Vec::new();
        let mut i: usize = 0;
        let ghost mut gst: BatchState = st0;
        proof {
            assert(withdrawals@.take(0) =~= Seq::<WithdrawalRecipient>::empty());
            assert(sim_ids@ =~= Seq::<String>::empty());
            assert(self.streams@.union_prefer_right(scratch@) =~= self.streams@);
        }
        while i < withdrawals.len()
            invariant
                self.wf(),
                *self == *old(self),
                st0 == (self.streams@, Seq::<Effect>::empty(), Seq::<String>::empty()),
                step == withdraw_to_step(*recipient, now, self.contract_address),
                scratch.wf(),
                forall|k: Seq<char>| #[trigger] scratch@.contains_key(k) ==> stream_ok(scratch@[k]),
                i <= withdrawals@.len(),
                run_batch(st0, withdrawals@.take(i as int), withdrawal_key(), step) == Ok::<BatchState, StreamError>(gst),
                gst.0 == self.streams@.union_prefer_right(scratch@),
                gst.2 == sim_ids@,
            decreases withdrawals.len() - i,
        {
            let item = &withdrawals[i];
            proof {
                assert(withdrawals@.take(i as int + 1).drop_last() =~= withdrawals@.take(i as int));
                assert(withdrawals@.take(i as int + 1).last() == withdrawals@[i as int]);
            }
            let k = &item.stream_id;
            let cur = match scratch.get(k) {
                Some(s) => Some(s.clone()),
                None => match self.streams.get(k) {
                    Some(s) => Some(s.clone()),
                    None => None,
                },
            };
            assert(cur == lookup(gst.0, withdrawal_key()(*item)));
            let done = sim_ids.len();
            match Self::withdraw_to_one(cur, item, recipient, now, &self.contract_address) {
                Ok((rec, out, mut ids)) => {
                    let ghost grec = rec;
                    proof {
                        gst = (
                            match grec {
                                Some(x) => gst.0.insert(withdrawal_key()(*item), x),
                                None => gst.0,
                            },
                            gst.1 + out@,
                            gst.2 + ids@,
                        );
                    }
                    match rec {
                        Some(x) => {
                            scratch.set(k.clone(), x);
                        },
                        None => {},
                    }
                    sim_ids.append(&mut ids);
                    proof {
                        assert(gst.0 =~= self.streams@.union_prefer_right(scratch@));
                    }
                },
                Err(e) => {
                    proof {
                        lemma_run_batch_prefix_err(st0, withdrawals@, withdrawal_key(), step, i as int + 1);
                    }
                    return Err(e);
                },
            }
            i = i + 1;
        }
        proof {
            assert(withdrawals@.take(withdrawals@.len() as int) =~= withdrawals@);
        }
        // Every item succeeds now.
        let ghost final_st = gst;
        let mut done_ids: Vec<String> = Vec::new();
        let mut j: usize = 0;
        let ghost mut generated: Seq<Effect> = Seq::empty();
        proof {
            assert(done_ids@ =~= Seq::<String>::empty());
        }
        while j < withdrawals.len()
            invariant
                self.wf(),
                st0 == (old(self).streams@, Seq::<Effect>::empty(), Seq::<String>::empty()),
                step == withdraw_to_step(*recipient, now, old(self).contract_address),
                run_batch(st0, withdrawals@, withdrawal_key(), step) == Ok::<BatchState, StreamError>(final_st),
                j <= withdrawals@.len(),
                run_batch(st0, withdrawals@.take(j as int), withdrawal_key(), step) == Ok::<BatchState, StreamError>(
                    (self.streams@, generated, done_ids@),
                ),
                self.effects@ == old(self).effects@ + generated,
                *self == (PaymentStreaming { streams: self.streams, effects: self.effects, ..*old(self) }),
            decreases withdrawals.len() - j,
        {
            let item = &withdrawals[j];
            proof {
                assert(withdrawals@.take(j as int + 1).drop_last() =~= withdrawals@.take(j as int));
                assert(withdrawals@.take(j as int + 1).last() == withdrawals@[j as int]);
                if run_batch(st0, withdrawals@.take(j as int + 1), withdrawal_key(), step) is Err {
                    lemma_run_batch_prefix_err(st0, withdrawals@, withdrawal_key(), step, j as int + 1);
                }
            }
            let k = &item.stream_id;
            let cur = match self.streams.get(k) {
                Some(s) => Some(s.clone()),
                None => None,
            };
            assert(cur == lookup(self.streams@, withdrawal_key()(*item)));
            let done = done_ids.len();
            match Self::withdraw_to_one(cur, item, recipient, now, &self.contract_address) {
                Ok((rec, mut out, mut ids)) => {
                    proof {
                        generated = generated + out@;
                    }
                    let ghost ids_before = done_ids@;
                    match rec {
                        Some(x) => {
                            self.streams.set(k.clone(), x);
                        },
                        None => {},
                    }
                    self.effects.append(&mut out);
                    done_ids.append(&mut ids);
                    proof {
                        assert(self.effects@ =~= old(self).effects@ + generated);
                    }
                },
                Err(e) => {
                    return Err(e);
                },
            }
            j = j + 1;
        }
        proof {
            assert(withdrawals@.take(withdrawals@.len() as int) =~= withdrawals@);
        }
        Ok(done_ids)
    }

    /// The receiver sweeps its streams in creation order while the contract is not paused,
    /// paying itself what accrued on at most `max_streams` of them (see [`sweep_step`]). If the
    /// sweep fails, nothing is paid. Answers the ids paid from.
    pub fn withdraw_all_for_recipient(&mut self, recipient: &Address, max_streams: u32, now: u64, paused: bool) -> (r: Result<Vec<String>, StreamError>)
        requires
            old(self).wf(),
        ensures
            final(self).wf(),
            paused ==> r == Err::<Vec<String>, StreamError>(StreamError::ContractPaused) && *final(self) == *old(self),
            !paused ==> match run_batch(
                (old(self).streams@, Seq::<Effect>::empty(), Seq::<String>::empty()),
                list_or_empty(old(self).recipient_index@, recipient@),
                id_key(),
                sweep_step(*recipient, max_streams, now, old(self).contract_address, old(self).locks@),
            ) {
                Err(e) => r == Err::<Vec<String>, StreamError>(e) && *final(self) == *old(self),
                Ok(st) => {
                    &&& (r matches Ok(v) && v@ == st.2)
                    &&& final(self).streams@ == st.0
                    &&& final(self).effects@ == old(self).effects@ + st.1
                    &&& *final(self) == (PaymentStreaming { streams: final(self).streams, effects: final(self).effects, ..*old(self) })
                },
            },
    {
        if paused {
            return Err(StreamError::ContractPaused);
        }
        let ids_list: Vec<String> = match self.recipient_index.get(recipient) {
            Some(l) => crate::access_control::clone_strings(l),
            None => Vec::new(),
        };
        let ghost st0: BatchState = (self.streams@, Seq::<Effect>::empty(), Seq::<String>::empty());
        let ghost step = sweep_step(*recipient, max_streams, now, self.contract_address, self.locks@);
        // A dry run on a scratch copy of the touched streams, so that a failure changes nothing.
        let mut scratch: Table<PaymentStream> = Table::new();
        let mut sim_ids: Vec<String> = Vec::new();
        let mut i: usize = 0;
        let ghost mut gst: BatchState = st0;
        proof {
            assert(ids_list@.take(0) =~= Seq::<String>::empty());
            assert(sim_ids@ =~= Seq::<String>::empty());
            assert(self.streams@.union_prefer_right(scratch@) =~= self.streams@);
        }
        while i < ids_list.len()
            invariant
                self.wf(),
                *self == *old(self),
                ids_list@ == list_or_empty(self.recipient_index@, recipient@),
                !paused,
                st0 == (self.streams@, Seq::<Effect>::empty(), Seq::<String>::empty()),
                step == sweep_step(*recipient, max_streams, now, self.contract_address, self.locks@),
                scratch.wf(),
                forall|k: Seq<char>| #[trigger] scratch@.contains_key(k) ==> stream_ok(scratch@[k]),
                i <= ids_list@.len(),
                run_batch(st0, ids_list@.take(i as int), id_key(), step) == Ok::<BatchState, StreamError>(gst),
                gst.0 == self.streams@.union_prefer_right(scratch@),
                gst.2 == sim_ids@,
            decreases ids_list.len() - i,
        {
            let item = &ids_list[i];
            proof {
                assert(ids_list@.take(i as int + 1).drop_last() =~= ids_list@.take(i as int));
                assert(ids_list@.take(i as int + 1).last() == ids_list@[i as int]);
            }
            let k = item;
            let cur = match scratch.get(k) {
                Some(s) => Some(s.clone()),
                None => match self.streams.get(k) {
                    Some(s) => Some(s.clone()),
                    None => None,
                },
            };
            assert(cur == lookup(gst.0, id_key()(*item)));
            let done = sim_ids.len();
            match self.sweep_one(cur, done, item, recipient, max_streams, now) {
                Ok((rec, out, mut ids)) => {
                    let ghost grec = rec;
                    proof {
                        gst = (
                            match grec {
                                Some(x) => gst.0.insert(id_key()(*item), x),
                                None => gst.0,
                            },
                            gst.1 + out@,
                            gst.2 + ids@,
                        );
                    }
                    match rec {
                        Some(x) => {
                            scratch.set(k.clone(), x);
                        },
                        None => {},
                    }
                    sim_ids.append(&mut ids);
                    proof {
                        assert(gst.0 =~= self.streams@.union_prefer_right(scratch@));
                    }
                },
                Err(e) => {
                    proof {
                        lemma_run_batch_prefix_err(st0, ids_list@, id_key(), step, i as int + 1);
                    }
                    return Err(e);
                },
            }
            i = i + 1;
        }
        proof {
            assert(ids_list@.take(ids_list@.len() as int) =~= ids_list@);
        }
        // Every item succeeds now.
        let ghost final_st = gst;
        let mut done_ids: Vec<String> = Vec::new();
        let mut j: usize = 0;
        let ghost mut generated: Seq<Effect> = Seq::empty();
        proof {
            assert(done_ids@ =~= Seq::<String>::empty());
        }
        while j < ids_list.len()
            invariant
                self.wf(),
                ids_list@ == list_or_empty(old(self).recipient_index@, recipient@),
                !paused,
                st0 == (old(self).streams@, Seq::<Effect>::empty(), Seq::<String>::empty()),
                step == sweep_step(*recipient, max_streams, now, old(self).contract_address, old(self).locks@),
                run_batch(st0, ids_list@, id_key(), step) == Ok::<BatchState, StreamError>(final_st),
                j <= ids_list@.len(),
                run_batch(st0, ids_list@.take(j as int), id_key(), step) == Ok::<BatchState, StreamError>(
                    (self.streams@, generated, done_ids@),
                ),
                self.effects@ == old(self).effects@ + generated,
                *self == (PaymentStreaming { streams: self.streams, effects: self.effects, ..*old(self) }),
            decreases ids_list.len() - j,
        {
            let item = &ids_list[j];
            proof {
                assert(ids_list@.take(j as int + 1).drop_last() =~= ids_list@.take(j as int));
                assert(ids_list@.take(j as int + 1).last() == ids_list@[j as int]);
                if run_batch(st0, ids_list@.take(j as int + 1), id_key(), step) is Err {
                    lemma_run_batch_prefix_err(st0, ids_list@, id_key(), step, j as int + 1);
                }
            }
            let k = item;
            let cur = match self.streams.get(k) {
                Some(s) => Some(s.clone()),
                None => None,
            };
            assert(cur == lookup(self.streams@, id_key()(*item)));
            let done = done_ids.len();
            match self.sweep_one(cur, done, item, recipient, max_streams, now) {
                Ok((rec, mut out, mut ids)) => {
                    proof {
                        generated = generated + out@;
                    }
                    let ghost ids_before = done_ids@;
                    match rec {
                        Some(x) => {
                            self.streams.set(k.clone(), x);
                        },
                        None => {},
                    }
                    self.effects.append(&mut out);
                    done_ids.append(&mut ids);
                    proof {
                        assert(self.effects@ =~= old(self).effects@ + generated);
                    }
                },
                Err(e) => {
                    return Err(e);
                },
            }
            j = j + 1;
        }
        proof {
            assert(ids_list@.take(ids_list@.len() as int) =~= ids_list@);
        }
        Ok(done_ids)
    }

    /// The sender cancels up to the first twenty of the given streams, passing over those it
    /// cannot cancel (not found, not its own, not active). Answers the cancelled ids.
    pub fn batch_cancel_streams(&mut self, sender: &Address, stream_ids: &Vec<String>, now: u64) -> (r: Result<Vec<String>, StreamError>)
        requires
            old(self).wf(),
        ensures
            final(self).wf(),
            match run_batch(
                (old(self).streams@, Seq::<Effect>::empty(), Seq::<String>::empty()),
                stream_ids@.take(if stream_ids@.len() < MAX_BATCH_CANCEL { stream_ids@.len() as int } else { MAX_BATCH_CANCEL as int }),
                id_key(),
                cancel_or_skip_step(*sender, now, old(self).contract_address),
            ) {
                Err(e) => r == Err::<Vec<String>, StreamError>(e) && *final(self) == *old(self),
                Ok(st) => {
                    &&& (r matches Ok(v) && v@ == st.2)
                    &&& final(self).streams@ == st.0
                    &&& final(self).effects@ == old(self).effects@ + st.1
                    &&& *final(self) == (PaymentStreaming { streams: final(self).streams, effects: final(self).effects, ..*old(self) })
                },
            },
    {
        let first_ids: Vec<String> = take_ids(stream_ids, MAX_BATCH_CANCEL);
        let ghost st0: BatchState = (self.streams@, Seq::<Effect>::empty(), Seq::<String>::empty());
        let ghost step = cancel_or_skip_step(*sender, now, self.contract_address);
        // A dry run on a scratch copy of the touched streams, so that a failure changes nothing.
        let mut scratch: Table<PaymentStream> = Table::new();
        let mut sim_ids: Vec<String> = Vec::new();
        let mut i: usize = 0;
        let ghost mut gst: BatchState = st0;
        proof {
            assert(first_ids@.take(0) =~= Seq::<String>::empty());
            assert(sim_ids@ =~= Seq::<String>::empty());
            assert(self.streams@.union_prefer_right(scratch@) =~= self.streams@);
        }
        while i < first_ids.len()
            invariant
                self.wf(),
                *self == *old(self),
                first_ids@ == stream_ids@.take(if stream_ids@.len() < MAX_BATCH_CANCEL { stream_ids@.len() as int } else { MAX_BATCH_CANCEL as int }),
                st0 == (self.streams@, Seq::<Effect>::empty(), Seq::<String>::empty()),
                step == cancel_or_skip_step(*sender, now, self.contract_address),
                scratch.wf(),
                forall|k: Seq<char>| #[trigger] scratch@.contains_key(k) ==> stream_ok(scratch@[k]),
                i <= first_ids@.len(),
                run_batch(st0, first_ids@.take(i as int), id_key(), step) == Ok::<BatchState, StreamError>(gst),
                gst.0 == self.streams@.union_prefer_right(scratch@),
                gst.2 == sim_ids@,
            decreases first_ids.len() - i,
        {
            let item = &first_ids[i];
            proof {
                assert(first_ids@.take(i as int + 1).drop_last() =~= first_ids@.take(i as int));
                assert(first_ids@.take(i as int + 1).last() == first_ids@[i as int]);
            }
            let k = item;
            let cur = match scratch.get(k) {
                Some(s) => Some(s.clone()),
                None => match self.streams.get(k) {
                    Some(s) => Some(s.clone()),
                    None => None,
                },
            };
            assert(cur == lookup(gst.0, id_key()(*item)));
            let done = sim_ids.len();
            match Self::cancel_or_skip_one(cur, item, sender, now, &self.contract_address) {
                Ok((rec, out, mut ids)) => {
                    let ghost grec = rec;
                    proof {
                        gst = (
                            match grec {
                                Some(x) => gst.0.insert(id_key()(*item), x),
                                None => gst.0,
                            },
                            gst.1 + out@,
                            gst.2 + ids@,
                        );
                    }
                    match rec {
                        Some(x) => {
                            scratch.set(k.clone(), x);
                        },
                        None => {},
                    }
                    sim_ids.append(&mut ids);
                    proof {
                        assert(gst.0 =~= self.streams@.union_prefer_right(scratch@));
                    }
                },
                Err(e) => {
                    proof {
                        lemma_run_batch_prefix_err(st0, first_ids@, id_key(), step, i as int + 1);
                    }
                    return Err(e);
                },
            }
            i = i + 1;
        }
        proof {
            assert(first_ids@.take(first_ids@.len() as int) =~= first_ids@);
        }
        // Every item succeeds now.
        let ghost final_st = gst;
        let mut done_ids: Vec<String> = Vec::new();
        let mut j: usize = 0;
        let ghost mut generated: Seq<Effect> = Seq::empty();
        proof {
            assert(done_ids@ =~= Seq::<String>::empty());
        }
        while j < first_ids.len()
            invariant
                self.wf(),
                first_ids@ == stream_ids@.take(if stream_ids@.len() < MAX_BATCH_CANCEL { stream_ids@.len() as int } else { MAX_BATCH_CANCEL as int }),
                st0 == (old(self).streams@, Seq::<Effect>::empty(), Seq::<String>::empty()),
                step == cancel_or_skip_step(*sender, now, old(self).contract_address),
                run_batch(st0, first_ids@, id_key(), step) == Ok::<BatchState, StreamError>(final_st),
                j <= first_ids@.len(),
                run_batch(st0, first_ids@.take(j as int), id_key(), step) == Ok::<BatchState, StreamError>(
                    (self.streams@, generated, done_ids@),
                ),
                self.effects@ == old(self).effects@ + generated,
                *self == (PaymentStreaming { streams: self.streams, effects: self.effects, ..*old(self) }),
            decreases first_ids.len() - j,
        {
            let item = &first_ids[j];
            proof {
                assert(first_ids@.take(j as int + 1).drop_last() =~= first_ids@.take(j as int));
                assert(first_ids@.take(j as int + 1).last() == first_ids@[j as int]);
                if run_batch(st0, first_ids@.take(j as int + 1), id_key(), step) is Err {
                    lemma_run_batch_prefix_err(st0, first_ids@, id_key(), step, j as int + 1);
                }
            }
            let k = item;
            let cur = match self.streams.get(k) {
                Some(s) => Some(s.clone()),
                None => None,
            };
            assert(cur == lookup(self.streams@, id_key()(*item)));
            let done = done_ids.len();
            match Self::cancel_or_skip_one(cur, item, sender, now, &self.contract_address) {
                Ok((rec, mut out, mut ids)) => {
                    proof {
                        generated = generated + out@;
                    }
                    let ghost ids_before = done_ids@;
                    match rec {
                        Some(x) => {
                            self.streams.set(k.clone(), x);
                        },
                        None => {},
                    }
                    self.effects.append(&mut out);
                    done_ids.append(&mut ids);
                    proof {
                        assert(self.effects@ =~= old(self).effects@ + generated);
                    }
                },
                Err(e) => {
                    return Err(e);
                },
            }
            j = j + 1;
        }
        proof {
            assert(first_ids@.take(first_ids@.len() as int) =~= first_ids@);
        }
        Ok(done_ids)
    }
}

impl PaymentStreaming {
    /// Anyone triggers, while the contract is not paused, the withdrawal of what an active,
    /// approved stream has accrued, to the destination its receiver set. The stream's
    /// withdrawal lock is taken first and given back once tokens move; when nothing has
    /// accrued, the checkpoint is kept and the lock stays held. Answers the stream id.
    pub fn trigger_withdrawal(&mut self, stream_id: &String, now: u64, paused: bool) -> (r: Result<String, StreamError>)
        requires
            old(self).wf(),
        ensures
            final(self).wf(),
            paused ==> r == Err::<String, StreamError>(StreamError::ContractPaused) && *final(self) == *old(self),
            !paused && !old(self).streams@.contains_key(stream_id@) ==> r == Err::<String, StreamError>(StreamError::StreamNotFound)
                && *final(self) == *old(self),
            !paused && old(self).streams@.contains_key(stream_id@) ==> {
                let s = old(self).streams@[stream_id@];
                let c = checkpoint(s, now);
                let wd = c.accrued_at_checkpoint;
                if s.status != StreamStatus::Active {
                    r == Err::<String, StreamError>(StreamError::StreamNotActive) && *final(self) == *old(self)
                } else if !s.milestones_approved {
                    r == Err::<String, StreamError>(StreamError::MilestoneNotApproved) && *final(self) == *old(self)
                } else if s.destination is None {
                    r == Err::<String, StreamError>(StreamError::DestinationNotSet) && *final(self) == *old(self)
                } else if old(self).locked(stream_id@) {
                    r == Err::<String, StreamError>(StreamError::WithdrawalInProgress) && *final(self) == *old(self)
                } else if wd <= 0 {
                    &&& r == Ok::<String, StreamError>(*stream_id)
                    &&& final(self).streams@ == old(self).streams@.insert(stream_id@, c)
                    &&& final(self).locks@ == old(self).locks@.insert(stream_id@, true)
                    &&& final(self).effects == old(self).effects
                    &&& *final(self) == (PaymentStreaming { streams: final(self).streams, locks: final(self).locks, ..*old(self) })
                } else {
                    &&& r == Ok::<String, StreamError>(*stream_id)
                    &&& final(self).streams@ == old(self).streams@.insert(stream_id@, paid_out(c, wd))
                    &&& final(self).locks@ == old(self).locks@
                    &&& final(self).effects@ == old(self).effects@ + seq![
                        transfer_effect(s.token, old(self).contract_address, s.destination->Some_0, wd, TransferMode::Required),
                        Effect::Emit(
                            Event::StreamWithdrawn {
                                stream_id: *stream_id,
                                receiver: s.receiver,
                                destination: s.destination->Some_0,
                                amount: wd,
                            },
                        ),
                    ]
                    &&& *final(self) == (PaymentStreaming {
                        streams: final(self).streams,
                        locks: final(self).locks,
                        effects: final(self).effects,
                        ..*old(self)
                    })
                }
            },
    {
        if paused {
            return Err(StreamError::ContractPaused);
        }
        let s = match self.streams.get(stream_id) {
            Some(s) => s.clone(),
            None => {
                return Err(StreamError::StreamNotFound);
            },
        };
        if s.status != StreamStatus::Active {
            return Err(StreamError::StreamNotActive);
        }
        if !s.milestones_approved {
            return Err(StreamError::MilestoneNotApproved);
        }
        let destination = match &s.destination {
            Some(d) => d.clone(),
            None => {
                return Err(StreamError::DestinationNotSet);
            },
        };
        if self.locks.contains(stream_id) {
            return Err(StreamError::WithdrawalInProgress);
        }
        let ghost s0 = *self;
        self.locks.set(stream_id.clone(), true);
        let c = Self::checkpointed(&s, now);
        let wd = c.accrued_at_checkpoint;
        if wd <= 0 {
            self.streams.set(stream_id.clone(), c);
            return Ok(stream_id.clone());
        }
        let token = c.token.clone();
        let receiver = c.receiver.clone();
        let updated = Self::pay_out(c, wd);
        self.streams.set(stream_id.clone(), updated);
        self.effects.push(make_transfer(token, self.contract_address.clone(), destination.clone(), wd, TransferMode::Required));
        let _ = self.locks.take(stream_id);
        self.effects.push(
            Effect::Emit(Event::StreamWithdrawn { stream_id: stream_id.clone(), receiver, destination, amount: wd }),
        );
        proof {
            assert(self.locks@ =~= s0.locks@);
            assert(self.effects@ =~= s0.effects@ + seq![
                transfer_effect(s.token, s0.contract_address, s.destination->Some_0, wd, TransferMode::Required),
                Effect::Emit(
                    Event::StreamWithdrawn { stream_id: *stream_id, receiver: s.receiver, destination: s.destination->Some_0, amount: wd },
                ),
            ]);
        }
        Ok(stream_id.clone())
    }

    /// Anyone closes a stream that is no longer active: what remains accrued goes to the
    /// receiver and the stream's record is removed.
    pub fn close_expired_stream(&mut self, stream_id: &String) -> (r: Result<(), StreamError>)
        requires
            old(self).wf(),
        ensures
            final(self).wf(),
            !old(self).streams@.contains_key(stream_id@) ==> r == Err::<(), StreamError>(StreamError::StreamNotFound) && *final(self)
                == *old(self),
            old(self).streams@.contains_key(stream_id@) ==> {
                let s = old(self).streams@[stream_id@];
                let residual = s.accrued_at_checkpoint;
                let closed = Effect::Emit(Event::StreamClosed { stream_id: *stream_id, sender: s.sender, receiver: s.receiver, residual });
                if s.status == StreamStatus::Active {
                    r == Err::<(), StreamError>(StreamError::StreamNotActive) && *final(self) == *old(self)
                } else {
                    &&& r is Ok
                    &&& final(self).streams@ == old(self).streams@.remove(stream_id@)
                    &&& final(self).effects@ == old(self).effects@ + (if residual > 0 {
                        seq![transfer_effect(s.token, old(self).contract_address, s.receiver, residual, TransferMode::Required), closed]
                    } else {
                        seq![closed]
                    })
                    &&& *final(self) == (PaymentStreaming { streams: final(self).streams, effects: final(self).effects, ..*old(self) })
                }
            },
    {
        let s = match self.streams.get(stream_id) {
            Some(s) => s.clone(),
            None => {
                return Err(StreamError::StreamNotFound);
            },
        };
        if s.status == StreamStatus::Active {
            return Err(StreamError::StreamNotActive);
        }
        let ghost s0 = *self;
        let capped = if s.accrued_at_checkpoint < s.remaining_deposit {
            s.accrued_at_checkpoint
        } else {
            s.remaining_deposit
        };
        let residual = if capped > 0 {
            capped
        } else {
            0
        };
        if residual > 0 {
            self.effects.push(make_transfer(s.token.clone(), self.contract_address.clone(), s.receiver.clone(), residual, TransferMode::Required));
        }
        let _ = self.streams.take(stream_id);
        self.effects.push(
            Effect::Emit(Event::StreamClosed { stream_id: stream_id.clone(), sender: s.sender.clone(), receiver: s.receiver.clone(), residual }),
        );
        proof {
            let closed = Effect::Emit(Event::StreamClosed { stream_id: *stream_id, sender: s.sender, receiver: s.receiver, residual });
            if residual > 0 {
                assert(self.effects@ =~= s0.effects@ + seq![
                    transfer_effect(s.token, s0.contract_address, s.receiver, residual, TransferMode::Required),
                    closed,
                ]);
            } else {
                assert(self.effects@ =~= s0.effects@ + seq![closed]);
            }
        }
        Ok(())
    }

    /// A page of a sender's streams in creation order: page `page` of `page_size` entries (at
    /// most one hundred), see [`stream_page`].
    pub fn get_sender_streams(&self, sender: &Address, page: u32, page_size: u32) -> (r: Vec<PaymentStream>)
        requires
            self.wf(),
        ensures
            ({
                let ids = list_or_empty(self.sender_index@, sender@);
                let (lo, hi) = stream_page(ids, page, page_size);
                r@ == stream_records(self.streams@, ids, lo, hi)
            }),
    {
        let ids: Vec<String> = match self.sender_index.get(sender) {
            Some(l) => crate::access_control::clone_strings(l),
            None => Vec::new(),
        };
        let size: u32 = if page_size < 100 {
            page_size
        } else {
            100
        };
        let count: u32 = if ids.len() < u32::MAX as usize {
            ids.len() as u32
        } else {
            u32::MAX
        };
        let start: u32 = match page.checked_mul(size) {
            Some(v) => v,
            None => u32::MAX,
        };
        let end0: u32 = match start.checked_add(size) {
            Some(v) => v,
            None => u32::MAX,
        };
        let end: u32 = if end0 < count {
            end0
        } else {
            count
        };
        let mut out: Vec<PaymentStream> = Vec::new();
        let mut idx: u32 = start;
        proof {
            assert(ids@.len() <= u32::MAX ==> count == ids@.len());
        }
        if start >= end {
            return out;
        }
        while idx < end
            invariant
                self.wf(),
                ids@ == list_or_empty(self.sender_index@, sender@),
                start <= idx <= end,
                end <= ids@.len(),
                out@ == stream_records(self.streams@, ids@, start as int, idx as int),
            decreases end - idx,
        {
            match self.streams.get(&ids[idx as usize]) {
                Some(s) => {
                    out.push(s.clone());
                },
                None => {},
            }
            idx = idx + 1;
        }
        out
    }

    /// Hands the accumulated effects to the host, leaving none.
    pub fn take_effects(&mut self) -> (r: Vec<Effect>)
        ensures
            r@ == old(self).effects@,
            final(self).effects@ == Seq::<Effect>::empty(),
            *final(self) == (PaymentStreaming { effects: final(self).effects, ..*old(self) }),
    {
        let mut out: Vec<Effect> = Vec::new();
        std::mem::swap(&mut out, &mut self.effects);
        out
    }
}

} // verus!
