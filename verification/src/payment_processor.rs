use vstd::prelude::*;

use crate::access_control::{
    role_admin, role_merchant, role_oracle, role_settlement_operator, spec_role_admin,
    spec_role_merchant, spec_role_oracle, spec_role_settlement_operator, AccessControl,
};
use crate::effects::{Effect, Event, PauseScope};
use crate::fx_oracle::{lemma_pow10_monotone, pow10, RateData};
use crate::merchant_registry::{KycTier, Merchant};
use crate::table::Table;
use crate::types::{
    clone_opt_str, spec_zero_address, zero_contract_address, AmountLimits, CreatePaymentArgs, Error,
    MerchantCreateRateLimit, PaymentCharge, PaymentStatus, PauseInfo, PauseState,
    SettlementSplit, SwapAndPayArgs, CREATE_PAYMENT_MAX_PER_WINDOW, CREATE_PAYMENT_WINDOW_SECS,
    DEFAULT_PAYMENT_DURATION_SECS, PAYMENT_TOLERANCE,
};
use crate::util::{clamp_i128, clamp_u64, div_trunc, sat_add, sat_add_u64, sat_mul, sat_sub_u64, trunc_div};
use crate::stream::{
    accrued_at, cancel_or_skip_step, cancel_spec, cancel_step, checkpoint, id_key, lookup, paid_out, rate_changed,
    run_batch, stream_page, stream_records, sweep_step, top_up_key, top_up_step, withdraw_to_step, withdrawal_key,
    BatchState, PaymentStream, PaymentStreaming, StreamError, StreamStatus, MAX_BATCH_CANCEL,
};
use crate::effects::{transfer_effect, TransferMode};
use crate::types::WithdrawalRecipient;
use crate::Address;

verus! {

/// Whether both bounds are present and the lower exceeds the upper.
pub open spec fn bad_range(min: Option<i128>, max: Option<i128>) -> bool {
    match (min, max) {
        (Some(lo), Some(hi)) => lo > hi,
        _ => false,
    }
}

/// Whether an optional pause switch is on.
pub open spec fn switch_on(s: Option<PauseState>) -> bool {
    s matches Some(p) && p.paused
}

/// Whether a registry answer shows a merchant allowed to take payments: verified,
/// active and not suspended.
pub open spec fn merchant_in_good_standing(m: Option<Merchant>) -> bool {
    m matches Some(mm) && mm.kyc_tier != KycTier::Unverified && mm.active
        && mm.suspension_reason is None
}

/// The amount-limit error for `amount` under `limits`, if any.
pub open spec fn limit_error(limits: Option<AmountLimits>, amount: i128) -> Option<Error> {
    match limits {
        Some(l) => if l.min matches Some(lo) && amount < lo {
            Some(Error::AmountBelowMin)
        } else if l.max matches Some(hi) && amount > hi {
            Some(Error::AmountAboveMax)
        } else {
            None
        },
        None => None,
    }
}

/// The rate-limit counter after one more creation at `now`, or none when the merchant has
/// used up its window. A window lasts sixty seconds from its first counted creation; once it
/// has passed, the next creation opens a new window.
pub open spec fn rate_limit_step(prev: Option<MerchantCreateRateLimit>, now: u64) -> Option<MerchantCreateRateLimit> {
    let st = match prev {
        Some(s) => s,
        None => MerchantCreateRateLimit { last_payment_at: now, count: 0, window_start: now },
    };
    let expired = clamp_u64(now - st.window_start) >= CREATE_PAYMENT_WINDOW_SECS;
    let count = if expired {
        0
    } else {
        st.count
    };
    let start = if expired {
        now
    } else {
        st.window_start
    };
    if count >= CREATE_PAYMENT_MAX_PER_WINDOW {
        None
    } else {
        Some(MerchantCreateRateLimit { last_payment_at: now, count: (count + 1) as u32, window_start: start })
    }
}

/// The rate-limit counter after one more creation at `now` (see [`rate_limit_step`]).
pub fn rate_limit_next(prev: Option<MerchantCreateRateLimit>, now: u64) -> (r: Option<MerchantCreateRateLimit>)
    ensures
        r == rate_limit_step(prev, now),
{
    let state = match prev {
        Some(s) => s,
        None => MerchantCreateRateLimit { last_payment_at: now, count: 0, window_start: now },
    };
    let expired = sat_sub_u64(now, state.window_start) >= CREATE_PAYMENT_WINDOW_SECS;
    let count = if expired { 0 } else { state.count };
    let start = if expired { now } else { state.window_start };
    if count >= CREATE_PAYMENT_MAX_PER_WINDOW {
        None
    } else {
        Some(MerchantCreateRateLimit { last_payment_at: now, count: count + 1, window_start: start })
    }
}

/// The expiry of a payment created at `now`: the explicit expiry, else `now` plus the
/// duration (one hour by default), saturating.
pub open spec fn resolved_expiry(expires_at: Option<u64>, duration_secs: Option<u64>, now: u64) -> u64 {
    match expires_at {
        Some(t) => t,
        None => clamp_u64(
            now + match duration_secs {
                Some(d) => d,
                None => DEFAULT_PAYMENT_DURATION_SECS,
            },
        ) as u64,
    }
}

/// The pending payment that a successful creation stores.
pub open spec fn new_payment(args: CreatePaymentArgs, now: u64) -> PaymentCharge {
    PaymentCharge {
        payment_id: args.payment_id,
        merchant_id: args.merchant_id,
        amount: args.amount,
        currency: args.currency,
        deposit_address: args.deposit_address,
        status: PaymentStatus::Pending,
        payer_address: None,
        transaction_hash: None,
        created_at: now,
        confirmed_at: None,
        expires_at: resolved_expiry(args.expires_at, args.duration_secs, now),
        amount_received: None,
        memo: args.memo,
        memo_type: args.memo_type,
        token_address: args.token_address,
        metadata_hash: args.metadata_hash,
    }
}

/// How far a received amount may stray from the amount due and still count as exact:
/// `10^(decimals-6)` for a token of at least six decimals, one otherwise, and
/// one unit when the payment uses the default token.
pub open spec fn tolerance_for(token: Option<Address>, decimals: u32) -> int {
    match token {
        Some(_) => if decimals >= 6 {
            pow10((decimals - 6) as nat)
        } else {
            1
        },
        None => PAYMENT_TOLERANCE as int,
    }
}

/// The status a payment takes when `diff = received - due`.
pub open spec fn classify_payment(diff: int, tolerance: int) -> PaymentStatus {
    if 0 <= diff <= tolerance {
        PaymentStatus::Confirmed
    } else if diff > tolerance {
        PaymentStatus::Overpaid
    } else if diff >= -tolerance {
        PaymentStatus::Confirmed
    } else {
        PaymentStatus::PartiallyPaid
    }
}

/// The list stored under `k` in a table of lists, or the empty list.
pub open spec fn list_or_empty(m: Map<Seq<char>, Vec<String>>, k: Seq<char>) -> Seq<String> {
    if m.contains_key(k) {
        m[k]@
    } else {
        Seq::empty()
    }
}

/// Entries `offset .. min(len, offset + limit)` of a list (none when `limit` is zero).
pub open spec fn page_of(s: Seq<String>, offset: int, limit: int) -> Seq<String> {
    if limit == 0 || offset >= s.len() {
        Seq::empty()
    } else if offset + limit >= s.len() {
        s.subrange(offset, s.len() as int)
    } else {
        s.subrange(offset, offset + limit)
    }
}

/// The sum of the split amounts, each addition saturating.
pub open spec fn splits_total(s: Seq<SettlementSplit>) -> int
    decreases s.len(),
{
    if s.len() == 0 {
        0
    } else {
        clamp_i128(splits_total(s.drop_last()) + s.last().amount)
    }
}

/// Whether some pair of distinct positions of `path` hold the same address.
pub open spec fn has_repeat(path: Seq<String>) -> bool {
    exists|i: int, j: int| 0 <= i < j < path.len() && path[i]@ == path[j]@
}

/// The error for a swap path that fails before any quote is asked for.
pub open spec fn path_error(token_in: Seq<char>, path: Seq<String>) -> Option<Error> {
    if path.len() < 2 {
        Some(Error::SwapPathInvalid)
    } else if path[0]@ != token_in {
        Some(Error::SwapPathInvalid)
    } else if has_repeat(path) {
        Some(Error::ArbitrageDetected)
    } else {
        None
    }
}

/// The error for a swap whose router quote is `quoted`, if any.
pub open spec fn quote_error(
    token_in: Seq<char>,
    amount_in: i128,
    amount_out_min: i128,
    path: Seq<String>,
    quoted: Seq<i128>,
) -> Option<Error> {
    match path_error(token_in, path) {
        Some(e) => Some(e),
        None => if quoted.len() != path.len() {
            Some(Error::SwapPathInvalid)
        } else if quoted[0] != amount_in {
            Some(Error::SwapPathInvalid)
        } else if quoted[path.len() - 1] < amount_out_min {
            Some(Error::SwapPathInvalid)
        } else {
            None
        },
    }
}

/// The output the oracle rate predicts for `amount_in` (rounded toward zero, the
/// product saturating).
pub open spec fn oracle_expected_out(amount_in: i128, rate: RateData) -> int {
    trunc_div(clamp_i128(amount_in * rate.rate), clamp_i128(pow10(rate.decimals as nat)))
}

/// The error for a quoted output checked against an oracle answer, if any.
pub open spec fn oracle_error(
    rate: Option<RateData>,
    amount_in: i128,
    quoted_out: i128,
    max_deviation_bps: u32,
) -> Option<Error> {
    match rate {
        None => Some(Error::OraclePriceDeviation),
        Some(rd) => {
            let expected = oracle_expected_out(amount_in, rd);
            if expected <= 0 {
                Some(Error::OraclePriceDeviation)
            } else {
                let diff = if quoted_out > expected {
                    quoted_out - expected
                } else {
                    expected - quoted_out
                };
                if trunc_div(clamp_i128(diff * 10_000), expected) > max_deviation_bps {
                    Some(Error::OraclePriceDeviation)
                } else {
                    None
                }
            }
        },
    }
}


/// The event announcing a payment created for `args`.
pub open spec fn created_event(args: CreatePaymentArgs) -> Effect {
    Effect::Emit(
        Event::PaymentCreated {
            payment_id: args.payment_id,
            merchant_id: args.merchant_id,
            amount: args.amount,
        },
    )
}

/// Whether an entry before position `i` of `list` has the payment id `id`.
pub open spec fn id_before(list: Seq<CreatePaymentArgs>, i: int, id: Seq<char>) -> bool {
    exists|j: int| 0 <= j < i && #[trigger] list[j].payment_id@ == id
}

/// Whether an entry before position `i` of `list` has the payment id of entry `i`.
fn id_repeats(list: &Vec<CreatePaymentArgs>, i: usize) -> (r: bool)
    requires
        i < list@.len(),
    ensures
        r == id_before(list@, i as int, list@[i as int].payment_id@),
{
    let mut j: usize = 0;
    while j < i
        invariant
            i < list@.len(),
            j <= i,
            forall|k: int| 0 <= k < j ==> list@[k].payment_id@ != list@[i as int].payment_id@,
        decreases i - j,
    {
        if list[j].payment_id == list[i].payment_id {
            assert(list@[j as int].payment_id@ == list@[i as int].payment_id@);
            return true;
        }
        j = j + 1;
    }
    false
}

/// The parts of the processor that a batch of creations changes: payments, per-merchant
/// payment lists, rate counters, idempotency keys, effects, and the ids created so far.
pub type BatchView = (
    Map<Seq<char>, PaymentCharge>,
    Map<Seq<char>, Seq<String>>,
    Map<Seq<char>, MerchantCreateRateLimit>,
    Map<Seq<char>, String>,
    Seq<Effect>,
    Seq<String>,
);

/// The per-merchant lists of a table of lists, as sequences.
pub open spec fn list_views(m: Map<Seq<char>, Vec<String>>) -> Map<Seq<char>, Seq<String>> {
    m.map_values(|v: Vec<String>| v@)
}

/// The stored rate counter of a merchant in a map of counters.
pub open spec fn rate_in(rates: Map<Seq<char>, MerchantCreateRateLimit>, m: Seq<char>) -> Option<MerchantCreateRateLimit> {
    if rates.contains_key(m) {
        Some(rates[m])
    } else {
        None
    }
}

/// One creation of a batch, after validation: the rate limit, then the expiry.
pub open spec fn batch_step(st: BatchView, a: CreatePaymentArgs, now: u64) -> Result<BatchView, Error> {
    let m = a.merchant_id@;
    match rate_limit_step(rate_in(st.2, m), now) {
        None => Err(Error::RateLimitExceeded),
        Some(rl) => if resolved_expiry(a.expires_at, a.duration_secs, now) <= now {
            Err(Error::InvalidExpiry)
        } else {
            Ok((
                st.0.insert(a.payment_id@, new_payment(a, now)),
                st.1.insert(
                    m,
                    (if st.1.contains_key(m) {
                        st.1[m]
                    } else {
                        Seq::empty()
                    }).push(a.payment_id),
                ),
                st.2.insert(m, rl),
                match a.client_token {
                    Some(t) => st.3.insert(t@, a.payment_id),
                    None => st.3,
                },
                st.4.push(
                    Effect::Emit(
                        Event::PaymentCreated {
                            payment_id: a.payment_id,
                            merchant_id: a.merchant_id,
                            amount: a.amount,
                        },
                    ),
                ),
                st.5.push(a.payment_id),
            ))
        },
    }
}

/// The creations of `list` from position `i` on, stopping at the first failure.
pub open spec fn batch_run(st: BatchView, list: Seq<CreatePaymentArgs>, i: int, now: u64) -> Result<BatchView, Error>
    decreases list.len() - i,
{
    if i < 0 || i >= list.len() {
        Ok(st)
    } else {
        match batch_step(st, list[i], now) {
            Err(e) => Err(e),
            Ok(s2) => batch_run(s2, list, i + 1, now),
        }
    }
}

/// The failure, if any, of the creations of `list` from position `i` on; it depends only
/// on the rate counters.
pub open spec fn batch_failure(rates: Map<Seq<char>, MerchantCreateRateLimit>, list: Seq<CreatePaymentArgs>, i: int, now: u64) -> Option<Error>
    decreases list.len() - i,
{
    if i < 0 || i >= list.len() {
        None
    } else {
        let a = list[i];
        match rate_limit_step(rate_in(rates, a.merchant_id@), now) {
            None => Some(Error::RateLimitExceeded),
            Some(rl) => if resolved_expiry(a.expires_at, a.duration_secs, now) <= now {
                Some(Error::InvalidExpiry)
            } else {
                batch_failure(rates.insert(a.merchant_id@, rl), list, i + 1, now)
            },
        }
    }
}

/// A batch run fails exactly when the rate counters alone predict a failure, with that error.
pub proof fn lemma_batch_failure(st: BatchView, list: Seq<CreatePaymentArgs>, i: int, now: u64)
    ensures
        match batch_failure(st.2, list, i, now) {
            Some(e) => batch_run(st, list, i, now) == Err::<BatchView, Error>(e),
            None => batch_run(st, list, i, now) is Ok,
        },
    decreases list.len() - i,
{
    if i < 0 || i >= list.len() {
    } else {
        match batch_step(st, list[i], now) {
            Err(e) => {},
            Ok(s2) => {
                lemma_batch_failure(s2, list, i + 1, now);
            },
        }
    }
}

/// The checks a swap-and-pay makes before the swap runs: the amounts, the route, the
/// router's quote `quoted`, and (when an oracle and pair are given) the oracle's answer `rate`.
pub open spec fn swap_precheck_error(args: SwapAndPayArgs, quoted: Seq<i128>, rate: Option<RateData>) -> Option<Error> {
    if args.amount <= 0 || args.amount_in <= 0 {
        Some(Error::InvalidAmount)
    } else if args.amount_out_min < args.amount {
        Some(Error::SwapPathInvalid)
    } else if quote_error(args.token_in@, args.amount_in, args.amount_out_min, args.path@, quoted) is Some {
        quote_error(args.token_in@, args.amount_in, args.amount_out_min, args.path@, quoted)
    } else if args.fx_oracle is Some && args.oracle_pair is Some {
        oracle_error(rate, args.amount_in, quoted[args.path@.len() - 1], args.max_deviation_bps)
    } else {
        None
    }
}

/// The payment a swap-and-pay creates: due in the route's last token, with no memo,
/// duration, idempotency key or metadata.
pub open spec fn swap_payment_args(args: SwapAndPayArgs) -> CreatePaymentArgs {
    CreatePaymentArgs {
        payment_id: args.payment_id,
        merchant_id: args.merchant_id,
        amount: args.amount,
        currency: args.currency,
        deposit_address: args.deposit_address,
        expires_at: args.expires_at,
        duration_secs: None,
        memo: None,
        memo_type: None,
        token_address: Some(args.path@[args.path@.len() - 1]),
        client_token: None,
        metadata_hash: None,
    }
}

/// The event announcing a completed swap-and-pay.
pub open spec fn swap_event(args: SwapAndPayArgs) -> Effect {
    Effect::Emit(
        Event::SwapAndPay {
            payment_id: args.payment_id,
            payer: args.payer,
            amount_in: args.amount_in,
            token_in: args.token_in,
            amount: args.amount,
        },
    )
}

/// Whether some address occurs twice in `path`.
pub fn has_repeated_address(path: &Vec<Address>) -> (r: bool)
    ensures
        r == has_repeat(path@),
{
    let mut i: usize = 0;
    while i < path.len()
        invariant
            i <= path@.len(),
            forall|a: int, b: int| 0 <= a < i && a < b < path@.len() ==> path@[a]@ != path@[b]@,
        decreases path.len() - i,
    {
        let mut j: usize = i + 1;
        while j < path.len()
            invariant
                i < path@.len(),
                i + 1 <= j <= path@.len(),
                forall|a: int, b: int| 0 <= a < i && a < b < path@.len() ==> path@[a]@ != path@[b]@,
                forall|b: int| i < b < j ==> path@[i as int]@ != path@[b]@,
            decreases path.len() - j,
        {
            if path[i] == path[j] {
                assert(0 <= i < j < path@.len() && path@[i as int]@ == path@[j as int]@);
                return true;
            }
            j = j + 1;
        }
        i = i + 1;
    }
    false
}

/// Checks a swap route before any quote is asked for: at least two hops, starting at
/// `token_in`, with no address twice (a circular route is how arbitrage exploits look).
pub fn validate_path(token_in: &Address, path: &Vec<Address>) -> (r: Result<(), Error>)
    ensures
        match path_error(token_in@, path@) {
            Some(e) => r == Err::<(), Error>(e),
            None => r is Ok,
        },
{
    if path.len() < 2 {
        return Err(Error::SwapPathInvalid);
    }
    if path[0] != *token_in {
        return Err(Error::SwapPathInvalid);
    }
    if has_repeated_address(path) {
        return Err(Error::ArbitrageDetected);
    }
    Ok(())
}

/// The oracle's predicted output fits in an `i128`.
proof fn lemma_expected_out_fits(amount_in: i128, rate: RateData)
    ensures
        oracle_expected_out(amount_in, rate) <= i128::MAX,
{
    let a = clamp_i128(amount_in * rate.rate);
    let b = clamp_i128(pow10(rate.decimals as nat));
    lemma_pow10_monotone(0, rate.decimals as nat);
    assert(b >= 1);
    if a >= 0 {
        assert(a / b <= a) by (nonlinear_arith)
            requires
                a >= 0,
                b >= 1,
        ;
    } else {
        assert((-a) / b >= 0) by (nonlinear_arith)
            requires
                -a > 0,
                b >= 1,
        ;
    }
}

/// Checks a swap route and the router's quote for it. `quoted` is what the router's
/// `get_amounts_out` answered for `amount_in` along `path`: it must give one amount per hop,
/// start at `amount_in` and end at no less than `amount_out_min`.
pub fn validate_path_returns(
    token_in: &Address,
    amount_in: i128,
    amount_out_min: i128,
    path: &Vec<Address>,
    quoted: &Vec<i128>,
) -> (r: Result<(), Error>)
    ensures
        match quote_error(token_in@, amount_in, amount_out_min, path@, quoted@) {
            Some(e) => r == Err::<(), Error>(e),
            None => r is Ok,
        },
{
    validate_path(token_in, path)?;
    if quoted.len() != path.len() {
        return Err(Error::SwapPathInvalid);
    }
    if quoted[0] != amount_in {
        return Err(Error::SwapPathInvalid);
    }
    if quoted[path.len() - 1] < amount_out_min {
        return Err(Error::SwapPathInvalid);
    }
    Ok(())
}

/// `10^n`, saturating at `i128::MAX`.
pub fn saturating_pow10(n: u32) -> (r: i128)
    ensures
        r == clamp_i128(pow10(n as nat)),
{
    let mut d: i128 = 1;
    let mut k: u32 = 0;
    while k < n
        invariant
            k <= n,
            d == clamp_i128(pow10(k as nat)),
        decreases n - k,
    {
        proof {
            lemma_pow10_monotone(k as nat, n as nat);
            lemma_pow10_monotone(k as nat, (k + 1) as nat);
        }
        if d == i128::MAX {
            return d;
        }
        d = sat_mul(d, 10);
        k = k + 1;
    }
    d
}

/// Compares a router's quoted output with the oracle's reference rate. `rate` is the
/// oracle's answer for the pair (none when the lookup failed, which is refused); the quote
/// may stray from `amount_in * rate / 10^decimals` by at most `max_deviation_bps`.
pub fn validate_oracle_swap_rate(
    rate: &Option<RateData>,
    amount_in: i128,
    dex_quoted_out: i128,
    max_deviation_bps: u32,
) -> (r: Result<(), Error>)
    requires
        *rate matches Some(rd) ==> (oracle_expected_out(amount_in, rd) > 0
            ==> oracle_expected_out(amount_in, rd) - dex_quoted_out <= i128::MAX),
    ensures
        match oracle_error(*rate, amount_in, dex_quoted_out, max_deviation_bps) {
            Some(e) => r == Err::<(), Error>(e),
            None => r is Ok,
        },
{
    let rate_data = match rate {
        Some(d) => d,
        None => {
            return Err(Error::OraclePriceDeviation);
        },
    };
    let divisor = saturating_pow10(rate_data.decimals);
    proof {
        lemma_pow10_monotone(0, rate_data.decimals as nat);
    }
    let expected_out = div_trunc(sat_mul(amount_in, rate_data.rate), divisor);
    if expected_out <= 0 {
        return Err(Error::OraclePriceDeviation);
    }
    let diff: i128 = if dex_quoted_out > expected_out {
        dex_quoted_out - expected_out
    } else {
        expected_out - dex_quoted_out
    };
    let deviation_bps = div_trunc(sat_mul(diff, 10_000), expected_out);
    if deviation_bps > max_deviation_bps as i128 {
        return Err(Error::OraclePriceDeviation);
    }
    Ok(())
}

/// Runs the checks a swap-and-pay makes before the swap: `quoted` is the router's quote for
/// the route and `oracle_rate` the oracle's answer (consulted only when `args` names both an
/// oracle and a pair). The swap is to be carried out only when this passes.
pub fn swap_precheck(args: &SwapAndPayArgs, quoted: &Vec<i128>, oracle_rate: &Option<RateData>) -> (r: Result<(), Error>)
    ensures
        match swap_precheck_error(*args, quoted@, *oracle_rate) {
            Some(e) => r == Err::<(), Error>(e),
            None => r is Ok,
        },
{
    if args.amount <= 0 || args.amount_in <= 0 {
        return Err(Error::InvalidAmount);
    }
    if args.amount_out_min < args.amount {
        return Err(Error::SwapPathInvalid);
    }
    validate_path_returns(&args.token_in, args.amount_in, args.amount_out_min, &args.path, quoted)?;
    if args.fx_oracle.is_some() && args.oracle_pair.is_some() {
        let quoted_out = quoted[args.path.len() - 1];
        proof {
            if oracle_rate.is_some() {
                lemma_expected_out_fits(args.amount_in, oracle_rate->Some_0);
            }
        }
        validate_oracle_swap_rate(oracle_rate, args.amount_in, quoted_out, args.max_deviation_bps)?;
    }
    Ok(())
}

/// The deadline handed to the router's swap: one hour after `now`, saturating.
pub fn swap_deadline(now: u64) -> (r: u64)
    ensures
        r == clamp_u64(now + 3_600),
{
    sat_add_u64(now, 3_600)
}

/// The payment processor: payment charges, their verification, settlement and the
/// controls around creating them.
pub struct PaymentProcessor {
    /// This contract's own address.
    pub contract_address: Address,
    pub access: AccessControl,
    pub payments: Table<PaymentCharge>,
    /// Each merchant's payment ids, in creation order.
    pub merchant_payments: Table<Vec<String>>,
    pub rate_limits: Table<MerchantCreateRateLimit>,
    pub global_pause: Option<PauseState>,
    pub creation_pause: Option<PauseState>,
    /// The merchant registry consulted before payments are created, if any.
    pub merchant_registry: Option<Address>,
    pub allowed_tokens: Table<bool>,
    pub merchant_limits: Table<AmountLimits>,
    pub global_limits: Option<AmountLimits>,
    /// Idempotency keys and the payment each was used for.
    pub idempotency: Table<String>,
    /// The payment streams run by this contract.
    pub streams: PaymentStreaming,
    /// Effects of the calls so far, for the host to carry out in order.
    pub effects: Vec<Effect>,
}

impl PaymentProcessor {
    /// Internal consistency of every store.
    pub open spec fn wf(&self) -> bool {
        &&& self.access.wf()
        &&& self.payments.wf()
        &&& self.merchant_payments.wf()
        &&& self.rate_limits.wf()
        &&& self.allowed_tokens.wf()
        &&& self.merchant_limits.wf()
        &&& self.idempotency.wf()
        &&& self.streams.wf()
    }

    /// Everything but the payment records, indexes, rate counters, idempotency keys and effects.
    pub open spec fn same_config(&self, other: &Self) -> bool {
        &&& self.contract_address == other.contract_address
        &&& self.access == other.access
        &&& self.global_pause == other.global_pause
        &&& self.creation_pause == other.creation_pause
        &&& self.merchant_registry == other.merchant_registry
        &&& self.allowed_tokens == other.allowed_tokens
        &&& self.merchant_limits == other.merchant_limits
        &&& self.global_limits == other.global_limits
        &&& self.streams == other.streams
    }

    /// Whether the global pause is on.
    pub open spec fn spec_is_paused(&self) -> bool {
        switch_on(self.global_pause)
    }

    /// Whether payment creation is blocked by either pause switch.
    pub open spec fn creation_blocked(&self) -> bool {
        switch_on(self.global_pause) || switch_on(self.creation_pause)
    }

    /// Whether `account` holds `role` here.
    pub open spec fn spec_has_role(&self, role: Seq<char>, account: Seq<char>) -> bool {
        self.access.spec_has_role(role, account)
    }

    /// Whether a token may be used for payments.
    pub open spec fn spec_token_allowed(&self, token: Seq<char>) -> bool {
        self.allowed_tokens@.contains_key(token) && self.allowed_tokens@[token]
    }

    /// The limits that apply to a merchant: its own, else the global ones.
    pub open spec fn limits_for(&self, merchant: Seq<char>) -> Option<AmountLimits> {
        if self.merchant_limits@.contains_key(merchant) {
            Some(self.merchant_limits@[merchant])
        } else {
            self.global_limits
        }
    }

    /// The stored rate-limit counter of a merchant.
    pub open spec fn rate_state(&self, merchant: Seq<char>) -> Option<MerchantCreateRateLimit> {
        if self.rate_limits@.contains_key(merchant) {
            Some(self.rate_limits@[merchant])
        } else {
            None
        }
    }

    /// The first check that a fresh payment creation fails, in the order they are made.
    /// `registry_merchant` is the registry's answer for the merchant (none when the lookup failed).
    pub open spec fn creation_error(
        &self,
        args: CreatePaymentArgs,
        now: u64,
        registry_merchant: Option<Merchant>,
    ) -> Option<Error> {
        if !self.spec_has_role(spec_role_merchant(), args.merchant_id@) {
            Some(Error::Unauthorized)
        } else if args.token_address matches Some(t) && !self.spec_token_allowed(t@) {
            Some(Error::UnsupportedToken)
        } else if self.merchant_registry is Some && !merchant_in_good_standing(registry_merchant) {
            Some(Error::Unauthorized)
        } else if args.amount <= 0 {
            Some(Error::InvalidAmount)
        } else if limit_error(self.limits_for(args.merchant_id@), args.amount) is Some {
            limit_error(self.limits_for(args.merchant_id@), args.amount)
        } else if self.payments@.contains_key(args.payment_id@) {
            Some(Error::PaymentAlreadyExists)
        } else if args.payment_id@.len() == 0 {
            Some(Error::InvalidPaymentId)
        } else if rate_limit_step(self.rate_state(args.merchant_id@), now) is None {
            Some(Error::RateLimitExceeded)
        } else if resolved_expiry(args.expires_at, args.duration_secs, now) <= now {
            Some(Error::InvalidExpiry)
        } else {
            None
        }
    }

    /// Whether the creation's idempotency key was used before.
    pub open spec fn idempotency_hit(&self, args: CreatePaymentArgs) -> bool {
        match args.client_token {
            Some(t) => self.idempotency@.contains_key(t@),
            None => false,
        }
    }

    /// What a payment lookup answers.
    pub open spec fn spec_lookup(&self, payment_id: Seq<char>) -> Result<PaymentCharge, Error> {
        if self.payments@.contains_key(payment_id) {
            Ok(self.payments@[payment_id])
        } else {
            Err(Error::PaymentNotFound)
        }
    }

    /// The stores after a successful creation for `args` at `now`, effects aside.
    pub open spec fn stored_new(&self, new: &Self, args: CreatePaymentArgs, now: u64) -> bool {
        let p = new_payment(args, now);
        let m = args.merchant_id@;
        &&& new.same_config(self)
        &&& new.payments@ == self.payments@.insert(args.payment_id@, p)
        &&& new.merchant_payments@.dom() == self.merchant_payments@.dom().insert(m)
        &&& new.merchant_payments@[m]@ == list_or_empty(self.merchant_payments@, m).push(args.payment_id)
        &&& forall|k: Seq<char>|
            k != m && #[trigger] self.merchant_payments@.contains_key(k) ==> new.merchant_payments@[k]
                == self.merchant_payments@[k]
        &&& new.rate_limits@ == self.rate_limits@.insert(
            m,
            rate_limit_step(self.rate_state(m), now)->Some_0,
        )
        &&& new.idempotency@ == match args.client_token {
            Some(t) => self.idempotency@.insert(t@, args.payment_id),
            None => self.idempotency@,
        }
    }

    /// The state after a successful creation for `args` at `now`.
    pub open spec fn created(&self, new: &Self, args: CreatePaymentArgs, now: u64) -> bool {
        &&& self.stored_new(new, args, now)
        &&& new.effects@ == self.effects@.push(created_event(args))
    }

    /// A processor with empty storage, not yet initialized.
    pub fn new(contract_address: Address) -> (r: Self)
        ensures
            r.wf(),
            r.contract_address == contract_address,
            r.payments@ == Map::<Seq<char>, PaymentCharge>::empty(),
            r.global_pause is None,
            r.creation_pause is None,
            r.effects@ == Seq::<Effect>::empty(),
            r.access.admin_view() is None,
            r.access.members_view() == Map::<Seq<char>, Seq<String>>::empty(),
            r.merchant_payments@ == Map::<Seq<char>, Vec<String>>::empty(),
            r.rate_limits@ == Map::<Seq<char>, MerchantCreateRateLimit>::empty(),
            r.merchant_registry is None,
            r.allowed_tokens@ == Map::<Seq<char>, bool>::empty(),
            r.merchant_limits@ == Map::<Seq<char>, AmountLimits>::empty(),
            r.global_limits is None,
            r.idempotency@ == Map::<Seq<char>, String>::empty(),
            r.streams.contract_address == contract_address,
            r.streams.streams@ == Map::<Seq<char>, PaymentStream>::empty(),
            r.streams.sender_index@ == Map::<Seq<char>, Vec<String>>::empty(),
            r.streams.recipient_index@ == Map::<Seq<char>, Vec<String>>::empty(),
            r.streams.locks@ == Map::<Seq<char>, bool>::empty(),
            r.streams.effects@ == Seq::<Effect>::empty(),
    {
        PaymentProcessor {
            contract_address: contract_address.clone(),
            access: AccessControl::new(),
            payments: Table::new(),
            merchant_payments: Table::new(),
            rate_limits: Table::new(),
            global_pause: None,
            creation_pause: None,
            merchant_registry: None,
            allowed_tokens: Table::new(),
            merchant_limits: Table::new(),
            global_limits: None,
            idempotency: Table::new(),
            streams: PaymentStreaming::new(contract_address.clone()),
            effects: Vec::new(),
        }
    }

    /// Storage layout version.
    pub fn version() -> (r: u32)
        ensures
            r == 1,
    {
        1
    }

    /// Sets the administrator and both pause switches to off (reason empty, stamped `now`).
    pub fn initialize_payment_processor(&mut self, admin: Address, now: u64) -> (r: Result<(), Error>)
        requires
            old(self).wf(),
        ensures
            final(self).wf(),
            admin@ == spec_zero_address() ==> r == Err::<(), Error>(Error::InvalidAddress) && *final(self)
                == *old(self),
            admin@ != spec_zero_address() ==> {
                &&& r is Ok
                &&& final(self).access.admin_view() == Some(admin@)
                &&& final(self).access.admin_address() == Some(admin)
                &&& final(self).spec_has_role(spec_role_admin(), admin@)
                &&& final(self).global_pause matches Some(g) && !g.paused && g.reason@.len() == 0
                    && g.admin is None && g.timestamp == now
                &&& final(self).creation_pause == final(self).global_pause
                &&& *final(self) == (PaymentProcessor {
                    access: final(self).access,
                    global_pause: final(self).global_pause,
                    creation_pause: final(self).creation_pause,
                    ..*old(self)
                })
            },
    {
        let zero = zero_contract_address();
        if admin == zero {
            return Err(Error::InvalidAddress);
        }
        self.access.initialize(admin);
        let initial = PauseState { paused: false, reason: String::new(), admin: None, timestamp: now };
        self.creation_pause = Some(initial.clone());
        self.global_pause = Some(initial);
        Ok(())
    }

    /// The administrator sets the merchant registry consulted before payments are created.
    pub fn set_merchant_registry_address(&mut self, admin: &Address, registry_address: Address) -> (r:
        Result<(), Error>)
        requires
            old(self).wf(),
        ensures
            final(self).wf(),
            !old(self).spec_has_role(spec_role_admin(), admin@) ==> r == Err::<(), Error>(
                Error::Unauthorized,
            ) && *final(self) == *old(self),
            old(self).spec_has_role(spec_role_admin(), admin@) ==> r is Ok && *final(self) == (
            PaymentProcessor { merchant_registry: Some(registry_address), ..*old(self) }),
    {
        let admin_role = role_admin();
        if !self.access.has_role(&admin_role, admin) {
            return Err(Error::Unauthorized);
        }
        self.merchant_registry = Some(registry_address);
        Ok(())
    }

    /// The administrator `admin` gives `role` to `account`.
    pub fn grant_role(&mut self, admin: &Address, role: String, account: Address) -> (r: Result<
        (),
        Error,
    >)
        requires
            old(self).wf(),
        ensures
            final(self).wf(),
            !old(self).spec_has_role(spec_role_admin(), admin@) ==> r == Err::<(), Error>(
                Error::AccessControlError,
            ) && *final(self) == *old(self),
            old(self).spec_has_role(spec_role_admin(), admin@) ==> r is Ok && final(self).spec_has_role(role@, account@)
                && (forall|r2: Seq<char>, a2: Seq<char>|
                (r2 != role@ || a2 != account@) ==> final(self).spec_has_role(r2, a2) == old(self).spec_has_role(r2, a2))
                && final(self).access.admin_address() == old(self).access.admin_address()
                && *final(self) == (PaymentProcessor { access: final(self).access, ..*old(self) }),
    {
        match self.access.grant_role(admin, role, account) {
            Ok(()) => Ok(()),
            Err(_) => Err(Error::AccessControlError),
        }
    }

    /// The administrator turns the global pause on or off. While it is on, payments cannot
    /// be created, verified or cancelled.
    pub fn set_global_pause(&mut self, admin: Address, paused: bool, reason: String, now: u64) -> (r:
        Result<(), Error>)
        requires
            old(self).wf(),
        ensures
            final(self).wf(),
            !old(self).spec_has_role(spec_role_admin(), admin@) ==> r == Err::<(), Error>(
                Error::Unauthorized,
            ) && *final(self) == *old(self),
            old(self).spec_has_role(spec_role_admin(), admin@) ==> r is Ok && *final(self) == (
            PaymentProcessor {
                global_pause: Some(PauseState { paused, reason, admin: Some(admin), timestamp: now }),
                effects: final(self).effects,
                ..*old(self)
            }) && final(self).effects@ == old(self).effects@.push(
                Effect::Emit(Event::PauseChanged { scope: PauseScope::Global, paused, admin, reason }),
            ),
    {
        let admin_role = role_admin();
        if !self.access.has_role(&admin_role, &admin) {
            return Err(Error::Unauthorized);
        }
        let state = PauseState { paused, reason: reason.clone(), admin: Some(admin.clone()), timestamp: now };
        self.global_pause = Some(state);
        self.effects.push(Effect::Emit(Event::PauseChanged { scope: PauseScope::Global, paused, admin, reason }));
        Ok(())
    }

    /// The administrator turns the creation pause on or off. While it is on, only payment
    /// creation is blocked.
    pub fn set_creation_pause(&mut self, admin: Address, paused: bool, reason: String, now: u64) -> (r:
        Result<(), Error>)
        requires
            old(self).wf(),
        ensures
            final(self).wf(),
            !old(self).spec_has_role(spec_role_admin(), admin@) ==> r == Err::<(), Error>(
                Error::Unauthorized,
            ) && *final(self) == *old(self),
            old(self).spec_has_role(spec_role_admin(), admin@) ==> r is Ok && *final(self) == (
            PaymentProcessor {
                creation_pause: Some(PauseState { paused, reason, admin: Some(admin), timestamp: now }),
                effects: final(self).effects,
                ..*old(self)
            }) && final(self).effects@ == old(self).effects@.push(
                Effect::Emit(Event::PauseChanged { scope: PauseScope::Creation, paused, admin, reason }),
            ),
    {
        let admin_role = role_admin();
        if !self.access.has_role(&admin_role, &admin) {
            return Err(Error::Unauthorized);
        }
        let state = PauseState { paused, reason: reason.clone(), admin: Some(admin.clone()), timestamp: now };
        self.creation_pause = Some(state);
        self.effects.push(Effect::Emit(Event::PauseChanged { scope: PauseScope::Creation, paused, admin, reason }));
        Ok(())
    }

    /// Sets the global pause with a fixed reason ("Legacy pause" or "Legacy unpause").
    pub fn set_paused(&mut self, admin: Address, paused: bool, now: u64) -> (r: Result<(), Error>)
        requires
            old(self).wf(),
        ensures
            final(self).wf(),
            !old(self).spec_has_role(spec_role_admin(), admin@) ==> r == Err::<(), Error>(
                Error::Unauthorized,
            ) && *final(self) == *old(self),
            old(self).spec_has_role(spec_role_admin(), admin@) ==> r is Ok && (final(self).global_pause matches Some(g)
                && g.paused == paused && g.reason@ == (if paused { "Legacy pause"@ } else { "Legacy unpause"@ })
                && g.admin == Some(admin) && g.timestamp == now) && final(self).creation_pause == old(self).creation_pause
                && final(self).payments == old(self).payments,
    {
        let reason = if paused {
            String::from_str("Legacy pause")
        } else {
            String::from_str("Legacy unpause")
        };
        self.set_global_pause(admin, paused, reason, now)
    }

    /// Both pause switches (off, with an empty reason, where never set).
    pub fn get_pause_info(&self) -> (r: PauseInfo)
        ensures
            reports_switch(r.global, self.global_pause),
            reports_switch(r.creation, self.creation_pause),
    {
        let global = match &self.global_pause {
            Some(s) => s.clone(),
            None => PauseState { paused: false, reason: String::new(), admin: None, timestamp: 0 },
        };
        let creation = match &self.creation_pause {
            Some(s) => s.clone(),
            None => PauseState { paused: false, reason: String::new(), admin: None, timestamp: 0 },
        };
        PauseInfo { global, creation }
    }

    /// Whether the global pause is on.
    pub fn is_paused(&self) -> (r: bool)
        ensures
            r == self.spec_is_paused(),
    {
        match &self.global_pause {
            Some(s) => s.paused,
            None => false,
        }
    }

    fn require_not_paused(&self) -> (r: Result<(), Error>)
        ensures
            self.spec_is_paused() ==> r == Err::<(), Error>(Error::ContractPaused),
            !self.spec_is_paused() ==> r is Ok,
    {
        if self.is_paused() {
            return Err(Error::ContractPaused);
        }
        Ok(())
    }

    fn require_creation_not_paused(&self) -> (r: Result<(), Error>)
        ensures
            self.creation_blocked() ==> r == Err::<(), Error>(Error::ContractPaused),
            !self.creation_blocked() ==> r is Ok,
    {
        self.require_not_paused()?;
        let creation_paused = match &self.creation_pause {
            Some(s) => s.paused,
            None => false,
        };
        if creation_paused {
            return Err(Error::ContractPaused);
        }
        Ok(())
    }

    /// The merchant's rate-limit counter after one more creation, or an error when
    /// its window is used up. Nothing is stored.
    fn next_rate_limit(&self, merchant_id: &Address, now: u64) -> (r: Result<MerchantCreateRateLimit, Error>)
        requires
            self.wf(),
        ensures
            match rate_limit_step(self.rate_state(merchant_id@), now) {
                Some(st) => r == Ok::<MerchantCreateRateLimit, Error>(st),
                None => r == Err::<MerchantCreateRateLimit, Error>(Error::RateLimitExceeded),
            },
    {
        let prev: Option<MerchantCreateRateLimit> = match self.rate_limits.get(merchant_id) {
            Some(s) => Some(*s),
            None => None,
        };
        match rate_limit_next(prev, now) {
            Some(st) => Ok(st),
            None => Err(Error::RateLimitExceeded),
        }
    }

    /// A merchant sets its own amount limits (either bound may be absent).
    pub fn set_merchant_amount_limits(&mut self, merchant_id: Address, min: Option<i128>, max: Option<i128>) -> (r:
        Result<(), Error>)
        requires
            old(self).wf(),
        ensures
            final(self).wf(),
            !old(self).spec_has_role(spec_role_merchant(), merchant_id@) ==> r == Err::<(), Error>(
                Error::Unauthorized,
            ) && *final(self) == *old(self),
            old(self).spec_has_role(spec_role_merchant(), merchant_id@) && bad_range(min, max)
                ==> r == Err::<(), Error>(Error::InvalidAmount) && *final(self) == *old(self),
            old(self).spec_has_role(spec_role_merchant(), merchant_id@) && !bad_range(min, max)
                ==> r is Ok && final(self).merchant_limits@ == old(self).merchant_limits@.insert(merchant_id@, AmountLimits { min, max })
                && *final(self) == (PaymentProcessor { merchant_limits: final(self).merchant_limits, ..*old(self) }),
    {
        let merchant_role = role_merchant();
        if !self.access.has_role(&merchant_role, &merchant_id) {
            return Err(Error::Unauthorized);
        }
        if let (Some(lo), Some(hi)) = (min, max) {
            if lo > hi {
                return Err(Error::InvalidAmount);
            }
        }
        self.merchant_limits.set(merchant_id, AmountLimits { min, max });
        Ok(())
    }

    /// A merchant's own amount limits.
    pub fn get_merchant_amount_limits(&self, merchant_id: &Address) -> (r: Option<AmountLimits>)
        requires
            self.wf(),
        ensures
            r == (if self.merchant_limits@.contains_key(merchant_id@) {
                Some(self.merchant_limits@[merchant_id@])
            } else {
                None
            }),
    {
        match self.merchant_limits.get(merchant_id) {
            Some(l) => Some(*l),
            None => None,
        }
    }

    /// The administrator sets the global amount limits (either bound may be absent).
    pub fn set_global_amount_limits(&mut self, admin: &Address, min: Option<i128>, max: Option<i128>) -> (r:
        Result<(), Error>)
        requires
            old(self).wf(),
        ensures
            final(self).wf(),
            !old(self).spec_has_role(spec_role_admin(), admin@) ==> r == Err::<(), Error>(
                Error::Unauthorized,
            ) && *final(self) == *old(self),
            old(self).spec_has_role(spec_role_admin(), admin@) && bad_range(min, max)
                ==> r == Err::<(), Error>(Error::InvalidAmount) && *final(self) == *old(self),
            old(self).spec_has_role(spec_role_admin(), admin@) && !bad_range(min, max)
                ==> r is Ok && *final(self) == (PaymentProcessor { global_limits: Some(AmountLimits { min, max }), ..*old(self) }),
    {
        let admin_role = role_admin();
        if !self.access.has_role(&admin_role, admin) {
            return Err(Error::Unauthorized);
        }
        if let (Some(lo), Some(hi)) = (min, max) {
            if lo > hi {
                return Err(Error::InvalidAmount);
            }
        }
        self.global_limits = Some(AmountLimits { min, max });
        Ok(())
    }

    /// The global amount limits.
    pub fn get_global_amount_limits(&self) -> (r: Option<AmountLimits>)
        ensures
            r == self.global_limits,
    {
        self.global_limits
    }

    fn enforce_amount_limits(&self, merchant_id: &Address, amount: i128) -> (r: Result<(), Error>)
        requires
            self.wf(),
        ensures
            match limit_error(self.limits_for(merchant_id@), amount) {
                Some(e) => r == Err::<(), Error>(e),
                None => r is Ok,
            },
    {
        let limits = match self.merchant_limits.get(merchant_id) {
            Some(l) => Some(*l),
            None => self.global_limits,
        };
        if let Some(l) = limits {
            if let Some(min) = l.min {
                if amount < min {
                    return Err(Error::AmountBelowMin);
                }
            }
            if let Some(max) = l.max {
                if amount > max {
                    return Err(Error::AmountAboveMax);
                }
            }
        }
        Ok(())
    }

    /// The administrator adds a token to the allowlist.
    pub fn allow_token(&mut self, admin: &Address, token_address: Address) -> (r: Result<(), Error>)
        requires
            old(self).wf(),
        ensures
            final(self).wf(),
            !old(self).spec_has_role(spec_role_admin(), admin@) ==> r == Err::<(), Error>(
                Error::Unauthorized,
            ) && *final(self) == *old(self),
            old(self).spec_has_role(spec_role_admin(), admin@) ==> r is Ok && final(self).allowed_tokens@
                == old(self).allowed_tokens@.insert(token_address@, true) && *final(self) == (
            PaymentProcessor { allowed_tokens: final(self).allowed_tokens, ..*old(self) }),
    {
        let admin_role = role_admin();
        if !self.access.has_role(&admin_role, admin) {
            return Err(Error::Unauthorized);
        }
        self.allowed_tokens.set(token_address, true);
        Ok(())
    }

    /// Whether a token is on the allowlist.
    pub fn is_token_allowed(&self, token_address: &Address) -> (r: bool)
        requires
            self.wf(),
        ensures
            r == self.spec_token_allowed(token_address@),
    {
        match self.allowed_tokens.get(token_address) {
            Some(b) => *b,
            None => false,
        }
    }

    /// Runs every check of a fresh creation except the rate limit and expiry; nothing is stored.
    fn check_creation(&self, args: &CreatePaymentArgs, registry_merchant: &Option<Merchant>) -> (r: Result<(), Error>)
        requires
            self.wf(),
        ensures
            ({
                let e = self.creation_error(*args, 0, *registry_merchant);
                &&& match e {
                    Some(err) => if err != Error::RateLimitExceeded && err != Error::InvalidExpiry {
                        r == Err::<(), Error>(err)
                    } else {
                        r is Ok
                    },
                    None => r is Ok,
                }
            }),
    {
        let merchant_role = role_merchant();
        if !self.access.has_role(&merchant_role, &args.merchant_id) {
            return Err(Error::Unauthorized);
        }
        if let Some(token_addr) = &args.token_address {
            if !self.is_token_allowed(token_addr) {
                return Err(Error::UnsupportedToken);
            }
        }
        if self.merchant_registry.is_some() {
            match registry_merchant {
                Some(m) => {
                    if m.kyc_tier == KycTier::Unverified || !m.active || m.suspension_reason.is_some() {
                        return Err(Error::Unauthorized);
                    }
                },
                None => {
                    return Err(Error::Unauthorized);
                },
            }
        }
        if args.amount <= 0 {
            return Err(Error::InvalidAmount);
        }
        self.enforce_amount_limits(&args.merchant_id, args.amount)?;
        if self.payments.contains(&args.payment_id) {
            return Err(Error::PaymentAlreadyExists);
        }
        if args.payment_id.as_str().is_empty() {
            return Err(Error::InvalidPaymentId);
        }
        Ok(())
    }

    /// Stores a new pending payment, indexes it under its merchant, records the rate-limit
    /// counter and idempotency key, and announces it.
    fn store_new_payment(&mut self, args: CreatePaymentArgs, now: u64, rate: MerchantCreateRateLimit) -> (p: PaymentCharge)
        requires
            old(self).wf(),
            rate_limit_step(old(self).rate_state(args.merchant_id@), now) == Some(rate),
        ensures
            final(self).wf(),
            p == new_payment(args, now),
            old(self).created(&*final(self), args, now),
    {
        let expires_at = match args.expires_at {
            Some(ts) => ts,
            None => {
                let d = match args.duration_secs {
                    Some(d) => d,
                    None => DEFAULT_PAYMENT_DURATION_SECS,
                };
                sat_add_u64(now, d)
            },
        };
        let payment = PaymentCharge {
            payment_id: args.payment_id.clone(),
            merchant_id: args.merchant_id.clone(),
            amount: args.amount,
            currency: args.currency.clone(),
            deposit_address: args.deposit_address.clone(),
            status: PaymentStatus::Pending,
            payer_address: None,
            transaction_hash: None,
            created_at: now,
            confirmed_at: None,
            expires_at,
            amount_received: None,
            memo: clone_opt_str(&args.memo),
            memo_type: clone_opt_str(&args.memo_type),
            token_address: clone_opt_str(&args.token_address),
            metadata_hash: args.metadata_hash,
        };
        self.payments.set(args.payment_id.clone(), payment.clone());
        let mut list = match self.merchant_payments.take(&args.merchant_id) {
            Some(l) => l,
            None => Vec::new(),
        };
        list.push(args.payment_id.clone());
        self.merchant_payments.set(args.merchant_id.clone(), list);
        self.rate_limits.set(args.merchant_id.clone(), rate);
        self.effects.push(
            Effect::Emit(
                Event::PaymentCreated {
                    payment_id: args.payment_id.clone(),
                    merchant_id: args.merchant_id.clone(),
                    amount: args.amount,
                },
            ),
        );
        match &args.client_token {
            Some(token) => {
                self.idempotency.set(token.clone(), args.payment_id.clone());
            },
            None => {},
        }
        proof {
            let m = args.merchant_id@;
            assert(self.merchant_payments@.dom() =~= old(self).merchant_payments@.dom().insert(m));
        }
        payment
    }

    /// The creation path shared by single creation and swap-and-pay.
    fn create_payment_core(&mut self, args: CreatePaymentArgs, now: u64, registry_merchant: Option<Merchant>) -> (r:
        Result<PaymentCharge, Error>)
        requires
            old(self).wf(),
        ensures
            final(self).wf(),
            ({
                let blocked = old(self).creation_blocked();
                let idem_hit = !blocked && old(self).idempotency_hit(args);
                &&& blocked ==> r == Err::<PaymentCharge, Error>(Error::ContractPaused) && *final(self) == *old(self)
                &&& idem_hit ==> *final(self) == *old(self) && (
                    if old(self).idempotency@[args.client_token->Some_0@]@ == args.payment_id@ {
                        r == old(self).spec_lookup(args.payment_id@)
                    } else {
                        r == Err::<PaymentCharge, Error>(Error::DuplicateIdempotencyKey)
                    })
                &&& !blocked && !idem_hit ==> match old(self).creation_error(args, now, registry_merchant) {
                    Some(e) => r == Err::<PaymentCharge, Error>(e) && *final(self) == *old(self),
                    None => r == Ok::<PaymentCharge, Error>(new_payment(args, now)) && old(self).created(&*final(self), args, now),
                }
            }),
    {
        self.require_creation_not_paused()?;
        if let Some(token) = &args.client_token {
            if let Some(existing_id) = self.idempotency.get(token) {
                if *existing_id == args.payment_id {
                    return self.get_payment(&args.payment_id);
                } else {
                    return Err(Error::DuplicateIdempotencyKey);
                }
            }
        }
        self.check_creation(&args, &registry_merchant)?;
        let rate = self.next_rate_limit(&args.merchant_id, now)?;
        let expires_at = match args.expires_at {
            Some(ts) => ts,
            None => {
                let d = match args.duration_secs {
                    Some(d) => d,
                    None => DEFAULT_PAYMENT_DURATION_SECS,
                };
                sat_add_u64(now, d)
            },
        };
        if expires_at <= now {
            return Err(Error::InvalidExpiry);
        }
        let p = self.store_new_payment(args, now, rate);
        Ok(p)
    }

    /// A merchant creates a pending payment (the merchant is taken to have authorized the call).
    ///
    /// `registry_merchant` is what the configured merchant registry answered for the
    /// merchant (none when the lookup failed); it is consulted only when a registry is set.
    pub fn create_payment(&mut self, args: CreatePaymentArgs, now: u64, registry_merchant: Option<Merchant>) -> (r:
        Result<PaymentCharge, Error>)
        requires
            old(self).wf(),
        ensures
            final(self).wf(),
            ({
                let blocked = old(self).creation_blocked();
                let idem_hit = !blocked && old(self).idempotency_hit(args);
                &&& blocked ==> r == Err::<PaymentCharge, Error>(Error::ContractPaused) && *final(self) == *old(self)
                &&& idem_hit ==> *final(self) == *old(self) && (
                    if old(self).idempotency@[args.client_token->Some_0@]@ == args.payment_id@ {
                        r == old(self).spec_lookup(args.payment_id@)
                    } else {
                        r == Err::<PaymentCharge, Error>(Error::DuplicateIdempotencyKey)
                    })
                &&& !blocked && !idem_hit ==> match old(self).creation_error(args, now, registry_merchant) {
                    Some(e) => r == Err::<PaymentCharge, Error>(e) && *final(self) == *old(self),
                    None => r == Ok::<PaymentCharge, Error>(new_payment(args, now)) && old(self).created(&*final(self), args, now),
                }
            }),
    {
        self.create_payment_core(args, now, registry_merchant)
    }

    /// The payment stored under `payment_id`.
    pub fn get_payment(&self, payment_id: &String) -> (r: Result<PaymentCharge, Error>)
        requires
            self.wf(),
        ensures
            r == self.spec_lookup(payment_id@),
    {
        match self.payments.get(payment_id) {
            Some(p) => Ok(p.clone()),
            None => Err(Error::PaymentNotFound),
        }
    }

    /// A merchant's payment ids in creation order.
    pub fn get_merchant_payments(&self, merchant_id: &Address) -> (r: Vec<String>)
        requires
            self.wf(),
        ensures
            r@ == list_or_empty(self.merchant_payments@, merchant_id@),
    {
        match self.merchant_payments.get(merchant_id) {
            Some(l) => crate::access_control::clone_strings(l),
            None => Vec::new(),
        }
    }

    /// A page of a merchant's payment ids: positions `offset .. offset + limit`.
    pub fn get_merchant_payments_paginated(&self, merchant_id: &Address, offset: u32, limit: u32) -> (r: Vec<String>)
        requires
            self.wf(),
        ensures
            r@ == page_of(list_or_empty(self.merchant_payments@, merchant_id@), offset as int, limit as int),
    {
        let all = self.get_merchant_payments(merchant_id);
        let mut page: Vec<String> = Vec::new();
        if limit == 0 {
            assert(page@ =~= page_of(all@, offset as int, limit as int));
            return page;
        }
        let total = all.len();
        let start: usize = offset as usize;
        if start >= total {
            assert(page@ =~= page_of(all@, offset as int, limit as int));
            return page;
        }
        let end: usize = if (limit as usize) >= total - start {
            total
        } else {
            start + limit as usize
        };
        let mut i: usize = start;
        while i < end
            invariant
                start <= i <= end,
                end <= total,
                total == all@.len(),
                page@ == all@.subrange(start as int, i as int),
            decreases end - i,
        {
            page.push(all[i].clone());
            i = i + 1;
            proof {
                assert(page@ =~= all@.subrange(start as int, i as int));
            }
        }
        page
    }

    /// Verification of a pending payment by an oracle: records what was received and
    /// classifies the payment as confirmed, overpaid or partially paid.
    ///
    /// `token_decimals` is what the payment's token reports as its decimals; it is
    /// consulted only when the payment names a token.
    pub fn verify_payment(
        &mut self,
        oracle: &Address,
        payment_id: &String,
        transaction_hash: [u8; 32],
        payer_address: Address,
        amount_received: i128,
        now: u64,
        token_decimals: u32,
    ) -> (r: Result<PaymentStatus, Error>)
        requires
            old(self).wf(),
            old(self).payments@.contains_key(payment_id@) && old(self).payments@[payment_id@].status == PaymentStatus::Pending
                && now <= old(self).payments@[payment_id@].expires_at ==> {
                let p = old(self).payments@[payment_id@];
                &&& i128::MIN <= amount_received - p.amount <= i128::MAX
                &&& p.token_address is Some ==> token_decimals <= 44
            },
        ensures
            final(self).wf(),
            old(self).spec_is_paused() ==> r == Err::<PaymentStatus, Error>(Error::ContractPaused) && *final(self) == *old(self),
            !old(self).spec_is_paused() && !old(self).spec_has_role(spec_role_oracle(), oracle@) ==> r == Err::<
                PaymentStatus,
                Error,
            >(Error::Unauthorized) && *final(self) == *old(self),
            !old(self).spec_is_paused() && old(self).spec_has_role(spec_role_oracle(), oracle@) ==> match old(self).spec_lookup(payment_id@) {
                Err(e) => r == Err::<PaymentStatus, Error>(e) && *final(self) == *old(self),
                Ok(p) => if p.status == PaymentStatus::Confirmed {
                    r == Ok::<PaymentStatus, Error>(PaymentStatus::Confirmed) && *final(self) == *old(self)
                } else if p.status != PaymentStatus::Pending {
                    r == Err::<PaymentStatus, Error>(Error::PaymentAlreadyProcessed) && *final(self) == *old(self)
                } else if now > p.expires_at {
                    r == Err::<PaymentStatus, Error>(Error::PaymentExpired) && *final(self) == *old(self)
                } else {
                    let status = classify_payment(amount_received - p.amount, tolerance_for(p.token_address, token_decimals));
                    let q = PaymentCharge {
                        amount_received: Some(amount_received),
                        payer_address: Some(payer_address),
                        transaction_hash: Some(transaction_hash),
                        confirmed_at: Some(now),
                        status,
                        ..p
                    };
                    &&& r == Ok::<PaymentStatus, Error>(status)
                    &&& final(self).payments@ == old(self).payments@.insert(payment_id@, q)
                    &&& final(self).effects@ == old(self).effects@.push(Effect::Emit(Event::PaymentVerified {
                        payment_id: *payment_id,
                        merchant_id: p.merchant_id,
                        amount: p.amount,
                        amount_received,
                        status,
                    }))
                    &&& *final(self) == (PaymentProcessor { payments: final(self).payments, effects: final(self).effects, ..*old(self) })
                },
            },
    {
        self.require_not_paused()?;
        let oracle_role = role_oracle();
        if !self.access.has_role(&oracle_role, oracle) {
            return Err(Error::Unauthorized);
        }
        let mut payment = self.get_payment(payment_id)?;
        if payment.status == PaymentStatus::Confirmed {
            return Ok(PaymentStatus::Confirmed);
        }
        if payment.status != PaymentStatus::Pending {
            return Err(Error::PaymentAlreadyProcessed);
        }
        if now > payment.expires_at {
            return Err(Error::PaymentExpired);
        }
        payment.amount_received = Some(amount_received);
        payment.payer_address = Some(payer_address);
        payment.transaction_hash = Some(transaction_hash);
        payment.confirmed_at = Some(now);
        let tolerance: i128 = match &payment.token_address {
            Some(_) => {
                if token_decimals >= 6 {
                    crate::fx_oracle::pow10_i128(token_decimals - 6)
                } else {
                    1
                }
            },
            None => PAYMENT_TOLERANCE,
        };
        let diff = amount_received - payment.amount;
        let new_status = if 0 <= diff && diff <= tolerance {
            PaymentStatus::Confirmed
        } else if diff > tolerance {
            PaymentStatus::Overpaid
        } else if diff >= -tolerance {
            PaymentStatus::Confirmed
        } else {
            PaymentStatus::PartiallyPaid
        };
        payment.status = new_status;
        let merchant_id = payment.merchant_id.clone();
        let amount = payment.amount;
        self.payments.set(payment_id.clone(), payment);
        self.effects.push(Effect::Emit(Event::PaymentVerified {
            payment_id: payment_id.clone(),
            merchant_id,
            amount,
            amount_received,
            status: new_status,
        }));
        Ok(new_status)
    }

    /// Cancels a pending payment. A payment past its expiry is marked expired instead
    /// (whoever asks); otherwise the merchant or an oracle may cancel it, which marks it failed.
    pub fn cancel_payment(&mut self, authority: &Address, payment_id: &String, now: u64) -> (r: Result<(), Error>)
        requires
            old(self).wf(),
        ensures
            final(self).wf(),
            old(self).spec_is_paused() ==> r == Err::<(), Error>(Error::ContractPaused) && *final(self) == *old(self),
            !old(self).spec_is_paused() ==> match old(self).spec_lookup(payment_id@) {
                Err(e) => r == Err::<(), Error>(e) && *final(self) == *old(self),
                Ok(p) => if p.status != PaymentStatus::Pending {
                    r == Err::<(), Error>(Error::PaymentAlreadyProcessed) && *final(self) == *old(self)
                } else if now >= p.expires_at {
                    &&& r is Ok
                    &&& final(self).payments@ == old(self).payments@.insert(payment_id@, PaymentCharge { status: PaymentStatus::Expired, ..p })
                    &&& final(self).effects@ == old(self).effects@.push(Effect::Emit(Event::PaymentExpired {
                        payment_id: *payment_id, merchant_id: p.merchant_id, amount: p.amount }))
                    &&& *final(self) == (PaymentProcessor { payments: final(self).payments, effects: final(self).effects, ..*old(self) })
                } else if authority@ != p.merchant_id@ && !old(self).spec_has_role(spec_role_oracle(), authority@) {
                    r == Err::<(), Error>(Error::Unauthorized) && *final(self) == *old(self)
                } else {
                    &&& r is Ok
                    &&& final(self).payments@ == old(self).payments@.insert(payment_id@, PaymentCharge { status: PaymentStatus::Failed, ..p })
                    &&& final(self).effects@ == old(self).effects@.push(Effect::Emit(Event::PaymentCancelled {
                        payment_id: *payment_id, merchant_id: p.merchant_id, amount: p.amount }))
                    &&& *final(self) == (PaymentProcessor { payments: final(self).payments, effects: final(self).effects, ..*old(self) })
                },
            },
    {
        self.require_not_paused()?;
        let mut payment = self.get_payment(payment_id)?;
        if payment.status != PaymentStatus::Pending {
            return Err(Error::PaymentAlreadyProcessed);
        }
        if now >= payment.expires_at {
            payment.status = PaymentStatus::Expired;
            let merchant_id = payment.merchant_id.clone();
            let amount = payment.amount;
            self.payments.set(payment_id.clone(), payment);
            self.effects.push(Effect::Emit(Event::PaymentExpired { payment_id: payment_id.clone(), merchant_id, amount }));
            return Ok(());
        }
        let is_merchant = *authority == payment.merchant_id;
        let oracle_role = role_oracle();
        let is_oracle = self.access.has_role(&oracle_role, authority);
        if !is_merchant && !is_oracle {
            return Err(Error::Unauthorized);
        }
        payment.status = PaymentStatus::Failed;
        let merchant_id = payment.merchant_id.clone();
        let amount = payment.amount;
        self.payments.set(payment_id.clone(), payment);
        self.effects.push(Effect::Emit(Event::PaymentCancelled { payment_id: payment_id.clone(), merchant_id, amount }));
        Ok(())
    }

    /// Marks a pending payment expired once its deadline has passed (anyone may ask).
    pub fn expire_payment(&mut self, payment_id: &String, now: u64) -> (r: Result<(), Error>)
        requires
            old(self).wf(),
        ensures
            final(self).wf(),
            match old(self).spec_lookup(payment_id@) {
                Err(e) => r == Err::<(), Error>(e) && *final(self) == *old(self),
                Ok(p) => if p.status != PaymentStatus::Pending {
                    r == Err::<(), Error>(Error::PaymentAlreadyProcessed) && *final(self) == *old(self)
                } else if now <= p.expires_at {
                    r == Err::<(), Error>(Error::Unauthorized) && *final(self) == *old(self)
                } else {
                    &&& r is Ok
                    &&& final(self).payments@ == old(self).payments@.insert(payment_id@, PaymentCharge { status: PaymentStatus::Expired, ..p })
                    &&& final(self).effects@ == old(self).effects@.push(Effect::Emit(Event::PaymentExpired {
                        payment_id: *payment_id, merchant_id: p.merchant_id, amount: p.amount }))
                    &&& *final(self) == (PaymentProcessor { payments: final(self).payments, effects: final(self).effects, ..*old(self) })
                },
            },
    {
        let mut payment = self.get_payment(payment_id)?;
        if payment.status != PaymentStatus::Pending {
            return Err(Error::PaymentAlreadyProcessed);
        }
        if now <= payment.expires_at {
            return Err(Error::Unauthorized);
        }
        payment.status = PaymentStatus::Expired;
        let merchant_id = payment.merchant_id.clone();
        let amount = payment.amount;
        self.payments.set(payment_id.clone(), payment);
        self.effects.push(Effect::Emit(Event::PaymentExpired { payment_id: payment_id.clone(), merchant_id, amount }));
        Ok(())
    }

    /// A settlement operator settles a confirmed payment across one or more recipients.
    /// The split amounts must all be positive and add up to the payment amount.
    pub fn settle_payment(&mut self, operator: &Address, payment_id: &String, splits: &Vec<SettlementSplit>) -> (r:
        Result<(), Error>)
        requires
            old(self).wf(),
        ensures
            final(self).wf(),
            !old(self).spec_has_role(spec_role_settlement_operator(), operator@) ==> r == Err::<(), Error>(
                Error::Unauthorized,
            ) && *final(self) == *old(self),
            old(self).spec_has_role(spec_role_settlement_operator(), operator@) ==> match old(self).spec_lookup(payment_id@) {
                Err(e) => r == Err::<(), Error>(e) && *final(self) == *old(self),
                Ok(p) => if p.status != PaymentStatus::Confirmed {
                    r == Err::<(), Error>(Error::PaymentAlreadyProcessed) && *final(self) == *old(self)
                } else if splits@.len() == 0 || (exists|i: int| 0 <= i < splits@.len() && #[trigger] splits@[i].amount <= 0)
                    || splits_total(splits@) != p.amount {
                    r == Err::<(), Error>(Error::InvalidSettlement) && *final(self) == *old(self)
                } else {
                    &&& r is Ok
                    &&& final(self).payments@ == old(self).payments@.insert(payment_id@, PaymentCharge { status: PaymentStatus::Settled, ..p })
                    &&& final(self).effects@ == old(self).effects@.push(Effect::Emit(Event::PaymentSettled {
                        payment_id: *payment_id, merchant_id: p.merchant_id, amount: p.amount }))
                    &&& *final(self) == (PaymentProcessor { payments: final(self).payments, effects: final(self).effects, ..*old(self) })
                },
            },
    {
        let settle_role = role_settlement_operator();
        if !self.access.has_role(&settle_role, operator) {
            return Err(Error::Unauthorized);
        }
        let mut payment = self.get_payment(payment_id)?;
        if payment.status != PaymentStatus::Confirmed {
            return Err(Error::PaymentAlreadyProcessed);
        }
        if splits.len() == 0 {
            return Err(Error::InvalidSettlement);
        }
        let mut total: i128 = 0;
        let mut i: usize = 0;
        #[verifier::loop_isolation(false)]
        while i < splits.len()
            invariant
                i <= splits@.len(),
                *self == *old(self),
                self.wf(),
                total == splits_total(splits@.take(i as int)),
                forall|j: int| 0 <= j < i ==> splits@[j].amount > 0,
            decreases splits.len() - i,
        {
            if splits[i].amount <= 0 {
                return Err(Error::InvalidSettlement);
            }
            proof {
                assert(splits@.take(i as int + 1).drop_last() =~= splits@.take(i as int));
            }
            total = sat_add(total, splits[i].amount);
            i = i + 1;
        }
        proof {
            assert(splits@.take(splits@.len() as int) =~= splits@);
        }
        if total != payment.amount {
            return Err(Error::InvalidSettlement);
        }
        payment.status = PaymentStatus::Settled;
        let merchant_id = payment.merchant_id.clone();
        let amount = payment.amount;
        self.payments.set(payment_id.clone(), payment);
        self.effects.push(Effect::Emit(Event::PaymentSettled { payment_id: payment_id.clone(), merchant_id, amount }));
        Ok(())
    }


    /// The first failing validation check of a batch, from position `i` on.
    pub open spec fn batch_validation(
        &self,
        list: Seq<CreatePaymentArgs>,
        regs: Seq<Option<Merchant>>,
        i: int,
    ) -> Option<Error>
        decreases list.len() - i,
    {
        if i < 0 || i >= list.len() {
            None
        } else {
            match self.batch_item_error(list[i], regs[i], id_before(list, i, list[i].payment_id@)) {
                Some(e) => Some(e),
                None => self.batch_validation(list, regs, i + 1),
            }
        }
    }

    /// The validation error of one batch entry, if any; `repeated` says whether an earlier
    /// entry of the batch has the same payment id.
    pub open spec fn batch_item_error(&self, a: CreatePaymentArgs, reg: Option<Merchant>, repeated: bool) -> Option<Error> {
        let e = self.creation_error(a, 0, reg);
        if e is Some && e != Some(Error::RateLimitExceeded) && e != Some(Error::InvalidExpiry) {
            e
        } else if repeated {
            Some(Error::PaymentAlreadyExists)
        } else if a.client_token matches Some(t) && self.idempotency@.contains_key(t@) && self.idempotency@[t@]@ != a.payment_id@ {
            Some(Error::DuplicateIdempotencyKey)
        } else {
            None
        }
    }

    /// The processor's stores as a batch sees them, with no ids created yet.
    pub open spec fn batch_view(&self) -> BatchView {
        (
            self.payments@,
            list_views(self.merchant_payments@),
            self.rate_limits@,
            self.idempotency@,
            self.effects@,
            Seq::empty(),
        )
    }

    /// Several merchants' payments created together: every entry is validated first (a
    /// payment id that repeats an earlier entry's is refused as already existing), and any
    /// failure leaves everything unchanged. An idempotency key given twice in one batch ends up
    /// naming the later entry.
    ///
    /// `registry_merchants[i]` is the registry's answer for the merchant of entry `i` (none when
    /// the lookup failed); it is consulted only when a registry is configured.
    pub fn create_payments_batch(
        &mut self,
        args_list: Vec<CreatePaymentArgs>,
        now: u64,
        registry_merchants: Vec<Option<Merchant>>,
    ) -> (r: Result<Vec<String>, Error>)
        requires
            old(self).wf(),
            registry_merchants@.len() == args_list@.len(),
            args_list@.len() < u32::MAX,
        ensures
            final(self).wf(),
            old(self).creation_blocked() ==> r == Err::<Vec<String>, Error>(Error::ContractPaused) && *final(self) == *old(self),
            !old(self).creation_blocked() && args_list@.len() == 0 ==> (r matches Ok(v) && v@.len() == 0) && *final(self) == *old(self),
            !old(self).creation_blocked() && args_list@.len() > 0 ==> match old(self).batch_validation(args_list@, registry_merchants@, 0) {
                Some(e) => r == Err::<Vec<String>, Error>(e) && *final(self) == *old(self),
                None => match batch_run(old(self).batch_view(), args_list@, 0, now) {
                    Err(e) => r == Err::<Vec<String>, Error>(e) && *final(self) == *old(self),
                    Ok(st) => (r matches Ok(ids) && ids@ == st.5) && final(self).same_config(&*old(self))
                        && final(self).payments@ == st.0
                        && list_views(final(self).merchant_payments@) == st.1
                        && final(self).rate_limits@ == st.2
                        && final(self).idempotency@ == st.3
                        && final(self).effects@ == st.4.push(Effect::Emit(Event::PaymentBatchCreated { count: args_list@.len() as u32 })),
                },
            },
    {
        self.require_creation_not_paused()?;
        if args_list.len() == 0 {
            return Ok(Vec::new());
        }
        // Validate every entry before creating any.
        let mut i: usize = 0;
        while i < args_list.len()
            invariant
                self.wf(),
                *self == *old(self),
                !old(self).creation_blocked(),
                args_list@.len() > 0,
                i <= args_list@.len(),
                registry_merchants@.len() == args_list@.len(),
                old(self).batch_validation(args_list@, registry_merchants@, 0)
                    == old(self).batch_validation(args_list@, registry_merchants@, i as int),
            decreases args_list.len() - i,
        {
            let a = &args_list[i];
            self.check_creation(a, &registry_merchants[i])?;
            if id_repeats(&args_list, i) {
                return Err(Error::PaymentAlreadyExists);
            }
            if let Some(token) = &a.client_token {
                if let Some(existing_id) = self.idempotency.get(token) {
                    if *existing_id != a.payment_id {
                        return Err(Error::DuplicateIdempotencyKey);
                    }
                }
            }
            i = i + 1;
        }
        // Dry run of the rate limits and expiries, so that a failure changes nothing.
        let mut scratch: Table<MerchantCreateRateLimit> = Table::new();
        let ghost rates0 = self.rate_limits@;
        assert(rates0.union_prefer_right(scratch@) =~= rates0);
        let mut j: usize = 0;
        while j < args_list.len()
            invariant
                self.wf(),
                *self == *old(self),
                !old(self).creation_blocked(),
                args_list@.len() > 0,
                old(self).batch_validation(args_list@, registry_merchants@, 0) is None,
                scratch.wf(),
                rates0 == self.rate_limits@,
                j <= args_list@.len(),
                batch_failure(rates0, args_list@, 0, now)
                    == batch_failure(rates0.union_prefer_right(scratch@), args_list@, j as int, now),
            decreases args_list.len() - j,
        {
            let a = &args_list[j];
            let prev: Option<MerchantCreateRateLimit> = match scratch.get(&a.merchant_id) {
                Some(s) => Some(*s),
                None => match self.rate_limits.get(&a.merchant_id) {
                    Some(s) => Some(*s),
                    None => None,
                },
            };
            assert(prev == rate_in(rates0.union_prefer_right(scratch@), a.merchant_id@));
            let next = match rate_limit_next(prev, now) {
                Some(st) => st,
                None => {
                    proof { lemma_batch_failure(old(self).batch_view(), args_list@, 0, now); }
                    return Err(Error::RateLimitExceeded);
                },
            };
            let expires_at = match a.expires_at {
                Some(ts) => ts,
                None => {
                    let d = match a.duration_secs {
                        Some(d) => d,
                        None => DEFAULT_PAYMENT_DURATION_SECS,
                    };
                    sat_add_u64(now, d)
                },
            };
            if expires_at <= now {
                proof { lemma_batch_failure(old(self).batch_view(), args_list@, 0, now); }
                return Err(Error::InvalidExpiry);
            }
            let ghost sc_before = scratch@;
            scratch.set(a.merchant_id.clone(), next);
            proof {
                assert(rates0.union_prefer_right(scratch@) =~= rates0.union_prefer_right(sc_before).insert(
                    a.merchant_id@,
                    next,
                ));
            }
            j = j + 1;
        }
        proof {
            lemma_batch_failure(old(self).batch_view(), args_list@, 0, now);
        }
        // Every creation succeeds now.
        let mut ids: Vec<String> = Vec::new();
        let mut k: usize = 0;
        let ghost final_st = batch_run(old(self).batch_view(), args_list@, 0, now)->Ok_0;
        while k < args_list.len()
            invariant
                self.wf(),
                self.same_config(&*old(self)),
                !old(self).creation_blocked(),
                args_list@.len() > 0,
                old(self).batch_validation(args_list@, registry_merchants@, 0) is None,
                k <= args_list@.len(),
                batch_run(old(self).batch_view(), args_list@, 0, now) == Ok::<BatchView, Error>(final_st),
                batch_run(
                    (self.payments@, list_views(self.merchant_payments@), self.rate_limits@, self.idempotency@, self.effects@, ids@),
                    args_list@, k as int, now,
                ) == Ok::<BatchView, Error>(final_st),
            decreases args_list.len() - k,
        {
            let a = args_list[k].clone();
            let ghost st_k: BatchView = (self.payments@, list_views(self.merchant_payments@), self.rate_limits@, self.idempotency@, self.effects@, ids@);
            let rate = match self.next_rate_limit(&a.merchant_id, now) {
                Ok(r) => r,
                Err(e) => {
                    assert(false);
                    return Err(e);
                },
            };
            let id = a.payment_id.clone();
            let ghost av = a;
            let ghost mp_before = self.merchant_payments@;
            self.store_new_payment(a, now, rate);
            ids.push(id);
            proof {
                let m = av.merchant_id@;
                let s2 = batch_step(st_k, av, now)->Ok_0;
                assert(list_views(self.merchant_payments@) =~= s2.1) by {
                    assert forall|key: Seq<char>| #[trigger] list_views(self.merchant_payments@).contains_key(key)
                        implies list_views(self.merchant_payments@)[key] == s2.1[key] by {
                        if key != m {
                            assert(mp_before.contains_key(key));
                        }
                    }
                }
                assert(ids@ =~= s2.5);
            }
            k = k + 1;
        }
        self.effects.push(Effect::Emit(Event::PaymentBatchCreated { count: args_list.len() as u32 }));
        Ok(ids)
    }

    /// A payer swaps one token into the merchant's and pays in one step.
    ///
    /// `quoted` is the router's quote for the route, `oracle_rate` the oracle's answer for the
    /// pair (consulted only when `args` names both an oracle and a pair), and `swap_result` what
    /// the router's swap of `amount_in` along the route (deadline [`swap_deadline`]) returned.
    /// The whole call is undone when this returns an error, the swap included.
    /// `registry_merchant` is the registry's answer for the merchant, as in [`Self::create_payment`].
    pub fn swap_and_pay(
        &mut self,
        args: SwapAndPayArgs,
        now: u64,
        quoted: Vec<i128>,
        oracle_rate: Option<RateData>,
        swap_result: Vec<i128>,
        registry_merchant: Option<Merchant>,
    ) -> (r: Result<PaymentCharge, Error>)
        requires
            old(self).wf(),
        ensures
            final(self).wf(),
            match swap_precheck_error(args, quoted@, oracle_rate) {
                Some(e) => r == Err::<PaymentCharge, Error>(e) && *final(self) == *old(self),
                None => {
                    let n = args.path@.len();
                    let ca = swap_payment_args(args);
                    if swap_result@.len() < n || swap_result@[n - 1] < args.amount_out_min {
                        r == Err::<PaymentCharge, Error>(Error::SwapPathInvalid) && *final(self) == *old(self)
                    } else if swap_result@[n - 1] < quoted@[n - 1] {
                        r == Err::<PaymentCharge, Error>(Error::ArbitrageDetected) && *final(self) == *old(self)
                    } else if old(self).creation_blocked() {
                        r == Err::<PaymentCharge, Error>(Error::ContractPaused) && *final(self) == *old(self)
                    } else {
                        match old(self).creation_error(ca, now, registry_merchant) {
                            Some(e) => r == Err::<PaymentCharge, Error>(e) && *final(self) == *old(self),
                            None => {
                                &&& r == Ok::<PaymentCharge, Error>(new_payment(ca, now))
                                &&& old(self).stored_new(&*final(self), ca, now)
                                &&& final(self).effects@ == old(self).effects@.push(created_event(ca)).push(swap_event(args))
                            },
                        }
                    }
                },
            },
    {
        swap_precheck(&args, &quoted, &oracle_rate)?;
        let n = args.path.len();
        if swap_result.len() < n {
            return Err(Error::SwapPathInvalid);
        }
        let actual_out = swap_result[n - 1];
        if actual_out < args.amount_out_min {
            return Err(Error::SwapPathInvalid);
        }
        if actual_out < quoted[n - 1] {
            return Err(Error::ArbitrageDetected);
        }
        let settlement_token = args.path[n - 1].clone();
        let ghost ca = swap_payment_args(args);
        let create_args = CreatePaymentArgs {
            payment_id: args.payment_id.clone(),
            merchant_id: args.merchant_id.clone(),
            amount: args.amount,
            currency: args.currency.clone(),
            deposit_address: args.deposit_address.clone(),
            expires_at: args.expires_at,
            duration_secs: None,
            memo: None,
            memo_type: None,
            token_address: Some(settlement_token),
            client_token: None,
            metadata_hash: None,
        };
        assert(create_args == ca);
        let payment = self.create_payment_core(create_args, now, registry_merchant)?;
        self.effects.push(
            Effect::Emit(
                Event::SwapAndPay {
                    payment_id: args.payment_id,
                    payer: args.payer,
                    amount_in: args.amount_in,
                    token_in: args.token_in,
                    amount: args.amount,
                },
            ),
        );
        Ok(payment)
    }

    /// Opens a payment stream (see [`PaymentStreaming::create_stream`]).
    pub fn create_stream(&mut self, sender: Address, receiver: Address, token: Address, rate_per_second: i128, deposit: i128, stream_id: String, now: u64) -> (r: Result<PaymentStream, StreamError>)
        requires
            old(self).wf(),
        ensures
            final(self).wf(),
            *final(self) == (PaymentProcessor { streams: final(self).streams, ..*old(self) }),
            rate_per_second <= 0 ==> r == Err::<PaymentStream, StreamError>(StreamError::InvalidRate) && *final(self) == *old(self),
            rate_per_second > 0 && deposit <= 0 ==> r == Err::<PaymentStream, StreamError>(StreamError::InvalidDeposit)
                && *final(self) == *old(self),
            rate_per_second > 0 && deposit > 0 && old(self).streams.streams@.contains_key(stream_id@) ==> r == Err::<
                PaymentStream,
                StreamError,
            >(StreamError::StreamAlreadyExists) && *final(self) == *old(self),
            rate_per_second > 0 && deposit > 0 && !old(self).streams.streams@.contains_key(stream_id@) ==> {
                let s = PaymentStream {
                    stream_id,
                    sender,
                    receiver,
                    destination: None,
                    token,
                    rate_per_second,
                    remaining_deposit: deposit,
                    last_checkpoint_at: now,
                    accrued_at_checkpoint: 0,
                    status: StreamStatus::Active,
                    milestones_approved: true,
                };
                &&& r == Ok::<PaymentStream, StreamError>(s)
                &&& final(self).streams.streams@ == old(self).streams.streams@.insert(stream_id@, s)
                &&& final(self).streams.sender_index@.dom() == old(self).streams.sender_index@.dom().insert(sender@)
                &&& final(self).streams.sender_index@[sender@]@ == list_or_empty(old(self).streams.sender_index@, sender@).push(stream_id)
                &&& forall|k: Seq<char>|
                    k != sender@ && #[trigger] old(self).streams.sender_index@.contains_key(k) ==> final(self).streams.sender_index@[k]
                        == old(self).streams.sender_index@[k]
                &&& final(self).streams.recipient_index@.dom() == old(self).streams.recipient_index@.dom().insert(receiver@)
                &&& final(self).streams.recipient_index@[receiver@]@ == list_or_empty(old(self).streams.recipient_index@, receiver@).push(
                    stream_id,
                )
                &&& forall|k: Seq<char>|
                    k != receiver@ && #[trigger] old(self).streams.recipient_index@.contains_key(k) ==> final(self).streams.recipient_index@[k]
                        == old(self).streams.recipient_index@[k]
                &&& final(self).streams.effects@ == old(self).streams.effects@ + seq![
                    transfer_effect(token, sender, old(self).streams.contract_address, deposit, TransferMode::Required),
                    Effect::Emit(Event::StreamCreated { stream_id, sender, receiver, deposit }),
                ]
                &&& final(self).streams.locks == old(self).streams.locks
                &&& final(self).streams.contract_address == old(self).streams.contract_address
            },
    {
        self.streams.create_stream(sender, receiver, token, rate_per_second, deposit, stream_id, now)
    }

    /// A payment stream (see [`PaymentStreaming::get_stream`]).
    pub fn get_stream(&self, stream_id: &String) -> (r: Result<PaymentStream, StreamError>)
        requires
            self.wf(),
        ensures
            self.streams.streams@.contains_key(stream_id@) ==> r == Ok::<PaymentStream, StreamError>(self.streams.streams@[stream_id@]),
            !self.streams.streams@.contains_key(stream_id@) ==> r == Err::<PaymentStream, StreamError>(StreamError::StreamNotFound),
    {
        self.streams.get_stream(stream_id)
    }

    /// Sets a stream's withdrawal destination (see [`PaymentStreaming::set_stream_destination`]).
    pub fn set_stream_destination(&mut self, recipient: &Address, stream_id: &String, destination: Address) -> (r: Result<(), StreamError>)
        requires
            old(self).wf(),
        ensures
            final(self).wf(),
            *final(self) == (PaymentProcessor { streams: final(self).streams, ..*old(self) }),
            !old(self).streams.streams@.contains_key(stream_id@) ==> r == Err::<(), StreamError>(StreamError::StreamNotFound) && *final(self)
                == *old(self),
            old(self).streams.streams@.contains_key(stream_id@) ==> {
                let s = old(self).streams.streams@[stream_id@];
                if s.receiver@ != recipient@ {
                    r == Err::<(), StreamError>(StreamError::Unauthorized) && *final(self) == *old(self)
                } else if s.status != StreamStatus::Active {
                    r == Err::<(), StreamError>(StreamError::StreamNotActive) && *final(self) == *old(self)
                } else {
                    &&& r is Ok
                    &&& final(self).streams.streams@ == old(self).streams.streams@.insert(stream_id@, PaymentStream { destination: Some(destination), ..s })
                    &&& final(self).streams.effects@ == old(self).streams.effects@.push(
                        Effect::Emit(Event::StreamDestinationSet { stream_id: *stream_id, recipient: *recipient, destination }),
                    )
                    &&& final(self).streams == (PaymentStreaming { streams: final(self).streams.streams, effects: final(self).streams.effects, ..old(self).streams })
                }
            },
    {
        self.streams.set_stream_destination(recipient, stream_id, destination)
    }

    /// Cancels a stream (see [`PaymentStreaming::cancel_stream`]).
    pub fn cancel_stream(&mut self, sender: &Address, stream_id: &String, now: u64) -> (r: Result<(), StreamError>)
        requires
            old(self).wf(),
        ensures
            final(self).wf(),
            *final(self) == (PaymentProcessor { streams: final(self).streams, ..*old(self) }),
            match cancel_spec(lookup(old(self).streams.streams@, stream_id@), *stream_id, *sender, now, old(self).streams.contract_address) {
                Err(e) => r == Err::<(), StreamError>(e) && *final(self) == *old(self),
                Ok(o) => {
                    &&& r is Ok
                    &&& final(self).streams.streams@ == old(self).streams.streams@.insert(stream_id@, o.0)
                    &&& final(self).streams.effects@ == old(self).streams.effects@ + o.1
                    &&& final(self).streams == (PaymentStreaming { streams: final(self).streams.streams, effects: final(self).streams.effects, ..old(self).streams })
                },
            },
    {
        self.streams.cancel_stream(sender, stream_id, now)
    }

    /// Cancels several streams atomically (see [`PaymentStreaming::cancel_multiple_streams`]).
    pub fn cancel_multiple_streams(&mut self, sender: &Address, stream_ids: &Vec<String>, now: u64) -> (r: Result<Vec<String>, StreamError>)
        requires
            old(self).wf(),
        ensures
            final(self).wf(),
            *final(self) == (PaymentProcessor { streams: final(self).streams, ..*old(self) }),
            match run_batch(
                (old(self).streams.streams@, Seq::<Effect>::empty(), Seq::<String>::empty()),
                stream_ids@,
                id_key(),
                cancel_step(*sender, now, old(self).streams.contract_address),
            ) {
                Err(e) => r == Err::<Vec<String>, StreamError>(e) && *final(self) == *old(self),
                Ok(st) => {
                    &&& (r matches Ok(v) && v@ == st.2)
                    &&& final(self).streams.streams@ == st.0
                    &&& final(self).streams.effects@ == old(self).streams.effects@ + st.1
                    &&& final(self).streams == (PaymentStreaming { streams: final(self).streams.streams, effects: final(self).streams.effects, ..old(self).streams })
                },
            },
    {
        self.streams.cancel_multiple_streams(sender, stream_ids, now)
    }

    /// Cancels what it can of up to twenty streams (see [`PaymentStreaming::batch_cancel_streams`]).
    pub fn batch_cancel_streams(&mut self, sender: &Address, stream_ids: &Vec<String>, now: u64) -> (r: Result<Vec<String>, StreamError>)
        requires
            old(self).wf(),
        ensures
            final(self).wf(),
            *final(self) == (PaymentProcessor { streams: final(self).streams, ..*old(self) }),
            match run_batch(
                (old(self).streams.streams@, Seq::<Effect>::empty(), Seq::<String>::empty()),
                stream_ids@.take(if stream_ids@.len() < MAX_BATCH_CANCEL { stream_ids@.len() as int } else { MAX_BATCH_CANCEL as int }),
                id_key(),
                cancel_or_skip_step(*sender, now, old(self).streams.contract_address),
            ) {
                Err(e) => r == Err::<Vec<String>, StreamError>(e) && *final(self) == *old(self),
                Ok(st) => {
                    &&& (r matches Ok(v) && v@ == st.2)
                    &&& final(self).streams.streams@ == st.0
                    &&& final(self).streams.effects@ == old(self).streams.effects@ + st.1
                    &&& final(self).streams == (PaymentStreaming { streams: final(self).streams.streams, effects: final(self).streams.effects, ..old(self).streams })
                },
            },
    {
        self.streams.batch_cancel_streams(sender, stream_ids, now)
    }

    /// Withdraws from several streams to chosen destinations (see [`PaymentStreaming::batch_withdraw_to`]).
    pub fn batch_withdraw_to(&mut self, recipient: &Address, withdrawals: &Vec<WithdrawalRecipient>, now: u64) -> (r: Result<Vec<String>, StreamError>)
        requires
            old(self).wf(),
        ensures
            final(self).wf(),
            *final(self) == (PaymentProcessor { streams: final(self).streams, ..*old(self) }),
            match run_batch(
                (old(self).streams.streams@, Seq::<Effect>::empty(), Seq::<String>::empty()),
                withdrawals@,
                withdrawal_key(),
                withdraw_to_step(*recipient, now, old(self).streams.contract_address),
            ) {
                Err(e) => r == Err::<Vec<String>, StreamError>(e) && *final(self) == *old(self),
                Ok(st) => {
                    &&& (r matches Ok(v) && v@ == st.2)
                    &&& final(self).streams.streams@ == st.0
                    &&& final(self).streams.effects@ == old(self).streams.effects@ + st.1
                    &&& final(self).streams == (PaymentStreaming { streams: final(self).streams.streams, effects: final(self).streams.effects, ..old(self).streams })
                },
            },
    {
        self.streams.batch_withdraw_to(recipient, withdrawals, now)
    }

    /// Sweeps a receiver's streams while this contract is not paused (see [`PaymentStreaming::withdraw_all_for_recipient`]).
    pub fn withdraw_all_for_recipient(&mut self, recipient: &Address, max_streams: u32, now: u64) -> (r: Result<Vec<String>, StreamError>)
        requires
            old(self).wf(),
        ensures
            final(self).wf(),
            *final(self) == (PaymentProcessor { streams: final(self).streams, ..*old(self) }),
            old(self).spec_is_paused() ==> r == Err::<Vec<String>, StreamError>(StreamError::ContractPaused) && *final(self) == *old(self),
            !old(self).spec_is_paused() ==> match run_batch(
                (old(self).streams.streams@, Seq::<Effect>::empty(), Seq::<String>::empty()),
                list_or_empty(old(self).streams.recipient_index@, recipient@),
                id_key(),
                sweep_step(*recipient, max_streams, now, old(self).streams.contract_address, old(self).streams.locks@),
            ) {
                Err(e) => r == Err::<Vec<String>, StreamError>(e) && *final(self) == *old(self),
                Ok(st) => {
                    &&& (r matches Ok(v) && v@ == st.2)
                    &&& final(self).streams.streams@ == st.0
                    &&& final(self).streams.effects@ == old(self).streams.effects@ + st.1
                    &&& final(self).streams == (PaymentStreaming { streams: final(self).streams.streams, effects: final(self).streams.effects, ..old(self).streams })
                },
            },
    {
        let paused = self.is_paused();
        self.streams.withdraw_all_for_recipient(recipient, max_streams, now, paused)
    }

    /// Withdraws a stream to its destination while this contract is not paused (see [`PaymentStreaming::trigger_withdrawal`]).
    pub fn trigger_withdrawal(&mut self, stream_id: &String, now: u64) -> (r: Result<String, StreamError>)
        requires
            old(self).wf(),
        ensures
            final(self).wf(),
            *final(self) == (PaymentProcessor { streams: final(self).streams, ..*old(self) }),
            old(self).spec_is_paused() ==> r == Err::<String, StreamError>(StreamError::ContractPaused) && *final(self) == *old(self),
            !old(self).spec_is_paused() && !old(self).streams.streams@.contains_key(stream_id@) ==> r == Err::<String, StreamError>(StreamError::StreamNotFound)
                && *final(self) == *old(self),
            !old(self).spec_is_paused() && old(self).streams.streams@.contains_key(stream_id@) ==> {
                let s = old(self).streams.streams@[stream_id@];
                let c = checkpoint(s, now);
                let wd = c.accrued_at_checkpoint;
                if s.status != StreamStatus::Active {
                    r == Err::<String, StreamError>(StreamError::StreamNotActive) && *final(self) == *old(self)
                } else if !s.milestones_approved {
                    r == Err::<String, StreamError>(StreamError::MilestoneNotApproved) && *final(self) == *old(self)
                } else if s.destination is None {
                    r == Err::<String, StreamError>(StreamError::DestinationNotSet) && *final(self) == *old(self)
                } else if old(self).streams.locked(stream_id@) {
                    r == Err::<String, StreamError>(StreamError::WithdrawalInProgress) && *final(self) == *old(self)
                } else if wd <= 0 {
                    &&& r == Ok::<String, StreamError>(*stream_id)
                    &&& final(self).streams.streams@ == old(self).streams.streams@.insert(stream_id@, c)
                    &&& final(self).streams.locks@ == old(self).streams.locks@.insert(stream_id@, true)
                    &&& final(self).streams.effects == old(self).streams.effects
                    &&& final(self).streams == (PaymentStreaming { streams: final(self).streams.streams, locks: final(self).streams.locks, ..old(self).streams })
                } else {
                    &&& r == Ok::<String, StreamError>(*stream_id)
                    &&& final(self).streams.streams@ == old(self).streams.streams@.insert(stream_id@, paid_out(c, wd))
                    &&& final(self).streams.locks@ == old(self).streams.locks@
                    &&& final(self).streams.effects@ == old(self).streams.effects@ + seq![
                        transfer_effect(s.token, old(self).streams.contract_address, s.destination->Some_0, wd, TransferMode::Required),
                        Effect::Emit(
                            Event::StreamWithdrawn {
                                stream_id: *stream_id,
                                receiver: s.receiver,
                                destination: s.destination->Some_0,
                                amount: wd,
                            },
                        ),
                    ]
                    &&& final(self).streams == (PaymentStreaming {
                        streams: final(self).streams.streams,
                        locks: final(self).streams.locks,
                        effects: final(self).streams.effects,
                        ..old(self).streams
                    })
                }
            },
    {
        let paused = self.is_paused();
        self.streams.trigger_withdrawal(stream_id, now, paused)
    }

    /// Tops up several streams atomically (see [`PaymentStreaming::top_up_multiple_streams`]).
    pub fn top_up_multiple_streams(&mut self, sender: &Address, top_ups: &Vec<(String, i128)>) -> (r: Result<(), StreamError>)
        requires
            old(self).wf(),
        ensures
            final(self).wf(),
            *final(self) == (PaymentProcessor { streams: final(self).streams, ..*old(self) }),
            match run_batch(
                (old(self).streams.streams@, Seq::<Effect>::empty(), Seq::<String>::empty()),
                top_ups@,
                top_up_key(),
                top_up_step(*sender, old(self).streams.contract_address),
            ) {
                Err(e) => r == Err::<(), StreamError>(e) && *final(self) == *old(self),
                Ok(st) => {
                    &&& r is Ok
                    &&& final(self).streams.streams@ == st.0
                    &&& final(self).streams.effects@ == old(self).streams.effects@ + st.1
                    &&& final(self).streams == (PaymentStreaming { streams: final(self).streams.streams, effects: final(self).streams.effects, ..old(self).streams })
                },
            },
    {
        self.streams.top_up_multiple_streams(sender, top_ups)
    }

    /// Changes a stream's rate while this contract is not paused (see [`PaymentStreaming::update_stream_rate`]).
    pub fn update_stream_rate(&mut self, sender: &Address, stream_id: &String, new_rate: i128, now: u64) -> (r: Result<(), StreamError>)
        requires
            old(self).wf(),
        ensures
            final(self).wf(),
            *final(self) == (PaymentProcessor { streams: final(self).streams, ..*old(self) }),
            old(self).spec_is_paused() ==> r == Err::<(), StreamError>(StreamError::ContractPaused) && *final(self) == *old(self),
            !old(self).spec_is_paused() && !old(self).streams.streams@.contains_key(stream_id@) ==> r == Err::<(), StreamError>(StreamError::StreamNotFound)
                && *final(self) == *old(self),
            !old(self).spec_is_paused() && old(self).streams.streams@.contains_key(stream_id@) ==> {
                let s = old(self).streams.streams@[stream_id@];
                let (s2, surplus) = rate_changed(s, new_rate, now);
                if s.sender@ != sender@ {
                    r == Err::<(), StreamError>(StreamError::Unauthorized) && *final(self) == *old(self)
                } else if s.status != StreamStatus::Active {
                    r == Err::<(), StreamError>(StreamError::StreamNotActive) && *final(self) == *old(self)
                } else if new_rate <= 0 {
                    r == Err::<(), StreamError>(StreamError::InvalidRate) && *final(self) == *old(self)
                } else {
                    let done = Effect::Emit(
                        Event::StreamRateUpdated {
                            stream_id: *stream_id,
                            sender: *sender,
                            old_rate: s.rate_per_second,
                            new_rate,
                            surplus: surplus as i128,
                        },
                    );
                    &&& r is Ok
                    &&& final(self).streams.streams@ == old(self).streams.streams@.insert(stream_id@, s2)
                    &&& final(self).streams.effects@ == old(self).streams.effects@ + (if surplus > 0 {
                        seq![
                            transfer_effect(s.token, old(self).streams.contract_address, s.sender, surplus as i128, TransferMode::Required),
                            done,
                        ]
                    } else {
                        seq![done]
                    })
                    &&& final(self).streams == (PaymentStreaming { streams: final(self).streams.streams, effects: final(self).streams.effects, ..old(self).streams })
                }
            },
    {
        let paused = self.is_paused();
        self.streams.update_stream_rate(sender, stream_id, new_rate, now, paused)
    }

    /// Closes a finished stream (see [`PaymentStreaming::close_expired_stream`]).
    pub fn close_expired_stream(&mut self, stream_id: &String) -> (r: Result<(), StreamError>)
        requires
            old(self).wf(),
        ensures
            final(self).wf(),
            *final(self) == (PaymentProcessor { streams: final(self).streams, ..*old(self) }),
            !old(self).streams.streams@.contains_key(stream_id@) ==> r == Err::<(), StreamError>(StreamError::StreamNotFound) && *final(self)
                == *old(self),
            old(self).streams.streams@.contains_key(stream_id@) ==> {
                let s = old(self).streams.streams@[stream_id@];
                let residual = s.accrued_at_checkpoint;
                let closed = Effect::Emit(Event::StreamClosed { stream_id: *stream_id, sender: s.sender, receiver: s.receiver, residual });
                if s.status == StreamStatus::Active {
                    r == Err::<(), StreamError>(StreamError::StreamNotActive) && *final(self) == *old(self)
                } else {
                    &&& r is Ok
                    &&& final(self).streams.streams@ == old(self).streams.streams@.remove(stream_id@)
                    &&& final(self).streams.effects@ == old(self).streams.effects@ + (if residual > 0 {
                        seq![transfer_effect(s.token, old(self).streams.contract_address, s.receiver, residual, TransferMode::Required), closed]
                    } else {
                        seq![closed]
                    })
                    &&& final(self).streams == (PaymentStreaming { streams: final(self).streams.streams, effects: final(self).streams.effects, ..old(self).streams })
                }
            },
    {
        self.streams.close_expired_stream(stream_id)
    }

    /// A page of a sender's streams (see [`PaymentStreaming::get_sender_streams`]).
    pub fn get_sender_streams(&self, sender: &Address, page: u32, page_size: u32) -> (r: Vec<PaymentStream>)
        requires
            self.wf(),
        ensures
            ({
                let ids = list_or_empty(self.streams.sender_index@, sender@);
                let (lo, hi) = stream_page(ids, page, page_size);
                r@ == stream_records(self.streams.streams@, ids, lo, hi)
            }),
    {
        self.streams.get_sender_streams(sender, page, page_size)
    }

    /// Hands the accumulated effects to the host, leaving none.
    pub fn take_effects(&mut self) -> (r: Vec<Effect>)
        ensures
            r@ == old(self).effects@ + old(self).streams.effects@,
            final(self).effects@ == Seq::<Effect>::empty(),
            final(self).streams.effects@ == Seq::<Effect>::empty(),
            final(self).streams == (PaymentStreaming { effects: final(self).streams.effects, ..old(self).streams }),
            *final(self) == (PaymentProcessor { effects: final(self).effects, streams: final(self).streams, ..*old(self) }),
    {
        let mut out: Vec<Effect> = Vec::new();
        std::mem::swap(&mut out, &mut self.effects);
        let mut stream_effects: Vec<Effect> = Vec::new();
        std::mem::swap(&mut stream_effects, &mut self.streams.effects);
        out.append(&mut stream_effects);
        out
    }
}

/// Whether `r` reports the pause switch `s`: its state, or off with an empty reason when never set.
pub open spec fn reports_switch(r: PauseState, s: Option<PauseState>) -> bool {
    match s {
        Some(p) => r == p,
        None => !r.paused && r.reason@.len() == 0 && r.admin is None && r.timestamp == 0,
    }
}

} // verus!
