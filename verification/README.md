# fluxapay

The contract logic of a USDC payment gateway on Stellar: payment charges and their
verification and settlement, refunds, disputes with stake-weighted arbitration,
subscriptions, payment streams, payment links, a merchant registry and an exchange-rate
oracle. Every function of the library is verified with Verus against its contract.

## Layout

- `src/` — the verified library.
  - `payment_processor.rs`: charges (creation with pause switches, amount limits, token
    allow-list, idempotency keys and a per-merchant rate limit; verification by oracles;
    cancellation, expiry, split settlement, batches and swap-and-pay checks).
  - `refund_manager.rs`, `disputes.rs`, `arbitration.rs`, `subscriptions.rs`: the refund
    manager and its dispute, arbitration and subscription flows.
  - `stream.rs`: per-second payment streams with checkpoints, rate changes, batched
    withdrawals and cancellations.
  - `merchant_registry.rs`, `fx_oracle.rs`, `payment_link.rs`, `dex_router.rs`: the other
    contracts.
  - `access_control.rs`, `table.rs`, `ledger.rs`, `util.rs`, `types.rs`, `effects.rs`:
    roles, keyed stores, sums over records, saturating arithmetic and decimal ids, the
    shared records, and the effects a call hands back.
  - `laws.rs`: properties that span calls and states, stated and proved as proof functions.
- `tests/` — tests of the library on concrete values.
- `app/` — the Soroban host side: signature checks, the ledger clock, contract storage,
  and carrying out the transfers, events and cross-contract calls that the library returns
  as effects. It holds the payment-link contract and the swap-and-pay routine, which asks
  the router and the oracle, runs the verified checks before the swap, and then records the
  payment.

## Time, signatures and other contracts

The library is a state machine over plain values. Calls take the current ledger time as
`now`; signatures are checked by the host before a call; answers of other contracts that
a decision depends on (the merchant registry, a token's decimals, a router's quote and
swap, an oracle's rate, whether a payer's transfer went through) are passed in as
arguments. Token transfers, events and role grants come back as a list of effects that
the host performs in order.
