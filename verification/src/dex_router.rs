use vstd::prelude::*;

use crate::Address;

verus! {

/// A router of token swaps along a path of tokens, in the style of Soroswap: every quote and
/// swap answers, for each token of the path, the amount given.
pub struct DexRouter {
    /// This router's own address.
    pub contract_address: Address,
}

/// A list holding `amount` once for each token of a path of `len` tokens.
pub open spec fn repeated(amount: i128, len: nat) -> Seq<i128> {
    Seq::new(len, |i: int| amount)
}

/// `amount` once for each entry of `path`.
fn amounts_along(amount: i128, path: &Vec<Address>) -> (r: Vec<i128>)
    ensures
        r@ == repeated(amount, path@.len()),
{
    let mut out: Vec<i128> = Vec::new();
    let mut i: usize = 0;
    while i < path.len()
        invariant
            i <= path@.len(),
            out@ == repeated(amount, i as nat),
        decreases path.len() - i,
    {
        out.push(amount);
        i = i + 1;
        assert(out@ =~= repeated(amount, i as nat));
    }
    out
}

impl DexRouter {
    /// A router at `contract_address`.
    pub fn new(contract_address: Address) -> (r: Self)
        ensures
            r.contract_address == contract_address,
    {
        DexRouter { contract_address }
    }

    /// The router's factory: the router itself.
    pub fn factory(&self) -> (r: Address)
        ensures
            r == self.contract_address,
    {
        self.contract_address.clone()
    }

    /// The quote for swapping `amount_in` along `path`: `amount_in` for every token.
    pub fn get_amounts_out(&self, amount_in: i128, path: &Vec<Address>) -> (r: Vec<i128>)
        ensures
            r@ == repeated(amount_in, path@.len()),
    {
        amounts_along(amount_in, path)
    }

    /// Swaps exactly `amount_in` along `path` for at least `amount_out_min`, to `to`, before
    /// `deadline`; answers `amount_in` for every token of the path.
    pub fn swap_exact_tokens_for_tokens(
        &self,
        amount_in: i128,
        amount_out_min: i128,
        path: &Vec<Address>,
        to: &Address,
        deadline: u64,
    ) -> (r: Vec<i128>)
        ensures
            r@ == repeated(amount_in, path@.len()),
    {
        amounts_along(amount_in, path)
    }

    /// Swaps at most `amount_in_max` along `path` for exactly `amount_out`, to `to`, before
    /// `deadline`; answers `amount_out` for every token of the path.
    pub fn swap_tokens_for_exact_tokens(
        &self,
        amount_out: i128,
        amount_in_max: i128,
        path: &Vec<Address>,
        to: &Address,
        deadline: u64,
    ) -> (r: Vec<i128>)
        ensures
            r@ == repeated(amount_out, path@.len()),
    {
        amounts_along(amount_out, path)
    }
}

} // verus!
