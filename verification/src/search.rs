//! The search for the number of NFTs to trade in one arbitrage, and the gas
//! pricing of a bundle that backruns a pending transaction.

use vstd::prelude::*;
use crate::uint::{U256, u256_bound};

verus! {

/// The profit of trading at buy price `buy` and sell price `sell` with `gas`
/// gas burnt at `basefee`, when the sale covers the purchase and the gas.
pub open spec fn spec_candidate_profit(buy: nat, sell: nat, gas: nat, basefee: nat) -> Option<nat> {
    if sell > buy && sell - buy > gas * basefee {
        Some((sell - buy - gas * basefee) as nat)
    } else {
        None
    }
}

/// The profit of trading at `buy_price` and `sell_price` with `gas` gas at
/// `basefee_next_max`, if positive.
pub fn candidate_profit(buy_price: U256, sell_price: U256, gas: U256, basefee_next_max: U256) -> (r: Option<U256>)
    requires
        sell_price.value() > buy_price.value() ==> gas.value() * basefee_next_max.value() < u256_bound(),
    ensures
        opt_nat(r) == spec_candidate_profit(
            buy_price.value(),
            sell_price.value(),
            gas.value(),
            basefee_next_max.value(),
        ),
{
    if sell_price.gt(&buy_price) {
        let new_delta = sell_price.sub(&buy_price);
        let burnt = gas.mul(&basefee_next_max);
        if new_delta.gt(&burnt) {
            return Some(new_delta.sub(&burnt));
        }
    }
    None
}

/// A trade gains something exactly when the sale brings more than the
/// purchase plus the gas burnt; the gain is then what is left, so that
/// purchase, gas and gain add up to the sale.
pub proof fn law_profit_covers_purchase_and_gas(buy: nat, sell: nat, gas: nat, basefee: nat)
    ensures
        spec_candidate_profit(buy, sell, gas, basefee) is Some <==> sell > buy + gas * basefee,
        spec_candidate_profit(buy, sell, gas, basefee) matches Some(p) ==> buy + gas * basefee + p
            == sell && p > 0,
{
}

/// An amount as a number, if there is one.
pub open spec fn opt_nat(q: Option<U256>) -> Option<nat> {
    match q {
        Some(v) => Some(v.value()),
        None => None,
    }
}

/// The largest number of NFTs tried in one trade is one below this.
pub const MAX_NFTS: usize = 256;

/// The search, one NFT count at a time from 1, for the most profitable size of
/// a trade. Each count is priced on both sides; when both sides quote, the
/// transaction is built and its gas estimated; a count that is more
/// profitable than the best so far becomes the best and the next count is
/// tried, and anything else ends the search.
pub struct OptimalInputSearch<C> {
    pub basefee_next_max: U256,
    pub next_count: usize,
    pub profit: U256,
    pub gas: U256,
    pub calls: Vec<C>,
    pub done: bool,
}

impl<C> OptimalInputSearch<C> {
    /// A search that has not tried any count yet.
    pub fn new(basefee_next_max: U256) -> (r: OptimalInputSearch<C>)
        ensures
            r.basefee_next_max == basefee_next_max,
            r.next_count == 1,
            r.profit.value() == 0,
            r.gas.value() == 0,
            r.calls@.len() == 0,
            !r.done,
    {
        OptimalInputSearch {
            basefee_next_max,
            next_count: 1,
            profit: U256::zero(),
            gas: U256::zero(),
            calls: Vec::new(),
            done: false,
        }
    }

    /// The number of NFTs to price next, unless the search is over.
    pub fn count_to_try(&self) -> (r: Option<usize>)
        ensures
            r is Some <==> !self.done && self.next_count < MAX_NFTS,
            r matches Some(i) ==> i == self.next_count,
    {
        if !self.done && self.next_count < MAX_NFTS {
            Some(self.next_count)
        } else {
            None
        }
    }

    /// Both sides' prices for the current count: when both quote, the input
    /// and output of the trade to build; otherwise the search ends.
    pub fn on_prices(&mut self, buy_price: Option<U256>, sell_price: Option<U256>) -> (r: Option<(U256, U256)>)
        ensures
            r is Some <==> buy_price is Some && sell_price is Some,
            r matches Some(p) ==> p == (buy_price.unwrap(), sell_price.unwrap()),
            final(self).done == (old(self).done || r is None),
            final(self).next_count == old(self).next_count,
            final(self).profit == old(self).profit,
            final(self).gas == old(self).gas,
            final(self).calls == old(self).calls,
            final(self).basefee_next_max == old(self).basefee_next_max,
    {
        match (buy_price, sell_price) {
            (Some(b), Some(s)) => Some((b, s)),
            _ => {
                self.done = true;
                None
            },
        }
    }

    /// The built trade for the current count, or `None` when building or
    /// estimating it failed (which ends the search): a trade more profitable
    /// than the best so far becomes the best and the next count follows;
    /// otherwise the search ends with the best so far.
    pub fn on_estimate(&mut self, buy_price: U256, sell_price: U256, built: Option<(Vec<C>, U256)>)
        requires
            old(self).next_count < MAX_NFTS,
            built matches Some(b) ==> (sell_price.value() > buy_price.value() ==> b.1.value()
                * old(self).basefee_next_max.value() < u256_bound()),
        ensures
            final(self).basefee_next_max == old(self).basefee_next_max,
            ({
                let gain = match built {
                    Some(b) => spec_candidate_profit(
                        buy_price.value(),
                        sell_price.value(),
                        b.1.value(),
                        old(self).basefee_next_max.value(),
                    ),
                    None => None,
                };
                if gain is Some && gain.unwrap() > old(self).profit.value() {
                    &&& final(self).profit.value() == gain.unwrap()
                    &&& final(self).gas == built.unwrap().1
                    &&& final(self).calls@ == built.unwrap().0@
                    &&& final(self).next_count == old(self).next_count + 1
                    &&& final(self).done == old(self).done
                } else {
                    &&& final(self).profit == old(self).profit
                    &&& final(self).gas == old(self).gas
                    &&& final(self).calls@ == old(self).calls@
                    &&& final(self).next_count == old(self).next_count
                    &&& final(self).done
                }
            }),
    {
        match built {
            Some((new_calls, new_gas)) => {
                let gain = candidate_profit(buy_price, sell_price, new_gas, self.basefee_next_max);
                match gain {
                    Some(new_profit) => {
                        if new_profit.gt(&self.profit) {
                            self.profit = new_profit;
                            self.gas = new_gas;
                            self.calls = new_calls;
                            self.next_count = self.next_count + 1;
                            return;
                        }
                    },
                    None => {},
                }
                self.done = true;
            },
            None => {
                self.done = true;
            },
        }
    }

    /// The calls, profit and gas of the best trade found (none, 0 and 0 if no
    /// count gained anything).
    pub fn result(self) -> (r: (Vec<C>, U256, U256))
        ensures
            r.0@ == self.calls@,
            r.1 == self.profit,
            r.2 == self.gas,
    {
        (self.calls, self.profit, self.gas)
    }
}

/// Whether no transaction of a simulated bundle failed: `tx_errors` holds
/// each transaction's error, if any.
pub fn no_errors(tx_errors: &Vec<Option<String>>) -> (r: bool)
    ensures
        r == (forall|i: int| 0 <= i < tx_errors.len() ==> (#[trigger] tx_errors[i]) is None),
{
    let mut i: usize = 0;
    while i < tx_errors.len()
        invariant
            i <= tx_errors.len(),
            forall|j: int| 0 <= j < i ==> (#[trigger] tx_errors[j]) is None,
        decreases tx_errors.len() - i,
    {
        if tx_errors[i].is_some() {
            return false;
        }
        i = i + 1;
    }
    true
}

/// The calls of a trade: the buy calls, then the sell calls, when both sides
/// produced calls.
pub fn join_calls<C>(buy_calls: Option<Vec<C>>, sell_calls: Option<Vec<C>>) -> (r: Option<Vec<C>>)
    ensures
        r is Some <==> buy_calls is Some && sell_calls is Some,
        r matches Some(c) ==> c@ == buy_calls.unwrap()@ + sell_calls.unwrap()@,
{
    match (buy_calls, sell_calls) {
        (Some(b), Some(s)) => {
            let mut calls = b;
            let mut rest = s;
            calls.append(&mut rest);
            Some(calls)
        },
        _ => None,
    }
}

/// How a bundle that backruns a pending transaction prices its gas.
#[derive(Debug)]
pub enum BackrunPricing {
    /// An EIP-1559 backrun copies the pending transaction's fee cap and its
    /// priority fee.
    Eip1559 { max_fee_per_gas: U256, max_priority_fee_per_gas: U256 },
    /// A legacy backrun bids one wei below the pending transaction; its tip
    /// over the next base fee is `tip`.
    Legacy { gas_price: U256, tip: U256 },
}

/// Why a pending transaction cannot be backrun.
#[derive(Debug, PartialEq, Eq, Structural)]
pub enum BackrunError {
    AccessListNotSupported,
    Eip1559MissingGasFees,
    UnknownTransactionType,
    LegacyMissingGasFees,
    LegacyPricedTooCheap,
}

/// The gas pricing of a backrun of a pending transaction of type
/// `transaction_type` (`None` for legacy) with the given fee fields.
pub fn backrun_pricing(
    transaction_type: Option<u64>,
    max_fee_per_gas: Option<U256>,
    max_priority_fee_per_gas: Option<U256>,
    gas_price: Option<U256>,
    basefee_next_max: U256,
) -> (r: Result<BackrunPricing, BackrunError>)
    requires
        transaction_type is None && gas_price is Some && basefee_next_max.value()
            <= gas_price.unwrap().value() ==> gas_price.unwrap().value() >= 1,
    ensures
        match transaction_type {
            Some(1) => r == Err::<BackrunPricing, BackrunError>(BackrunError::AccessListNotSupported),
            Some(2) => if max_fee_per_gas is None || max_priority_fee_per_gas is None {
                r == Err::<BackrunPricing, BackrunError>(BackrunError::Eip1559MissingGasFees)
            } else {
                r matches Ok(BackrunPricing::Eip1559 { max_fee_per_gas: f, max_priority_fee_per_gas: p })
                    && f == max_fee_per_gas.unwrap() && p == max_priority_fee_per_gas.unwrap()
            },
            Some(_) => r == Err::<BackrunPricing, BackrunError>(BackrunError::UnknownTransactionType),
            None => match gas_price {
                None => r == Err::<BackrunPricing, BackrunError>(BackrunError::LegacyMissingGasFees),
                Some(g) => if basefee_next_max.value() > g.value() {
                    r == Err::<BackrunPricing, BackrunError>(BackrunError::LegacyPricedTooCheap)
                } else {
                    r matches Ok(BackrunPricing::Legacy { gas_price: gp, tip: t }) && gp.value()
                        == g.value() - 1 && t.value() == g.value() - basefee_next_max.value()
                },
            },
        },
{
    match transaction_type {
        Some(t) => {
            if t == 1 {
                Err(BackrunError::AccessListNotSupported)
            } else if t == 2 {
                match (max_fee_per_gas, max_priority_fee_per_gas) {
                    (Some(f), Some(p)) => Ok(
                        BackrunPricing::Eip1559 { max_fee_per_gas: f, max_priority_fee_per_gas: p },
                    ),
                    _ => Err(BackrunError::Eip1559MissingGasFees),
                }
            } else {
                Err(BackrunError::UnknownTransactionType)
            }
        },
        None => match gas_price {
            None => Err(BackrunError::LegacyMissingGasFees),
            Some(g) => {
                if basefee_next_max.gt(&g) {
                    Err(BackrunError::LegacyPricedTooCheap)
                } else {
                    let bid = g.sub(&U256::from_u64(1));
                    let tip = g.sub(&basefee_next_max);
                    Ok(BackrunPricing::Legacy { gas_price: bid, tip })
                }
            },
        },
    }
}

} // verus!
