//! The contract calls that the executor contract makes in one bundle, each
//! named by the function it calls and its arguments.

use vstd::prelude::*;
use crate::address::Address;
use crate::uint::U256;

verus! {

/// Whether a call sends ether along.
#[derive(Clone, Copy, Debug, PartialEq, Eq, Structural)]
pub enum Type {
    Call,
    ValueCall,
}

/// A LooksRare maker order.
#[derive(Clone, Debug)]
pub struct MakerOrder {
    pub is_order_ask: bool,
    pub signer: Address,
    pub collection: Address,
    pub price: U256,
    pub token_id: U256,
    pub amount: U256,
    pub strategy: Address,
    pub currency: Address,
    pub nonce: U256,
    pub start_time: U256,
    pub end_time: U256,
    pub min_percentage_to_ask: U256,
    pub params: Vec<u8>,
    pub v: u8,
    pub r: [u8; 32],
    pub s: [u8; 32],
}

/// A LooksRare taker order.
#[derive(Clone, Debug)]
pub struct TakerOrder {
    pub is_order_ask: bool,
    pub taker: Address,
    pub price: U256,
    pub token_id: U256,
    pub min_percentage_to_ask: U256,
    pub params: Vec<u8>,
}

/// The contract function a call invokes, with its arguments.
#[derive(Clone, Debug)]
pub enum Action {
    /// sudoswap `swapTokenForSpecificNFTs`.
    SwapTokenForSpecificNFTs {
        nft_ids: Vec<U256>,
        max_expected_token_input: U256,
        nft_recipient: Address,
        is_router: bool,
        router_caller: Address,
    },
    /// sudoswap `swapNFTsForToken`.
    SwapNFTsForToken {
        nft_ids: Vec<U256>,
        min_expected_token_output: U256,
        token_recipient: Address,
        is_router: bool,
        router_caller: Address,
    },
    /// ERC-721 `setApprovalForAll`.
    SetApprovalForAll { operator: Address, approved: bool },
    /// NFTX vault `redeemTo`.
    RedeemTo { amount: U256, special_ids: Vec<U256>, to: Address },
    /// NFTX vault `mint`.
    Mint { token_ids: Vec<U256>, amounts: Vec<U256> },
    /// ERC-20 `approve`.
    Approve { spender: Address, amount: U256 },
    /// Uniswap V2 router `swapETHForExactTokens`.
    SwapETHForExactTokens { amount_out: U256, path: Vec<Address>, to: Address, deadline: U256 },
    /// Uniswap V2 router `swapExactTokensForETH`.
    SwapExactTokensForETH {
        amount_in: U256,
        amount_out_min: U256,
        path: Vec<Address>,
        to: Address,
        deadline: U256,
    },
    /// LooksRare `matchAskWithTakerBidUsingETHAndWETH`.
    MatchAskWithTakerBidUsingETHAndWETH { taker_bid: TakerOrder, maker_ask: MakerOrder },
    /// LooksRare `matchBidWithTakerAsk`.
    MatchBidWithTakerAsk { taker_ask: TakerOrder, maker_bid: MakerOrder },
}

/// One call of a bundle: its target contract, whether it carries ether and
/// how much, and what it invokes.
#[derive(Clone, Debug)]
pub struct Call {
    pub target: Address,
    pub call_type: Type,
    pub value: Option<U256>,
    pub action: Action,
}

impl Call {
    /// A call of `action` on `target`.
    pub fn new(target: Address, call_type: Type, value: Option<U256>, action: Action) -> (r: Call)
        ensures
            r == (Call { target, call_type, value, action }),
    {
        Call { target, call_type, value, action }
    }
}

} // verus!
