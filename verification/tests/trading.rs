use nft_arb::address::Address;
use nft_arb::calls::{Action, Type};
use nft_arb::marketplace::{NFTxVault, PoolType, SudoContract, SudoPool};
use nft_arb::pricing::SWAP_DEADLINE;
use nft_arb::search::{
    backrun_pricing, candidate_profit, join_calls, no_errors, BackrunError, BackrunPricing,
    OptimalInputSearch,
};
use nft_arb::state_diff::State;
use nft_arb::uint::U256;

fn addr(b: u8) -> Address {
    let mut bytes = [0u8; 20];
    bytes[19] = b;
    Address { bytes }
}

fn u(x: u64) -> U256 {
    U256::from_u64(x)
}

const ONE: u64 = 1_000_000_000_000_000_000;

#[test]
fn candidate_profit_subtracts_burnt_gas() {
    assert_eq!(candidate_profit(u(100), u(200), u(10), u(5)), Some(u(50)));
    assert_eq!(candidate_profit(u(100), u(150), u(10), u(5)), None);
    assert_eq!(candidate_profit(u(200), u(100), u(10), u(5)), None);
}

#[test]
fn search_keeps_going_while_profit_grows() {
    let mut s: OptimalInputSearch<u8> = OptimalInputSearch::new(u(1));
    assert_eq!(s.count_to_try(), Some(1));
    let (i, o) = s.on_prices(Some(u(100)), Some(u(150))).unwrap();
    s.on_estimate(i, o, Some((vec![1], u(10))));
    assert_eq!(s.profit, u(40));
    assert_eq!(s.count_to_try(), Some(2));
    let (i, o) = s.on_prices(Some(u(200)), Some(u(300))).unwrap();
    s.on_estimate(i, o, Some((vec![2, 2], u(20))));
    assert_eq!(s.profit, u(80));
    assert_eq!(s.count_to_try(), Some(3));
    let (i, o) = s.on_prices(Some(u(300)), Some(u(350))).unwrap();
    s.on_estimate(i, o, Some((vec![3], u(20))));
    assert_eq!(s.count_to_try(), None);
    let (calls, profit, gas) = s.result();
    assert_eq!(calls, vec![2, 2]);
    assert_eq!(profit, u(80));
    assert_eq!(gas, u(20));
}

#[test]
fn search_stops_when_a_side_has_no_price_or_estimation_fails() {
    let mut s: OptimalInputSearch<u8> = OptimalInputSearch::new(u(1));
    assert!(s.on_prices(None, Some(u(5))).is_none());
    assert_eq!(s.count_to_try(), None);
    let mut t: OptimalInputSearch<u8> = OptimalInputSearch::new(u(1));
    let (i, o) = t.on_prices(Some(u(1)), Some(u(100))).unwrap();
    t.on_estimate(i, o, None);
    assert_eq!(t.count_to_try(), None);
    assert_eq!(t.profit, u(0));
}

#[test]
fn backrun_pricing_by_transaction_type() {
    assert_eq!(
        backrun_pricing(Some(1), None, None, None, u(1)).unwrap_err(),
        BackrunError::AccessListNotSupported
    );
    assert_eq!(
        backrun_pricing(Some(2), Some(u(10)), None, None, u(1)).unwrap_err(),
        BackrunError::Eip1559MissingGasFees
    );
    match backrun_pricing(Some(2), Some(u(10)), Some(u(2)), None, u(1)).unwrap() {
        BackrunPricing::Eip1559 { max_fee_per_gas, max_priority_fee_per_gas } => {
            assert_eq!(max_fee_per_gas, u(10));
            assert_eq!(max_priority_fee_per_gas, u(2));
        }
        _ => panic!("expected EIP-1559 pricing"),
    }
    assert_eq!(
        backrun_pricing(Some(7), None, None, None, u(1)).unwrap_err(),
        BackrunError::UnknownTransactionType
    );
    assert_eq!(
        backrun_pricing(None, None, None, None, u(1)).unwrap_err(),
        BackrunError::LegacyMissingGasFees
    );
    assert_eq!(
        backrun_pricing(None, None, None, Some(u(5)), u(6)).unwrap_err(),
        BackrunError::LegacyPricedTooCheap
    );
    match backrun_pricing(None, None, None, Some(u(50)), u(30)).unwrap() {
        BackrunPricing::Legacy { gas_price, tip } => {
            assert_eq!(gas_price, u(49));
            assert_eq!(tip, u(20));
        }
        _ => panic!("expected legacy pricing"),
    }
}

#[test]
fn bundle_errors_and_call_joining() {
    assert!(no_errors(&vec![None, None]));
    assert!(!no_errors(&vec![None, Some(String::from("revert"))]));
    assert_eq!(join_calls(Some(vec![1, 2]), Some(vec![3])), Some(vec![1, 2, 3]));
    assert_eq!(join_calls::<u8>(None, Some(vec![3])), None);
}

fn pool(kind: PoolType, contract: SudoContract) -> SudoPool {
    SudoPool { pool_address: addr(1), pool_type: kind, pair_variant: 0, contract }
}

#[test]
fn sudo_quotes_need_liquidity() {
    let p = pool(PoolType::Trade, SudoContract::ETH);
    assert!(p.quotes_buy() && p.quotes_sell());
    assert!(!pool(PoolType::Token, SudoContract::ETH).quotes_buy());
    assert!(!pool(PoolType::NFT, SudoContract::ETH).quotes_sell());
    assert_eq!(p.buy_price_from(2, u(70), u(2)), Some(u(70)));
    assert_eq!(p.buy_price_from(3, u(70), u(2)), None);
    assert_eq!(pool(PoolType::NFT, SudoContract::ERC20).buy_price_from(1, u(70), u(1)), Some(u(70)));
    assert_eq!(p.sell_price_from(u(70), u(70)), Some(u(70)));
    assert_eq!(p.sell_price_from(u(71), u(70)), None);
}

#[test]
fn sudo_liquidity_override_from_state() {
    let p = pool(PoolType::Trade, SudoContract::ETH);
    assert_eq!(p.sell_liquidity_override(None), None);
    let state = State::new();
    assert_eq!(p.sell_liquidity_override(Some(&state)), None);
}

#[test]
fn sudo_buy_takes_first_held_ids() {
    let p = pool(PoolType::Trade, SudoContract::ETH);
    let (calls, ids) = p.create_buy_txs(u(500), addr(9), 2, Some(vec![u(4), u(5), u(6)]));
    assert_eq!(ids, Some(vec![u(4), u(5)]));
    assert_eq!(calls.len(), 1);
    assert!(calls[0].target.same(&addr(1)));
    assert_eq!(calls[0].call_type, Type::ValueCall);
    assert_eq!(calls[0].value, Some(u(500)));
    match &calls[0].action {
        Action::SwapTokenForSpecificNFTs { nft_ids, max_expected_token_input, nft_recipient, is_router, .. } => {
            assert_eq!(nft_ids, &vec![u(4), u(5)]);
            assert_eq!(*max_expected_token_input, u(500));
            assert!(nft_recipient.same(&addr(9)));
            assert!(!is_router);
        }
        _ => panic!("expected a swap"),
    }
    let (calls, ids) = p.create_buy_txs(u(500), addr(9), 4, Some(vec![u(4)]));
    assert!(calls.is_empty() && ids.is_none());
    let (calls, ids) = p.create_buy_txs(u(500), addr(9), 1, None);
    assert!(calls.is_empty() && ids.is_none());
    let erc20 = pool(PoolType::Trade, SudoContract::ERC20);
    assert!(erc20.create_buy_txs(u(1), addr(9), 1, Some(vec![u(1)])).1.is_none());
}

#[test]
fn sudo_sell_approves_when_needed() {
    let p = pool(PoolType::Trade, SudoContract::ETH);
    let calls = p.create_sell_txs(u(80), addr(9), vec![u(4)], addr(20), Some(true));
    assert_eq!(calls.len(), 1);
    let calls = p.create_sell_txs(u(80), addr(9), vec![u(4)], addr(20), None);
    assert_eq!(calls.len(), 2);
    assert!(calls[0].target.same(&addr(20)));
    assert!(matches!(calls[0].action, Action::SetApprovalForAll { approved: true, .. }));
    assert!(matches!(calls[1].action, Action::SwapNFTsForToken { .. }));
    assert_eq!(calls[1].call_type, Type::Call);
}

#[test]
fn nftx_amounts_include_fees() {
    let fee = u(ONE / 20);
    assert_eq!(NFTxVault::buy_amount(2, fee), u(2 * (ONE + ONE / 20)));
    assert_eq!(NFTxVault::sell_amount(2, fee), u(2 * (ONE - ONE / 20)));
    assert_eq!(NFTxVault::buy_price_from(&vec![u(3), u(4)]), Some(u(3)));
    assert_eq!(NFTxVault::sell_price_from(&vec![u(3), u(4)]), Some(u(4)));
}

#[test]
fn nftx_buy_swaps_then_redeems() {
    let v = NFTxVault { vault_address: addr(30) };
    let (calls, ids) = v.create_buy_txs(u(900), 1, addr(9), addr(40), addr(41), vec![u(12)], u(0));
    assert_eq!(ids, Some(vec![u(12)]));
    assert_eq!(calls.len(), 2);
    assert!(calls[0].target.same(&addr(40)));
    match &calls[0].action {
        Action::SwapETHForExactTokens { amount_out, path, deadline, .. } => {
            assert_eq!(*amount_out, u(ONE));
            assert!(path[0].same(&addr(41)) && path[1].same(&addr(30)));
            assert_eq!(*deadline, u(SWAP_DEADLINE));
        }
        _ => panic!("expected a swap"),
    }
    assert!(matches!(calls[1].action, Action::RedeemTo { .. }));
}

#[test]
fn nftx_sell_mints_approves_and_swaps() {
    let v = NFTxVault { vault_address: addr(30) };
    let calls = v.create_sell_txs(u(1), addr(9), vec![u(1), u(2)], addr(40), addr(20), addr(41), Some(false), u(0), u(0));
    assert_eq!(calls.len(), 4);
    match &calls[1].action {
        Action::Mint { token_ids, amounts } => {
            assert_eq!(token_ids, &vec![u(1), u(2)]);
            assert_eq!(amounts, &vec![u(1), u(1)]);
        }
        _ => panic!("expected a mint"),
    }
    assert!(matches!(calls[2].action, Action::Approve { .. }));
    match &calls[3].action {
        Action::SwapExactTokensForETH { amount_in, amount_out_min, .. } => {
            assert_eq!(*amount_in, u(2 * ONE));
            assert_eq!(*amount_out_min, u(1));
        }
        _ => panic!("expected a swap"),
    }
    let calls = v.create_sell_txs(u(1), addr(9), vec![u(1)], addr(40), addr(20), addr(41), Some(true), U256::max_value(), u(0));
    assert_eq!(calls.len(), 2);
}
