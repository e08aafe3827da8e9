use nft_arb::address::Address;
use nft_arb::bot::{ArbPlan, Bot, RouterAddresses};
use nft_arb::market::{ArbInfo, MarketBook};
use nft_arb::marketplace::{
    looks_marketplace, nftx_vault_marketplace, sudo_pair_marketplace, LooksQuote, Marketplace,
};
use nft_arb::uint::U256;

fn addr(b: u8) -> Address {
    let mut bytes = [0u8; 20];
    bytes[19] = b;
    Address { bytes }
}

fn u(x: u64) -> U256 {
    U256::from_u64(x)
}

fn bot(banned: Vec<Address>) -> Bot {
    let routers = RouterAddresses {
        sudo_router_address: addr(200),
        aggregator_addresses: vec![addr(201)],
        sushi_router_address: addr(202),
        nftx_zap_address: addr(203),
    };
    Bot::new(
        addr(250),
        addr(251),
        routers,
        banned,
        1000,
        &vec![90, 60],
        5,
        16,
        0,
        14033905,
        addr(252),
        String::from("endpoint"),
        String::from("https://api.looksrare.org/"),
    )
}

fn sudo(pool: u8, nft: u8) -> Marketplace {
    sudo_pair_marketplace(addr(pool), 0, addr(nft), 2).unwrap()
}

fn quote(collection: u8, ask: bool, price: &str) -> LooksQuote {
    LooksQuote {
        collection_address: addr(collection),
        token_id: Some(String::from("7")),
        is_order_ask: ask,
        signer: addr(100),
        strategy: addr(101),
        currency_address: addr(102),
        amount: 1,
        price: String::from(price),
        nonce: String::from("3"),
        start_time: 10,
        end_time: 20,
        min_percentage_to_ask: 8500,
        params: Some(String::from("0x")),
        v: 27,
        r: [1u8; 32],
        s: [2u8; 32],
    }
}

#[test]
fn new_bot_takes_settings_from_config() {
    let b = bot(vec![addr(9)]);
    assert!(b.full_update);
    assert_eq!(b.last_updated_block, 14033905);
    assert_eq!(b.opts.gas_heuristic, u(1000));
    assert_eq!(b.opts.percent_to_miner.contested, u(90));
    assert_eq!(b.opts.percent_to_miner.uncontested, u(60));
    assert_eq!(b.opts.minimum_profit, u(5));
    assert!(b.router_addresses.sudo_router_address.same(&addr(200)));
    assert!(b.router_addresses.aggregator_addresses[0].same(&addr(201)));
    assert!(b.router_addresses.sushi_router_address.same(&addr(202)));
    assert!(b.router_addresses.nftx_zap_address.same(&addr(203)));
    assert!(b.market_searcher.weth_address.same(&addr(252)));
    assert_eq!(b.market_searcher.looksrare_endpoint, "endpoint");
    assert_eq!(b.market_searcher.looks_orderbook.endpoint_uri, "https://api.looksrare.org/");
    assert_eq!(b.event_chunk(), None);
    assert!(!b.wants_logs());
}

#[test]
fn new_marketplaces_registered_once_and_never_banned() {
    let mut b = bot(vec![addr(9)]);
    b.handle_events(vec![sudo(1, 10), sudo(1, 11), sudo(2, 9), nftx_vault_marketplace(addr(3), addr(10))]);
    assert_eq!(b.market_searcher.marketplaces.len(), 2);
    assert_eq!(b.market_searcher.marketplace_addresses.len(), 2);
    assert!(b.market_searcher.marketplace_addresses[0].same(&addr(1)));
    assert!(b.market_searcher.marketplace_addresses[1].same(&addr(3)));
    assert_eq!(b.market_searcher.looks_orderbook.nft_vec.len(), 1);
    assert!(b.market_searcher.looks_orderbook.nft_vec[0].same(&addr(10)));
}

#[test]
fn looks_orders_register_first_collection() {
    let mut b = bot(vec![]);
    assert!(b.on_looks_orders(None).is_none());
    assert!(b.on_looks_orders(Some(vec![])).is_none());
    let r = b.on_looks_orders(Some(vec![quote(12, true, "100"), quote(13, true, "5")]));
    assert!(r.unwrap().same(&addr(12)));
    assert_eq!(b.market_searcher.marketplaces.len(), 1);
    assert!(b.market_searcher.marketplaces[0].contract_address().same(&addr(12)));
    assert_eq!(b.market_searcher.looks_orderbook.nft_vec.len(), 0);
}

#[test]
fn watched_targets() {
    let mut b = bot(vec![]);
    b.handle_events(vec![sudo(1, 10)]);
    assert!(b.is_watched_target(Some(addr(200))));
    assert!(b.is_watched_target(Some(addr(201))));
    assert!(b.is_watched_target(Some(addr(203))));
    assert!(b.is_watched_target(Some(addr(1))));
    assert!(!b.is_watched_target(Some(addr(202))));
    assert!(!b.is_watched_target(None));
}

#[test]
fn price_updates_cover_touched_marketplaces_and_their_peers() {
    let mut b = bot(vec![]);
    b.handle_events(vec![sudo(1, 10), sudo(2, 10), sudo(3, 11)]);
    let mut book = b.markets_snapshot();
    b.record_quote(&mut book, 0, Some(u(5)), None);
    b.record_quote(&mut book, 1, None, Some(u(9)));
    b.set_nft_markets(book);
    let mut book = b.markets_snapshot();
    let tasks = b.plan_price_updates(&vec![addr(2)], &mut book, false);
    assert_eq!(tasks, vec![1, 0, 1]);
    assert_eq!(book.get(&addr(10)).unwrap().best_buy_quote, None);
    let mut book = b.markets_snapshot();
    let all = b.plan_price_updates(&vec![], &mut book, true);
    assert_eq!(all, vec![0, 0, 1, 1, 2]);
}

#[test]
fn repricing_leaves_untouched_collections_alone() {
    let mut b = bot(vec![]);
    b.handle_events(vec![sudo(1, 10), sudo(2, 10), sudo(3, 11)]);
    let mut book = b.markets_snapshot();
    b.record_quote(&mut book, 0, Some(u(5)), None);
    b.record_quote(&mut book, 2, Some(u(7)), Some(u(6)));
    b.set_nft_markets(book);
    let mut book = b.markets_snapshot();
    let tasks = b.plan_price_updates(&vec![addr(1)], &mut book, false);
    for t in &tasks {
        assert!(b.market_searcher.marketplaces[*t].nft_address.same(&addr(10)));
    }
    let other = book.get(&addr(11)).unwrap();
    assert_eq!(other.best_buy_quote, Some(u(7)));
    assert_eq!(other.best_sell_quote, Some(u(6)));
}

#[test]
fn arbs_found_through_bot_name_known_marketplaces() {
    let mut b = bot(vec![]);
    b.handle_events(vec![sudo(1, 10), sudo(2, 10)]);
    let mut book: MarketBook = b.markets_snapshot();
    b.record_quote(&mut book, 0, Some(u(100)), Some(u(90)));
    b.record_quote(&mut book, 1, Some(u(150)), Some(u(120)));
    let arbs = b.find_arbs(&book, 7);
    assert_eq!(arbs.len(), 1);
    assert_eq!(arbs[0].inds, (0, 1));
    assert_eq!(arbs[0].delta, u(20));
}

fn arb_between(buy: usize, sell: usize, buy_q: u64, delta: u64) -> ArbInfo {
    ArbInfo {
        block_number: 1,
        inds: (buy, sell),
        quotes: (u(buy_q), u(buy_q + delta)),
        delta: u(delta),
        nft_address: addr(10),
        breakeven_gas_price: None,
    }
}

#[test]
fn arb_plan_checks_balance_gas_and_market_kinds() {
    let mut b = bot(vec![]);
    b.handle_events(vec![
        sudo(1, 10),
        sudo(2, 10),
        nftx_vault_marketplace(addr(3), addr(10)),
        nftx_vault_marketplace(addr(4), addr(10)),
        looks_marketplace(quote(10, true, "1")),
    ]);
    // base fee 8 -> next max 9; heuristic 1000 * 9 = 9000
    match b.plan_arb(&arb_between(0, 1, 50, 10_000), u(100), u(8)) {
        ArbPlan::Search { basefee_next_max, fee_percent } => {
            assert_eq!(basefee_next_max, u(9));
            assert_eq!(fee_percent, u(90));
        }
        ArbPlan::Skip => panic!("expected a search"),
    }
    match b.plan_arb(&arb_between(0, 2, 50, 10_000), u(100), u(8)) {
        ArbPlan::Search { fee_percent, .. } => assert_eq!(fee_percent, u(60)),
        ArbPlan::Skip => panic!("expected a search"),
    }
    assert!(matches!(b.plan_arb(&arb_between(0, 1, 50, 9_000), u(100), u(8)), ArbPlan::Skip));
    assert!(matches!(b.plan_arb(&arb_between(0, 1, 100, 10_000), u(100), u(8)), ArbPlan::Skip));
    assert!(matches!(b.plan_arb(&arb_between(2, 3, 50, 10_000), u(100), u(8)), ArbPlan::Skip));
}

#[test]
fn arb_finalised_only_above_minimum_profit() {
    let b = bot(vec![]);
    assert!(b.finalize_arb(u(5), u(100), u(90)).is_none());
    let p = b.finalize_arb(u(1000), u(100_000), u(90)).unwrap();
    assert_eq!(p.eth_to_coinbase, u(900));
    assert_eq!(p.gas_limit, u(150_000));
}

#[test]
fn block_bookkeeping() {
    let mut b = bot(vec![]);
    b.finish_block(14033999);
    assert_eq!(b.last_updated_block, 14033999);
    assert!(!b.full_update);
    assert!(b.wants_logs());
}
