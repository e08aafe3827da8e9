use nft_arb::address::Address;
use nft_arb::market::{rank_arbs, ArbInfo, MarketBook, NFTMarket};
use nft_arb::uint::U256;

fn addr(b: u8) -> Address {
    let mut bytes = [0u8; 20];
    bytes[19] = b;
    Address { bytes }
}

fn u(x: u64) -> U256 {
    U256::from_u64(x)
}

#[test]
fn best_buy_is_lowest_and_best_sell_highest() {
    let mut m = NFTMarket::new();
    m.record_quotes(0, Some(u(100)), Some(u(90)));
    m.record_quotes(1, Some(u(80)), Some(u(70)));
    m.record_quotes(2, Some(u(120)), Some(u(95)));
    assert_eq!(m.best_buy_quote, Some(u(80)));
    assert_eq!(m.buy_marketplace_ind, Some(1));
    assert_eq!(m.best_sell_quote, Some(u(95)));
    assert_eq!(m.sell_marketplace_ind, Some(2));
    assert_eq!(m.all_marketplace_inds, vec![0, 1, 2]);
}

#[test]
fn equal_price_keeps_first_marketplace() {
    let mut m = NFTMarket::new();
    m.record_quotes(3, Some(u(50)), Some(u(60)));
    m.record_quotes(4, Some(u(50)), Some(u(60)));
    assert_eq!(m.buy_marketplace_ind, Some(3));
    assert_eq!(m.sell_marketplace_ind, Some(3));
}

#[test]
fn missing_quotes_leave_market_alone_but_count_marketplace() {
    let mut m = NFTMarket::new();
    m.record_quotes(5, None, None);
    m.record_quotes(5, None, None);
    assert_eq!(m.best_buy_quote, None);
    assert_eq!(m.best_sell_quote, None);
    assert_eq!(m.all_marketplace_inds, vec![5]);
}

#[test]
fn order_of_answers_does_not_change_best_prices() {
    let answers = [(0usize, Some(u(10)), Some(u(3))), (1, Some(u(7)), None), (2, None, Some(u(9)))];
    let mut a = NFTMarket::new();
    for (i, b, s) in answers.iter() {
        a.record_quotes(*i, *b, *s);
    }
    let mut b = NFTMarket::new();
    for (i, bq, s) in answers.iter().rev() {
        b.record_quotes(*i, *bq, *s);
    }
    assert_eq!(a.best_buy_quote, b.best_buy_quote);
    assert_eq!(a.best_sell_quote, b.best_sell_quote);
    assert_eq!(a.best_buy_quote, Some(u(7)));
    assert_eq!(a.best_sell_quote, Some(u(9)));
}

#[test]
fn book_keeps_one_market_per_collection() {
    let mut book = MarketBook::new();
    book.record_quotes(&addr(1), 0, Some(u(10)), None);
    book.record_quotes(&addr(2), 1, Some(u(20)), None);
    book.record_quotes(&addr(1), 2, Some(u(5)), Some(u(30)));
    assert_eq!(book.len(), 2);
    let m = book.get(&addr(1)).unwrap();
    assert_eq!(m.best_buy_quote, Some(u(5)));
    assert_eq!(m.best_sell_quote, Some(u(30)));
    assert_eq!(book.marketplace_inds(&addr(1)), vec![0, 2]);
    assert_eq!(book.marketplace_inds(&addr(9)), Vec::<usize>::new());
    book.insert(&addr(1), NFTMarket::new());
    assert_eq!(book.get(&addr(1)).unwrap().best_buy_quote, None);
    assert_eq!(book.len(), 2);
}

#[test]
fn arbs_found_only_where_sell_exceeds_buy() {
    let mut book = MarketBook::new();
    book.record_quotes(&addr(1), 0, Some(u(100)), None);
    book.record_quotes(&addr(1), 1, None, Some(u(130)));
    book.record_quotes(&addr(2), 2, Some(u(100)), Some(u(100)));
    book.record_quotes(&addr(3), 3, Some(u(50)), None);
    let arbs = book.find_arbs(42);
    assert_eq!(arbs.len(), 1);
    let a = &arbs[0];
    assert_eq!(a.delta, u(30));
    assert_eq!(a.inds, (0, 1));
    assert_eq!(a.quotes, (u(100), u(130)));
    assert_eq!(a.block_number, 42);
    assert!(a.nft_address.same(&addr(1)));
    assert_eq!(a.breakeven_gas_price, None);
}

fn arb(delta: u64, tag: u8) -> ArbInfo {
    ArbInfo {
        block_number: 1,
        inds: (0, 0),
        quotes: (u(0), u(delta)),
        delta: u(delta),
        nft_address: addr(tag),
        breakeven_gas_price: None,
    }
}

#[test]
fn arbs_ranked_largest_gain_first() {
    let arbs = vec![arb(5, 1), arb(50, 2), arb(1, 3), arb(20, 4)];
    let ranked = rank_arbs(&arbs);
    let deltas: Vec<U256> = ranked.iter().map(|a| a.delta).collect();
    assert_eq!(deltas, vec![u(50), u(20), u(5), u(1)]);
    assert!(ranked[0].nft_address.same(&addr(2)));
    assert_eq!(rank_arbs(&Vec::new()).len(), 0);
}
