use nft_arb::address::Address;
use nft_arb::bot::LooksOrderbook;
use nft_arb::calls::{Action, Type};
use nft_arb::events::{Event, NFTxNewVaultEvent, SudoNewPairEvent};
use nft_arb::marketplace::{
    is_eth_pair_variant, pool_type_from_code, sudo_pair_marketplace, LooksQuote, MarketType, PoolType,
};
use nft_arb::state_diff::{apply_state_diff, get_diff, AccountDiff, ChangedType, Diff, State, StateDiff, H256};
use nft_arb::uint::U256;

fn addr(b: u8) -> Address {
    let mut bytes = [0u8; 20];
    bytes[19] = b;
    Address { bytes }
}

fn u(x: u64) -> U256 {
    U256::from_u64(x)
}

fn quote(price: &str, token: Option<&str>, params: &str) -> LooksQuote {
    LooksQuote {
        collection_address: addr(12),
        token_id: token.map(String::from),
        is_order_ask: true,
        signer: addr(100),
        strategy: addr(101),
        currency_address: addr(102),
        amount: 1,
        price: String::from(price),
        nonce: String::from("3"),
        start_time: 10,
        end_time: 20,
        min_percentage_to_ask: 8500,
        params: Some(String::from(params)),
        v: 27,
        r: [1u8; 32],
        s: [2u8; 32],
    }
}

#[test]
fn looks_price_is_decimal() {
    assert_eq!(quote("123456789012345678901", Some("1"), "").get_price(), Some(U256::from_u128(123456789012345678901)));
    assert_eq!(quote("0", None, "").get_price(), Some(u(0)));
    assert_eq!(quote("", None, "").get_price(), Some(u(0)));
    let (ask, none) = quote("9", None, "").prices();
    assert_eq!(ask, Some(u(9)));
    assert!(none.is_none());
    let mut bid = quote("9", None, "");
    bid.is_order_ask = false;
    assert_eq!(bid.prices(), (None, None));
}

#[test]
fn looks_fields_must_parse_before_matching() {
    assert!(quote("10", Some("7"), "0xab01").fields_parse());
    assert!(quote("10", None, "").fields_parse());
    assert!(!quote("1e3", Some("7"), "0xab").fields_parse());
    assert!(!quote("10", Some("x"), "0xab").fields_parse());
    assert!(!quote("10", Some("7"), "0xabc").fields_parse());
    assert!(!quote("10", Some("7"), "zz").fields_parse());
    let mut no_params = quote("10", None, "");
    no_params.params = None;
    assert!(!no_params.fields_parse());
    let mut big_v = quote("10", None, "");
    big_v.v = 256;
    assert!(!big_v.fields_parse());
}

#[test]
fn looks_orders_mirror_the_quote() {
    let q = quote("1000", Some("42"), "0xAbcd");
    let (maker, taker) = q.orders(addr(9));
    assert_eq!(maker.price, u(1000));
    assert_eq!(maker.token_id, u(42));
    assert_eq!(maker.nonce, u(3));
    assert_eq!(maker.params, vec![0xab, 0xcd]);
    assert_eq!(maker.v, 27);
    assert_eq!(maker.min_percentage_to_ask, u(8500));
    assert!(!taker.is_order_ask);
    assert!(taker.taker.same(&addr(9)));
    assert_eq!(taker.params, vec![0xab, 0xcd]);
    let (maker, _) = quote("1", None, "00ff").orders(addr(9));
    assert_eq!(maker.token_id, u(0));
    assert_eq!(maker.params, vec![0x00, 0xff]);
}

#[test]
fn looks_buy_pays_price_and_sell_approves() {
    let q = quote("1000", Some("42"), "0x");
    let (calls, ids) = q.create_buy_txs(addr(9), addr(50));
    assert_eq!(ids, Some(vec![u(42)]));
    assert_eq!(calls[0].call_type, Type::ValueCall);
    assert_eq!(calls[0].value, Some(u(1000)));
    match &calls[0].action {
        Action::MatchAskWithTakerBidUsingETHAndWETH { taker_bid, maker_ask } => {
            assert!(!taker_bid.is_order_ask && maker_ask.is_order_ask);
            assert!(taker_bid.taker.same(&addr(9)));
            assert_eq!(taker_bid.price, u(1000));
            assert_eq!(taker_bid.token_id, u(42));
            assert_eq!(maker_ask.nonce, u(3));
            assert_eq!(maker_ask.amount, u(1));
            assert!(maker_ask.signer.same(&addr(100)));
        }
        _ => panic!("expected a matchAskWithTakerBidUsingETHAndWETH call"),
    }
    let calls = q.create_sell_txs(addr(9), addr(50), addr(12), false);
    assert_eq!(calls.len(), 2);
    assert_eq!(calls[0].value, None);
    match &calls[1].action {
        Action::MatchBidWithTakerAsk { taker_ask, maker_bid } => {
            assert!(!taker_ask.is_order_ask && maker_bid.is_order_ask);
            assert_eq!(taker_ask.price, u(1000));
            assert_eq!(taker_ask.token_id, u(42));
            assert_eq!(maker_bid.nonce, u(3));
        }
        _ => panic!("expected a matchBidWithTakerAsk call"),
    }
    assert_eq!(q.create_sell_txs(addr(9), addr(50), addr(12), true).len(), 1);
}

#[test]
fn orderbook_uri_and_cursor() {
    let mut bytes = [0u8; 20];
    bytes[0] = 0xAB;
    bytes[19] = 0x01;
    let mut book = LooksOrderbook { nft_vec_ind: 0, nft_vec: vec![Address { bytes }], endpoint_uri: String::from("https://api.looksrare.org/") };
    let uri = book.orders_uri().unwrap();
    assert_eq!(uri, "https://api.looksrare.org/api/v1/orders?strategy=0x56244Bb70CbD3EA9Dc8007399F61dFC065190031&currency=0xC02aaA39b223FE8D0A0e5C4F27eAD9083C756Cc2&collection=0xab00000000000000000000000000000000000001&status[]=VALID&pagination[first]=1&sort=PRICE_ASC&isOrderAsk=true");
    book.advance();
    assert_eq!(book.nft_vec_ind, 1);
    book.advance();
    assert_eq!(book.nft_vec_ind, 2);
    book.advance();
    assert_eq!(book.nft_vec_ind, 0);
    let empty = LooksOrderbook { nft_vec_ind: 0, nft_vec: vec![], endpoint_uri: String::new() };
    assert!(empty.orders_uri().is_none());
}

#[test]
fn events_and_sudo_pairs() {
    match NFTxNewVaultEvent::from_new_vault_filter(addr(1), u(7), addr(2)) {
        Event::NFTxNewVault(e) => {
            assert!(e.vault_address.same(&addr(1)));
            assert_eq!(e.vault_id, u(7));
            assert!(e.nft_address.same(&addr(2)));
        }
        _ => panic!("expected a vault event"),
    }
    assert!(matches!(SudoNewPairEvent::from_new_pair_filter(addr(3)), Event::SudoNewPair(_)));
    assert!(is_eth_pair_variant(0) && is_eth_pair_variant(1) && !is_eth_pair_variant(2));
    assert_eq!(pool_type_from_code(1), PoolType::NFT);
    assert!(sudo_pair_marketplace(addr(1), 2, addr(2), 9).is_none());
    let m = sudo_pair_marketplace(addr(1), 1, addr(2), 0).unwrap();
    match m.market_type {
        MarketType::Sudo(p) => assert_eq!(p.pool_type, PoolType::Token),
        _ => panic!("expected a pool"),
    }
}

fn word(b: u8) -> H256 {
    H256 { bytes: [b; 32] }
}

#[test]
fn state_diff_becomes_overrides() {
    assert_eq!(get_diff(Diff::Born(5u8)), Some(5));
    assert_eq!(get_diff(Diff::Died(5u8)), None);
    assert_eq!(get_diff::<u8>(Diff::Same), None);
    assert_eq!(get_diff(Diff::Changed(ChangedType { from: 1u8, to: 2 })), Some(2));
    let diff = StateDiff {
        accounts: vec![(
            addr(1),
            AccountDiff {
                balance: Diff::Changed(ChangedType { from: u(10), to: u(7) }),
                nonce: Diff::Born(u(4)),
                code: Diff::Same,
                storage: vec![(word(1), Diff::Born(word(9))), (word(2), Diff::Died(word(3)))],
            },
        )],
    };
    let mut state = State::new();
    apply_state_diff(&mut state, diff);
    assert_eq!(state.accounts.len(), 1);
    let acc = &state.accounts[0].1;
    assert_eq!(acc.balance, Some(u(7)));
    assert_eq!(acc.nonce, Some(4));
    assert!(acc.code.is_none());
    let storage = acc.storage.as_ref().unwrap();
    assert_eq!(storage.len(), 1);
    assert!(storage[0].0.same(&word(1)) && storage[0].1.same(&word(9)));
    assert_eq!(state.balance_of(&addr(1)), Some(u(7)));
    assert_eq!(state.balance_of(&addr(2)), None);
}
