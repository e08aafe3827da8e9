//! The searcher's state and the decisions it takes on each block, each
//! pending transaction and each new order.

use vstd::prelude::*;
use crate::address::{Address, address_views, contains_address};
use crate::market::{ArbInfo, MarketBook, MarketView, NFTMarket, opt_value};
use crate::marketplace::Marketplace;
use crate::uint::U256;

verus! {

/// The contract addresses of a list of marketplaces.
pub open spec fn contract_views(ms: Seq<Marketplace>) -> Seq<Seq<u8>> {
    ms.map_values(|m: Marketplace| m.spec_contract_address())
}

/// The state after a new marketplace is offered: it is kept unless its
/// address is known already or its collection is banned; a kept marketplace's
/// collection joins the LooksRare watch list when `track` is set and it is
/// not there yet.
pub open spec fn register_one(
    state: (Seq<Marketplace>, Seq<Seq<u8>>),
    banned: Seq<Seq<u8>>,
    m: Marketplace,
    track: bool,
) -> (Seq<Marketplace>, Seq<Seq<u8>>) {
    if contract_views(state.0).contains(m.spec_contract_address()) || banned.contains(m.nft_address@) {
        state
    } else {
        (
            state.0.push(m),
            if track && !state.1.contains(m.nft_address@) {
                state.1.push(m.nft_address@)
            } else {
                state.1
            },
        )
    }
}

/// The state after the new marketplaces `news` are offered in order.
pub open spec fn register_all(
    state: (Seq<Marketplace>, Seq<Seq<u8>>),
    banned: Seq<Seq<u8>>,
    news: Seq<Marketplace>,
) -> (Seq<Marketplace>, Seq<Seq<u8>>)
    decreases news.len(),
{
    if news.len() == 0 {
        state
    } else {
        register_one(register_all(state, banned, news.drop_last()), banned, news.last(), true)
    }
}

/// Offering a marketplace: one whose address is already known, or whose
/// collection is banned, changes nothing; any other is appended to the
/// marketplaces, and, when `track` is set, its collection is on the watch list
/// afterwards. No marketplace or watched collection is ever dropped.
pub proof fn law_registration(
    state: (Seq<Marketplace>, Seq<Seq<u8>>),
    banned: Seq<Seq<u8>>,
    m: Marketplace,
    track: bool,
)
    ensures
        ({
            let r = register_one(state, banned, m, track);
            let known = exists|i: int|
                0 <= i < state.0.len() && (#[trigger] state.0[i]).spec_contract_address()
                    == m.spec_contract_address();
            &&& (known || banned.contains(m.nft_address@)) ==> r == state
            &&& (!known && !banned.contains(m.nft_address@)) ==> {
                &&& r.0 == state.0.push(m)
                &&& track ==> r.1.contains(m.nft_address@)
                &&& !track ==> r.1 == state.1
            }
            &&& forall|x: Seq<u8>| state.1.contains(x) ==> #[trigger] r.1.contains(x)
        }),
{
    let r = register_one(state, banned, m, track);
    let known = exists|i: int|
        0 <= i < state.0.len() && (#[trigger] state.0[i]).spec_contract_address()
            == m.spec_contract_address();
    let cv = contract_views(state.0);
    if known {
        let i = choose|i: int|
            0 <= i < state.0.len() && (#[trigger] state.0[i]).spec_contract_address()
                == m.spec_contract_address();
        assert(cv[i] == m.spec_contract_address());
    }
    if cv.contains(m.spec_contract_address()) {
        let i = choose|i: int| 0 <= i < cv.len() && cv[i] == m.spec_contract_address();
        assert(state.0[i].spec_contract_address() == m.spec_contract_address());
    }
    if !known && !banned.contains(m.nft_address@) && track && !state.1.contains(m.nft_address@) {
        assert(r.1 == state.1.push(m.nft_address@));
        assert(r.1[state.1.len() as int] == m.nft_address@);
    }
    assert forall|x: Seq<u8>| state.1.contains(x) implies #[trigger] r.1.contains(x) by {
        if r.1 != state.1 {
            let i = choose|i: int| 0 <= i < state.1.len() && state.1[i] == x;
            assert(r.1[i] == x);
        }
    }
}

/// Every marketplace index that the book refers to is below `n`.
pub open spec fn book_inds_below(book: Map<Seq<u8>, MarketView>, n: nat) -> bool {
    forall|k: Seq<u8>| #[trigger] book.contains_key(k) ==> market_inds_below(book[k], n)
}

/// Every marketplace index that one market refers to is below `n`.
pub open spec fn market_inds_below(m: MarketView, n: nat) -> bool {
    &&& (forall|j: int| 0 <= j < m.inds.len() ==> #[trigger] m.inds[j] < n)
    &&& (m.buy matches Some(b) ==> b.1 < n)
    &&& (m.sell matches Some(s) ==> s.1 < n)
}

/// Every marketplace index that the book keeps under a collection names a
/// marketplace of that collection.
pub open spec fn book_inds_own(book: Map<Seq<u8>, MarketView>, ms: Seq<Marketplace>) -> bool {
    forall|k: Seq<u8>| #[trigger] book.contains_key(k) ==> market_inds_own(book[k], k, ms)
}

/// Every marketplace index that one market refers to names a marketplace of
/// collection `nft`.
pub open spec fn market_inds_own(m: MarketView, nft: Seq<u8>, ms: Seq<Marketplace>) -> bool {
    &&& (forall|j: int| 0 <= j < m.inds.len() ==> (#[trigger] ms[m.inds[j] as int]).nft_address@ == nft)
    &&& (m.buy matches Some(b) ==> ms[b.1 as int].nft_address@ == nft)
    &&& (m.sell matches Some(s) ==> ms[s.1 as int].nft_address@ == nft)
}

/// Whether some marketplace of collection `nft` trades through a touched
/// address (or there is one at all, on a full update).
pub open spec fn touched_collection(
    ms: Seq<Marketplace>,
    delta: Seq<Seq<u8>>,
    full_update: bool,
    nft: Seq<u8>,
) -> bool {
    exists|i: int|
        0 <= i < ms.len() && (delta.contains((#[trigger] ms[i]).spec_contract_address()) || full_update)
            && ms[i].nft_address@ == nft
}

/// The marketplaces to price anew and the book they write into, after going
/// through the marketplaces in order: a marketplace that trades through one of
/// the `delta` addresses (or every marketplace, on a full update) has its
/// collection's market cleared and is priced again, together with every
/// marketplace that had quoted for that collection before it was cleared.
pub open spec fn plan_updates(
    ms: Seq<Marketplace>,
    delta: Seq<Seq<u8>>,
    full_update: bool,
    book: Map<Seq<u8>, MarketView>,
) -> (Seq<nat>, Map<Seq<u8>, MarketView>)
    decreases ms.len(),
{
    if ms.len() == 0 {
        (Seq::empty(), book)
    } else {
        let prev = plan_updates(ms.drop_last(), delta, full_update, book);
        let m = ms.last();
        if delta.contains(m.spec_contract_address()) || full_update {
            let inds = if prev.1.contains_key(m.nft_address@) {
                prev.1[m.nft_address@].inds
            } else {
                Seq::empty()
            };
            (
                prev.0.push((ms.len() - 1) as nat) + inds,
                prev.1.insert(m.nft_address@, MarketView::empty()),
            )
        } else {
            prev
        }
    }
}

/// 10^18, one ether in wei.
pub const ONE: u128 = 1_000_000_000_000_000_000;

/// What to do with an arbitrage opportunity.
pub enum ArbPlan {
    /// Leave it.
    Skip,
    /// Search for the most profitable number of NFTs to trade, pricing gas at
    /// `basefee_next_max` and paying `fee_percent` percent of the profit to the
    /// block builder.
    Search { basefee_next_max: U256, fee_percent: U256 },
}

/// The highest base fee the next block can have: 9/8 of this one's.
pub open spec fn spec_basefee_next_max(base_fee: nat) -> nat {
    ((base_fee * (9 * ONE as int)) / (8 * ONE as int)) as nat
}

/// The bundle to send for a profitable trade.
pub struct BundlePlan {
    /// The payment to the block builder.
    pub eth_to_coinbase: U256,
    /// The gas limit of the transaction: the estimate with room to spare.
    pub gas_limit: U256,
}

/// Only known marketplaces are priced anew: when the book refers to
/// marketplaces below `n` only, and there are at most `n` marketplaces, every
/// planned task and every index of the resulting book is below `n`.
pub proof fn law_planned_tasks_are_known(
    ms: Seq<Marketplace>,
    delta: Seq<Seq<u8>>,
    full_update: bool,
    book: Map<Seq<u8>, MarketView>,
    n: nat,
)
    requires
        book_inds_below(book, n),
        ms.len() <= n,
    ensures
        book_inds_below(plan_updates(ms, delta, full_update, book).1, n),
        forall|k: int|
            0 <= k < plan_updates(ms, delta, full_update, book).0.len() ==> #[trigger] plan_updates(
                ms,
                delta,
                full_update,
                book,
            ).0[k] < n,
    decreases ms.len(),
{
    if ms.len() > 0 {
        let pre = ms.drop_last();
        law_planned_tasks_are_known(pre, delta, full_update, book, n);
        let prev = plan_updates(pre, delta, full_update, book);
        let all = plan_updates(ms, delta, full_update, book);
        let m = ms.last();
        if delta.contains(m.spec_contract_address()) || full_update {
            let inds = if prev.1.contains_key(m.nft_address@) { prev.1[m.nft_address@].inds } else { Seq::empty() };
            assert(all.0 == prev.0.push((ms.len() - 1) as nat) + inds);
            if prev.1.contains_key(m.nft_address@) {
                assert(market_inds_below(prev.1[m.nft_address@], n));
            }
            assert forall|k: int| 0 <= k < all.0.len() implies #[trigger] all.0[k] < n by {
                if k > prev.0.len() {
                    assert(all.0[k] == inds[k - prev.0.len() - 1]);
                }
            }
            assert forall|k: Seq<u8>| #[trigger] all.1.contains_key(k) implies market_inds_below(all.1[k], n) by {
                if k != m.nft_address@ {
                    assert(prev.1.contains_key(k));
                }
            }
        }
    }
}

/// A pricing round stays within the touched collections: every marketplace it
/// prices belongs to a collection that one of the touched marketplaces (every
/// marketplace, on a full update) trades, the book it writes keeps naming only
/// marketplaces of each collection, and the market of every other collection
/// is left as it was. This rests on the book naming, under each collection,
/// only marketplaces of that collection.
pub proof fn law_repricing_stays_in_touched_collections(
    ms: Seq<Marketplace>,
    delta: Seq<Seq<u8>>,
    full_update: bool,
    book: Map<Seq<u8>, MarketView>,
)
    requires
        book_inds_own(book, ms),
    ensures
        forall|t: int|
            0 <= t < plan_updates(ms, delta, full_update, book).0.len() ==> touched_collection(
                ms,
                delta,
                full_update,
                ms[#[trigger] plan_updates(ms, delta, full_update, book).0[t] as int].nft_address@,
            ),
        book_inds_own(plan_updates(ms, delta, full_update, book).1, ms),
        forall|k: Seq<u8>|
            #[trigger] book.contains_key(k) && !touched_collection(ms, delta, full_update, k)
                ==> plan_updates(ms, delta, full_update, book).1.contains_key(k)
                && plan_updates(ms, delta, full_update, book).1[k] == book[k],
{
    lemma_plan_stays_in_collections(ms, ms, delta, full_update, book);
}

/// `law_repricing_stays_in_touched_collections` for a prefix `ms` of the
/// marketplaces `all` that the book's indices refer to.
proof fn lemma_plan_stays_in_collections(
    ms: Seq<Marketplace>,
    all: Seq<Marketplace>,
    delta: Seq<Seq<u8>>,
    full_update: bool,
    book: Map<Seq<u8>, MarketView>,
)
    requires
        book_inds_own(book, all),
        ms.len() <= all.len(),
        forall|i: int| 0 <= i < ms.len() ==> #[trigger] ms[i] == all[i],
    ensures
        forall|t: int|
            0 <= t < plan_updates(ms, delta, full_update, book).0.len() ==> touched_collection(
                ms,
                delta,
                full_update,
                all[#[trigger] plan_updates(ms, delta, full_update, book).0[t] as int].nft_address@,
            ),
        book_inds_own(plan_updates(ms, delta, full_update, book).1, all),
        forall|k: Seq<u8>|
            #[trigger] book.contains_key(k) && !touched_collection(ms, delta, full_update, k)
                ==> plan_updates(ms, delta, full_update, book).1.contains_key(k)
                && plan_updates(ms, delta, full_update, book).1[k] == book[k],
    decreases ms.len(),
{
    if ms.len() > 0 {
        let pre = ms.drop_last();
        assert forall|i: int| 0 <= i < pre.len() implies #[trigger] pre[i] == all[i] by {
            assert(pre[i] == ms[i]);
        }
        lemma_plan_stays_in_collections(pre, all, delta, full_update, book);
        let prev = plan_updates(pre, delta, full_update, book);
        let plan = plan_updates(ms, delta, full_update, book);
        let last = ms.len() - 1;
        let m = ms.last();
        assert(m == ms[last]);
        assert forall|k: Seq<u8>| touched_collection(pre, delta, full_update, k) implies touched_collection(
            ms,
            delta,
            full_update,
            k,
        ) by {
            let i = choose|i: int|
                0 <= i < pre.len() && (delta.contains((#[trigger] pre[i]).spec_contract_address())
                    || full_update) && pre[i].nft_address@ == k;
            assert(ms[i] == pre[i]);
        }
        if delta.contains(m.spec_contract_address()) || full_update {
            let inds = if prev.1.contains_key(m.nft_address@) {
                prev.1[m.nft_address@].inds
            } else {
                Seq::empty()
            };
            assert(plan.0 == prev.0.push(last as nat) + inds);
            assert(plan.1 == prev.1.insert(m.nft_address@, MarketView::empty()));
            assert(touched_collection(ms, delta, full_update, m.nft_address@)) by {
                assert(delta.contains(ms[last].spec_contract_address()) || full_update);
            }
            assert forall|t: int| 0 <= t < plan.0.len() implies touched_collection(
                ms,
                delta,
                full_update,
                all[#[trigger] plan.0[t] as int].nft_address@,
            ) by {
                if t < prev.0.len() {
                    assert(plan.0[t] == prev.0[t]);
                    assert(touched_collection(pre, delta, full_update, all[prev.0[t] as int].nft_address@));
                } else if t == prev.0.len() {
                    assert(plan.0[t] == last as nat);
                    assert(all[last] == ms[last]);
                } else {
                    let j = t - prev.0.len() - 1;
                    assert(plan.0[t] == inds[j]);
                    assert(prev.1.contains_key(m.nft_address@));
                    assert(market_inds_own(prev.1[m.nft_address@], m.nft_address@, all));
                    assert(all[inds[j] as int].nft_address@ == m.nft_address@);
                }
            }
            assert forall|k: Seq<u8>| #[trigger] plan.1.contains_key(k) implies market_inds_own(
                plan.1[k],
                k,
                all,
            ) by {
                if k != m.nft_address@ {
                    assert(prev.1.contains_key(k));
                }
            }
            assert forall|k: Seq<u8>|
                #[trigger] book.contains_key(k) && !touched_collection(ms, delta, full_update, k)
                    implies plan.1.contains_key(k) && plan.1[k] == book[k] by {
                assert(!touched_collection(pre, delta, full_update, k));
                assert(k != m.nft_address@);
            }
        } else {
            assert(plan == prev);
            assert forall|t: int| 0 <= t < plan.0.len() implies touched_collection(
                ms,
                delta,
                full_update,
                all[#[trigger] plan.0[t] as int].nft_address@,
            ) by {
                assert(touched_collection(pre, delta, full_update, all[prev.0[t] as int].nft_address@));
            }
            assert forall|k: Seq<u8>|
                #[trigger] book.contains_key(k) && !touched_collection(ms, delta, full_update, k)
                    implies plan.1.contains_key(k) && plan.1[k] == book[k] by {
                assert(!touched_collection(pre, delta, full_update, k));
            }
        }
    }
}

/// Every marketplace that trades through a touched address (every
/// marketplace, on a full update) is among the marketplaces priced anew.
pub proof fn law_touched_marketplaces_are_repriced(
    ms: Seq<Marketplace>,
    delta: Seq<Seq<u8>>,
    full_update: bool,
    book: Map<Seq<u8>, MarketView>,
)
    ensures
        forall|i: int|
            0 <= i < ms.len() && (delta.contains((#[trigger] ms[i]).spec_contract_address())
                || full_update) ==> plan_updates(ms, delta, full_update, book).0.contains(i as nat),
    decreases ms.len(),
{
    if ms.len() > 0 {
        let pre = ms.drop_last();
        law_touched_marketplaces_are_repriced(pre, delta, full_update, book);
        let prev = plan_updates(pre, delta, full_update, book);
        let all = plan_updates(ms, delta, full_update, book);
        let m = ms.last();
        assert forall|i: int|
            0 <= i < ms.len() && (delta.contains((#[trigger] ms[i]).spec_contract_address()) || full_update)
                implies all.0.contains(i as nat) by {
            let inds = if prev.1.contains_key(m.nft_address@) { prev.1[m.nft_address@].inds } else { Seq::empty() };
            if i < pre.len() {
                assert(pre[i] == ms[i]);
                assert(prev.0.contains(i as nat));
                let q = choose|q: int| 0 <= q < prev.0.len() && prev.0[q] == i as nat;
                if delta.contains(m.spec_contract_address()) || full_update {
                    assert(all.0 == prev.0.push((ms.len() - 1) as nat) + inds);
                    assert(all.0[q] == i as nat);
                }
            } else {
                assert(all.0 == prev.0.push((ms.len() - 1) as nat) + inds);
                assert(all.0[prev.0.len() as int] == i as nat);
            }
        }
    }
}

/// The routers whose pending transactions may move prices.
pub struct RouterAddresses {
    pub sudo_router_address: Address,
    pub aggregator_addresses: Vec<Address>,
    pub sushi_router_address: Address,
    pub nftx_zap_address: Address,
}

/// The share of the profit, in percent, paid to the block builder: when both
/// sides are sudoswap pools (contested) and otherwise.
#[derive(Clone, Copy, Debug)]
pub struct FeePercent {
    pub contested: U256,
    pub uncontested: U256,
}

/// The searcher's settings.
#[derive(Clone, Copy, Debug)]
pub struct BotOpts {
    pub gas_heuristic: U256,
    pub percent_to_miner: FeePercent,
    pub minimum_profit: U256,
    pub n_buffered_calls: usize,
    pub n_events: u64,
}

/// The collections whose best LooksRare ask is polled in turn.
pub struct LooksOrderbook {
    pub nft_vec_ind: usize,
    pub nft_vec: Vec<Address>,
    pub endpoint_uri: String,
}

/// The known marketplaces and the addresses through which they trade.
pub struct MarketSearcher {
    pub marketplaces: Vec<Marketplace>,
    pub marketplace_addresses: Vec<Address>,
    pub weth_address: Address,
    pub looksrare_endpoint: String,
    pub looks_orderbook: LooksOrderbook,
}

/// The searcher.
pub struct Bot {
    pub address: Address,
    pub executor_address: Address,
    pub router_addresses: RouterAddresses,
    pub banned_nfts: Vec<Address>,
    pub full_update: bool,
    pub last_updated_block: u64,
    pub market_searcher: MarketSearcher,
    pub nft_markets: MarketBook,
    pub opts: BotOpts,
}

impl Bot {
    pub open spec fn marketplaces(&self) -> Seq<Marketplace> {
        self.market_searcher.marketplaces@
    }

    pub open spec fn banned(&self) -> Seq<Seq<u8>> {
        address_views(self.banned_nfts@)
    }

    pub open spec fn looks_nfts(&self) -> Seq<Seq<u8>> {
        address_views(self.market_searcher.looks_orderbook.nft_vec@)
    }

    /// The address list mirrors the marketplaces, one address each and no
    /// address twice; no banned collection has a marketplace; the LooksRare
    /// watch list has no repeats; and every marketplace index that the book
    /// holds under a collection names a known marketplace of that collection.
    pub open spec fn wf(&self) -> bool {
        &&& self.nft_markets.wf()
        &&& address_views(self.market_searcher.marketplace_addresses@) == contract_views(self.marketplaces())
        &&& contract_views(self.marketplaces()).no_duplicates()
        &&& forall|i: int|
            0 <= i < self.marketplaces().len() ==> !self.banned().contains(
                (#[trigger] self.marketplaces()[i]).nft_address@,
            )
        &&& self.looks_nfts().no_duplicates()
        &&& book_inds_below(self.nft_markets.view(), self.marketplaces().len())
        &&& book_inds_own(self.nft_markets.view(), self.marketplaces())
    }

    /// A searcher that knows no marketplace yet and will price every one of
    /// them on its first block. `percent_to_miner` holds the contested share
    /// first, then the uncontested one.
    pub fn new(
        address: Address,
        executor_address: Address,
        router_addresses: RouterAddresses,
        banned_nfts: Vec<Address>,
        gas_heuristic: u128,
        percent_to_miner: &Vec<u128>,
        minimum_profit: u128,
        n_buffered_calls: usize,
        n_events: u64,
        deployed_block: u64,
        weth_address: Address,
        looksrare_endpoint: String,
        looks_endpoint_uri: String,
    ) -> (r: Bot)
        requires
            percent_to_miner.len() >= 2,
        ensures
            r.wf(),
            r.marketplaces().len() == 0,
            r.looks_nfts().len() == 0,
            r.market_searcher.looks_orderbook.nft_vec_ind == 0,
            r.nft_markets.view() == Map::<Seq<u8>, MarketView>::empty(),
            r.full_update,
            r.last_updated_block == deployed_block,
            r.banned() == address_views(banned_nfts@),
            r.opts.gas_heuristic.value() == gas_heuristic,
            r.opts.percent_to_miner.contested.value() == percent_to_miner[0],
            r.opts.percent_to_miner.uncontested.value() == percent_to_miner[1],
            r.opts.minimum_profit.value() == minimum_profit,
            r.opts.n_buffered_calls == n_buffered_calls,
            r.opts.n_events == n_events,
            r.address == address,
            r.executor_address == executor_address,
            r.router_addresses.sudo_router_address == router_addresses.sudo_router_address,
            r.router_addresses.aggregator_addresses@ == router_addresses.aggregator_addresses@,
            r.router_addresses.sushi_router_address == router_addresses.sushi_router_address,
            r.router_addresses.nftx_zap_address == router_addresses.nftx_zap_address,
            r.market_searcher.weth_address == weth_address,
            r.market_searcher.looksrare_endpoint@ == looksrare_endpoint@,
            r.market_searcher.looks_orderbook.endpoint_uri@ == looks_endpoint_uri@,
    {
        let opts = BotOpts {
            gas_heuristic: U256::from_u128(gas_heuristic),
            percent_to_miner: FeePercent {
                contested: U256::from_u128(percent_to_miner[0]),
                uncontested: U256::from_u128(percent_to_miner[1]),
            },
            minimum_profit: U256::from_u128(minimum_profit),
            n_buffered_calls,
            n_events,
        };
        let market_searcher = MarketSearcher {
            marketplaces: Vec::new(),
            marketplace_addresses: Vec::new(),
            weth_address,
            looksrare_endpoint,
            looks_orderbook: LooksOrderbook {
                nft_vec_ind: 0,
                nft_vec: Vec::new(),
                endpoint_uri: looks_endpoint_uri,
            },
        };
        let r = Bot {
            address,
            executor_address,
            router_addresses,
            banned_nfts,
            full_update: true,
            last_updated_block: deployed_block,
            market_searcher,
            nft_markets: MarketBook::new(),
            opts,
        };
        assert(address_views(r.market_searcher.marketplace_addresses@) =~= contract_views(
            r.marketplaces(),
        ));
        assert(r.looks_nfts() =~= Seq::<Seq<u8>>::empty());
        r
    }

    /// Offer one new marketplace (see `register_one`).
    fn register(&mut self, m: Marketplace, track: bool)
        requires
            old(self).wf(),
        ensures
            final(self).wf(),
            (final(self).marketplaces(), final(self).looks_nfts()) == register_one(
                (old(self).marketplaces(), old(self).looks_nfts()),
                old(self).banned(),
                m,
                track,
            ),
            final(self).banned() == old(self).banned(),
            final(self).nft_markets == old(self).nft_markets,
            final(self).full_update == old(self).full_update,
            final(self).last_updated_block == old(self).last_updated_block,
            final(self).market_searcher.looks_orderbook.nft_vec_ind
                == old(self).market_searcher.looks_orderbook.nft_vec_ind,
    {
        let contract_address = m.contract_address();
        let known = contains_address(&self.market_searcher.marketplace_addresses, &contract_address);
        let banned = contains_address(&self.banned_nfts, &m.nft_address);
        if !known && !banned {
            let nft_address = m.nft_address;
            let ghost old_ms = self.marketplaces();
            let ghost old_nv = self.looks_nfts();
            self.market_searcher.marketplaces.push(m);
            self.market_searcher.marketplace_addresses.push(contract_address);
            proof {
                assert(contract_views(self.marketplaces()) =~= contract_views(old_ms).push(
                    contract_address@,
                ));
                assert(address_views(self.market_searcher.marketplace_addresses@)
                    =~= address_views(old(self).market_searcher.marketplace_addresses@).push(
                    contract_address@,
                ));
                assert forall|i: int|
                    0 <= i < self.marketplaces().len() implies !self.banned().contains(
                    (#[trigger] self.marketplaces()[i]).nft_address@,
                ) by {
                    if i < old_ms.len() {
                        assert(self.marketplaces()[i] == old_ms[i]);
                    }
                }
                assert forall|k: Seq<u8>| #[trigger]
                    self.nft_markets.view().contains_key(k) implies market_inds_below(
                    self.nft_markets.view()[k],
                    self.marketplaces().len(),
                ) by {
                    assert(market_inds_below(self.nft_markets.view()[k], old_ms.len()));
                }
                assert forall|k: Seq<u8>| #[trigger]
                    self.nft_markets.view().contains_key(k) implies market_inds_own(
                    self.nft_markets.view()[k],
                    k,
                    self.marketplaces(),
                ) by {
                    let mk = self.nft_markets.view()[k];
                    assert(market_inds_below(mk, old_ms.len()));
                    assert(market_inds_own(mk, k, old_ms));
                    assert forall|j: int| 0 <= j < mk.inds.len() implies (#[trigger] self.marketplaces()[mk.inds[j] as int]).nft_address@ == k by {
                        assert(self.marketplaces()[mk.inds[j] as int] == old_ms[mk.inds[j] as int]);
                    }
                    if mk.buy is Some {
                        assert(self.marketplaces()[mk.buy.unwrap().1 as int] == old_ms[mk.buy.unwrap().1 as int]);
                    }
                    if mk.sell is Some {
                        assert(self.marketplaces()[mk.sell.unwrap().1 as int] == old_ms[mk.sell.unwrap().1 as int]);
                    }
                }
            }
            if track {
                let listed = contains_address(&self.market_searcher.looks_orderbook.nft_vec, &nft_address);
                if !listed {
                    self.market_searcher.looks_orderbook.nft_vec.push(nft_address);
                    proof {
                        assert(self.looks_nfts() =~= old_nv.push(nft_address@));
                    }
                }
            }
        }
    }

    /// Add the marketplaces found in new factory events, in order: each is
    /// kept unless its address is already known or its collection is banned,
    /// and a kept one's collection joins the LooksRare watch list.
    pub fn handle_events(&mut self, marketplaces_new: Vec<Marketplace>)
        requires
            old(self).wf(),
        ensures
            final(self).wf(),
            (final(self).marketplaces(), final(self).looks_nfts()) == register_all(
                (old(self).marketplaces(), old(self).looks_nfts()),
                old(self).banned(),
                marketplaces_new@,
            ),
            final(self).banned() == old(self).banned(),
            final(self).nft_markets == old(self).nft_markets,
            final(self).full_update == old(self).full_update,
            final(self).last_updated_block == old(self).last_updated_block,
    {
        let ghost start = (old(self).marketplaces(), old(self).looks_nfts());
        let ghost all = marketplaces_new@;
        let n = marketplaces_new.len();
        assert(all.len() == n);
        let mut rest = marketplaces_new;
        let mut i: usize = 0;
        assert(all.take(0) =~= Seq::<Marketplace>::empty());
        assert(all.skip(0) =~= all);
        while rest.len() > 0
            invariant
                self.wf(),
                i <= all.len(),
                all.len() <= usize::MAX,
                rest@ == all.skip(i as int),
                (self.marketplaces(), self.looks_nfts()) == register_all(
                    start,
                    old(self).banned(),
                    all.take(i as int),
                ),
                self.banned() == old(self).banned(),
                self.nft_markets == old(self).nft_markets,
                self.full_update == old(self).full_update,
                self.last_updated_block == old(self).last_updated_block,
            decreases rest.len(),
        {
            let m = rest.remove(0);
            proof {
                assert(i < all.len());
                assert(m == all[i as int]);
                assert(rest@ =~= all.skip(i + 1));
                assert(all.take(i + 1).drop_last() =~= all.take(i as int));
                assert(all.take(i + 1).last() == m);
            }
            self.register(m, true);
            i = i + 1;
        }
        assert(all.take(i as int) =~= all);
    }

    /// Register the collection of the first order of a LooksRare poll as a
    /// marketplace (unless known or banned) and name the collection whose
    /// prices are to be refreshed; a poll without orders changes nothing.
    pub fn on_looks_orders(&mut self, orders: Option<Vec<crate::marketplace::LooksQuote>>) -> (r: Option<Address>)
        requires
            old(self).wf(),
        ensures
            final(self).wf(),
            r is Some <==> (orders matches Some(q) && q.len() > 0),
            r matches Some(a) ==> {
                let q = orders.unwrap()@[0];
                &&& a@ == q.collection_address@
                &&& (final(self).marketplaces(), final(self).looks_nfts()) == register_one(
                    (old(self).marketplaces(), old(self).looks_nfts()),
                    old(self).banned(),
                    crate::marketplace::looks_marketplace_spec(q),
                    false,
                )
            },
            r is None ==> *final(self) == *old(self),
            final(self).banned() == old(self).banned(),
            final(self).nft_markets == old(self).nft_markets,
    {
        match orders {
            Some(q) => {
                if q.len() == 0 {
                    return None;
                }
                let mut q = q;
                let first = q.remove(0);
                let collection = first.collection_address;
                let m = crate::marketplace::looks_marketplace(first);
                self.register(m, false);
                Some(collection)
            },
            None => None,
        }
    }

    /// Whether a pending transaction to `to` may move prices the searcher
    /// follows: one to the sudoswap router, the NFTX zap, an aggregator, or a
    /// known marketplace (a transaction without recipient counts as one to
    /// the zero address).
    pub fn is_watched_target(&self, to: Option<Address>) -> (r: bool)
        requires
            self.wf(),
        ensures
            r == ({
                let t = match to {
                    Some(a) => a@,
                    None => Seq::new(20, |i: int| 0u8),
                };
                t == self.router_addresses.sudo_router_address@
                    || t == self.router_addresses.nftx_zap_address@ || address_views(
                    self.router_addresses.aggregator_addresses@,
                ).contains(t) || contract_views(self.marketplaces()).contains(t)
            }),
    {
        let target = match to {
            Some(a) => a,
            None => Address::zero(),
        };
        target.same(&self.router_addresses.sudo_router_address) || target.same(
            &self.router_addresses.nftx_zap_address,
        ) || contains_address(&self.router_addresses.aggregator_addresses, &target)
            || contains_address(&self.market_searcher.marketplace_addresses, &target)
    }

    /// The marketplaces to price anew (by index, one entry per pricing call)
    /// and the book cleared for them; see `plan_updates`. The number of
    /// entries is the number of calls made.
    pub fn plan_price_updates(
        &self,
        delta_addresses: &Vec<Address>,
        nft_markets_new: &mut MarketBook,
        full_update: bool,
    ) -> (r: Vec<usize>)
        requires
            self.wf(),
            old(nft_markets_new).wf(),
            book_inds_below(old(nft_markets_new).view(), self.marketplaces().len()),
            book_inds_own(old(nft_markets_new).view(), self.marketplaces()),
        ensures
            final(nft_markets_new).wf(),
            book_inds_below(final(nft_markets_new).view(), self.marketplaces().len()),
            book_inds_own(final(nft_markets_new).view(), self.marketplaces()),
            (r@.map_values(|i: usize| i as nat), final(nft_markets_new).view()) == plan_updates(
                self.marketplaces(),
                address_views(delta_addresses@),
                full_update,
                old(nft_markets_new).view(),
            ),
            forall|k: int| 0 <= k < r.len() ==> #[trigger] r[k] < self.marketplaces().len(),
    {
        let ghost ms = self.marketplaces();
        let ghost delta = address_views(delta_addresses@);
        let ghost book0 = nft_markets_new.view();
        let ghost n = ms.len();
        let mut tasks: Vec<usize> = Vec::new();
        let mut i: usize = 0;
        assert(ms.take(0) =~= Seq::<Marketplace>::empty());
        assert(tasks@.map_values(|i: usize| i as nat) =~= Seq::<nat>::empty());
        while i < self.market_searcher.marketplaces.len()
            invariant
                self.wf(),
                ms == self.marketplaces(),
                delta == address_views(delta_addresses@),
                n == ms.len(),
                i <= n,
                nft_markets_new.wf(),
                book_inds_below(nft_markets_new.view(), n),
                book_inds_own(nft_markets_new.view(), ms),
                (tasks@.map_values(|i: usize| i as nat), nft_markets_new.view()) == plan_updates(
                    ms.take(i as int),
                    delta,
                    full_update,
                    book0,
                ),
                forall|k: int| 0 <= k < tasks.len() ==> #[trigger] tasks[k] < n,
            decreases n - i,
        {
            let marketplace = &self.market_searcher.marketplaces[i];
            let address = marketplace.contract_address();
            let ghost before_tasks = tasks@;
            let ghost before_book = nft_markets_new.view();
            proof {
                assert(ms.take(i + 1).drop_last() =~= ms.take(i as int));
                assert(ms.take(i + 1).last() == ms[i as int]);
                assert(ms.take(i + 1).len() == i + 1);
            }
            let ghost prev = plan_updates(ms.take(i as int), delta, full_update, book0);
            assert(prev == (before_tasks.map_values(|i: usize| i as nat), before_book));
            let hit = contains_address(delta_addresses, &address);
            assert(address@ == ms[i as int].spec_contract_address());
            if hit || full_update {
                assert(delta.contains(ms[i as int].spec_contract_address()) || full_update);
                let inds = nft_markets_new.marketplace_inds(&marketplace.nft_address);
                let ghost inds_v = inds@.map_values(|j: usize| j as nat);
                proof {
                    if before_book.contains_key(marketplace.nft_address@) {
                        assert(market_inds_below(before_book[marketplace.nft_address@], n));
                    }
                }
                nft_markets_new.insert(&marketplace.nft_address, NFTMarket::new());
                tasks.push(i);
                let mut k: usize = 0;
                let ghost mid = tasks@;
                while k < inds.len()
                    invariant
                        k <= inds.len(),
                        inds_v == inds@.map_values(|j: usize| j as nat),
                        forall|j: int| 0 <= j < inds_v.len() ==> #[trigger] inds_v[j] < n,
                        tasks@ == mid + inds@.take(k as int),
                        forall|t: int| 0 <= t < tasks.len() ==> #[trigger] tasks[t] < n,
                    decreases inds.len() - k,
                {
                    assert(inds_v[k as int] == inds[k as int] as nat);
                    tasks.push(inds[k]);
                    assert(inds@.take(k + 1) =~= inds@.take(k as int).push(inds[k as int]));
                    k = k + 1;
                }
                proof {
                    assert(inds@.take(k as int) =~= inds@);
                    assert(tasks@.map_values(|i: usize| i as nat) =~= before_tasks.map_values(
                        |i: usize| i as nat,
                    ).push(i as nat) + inds_v);
                    assert(inds_v == (if prev.1.contains_key(ms[i as int].nft_address@) {
                        prev.1[ms[i as int].nft_address@].inds
                    } else {
                        Seq::empty()
                    }));
                    assert(nft_markets_new.view() == prev.1.insert(ms[i as int].nft_address@, MarketView::empty()));
                    assert(plan_updates(ms.take(i + 1), delta, full_update, book0) == (
                        prev.0.push(i as nat) + inds_v,
                        prev.1.insert(ms[i as int].nft_address@, MarketView::empty()),
                    ));
                    assert forall|key: Seq<u8>| #[trigger]
                        nft_markets_new.view().contains_key(key) implies market_inds_below(
                        nft_markets_new.view()[key],
                        n,
                    ) && market_inds_own(nft_markets_new.view()[key], key, ms) by {
                        if key == marketplace.nft_address@ {
                            assert(nft_markets_new.view()[key] == MarketView::empty());
                        } else {
                            assert(before_book.contains_key(key));
                        }
                    }
                }
            }
            i = i + 1;
        }
        assert(ms.take(i as int) =~= ms);
        tasks
    }

    /// Record in `book` marketplace `marketplace_ind`'s quotes for its
    /// collection.
    pub fn record_quote(
        &self,
        book: &mut MarketBook,
        marketplace_ind: usize,
        buy_price: Option<U256>,
        sell_price: Option<U256>,
    )
        requires
            self.wf(),
            old(book).wf(),
            book_inds_below(old(book).view(), self.marketplaces().len()),
            book_inds_own(old(book).view(), self.marketplaces()),
            marketplace_ind < self.marketplaces().len(),
        ensures
            final(book).wf(),
            book_inds_below(final(book).view(), self.marketplaces().len()),
            book_inds_own(final(book).view(), self.marketplaces()),
            final(book).view() == old(book).view().insert(
                self.marketplaces()[marketplace_ind as int].nft_address@,
                old(book).market_or_empty(
                    self.marketplaces()[marketplace_ind as int].nft_address@,
                ).record(marketplace_ind as nat, opt_value(buy_price), opt_value(sell_price)),
            ),
    {
        let nft = &self.market_searcher.marketplaces[marketplace_ind].nft_address;
        let ghost before = old(book).market_or_empty(nft@);
        let ghost n = self.marketplaces().len();
        proof {
            if old(book).view().contains_key(nft@) {
                assert(market_inds_below(old(book).view()[nft@], n));
            }
            assert(market_inds_below(before, n));
            if old(book).view().contains_key(nft@) {
                assert(market_inds_own(old(book).view()[nft@], nft@, self.marketplaces()));
            }
            assert(market_inds_own(before, nft@, self.marketplaces()));
        }
        book.record_quotes(nft, marketplace_ind, buy_price, sell_price);
        proof {
            let after = before.record(marketplace_ind as nat, opt_value(buy_price), opt_value(sell_price));
            assert forall|j: int| 0 <= j < after.inds.len() implies #[trigger] after.inds[j] < n by {
                if !before.inds.contains(marketplace_ind as nat) {
                    if j < before.inds.len() {
                        assert(after.inds[j] == before.inds[j]);
                    }
                }
            }
            assert(market_inds_below(after, n));
            assert forall|j: int| 0 <= j < after.inds.len() implies (#[trigger] self.marketplaces()[after.inds[j] as int]).nft_address@ == nft@ by {
                if !before.inds.contains(marketplace_ind as nat) {
                    if j < before.inds.len() {
                        assert(after.inds[j] == before.inds[j]);
                    }
                }
            }
            assert(market_inds_own(after, nft@, self.marketplaces()));
            assert forall|key: Seq<u8>| #[trigger]
                book.view().contains_key(key) implies market_inds_below(book.view()[key], n)
                && market_inds_own(book.view()[key], key, self.marketplaces()) by {
                if key != nft@ {
                    assert(old(book).view().contains_key(key));
                }
            }
        }
    }

    /// The arbitrage opportunities of `book` at `block_number` (see
    /// `MarketBook::find_arbs`); their marketplace indices name known
    /// marketplaces.
    pub fn find_arbs(&self, book: &MarketBook, block_number: u64) -> (r: Vec<ArbInfo>)
        requires
            self.wf(),
            book.wf(),
            book_inds_below(book.view(), self.marketplaces().len()),
            book_inds_own(book.view(), self.marketplaces()),
        ensures
            crate::market::arb_views(r@) == crate::market::arbs_of(
                book.keys(),
                book.market_views(),
                block_number as nat,
            ),
            forall|k: int|
                0 <= k < r.len() ==> (#[trigger] r[k]).inds.0 < self.marketplaces().len()
                    && r[k].inds.1 < self.marketplaces().len(),
            forall|k: int|
                0 <= k < r.len() ==> self.marketplaces()[(#[trigger] r[k]).inds.0 as int].nft_address@
                    == r[k].nft_address@ && self.marketplaces()[r[k].inds.1 as int].nft_address@
                    == r[k].nft_address@,
    {
        let r = book.find_arbs(block_number);
        proof {
            crate::market::law_arbs_are_exactly_the_crossed_markets(
                book.keys(),
                book.market_views(),
                block_number as nat,
            );
            assert forall|k: int| 0 <= k < r.len() implies (#[trigger] r[k]).inds.0
                < self.marketplaces().len() && r[k].inds.1 < self.marketplaces().len()
                && self.marketplaces()[r[k].inds.0 as int].nft_address@ == r[k].nft_address@
                && self.marketplaces()[r[k].inds.1 as int].nft_address@ == r[k].nft_address@ by {
                let a = crate::market::arb_views(r@)[k];
                assert(a == r[k].view());
                let j = choose|j: int|
                    0 <= j < book.keys().len() && book.keys()[j] == a.nft && crate::market::arb_of(
                        book.keys()[j],
                        book.market_views()[j],
                        block_number as nat,
                    ) == Some(a);
                book.lemma_index_pub(j);
                assert(book.market_views()[j] == book.view()[book.keys()[j]]);
                assert(market_inds_below(book.view()[book.keys()[j]], self.marketplaces().len()));
                assert(market_inds_own(book.view()[book.keys()[j]], book.keys()[j], self.marketplaces()));
            }
        }
        r
    }

    /// Whether to pursue an opportunity, given the executor's balance and the
    /// current block's base fee: only when the executor can pay the buy price,
    /// the gain beats the gas heuristic at the next block's highest base fee,
    /// and the two sides are not both NFTX vaults. The builder's share is the
    /// contested one when both sides are sudoswap pools.
    pub fn plan_arb(&self, arb: &ArbInfo, balance: U256, base_fee: U256) -> (r: ArbPlan)
        requires
            self.wf(),
            arb.inds.0 < self.marketplaces().len(),
            arb.inds.1 < self.marketplaces().len(),
            base_fee.value() * (9 * ONE) < crate::uint::u256_bound(),
            balance.value() > arb.quotes.0.value() ==> self.opts.gas_heuristic.value()
                * spec_basefee_next_max(base_fee.value()) < crate::uint::u256_bound(),
        ensures
            ({
                let buy = self.marketplaces()[arb.inds.0 as int];
                let sell = self.marketplaces()[arb.inds.1 as int];
                let next = spec_basefee_next_max(base_fee.value());
                let go = balance.value() > arb.quotes.0.value() && arb.delta.value()
                    > self.opts.gas_heuristic.value() * next && !(buy.is_nftx() && sell.is_nftx());
                &&& (r is Skip <==> !go)
                &&& (r matches ArbPlan::Search { basefee_next_max, fee_percent } ==> {
                    &&& basefee_next_max.value() == next
                    &&& fee_percent == (if buy.is_sudo() && sell.is_sudo() {
                        self.opts.percent_to_miner.contested
                    } else {
                        self.opts.percent_to_miner.uncontested
                    })
                })
            }),
    {
        let nine = U256::from_u128(9 * ONE);
        let eight = U256::from_u128(8 * ONE);
        let basefee_next_max = base_fee.mul(&nine).div(&eight);
        if !balance.gt(&arb.quotes.0) {
            return ArbPlan::Skip;
        }
        let heuristic = self.opts.gas_heuristic.mul(&basefee_next_max);
        if !arb.delta.gt(&heuristic) {
            return ArbPlan::Skip;
        }
        let buy_marketplace = &self.market_searcher.marketplaces[arb.inds.0];
        let sell_marketplace = &self.market_searcher.marketplaces[arb.inds.1];
        if buy_marketplace.nftx() && sell_marketplace.nftx() {
            return ArbPlan::Skip;
        }
        let fee_percent = if buy_marketplace.sudo() && sell_marketplace.sudo() {
            self.opts.percent_to_miner.contested
        } else {
            self.opts.percent_to_miner.uncontested
        };
        ArbPlan::Search { basefee_next_max, fee_percent }
    }

    /// The bundle for a trade found to gain `profit` with `gas` gas: sent only
    /// when the profit exceeds the minimum, paying the builder `fee_percent`
    /// percent of it and allowing 50 000 gas above the estimate.
    pub fn finalize_arb(&self, profit: U256, gas: U256, fee_percent: U256) -> (r: Option<BundlePlan>)
        requires
            profit.value() > self.opts.minimum_profit.value() ==> {
                &&& profit.value() * fee_percent.value() * ONE < crate::uint::u256_bound()
                &&& gas.value() + 50_000 < crate::uint::u256_bound()
            },
        ensures
            r is Some <==> profit.value() > self.opts.minimum_profit.value(),
            r matches Some(p) ==> {
                &&& p.eth_to_coinbase.value() == (profit.value() * fee_percent.value() * (ONE as int))
                    / (100 * ONE as int)
                &&& p.gas_limit.value() == gas.value() + 50_000
            },
    {
        if !profit.gt(&self.opts.minimum_profit) {
            return None;
        }
        let one = U256::from_u128(ONE);
        let hundred_ones = U256::from_u128(100 * ONE);
        proof {
            vstd::arithmetic::mul::lemma_mul_nonnegative(profit.value() as int, fee_percent.value() as int);
        }
        let scaled = profit.mul(&fee_percent).mul(&one);
        let eth_to_coinbase = scaled.div(&hundred_ones);
        let gas_limit = gas.add(&U256::from_u64(50_000));
        Some(BundlePlan { eth_to_coinbase, gas_limit })
    }

    /// Whether this block needs the logs since the last one: not on the first
    /// block, when every marketplace is priced anyway.
    pub fn wants_logs(&self) -> (r: bool)
        ensures
            r == !self.full_update,
    {
        !self.full_update
    }

    /// The number of blocks per event query: all at once when the setting is
    /// 0, in chunks of that many blocks otherwise.
    pub fn event_chunk(&self) -> (r: Option<u64>)
        ensures
            r is None <==> self.opts.n_events == 0,
            r matches Some(n) ==> n == self.opts.n_events,
    {
        if self.opts.n_events == 0 {
            None
        } else {
            Some(self.opts.n_events)
        }
    }

    /// The searcher is up to date with `current_block`; later blocks price
    /// only the marketplaces that logs touch.
    pub fn finish_block(&mut self, current_block: u64)
        requires
            old(self).wf(),
        ensures
            final(self).wf(),
            final(self).last_updated_block == current_block,
            !final(self).full_update,
            final(self).marketplaces() == old(self).marketplaces(),
            final(self).nft_markets == old(self).nft_markets,
    {
        self.last_updated_block = current_block;
        self.full_update = false;
    }

    /// Adopt the book that the latest pricing round filled.
    pub fn set_nft_markets(&mut self, book: MarketBook)
        requires
            old(self).wf(),
            book.wf(),
            book_inds_below(book.view(), old(self).marketplaces().len()),
            book_inds_own(book.view(), old(self).marketplaces()),
        ensures
            final(self).wf(),
            final(self).nft_markets == book,
            final(self).marketplaces() == old(self).marketplaces(),
            final(self).full_update == old(self).full_update,
            final(self).last_updated_block == old(self).last_updated_block,
    {
        self.nft_markets = book;
    }

    /// A copy of the current book, to price into.
    pub fn markets_snapshot(&self) -> (r: MarketBook)
        requires
            self.wf(),
        ensures
            r.wf(),
            r.view() == self.nft_markets.view(),
            book_inds_below(r.view(), self.marketplaces().len()),
            book_inds_own(r.view(), self.marketplaces()),
    {
        let mut r = MarketBook::new();
        let mut i: usize = 0;
        while i < self.nft_markets.nfts.len()
            invariant
                self.wf(),
                i <= self.nft_markets.nfts.len(),
                r.wf(),
                r.view() == Map::new(
                    |k: Seq<u8>| self.nft_markets.keys().take(i as int).contains(k),
                    |k: Seq<u8>| self.nft_markets.view()[k],
                ),
            decreases self.nft_markets.nfts.len() - i,
        {
            assert(self.nft_markets.markets[i as int].wf());
            let m = self.nft_markets.markets[i].duplicate();
            let ghost before = r.view();
            r.insert(&self.nft_markets.nfts[i], m);
            proof {
                let keys = self.nft_markets.keys();
                let k0 = keys[i as int];
                self.nft_markets.lemma_index_pub(i as int);
                let t0 = keys.take(i as int);
                let t1 = keys.take(i + 1);
                assert(t1 =~= t0.push(k0));
                assert forall|k: Seq<u8>| t1.contains(k) <==> (t0.contains(k) || k == k0) by {
                    if t1.contains(k) {
                        let q = choose|q: int| 0 <= q < t1.len() && t1[q] == k;
                        if q < i {
                            assert(t0[q] == k);
                        }
                    }
                    if t0.contains(k) {
                        let q = choose|q: int| 0 <= q < t0.len() && t0[q] == k;
                        assert(t1[q] == k);
                    }
                    if k == k0 {
                        assert(t1[i as int] == k);
                    }
                }
                assert(r.view() =~= Map::new(
                    |k: Seq<u8>| keys.take(i + 1).contains(k),
                    |k: Seq<u8>| self.nft_markets.view()[k],
                ));
            }
            i = i + 1;
        }
        proof {
            assert(self.nft_markets.keys().take(i as int) =~= self.nft_markets.keys());
            assert(r.view() =~= self.nft_markets.view());
        }
        r
    }
}

} // verus!
