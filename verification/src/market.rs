//! Best quotes per NFT collection across marketplaces.

use vstd::prelude::*;
use crate::address::{Address, address_views};
use crate::uint::U256;

verus! {

/// A quote as a number, if there is one.
pub open spec fn opt_value(q: Option<U256>) -> Option<nat> {
    match q {
        Some(v) => Some(v.value()),
        None => None,
    }
}

/// The quote part of a (quote, marketplace index) pair, if there is one.
pub open spec fn quote_of(q: Option<(nat, nat)>) -> Option<nat> {
    match q {
        Some(p) => Some(p.0),
        None => None,
    }
}

/// The best buy quote after `ind` offers `price`: a strictly lower price
/// replaces the current one, and the first offer of a price keeps its place.
pub open spec fn better_buy(cur: Option<(nat, nat)>, ind: nat, price: Option<nat>) -> Option<(nat, nat)> {
    match price {
        None => cur,
        Some(p) => match cur {
            None => Some((p, ind)),
            Some(c) => if p < c.0 { Some((p, ind)) } else { cur },
        },
    }
}

/// The best sell quote after `ind` offers `price`: a strictly higher price
/// replaces the current one.
pub open spec fn better_sell(cur: Option<(nat, nat)>, ind: nat, price: Option<nat>) -> Option<(nat, nat)> {
    match price {
        None => cur,
        Some(p) => match cur {
            None => Some((p, ind)),
            Some(c) => if p > c.0 { Some((p, ind)) } else { cur },
        },
    }
}

/// `inds` with `ind` added, as a set without repeats kept in insertion order.
pub open spec fn add_ind(inds: Seq<nat>, ind: nat) -> Seq<nat> {
    if inds.contains(ind) { inds } else { inds.push(ind) }
}

/// What an `NFTMarket` records: the lowest price to buy one NFT of the
/// collection and the highest price to sell one, each with the index of the
/// marketplace that quoted it, and every marketplace that quoted at all.
pub struct MarketView {
    pub buy: Option<(nat, nat)>,
    pub sell: Option<(nat, nat)>,
    pub inds: Seq<nat>,
}

impl MarketView {
    /// A market nobody has quoted yet.
    pub open spec fn empty() -> MarketView {
        MarketView { buy: None, sell: None, inds: Seq::empty() }
    }

    /// The market after marketplace `ind` quoted `buy` and `sell`.
    pub open spec fn record(self, ind: nat, buy: Option<nat>, sell: Option<nat>) -> MarketView {
        MarketView {
            buy: better_buy(self.buy, ind, buy),
            sell: better_sell(self.sell, ind, sell),
            inds: add_ind(self.inds, ind),
        }
    }
}

/// One marketplace's answer: its index, its buy price and its sell price.
pub type QuoteUpdate = (nat, Option<nat>, Option<nat>);

/// The market after the answers `updates`, taken in order.
pub open spec fn record_all(m: MarketView, updates: Seq<QuoteUpdate>) -> MarketView
    decreases updates.len(),
{
    if updates.len() == 0 {
        m
    } else {
        let last = updates.last();
        record_all(m, updates.drop_last()).record(last.0, last.1, last.2)
    }
}

/// Quotes are gathered concurrently and answers arrive in any order: two
/// answers recorded in either order leave the same best buy price, the same
/// best sell price and the same set of quoting marketplaces.
pub proof fn law_record_order_irrelevant(
    m: MarketView,
    i: nat,
    b1: Option<nat>,
    s1: Option<nat>,
    j: nat,
    b2: Option<nat>,
    s2: Option<nat>,
)
    ensures
        quote_of(m.record(i, b1, s1).record(j, b2, s2).buy) == quote_of(
            m.record(j, b2, s2).record(i, b1, s1).buy,
        ),
        quote_of(m.record(i, b1, s1).record(j, b2, s2).sell) == quote_of(
            m.record(j, b2, s2).record(i, b1, s1).sell,
        ),
        m.record(i, b1, s1).record(j, b2, s2).inds.to_set() == m.record(j, b2, s2).record(
            i,
            b1,
            s1,
        ).inds.to_set(),
{
    let x = m.record(i, b1, s1).record(j, b2, s2).inds;
    let y = m.record(j, b2, s2).record(i, b1, s1).inds;
    assert forall|k: nat| x.contains(k) <==> y.contains(k) by {
        assert(x.contains(k) <==> (m.inds.contains(k) || k == i || k == j)) by {
            let a = add_ind(m.inds, i);
            if !m.inds.contains(i) {
                assert(a == m.inds.push(i));
                assert(a[a.len() - 1] == i);
                assert forall|t: nat| m.inds.contains(t) implies a.contains(t) by {
                    let q = choose|q: int| 0 <= q < m.inds.len() && m.inds[q] == t;
                    assert(a[q] == t);
                }
                assert forall|t: nat| a.contains(t) implies m.inds.contains(t) || t == i by {
                    let q = choose|q: int| 0 <= q < a.len() && a[q] == t;
                    if q < m.inds.len() { assert(m.inds[q] == t); }
                }
            }
            if !a.contains(j) {
                let b = a.push(j);
                assert(b[b.len() - 1] == j);
                assert forall|t: nat| a.contains(t) implies b.contains(t) by {
                    let q = choose|q: int| 0 <= q < a.len() && a[q] == t;
                    assert(b[q] == t);
                }
                assert forall|t: nat| b.contains(t) implies a.contains(t) || t == j by {
                    let q = choose|q: int| 0 <= q < b.len() && b[q] == t;
                    if q < a.len() { assert(a[q] == t); }
                }
            }
        }
        assert(y.contains(k) <==> (m.inds.contains(k) || k == i || k == j)) by {
            let a = add_ind(m.inds, j);
            if !m.inds.contains(j) {
                assert(a == m.inds.push(j));
                assert(a[a.len() - 1] == j);
                assert forall|t: nat| m.inds.contains(t) implies a.contains(t) by {
                    let q = choose|q: int| 0 <= q < m.inds.len() && m.inds[q] == t;
                    assert(a[q] == t);
                }
                assert forall|t: nat| a.contains(t) implies m.inds.contains(t) || t == j by {
                    let q = choose|q: int| 0 <= q < a.len() && a[q] == t;
                    if q < m.inds.len() { assert(m.inds[q] == t); }
                }
            }
            if !a.contains(i) {
                let b = a.push(i);
                assert(b[b.len() - 1] == i);
                assert forall|t: nat| a.contains(t) implies b.contains(t) by {
                    let q = choose|q: int| 0 <= q < a.len() && a[q] == t;
                    assert(b[q] == t);
                }
                assert forall|t: nat| b.contains(t) implies a.contains(t) || t == i by {
                    let q = choose|q: int| 0 <= q < b.len() && b[q] == t;
                    if q < a.len() { assert(a[q] == t); }
                }
            }
        }
    }
    assert(x.to_set() =~= y.to_set());
}

/// After any sequence of answers, the best buy price is at most every buy
/// price offered, and it is either the price the market started with or one
/// that was offered, by the marketplace recorded beside it. The same holds of
/// the best sell price, as a maximum.
pub proof fn law_best_quotes_are_extremes(m: MarketView, updates: Seq<QuoteUpdate>)
    ensures
        forall|k: int|
            0 <= k < updates.len() && (#[trigger] updates[k]).1 is Some ==> {
                &&& record_all(m, updates).buy is Some
                &&& record_all(m, updates).buy.unwrap().0 <= updates[k].1->0
            },
        forall|k: int|
            0 <= k < updates.len() && (#[trigger] updates[k]).2 is Some ==> {
                &&& record_all(m, updates).sell is Some
                &&& record_all(m, updates).sell.unwrap().0 >= updates[k].2->0
            },
        m.buy is Some ==> record_all(m, updates).buy is Some && record_all(m, updates).buy.unwrap().0
            <= m.buy.unwrap().0,
        m.sell is Some ==> record_all(m, updates).sell is Some && record_all(m, updates).sell.unwrap().0
            >= m.sell.unwrap().0,
        record_all(m, updates).buy is Some ==> record_all(m, updates).buy == m.buy || exists|k: int|
            0 <= k < updates.len() && (#[trigger] updates[k]).1 == Some(
                record_all(m, updates).buy.unwrap().0,
            ) && updates[k].0 == record_all(m, updates).buy.unwrap().1,
        record_all(m, updates).sell is Some ==> record_all(m, updates).sell == m.sell || exists|
            k: int,
        |
            0 <= k < updates.len() && (#[trigger] updates[k]).2 == Some(
                record_all(m, updates).sell.unwrap().0,
            ) && updates[k].0 == record_all(m, updates).sell.unwrap().1,
    decreases updates.len(),
{
    if updates.len() > 0 {
        let prefix = updates.drop_last();
        law_best_quotes_are_extremes(m, prefix);
        let r = record_all(m, updates);
        let p = record_all(m, prefix);
        assert(r == p.record(updates.last().0, updates.last().1, updates.last().2));
        assert forall|k: int| 0 <= k < prefix.len() implies #[trigger] updates[k] == prefix[k] by {}
        if r.buy is Some && r.buy != m.buy {
            if r.buy == p.buy {
                let k = choose|k: int|
                    0 <= k < prefix.len() && (#[trigger] prefix[k]).1 == Some(p.buy.unwrap().0)
                        && prefix[k].0 == p.buy.unwrap().1;
                assert(updates[k] == prefix[k]);
            } else {
                assert(updates[updates.len() - 1] == updates.last());
            }
        }
        if r.sell is Some && r.sell != m.sell {
            if r.sell == p.sell {
                let k = choose|k: int|
                    0 <= k < prefix.len() && (#[trigger] prefix[k]).2 == Some(p.sell.unwrap().0)
                        && prefix[k].0 == p.sell.unwrap().1;
                assert(updates[k] == prefix[k]);
            } else {
                assert(updates[updates.len() - 1] == updates.last());
            }
        }
        assert forall|k: int|
            0 <= k < updates.len() && (#[trigger] updates[k]).1 is Some implies {
                &&& r.buy is Some
                &&& r.buy.unwrap().0 <= updates[k].1->0
            } by {
            if k < prefix.len() {
                assert(updates[k] == prefix[k]);
            }
        }
        assert forall|k: int|
            0 <= k < updates.len() && (#[trigger] updates[k]).2 is Some implies {
                &&& r.sell is Some
                &&& r.sell.unwrap().0 >= updates[k].2->0
            } by {
            if k < prefix.len() {
                assert(updates[k] == prefix[k]);
            }
        }
    }
}

/// The best quotes for one NFT collection.
#[derive(Debug)]
pub struct NFTMarket {
    pub best_buy_quote: Option<U256>,
    pub best_sell_quote: Option<U256>,
    pub buy_marketplace_ind: Option<usize>,
    pub sell_marketplace_ind: Option<usize>,
    pub all_marketplace_inds: Vec<usize>,
}

impl NFTMarket {
    /// A quote and the marketplace behind it go together, and the marketplaces
    /// are kept without repeats and include the two behind the quotes.
    pub open spec fn wf(&self) -> bool {
        &&& self.best_buy_quote.is_some() == self.buy_marketplace_ind.is_some()
        &&& self.best_sell_quote.is_some() == self.sell_marketplace_ind.is_some()
        &&& self.all_marketplace_inds@.no_duplicates()
        &&& (self.buy_marketplace_ind matches Some(i) ==> self.all_marketplace_inds@.contains(i))
        &&& (self.sell_marketplace_ind matches Some(i) ==> self.all_marketplace_inds@.contains(i))
    }

    pub open spec fn view(&self) -> MarketView {
        MarketView {
            buy: match (self.best_buy_quote, self.buy_marketplace_ind) {
                (Some(q), Some(i)) => Some((q.value(), i as nat)),
                _ => None,
            },
            sell: match (self.best_sell_quote, self.sell_marketplace_ind) {
                (Some(q), Some(i)) => Some((q.value(), i as nat)),
                _ => None,
            },
            inds: self.all_marketplace_inds@.map_values(|i: usize| i as nat),
        }
    }

    /// A market nobody has quoted yet: no ask, no bid, no marketplace.
    pub fn new() -> (r: NFTMarket)
        ensures
            r.wf(),
            r.view() == MarketView::empty(),
    {
        let r = NFTMarket {
            best_buy_quote: None,
            best_sell_quote: None,
            buy_marketplace_ind: None,
            sell_marketplace_ind: None,
            all_marketplace_inds: Vec::new(),
        };
        assert(r.view().inds =~= Seq::<nat>::empty());
        r
    }

    /// A copy with the same quotes and marketplaces.
    pub fn duplicate(&self) -> (r: NFTMarket)
        ensures
            r.view() == self.view(),
            self.wf() ==> r.wf(),
    {
        NFTMarket {
            best_buy_quote: self.best_buy_quote,
            best_sell_quote: self.best_sell_quote,
            buy_marketplace_ind: self.buy_marketplace_ind,
            sell_marketplace_ind: self.sell_marketplace_ind,
            all_marketplace_inds: self.all_marketplace_inds.clone(),
        }
    }

    /// Record that marketplace `marketplace_ind` quotes `buy_price` to buy one
    /// NFT and `sell_price` to sell one: a lower buy price or a higher sell
    /// price than the best so far takes its place.
    pub fn record_quotes(
        &mut self,
        marketplace_ind: usize,
        buy_price: Option<U256>,
        sell_price: Option<U256>,
    )
        requires
            old(self).wf(),
        ensures
            final(self).wf(),
            final(self).view() == old(self).view().record(
                marketplace_ind as nat,
                opt_value(buy_price),
                opt_value(sell_price),
            ),
    {
        let ghost old_inds = self.all_marketplace_inds@;
        let mut found = false;
        let mut k: usize = 0;
        while k < self.all_marketplace_inds.len()
            invariant
                self.all_marketplace_inds@ == old_inds,
                k <= old_inds.len(),
                !found ==> forall|j: int| 0 <= j < k ==> old_inds[j] != marketplace_ind,
                found ==> old_inds.contains(marketplace_ind),
            decreases old_inds.len() - k,
        {
            if self.all_marketplace_inds[k] == marketplace_ind {
                found = true;
            }
            k = k + 1;
        }
        proof {
            let f = |i: usize| i as nat;
            if found {
                let j = choose|j: int| 0 <= j < old_inds.len() && old_inds[j] == marketplace_ind;
                assert(old_inds.map_values(f)[j] == marketplace_ind as nat);
            } else {
                assert forall|j: int| 0 <= j < old_inds.len() implies old_inds.map_values(f)[j]
                    != marketplace_ind as nat by {}
            }
        }
        if !found {
            self.all_marketplace_inds.push(marketplace_ind);
            proof {
                assert(self.all_marketplace_inds@.map_values(|i: usize| i as nat)
                    =~= old_inds.map_values(|i: usize| i as nat).push(marketplace_ind as nat));
                assert(self.all_marketplace_inds@[old_inds.len() as int] == marketplace_ind);
            }
        }
        assert(self.all_marketplace_inds@.contains(marketplace_ind));
        if let Some(new_price) = buy_price {
            if let Some(current_price) = self.best_buy_quote {
                if new_price.lt(&current_price) {
                    self.best_buy_quote = Some(new_price);
                    self.buy_marketplace_ind = Some(marketplace_ind);
                }
            } else {
                self.best_buy_quote = Some(new_price);
                self.buy_marketplace_ind = Some(marketplace_ind);
            }
        }
        if let Some(new_price) = sell_price {
            if let Some(current_price) = self.best_sell_quote {
                if new_price.gt(&current_price) {
                    self.best_sell_quote = Some(new_price);
                    self.sell_marketplace_ind = Some(marketplace_ind);
                }
            } else {
                self.best_sell_quote = Some(new_price);
                self.sell_marketplace_ind = Some(marketplace_ind);
            }
        }
        proof {
            if let Some(i) = old(self).buy_marketplace_ind {
                assert(old_inds.contains(i));
                if !found {
                    let j = choose|j: int| 0 <= j < old_inds.len() && old_inds[j] == i;
                    assert(self.all_marketplace_inds@[j] == i);
                }
            }
            if let Some(i) = old(self).sell_marketplace_ind {
                assert(old_inds.contains(i));
                if !found {
                    let j = choose|j: int| 0 <= j < old_inds.len() && old_inds[j] == i;
                    assert(self.all_marketplace_inds@[j] == i);
                }
            }
        }
    }
}

/// An arbitrage opportunity: buy one NFT of a collection where it is cheapest
/// and sell it where it fetches most.
#[derive(Debug, Clone, Copy)]
pub struct ArbInfo {
    pub block_number: u64,
    pub inds: (usize, usize),
    pub quotes: (U256, U256),
    pub delta: U256,
    pub nft_address: Address,
    pub breakeven_gas_price: Option<U256>,
}

/// What an `ArbInfo` says.
pub struct ArbView {
    pub block_number: nat,
    pub buy_ind: nat,
    pub sell_ind: nat,
    pub buy_quote: nat,
    pub sell_quote: nat,
    pub delta: nat,
    pub nft: Seq<u8>,
    pub breakeven_gas_price: Option<nat>,
}

impl ArbInfo {
    pub open spec fn view(&self) -> ArbView {
        ArbView {
            block_number: self.block_number as nat,
            buy_ind: self.inds.0 as nat,
            sell_ind: self.inds.1 as nat,
            buy_quote: self.quotes.0.value(),
            sell_quote: self.quotes.1.value(),
            delta: self.delta.value(),
            nft: self.nft_address@,
            breakeven_gas_price: opt_value(self.breakeven_gas_price),
        }
    }
}

impl ArbInfo {
    /// Merge in a newer sighting of the same opportunity; the searcher keeps
    /// the opportunity as it is.
    pub fn update(&mut self, _new: ArbInfo)
        ensures
            *final(self) == *old(self),
    {
    }
}

/// The views of a list of arbitrage opportunities.
pub open spec fn arb_views(arbs: Seq<ArbInfo>) -> Seq<ArbView> {
    arbs.map_values(|a: ArbInfo| a.view())
}

/// The opportunity in one collection's market, if its best sell price exceeds
/// its best buy price: buy at the best buy quote, sell at the best sell quote,
/// and gain the difference.
pub open spec fn arb_of(nft: Seq<u8>, m: MarketView, block_number: nat) -> Option<ArbView> {
    match (m.buy, m.sell) {
        (Some(b), Some(s)) => if s.0 > b.0 {
            Some(
                ArbView {
                    block_number,
                    buy_ind: b.1,
                    sell_ind: s.1,
                    buy_quote: b.0,
                    sell_quote: s.0,
                    delta: (s.0 - b.0) as nat,
                    nft,
                    breakeven_gas_price: None,
                },
            )
        } else {
            None
        },
        _ => None,
    }
}

/// The opportunities of all markets, in the order of the markets.
pub open spec fn arbs_of(nfts: Seq<Seq<u8>>, markets: Seq<MarketView>, block_number: nat) -> Seq<ArbView>
    decreases nfts.len(),
{
    if nfts.len() == 0 || markets.len() == 0 {
        Seq::empty()
    } else {
        let rest = arbs_of(nfts.drop_last(), markets.drop_last(), block_number);
        match arb_of(nfts.last(), markets.last(), block_number) {
            Some(a) => rest.push(a),
            None => rest,
        }
    }
}

/// The markets of all NFT collections seen so far, one per collection.
pub struct MarketBook {
    pub nfts: Vec<Address>,
    pub markets: Vec<NFTMarket>,
}

impl MarketBook {
    /// One market per collection, each well formed.
    pub open spec fn wf(&self) -> bool {
        &&& self.nfts.len() == self.markets.len()
        &&& address_views(self.nfts@).no_duplicates()
        &&& forall|i: int| 0 <= i < self.markets.len() ==> (#[trigger] self.markets[i]).wf()
    }

    /// The collections, in the book's order.
    pub open spec fn keys(&self) -> Seq<Seq<u8>> {
        address_views(self.nfts@)
    }

    /// The markets, in the book's order.
    pub open spec fn market_views(&self) -> Seq<MarketView> {
        self.markets@.map_values(|m: NFTMarket| m.view())
    }

    /// The market of each collection.
    pub open spec fn view(&self) -> Map<Seq<u8>, MarketView> {
        Map::new(
            |k: Seq<u8>| self.keys().contains(k),
            |k: Seq<u8>| self.markets[self.keys().index_of(k)].view(),
        )
    }

    /// The market of a collection, or an empty one if there is none yet.
    pub open spec fn market_or_empty(&self, nft: Seq<u8>) -> MarketView {
        if self.view().contains_key(nft) {
            self.view()[nft]
        } else {
            MarketView::empty()
        }
    }

    /// An empty book.
    pub fn new() -> (r: MarketBook)
        ensures
            r.wf(),
            r.view() == Map::<Seq<u8>, MarketView>::empty(),
    {
        let r = MarketBook { nfts: Vec::new(), markets: Vec::new() };
        assert(r.keys() =~= Seq::<Seq<u8>>::empty());
        assert(r.view() =~= Map::<Seq<u8>, MarketView>::empty());
        r
    }

    /// The number of collections.
    pub fn len(&self) -> (r: usize)
        requires
            self.wf(),
        ensures
            r == self.view().dom().len(),
    {
        proof { self.lemma_dom_len(); }
        self.nfts.len()
    }

    proof fn lemma_index(&self, i: int)
        requires
            self.wf(),
            0 <= i < self.nfts.len(),
        ensures
            self.keys().index_of(self.keys()[i]) == i,
            self.view().contains_key(self.keys()[i]),
            self.view()[self.keys()[i]] == self.markets[i].view(),
    {
        let k = self.keys()[i];
        assert(self.keys().contains(k));
        let j = self.keys().index_of(k);
        assert(self.keys()[j] == k);
    }

    /// The `i`-th collection of the book maps to the `i`-th market.
    pub proof fn lemma_index_pub(&self, i: int)
        requires
            self.wf(),
            0 <= i < self.nfts.len(),
        ensures
            self.view().contains_key(self.keys()[i]),
            self.view()[self.keys()[i]] == self.markets[i].view(),
    {
        self.lemma_index(i);
    }

    proof fn lemma_dom_len(&self)
        requires
            self.wf(),
        ensures
            self.view().dom() == self.keys().to_set(),
            self.view().dom().len() == self.nfts.len(),
    {
        assert(self.view().dom() =~= self.keys().to_set());
        self.keys().unique_seq_to_set();
    }

    /// The position of a collection in the book.
    fn find(&self, nft: &Address) -> (r: Option<usize>)
        requires
            self.wf(),
        ensures
            r matches Some(i) ==> i < self.nfts.len() && self.keys()[i as int] == nft@,
            r is None ==> !self.keys().contains(nft@),
    {
        let mut i: usize = 0;
        while i < self.nfts.len()
            invariant
                self.wf(),
                i <= self.nfts.len(),
                forall|j: int| 0 <= j < i ==> self.keys()[j] != nft@,
            decreases self.nfts.len() - i,
        {
            if self.nfts[i].same(nft) {
                return Some(i);
            }
            i = i + 1;
        }
        proof {
            assert forall|j: int| 0 <= j < self.keys().len() implies self.keys()[j] != nft@ by {}
        }
        None
    }

    /// The marketplaces that have quoted for a collection (none if the book
    /// does not know it).
    pub fn marketplace_inds(&self, nft: &Address) -> (r: Vec<usize>)
        requires
            self.wf(),
        ensures
            r@.map_values(|i: usize| i as nat) == self.market_or_empty(nft@).inds,
            r@.no_duplicates(),
    {
        match self.find(nft) {
            Some(i) => {
                proof { self.lemma_index(i as int); }
                assert(self.markets[i as int].wf());
                self.markets[i].all_marketplace_inds.clone()
            },
            None => {
                let r: Vec<usize> = Vec::new();
                assert(r@.map_values(|i: usize| i as nat) =~= Seq::<nat>::empty());
                r
            },
        }
    }

    /// Whether the book has a market for the collection, and its quotes.
    pub fn get(&self, nft: &Address) -> (r: Option<&NFTMarket>)
        requires
            self.wf(),
        ensures
            r is Some == self.view().contains_key(nft@),
            r matches Some(m) ==> m.view() == self.view()[nft@] && m.wf(),
    {
        match self.find(nft) {
            Some(i) => {
                proof { self.lemma_index(i as int); }
                Some(&self.markets[i])
            },
            None => None,
        }
    }

    /// Put `market` in place of whatever the book holds for `nft`.
    pub fn insert(&mut self, nft: &Address, market: NFTMarket)
        requires
            old(self).wf(),
            market.wf(),
        ensures
            final(self).wf(),
            final(self).view() == old(self).view().insert(nft@, market.view()),
    {
        let ghost mv = market.view();
        match self.find(nft) {
            Some(i) => {
                let mut m = market;
                self.markets.set_and_swap(i, &mut m);
                proof {
                    assert(self.keys() == old(self).keys());
                    assert forall|j: int| 0 <= j < self.markets.len() implies (
                    #[trigger] self.markets[j]).wf() by {
                        if j != i {
                            assert(self.markets[j] == old(self).markets[j]);
                        }
                    }
                    assert forall|k: Seq<u8>| #[trigger]
                        self.view().contains_key(k) <==> old(self).view().insert(
                            nft@,
                            mv,
                        ).contains_key(k) by {
                        if k == nft@ {
                            assert(self.keys()[i as int] == k);
                        }
                    }
                    assert forall|k: Seq<u8>| #[trigger]
                        self.view().contains_key(k) implies self.view()[k] == old(
                            self,
                        ).view().insert(nft@, mv)[k] by {
                        let j = self.keys().index_of(k);
                        self.lemma_index(j);
                        old(self).lemma_index(j);
                        if j == i {
                        } else {
                            assert(self.markets[j] == old(self).markets[j]);
                            assert(k != nft@);
                        }
                    }
                    assert(self.view() =~= old(self).view().insert(nft@, mv));
                }
            },
            None => {
                self.nfts.push(*nft);
                self.markets.push(market);
                proof {
                    let n = old(self).nfts.len() as int;
                    assert(self.keys() =~= old(self).keys().push(nft@));
                    assert forall|a: int, b: int|
                        0 <= a < b < self.keys().len() implies self.keys()[a] != self.keys()[b] by {
                        if b == n {
                            assert(old(self).keys()[a] != nft@);
                        }
                    }
                    assert forall|j: int| 0 <= j < self.markets.len() implies (
                    #[trigger] self.markets[j]).wf() by {
                        if j < n {
                            assert(self.markets[j] == old(self).markets[j]);
                        }
                    }
                    assert forall|k: Seq<u8>| #[trigger]
                        self.view().contains_key(k) <==> old(self).view().insert(
                            nft@,
                            mv,
                        ).contains_key(k) by {
                        if k == nft@ {
                            assert(self.keys()[n] == k);
                        }
                        if old(self).keys().contains(k) {
                            let j = old(self).keys().index_of(k);
                            assert(self.keys()[j] == k);
                        }
                        if self.keys().contains(k) && k != nft@ {
                            let j = self.keys().index_of(k);
                            assert(old(self).keys()[j] == k);
                        }
                    }
                    assert forall|k: Seq<u8>| #[trigger]
                        self.view().contains_key(k) implies self.view()[k] == old(
                            self,
                        ).view().insert(nft@, mv)[k] by {
                        let j = self.keys().index_of(k);
                        self.lemma_index(j);
                        if j < n {
                            old(self).lemma_index(j);
                            assert(self.markets[j] == old(self).markets[j]);
                        }
                    }
                    assert(self.view() =~= old(self).view().insert(nft@, mv));
                }
            },
        }
    }

    /// Record marketplace `marketplace_ind`'s quotes for a collection, starting
    /// an empty market for it if the book has none (`entry().or_default()`).
    pub fn record_quotes(
        &mut self,
        nft: &Address,
        marketplace_ind: usize,
        buy_price: Option<U256>,
        sell_price: Option<U256>,
    )
        requires
            old(self).wf(),
        ensures
            final(self).wf(),
            final(self).view() == old(self).view().insert(
                nft@,
                old(self).market_or_empty(nft@).record(
                    marketplace_ind as nat,
                    opt_value(buy_price),
                    opt_value(sell_price),
                ),
            ),
    {
        let mut m = match self.get(nft) {
            Some(m) => m.duplicate(),
            None => NFTMarket::new(),
        };
        m.record_quotes(marketplace_ind, buy_price, sell_price);
        self.insert(nft, m);
    }

    /// The arbitrage opportunities of the book at `block_number`: one for each
    /// collection whose best sell price exceeds its best buy price.
    pub fn find_arbs(&self, block_number: u64) -> (r: Vec<ArbInfo>)
        requires
            self.wf(),
        ensures
            arb_views(r@) == arbs_of(self.keys(), self.market_views(), block_number as nat),
    {
        let mut arbs: Vec<ArbInfo> = Vec::new();
        let mut i: usize = 0;
        while i < self.nfts.len()
            invariant
                self.wf(),
                i <= self.nfts.len(),
                arb_views(arbs@) == arbs_of(
                    self.keys().take(i as int),
                    self.market_views().take(i as int),
                    block_number as nat,
                ),
            decreases self.nfts.len() - i,
        {
            let market = &self.markets[i];
            assert(market.wf());
            let ghost before = arbs@;
            proof {
                assert(self.keys().take(i + 1).drop_last() =~= self.keys().take(i as int));
                assert(self.market_views().take(i + 1).drop_last() =~= self.market_views().take(
                    i as int,
                ));
                assert(self.keys().take(i + 1).last() == self.nfts[i as int]@);
                assert(self.market_views().take(i + 1).last() == market.view());
            }
            if let Some(sell_quote) = market.best_sell_quote {
                if let Some(buy_quote) = market.best_buy_quote {
                    if sell_quote.gt(&buy_quote) {
                        let delta = sell_quote.sub(&buy_quote);
                        let buy_market = market.buy_marketplace_ind.unwrap();
                        let sell_market = market.sell_marketplace_ind.unwrap();
                        let arb = ArbInfo {
                            delta,
                            block_number,
                            inds: (buy_market, sell_market),
                            quotes: (buy_quote, sell_quote),
                            nft_address: self.nfts[i],
                            breakeven_gas_price: None,
                        };
                        arbs.push(arb);
                        proof {
                            assert(arb_views(arbs@) =~= arb_views(before).push(arb.view()));
                        }
                    }
                }
            }
            i = i + 1;
        }
        proof {
            assert(self.keys().take(i as int) =~= self.keys());
            assert(self.market_views().take(i as int) =~= self.market_views());
        }
        arbs
    }
}

/// Largest gain first.
pub open spec fn sorted_by_delta_desc(arbs: Seq<ArbView>) -> bool {
    forall|i: int, j: int| 0 <= i < j < arbs.len() ==> arbs[i].delta >= arbs[j].delta
}

proof fn lemma_insert_multiset<A>(s: Seq<A>, p: int, x: A)
    requires
        0 <= p <= s.len(),
    ensures
        s.insert(p, x).to_multiset() =~= s.to_multiset().insert(x),
{
    broadcast use vstd::seq_lib::group_to_multiset_ensures;

    let t = s.insert(p, x);
    assert(t.remove(p) =~= s);
    assert(t[p] == x);
    assert(t.remove(p).to_multiset() =~= t.to_multiset().remove(x));
    assert(t.contains(x));
    assert(t.to_multiset().count(x) > 0);
}

/// The opportunities ordered by gain, largest first, as the searcher takes them
/// (`sort_unstable` then `rev`: among equal gains any order will do).
pub fn rank_arbs(arbs: &Vec<ArbInfo>) -> (r: Vec<ArbInfo>)
    ensures
        arb_views(r@).to_multiset() == arb_views(arbs@).to_multiset(),
        sorted_by_delta_desc(arb_views(r@)),
{
    broadcast use vstd::seq_lib::group_to_multiset_ensures;

    let mut out: Vec<ArbInfo> = Vec::new();
    let mut i: usize = 0;
    assert(arb_views(arbs@).take(0) =~= Seq::<ArbView>::empty());
    assert(arb_views(out@) =~= Seq::<ArbView>::empty());
    while i < arbs.len()
        invariant
            i <= arbs.len(),
            arb_views(out@).to_multiset() == arb_views(arbs@).take(i as int).to_multiset(),
            sorted_by_delta_desc(arb_views(out@)),
        decreases arbs.len() - i,
    {
        let x = arbs[i];
        let mut p: usize = 0;
        while p < out.len() && !out[p].delta.lt(&x.delta)
            invariant
                p <= out.len(),
                forall|j: int| 0 <= j < p ==> out@[j].delta.value() >= x.delta.value(),
            decreases out.len() - p,
        {
            p = p + 1;
        }
        let ghost before = out@;
        out.insert(p, x);
        proof {
            assert(out@ == before.insert(p as int, x));
            let bv = arb_views(before);
            assert(arb_views(out@) =~= bv.insert(p as int, x.view()));
            lemma_insert_multiset(bv, p as int, x.view());
            assert(arb_views(arbs@)[i as int] == x.view());
            assert(arb_views(arbs@).take(i + 1) =~= arb_views(arbs@).take(i as int).push(
                x.view(),
            ));
            arb_views(arbs@).take(i as int).to_multiset_ensures();
            assert(arb_views(arbs@).take(i as int).push(x.view()).to_multiset()
                =~= arb_views(arbs@).take(i as int).to_multiset().insert(x.view()));
            assert(arb_views(out@).to_multiset() =~= bv.to_multiset().insert(x.view()));
            let ov = arb_views(out@);
            assert forall|a: int, b: int| 0 <= a < b < ov.len() implies ov[a].delta
                >= ov[b].delta by {
                if b < p {
                    assert(ov[a] == bv[a] && ov[b] == bv[b]);
                } else if b == p {
                    assert(ov[a] == bv[a]);
                } else if a < p {
                    assert(ov[a] == bv[a] && ov[b] == bv[b - 1]);
                    if p < before.len() {
                        assert(bv[p as int].delta < x.delta.value());
                        assert(bv[a].delta >= bv[b - 1].delta);
                    }
                } else if a == p {
                    assert(ov[b] == bv[b - 1]);
                    assert(bv[p as int].delta < x.delta.value());
                    assert(bv[p as int].delta >= bv[b - 1].delta || b - 1 == p);
                } else {
                    assert(ov[a] == bv[a - 1] && ov[b] == bv[b - 1]);
                }
            }
        }
        i = i + 1;
    }
    assert(arb_views(arbs@).take(i as int) =~= arb_views(arbs@));
    out
}

/// The opportunities to take, largest gain first: all of them, or the first
/// `limit` (a pending transaction is backrun with at most five).
pub fn select_arbs(arbs: &Vec<ArbInfo>, limit: Option<usize>) -> (r: Vec<ArbInfo>)
    ensures
        sorted_by_delta_desc(arb_views(r@)),
        limit is None ==> arb_views(r@).to_multiset() == arb_views(arbs@).to_multiset(),
        limit matches Some(n) ==> r.len() == (if arbs.len() < n { arbs.len() as int } else { n as int }),
        exists|ranked: Seq<ArbInfo>|
            #![trigger ranked.len()]
            arb_views(ranked).to_multiset() == arb_views(arbs@).to_multiset() && sorted_by_delta_desc(
                arb_views(ranked),
            ) && r@ == ranked.take(r.len() as int),
{
    let mut ranked = rank_arbs(arbs);
    let ghost full = ranked@;
    assert(arb_views(full).to_multiset() == arb_views(arbs@).to_multiset());
    proof {
        arb_views(full).to_multiset_ensures();
        arb_views(arbs@).to_multiset_ensures();
        assert(full.len() == arbs.len());
    }
    assert(full.take(full.len() as int) =~= full);
    match limit {
        None => {
            assert(ranked@ == full);
            assert(arb_views(ranked@) == arb_views(full));
        },
        Some(n) => {
            ranked.truncate(n);
            proof {
                let v = arb_views(ranked@);
                assert(ranked@ =~= full.take(ranked.len() as int));
                assert forall|i: int, j: int| 0 <= i < j < v.len() implies v[i].delta >= v[j].delta by {
                    assert(v[i] == arb_views(full)[i]);
                    assert(v[j] == arb_views(full)[j]);
                }
            }
        },
    }
    ranked
}

/// A collection's market holds an opportunity exactly when it has both a best
/// buy and a best sell quote and the sell quote is higher; the opportunity
/// buys at the best buy quote from the marketplace that gave it, sells at the
/// best sell quote to the marketplace that gave that, and gains the
/// difference.
pub proof fn law_opportunity_of_a_market(nft: Seq<u8>, m: MarketView, block_number: nat)
    ensures
        arb_of(nft, m, block_number) is Some <==> (m.buy is Some && m.sell is Some && m.sell.unwrap().0
            > m.buy.unwrap().0),
        arb_of(nft, m, block_number) matches Some(a) ==> {
            &&& a.buy_quote == m.buy.unwrap().0
            &&& a.buy_ind == m.buy.unwrap().1
            &&& a.sell_quote == m.sell.unwrap().0
            &&& a.sell_ind == m.sell.unwrap().1
            &&& a.buy_quote + a.delta == a.sell_quote
            &&& a.nft == nft
            &&& a.block_number == block_number
        },
{
}

/// Every opportunity found gains something, at prices the book holds for its
/// collection; and every collection whose best sell price exceeds its best buy
/// price yields an opportunity.
pub proof fn law_arbs_are_exactly_the_crossed_markets(
    nfts: Seq<Seq<u8>>,
    markets: Seq<MarketView>,
    block_number: nat,
)
    requires
        nfts.len() == markets.len(),
    ensures
        forall|k: int|
            0 <= k < arbs_of(nfts, markets, block_number).len() ==> {
                let a = #[trigger] arbs_of(nfts, markets, block_number)[k];
                &&& a.delta > 0
                &&& a.delta == a.sell_quote - a.buy_quote
                &&& exists|j: int|
                    0 <= j < nfts.len() && nfts[j] == a.nft && arb_of(nfts[j], markets[j], block_number)
                        == Some(a)
            },
        forall|j: int|
            0 <= j < nfts.len() && (#[trigger] arb_of(nfts[j], markets[j], block_number)) is Some
                ==> arbs_of(nfts, markets, block_number).contains(
                arb_of(nfts[j], markets[j], block_number).unwrap(),
            ),
    decreases nfts.len(),
{
    if nfts.len() > 0 {
        let n1 = nfts.drop_last();
        let m1 = markets.drop_last();
        law_arbs_are_exactly_the_crossed_markets(n1, m1, block_number);
        let rest = arbs_of(n1, m1, block_number);
        let all = arbs_of(nfts, markets, block_number);
        let last = nfts.len() - 1;
        assert(nfts.last() == nfts[last]);
        assert(markets.last() == markets[last]);
        assert forall|k: int| 0 <= k < all.len() implies {
            let a = #[trigger] all[k];
            &&& a.delta > 0
            &&& a.delta == a.sell_quote - a.buy_quote
            &&& exists|j: int|
                0 <= j < nfts.len() && nfts[j] == a.nft && arb_of(nfts[j], markets[j], block_number)
                    == Some(a)
        } by {
            if k < rest.len() {
                assert(all[k] == rest[k]);
                let a = rest[k];
                let j = choose|j: int|
                    0 <= j < n1.len() && n1[j] == a.nft && arb_of(n1[j], m1[j], block_number)
                        == Some(a);
                assert(nfts[j] == n1[j] && markets[j] == m1[j]);
            } else {
                assert(arb_of(nfts[last], markets[last], block_number) == Some(all[k]));
            }
        }
        assert forall|j: int|
            0 <= j < nfts.len() && (#[trigger] arb_of(nfts[j], markets[j], block_number)) is Some
                implies all.contains(arb_of(nfts[j], markets[j], block_number).unwrap()) by {
            if j < last {
                assert(nfts[j] == n1[j] && markets[j] == m1[j]);
                assert(arb_of(n1[j], m1[j], block_number) is Some);
                let x = arb_of(n1[j], m1[j], block_number).unwrap();
                assert(rest.contains(x));
                let q = choose|q: int| 0 <= q < rest.len() && rest[q] == x;
                assert(all[q] == x);
            } else {
                assert(all[all.len() - 1] == arb_of(nfts[j], markets[j], block_number).unwrap());
            }
        }
    }
}

} // verus!
