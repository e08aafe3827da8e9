//! Decision logic of an NFT arbitrage searcher: price bookkeeping across
//! marketplaces, arbitrage detection and ranking, trade planning, and the
//! arithmetic on 256-bit wei amounts that all of it rests on.

pub mod uint;
pub mod address;
pub mod market;
pub mod marketplace;
pub mod bot;
pub mod search;
pub mod blocks;
pub mod calls;
pub mod pricing;
pub mod looks;
pub mod events;
pub mod state_diff;
