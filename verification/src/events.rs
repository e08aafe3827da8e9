//! The factory events that announce new marketplaces.

use vstd::prelude::*;
use crate::address::Address;
use crate::uint::U256;

verus! {

/// A new NFTX vault.
#[derive(Clone, Copy, Debug)]
pub struct NFTxNewVaultEvent {
    pub vault_address: Address,
    pub vault_id: U256,
    pub nft_address: Address,
}

/// A new sudoswap pair.
#[derive(Clone, Copy, Debug)]
pub struct SudoNewPairEvent {
    pub pool_address: Address,
}

/// An event that announces a marketplace.
#[derive(Clone, Copy, Debug)]
pub enum Event {
    SudoNewPair(SudoNewPairEvent),
    NFTxNewVault(NFTxNewVaultEvent),
}

impl NFTxNewVaultEvent {
    /// The event for an NFTX factory `NewVault` log: the vault, its id and the
    /// collection it holds (the log's asset address).
    pub fn from_new_vault_filter(vault_address: Address, vault_id: U256, asset_address: Address) -> (r: Event)
        ensures
            r == Event::NFTxNewVault(
                NFTxNewVaultEvent { vault_address, vault_id, nft_address: asset_address },
            ),
    {
        Event::NFTxNewVault(NFTxNewVaultEvent { vault_address, vault_id, nft_address: asset_address })
    }
}

impl SudoNewPairEvent {
    /// The event for a sudoswap factory `NewPair` log.
    pub fn from_new_pair_filter(pool_address: Address) -> (r: Event)
        ensures
            r == Event::SudoNewPair(SudoNewPairEvent { pool_address }),
    {
        Event::SudoNewPair(SudoNewPairEvent { pool_address })
    }
}

} // verus!
