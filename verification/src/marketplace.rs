//! The marketplaces where NFTs are bought and sold, as the searcher keeps them.

use vstd::prelude::*;
use crate::address::Address;

verus! {

/// What a sudoswap pool trades: tokens for NFTs, NFTs for tokens, or both.
#[derive(Clone, Copy, Debug, PartialEq, Eq, Structural)]
pub enum PoolType {
    Token,
    NFT,
    Trade,
}

/// Which kind of sudoswap pair contract: one priced in ETH or in an ERC20.
#[derive(Clone, Copy, Debug, PartialEq, Eq, Structural)]
pub enum SudoContract {
    ETH,
    ERC20,
}

/// A sudoswap pool.
#[derive(Clone, Copy, Debug)]
pub struct SudoPool {
    pub pool_address: Address,
    pub pool_type: PoolType,
    pub pair_variant: u8,
    pub contract: SudoContract,
}

/// An NFTX vault.
#[derive(Clone, Copy, Debug)]
pub struct NFTxVault {
    pub vault_address: Address,
}

/// A LooksRare order as the orderbook API returns it, with the fields that
/// pricing and order matching read.
#[derive(Clone, Debug)]
pub struct LooksQuote {
    pub collection_address: Address,
    pub token_id: Option<String>,
    pub is_order_ask: bool,
    pub signer: Address,
    pub strategy: Address,
    pub currency_address: Address,
    pub amount: u64,
    pub price: String,
    pub nonce: String,
    pub start_time: u64,
    pub end_time: u64,
    pub min_percentage_to_ask: u64,
    pub params: Option<String>,
    pub v: u64,
    pub r: [u8; 32],
    pub s: [u8; 32],
}

/// The kind of a marketplace, with what identifies it.
#[derive(Clone, Debug)]
pub enum MarketType {
    Sudo(SudoPool),
    Looks(LooksQuote),
    NFTx(NFTxVault),
}

/// A marketplace for one NFT collection.
#[derive(Clone, Debug)]
pub struct Marketplace {
    pub market_type: MarketType,
    pub nft_address: Address,
}

impl Marketplace {
    /// The address through which the marketplace trades: the pool, the
    /// collection of a LooksRare order, or the vault.
    pub open spec fn spec_contract_address(&self) -> Seq<u8> {
        match self.market_type {
            MarketType::Sudo(pool) => pool.pool_address@,
            MarketType::Looks(quote) => quote.collection_address@,
            MarketType::NFTx(vault) => vault.vault_address@,
        }
    }

    /// Whether the marketplace is a sudoswap pool.
    pub open spec fn is_sudo(&self) -> bool {
        self.market_type is Sudo
    }

    /// Whether the marketplace is an NFTX vault.
    pub open spec fn is_nftx(&self) -> bool {
        self.market_type is NFTx
    }

    /// The address through which the marketplace trades.
    pub fn contract_address(&self) -> (r: Address)
        ensures
            r@ == self.spec_contract_address(),
            self.market_type matches MarketType::Sudo(pool) ==> r == pool.pool_address,
            self.market_type matches MarketType::Looks(quote) ==> r == quote.collection_address,
            self.market_type matches MarketType::NFTx(vault) ==> r == vault.vault_address,
    {
        match &self.market_type {
            MarketType::Sudo(pool) => pool.pool_address,
            MarketType::Looks(quote) => quote.collection_address,
            MarketType::NFTx(vault) => vault.vault_address,
        }
    }

    /// Whether this is a sudoswap pool.
    pub fn sudo(&self) -> (r: bool)
        ensures
            r == self.is_sudo(),
            r <==> self.market_type matches MarketType::Sudo(_),
    {
        match &self.market_type {
            MarketType::Sudo(_) => true,
            _ => false,
        }
    }

    /// Whether this is an NFTX vault.
    pub fn nftx(&self) -> (r: bool)
        ensures
            r == self.is_nftx(),
            r <==> self.market_type matches MarketType::NFTx(_),
    {
        match &self.market_type {
            MarketType::NFTx(_) => true,
            _ => false,
        }
    }
}

/// Sudoswap pair variants 0 and 1 are the pairs priced in ETH; only those are
/// followed.
pub fn is_eth_pair_variant(pair_variant: u8) -> (r: bool)
    ensures
        r == (pair_variant == 0 || pair_variant == 1),
{
    pair_variant == 0 || pair_variant == 1
}

/// The pool type that a pair contract reports: 0 token, 1 NFT, 2 trade.
pub fn pool_type_from_code(code: u8) -> (r: PoolType)
    requires
        code <= 2,
    ensures
        code == 0 ==> r == PoolType::Token,
        code == 1 ==> r == PoolType::NFT,
        code == 2 ==> r == PoolType::Trade,
{
    if code == 0 {
        PoolType::Token
    } else if code == 1 {
        PoolType::NFT
    } else {
        PoolType::Trade
    }
}

/// The marketplace of a newly created sudoswap pair, or none when the pair is
/// not priced in ETH.
pub fn sudo_pair_marketplace(
    pool_address: Address,
    pair_variant: u8,
    nft_address: Address,
    pool_type_code: u8,
) -> (r: Option<Marketplace>)
    requires
        (pair_variant == 0 || pair_variant == 1) ==> pool_type_code <= 2,
    ensures
        r is Some <==> (pair_variant == 0 || pair_variant == 1),
        r matches Some(m) ==> {
            &&& m.market_type matches MarketType::Sudo(pool) && pool.pool_address@ == pool_address@
                && pool.pair_variant == pair_variant && pool.contract == SudoContract::ETH
                && (pool_type_code == 0 ==> pool.pool_type == PoolType::Token)
                && (pool_type_code == 1 ==> pool.pool_type == PoolType::NFT)
                && (pool_type_code == 2 ==> pool.pool_type == PoolType::Trade)
            &&& m.nft_address@ == nft_address@
        },
{
    if is_eth_pair_variant(pair_variant) {
        let pool = SudoPool {
            pool_address,
            pool_type: pool_type_from_code(pool_type_code),
            pair_variant,
            contract: SudoContract::ETH,
        };
        Some(Marketplace { market_type: MarketType::Sudo(pool), nft_address })
    } else {
        None
    }
}

/// The marketplace of a newly created NFTX vault.
pub fn nftx_vault_marketplace(vault_address: Address, nft_address: Address) -> (r: Marketplace)
    ensures
        r.market_type matches MarketType::NFTx(v) && v.vault_address@ == vault_address@,
        r.nft_address@ == nft_address@,
{
    Marketplace { market_type: MarketType::NFTx(NFTxVault { vault_address }), nft_address }
}

/// The marketplace of a LooksRare order.
pub open spec fn looks_marketplace_spec(quote: LooksQuote) -> Marketplace {
    Marketplace { market_type: MarketType::Looks(quote), nft_address: quote.collection_address }
}

/// The marketplace of a LooksRare order: the collection it trades.
pub fn looks_marketplace(quote: LooksQuote) -> (r: Marketplace)
    ensures
        r == looks_marketplace_spec(quote),
        r.nft_address == quote.collection_address,
        r.market_type == MarketType::Looks(quote),
{
    let nft_address = quote.collection_address;
    Marketplace { market_type: MarketType::Looks(quote), nft_address }
}

/// The three kinds of marketplace are told apart by their kind alone: a
/// sudoswap pool counts as a pool and never as a vault, an NFTX vault as a
/// vault and never as a pool, and a LooksRare order as neither. Each trades
/// through its own address: the pool's, the vault's, or the order's
/// collection.
pub proof fn law_marketplace_kinds(m: Marketplace)
    ensures
        m.market_type matches MarketType::Sudo(pool) ==> m.is_sudo() && !m.is_nftx()
            && m.spec_contract_address() == pool.pool_address@,
        m.market_type matches MarketType::NFTx(vault) ==> m.is_nftx() && !m.is_sudo()
            && m.spec_contract_address() == vault.vault_address@,
        m.market_type matches MarketType::Looks(quote) ==> !m.is_sudo() && !m.is_nftx()
            && m.spec_contract_address() == quote.collection_address@,
{
}

/// The marketplace registered for a LooksRare order is that order, and it
/// trades the order's collection: its NFT address and the address it trades
/// through are both the order's collection address.
pub proof fn law_looks_marketplace_trades_the_collection(quote: LooksQuote)
    ensures
        looks_marketplace_spec(quote).nft_address == quote.collection_address,
        looks_marketplace_spec(quote).market_type == MarketType::Looks(quote),
        looks_marketplace_spec(quote).spec_contract_address() == quote.collection_address@,
        !looks_marketplace_spec(quote).is_sudo() && !looks_marketplace_spec(quote).is_nftx(),
{
}

} // verus!
