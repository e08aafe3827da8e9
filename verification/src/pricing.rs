//! Prices and trades on sudoswap pools and NFTX vaults.

use vstd::prelude::*;
use crate::address::Address;
use crate::bot::ONE;
use crate::calls::{Action, Call, Type};
use crate::marketplace::{NFTxVault, PoolType, SudoContract, SudoPool};
use crate::state_diff::{opt_u256, State};
use crate::uint::{U256, u256_bound};

verus! {

/// The swap deadline the searcher uses on the Sushi router (a timestamp far in
/// the future).
pub const SWAP_DEADLINE: u64 = 2655764228;

impl SudoPool {
    /// Whether the pool sells NFTs (trade and NFT pools do).
    pub open spec fn spec_quotes_buy(&self) -> bool {
        self.pool_type == PoolType::Trade || self.pool_type == PoolType::NFT
    }

    /// Whether the pool buys NFTs (trade and token pools do).
    pub open spec fn spec_quotes_sell(&self) -> bool {
        self.pool_type == PoolType::Trade || self.pool_type == PoolType::Token
    }

    /// Whether the pool sells NFTs, so that a buy price is to be asked.
    pub fn quotes_buy(&self) -> (r: bool)
        ensures
            r == self.spec_quotes_buy(),
            r <==> (self.pool_type == PoolType::NFT || self.pool_type == PoolType::Trade),
    {
        match self.pool_type {
            PoolType::Trade | PoolType::NFT => true,
            PoolType::Token => false,
        }
    }

    /// Whether the pool buys NFTs, so that a sell price is to be asked.
    pub fn quotes_sell(&self) -> (r: bool)
        ensures
            r == self.spec_quotes_sell(),
            r <==> (self.pool_type == PoolType::Token || self.pool_type == PoolType::Trade),
    {
        match self.pool_type {
            PoolType::Trade | PoolType::Token => true,
            PoolType::NFT => false,
        }
    }

    /// The price of buying `num_nft` NFTs, given the pool's quote and the
    /// number of NFTs it holds: none when it holds fewer. A pool priced in an
    /// ERC20 counts its NFTs as a `usize`.
    pub fn buy_price_from(&self, num_nft: usize, price: U256, nft_balance: U256) -> (r: Option<U256>)
        requires
            self.contract == SudoContract::ERC20 ==> nft_balance.value() <= usize::MAX,
        ensures
            r == (if num_nft > nft_balance.value() { None } else { Some(price) }),
    {
        match self.contract {
            SudoContract::ETH => {
                if U256::from_usize(num_nft).gt(&nft_balance) {
                    None
                } else {
                    Some(price)
                }
            },
            SudoContract::ERC20 => {
                proof { crate::uint::lemma_value_bounds(nft_balance); }
                let held = nft_balance.as_u64() as usize;
                if num_nft > held {
                    None
                } else {
                    Some(price)
                }
            },
        }
    }

    /// The price of selling NFTs to the pool, given its quote and the funds it
    /// holds: none when the funds fall short.
    pub fn sell_price_from(&self, price: U256, liquidity: U256) -> (r: Option<U256>)
        ensures
            r == (if price.value() > liquidity.value() { None } else { Some(price) }),
    {
        if price.gt(&liquidity) {
            None
        } else {
            Some(price)
        }
    }

    /// The funds to check a sell quote against, when simulating on top of the
    /// overrides `diff`: the pool's overridden balance for a pool priced in
    /// ETH, if the overrides set one. `None` means the funds are to be read
    /// from the chain (the pool's ETH balance, or its token balance for a pool
    /// priced in an ERC20).
    pub fn sell_liquidity_override(&self, diff: Option<&State>) -> (r: Option<U256>)
        requires
            diff matches Some(d) ==> d.wf(),
        ensures
            opt_u256(r) == match diff {
                Some(d) => if self.contract == SudoContract::ETH && d.view().contains_key(
                    self.pool_address@,
                ) {
                    d.view()[self.pool_address@].balance
                } else {
                    None
                },
                None => None,
            },
    {
        match diff {
            Some(d) => match self.contract {
                SudoContract::ETH => d.balance_of(&self.pool_address),
                SudoContract::ERC20 => None,
            },
            None => None,
        }
    }

    /// Whether buying needs the ids of the NFTs the pool holds (pools priced
    /// in ETH are the only ones traded).
    pub fn is_eth(&self) -> (r: bool)
        ensures
            r == (self.contract == SudoContract::ETH),
    {
        match self.contract {
            SudoContract::ETH => true,
            SudoContract::ERC20 => false,
        }
    }

    /// The calls that buy `num_nft` NFTs for at most `input` wei for
    /// `address`, given the ids the pool holds (`None` when asking failed),
    /// and the ids bought: the first `num_nft` held ids. Nothing is bought
    /// when the ids are unknown, too few, or the pool is priced in an ERC20.
    pub fn create_buy_txs(
        &self,
        input: U256,
        address: Address,
        num_nft: usize,
        held_ids: Option<Vec<U256>>,
    ) -> (r: (Vec<Call>, Option<Vec<U256>>))
        ensures
            ({
                let go = self.contract == SudoContract::ETH && held_ids is Some
                    && held_ids.unwrap().len() >= num_nft;
                &&& r.1 is Some <==> go
                &&& !go ==> r.0.len() == 0
                &&& go ==> {
                    let ids = r.1.unwrap();
                    &&& ids@ == held_ids.unwrap()@.take(num_nft as int)
                    &&& r.0.len() == 1
                    &&& r.0[0].target == self.pool_address
                    &&& r.0[0].call_type == Type::ValueCall
                    &&& r.0[0].value == Some(input)
                    &&& r.0[0].action matches Action::SwapTokenForSpecificNFTs {
                        nft_ids,
                        max_expected_token_input,
                        nft_recipient,
                        is_router,
                        router_caller,
                    } && nft_ids@ == ids@ && max_expected_token_input == input && nft_recipient
                        == address && !is_router && router_caller@ == Address::zero_spec()
                }
            }),
    {
        let mut calls: Vec<Call> = Vec::new();
        match self.contract {
            SudoContract::ETH => {
                match held_ids {
                    None => (calls, None),
                    Some(ids) => {
                        let mut ids = ids;
                        if ids.len() < num_nft {
                            return (calls, None);
                        }
                        ids.truncate(num_nft);
                        let action = Action::SwapTokenForSpecificNFTs {
                            nft_ids: ids.clone(),
                            max_expected_token_input: input,
                            nft_recipient: address,
                            is_router: false,
                            router_caller: Address::zero(),
                        };
                        calls.push(Call::new(self.pool_address, Type::ValueCall, Some(input), action));
                        (calls, Some(ids))
                    },
                }
            },
            SudoContract::ERC20 => (calls, None),
        }
    }

    /// The calls that sell the NFTs `ids` to the pool for at least `output`
    /// wei to `address`: an approval of the pool on the collection contract
    /// first unless it is known to be approved (`approved` is `None` when
    /// asking failed), then the swap. A pool priced in an ERC20 gets no calls.
    pub fn create_sell_txs(
        &self,
        output: U256,
        address: Address,
        ids: Vec<U256>,
        nft_contract: Address,
        approved: Option<bool>,
    ) -> (r: Vec<Call>)
        ensures
            self.contract == SudoContract::ERC20 ==> r.len() == 0,
            self.contract == SudoContract::ETH ==> {
                let approve = approved != Some(true);
                let k: int = if approve { 1 } else { 0 };
                &&& r.len() == k + 1
                &&& approve ==> (r[0].target == nft_contract && r[0].call_type == Type::Call
                    && r[0].value is None && (r[0].action matches Action::SetApprovalForAll {
                    operator,
                    approved: a,
                } && operator == self.pool_address && a))
                &&& r[k].target == self.pool_address
                &&& r[k].call_type == Type::Call
                &&& r[k].value is None
                &&& r[k].action matches Action::SwapNFTsForToken {
                    nft_ids,
                    min_expected_token_output,
                    token_recipient,
                    is_router,
                    router_caller,
                } && nft_ids@ == ids@ && min_expected_token_output == output && token_recipient
                    == address && !is_router && router_caller@ == Address::zero_spec()
            },
    {
        let mut calls: Vec<Call> = Vec::new();
        match self.contract {
            SudoContract::ETH => {
                let is_approved = match approved {
                    Some(a) => a,
                    None => false,
                };
                if !is_approved {
                    let action = Action::SetApprovalForAll { operator: self.pool_address, approved: true };
                    calls.push(Call::new(nft_contract, Type::Call, None, action));
                }
                let action = Action::SwapNFTsForToken {
                    nft_ids: ids,
                    min_expected_token_output: output,
                    token_recipient: address,
                    is_router: false,
                    router_caller: Address::zero(),
                };
                calls.push(Call::new(self.pool_address, Type::Call, None, action));
                calls
            },
            SudoContract::ERC20 => calls,
        }
    }
}

/// What a sudoswap pool quotes follows from its type: an NFT pool only sells
/// NFTs (a buy price), a token pool only buys them (a sell price), and a trade
/// pool does both.
pub proof fn law_pool_type_decides_quotes(pool: SudoPool)
    ensures
        pool.pool_type == PoolType::NFT ==> pool.spec_quotes_buy() && !pool.spec_quotes_sell(),
        pool.pool_type == PoolType::Token ==> !pool.spec_quotes_buy() && pool.spec_quotes_sell(),
        pool.pool_type == PoolType::Trade ==> pool.spec_quotes_buy() && pool.spec_quotes_sell(),
{
}

/// The vault tokens that `num_nft` NFTs cost to redeem: one token each plus
/// the redeem fee, in units of 10^18.
pub open spec fn spec_buy_amount(num_nft: nat, redeem_fee: nat) -> nat {
    (num_nft * (ONE + redeem_fee)) as nat
}

/// The vault tokens that minting `num_nft` NFTs yields: one token each less
/// the mint fee, in units of 10^18.
pub open spec fn spec_sell_amount(num_nft: nat, mint_fee: nat) -> nat {
    (num_nft * (ONE - mint_fee)) as nat
}

/// The amounts of a `mint` call (none for any other action).
pub open spec fn mint_amounts(action: Action) -> Seq<U256> {
    match action {
        Action::Mint { amounts, .. } => amounts@,
        _ => Seq::empty(),
    }
}

impl NFTxVault {
    /// The vault tokens to buy for `num_nft` NFTs.
    pub fn buy_amount(num_nft: usize, redeem_fee: U256) -> (r: U256)
        requires
            redeem_fee.value() + ONE < u256_bound(),
            spec_buy_amount(num_nft as nat, redeem_fee.value()) < u256_bound(),
        ensures
            r.value() == spec_buy_amount(num_nft as nat, redeem_fee.value()),
    {
        let per_nft = U256::from_u128(ONE).add(&redeem_fee);
        U256::from_usize(num_nft).mul(&per_nft)
    }

    /// The vault tokens that selling `num_nft` NFTs yields.
    pub fn sell_amount(num_nft: usize, mint_fee: U256) -> (r: U256)
        requires
            mint_fee.value() <= ONE,
        ensures
            r.value() == spec_sell_amount(num_nft as nat, mint_fee.value()),
    {
        let per_nft = U256::from_u128(ONE).sub(&mint_fee);
        proof {
            vstd::arithmetic::mul::lemma_mul_inequality(per_nft.value() as int, ONE as int, num_nft as int);
            vstd::arithmetic::mul::lemma_mul_is_commutative(per_nft.value() as int, num_nft as int);
            vstd::arithmetic::mul::lemma_mul_is_commutative(ONE as int, num_nft as int);
            assert(num_nft * ONE < u256_bound()) by (nonlinear_arith)
                requires num_nft <= usize::MAX, usize::MAX <= u64::MAX;
        }
        U256::from_usize(num_nft).mul(&per_nft)
    }

    /// The swap path to buy vault tokens with WETH.
    pub fn buy_path(&self, weth_address: Address) -> (r: Vec<Address>)
        ensures
            r@ == seq![weth_address, self.vault_address],
    {
        let mut path = Vec::new();
        path.push(weth_address);
        path.push(self.vault_address);
        assert(path@ =~= seq![weth_address, self.vault_address]);
        path
    }

    /// The swap path to sell vault tokens for WETH.
    pub fn sell_path(&self, weth_address: Address) -> (r: Vec<Address>)
        ensures
            r@ == seq![self.vault_address, weth_address],
    {
        let mut path = Vec::new();
        path.push(self.vault_address);
        path.push(weth_address);
        assert(path@ =~= seq![self.vault_address, weth_address]);
        path
    }

    /// The buy price from the router's `getAmountsIn` answer: the WETH going in.
    pub fn buy_price_from(amounts_in: &Vec<U256>) -> (r: Option<U256>)
        requires
            amounts_in.len() >= 1,
        ensures
            r == Some(amounts_in[0]),
    {
        Some(amounts_in[0])
    }

    /// The sell price from the router's `getAmountsOut` answer: the WETH coming
    /// out.
    pub fn sell_price_from(amounts_out: &Vec<U256>) -> (r: Option<U256>)
        requires
            amounts_out.len() >= 2,
        ensures
            r == Some(amounts_out[1]),
    {
        Some(amounts_out[1])
    }

    /// The calls that buy `num_nft` NFTs for at most `input` wei for
    /// `address`: swap ETH for exactly the vault tokens they cost on the
    /// router, then redeem the NFTs `ids` from the vault.
    pub fn create_buy_txs(
        &self,
        input: U256,
        num_nft: usize,
        address: Address,
        router: Address,
        weth_address: Address,
        ids: Vec<U256>,
        redeem_fee: U256,
    ) -> (r: (Vec<Call>, Option<Vec<U256>>))
        requires
            redeem_fee.value() + ONE < u256_bound(),
            spec_buy_amount(num_nft as nat, redeem_fee.value()) < u256_bound(),
        ensures
            r.1 is Some && r.1.unwrap()@ == ids@,
            r.0.len() == 2,
            r.0[0].target == router && r.0[0].call_type == Type::ValueCall && r.0[0].value == Some(input),
            r.0[0].action matches Action::SwapETHForExactTokens { amount_out, path, to, deadline }
                && amount_out.value() == spec_buy_amount(num_nft as nat, redeem_fee.value())
                && path@ == seq![weth_address, self.vault_address] && to == address
                && deadline.value() == SWAP_DEADLINE,
            r.0[1].target == self.vault_address && r.0[1].call_type == Type::Call && r.0[1].value is None,
            r.0[1].action matches Action::RedeemTo { amount, special_ids, to } && amount.value()
                == num_nft && special_ids@ == ids@ && to == address,
    {
        let mut calls: Vec<Call> = Vec::new();
        let amount_out = NFTxVault::buy_amount(num_nft, redeem_fee);
        let action = Action::SwapETHForExactTokens {
            amount_out,
            path: self.buy_path(weth_address),
            to: address,
            deadline: U256::from_u64(SWAP_DEADLINE),
        };
        calls.push(Call::new(router, Type::ValueCall, Some(input), action));
        let action = Action::RedeemTo {
            amount: U256::from_usize(num_nft),
            special_ids: ids.clone(),
            to: address,
        };
        calls.push(Call::new(self.vault_address, Type::Call, None, action));
        (calls, Some(ids))
    }

    /// The calls that sell the NFTs `ids` through the vault for at least
    /// `output` wei to `address`: approve the vault on the collection unless
    /// known to be approved (`approved` is `None` when asking failed), mint
    /// vault tokens one per NFT, approve the router for every token unless the
    /// allowance is already the maximum, and swap the tokens for ETH.
    pub fn create_sell_txs(
        &self,
        output: U256,
        address: Address,
        ids: Vec<U256>,
        router: Address,
        nft_contract: Address,
        weth_address: Address,
        approved: Option<bool>,
        allowance: U256,
        mint_fee: U256,
    ) -> (r: Vec<Call>)
        requires
            mint_fee.value() <= ONE,
        ensures
            ({
                let a: int = if approved != Some(true) { 1 } else { 0 };
                let b: int = if allowance.value() < u256_bound() - 1 { 1 } else { 0 };
                &&& r.len() == a + b + 2
                &&& a == 1 ==> (r[0].target == nft_contract && r[0].call_type == Type::Call
                    && (r[0].action matches Action::SetApprovalForAll { operator, approved: yes }
                    && operator == self.vault_address && yes))
                &&& r[a].target == self.vault_address && r[a].call_type == Type::Call
                &&& r[a].action matches Action::Mint { token_ids, amounts } && token_ids@ == ids@
                    && amounts.len() == ids.len()
                &&& forall|c: int, i: int|
                    0 <= c < r.len() && 0 <= i < mint_amounts(r[c].action).len() ==> (
                    #[trigger] mint_amounts(r[c].action)[i]).value() == 1
                &&& b == 1 ==> (r[a + 1].target == self.vault_address && r[a + 1].call_type
                    == Type::Call && (r[a + 1].action matches Action::Approve { spender, amount }
                    && spender == router && amount.value() == u256_bound() - 1))
                &&& r[a + b + 1].target == router && r[a + b + 1].call_type == Type::Call
                &&& r[a + b + 1].action matches Action::SwapExactTokensForETH {
                    amount_in,
                    amount_out_min,
                    path,
                    to,
                    deadline,
                } && amount_in.value() == spec_sell_amount(ids.len() as nat, mint_fee.value())
                    && amount_out_min == output && path@ == seq![self.vault_address, weth_address]
                    && to == address && deadline.value() == SWAP_DEADLINE
                &&& forall|i: int| 0 <= i < r.len() ==> (#[trigger] r[i]).value is None
            }),
    {
        let num_nft = ids.len();
        let mut amts: Vec<U256> = Vec::new();
        let mut i: usize = 0;
        while i < num_nft
            invariant
                i <= num_nft,
                amts.len() == i,
                forall|j: int| 0 <= j < i ==> (#[trigger] amts[j]).value() == 1,
            decreases num_nft - i,
        {
            amts.push(U256::from_u64(1));
            i = i + 1;
        }
        let mut calls: Vec<Call> = Vec::new();
        let is_approved = match approved {
            Some(a) => a,
            None => false,
        };
        if !is_approved {
            let action = Action::SetApprovalForAll { operator: self.vault_address, approved: true };
            calls.push(Call::new(nft_contract, Type::Call, None, action));
        }
        let action = Action::Mint { token_ids: ids, amounts: amts };
        calls.push(Call::new(self.vault_address, Type::Call, None, action));
        if allowance.lt(&U256::max_value()) {
            let action = Action::Approve { spender: router, amount: U256::max_value() };
            calls.push(Call::new(self.vault_address, Type::Call, None, action));
        }
        let action = Action::SwapExactTokensForETH {
            amount_in: NFTxVault::sell_amount(num_nft, mint_fee),
            amount_out_min: output,
            path: self.sell_path(weth_address),
            to: address,
            deadline: U256::from_u64(SWAP_DEADLINE),
        };
        calls.push(Call::new(router, Type::Call, None, action));
        calls
    }
}

} // verus!
