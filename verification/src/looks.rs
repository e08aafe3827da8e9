//! LooksRare orders: reading their decimal and hex fields, matching them, and
//! polling the orderbook one collection at a time.

use vstd::prelude::*;
use crate::address::Address;
use crate::bot::LooksOrderbook;
use crate::calls::{Action, Call, MakerOrder, TakerOrder, Type};
use crate::marketplace::LooksQuote;
use crate::uint::{U256, u256_bound};

verus! {

/// Whether `c` is one of the digits 0-9.
pub open spec fn is_dec_digit(c: char) -> bool {
    '0' <= c && c <= '9'
}

/// The number that a string of decimal digits spells (0 for the empty string).
pub open spec fn dec_value(s: Seq<char>) -> nat
    decreases s.len(),
{
    if s.len() == 0 {
        0
    } else {
        dec_value(s.drop_last()) * 10 + (s.last() as nat - '0' as nat) as nat
    }
}

/// Whether `s` is a decimal number that fits in 256 bits.
pub open spec fn parses_as_dec(s: Seq<char>) -> bool {
    (forall|i: int| 0 <= i < s.len() ==> is_dec_digit(#[trigger] s[i])) && dec_value(s) < u256_bound()
}

/// `U256::from_dec_str` of the `uint` crate: the value of a string of decimal
/// digits (the empty string reads as 0), or an error for any other character
/// or a value of 2^256 or more. The contract claims exactly that, with the
/// error as `None`.
#[verifier::external_body]
fn uint_from_dec_str(s: &str) -> (r: Option<U256>)
    ensures
        r is Some <==> parses_as_dec(s@),
        r matches Some(v) ==> v.value() == dec_value(s@),
{
    match ethers_core::types::U256::from_dec_str(s) {
        Ok(z) => Some(U256 { l0: z.0[0], l1: z.0[1], l2: z.0[2], l3: z.0[3] }),
        Err(_) => None,
    }
}

/// Whether `c` is a hex digit, in either case.
pub open spec fn is_hex_digit(c: char) -> bool {
    ('0' <= c && c <= '9') || ('a' <= c && c <= 'f') || ('A' <= c && c <= 'F')
}

/// The value of a hex digit.
pub open spec fn hex_value(c: char) -> nat {
    if '0' <= c && c <= '9' {
        (c as nat - '0' as nat) as nat
    } else if 'a' <= c && c <= 'f' {
        (c as nat - 'a' as nat + 10) as nat
    } else {
        (c as nat - 'A' as nat + 10) as nat
    }
}

/// `s` without a leading `0x` or `0X`.
pub open spec fn strip_hex_prefix(s: Seq<char>) -> Seq<char> {
    if s.len() >= 2 && s[0] == '0' && (s[1] == 'x' || s[1] == 'X') {
        s.skip(2)
    } else {
        s
    }
}

/// Whether `s` is hex-encoded bytes: an even number of hex digits, after an
/// optional `0x`.
pub open spec fn parses_as_hex(s: Seq<char>) -> bool {
    &&& strip_hex_prefix(s).len() % 2 == 0
    &&& forall|i: int| 0 <= i < strip_hex_prefix(s).len() ==> is_hex_digit(#[trigger] strip_hex_prefix(s)[i])
}

/// The bytes that hex-encoded `s` spells, two digits each.
pub open spec fn hex_bytes(s: Seq<char>) -> Seq<u8> {
    let t = strip_hex_prefix(s);
    Seq::new(t.len() / 2, |i: int| (hex_value(t[2 * i]) * 16 + hex_value(t[2 * i + 1])) as u8)
}

/// `Bytes::from_str` of `ethers-core` (hex decoding by `const-hex`): the bytes
/// spelled by an even number of hex digits after an optional `0x`, or an error
/// otherwise. The contract claims exactly that, with the error as `None`.
#[verifier::external_body]
fn bytes_from_hex_str(s: &str) -> (r: Option<Vec<u8>>)
    ensures
        r is Some <==> parses_as_hex(s@),
        r matches Some(b) ==> b@ == hex_bytes(s@),
{
    match <ethers_core::types::Bytes as std::str::FromStr>::from_str(s) {
        Ok(b) => Some(b.to_vec()),
        Err(_) => None,
    }
}

/// The LooksRare fields of an order read as numbers and bytes: price, token
/// id (0 when absent), nonce and parameters.
pub open spec fn quote_fields_parse(q: LooksQuote) -> bool {
    &&& parses_as_dec(q.price@)
    &&& (q.token_id matches Some(t) ==> parses_as_dec(t@))
    &&& parses_as_dec(q.nonce@)
    &&& q.params is Some && parses_as_hex(q.params.unwrap()@)
    &&& q.v <= 255
}

/// The token id of an order: its decimal field, or 0 when it has none.
pub open spec fn spec_token_id(q: LooksQuote) -> nat {
    match q.token_id {
        Some(t) => dec_value(t@),
        None => 0,
    }
}

/// `maker` is the maker order that quote `q` stands for: every field as the
/// quote gives it, the decimal and hex fields read as numbers and bytes.
pub open spec fn is_maker_of(maker: MakerOrder, q: LooksQuote) -> bool {
    &&& maker.is_order_ask == q.is_order_ask
    &&& maker.signer == q.signer
    &&& maker.collection == q.collection_address
    &&& maker.price.value() == dec_value(q.price@)
    &&& maker.token_id.value() == spec_token_id(q)
    &&& maker.amount.value() == q.amount
    &&& maker.strategy == q.strategy
    &&& maker.currency == q.currency_address
    &&& maker.nonce.value() == dec_value(q.nonce@)
    &&& maker.start_time.value() == q.start_time
    &&& maker.end_time.value() == q.end_time
    &&& maker.min_percentage_to_ask.value() == q.min_percentage_to_ask
    &&& maker.params@ == hex_bytes(q.params.unwrap()@)
    &&& maker.v == q.v
    &&& maker.r == q.r
    &&& maker.s == q.s
}

/// `taker` is the taker order of `address` that matches `maker`: the other
/// side, with the maker's price, token id, minimum percentage and parameters.
pub open spec fn is_taker_for(taker: TakerOrder, maker: MakerOrder, address: Address) -> bool {
    &&& taker.is_order_ask == !maker.is_order_ask
    &&& taker.taker == address
    &&& taker.price == maker.price
    &&& taker.token_id == maker.token_id
    &&& taker.min_percentage_to_ask == maker.min_percentage_to_ask
    &&& taker.params@ == maker.params@
}

/// The orders matched against a LooksRare quote reproduce the signed order:
/// the maker order carries the quote's side, signer, collection, price, token
/// id, amount, strategy, currency, nonce, validity window (start time, then
/// end time), minimum percentage, parameters and signature; the taker order of
/// `address` takes the other side at the same price, token id, minimum
/// percentage and parameters.
pub proof fn law_orders_reproduce_the_quote(
    q: LooksQuote,
    address: Address,
    maker: MakerOrder,
    taker: TakerOrder,
)
    requires
        is_maker_of(maker, q),
        is_taker_for(taker, maker, address),
    ensures
        maker.is_order_ask == q.is_order_ask,
        maker.signer == q.signer,
        maker.collection == q.collection_address,
        maker.price.value() == dec_value(q.price@),
        maker.token_id.value() == (match q.token_id {
            Some(t) => dec_value(t@),
            None => 0,
        }),
        maker.amount.value() == q.amount,
        maker.strategy == q.strategy,
        maker.currency == q.currency_address,
        maker.nonce.value() == dec_value(q.nonce@),
        maker.start_time.value() == q.start_time,
        maker.end_time.value() == q.end_time,
        maker.min_percentage_to_ask.value() == q.min_percentage_to_ask,
        maker.params@ == hex_bytes(q.params.unwrap()@),
        maker.v == q.v,
        maker.r == q.r,
        maker.s == q.s,
        taker.is_order_ask == !q.is_order_ask,
        taker.taker == address,
        taker.price.value() == dec_value(q.price@),
        taker.token_id == maker.token_id,
        taker.min_percentage_to_ask.value() == q.min_percentage_to_ask,
        taker.params@ == hex_bytes(q.params.unwrap()@),
{
}

impl LooksQuote {
    /// Whether the order's price, token id, nonce and parameters read as
    /// numbers and bytes and its `v` fits in a byte, so that it can be
    /// matched.
    pub fn fields_parse(&self) -> (r: bool)
        ensures
            r == quote_fields_parse(*self),
    {
        let token_ok = match &self.token_id {
            Some(t) => uint_from_dec_str(t.as_str()).is_some(),
            None => true,
        };
        let params_ok = match &self.params {
            Some(p) => bytes_from_hex_str(p.as_str()).is_some(),
            None => false,
        };
        uint_from_dec_str(self.price.as_str()).is_some() && token_ok && uint_from_dec_str(
            self.nonce.as_str(),
        ).is_some() && params_ok && self.v <= 255
    }

    /// The order's price.
    pub fn get_price(&self) -> (r: Option<U256>)
        requires
            parses_as_dec(self.price@),
        ensures
            r matches Some(p) && p.value() == dec_value(self.price@),
    {
        uint_from_dec_str(self.price.as_str())
    }

    /// The maker order this quote stands for, and the taker order that
    /// matches it for `address`.
    pub fn orders(&self, address: Address) -> (r: (MakerOrder, TakerOrder))
        requires
            quote_fields_parse(*self),
        ensures
            is_maker_of(r.0, *self),
            is_taker_for(r.1, r.0, address),
    {
        let price = match uint_from_dec_str(self.price.as_str()) {
            Some(p) => p,
            None => U256::zero(),
        };
        let token_id = match &self.token_id {
            Some(t) => match uint_from_dec_str(t.as_str()) {
                Some(v) => v,
                None => U256::zero(),
            },
            None => U256::zero(),
        };
        let nonce = match uint_from_dec_str(self.nonce.as_str()) {
            Some(n) => n,
            None => U256::zero(),
        };
        let params = match &self.params {
            Some(p) => match bytes_from_hex_str(p.as_str()) {
                Some(b) => b,
                None => Vec::new(),
            },
            None => Vec::new(),
        };
        let min_percentage_to_ask = U256::from_u64(self.min_percentage_to_ask);
        let maker = MakerOrder {
            is_order_ask: self.is_order_ask,
            signer: self.signer,
            collection: self.collection_address,
            price,
            token_id,
            amount: U256::from_u64(self.amount),
            strategy: self.strategy,
            currency: self.currency_address,
            nonce,
            start_time: U256::from_u64(self.start_time),
            end_time: U256::from_u64(self.end_time),
            min_percentage_to_ask,
            params: params.clone(),
            v: self.v as u8,
            r: self.r,
            s: self.s,
        };
        let taker = TakerOrder {
            is_order_ask: !self.is_order_ask,
            taker: address,
            price,
            token_id,
            min_percentage_to_ask,
            params,
        };
        (maker, taker)
    }

    /// The call that takes this ask for `address`, paying its price in ETH,
    /// and the id of the NFT bought.
    pub fn create_buy_txs(&self, address: Address, exchange: Address) -> (r: (Vec<Call>, Option<Vec<U256>>))
        requires
            quote_fields_parse(*self),
        ensures
            r.1 matches Some(ids) && ids.len() == 1 && ids[0].value() == spec_token_id(*self),
            r.0.len() == 1,
            r.0[0].target == exchange,
            r.0[0].call_type == Type::ValueCall,
            r.0[0].value matches Some(v) && v.value() == dec_value(self.price@),
            r.0[0].action matches Action::MatchAskWithTakerBidUsingETHAndWETH { taker_bid, maker_ask }
                && is_maker_of(maker_ask, *self) && is_taker_for(taker_bid, maker_ask, address),
    {
        let (maker_ask, taker_bid) = self.orders(address);
        let price = maker_ask.price;
        let token_id = maker_ask.token_id;
        let mut calls: Vec<Call> = Vec::new();
        let action = Action::MatchAskWithTakerBidUsingETHAndWETH { taker_bid, maker_ask };
        calls.push(Call::new(exchange, Type::ValueCall, Some(price), action));
        let mut ids: Vec<U256> = Vec::new();
        ids.push(token_id);
        (calls, Some(ids))
    }

    /// The calls that fill this bid with an NFT of `address`: approve the
    /// exchange on the collection unless it is approved, then match the bid.
    pub fn create_sell_txs(
        &self,
        address: Address,
        exchange: Address,
        nft_contract: Address,
        approved: bool,
    ) -> (r: Vec<Call>)
        requires
            quote_fields_parse(*self),
        ensures
            ({
                let k: int = if approved { 0 } else { 1 };
                &&& r.len() == k + 1
                &&& !approved ==> (r[0].target == nft_contract && r[0].call_type == Type::Call
                    && r[0].value is None && (r[0].action matches Action::SetApprovalForAll { operator, approved: yes } && operator
                    == exchange && yes))
                &&& r[k].target == exchange
                &&& r[k].call_type == Type::Call
                &&& r[k].value is None
                &&& r[k].action matches Action::MatchBidWithTakerAsk { taker_ask, maker_bid }
                    && is_maker_of(maker_bid, *self) && is_taker_for(taker_ask, maker_bid, address)
            }),
    {
        let (maker_bid, taker_ask) = self.orders(address);
        let mut calls: Vec<Call> = Vec::new();
        if !approved {
            let action = Action::SetApprovalForAll { operator: exchange, approved: true };
            calls.push(Call::new(nft_contract, Type::Call, None, action));
        }
        let action = Action::MatchBidWithTakerAsk { taker_ask, maker_bid };
        calls.push(Call::new(exchange, Type::Call, None, action));
        calls
    }

    /// The prices a LooksRare order offers: an ask sells one NFT at its price;
    /// a bid is not traded against.
    pub fn prices(&self) -> (r: (Option<U256>, Option<U256>))
        requires
            self.is_order_ask ==> parses_as_dec(self.price@),
        ensures
            r.1 is None,
            r.0 is Some <==> self.is_order_ask,
            r.0 matches Some(p) ==> p.value() == dec_value(self.price@),
    {
        if self.is_order_ask {
            (self.get_price(), None)
        } else {
            (None, None)
        }
    }
}

/// The query part of the orderbook request for the cheapest valid ask on
/// `collection`, its address written as `0x` and 40 lowercase hex digits.
pub open spec fn spec_orders_query(collection: Seq<u8>) -> Seq<char> {
    "?strategy=0x56244Bb70CbD3EA9Dc8007399F61dFC065190031&currency=0xC02aaA39b223FE8D0A0e5C4F27eAD9083C756Cc2&collection="@
        + address_hex(collection)
        + "&status[]=VALID&pagination[first]=1&sort=PRICE_ASC&isOrderAsk=true"@
}

/// A lowercase hex digit.
pub open spec fn hex_char(d: nat) -> char {
    if d < 10 {
        ('0' as nat + d) as char
    } else {
        ('a' as nat + d - 10) as char
    }
}

/// `0x` and two lowercase hex digits per byte.
pub open spec fn address_hex(bytes: Seq<u8>) -> Seq<char> {
    "0x"@ + Seq::new(2 * bytes.len(), |i: int| if i % 2 == 0 {
        hex_char(bytes[i / 2] as nat / 16)
    } else {
        hex_char(bytes[i / 2] as nat % 16)
    })
}

/// An address as `fixed-hash`'s `H160` prints it with `Debug`: `0x` and
/// every byte as two lowercase hex digits.
#[verifier::external_body]
fn format_address(a: &Address) -> (r: String)
    ensures
        r@ == address_hex(a@),
{
    format!("{:?}", ethers_core::types::H160(a.bytes))
}

impl LooksOrderbook {
    /// An orderbook poller for the collections `nft_vec`, starting at the
    /// first.
    pub fn new(endpoint_uri: String, nft_vec: Vec<Address>) -> (r: LooksOrderbook)
        ensures
            r.nft_vec_ind == 0,
            r.nft_vec@ == nft_vec@,
            r.endpoint_uri@ == endpoint_uri@,
    {
        LooksOrderbook { nft_vec_ind: 0, nft_vec, endpoint_uri }
    }

    /// The request for the collection under the cursor, or none when no
    /// collection is watched. The cursor must point at one.
    pub fn orders_uri(&self) -> (r: Option<String>)
        requires
            self.nft_vec.len() > 0 ==> self.nft_vec_ind < self.nft_vec.len(),
        ensures
            r is None <==> self.nft_vec.len() == 0,
            r matches Some(u) ==> u@ == self.endpoint_uri@ + "api/v1/orders"@ + spec_orders_query(
                self.nft_vec[self.nft_vec_ind as int]@,
            ),
    {
        if self.nft_vec.len() == 0 {
            return None;
        }
        let collection = format_address(&self.nft_vec[self.nft_vec_ind]);
        let mut uri = self.endpoint_uri.clone();
        uri.append("api/v1/orders");
        uri.append("?strategy=0x56244Bb70CbD3EA9Dc8007399F61dFC065190031&currency=0xC02aaA39b223FE8D0A0e5C4F27eAD9083C756Cc2&collection=");
        uri.append(collection.as_str());
        uri.append("&status[]=VALID&pagination[first]=1&sort=PRICE_ASC&isOrderAsk=true");
        Some(uri)
    }

    /// Move the cursor on after a poll: one step while it is at most the
    /// number of watched collections, back to the start after that.
    pub fn advance(&mut self)
        requires
            old(self).nft_vec_ind < usize::MAX,
        ensures
            final(self).nft_vec_ind == (if old(self).nft_vec_ind <= old(self).nft_vec.len() {
                old(self).nft_vec_ind + 1
            } else {
                0
            }),
            final(self).nft_vec == old(self).nft_vec,
            final(self).endpoint_uri == old(self).endpoint_uri,
    {
        if self.nft_vec_ind <= self.nft_vec.len() {
            self.nft_vec_ind = self.nft_vec_ind + 1;
        } else {
            self.nft_vec_ind = 0;
        }
    }
}

} // verus!
