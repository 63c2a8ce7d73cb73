//! The snapshot of an auction round that solvers are sent.
use vstd::prelude::*;
use crate::bytes::{bytes_lt, Address, OrderUid};
use crate::decimal::{
    least_exact_scale, mul_div_u256, quotient_parts, raw_to_decimal, rational_to_decimal, terminates_within_18, Decimal,
    DecimalDigits,
};
use crate::u256::{from_value, lemma_value_bound, u256_max, u256_zero, U256};
use crate::domain;
use crate::domain::{FeePolicy, LiquidityKind, OrderKind, Side, FACTOR_SCALE};
use indexmap::IndexMap;

verus! {

/// The auction as solvers see it.
#[derive(Debug)]
pub struct Auction {
    pub id: Option<String>,
    /// Token metadata keyed by address; no address occurs twice.
    pub tokens: Vec<(Address, Token)>,
    pub orders: Vec<Order>,
    pub liquidity: Vec<Liquidity>,
    pub effective_gas_price: U256,
    /// When solvers must answer, as nanoseconds since the epoch.
    pub deadline: i64,
}

#[derive(Clone, Copy, Debug)]
pub struct Order {
    pub uid: OrderUid,
    pub sell_token: Address,
    pub buy_token: Address,
    pub sell_amount: U256,
    pub buy_amount: U256,
    pub fee_amount: U256,
    pub kind: Kind,
    pub partially_fillable: bool,
    pub class: Class,
}

#[derive(Clone, Copy, Debug, PartialEq, Eq, Structural)]
pub enum Kind {
    Sell,
    Buy,
}

#[derive(Clone, Copy, Debug, PartialEq, Eq, Structural)]
pub enum Class {
    Market,
    Limit,
    Liquidity,
}

#[derive(Debug)]
pub struct Token {
    pub decimals: Option<u8>,
    pub symbol: Option<String>,
    pub reference_price: Option<U256>,
    pub available_balance: U256,
    pub trusted: bool,
}

pub open spec fn default_token() -> Token {
    Token {
        decimals: None,
        symbol: None,
        reference_price: None,
        available_balance: u256_zero(),
        trusted: false,
    }
}

impl Default for Token {
    fn default() -> (r: Token)
        ensures
            r == default_token(),
    {
        Token {
            decimals: None,
            symbol: None,
            reference_price: None,
            available_balance: U256::zero(),
            trusted: false,
        }
    }
}

#[derive(Debug)]
pub enum Liquidity {
    ConstantProduct(ConstantProductPool),
    WeightedProduct(WeightedProductPool),
    Stable(StablePool),
    ConcentratedLiquidity(ConcentratedLiquidityPool),
    LimitOrder(ForeignLimitOrder),
}

#[derive(Debug)]
pub struct ConstantProductPool {
    pub id: usize,
    pub address: Address,
    pub router: Address,
    pub gas_estimate: U256,
    /// Reserves by ascending token address.
    pub tokens: Vec<(Address, ConstantProductReserve)>,
    pub fee: Decimal,
}

#[derive(Clone, Copy, Debug)]
pub struct ConstantProductReserve {
    pub balance: U256,
}

#[derive(Debug)]
pub struct WeightedProductPool {
    pub id: usize,
    pub address: Address,
    pub balancer_pool_id: [u8; 32],
    pub gas_estimate: U256,
    /// Reserves in the pool's own token order.
    pub tokens: IndexMap<Address, WeightedProductReserve>,
    pub fee: Decimal,
    pub version: WeightedProductVersion,
}

#[derive(Clone, Copy, Debug)]
pub struct WeightedProductReserve {
    pub balance: U256,
    pub scaling_factor: Decimal,
    pub weight: Decimal,
}

// ---------------------------------------------------------------------------
// Insertion-ordered reserve maps

#[verifier::external_type_specification]
#[verifier::external_body]
#[verifier::reject_recursive_types(K)]
#[verifier::reject_recursive_types(V)]
#[verifier::reject_recursive_types(S)]
pub struct ExIndexMap<K, V, S>(IndexMap<K, V, S>);

/// The entries of a weighted pool's reserve map, in the map's order.
pub uninterp spec fn weighted_entries(m: IndexMap<Address, WeightedProductReserve>) -> Seq<
    (Address, WeightedProductReserve),
>;

/// The entries of a stable pool's reserve map, in the map's order.
pub uninterp spec fn stable_entries(m: IndexMap<Address, StableReserve>) -> Seq<
    (Address, StableReserve),
>;

/// Relies on `IndexMap::new`: a new map holds no entry.
#[verifier::external_body]
fn new_weighted_map() -> (r: IndexMap<Address, WeightedProductReserve>)
    ensures
        weighted_entries(r) == Seq::<(Address, WeightedProductReserve)>::empty(),
{
    IndexMap::new()
}

/// Relies on `IndexMap::insert`: a key that no entry has is added last; an
/// entry with an equal key keeps its key and its place and takes the value.
/// Keys are equal when their bytes are.
#[verifier::external_body]
fn insert_weighted(m: &mut IndexMap<Address, WeightedProductReserve>, k: Address, v: WeightedProductReserve)
    ensures
        (forall|i: int|
            0 <= i < weighted_entries(*old(m)).len() ==> (#[trigger] weighted_entries(*old(m))[i]).0.bytes()
                != k.bytes()) ==> weighted_entries(*final(m)) == weighted_entries(*old(m)).push((k, v)),
        forall|i: int|
            0 <= i < weighted_entries(*old(m)).len() && (#[trigger] weighted_entries(*old(m))[i]).0.bytes()
                == k.bytes() ==> weighted_entries(*final(m)) == weighted_entries(*old(m)).update(
                i,
                (weighted_entries(*old(m))[i].0, v),
            ),
{
    m.insert(k, v);
}

/// Relies on `IndexMap::new`: a new map holds no entry.
#[verifier::external_body]
fn new_stable_map() -> (r: IndexMap<Address, StableReserve>)
    ensures
        stable_entries(r) == Seq::<(Address, StableReserve)>::empty(),
{
    IndexMap::new()
}

/// Relies on `IndexMap::insert`: a key that no entry has is added last; an
/// entry with an equal key keeps its key and its place and takes the value.
/// Keys are equal when their bytes are.
#[verifier::external_body]
fn insert_stable(m: &mut IndexMap<Address, StableReserve>, k: Address, v: StableReserve)
    ensures
        (forall|i: int|
            0 <= i < stable_entries(*old(m)).len() ==> (#[trigger] stable_entries(*old(m))[i]).0.bytes()
                != k.bytes()) ==> stable_entries(*final(m)) == stable_entries(*old(m)).push((k, v)),
        forall|i: int|
            0 <= i < stable_entries(*old(m)).len() && (#[trigger] stable_entries(*old(m))[i]).0.bytes()
                == k.bytes() ==> stable_entries(*final(m)) == stable_entries(*old(m)).update(
                i,
                (stable_entries(*old(m))[i].0, v),
            ),
{
    m.insert(k, v);
}

#[derive(Clone, Copy, Debug, PartialEq, Eq, Structural)]
pub enum WeightedProductVersion {
    V0,
    V3Plus,
}

#[derive(Debug)]
pub struct StablePool {
    pub id: usize,
    pub address: Address,
    pub balancer_pool_id: [u8; 32],
    pub gas_estimate: U256,
    /// Reserves in the pool's own token order.
    pub tokens: IndexMap<Address, StableReserve>,
    pub amplification_parameter: DecimalDigits,
    pub fee: Decimal,
}

#[derive(Clone, Copy, Debug)]
pub struct StableReserve {
    pub balance: U256,
    pub scaling_factor: Decimal,
}

#[derive(Debug)]
pub struct ConcentratedLiquidityPool {
    pub id: usize,
    pub address: Address,
    pub router: Address,
    pub gas_estimate: U256,
    pub tokens: Vec<Address>,
    pub sqrt_price: U256,
    pub liquidity: u128,
    pub tick: i32,
    /// Net liquidity added when the price crosses each tick.
    pub liquidity_net: std::collections::BTreeMap<i32, i128>,
    pub fee: DecimalDigits,
}

/// A limit order of another exchange offered as liquidity; the encoder does
/// not produce it yet.
#[derive(Clone, Copy, Debug)]
pub struct ForeignLimitOrder {
    pub id: usize,
    pub address: Address,
    pub gas_estimate: U256,
    pub hash: [u8; 32],
    pub maker_token: Address,
    pub taker_token: Address,
    pub maker_amount: U256,
    pub taker_amount: U256,
    pub taker_token_fee_amount: U256,
}

// ---------------------------------------------------------------------------
// Tokens

pub open spec fn digit_chars() -> Seq<char> {
    seq!['0', '1', '2', '3', '4', '5', '6', '7', '8', '9']
}

pub open spec fn digits_text(n: nat) -> Seq<char>
    decreases n,
{
    if n < 10 {
        seq![digit_chars()[n as int]]
    } else {
        digits_text(n / 10).push(digit_chars()[(n % 10) as int])
    }
}

/// The decimal notation of an integer.
pub open spec fn decimal_text(n: int) -> Seq<char> {
    if n < 0 {
        seq!['-'] + digits_text((-n) as nat)
    } else {
        digits_text(n as nat)
    }
}

/// Relies on `ToString` of `i64`: decimal digits, after a `-` for a negative number.
#[verifier::external_body]
fn id_text(id: i64) -> (r: String)
    ensures
        r@ == decimal_text(id as int),
{
    id.to_string()
}

pub open spec fn token_of(t: domain::TokenInfo) -> Token {
    Token {
        decimals: t.decimals,
        symbol: t.symbol,
        reference_price: t.price,
        available_balance: t.available_balance,
        trusted: t.trusted,
    }
}

pub open spec fn has_key(entries: Seq<(Address, Token)>, a: Address) -> bool {
    exists|i: int| 0 <= i < entries.len() && #[trigger] entries[i].0.bytes() == a.bytes()
}

pub open spec fn distinct_keys(entries: Seq<(Address, Token)>) -> bool {
    forall|i: int, j: int|
        0 <= i < j < entries.len() ==> entries[i].0.bytes() != entries[j].0.bytes()
}

/// `entries` followed by a default entry for each address of `extra` that is
/// not yet a key, in order of first appearance.
pub open spec fn with_defaults(entries: Seq<(Address, Token)>, extra: Seq<Address>) -> Seq<
    (Address, Token),
>
    decreases extra.len(),
{
    if extra.len() == 0 {
        entries
    } else {
        let prev = with_defaults(entries, extra.drop_last());
        if has_key(prev, extra.last()) {
            prev
        } else {
            prev.push((extra.last(), default_token()))
        }
    }
}

/// The tokens of every pool, pool after pool.
pub open spec fn pool_tokens(pools: Seq<domain::Liquidity>) -> Seq<Address>
    decreases pools.len(),
{
    if pools.len() == 0 {
        Seq::empty()
    } else {
        pool_tokens(pools.drop_last()) + pools.last().tokens()
    }
}

/// The token map of the snapshot: the auction's metadata, then defaults for
/// the pools' tokens that it lacks.
pub open spec fn token_map(tokens: Seq<domain::TokenInfo>, pools: Seq<domain::Liquidity>) -> Seq<
    (Address, Token),
> {
    with_defaults(tokens.map_values(|t: domain::TokenInfo| (t.address, token_of(t))), pool_tokens(pools))
}

// ---------------------------------------------------------------------------
// Orders

/// The factor of the order's first protocol fee, where that is a volume fee.
pub open spec fn volume_factor(o: domain::Order) -> Option<u64> {
    if o.protocol_fees@.len() > 0 {
        match o.protocol_fees@[0] {
            FeePolicy::Volume { factor } => Some(factor),
            _ => None,
        }
    } else {
        None
    }
}

/// `v` where it fits in 256 bits, else zero.
pub open spec fn fit_or_zero(v: int) -> U256 {
    if v <= u256_max() {
        from_value(v)
    } else {
        u256_zero()
    }
}

/// `floor(amount / (1 + f))` for `f = factor / 10^18`; zero where the factor
/// lies beyond the fixed-point range.
pub open spec fn reduced_by_factor(amount: U256, factor: u64) -> U256 {
    if FACTOR_SCALE + factor <= u64::MAX {
        fit_or_zero(amount.value() * FACTOR_SCALE / (FACTOR_SCALE + factor))
    } else {
        u256_zero()
    }
}

/// `floor(amount / (1 - f))` for `f = factor / 10^18`; zero where `f >= 1`
/// or the result exceeds 256 bits.
pub open spec fn raised_by_factor(amount: U256, factor: u64) -> U256 {
    if factor < FACTOR_SCALE {
        fit_or_zero(amount.value() * FACTOR_SCALE / (FACTOR_SCALE - factor))
    } else {
        u256_zero()
    }
}

pub fn reduce_by_factor(amount: U256, factor: u64) -> (r: U256)
    ensures
        r == reduced_by_factor(amount, factor),
{
    if factor <= u64::MAX - FACTOR_SCALE {
        match mul_div_u256(amount, FACTOR_SCALE, FACTOR_SCALE + factor) {
            Some(v) => {
                proof {
                    lemma_value_bound(v);
                }
                v
            },
            None => U256::zero(),
        }
    } else {
        U256::zero()
    }
}

pub fn raise_by_factor(amount: U256, factor: u64) -> (r: U256)
    ensures
        r == raised_by_factor(amount, factor),
{
    if factor < FACTOR_SCALE {
        match mul_div_u256(amount, FACTOR_SCALE, FACTOR_SCALE - factor) {
            Some(v) => {
                proof {
                    lemma_value_bound(v);
                }
                v
            },
            None => U256::zero(),
        }
    } else {
        U256::zero()
    }
}

/// The sell and buy amounts shown to solvers: a volume fee makes the limit
/// worse by its factor, so that any solution leaves room for the fee.
pub open spec fn adjusted_amounts(o: domain::Order) -> (U256, U256) {
    match volume_factor(o) {
        Some(f) => match o.side {
            Side::Buy => (reduced_by_factor(o.sell.amount, f), o.buy.amount),
            Side::Sell => (o.sell.amount, raised_by_factor(o.buy.amount, f)),
        },
        None => (o.sell.amount, o.buy.amount),
    }
}

/// The token bought, with the native token replaced by its wrapped form.
pub open spec fn wrapped(token: Address, weth: Address) -> Address {
    if token.is_native_spec() {
        weth
    } else {
        token
    }
}

pub open spec fn kind_of(side: Side) -> Kind {
    match side {
        Side::Buy => Kind::Buy,
        Side::Sell => Kind::Sell,
    }
}

pub open spec fn class_of(kind: OrderKind) -> Class {
    match kind {
        OrderKind::Market => Class::Market,
        OrderKind::Limit => Class::Limit,
        OrderKind::Liquidity => Class::Liquidity,
    }
}

pub open spec fn encode_order(o: domain::Order, weth: Address) -> Order {
    Order {
        uid: o.uid,
        sell_token: o.sell.token,
        buy_token: wrapped(o.buy.token, weth),
        sell_amount: adjusted_amounts(o).0,
        buy_amount: adjusted_amounts(o).1,
        fee_amount: o.user_fee,
        kind: kind_of(o.side),
        partially_fillable: o.partially_fillable,
        class: class_of(o.kind),
    }
}

fn order_to_solver(o: &domain::Order, weth: Address) -> (r: Order)
    ensures
        r == encode_order(*o, weth),
{
    let mut sell_amount = o.sell.amount;
    let mut buy_amount = o.buy.amount;
    if o.protocol_fees.len() > 0 {
        match o.protocol_fees[0] {
            FeePolicy::Volume { factor } => match o.side {
                Side::Buy => {
                    sell_amount = reduce_by_factor(sell_amount, factor);
                },
                Side::Sell => {
                    buy_amount = raise_by_factor(buy_amount, factor);
                },
            },
            _ => {},
        }
    }
    let buy_token = if o.buy.token.is_native() {
        weth
    } else {
        o.buy.token
    };
    Order {
        uid: o.uid,
        sell_token: o.sell.token,
        buy_token,
        sell_amount,
        buy_amount,
        fee_amount: o.user_fee,
        kind: match o.side {
            Side::Buy => Kind::Buy,
            Side::Sell => Kind::Sell,
        },
        partially_fillable: o.partially_fillable,
        class: match o.kind {
            OrderKind::Market => Class::Market,
            OrderKind::Limit => Class::Limit,
            OrderKind::Liquidity => Class::Liquidity,
        },
    }
}

// ---------------------------------------------------------------------------
// Liquidity

pub open spec fn raw18(raw: u128) -> Decimal {
    Decimal { digits: raw, scale: 18 }
}

/// The two reserves of a constant-product pool, by ascending token address.
pub open spec fn sorted_reserves(a: domain::Asset, b: domain::Asset) -> Seq<
    (Address, ConstantProductReserve),
> {
    if bytes_lt(b.token.bytes(), a.token.bytes()) {
        seq![(b.token, ConstantProductReserve { balance: b.amount }), (a.token, ConstantProductReserve { balance: a.amount })]
    } else {
        seq![(a.token, ConstantProductReserve { balance: a.amount }), (b.token, ConstantProductReserve { balance: b.amount })]
    }
}

pub open spec fn encodes_constant_product(
    c: ConstantProductPool,
    id: usize,
    gas: U256,
    p: domain::UniswapV2Pool,
    fee: Decimal,
) -> bool {
    &&& c.id == id
    &&& c.address == p.address
    &&& c.router == p.router
    &&& c.gas_estimate == gas
    &&& c.tokens@ == sorted_reserves(p.reserves.0, p.reserves.1)
    &&& c.fee == fee
}

/// The fee of a plain constant-product pool: 0.3%.
pub open spec fn constant_product_fee() -> Decimal {
    Decimal { digits: 3, scale: 3 }
}

/// The fee of a Swapr pool: its basis points over 10^4.
pub open spec fn swapr_fee(bps: u32) -> Decimal {
    Decimal { digits: bps as u128, scale: 4 }
}

pub open spec fn encodes_stable_reserves(
    out: Seq<(Address, StableReserve)>,
    rs: Seq<domain::StableReserve>,
) -> bool {
    &&& out.len() == rs.len()
    &&& forall|i: int|
        0 <= i < rs.len() ==> #[trigger] out[i] == (
            rs[i].asset.token,
            StableReserve { balance: rs[i].asset.amount, scaling_factor: raw18(rs[i].scale) },
        )
}

pub open spec fn encodes_weighted_reserves(
    out: Seq<(Address, WeightedProductReserve)>,
    rs: Seq<domain::WeightedReserve>,
) -> bool {
    &&& out.len() == rs.len()
    &&& forall|i: int|
        0 <= i < rs.len() ==> #[trigger] out[i] == (
            rs[i].asset.token,
            WeightedProductReserve {
                balance: rs[i].asset.amount,
                scaling_factor: raw18(rs[i].scale),
                weight: raw18(rs[i].weight),
            },
        )
}

pub open spec fn version_of(v: domain::WeightedVersion) -> WeightedProductVersion {
    match v {
        domain::WeightedVersion::V0 => WeightedProductVersion::V0,
        domain::WeightedVersion::V3Plus => WeightedProductVersion::V3Plus,
    }
}

/// `d` is the decimal form of the fraction `q`: the digits and scale of
/// bigdecimal's division, equal to `q` in the fewest places wherever it ends
/// within 18 places.
pub open spec fn is_quotient(d: DecimalDigits, q: domain::Ratio) -> bool {
    &&& d.digits@ == quotient_parts(q.numer.value() as int, q.denom.value() as int).0
    &&& d.scale == quotient_parts(q.numer.value() as int, q.denom.value() as int).1
    &&& terminates_within_18(q.numer.value() as int, q.denom.value() as int) ==> d.equals_ratio(
        q.numer.value() as int,
        q.denom.value() as int,
    ) && least_exact_scale(q.numer.value() as int, q.denom.value() as int, d.scale as int)
}

/// Whether `dto` is what solvers are shown of the pool `l`.
pub open spec fn encodes(dto: Liquidity, l: domain::Liquidity) -> bool {
    match l.kind {
        LiquidityKind::UniswapV2(p) => match dto {
            Liquidity::ConstantProduct(c) => encodes_constant_product(c, l.id, l.gas, p, constant_product_fee()),
            _ => false,
        },
        LiquidityKind::Swapr(p) => match dto {
            Liquidity::ConstantProduct(c) => encodes_constant_product(c, l.id, l.gas, p.base, swapr_fee(p.fee_bps)),
            _ => false,
        },
        LiquidityKind::UniswapV3(p) => match dto {
            Liquidity::ConcentratedLiquidity(c) => {
                &&& c.id == l.id
                &&& c.address == p.address
                &&& c.router == p.router
                &&& c.gas_estimate == l.gas
                &&& c.tokens@ == seq![p.tokens.0, p.tokens.1]
                &&& c.sqrt_price == p.sqrt_price
                &&& c.liquidity == p.liquidity
                &&& c.tick == p.tick
                &&& c.liquidity_net@ == p.liquidity_net@
                &&& is_quotient(c.fee, p.fee)
            },
            _ => false,
        },
        LiquidityKind::BalancerV2Stable(p) => match dto {
            Liquidity::Stable(c) => {
                &&& c.id == l.id
                &&& c.address.bytes() == p.id@.subrange(0, 20)
                &&& c.balancer_pool_id == p.id
                &&& c.gas_estimate == l.gas
                &&& encodes_stable_reserves(stable_entries(c.tokens), p.reserves@)
                &&& is_quotient(c.amplification_parameter, p.amplification_parameter)
                &&& c.fee == raw18(p.fee)
            },
            _ => false,
        },
        LiquidityKind::BalancerV2Weighted(p) => match dto {
            Liquidity::WeightedProduct(c) => {
                &&& c.id == l.id
                &&& c.address.bytes() == p.id@.subrange(0, 20)
                &&& c.balancer_pool_id == p.id
                &&& c.gas_estimate == l.gas
                &&& encodes_weighted_reserves(weighted_entries(c.tokens), p.reserves@)
                &&& c.fee == raw18(p.fee)
                &&& c.version == version_of(p.version)
            },
            _ => false,
        },
        LiquidityKind::ZeroEx(_) => false,
    }
}

fn fee_to_decimal(fee: u128) -> (r: Decimal)
    ensures
        r == raw18(fee),
{
    raw_to_decimal(fee)
}

fn weight_to_decimal(weight: u128) -> (r: Decimal)
    ensures
        r == raw18(weight),
{
    raw_to_decimal(weight)
}

fn scaling_factor_to_decimal(scale: u128) -> (r: Decimal)
    ensures
        r == raw18(scale),
{
    raw_to_decimal(scale)
}

/// The address of a Balancer pool: the first 20 bytes of its id.
fn balancer_pool_address(id: &[u8; 32]) -> (r: Address)
    ensures
        r.bytes() == id@.subrange(0, 20),
{
    let mut a: [u8; 20] = [0u8; 20];
    let mut i: usize = 0;
    while i < 20
        invariant
            0 <= i <= 20,
            id@.len() == 32,
            a@.len() == 20,
            forall|j: int| 0 <= j < i ==> a@[j] == id@[j],
        decreases 20 - i,
    {
        a[i] = id[i];
        i = i + 1;
    }
    assert(a@ =~= id@.subrange(0, 20));
    Address(a)
}

fn encode_constant_product(id: usize, gas: U256, p: &domain::UniswapV2Pool, fee: Decimal) -> (r:
    ConstantProductPool)
    ensures
        encodes_constant_product(r, id, gas, *p, fee),
{
    let a = p.reserves.0;
    let b = p.reserves.1;
    let tokens = if b.token.lt(&a.token) {
        vec![(b.token, ConstantProductReserve { balance: b.amount }), (a.token, ConstantProductReserve { balance: a.amount })]
    } else {
        vec![(a.token, ConstantProductReserve { balance: a.amount }), (b.token, ConstantProductReserve { balance: b.amount })]
    };
    assert(tokens@ =~= sorted_reserves(a, b));
    ConstantProductPool { id, address: p.address, router: p.router, gas_estimate: gas, tokens, fee }
}

fn encode_stable_reserves(rs: &Vec<domain::StableReserve>) -> (r: IndexMap<Address, StableReserve>)
    requires
        forall|i: int, j: int|
            0 <= i < j < rs@.len() ==> rs@[i].asset.token.bytes() != rs@[j].asset.token.bytes(),
    ensures
        encodes_stable_reserves(stable_entries(r), rs@),
{
    let mut out = new_stable_map();
    let mut i: usize = 0;
    while i < rs.len()
        invariant
            0 <= i <= rs@.len(),
            forall|a: int, b: int|
                0 <= a < b < rs@.len() ==> rs@[a].asset.token.bytes() != rs@[b].asset.token.bytes(),
            encodes_stable_reserves(stable_entries(out), rs@.subrange(0, i as int)),
        decreases rs@.len() - i,
    {
        let x = rs[i];
        proof {
            assert forall|k: int| 0 <= k < stable_entries(out).len() implies (
            #[trigger] stable_entries(out)[k]).0.bytes() != x.asset.token.bytes() by {
                assert(rs@.subrange(0, i as int)[k] == rs@[k]);
            }
        }
        insert_stable(
            &mut out,
            x.asset.token,
            StableReserve { balance: x.asset.amount, scaling_factor: scaling_factor_to_decimal(x.scale) },
        );
        i = i + 1;
    }
    assert(rs@.subrange(0, rs@.len() as int) =~= rs@);
    out
}

fn encode_weighted_reserves(rs: &Vec<domain::WeightedReserve>) -> (r: IndexMap<Address, WeightedProductReserve>)
    requires
        forall|i: int, j: int|
            0 <= i < j < rs@.len() ==> rs@[i].asset.token.bytes() != rs@[j].asset.token.bytes(),
    ensures
        encodes_weighted_reserves(weighted_entries(r), rs@),
{
    let mut out = new_weighted_map();
    let mut i: usize = 0;
    while i < rs.len()
        invariant
            0 <= i <= rs@.len(),
            forall|a: int, b: int|
                0 <= a < b < rs@.len() ==> rs@[a].asset.token.bytes() != rs@[b].asset.token.bytes(),
            encodes_weighted_reserves(weighted_entries(out), rs@.subrange(0, i as int)),
        decreases rs@.len() - i,
    {
        let x = rs[i];
        proof {
            assert forall|k: int| 0 <= k < weighted_entries(out).len() implies (
            #[trigger] weighted_entries(out)[k]).0.bytes() != x.asset.token.bytes() by {
                assert(rs@.subrange(0, i as int)[k] == rs@[k]);
            }
        }
        insert_weighted(
            &mut out,
            x.asset.token,
            WeightedProductReserve {
                balance: x.asset.amount,
                scaling_factor: scaling_factor_to_decimal(x.scale),
                weight: weight_to_decimal(x.weight),
            },
        );
        i = i + 1;
    }
    assert(rs@.subrange(0, rs@.len() as int) =~= rs@);
    out
}

/// The pool as solvers see it.
pub fn encode_liquidity(l: &domain::Liquidity) -> (r: Liquidity)
    requires
        l.encodable(),
    ensures
        encodes(r, *l),
{
    match &l.kind {
        LiquidityKind::UniswapV2(p) => {
            Liquidity::ConstantProduct(encode_constant_product(l.id, l.gas, p, Decimal::new(3, 3)))
        },
        LiquidityKind::Swapr(p) => Liquidity::ConstantProduct(
            encode_constant_product(l.id, l.gas, &p.base, Decimal::new(p.fee_bps as u128, 4)),
        ),
        LiquidityKind::UniswapV3(p) => {
            let tokens = vec![p.tokens.0, p.tokens.1];
            assert(tokens@ =~= seq![p.tokens.0, p.tokens.1]);
            Liquidity::ConcentratedLiquidity(
                ConcentratedLiquidityPool {
                    id: l.id,
                    address: p.address,
                    router: p.router,
                    gas_estimate: l.gas,
                    tokens,
                    sqrt_price: p.sqrt_price,
                    liquidity: p.liquidity,
                    tick: p.tick,
                    liquidity_net: p.liquidity_net.clone(),
                    fee: rational_to_decimal(p.fee.numer, p.fee.denom),
                },
            )
        },
        LiquidityKind::BalancerV2Stable(p) => Liquidity::Stable(
            StablePool {
                id: l.id,
                address: balancer_pool_address(&p.id),
                balancer_pool_id: p.id,
                gas_estimate: l.gas,
                tokens: encode_stable_reserves(&p.reserves),
                amplification_parameter: rational_to_decimal(
                    p.amplification_parameter.numer,
                    p.amplification_parameter.denom,
                ),
                fee: fee_to_decimal(p.fee),
            },
        ),
        LiquidityKind::BalancerV2Weighted(p) => Liquidity::WeightedProduct(
            WeightedProductPool {
                id: l.id,
                address: balancer_pool_address(&p.id),
                balancer_pool_id: p.id,
                gas_estimate: l.gas,
                tokens: encode_weighted_reserves(&p.reserves),
                fee: fee_to_decimal(p.fee),
                version: match p.version {
                    domain::WeightedVersion::V0 => WeightedProductVersion::V0,
                    domain::WeightedVersion::V3Plus => WeightedProductVersion::V3Plus,
                },
            },
        ),
        LiquidityKind::ZeroEx(_) => vstd::pervasive::unreached(),
    }
}

// ---------------------------------------------------------------------------
// The snapshot

fn token_to_solver(t: &domain::TokenInfo) -> (r: Token)
    ensures
        r == token_of(*t),
{
    Token {
        decimals: t.decimals,
        symbol: match &t.symbol {
            Some(s) => Some(s.clone()),
            None => None,
        },
        reference_price: t.price,
        available_balance: t.available_balance,
        trusted: t.trusted,
    }
}

fn seed_tokens(tokens: &Vec<domain::TokenInfo>) -> (r: Vec<(Address, Token)>)
    ensures
        r@ == tokens@.map_values(|t: domain::TokenInfo| (t.address, token_of(t))),
{
    let mut out: Vec<(Address, Token)> = Vec::new();
    let mut i: usize = 0;
    while i < tokens.len()
        invariant
            0 <= i <= tokens@.len(),
            out@ == tokens@.subrange(0, i as int).map_values(
                |t: domain::TokenInfo| (t.address, token_of(t)),
            ),
        decreases tokens@.len() - i,
    {
        let t = &tokens[i];
        out.push((t.address, token_to_solver(t)));
        assert(tokens@.subrange(0, i + 1).map_values(
            |t: domain::TokenInfo| (t.address, token_of(t)),
        ) =~= tokens@.subrange(0, i as int).map_values(
            |t: domain::TokenInfo| (t.address, token_of(t)),
        ).push((t.address, token_of(*t))));
        i = i + 1;
    }
    assert(tokens@.subrange(0, tokens@.len() as int) =~= tokens@);
    out
}

fn contains_key(entries: &Vec<(Address, Token)>, a: &Address) -> (r: bool)
    ensures
        r == has_key(entries@, *a),
{
    let mut i: usize = 0;
    while i < entries.len()
        invariant
            0 <= i <= entries@.len(),
            forall|k: int| 0 <= k < i ==> entries@[k].0.bytes() != a.bytes(),
        decreases entries@.len() - i,
    {
        if entries[i].0 == *a {
            return true;
        }
        i = i + 1;
    }
    false
}

fn pool_token_list(l: &domain::Liquidity) -> (r: Vec<Address>)
    ensures
        r@ == l.tokens(),
{
    let r = match &l.kind {
        LiquidityKind::UniswapV2(p) => vec![p.reserves.0.token, p.reserves.1.token],
        LiquidityKind::Swapr(p) => vec![p.base.reserves.0.token, p.base.reserves.1.token],
        LiquidityKind::UniswapV3(p) => vec![p.tokens.0, p.tokens.1],
        LiquidityKind::ZeroEx(o) => vec![o.maker.token, o.taker.token],
        LiquidityKind::BalancerV2Stable(p) => {
            let mut out: Vec<Address> = Vec::new();
            let mut i: usize = 0;
            while i < p.reserves.len()
                invariant
                    0 <= i <= p.reserves@.len(),
                    out@ == p.reserves@.subrange(0, i as int).map_values(
                        |r: domain::StableReserve| r.asset.token,
                    ),
                decreases p.reserves@.len() - i,
            {
                out.push(p.reserves[i].asset.token);
                assert(p.reserves@.subrange(0, i + 1).map_values(
                    |r: domain::StableReserve| r.asset.token,
                ) =~= out@);
                i = i + 1;
            }
            assert(p.reserves@.subrange(0, p.reserves@.len() as int) =~= p.reserves@);
            out
        },
        LiquidityKind::BalancerV2Weighted(p) => {
            let mut out: Vec<Address> = Vec::new();
            let mut i: usize = 0;
            while i < p.reserves.len()
                invariant
                    0 <= i <= p.reserves@.len(),
                    out@ == p.reserves@.subrange(0, i as int).map_values(
                        |r: domain::WeightedReserve| r.asset.token,
                    ),
                decreases p.reserves@.len() - i,
            {
                out.push(p.reserves[i].asset.token);
                assert(p.reserves@.subrange(0, i + 1).map_values(
                    |r: domain::WeightedReserve| r.asset.token,
                ) =~= out@);
                i = i + 1;
            }
            assert(p.reserves@.subrange(0, p.reserves@.len() as int) =~= p.reserves@);
            out
        },
    };
    assert(r@ =~= l.tokens());
    r
}

/// The token map: the auction's metadata, then a default entry for each
/// pool token that it lacks.
fn collect_tokens(tokens: &Vec<domain::TokenInfo>, liquidity: &[domain::Liquidity]) -> (r: Vec<
    (Address, Token),
>)
    ensures
        r@ == token_map(tokens@, liquidity@),
{
    let mut out = seed_tokens(tokens);
    let ghost seeded = out@;
    let mut i: usize = 0;
    while i < liquidity.len()
        invariant
            0 <= i <= liquidity@.len(),
            seeded == tokens@.map_values(|t: domain::TokenInfo| (t.address, token_of(t))),
            out@ == with_defaults(seeded, pool_tokens(liquidity@.subrange(0, i as int))),
        decreases liquidity@.len() - i,
    {
        let list = pool_token_list(&liquidity[i]);
        let ghost before = pool_tokens(liquidity@.subrange(0, i as int));
        let mut j: usize = 0;
        assert(before + list@.subrange(0, 0) =~= before);
        while j < list.len()
            invariant
                0 <= j <= list@.len(),
                out@ == with_defaults(seeded, before + list@.subrange(0, j as int)),
            decreases list@.len() - j,
        {
            let a = list[j];
            let ghost prefix = before + list@.subrange(0, j as int);
            assert((before + list@.subrange(0, j + 1)).drop_last() =~= prefix);
            assert((before + list@.subrange(0, j + 1)).last() == a);
            if !contains_key(&out, &a) {
                out.push((a, Token::default()));
            }
            j = j + 1;
        }
        assert(list@.subrange(0, list@.len() as int) =~= list@);
        assert(liquidity@.subrange(0, i + 1).drop_last() =~= liquidity@.subrange(0, i as int));
        assert(liquidity@.subrange(0, i + 1).last() == liquidity@[i as int]);
        i = i + 1;
    }
    assert(liquidity@.subrange(0, liquidity@.len() as int) =~= liquidity@);
    out
}

/// `r` is the snapshot of `auction` and `liquidity` that solvers are sent:
/// the auction's id in decimal, the token map, each order with its limits
/// adjusted, each pool in the shape of its kind, the gas price and the
/// solvers' deadline.
pub open spec fn is_snapshot(
    r: Auction,
    auction: domain::Auction,
    liquidity: Seq<domain::Liquidity>,
    weth: Address,
) -> bool {
    &&& r.id.is_none() == auction.id.is_none()
    &&& r.id matches Some(s) ==> s@ == decimal_text(auction.id.unwrap() as int)
    &&& r.tokens@ == token_map(auction.tokens@, liquidity)
    &&& r.orders@.len() == auction.orders@.len()
    &&& forall|k: int|
        0 <= k < auction.orders@.len() ==> #[trigger] r.orders@[k] == encode_order(
            auction.orders@[k],
            weth,
        )
    &&& r.liquidity@.len() == liquidity.len()
    &&& forall|k: int| 0 <= k < liquidity.len() ==> encodes(#[trigger] r.liquidity@[k], liquidity[k])
    &&& r.effective_gas_price == auction.effective_gas_price
    &&& r.deadline == auction.deadline.solvers
}

/// Two pools of the snapshot that hold the same values, field by field.
pub open spec fn same_pool(a: Liquidity, b: Liquidity) -> bool {
    match (a, b) {
        (Liquidity::ConstantProduct(x), Liquidity::ConstantProduct(y)) => {
            &&& x.id == y.id
            &&& x.address == y.address
            &&& x.router == y.router
            &&& x.gas_estimate == y.gas_estimate
            &&& x.tokens@ == y.tokens@
            &&& x.fee == y.fee
        },
        (Liquidity::WeightedProduct(x), Liquidity::WeightedProduct(y)) => {
            &&& x.id == y.id
            &&& x.address.bytes() == y.address.bytes()
            &&& x.balancer_pool_id == y.balancer_pool_id
            &&& x.gas_estimate == y.gas_estimate
            &&& weighted_entries(x.tokens) == weighted_entries(y.tokens)
            &&& x.fee == y.fee
            &&& x.version == y.version
        },
        (Liquidity::Stable(x), Liquidity::Stable(y)) => {
            &&& x.id == y.id
            &&& x.address.bytes() == y.address.bytes()
            &&& x.balancer_pool_id == y.balancer_pool_id
            &&& x.gas_estimate == y.gas_estimate
            &&& stable_entries(x.tokens) == stable_entries(y.tokens)
            &&& x.amplification_parameter.digits@ == y.amplification_parameter.digits@
            &&& x.amplification_parameter.scale == y.amplification_parameter.scale
            &&& x.fee == y.fee
        },
        (Liquidity::ConcentratedLiquidity(x), Liquidity::ConcentratedLiquidity(y)) => {
            &&& x.id == y.id
            &&& x.address == y.address
            &&& x.router == y.router
            &&& x.gas_estimate == y.gas_estimate
            &&& x.tokens@ == y.tokens@
            &&& x.sqrt_price == y.sqrt_price
            &&& x.liquidity == y.liquidity
            &&& x.tick == y.tick
            &&& x.liquidity_net@ == y.liquidity_net@
            &&& x.fee.digits@ == y.fee.digits@
            &&& x.fee.scale == y.fee.scale
        },
        (Liquidity::LimitOrder(x), Liquidity::LimitOrder(y)) => x == y,
        _ => false,
    }
}

/// Two snapshots that hold the same values, field by field and in the same order.
pub open spec fn same_snapshot(a: Auction, b: Auction) -> bool {
    &&& a.id.is_none() == b.id.is_none()
    &&& a.id matches Some(s) ==> s@ == b.id.unwrap()@
    &&& a.tokens@ == b.tokens@
    &&& a.orders@ == b.orders@
    &&& a.liquidity@.len() == b.liquidity@.len()
    &&& forall|k: int| 0 <= k < a.liquidity@.len() ==> same_pool(#[trigger] a.liquidity@[k], b.liquidity@[k])
    &&& a.effective_gas_price == b.effective_gas_price
    &&& a.deadline == b.deadline
}

impl Auction {
    /// The snapshot of `auction` and the round's `liquidity` that solvers
    /// are sent. `weth` is the wrapped form of the native token.
    pub fn new(auction: &domain::Auction, liquidity: &[domain::Liquidity], weth: Address) -> (r:
        Auction)
        requires
            forall|k: int| 0 <= k < liquidity@.len() ==> (#[trigger] liquidity@[k]).encodable(),
        ensures
            is_snapshot(r, *auction, liquidity@, weth),
    {
        let tokens = collect_tokens(&auction.tokens, liquidity);
        let mut orders: Vec<Order> = Vec::new();
        let mut i: usize = 0;
        while i < auction.orders.len()
            invariant
                0 <= i <= auction.orders@.len(),
                orders@.len() == i,
                forall|k: int|
                    0 <= k < i ==> #[trigger] orders@[k] == encode_order(auction.orders@[k], weth),
            decreases auction.orders@.len() - i,
        {
            orders.push(order_to_solver(&auction.orders[i], weth));
            i = i + 1;
        }
        let mut pools: Vec<Liquidity> = Vec::new();
        let mut i: usize = 0;
        while i < liquidity.len()
            invariant
                0 <= i <= liquidity@.len(),
                forall|k: int| 0 <= k < liquidity@.len() ==> (#[trigger] liquidity@[k]).encodable(),
                pools@.len() == i,
                forall|k: int| 0 <= k < i ==> encodes(#[trigger] pools@[k], liquidity@[k]),
            decreases liquidity@.len() - i,
        {
            pools.push(encode_liquidity(&liquidity[i]));
            i = i + 1;
        }
        let id = match auction.id {
            Some(n) => Some(id_text(n)),
            None => None,
        };
        Auction {
            id,
            tokens,
            orders,
            liquidity: pools,
            effective_gas_price: auction.effective_gas_price,
            deadline: auction.deadline.solvers,
        }
    }
}

} // verus!
