//! The auction round as the protocol holds it: orders, token metadata and
//! liquidity pools, before anything is shown to a solver.
use vstd::prelude::*;
use crate::bytes::{Address, OrderUid};
use crate::u256::U256;

verus! {

/// The fixed-point scale of fee factors: a factor `f` is held as `f * 10^18`.
pub const FACTOR_SCALE: u64 = 1_000_000_000_000_000_000;

/// An amount of one token.
#[derive(Clone, Copy, Debug)]
pub struct Asset {
    pub token: Address,
    pub amount: U256,
}

#[derive(Clone, Copy, Debug, PartialEq, Eq, Structural)]
pub enum Side {
    Buy,
    Sell,
}

#[derive(Clone, Copy, Debug, PartialEq, Eq, Structural)]
pub enum OrderKind {
    Market,
    Limit,
    Liquidity,
}

/// A protocol fee attached to an order; factors are scaled by `FACTOR_SCALE`.
#[derive(Clone, Copy, Debug, PartialEq, Eq, Structural)]
pub enum FeePolicy {
    /// A share of the surplus, capped at a share of the volume.
    Surplus { factor: u64, max_volume_factor: u64 },
    /// A share of the traded volume.
    Volume { factor: u64 },
}

/// A user order of the auction. Its amounts are what is left of it to fill.
#[derive(Debug)]
pub struct Order {
    pub uid: OrderUid,
    pub sell: Asset,
    pub buy: Asset,
    pub user_fee: U256,
    pub side: Side,
    pub kind: OrderKind,
    pub partially_fillable: bool,
    pub protocol_fees: Vec<FeePolicy>,
}

impl Order {
    /// The amount that the order's side fixes: sold for a sell order,
    /// bought for a buy order.
    pub open spec fn target_spec(&self) -> U256 {
        match self.side {
            Side::Sell => self.sell.amount,
            Side::Buy => self.buy.amount,
        }
    }

    /// Whether the solver, not the protocol, sets the fee of this order.
    pub open spec fn solver_determines_fee_spec(&self) -> bool {
        self.kind == OrderKind::Limit
    }

    pub fn target(&self) -> (r: U256)
        ensures
            r == self.target_spec(),
    {
        match self.side {
            Side::Sell => self.sell.amount,
            Side::Buy => self.buy.amount,
        }
    }

    pub fn solver_determines_fee(&self) -> (r: bool)
        ensures
            r == self.solver_determines_fee_spec(),
    {
        match self.kind {
            OrderKind::Limit => true,
            _ => false,
        }
    }

    /// Whether `other` is a copy of this order.
    pub open spec fn same_as(&self, other: &Order) -> bool {
        &&& self.uid == other.uid
        &&& self.sell == other.sell
        &&& self.buy == other.buy
        &&& self.user_fee == other.user_fee
        &&& self.side == other.side
        &&& self.kind == other.kind
        &&& self.partially_fillable == other.partially_fillable
        &&& self.protocol_fees@ == other.protocol_fees@
    }

    pub fn snapshot(&self) -> (r: Order)
        ensures
            r.same_as(self),
    {
        let fees = self.protocol_fees.clone();
        assert(fees@ =~= self.protocol_fees@);
        Order {
            uid: self.uid,
            sell: self.sell,
            buy: self.buy,
            user_fee: self.user_fee,
            side: self.side,
            kind: self.kind,
            partially_fillable: self.partially_fillable,
            protocol_fees: fees,
        }
    }
}

/// Metadata of a token traded in the auction.
#[derive(Debug)]
pub struct TokenInfo {
    pub address: Address,
    pub decimals: Option<u8>,
    pub symbol: Option<String>,
    pub price: Option<U256>,
    pub available_balance: U256,
    pub trusted: bool,
}

/// The two deadlines of a round, as nanoseconds since the epoch.
#[derive(Clone, Copy, Debug, PartialEq, Eq, Structural)]
pub struct Deadline {
    /// When the driver must hand in its settlement.
    pub driver: i64,
    /// When solvers must answer the driver; earlier than `driver`.
    pub solvers: i64,
}

/// One auction round as the protocol holds it.
#[derive(Debug)]
pub struct Auction {
    pub id: Option<i64>,
    pub tokens: Vec<TokenInfo>,
    pub orders: Vec<Order>,
    pub effective_gas_price: U256,
    pub deadline: Deadline,
}

pub open spec fn distinct_token_addresses(tokens: Seq<TokenInfo>) -> bool {
    forall|i: int, j: int|
        0 <= i < j < tokens.len() ==> tokens[i].address.bytes() != tokens[j].address.bytes()
}

impl Auction {
    /// Token metadata is keyed by address.
    pub open spec fn wf(&self) -> bool {
        distinct_token_addresses(self.tokens@)
    }
}

/// An exact fraction.
#[derive(Clone, Copy, Debug, PartialEq, Eq, Structural)]
pub struct Ratio {
    pub numer: U256,
    pub denom: U256,
}

/// A Uniswap-v2-style pool of two distinct tokens.
#[derive(Clone, Copy, Debug)]
pub struct UniswapV2Pool {
    pub address: Address,
    pub router: Address,
    pub reserves: (Asset, Asset),
}

/// A Swapr pool: a constant-product pool with a fee of its own in basis points.
#[derive(Clone, Copy, Debug)]
pub struct SwaprPool {
    pub base: UniswapV2Pool,
    pub fee_bps: u32,
}

/// A concentrated-liquidity pool in the style of Uniswap v3.
#[derive(Debug)]
pub struct UniswapV3Pool {
    pub address: Address,
    pub router: Address,
    pub tokens: (Address, Address),
    pub sqrt_price: U256,
    pub liquidity: u128,
    pub tick: i32,
    /// Net liquidity added when the price crosses each tick.
    pub liquidity_net: std::collections::BTreeMap<i32, i128>,
    pub fee: Ratio,
}

/// A token of a Balancer stable pool; `scale` is scaled by 10^18.
#[derive(Clone, Copy, Debug)]
pub struct StableReserve {
    pub asset: Asset,
    pub scale: u128,
}

/// A Balancer v2 stable pool; `fee` is scaled by 10^18.
#[derive(Debug)]
pub struct StablePoolState {
    pub id: [u8; 32],
    pub reserves: Vec<StableReserve>,
    pub amplification_parameter: Ratio,
    pub fee: u128,
}

/// A token of a Balancer weighted pool; `scale` and `weight` are scaled by 10^18.
#[derive(Clone, Copy, Debug)]
pub struct WeightedReserve {
    pub asset: Asset,
    pub scale: u128,
    pub weight: u128,
}

#[derive(Clone, Copy, Debug, PartialEq, Eq, Structural)]
pub enum WeightedVersion {
    V0,
    V3Plus,
}

/// A Balancer v2 weighted pool; `fee` is scaled by 10^18.
#[derive(Debug)]
pub struct WeightedPoolState {
    pub id: [u8; 32],
    pub reserves: Vec<WeightedReserve>,
    pub fee: u128,
    pub version: WeightedVersion,
}

/// A 0x limit order offered as liquidity.
#[derive(Clone, Copy, Debug)]
pub struct ZeroExOrder {
    pub maker: Asset,
    pub taker: Asset,
}

#[derive(Debug)]
pub enum LiquidityKind {
    UniswapV2(UniswapV2Pool),
    UniswapV3(UniswapV3Pool),
    BalancerV2Stable(StablePoolState),
    BalancerV2Weighted(WeightedPoolState),
    Swapr(SwaprPool),
    ZeroEx(ZeroExOrder),
}

/// A source of liquidity of the round, with the id the round gave it.
#[derive(Debug)]
pub struct Liquidity {
    pub id: usize,
    pub gas: U256,
    pub kind: LiquidityKind,
}

impl Liquidity {
    /// A source that the encoder can show to solvers: not a 0x order, with
    /// distinct tokens, and with fractions whose denominators are not zero.
    pub open spec fn encodable(&self) -> bool {
        match self.kind {
            LiquidityKind::UniswapV3(p) => p.fee.denom.value() > 0,
            LiquidityKind::BalancerV2Stable(p) => {
                &&& p.amplification_parameter.denom.value() > 0
                &&& forall|i: int, j: int|
                    0 <= i < j < p.reserves@.len() ==> p.reserves@[i].asset.token.bytes()
                        != p.reserves@[j].asset.token.bytes()
            },
            LiquidityKind::BalancerV2Weighted(p) => forall|i: int, j: int|
                0 <= i < j < p.reserves@.len() ==> p.reserves@[i].asset.token.bytes()
                    != p.reserves@[j].asset.token.bytes(),
            LiquidityKind::UniswapV2(p) => p.reserves.0.token.bytes() != p.reserves.1.token.bytes(),
            LiquidityKind::Swapr(p) => p.base.reserves.0.token.bytes()
                != p.base.reserves.1.token.bytes(),
            LiquidityKind::ZeroEx(_) => false,
        }
    }

    /// The tokens that the source holds reserves of, in its own order.
    pub open spec fn tokens(&self) -> Seq<Address> {
        match self.kind {
            LiquidityKind::UniswapV2(p) => seq![p.reserves.0.token, p.reserves.1.token],
            LiquidityKind::Swapr(p) => seq![p.base.reserves.0.token, p.base.reserves.1.token],
            LiquidityKind::UniswapV3(p) => seq![p.tokens.0, p.tokens.1],
            LiquidityKind::BalancerV2Stable(p) => p.reserves@.map_values(
                |r: StableReserve| r.asset.token,
            ),
            LiquidityKind::BalancerV2Weighted(p) => p.reserves@.map_values(
                |r: WeightedReserve| r.asset.token,
            ),
            LiquidityKind::ZeroEx(o) => seq![o.maker.token, o.taker.token],
        }
    }

    /// Whether `other` is a copy of this source.
    pub open spec fn same_as(&self, other: &Liquidity) -> bool {
        &&& self.id == other.id
        &&& self.gas == other.gas
        &&& match (self.kind, other.kind) {
            (LiquidityKind::UniswapV2(a), LiquidityKind::UniswapV2(b)) => a == b,
            (LiquidityKind::Swapr(a), LiquidityKind::Swapr(b)) => a == b,
            (LiquidityKind::ZeroEx(a), LiquidityKind::ZeroEx(b)) => a == b,
            (LiquidityKind::UniswapV3(a), LiquidityKind::UniswapV3(b)) => {
                &&& a.address == b.address
                &&& a.router == b.router
                &&& a.tokens == b.tokens
                &&& a.sqrt_price == b.sqrt_price
                &&& a.liquidity == b.liquidity
                &&& a.tick == b.tick
                &&& a.liquidity_net@ == b.liquidity_net@
                &&& a.fee == b.fee
            },
            (LiquidityKind::BalancerV2Stable(a), LiquidityKind::BalancerV2Stable(b)) => {
                &&& a.id == b.id
                &&& a.reserves@ == b.reserves@
                &&& a.amplification_parameter == b.amplification_parameter
                &&& a.fee == b.fee
            },
            (LiquidityKind::BalancerV2Weighted(a), LiquidityKind::BalancerV2Weighted(b)) => {
                &&& a.id == b.id
                &&& a.reserves@ == b.reserves@
                &&& a.fee == b.fee
                &&& a.version == b.version
            },
            _ => false,
        }
    }

    pub fn snapshot(&self) -> (r: Liquidity)
        ensures
            r.same_as(self),
    {
        let kind = match &self.kind {
            LiquidityKind::UniswapV2(p) => LiquidityKind::UniswapV2(*p),
            LiquidityKind::Swapr(p) => LiquidityKind::Swapr(*p),
            LiquidityKind::ZeroEx(o) => LiquidityKind::ZeroEx(*o),
            LiquidityKind::UniswapV3(p) => {
                let net = p.liquidity_net.clone();
                LiquidityKind::UniswapV3(
                    UniswapV3Pool {
                        address: p.address,
                        router: p.router,
                        tokens: p.tokens,
                        sqrt_price: p.sqrt_price,
                        liquidity: p.liquidity,
                        tick: p.tick,
                        liquidity_net: net,
                        fee: p.fee,
                    },
                )
            },
            LiquidityKind::BalancerV2Stable(p) => {
                let reserves = p.reserves.clone();
                assert(reserves@ =~= p.reserves@);
                LiquidityKind::BalancerV2Stable(
                    StablePoolState {
                        id: p.id,
                        reserves,
                        amplification_parameter: p.amplification_parameter,
                        fee: p.fee,
                    },
                )
            },
            LiquidityKind::BalancerV2Weighted(p) => {
                let reserves = p.reserves.clone();
                assert(reserves@ =~= p.reserves@);
                LiquidityKind::BalancerV2Weighted(
                    WeightedPoolState { id: p.id, reserves, fee: p.fee, version: p.version },
                )
            },
        };
        Liquidity { id: self.id, gas: self.gas, kind }
    }
}

} // verus!
