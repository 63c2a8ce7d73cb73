//! Validated solutions: trades bound to auction orders, interactions bound
//! to the round's liquidity, clearing prices and a score.
use vstd::prelude::*;
use crate::bytes::Address;
use crate::domain;
use crate::domain::{Asset, Side};
use crate::u256::{u256_zero, U256};

verus! {

/// The fee charged on a fulfilled order.
#[derive(Clone, Copy, Debug, PartialEq, Eq, Structural)]
pub enum Fee {
    /// The fee signed with the order applies.
    Static,
    /// The solver chose this fee, in sell token.
    Dynamic(U256),
}

/// Why a trade could not be built.
#[derive(Clone, Copy, Debug, PartialEq, Eq, Structural)]
pub enum TradeError {
    /// A dynamic fee for an order whose fee is fixed, or the other way round.
    InvalidFee,
    /// An executed amount that the order does not allow.
    InvalidExecutedAmount,
}

/// Whether `executed` (plus `fee` for a sell order) is a valid fill of an
/// order that fixes `target` on its side.
pub open spec fn valid_execution(
    side: Side,
    target: U256,
    partially_fillable: bool,
    executed: U256,
    fee: U256,
) -> bool {
    let with_fee = match side {
        Side::Sell => (executed.value() + fee.value()) as int,
        Side::Buy => executed.value() as int,
    };
    if partially_fillable {
        with_fee <= target.value()
    } else {
        with_fee == target.value()
    }
}

fn check_execution(side: Side, target: U256, partially_fillable: bool, executed: U256, fee: U256) -> (r: bool)
    ensures
        r == valid_execution(side, target, partially_fillable, executed, fee),
{
    let with_fee: U256 = match side {
        Side::Sell => {
            match executed.checked_add(&fee) {
                Some(v) => v,
                None => {
                    proof {
                        crate::u256::lemma_value_bound(target);
                    }
                    return false;
                },
            }
        },
        Side::Buy => executed,
    };
    if partially_fillable {
        with_fee.le(&target)
    } else {
        with_fee.same(&target)
    }
}

pub open spec fn fee_amount(fee: Fee) -> U256 {
    match fee {
        Fee::Static => u256_zero(),
        Fee::Dynamic(v) => v,
    }
}

/// What building a fulfillment of `order` yields, short of the order itself.
pub open spec fn fulfillment_check(order: domain::Order, executed: U256, fee: Fee) -> Result<(), TradeError> {
    if (fee == Fee::Static) == order.solver_determines_fee_spec() {
        Err(TradeError::InvalidFee)
    } else if !valid_execution(order.side, order.target_spec(), order.partially_fillable, executed, fee_amount(fee)) {
        Err(TradeError::InvalidExecutedAmount)
    } else {
        Ok(())
    }
}

/// An auction order, filled by a solution.
#[derive(Debug)]
pub struct Fulfillment {
    pub order: domain::Order,
    pub executed: U256,
    pub fee: Fee,
}

impl Fulfillment {
    /// A fill of `order`: the fee is dynamic exactly for orders whose fee
    /// the solver determines, and the executed amount fits the order.
    pub fn new(order: domain::Order, executed: U256, fee: Fee) -> (r: Result<Fulfillment, TradeError>)
        ensures
            fulfillment_check(order, executed, fee) matches Err(e) ==> r == Err::<Fulfillment, TradeError>(e),
            fulfillment_check(order, executed, fee) is Ok ==> r == Ok::<Fulfillment, TradeError>(
                Fulfillment { order, executed, fee },
            ),
    {
        let fixed = match fee {
            Fee::Static => true,
            Fee::Dynamic(_) => false,
        };
        if fixed == order.solver_determines_fee() {
            return Err(TradeError::InvalidFee);
        }
        let amount = match fee {
            Fee::Static => U256::zero(),
            Fee::Dynamic(v) => v,
        };
        if !check_execution(order.side, order.target(), order.partially_fillable, executed, amount) {
            return Err(TradeError::InvalidExecutedAmount);
        }
        Ok(Fulfillment { order, executed, fee })
    }
}

#[derive(Clone, Copy, Debug, PartialEq, Eq, Structural)]
pub enum SellTokenBalance {
    Erc20,
    Internal,
    External,
}

#[derive(Clone, Copy, Debug, PartialEq, Eq, Structural)]
pub enum BuyTokenBalance {
    Erc20,
    Internal,
}

#[derive(Clone, Copy, Debug, PartialEq, Eq, Structural)]
pub enum SigningScheme {
    Eip712,
    EthSign,
    PreSign,
    Eip1271,
}

#[derive(Debug)]
pub struct Signature {
    pub scheme: SigningScheme,
    pub data: Vec<u8>,
    /// The party the order is attributed to.
    pub signer: Address,
}

/// An order that a solver creates for its own solution.
#[derive(Debug)]
pub struct JitOrder {
    pub sell: Asset,
    pub buy: Asset,
    pub fee: U256,
    pub receiver: Address,
    pub valid_to: u32,
    pub app_data: [u8; 32],
    pub side: Side,
    pub partially_fillable: bool,
    pub sell_token_balance: SellTokenBalance,
    pub buy_token_balance: BuyTokenBalance,
    pub signature: Signature,
}

impl JitOrder {
    pub open spec fn target_spec(&self) -> U256 {
        match self.side {
            Side::Sell => self.sell.amount,
            Side::Buy => self.buy.amount,
        }
    }
}

/// A solver's own order, filled by its solution.
#[derive(Debug)]
pub struct Jit {
    pub order: JitOrder,
    pub executed: U256,
}

pub open spec fn jit_valid(order: JitOrder, executed: U256) -> bool {
    valid_execution(order.side, order.target_spec(), order.partially_fillable, executed, u256_zero())
}

impl Jit {
    /// A fill of `order` by `executed`, which must be the whole target amount
    /// unless the order is partially fillable.
    pub fn new(order: JitOrder, executed: U256) -> (r: Result<Jit, TradeError>)
        ensures
            jit_valid(order, executed) ==> r == Ok::<Jit, TradeError>(Jit { order, executed }),
            !jit_valid(order, executed) ==> r == Err::<Jit, TradeError>(TradeError::InvalidExecutedAmount),
    {
        let target = match order.side {
            Side::Sell => order.sell.amount,
            Side::Buy => order.buy.amount,
        };
        if check_execution(order.side, target, order.partially_fillable, executed, U256::zero()) {
            Ok(Jit { order, executed })
        } else {
            Err(TradeError::InvalidExecutedAmount)
        }
    }
}

#[derive(Debug)]
pub enum Trade {
    Fulfillment(Fulfillment),
    Jit(Jit),
}

/// An allowance that an interaction needs: `spender` may move `amount` of `token`.
#[derive(Clone, Copy, Debug)]
pub struct Allowance {
    pub token: Address,
    pub spender: Address,
    pub amount: U256,
}

/// A call that the solver wrote itself.
#[derive(Debug)]
pub struct Custom {
    pub target: Address,
    pub value: U256,
    pub call_data: Vec<u8>,
    pub allowances: Vec<Allowance>,
    pub inputs: Vec<Asset>,
    pub outputs: Vec<Asset>,
    pub internalize: bool,
}

/// A swap through a source of the round's liquidity.
#[derive(Debug)]
pub struct LiquidityInteraction {
    pub liquidity: domain::Liquidity,
    pub input: Asset,
    pub output: Asset,
    pub internalize: bool,
}

#[derive(Debug)]
pub enum Interaction {
    Custom(Custom),
    Liquidity(LiquidityInteraction),
}

/// How a solution is ranked.
#[derive(Clone, Copy, Debug, PartialEq, Eq, Structural)]
pub enum SolverScore {
    /// The score the solver declared.
    Solver(U256),
    /// The solver's success probability, as the IEEE 754 bits of a 64-bit
    /// float.
    RiskAdjusted(u64),
    /// By the surplus the solution realizes.
    Surplus,
}

/// Why a protocol fee could not be taken from a solution.
#[derive(Clone, Copy, Debug, PartialEq, Eq, Structural)]
pub enum ProtocolFeeError {
    /// A fulfilled order has a protocol fee but a static fee; the protocol fee
    /// is withheld on top of a fee that the solver sets.
    StaticFee,
}

/// Why a solution could not be built.
#[derive(Clone, Copy, Debug, PartialEq, Eq, Structural)]
pub enum SolutionError {
    /// A traded token of a fulfilled order has no clearing price.
    InvalidClearingPrices,
    /// The protocol fees of the fulfilled orders cannot be incorporated.
    ProtocolFee(ProtocolFeeError),
}

/// The protocol fees of a trade can be taken from it: a fulfillment whose
/// order has a protocol fee has a dynamic fee.
pub open spec fn fee_incorporable(t: Trade) -> bool {
    match t {
        Trade::Fulfillment(f) => !(f.fee == Fee::Static && f.order.protocol_fees@.len() > 0),
        Trade::Jit(_) => true,
    }
}

pub open spec fn fees_incorporable(trades: Seq<Trade>) -> bool {
    forall|i: int| 0 <= i < trades.len() ==> fee_incorporable(#[trigger] trades[i])
}

pub open spec fn has_price(prices: Seq<(Address, U256)>, token: Address) -> bool {
    exists|i: int| 0 <= i < prices.len() && #[trigger] prices[i].0.bytes() == token.bytes()
}

/// The token as it is settled: the native token as its wrapped form.
pub open spec fn settled_token(token: Address, weth: Address) -> Address {
    if token.is_native_spec() {
        weth
    } else {
        token
    }
}

/// A fulfilled order has a clearing price for both of its tokens.
pub open spec fn trade_priced(t: Trade, prices: Seq<(Address, U256)>, weth: Address) -> bool {
    match t {
        Trade::Fulfillment(f) => has_price(prices, settled_token(f.order.sell.token, weth))
            && has_price(prices, settled_token(f.order.buy.token, weth)),
        Trade::Jit(_) => true,
    }
}

/// Every fulfilled order has a clearing price for both of its tokens.
pub open spec fn prices_cover(trades: Seq<Trade>, prices: Seq<(Address, U256)>, weth: Address) -> bool {
    forall|i: int| 0 <= i < trades.len() ==> trade_priced(#[trigger] trades[i], prices, weth)
}

/// A solution, validated against its auction.
#[derive(Debug)]
pub struct Solution {
    pub id: u64,
    pub trades: Vec<Trade>,
    pub prices: Vec<(Address, U256)>,
    pub interactions: Vec<Interaction>,
    pub solver: Address,
    pub score: SolverScore,
    pub weth: Address,
    pub gas: Option<u64>,
}

fn find_price(prices: &Vec<(Address, U256)>, token: &Address) -> (r: bool)
    ensures
        r == has_price(prices@, *token),
{
    let mut i: usize = 0;
    while i < prices.len()
        invariant
            0 <= i <= prices@.len(),
            forall|k: int| 0 <= k < i ==> prices@[k].0.bytes() != token.bytes(),
        decreases prices@.len() - i,
    {
        if prices[i].0 == *token {
            return true;
        }
        i = i + 1;
    }
    false
}

fn settle_token(token: Address, weth: Address) -> (r: Address)
    ensures
        r == settled_token(token, weth),
{
    if token.is_native() {
        weth
    } else {
        token
    }
}

impl Solution {
    /// A solution from its parts; it fails where a fulfilled order's token
    /// has no clearing price, and else where a protocol fee cannot be taken.
    pub fn new(
        id: u64,
        trades: Vec<Trade>,
        prices: Vec<(Address, U256)>,
        interactions: Vec<Interaction>,
        solver: Address,
        score: SolverScore,
        weth: Address,
        gas: Option<u64>,
    ) -> (r: Result<Solution, SolutionError>)
        ensures
            prices_cover(trades@, prices@, weth) && fees_incorporable(trades@) ==> r == Ok::<
                Solution,
                SolutionError,
            >(Solution { id, trades, prices, interactions, solver, score, weth, gas }),
            prices_cover(trades@, prices@, weth) && !fees_incorporable(trades@) ==> r == Err::<
                Solution,
                SolutionError,
            >(SolutionError::ProtocolFee(ProtocolFeeError::StaticFee)),
            !prices_cover(trades@, prices@, weth) ==> r == Err::<Solution, SolutionError>(
                SolutionError::InvalidClearingPrices,
            ),
    {
        let mut i: usize = 0;
        while i < trades.len()
            invariant
                0 <= i <= trades@.len(),
                forall|k: int| 0 <= k < i ==> trade_priced(#[trigger] trades@[k], prices@, weth),
            decreases trades@.len() - i,
        {
            match &trades[i] {
                Trade::Fulfillment(f) => {
                    let sell = settle_token(f.order.sell.token, weth);
                    let buy = settle_token(f.order.buy.token, weth);
                    if !find_price(&prices, &sell) || !find_price(&prices, &buy) {
                        return Err(SolutionError::InvalidClearingPrices);
                    }
                },
                Trade::Jit(_) => {},
            }
            i = i + 1;
        }
        let mut i: usize = 0;
        while i < trades.len()
            invariant
                0 <= i <= trades@.len(),
                prices_cover(trades@, prices@, weth),
                forall|k: int| 0 <= k < i ==> fee_incorporable(#[trigger] trades@[k]),
            decreases trades@.len() - i,
        {
            match &trades[i] {
                Trade::Fulfillment(f) => {
                    let fixed = match f.fee {
                        Fee::Static => true,
                        Fee::Dynamic(_) => false,
                    };
                    if fixed && f.order.protocol_fees.len() > 0 {
                        return Err(SolutionError::ProtocolFee(ProtocolFeeError::StaticFee));
                    }
                },
                Trade::Jit(_) => {},
            }
            i = i + 1;
        }
        Ok(Solution { id, trades, prices, interactions, solver, score, weth, gas })
    }
}

} // verus!
