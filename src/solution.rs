//! The solutions that a solver proposes, and their decoding into validated
//! solutions of the auction.
use vstd::prelude::*;
use crate::bytes::{Address, OrderUid};
use crate::competition;
use crate::competition::{fulfillment_check, valid_execution, Fee, TradeError};
use crate::domain;
use crate::domain::Side;
use crate::u256::{u256_zero, U256};

verus! {

/// A solver's answer: its candidate solutions.
#[derive(Debug)]
pub struct Solutions {
    pub solutions: Vec<Solution>,
}

#[derive(Debug)]
pub struct Solution {
    pub id: u64,
    /// Clearing prices by token.
    pub prices: Vec<(Address, U256)>,
    pub trades: Vec<Trade>,
    pub interactions: Vec<Interaction>,
    pub score: Score,
    pub gas: Option<u64>,
}

#[derive(Debug)]
pub enum Trade {
    Fulfillment(Fulfillment),
    Jit(JitTrade),
}

/// A fill of an auction order, named by its uid.
#[derive(Clone, Copy, Debug)]
pub struct Fulfillment {
    pub order: OrderUid,
    pub executed_amount: U256,
    /// The fee the solver chose, for orders whose fee is not fixed.
    pub fee: Option<U256>,
}

#[derive(Debug)]
pub struct JitTrade {
    pub order: JitOrder,
    pub executed_amount: U256,
}

#[derive(Debug)]
pub struct JitOrder {
    pub sell_token: Address,
    pub buy_token: Address,
    pub receiver: Address,
    pub sell_amount: U256,
    pub buy_amount: U256,
    pub valid_to: u32,
    pub app_data: [u8; 32],
    pub fee_amount: U256,
    pub kind: Kind,
    pub partially_fillable: bool,
    pub sell_token_balance: SellTokenBalance,
    pub buy_token_balance: BuyTokenBalance,
    pub signing_scheme: SigningScheme,
    pub signature: Vec<u8>,
}

#[derive(Clone, Copy, Debug, PartialEq, Eq, Structural)]
pub enum Kind {
    Sell,
    Buy,
}

#[derive(Debug)]
pub enum Interaction {
    Liquidity(LiquidityInteraction),
    Custom(CustomInteraction),
}

/// A swap through the round's liquidity source with id `id`.
#[derive(Clone, Copy, Debug)]
pub struct LiquidityInteraction {
    pub internalize: bool,
    pub id: usize,
    pub input_token: Address,
    pub output_token: Address,
    pub input_amount: U256,
    pub output_amount: U256,
}

#[derive(Debug)]
pub struct CustomInteraction {
    pub internalize: bool,
    pub target: Address,
    pub value: U256,
    pub call_data: Vec<u8>,
    pub allowances: Vec<Allowance>,
    pub inputs: Vec<Asset>,
    pub outputs: Vec<Asset>,
}

#[derive(Clone, Copy, Debug)]
pub struct Asset {
    pub token: Address,
    pub amount: U256,
}

#[derive(Clone, Copy, Debug)]
pub struct Allowance {
    pub token: Address,
    pub spender: Address,
    pub amount: U256,
}

#[derive(Clone, Copy, Debug, PartialEq, Eq, Structural)]
pub enum SellTokenBalance {
    Erc20,
    Internal,
    External,
}

impl Default for SellTokenBalance {
    fn default() -> (r: SellTokenBalance)
        ensures
            r == SellTokenBalance::Erc20,
    {
        SellTokenBalance::Erc20
    }
}

#[derive(Clone, Copy, Debug, PartialEq, Eq, Structural)]
pub enum BuyTokenBalance {
    Erc20,
    Internal,
}

impl Default for BuyTokenBalance {
    fn default() -> (r: BuyTokenBalance)
        ensures
            r == BuyTokenBalance::Erc20,
    {
        BuyTokenBalance::Erc20
    }
}

#[derive(Clone, Copy, Debug, PartialEq, Eq, Structural)]
pub enum SigningScheme {
    Eip712,
    EthSign,
    PreSign,
    Eip1271,
}

/// The score a solver declares for its solution.
#[derive(Clone, Copy, Debug, PartialEq, Eq, Structural)]
pub enum Score {
    Solver { score: U256 },
    /// A success probability, as the IEEE 754 bits of a 64-bit float.
    RiskAdjusted { success_probability: u64 },
}

/// Why a solver's answer was rejected.
#[derive(Clone, Copy, Debug)]
pub enum Error {
    /// A fulfillment names an order that the auction does not hold.
    InvalidOrderUid(OrderUid),
    InvalidFulfillment(TradeError),
    InvalidJitTrade(TradeError),
    /// An interaction names a liquidity source that the round does not hold.
    InvalidLiquidityId(usize),
    InvalidClearingPrices,
    /// The protocol fees could not be incorporated into the solution.
    ProtocolFee(competition::ProtocolFeeError),
}

// ---------------------------------------------------------------------------
// Scoring

/// The score a solution is ranked by: by surplus where a cutoff is set and
/// the auction's deadline lies after it, else as the solver declared.
pub open spec fn resolved_score(declared: Score, deadline: i64, rank_by_surplus_date: Option<i64>) -> competition::SolverScore {
    if rank_by_surplus_date matches Some(date) && deadline > date {
        competition::SolverScore::Surplus
    } else {
        match declared {
            Score::Solver { score } => competition::SolverScore::Solver(score),
            Score::RiskAdjusted { success_probability } => competition::SolverScore::RiskAdjusted(
                success_probability,
            ),
        }
    }
}

pub fn resolve_score(declared: Score, deadline: i64, rank_by_surplus_date: Option<i64>) -> (r:
    competition::SolverScore)
    ensures
        r == resolved_score(declared, deadline, rank_by_surplus_date),
{
    let surplus = match rank_by_surplus_date {
        Some(date) => deadline > date,
        None => false,
    };
    if surplus {
        competition::SolverScore::Surplus
    } else {
        match declared {
            Score::Solver { score } => competition::SolverScore::Solver(score),
            Score::RiskAdjusted { success_probability } => competition::SolverScore::RiskAdjusted(
                success_probability,
            ),
        }
    }
}

// ---------------------------------------------------------------------------
// References into the auction

pub open spec fn is_first_order(orders: Seq<domain::Order>, uid: OrderUid, k: int) -> bool {
    &&& 0 <= k < orders.len()
    &&& orders[k].uid.bytes() == uid.bytes()
    &&& forall|j: int| 0 <= j < k ==> orders[j].uid.bytes() != uid.bytes()
}

pub open spec fn has_order(orders: Seq<domain::Order>, uid: OrderUid) -> bool {
    exists|k: int| 0 <= k < orders.len() && #[trigger] orders[k].uid.bytes() == uid.bytes()
}

/// The first order of the auction with this uid.
pub open spec fn order_with_uid(orders: Seq<domain::Order>, uid: OrderUid) -> domain::Order {
    orders[choose|k: int| is_first_order(orders, uid, k)]
}

pub open spec fn is_first_pool(pools: Seq<domain::Liquidity>, id: usize, k: int) -> bool {
    &&& 0 <= k < pools.len()
    &&& pools[k].id == id
    &&& forall|j: int| 0 <= j < k ==> pools[j].id != id
}

pub open spec fn has_pool(pools: Seq<domain::Liquidity>, id: usize) -> bool {
    exists|k: int| 0 <= k < pools.len() && #[trigger] pools[k].id == id
}

/// The first liquidity source of the round with this id.
pub open spec fn pool_with_id(pools: Seq<domain::Liquidity>, id: usize) -> domain::Liquidity {
    pools[choose|k: int| is_first_pool(pools, id, k)]
}

/// The index of the first order with `uid`, if any.
fn find_order(orders: &Vec<domain::Order>, uid: &OrderUid) -> (r: Option<usize>)
    ensures
        r is None <==> !has_order(orders@, *uid),
        r matches Some(k) ==> is_first_order(orders@, *uid, k as int),
{
    let mut i: usize = 0;
    while i < orders.len()
        invariant
            0 <= i <= orders@.len(),
            forall|j: int| 0 <= j < i ==> orders@[j].uid.bytes() != uid.bytes(),
        decreases orders@.len() - i,
    {
        if orders[i].uid == *uid {
            return Some(i);
        }
        i = i + 1;
    }
    None
}

/// The index of the first liquidity source with `id`, if any.
fn find_pool(pools: &[domain::Liquidity], id: usize) -> (r: Option<usize>)
    ensures
        r is None <==> !has_pool(pools@, id),
        r matches Some(k) ==> is_first_pool(pools@, id, k as int),
{
    let mut i: usize = 0;
    while i < pools.len()
        invariant
            0 <= i <= pools@.len(),
            forall|j: int| 0 <= j < i ==> pools@[j].id != id,
        decreases pools@.len() - i,
    {
        if pools[i].id == id {
            return Some(i);
        }
        i = i + 1;
    }
    None
}

proof fn lemma_first_order_unique(orders: Seq<domain::Order>, uid: OrderUid, k: int)
    requires
        is_first_order(orders, uid, k),
    ensures
        order_with_uid(orders, uid) == orders[k],
{
    let c = choose|c: int| is_first_order(orders, uid, c);
    assert(is_first_order(orders, uid, c));
    if c < k {
        assert(orders[c].uid.bytes() != uid.bytes());
    } else if c > k {
        assert(orders[k].uid.bytes() != uid.bytes());
    }
}

proof fn lemma_first_pool_unique(pools: Seq<domain::Liquidity>, id: usize, k: int)
    requires
        is_first_pool(pools, id, k),
    ensures
        pool_with_id(pools, id) == pools[k],
{
    let c = choose|c: int| is_first_pool(pools, id, c);
    assert(is_first_pool(pools, id, c));
    if c < k {
        assert(pools[c].id != id);
    } else if c > k {
        assert(pools[k].id != id);
    }
}

// ---------------------------------------------------------------------------
// What decoding yields

pub open spec fn fee_of(fee: Option<U256>) -> Fee {
    match fee {
        Some(v) => Fee::Dynamic(v),
        None => Fee::Static,
    }
}

pub open spec fn side_of(kind: Kind) -> Side {
    match kind {
        Kind::Sell => Side::Sell,
        Kind::Buy => Side::Buy,
    }
}

pub open spec fn sell_balance_of(b: SellTokenBalance) -> competition::SellTokenBalance {
    match b {
        SellTokenBalance::Erc20 => competition::SellTokenBalance::Erc20,
        SellTokenBalance::Internal => competition::SellTokenBalance::Internal,
        SellTokenBalance::External => competition::SellTokenBalance::External,
    }
}

pub open spec fn buy_balance_of(b: BuyTokenBalance) -> competition::BuyTokenBalance {
    match b {
        BuyTokenBalance::Erc20 => competition::BuyTokenBalance::Erc20,
        BuyTokenBalance::Internal => competition::BuyTokenBalance::Internal,
    }
}

pub open spec fn scheme_of(s: SigningScheme) -> competition::SigningScheme {
    match s {
        SigningScheme::Eip712 => competition::SigningScheme::Eip712,
        SigningScheme::EthSign => competition::SigningScheme::EthSign,
        SigningScheme::PreSign => competition::SigningScheme::PreSign,
        SigningScheme::Eip1271 => competition::SigningScheme::Eip1271,
    }
}

pub open spec fn asset_of(a: Asset) -> domain::Asset {
    domain::Asset { token: a.token, amount: a.amount }
}

pub open spec fn allowance_of(a: Allowance) -> competition::Allowance {
    competition::Allowance { token: a.token, spender: a.spender, amount: a.amount }
}

/// `x` is the order `o` that a solver proposed, attributed to `solver`.
pub open spec fn jit_order_of(x: competition::JitOrder, o: JitOrder, solver: Address) -> bool {
    &&& x.sell == domain::Asset { token: o.sell_token, amount: o.sell_amount }
    &&& x.buy == domain::Asset { token: o.buy_token, amount: o.buy_amount }
    &&& x.fee == o.fee_amount
    &&& x.receiver == o.receiver
    &&& x.valid_to == o.valid_to
    &&& x.app_data == o.app_data
    &&& x.side == side_of(o.kind)
    &&& x.partially_fillable == o.partially_fillable
    &&& x.sell_token_balance == sell_balance_of(o.sell_token_balance)
    &&& x.buy_token_balance == buy_balance_of(o.buy_token_balance)
    &&& x.signature.scheme == scheme_of(o.signing_scheme)
    &&& x.signature.data@ == o.signature@
    &&& x.signature.signer == solver
}

pub open spec fn jit_trade_valid(j: JitTrade) -> bool {
    let target = match j.order.kind {
        Kind::Sell => j.order.sell_amount,
        Kind::Buy => j.order.buy_amount,
    };
    valid_execution(side_of(j.order.kind), target, j.order.partially_fillable, j.executed_amount, u256_zero())
}

/// Why the trade cannot be decoded against the auction's orders, if it cannot.
pub open spec fn trade_error(t: Trade, orders: Seq<domain::Order>) -> Option<Error> {
    match t {
        Trade::Fulfillment(f) => if !has_order(orders, f.order) {
            Some(Error::InvalidOrderUid(f.order))
        } else {
            match fulfillment_check(order_with_uid(orders, f.order), f.executed_amount, fee_of(f.fee)) {
                Err(e) => Some(Error::InvalidFulfillment(e)),
                Ok(_) => None,
            }
        },
        Trade::Jit(j) => if jit_trade_valid(j) {
            None
        } else {
            Some(Error::InvalidJitTrade(TradeError::InvalidExecutedAmount))
        },
    }
}

/// Why the interaction cannot be decoded against the round's liquidity, if it cannot.
pub open spec fn interaction_error(i: Interaction, pools: Seq<domain::Liquidity>) -> Option<Error> {
    match i {
        Interaction::Liquidity(l) => if has_pool(pools, l.id) {
            None
        } else {
            Some(Error::InvalidLiquidityId(l.id))
        },
        Interaction::Custom(_) => None,
    }
}

/// The first error of a sequence of outcomes.
pub open spec fn first_error(errs: Seq<Option<Error>>) -> Option<Error>
    decreases errs.len(),
{
    if errs.len() == 0 {
        None
    } else {
        let prev = first_error(errs.drop_last());
        if prev is Some {
            prev
        } else {
            errs.last()
        }
    }
}

pub open spec fn trade_errors(trades: Seq<Trade>, orders: Seq<domain::Order>) -> Seq<Option<Error>> {
    trades.map_values(|t: Trade| trade_error(t, orders))
}

pub open spec fn interaction_errors(interactions: Seq<Interaction>, pools: Seq<domain::Liquidity>) -> Seq<
    Option<Error>,
> {
    interactions.map_values(|i: Interaction| interaction_error(i, pools))
}

/// A fulfillment's order has clearing prices for both of its tokens.
pub open spec fn fulfillment_priced(
    t: Trade,
    orders: Seq<domain::Order>,
    prices: Seq<(Address, U256)>,
    weth: Address,
) -> bool {
    match t {
        Trade::Fulfillment(f) => competition::has_price(
            prices,
            competition::settled_token(order_with_uid(orders, f.order).sell.token, weth),
        ) && competition::has_price(
            prices,
            competition::settled_token(order_with_uid(orders, f.order).buy.token, weth),
        ),
        Trade::Jit(_) => true,
    }
}

/// Every fulfilled order has clearing prices for both of its tokens.
pub open spec fn prices_cover_orders(s: Solution, orders: Seq<domain::Order>, weth: Address) -> bool {
    forall|i: int|
        0 <= i < s.trades@.len() ==> fulfillment_priced(#[trigger] s.trades@[i], orders, s.prices@, weth)
}

/// A fulfillment whose order has a protocol fee comes with a dynamic fee.
pub open spec fn fulfillment_fee_incorporable(t: Trade, orders: Seq<domain::Order>) -> bool {
    match t {
        Trade::Fulfillment(f) => !(f.fee is None && order_with_uid(orders, f.order).protocol_fees@.len()
            > 0),
        Trade::Jit(_) => true,
    }
}

pub open spec fn protocol_fees_incorporable(s: Solution, orders: Seq<domain::Order>) -> bool {
    forall|i: int|
        0 <= i < s.trades@.len() ==> fulfillment_fee_incorporable(#[trigger] s.trades@[i], orders)
}

/// Why the solution is rejected, if it is: its first bad trade, else its
/// first bad interaction, else missing clearing prices, else a protocol fee
/// that cannot be taken.
pub open spec fn solution_error(
    s: Solution,
    orders: Seq<domain::Order>,
    pools: Seq<domain::Liquidity>,
    weth: Address,
) -> Option<Error> {
    let te = first_error(trade_errors(s.trades@, orders));
    let ie = first_error(interaction_errors(s.interactions@, pools));
    if te is Some {
        te
    } else if ie is Some {
        ie
    } else if !prices_cover_orders(s, orders, weth) {
        Some(Error::InvalidClearingPrices)
    } else if !protocol_fees_incorporable(s, orders) {
        Some(Error::ProtocolFee(competition::ProtocolFeeError::StaticFee))
    } else {
        None
    }
}

/// Why the answer is rejected, if it is: the error of its first bad solution.
pub open spec fn answer_error(
    solutions: Seq<Solution>,
    orders: Seq<domain::Order>,
    pools: Seq<domain::Liquidity>,
    weth: Address,
) -> Option<Error> {
    first_error(solutions.map_values(|s: Solution| solution_error(s, orders, pools, weth)))
}

pub open spec fn decodes_trade(out: competition::Trade, t: Trade, orders: Seq<domain::Order>, solver: Address) -> bool {
    match t {
        Trade::Fulfillment(f) => match out {
            competition::Trade::Fulfillment(x) => {
                &&& x.order.same_as(&order_with_uid(orders, f.order))
                &&& x.executed == f.executed_amount
                &&& x.fee == fee_of(f.fee)
            },
            _ => false,
        },
        Trade::Jit(j) => match out {
            competition::Trade::Jit(x) => {
                &&& x.executed == j.executed_amount
                &&& jit_order_of(x.order, j.order, solver)
            },
            _ => false,
        },
    }
}

pub open spec fn decodes_interaction(
    out: competition::Interaction,
    i: Interaction,
    pools: Seq<domain::Liquidity>,
) -> bool {
    match i {
        Interaction::Custom(c) => match out {
            competition::Interaction::Custom(x) => {
                &&& x.target == c.target
                &&& x.value == c.value
                &&& x.call_data@ == c.call_data@
                &&& x.allowances@ == c.allowances@.map_values(|a: Allowance| allowance_of(a))
                &&& x.inputs@ == c.inputs@.map_values(|a: Asset| asset_of(a))
                &&& x.outputs@ == c.outputs@.map_values(|a: Asset| asset_of(a))
                &&& x.internalize == c.internalize
            },
            _ => false,
        },
        Interaction::Liquidity(l) => match out {
            competition::Interaction::Liquidity(x) => {
                &&& x.liquidity.same_as(&pool_with_id(pools, l.id))
                &&& x.input == domain::Asset { token: l.input_token, amount: l.input_amount }
                &&& x.output == domain::Asset { token: l.output_token, amount: l.output_amount }
                &&& x.internalize == l.internalize
            },
            _ => false,
        },
    }
}

/// `out` is the solution `s`, validated against the auction and its liquidity.
pub open spec fn decodes_solution(
    out: competition::Solution,
    s: Solution,
    auction: domain::Auction,
    pools: Seq<domain::Liquidity>,
    weth: Address,
    solver: Address,
    rank_by_surplus_date: Option<i64>,
) -> bool {
    &&& out.id == s.id
    &&& out.prices@ == s.prices@
    &&& out.trades@.len() == s.trades@.len()
    &&& forall|k: int|
        0 <= k < s.trades@.len() ==> decodes_trade(
            #[trigger] out.trades@[k],
            s.trades@[k],
            auction.orders@,
            solver,
        )
    &&& out.interactions@.len() == s.interactions@.len()
    &&& forall|k: int|
        0 <= k < s.interactions@.len() ==> decodes_interaction(
            #[trigger] out.interactions@[k],
            s.interactions@[k],
            pools,
        )
    &&& out.solver == solver
    &&& out.score == resolved_score(s.score, auction.deadline.driver, rank_by_surplus_date)
    &&& out.weth == weth
    &&& out.gas == s.gas
}

// ---------------------------------------------------------------------------
// Decoding

fn copy_bytes(v: &Vec<u8>) -> (r: Vec<u8>)
    ensures
        r@ == v@,
{
    let mut r: Vec<u8> = Vec::new();
    let mut i: usize = 0;
    while i < v.len()
        invariant
            0 <= i <= v@.len(),
            r@ == v@.subrange(0, i as int),
        decreases v@.len() - i,
    {
        r.push(v[i]);
        assert(r@ =~= v@.subrange(0, i + 1));
        i = i + 1;
    }
    assert(r@ =~= v@);
    r
}

fn copy_prices(v: &Vec<(Address, U256)>) -> (r: Vec<(Address, U256)>)
    ensures
        r@ == v@,
{
    let mut r: Vec<(Address, U256)> = Vec::new();
    let mut i: usize = 0;
    while i < v.len()
        invariant
            0 <= i <= v@.len(),
            r@ == v@.subrange(0, i as int),
        decreases v@.len() - i,
    {
        r.push(v[i]);
        assert(r@ =~= v@.subrange(0, i + 1));
        i = i + 1;
    }
    assert(r@ =~= v@);
    r
}

fn to_assets(v: &Vec<Asset>) -> (r: Vec<domain::Asset>)
    ensures
        r@ == v@.map_values(|a: Asset| asset_of(a)),
{
    let mut r: Vec<domain::Asset> = Vec::new();
    let mut i: usize = 0;
    while i < v.len()
        invariant
            0 <= i <= v@.len(),
            r@ == v@.subrange(0, i as int).map_values(|a: Asset| asset_of(a)),
        decreases v@.len() - i,
    {
        r.push(domain::Asset { token: v[i].token, amount: v[i].amount });
        assert(r@ =~= v@.subrange(0, i + 1).map_values(|a: Asset| asset_of(a)));
        i = i + 1;
    }
    assert(v@.subrange(0, v@.len() as int) =~= v@);
    r
}

fn to_allowances(v: &Vec<Allowance>) -> (r: Vec<competition::Allowance>)
    ensures
        r@ == v@.map_values(|a: Allowance| allowance_of(a)),
{
    let mut r: Vec<competition::Allowance> = Vec::new();
    let mut i: usize = 0;
    while i < v.len()
        invariant
            0 <= i <= v@.len(),
            r@ == v@.subrange(0, i as int).map_values(|a: Allowance| allowance_of(a)),
        decreases v@.len() - i,
    {
        let a = v[i];
        r.push(competition::Allowance { token: a.token, spender: a.spender, amount: a.amount });
        assert(r@ =~= v@.subrange(0, i + 1).map_values(|a: Allowance| allowance_of(a)));
        i = i + 1;
    }
    assert(v@.subrange(0, v@.len() as int) =~= v@);
    r
}

fn jit_to_domain(o: &JitOrder, solver: Address) -> (r: competition::JitOrder)
    ensures
        jit_order_of(r, *o, solver),
{
    competition::JitOrder {
        sell: domain::Asset { token: o.sell_token, amount: o.sell_amount },
        buy: domain::Asset { token: o.buy_token, amount: o.buy_amount },
        fee: o.fee_amount,
        receiver: o.receiver,
        valid_to: o.valid_to,
        app_data: o.app_data,
        side: match o.kind {
            Kind::Sell => Side::Sell,
            Kind::Buy => Side::Buy,
        },
        partially_fillable: o.partially_fillable,
        sell_token_balance: match o.sell_token_balance {
            SellTokenBalance::Erc20 => competition::SellTokenBalance::Erc20,
            SellTokenBalance::Internal => competition::SellTokenBalance::Internal,
            SellTokenBalance::External => competition::SellTokenBalance::External,
        },
        buy_token_balance: match o.buy_token_balance {
            BuyTokenBalance::Erc20 => competition::BuyTokenBalance::Erc20,
            BuyTokenBalance::Internal => competition::BuyTokenBalance::Internal,
        },
        signature: competition::Signature {
            scheme: match o.signing_scheme {
                SigningScheme::Eip712 => competition::SigningScheme::Eip712,
                SigningScheme::EthSign => competition::SigningScheme::EthSign,
                SigningScheme::PreSign => competition::SigningScheme::PreSign,
                SigningScheme::Eip1271 => competition::SigningScheme::Eip1271,
            },
            data: copy_bytes(&o.signature),
            signer: solver,
        },
    }
}

/// The trade `t`, bound to the auction's `orders`; a JIT order is attributed
/// to `solver`.
pub fn decode_trade(t: &Trade, orders: &Vec<domain::Order>, solver: Address) -> (r: Result<
    competition::Trade,
    Error,
>)
    ensures
        trade_error(*t, orders@) matches Some(e) ==> r == Err::<competition::Trade, Error>(e),
        trade_error(*t, orders@) is None ==> (r matches Ok(x) && decodes_trade(x, *t, orders@, solver)),
{
    match t {
        Trade::Fulfillment(f) => {
            let k = match find_order(orders, &f.order) {
                Some(k) => k,
                None => {
                    return Err(Error::InvalidOrderUid(f.order));
                },
            };
            proof {
                lemma_first_order_unique(orders@, f.order, k as int);
            }
            let order = orders[k].snapshot();
            let fee = match f.fee {
                Some(v) => Fee::Dynamic(v),
                None => Fee::Static,
            };
            match competition::Fulfillment::new(order, f.executed_amount, fee) {
                Ok(x) => Ok(competition::Trade::Fulfillment(x)),
                Err(e) => Err(Error::InvalidFulfillment(e)),
            }
        },
        Trade::Jit(j) => {
            let order = jit_to_domain(&j.order, solver);
            match competition::Jit::new(order, j.executed_amount) {
                Ok(x) => Ok(competition::Trade::Jit(x)),
                Err(e) => Err(Error::InvalidJitTrade(e)),
            }
        },
    }
}

/// The interaction `i`, bound to the round's `pools`.
pub fn decode_interaction(i: &Interaction, pools: &[domain::Liquidity]) -> (r: Result<
    competition::Interaction,
    Error,
>)
    ensures
        interaction_error(*i, pools@) matches Some(e) ==> r == Err::<competition::Interaction, Error>(e),
        interaction_error(*i, pools@) is None ==> (r matches Ok(x) && decodes_interaction(x, *i, pools@)),
{
    match i {
        Interaction::Custom(c) => Ok(
            competition::Interaction::Custom(
                competition::Custom {
                    target: c.target,
                    value: c.value,
                    call_data: copy_bytes(&c.call_data),
                    allowances: to_allowances(&c.allowances),
                    inputs: to_assets(&c.inputs),
                    outputs: to_assets(&c.outputs),
                    internalize: c.internalize,
                },
            ),
        ),
        Interaction::Liquidity(l) => {
            let k = match find_pool(pools, l.id) {
                Some(k) => k,
                None => {
                    return Err(Error::InvalidLiquidityId(l.id));
                },
            };
            proof {
                lemma_first_pool_unique(pools@, l.id, k as int);
            }
            Ok(
                competition::Interaction::Liquidity(
                    competition::LiquidityInteraction {
                        liquidity: pools[k].snapshot(),
                        input: domain::Asset { token: l.input_token, amount: l.input_amount },
                        output: domain::Asset { token: l.output_token, amount: l.output_amount },
                        internalize: l.internalize,
                    },
                ),
            )
        },
    }
}

proof fn lemma_first_error_prefix(errs: Seq<Option<Error>>, n: int)
    requires
        0 <= n <= errs.len(),
        first_error(errs.subrange(0, n)) is Some,
    ensures
        first_error(errs) == first_error(errs.subrange(0, n)),
    decreases errs.len(),
{
    if errs.len() == n {
        assert(errs.subrange(0, n) =~= errs);
    } else {
        assert(errs.drop_last().subrange(0, n) =~= errs.subrange(0, n));
        lemma_first_error_prefix(errs.drop_last(), n);
    }
}

/// The solution `s`, validated against the auction and the round's liquidity.
pub fn decode_solution(
    s: &Solution,
    auction: &domain::Auction,
    pools: &[domain::Liquidity],
    weth: Address,
    solver: Address,
    rank_by_surplus_date: Option<i64>,
) -> (r: Result<competition::Solution, Error>)
    ensures
        solution_error(*s, auction.orders@, pools@, weth) matches Some(e) ==> r == Err::<
            competition::Solution,
            Error,
        >(e),
        solution_error(*s, auction.orders@, pools@, weth) is None ==> (r matches Ok(x)
            && decodes_solution(x, *s, *auction, pools@, weth, solver, rank_by_surplus_date)),
{
    let ghost te = trade_errors(s.trades@, auction.orders@);
    let mut trades: Vec<competition::Trade> = Vec::new();
    let mut i: usize = 0;
    assert(te.subrange(0, 0) =~= Seq::<Option<Error>>::empty());
    while i < s.trades.len()
        invariant
            0 <= i <= s.trades@.len(),
            te == trade_errors(s.trades@, auction.orders@),
            first_error(te.subrange(0, i as int)) is None,
            trades@.len() == i,
            forall|k: int|
                0 <= k < i ==> decodes_trade(#[trigger] trades@[k], s.trades@[k], auction.orders@, solver),
        decreases s.trades@.len() - i,
    {
        assert(te.subrange(0, i + 1).drop_last() =~= te.subrange(0, i as int));
        match decode_trade(&s.trades[i], &auction.orders, solver) {
            Ok(x) => {
                trades.push(x);
            },
            Err(e) => {
                proof {
                    lemma_first_error_prefix(te, i + 1);
                }
                return Err(e);
            },
        }
        i = i + 1;
    }
    assert(te.subrange(0, te.len() as int) =~= te);
    let ghost ie = interaction_errors(s.interactions@, pools@);
    let mut interactions: Vec<competition::Interaction> = Vec::new();
    let mut i: usize = 0;
    assert(ie.subrange(0, 0) =~= Seq::<Option<Error>>::empty());
    while i < s.interactions.len()
        invariant
            0 <= i <= s.interactions@.len(),
            ie == interaction_errors(s.interactions@, pools@),
            first_error(trade_errors(s.trades@, auction.orders@)) is None,
            first_error(ie.subrange(0, i as int)) is None,
            interactions@.len() == i,
            forall|k: int|
                0 <= k < i ==> decodes_interaction(#[trigger] interactions@[k], s.interactions@[k], pools@),
        decreases s.interactions@.len() - i,
    {
        assert(ie.subrange(0, i + 1).drop_last() =~= ie.subrange(0, i as int));
        match decode_interaction(&s.interactions[i], pools) {
            Ok(x) => {
                interactions.push(x);
            },
            Err(e) => {
                proof {
                    lemma_first_error_prefix(ie, i + 1);
                }
                return Err(e);
            },
        }
        i = i + 1;
    }
    assert(ie.subrange(0, ie.len() as int) =~= ie);
    let prices = copy_prices(&s.prices);
    proof {
        assert forall|k: int| 0 <= k < trades@.len() implies competition::trade_priced(
            #[trigger] trades@[k],
            prices@,
            weth,
        ) == fulfillment_priced(s.trades@[k], auction.orders@, s.prices@, weth) by {
            assert(decodes_trade(trades@[k], s.trades@[k], auction.orders@, solver));
        }
        if competition::prices_cover(trades@, prices@, weth) {
            assert forall|k: int| 0 <= k < s.trades@.len() implies fulfillment_priced(
                #[trigger] s.trades@[k],
                auction.orders@,
                s.prices@,
                weth,
            ) by {
                assert(competition::trade_priced(trades@[k], prices@, weth));
            }
        }
        if prices_cover_orders(*s, auction.orders@, weth) {
            assert forall|k: int| 0 <= k < trades@.len() implies competition::trade_priced(
                #[trigger] trades@[k],
                prices@,
                weth,
            ) by {
                assert(fulfillment_priced(s.trades@[k], auction.orders@, s.prices@, weth));
            }
        }
    }
    proof {
        assert forall|k: int| 0 <= k < trades@.len() implies competition::fee_incorporable(
            #[trigger] trades@[k],
        ) == fulfillment_fee_incorporable(s.trades@[k], auction.orders@) by {
            assert(decodes_trade(trades@[k], s.trades@[k], auction.orders@, solver));
        }
        if competition::fees_incorporable(trades@) {
            assert forall|k: int| 0 <= k < s.trades@.len() implies fulfillment_fee_incorporable(
                #[trigger] s.trades@[k],
                auction.orders@,
            ) by {
                assert(competition::fee_incorporable(trades@[k]));
            }
        }
        if protocol_fees_incorporable(*s, auction.orders@) {
            assert forall|k: int| 0 <= k < trades@.len() implies competition::fee_incorporable(
                #[trigger] trades@[k],
            ) by {
                assert(fulfillment_fee_incorporable(s.trades@[k], auction.orders@));
            }
        }
    }
    let score = resolve_score(s.score, auction.deadline.driver, rank_by_surplus_date);
    match competition::Solution::new(s.id, trades, prices, interactions, solver, score, weth, s.gas) {
        Ok(x) => Ok(x),
        Err(competition::SolutionError::InvalidClearingPrices) => Err(Error::InvalidClearingPrices),
        Err(competition::SolutionError::ProtocolFee(e)) => Err(Error::ProtocolFee(e)),
    }
}

impl Solutions {
    /// Every solution of the answer, validated against the auction and the
    /// round's liquidity; the first one that fails fails the whole answer.
    pub fn into_domain(
        self,
        auction: &domain::Auction,
        liquidity: &[domain::Liquidity],
        weth: Address,
        solver: Address,
        rank_by_surplus_date: Option<i64>,
    ) -> (r: Result<Vec<competition::Solution>, Error>)
        ensures
            answer_error(self.solutions@, auction.orders@, liquidity@, weth) matches Some(e) ==> r
                == Err::<Vec<competition::Solution>, Error>(e),
            answer_error(self.solutions@, auction.orders@, liquidity@, weth) is None ==> (r matches Ok(v)
                && v@.len() == self.solutions@.len() && forall|k: int|
                0 <= k < v@.len() ==> decodes_solution(
                #[trigger] v@[k],
                self.solutions@[k],
                *auction,
                liquidity@,
                weth,
                solver,
                rank_by_surplus_date,
            )),
    {
        let ghost errs = self.solutions@.map_values(
            |s: Solution| solution_error(s, auction.orders@, liquidity@, weth),
        );
        let mut out: Vec<competition::Solution> = Vec::new();
        let mut i: usize = 0;
        assert(errs.subrange(0, 0) =~= Seq::<Option<Error>>::empty());
        while i < self.solutions.len()
            invariant
                0 <= i <= self.solutions@.len(),
                errs == self.solutions@.map_values(
                    |s: Solution| solution_error(s, auction.orders@, liquidity@, weth),
                ),
                first_error(errs.subrange(0, i as int)) is None,
                out@.len() == i,
                forall|k: int|
                    0 <= k < i ==> decodes_solution(
                        #[trigger] out@[k],
                        self.solutions@[k],
                        *auction,
                        liquidity@,
                        weth,
                        solver,
                        rank_by_surplus_date,
                    ),
            decreases self.solutions@.len() - i,
        {
            assert(errs.subrange(0, i + 1).drop_last() =~= errs.subrange(0, i as int));
            match decode_solution(
                &self.solutions[i],
                auction,
                liquidity,
                weth,
                solver,
                rank_by_surplus_date,
            ) {
                Ok(x) => {
                    out.push(x);
                },
                Err(e) => {
                    proof {
                        lemma_first_error_prefix(errs, i + 1);
                    }
                    return Err(e);
                },
            }
            i = i + 1;
        }
        assert(errs.subrange(0, errs.len() as int) =~= errs);
        Ok(out)
    }
}

} // verus!
