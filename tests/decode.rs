use solver_dto::auction::{Auction, Liquidity};
use solver_dto::bytes::{Address, OrderUid};
use solver_dto::u256::U256;
use solver_dto::competition::{self, Fee, ProtocolFeeError, SolverScore, TradeError};
use solver_dto::decimal::Decimal;
use solver_dto::domain::{self, Asset, Deadline, FeePolicy, LiquidityKind, OrderKind, Side, UniswapV2Pool};
use solver_dto::solution::{
    resolve_score, Allowance, BuyTokenBalance, CustomInteraction, Error, Fulfillment, Interaction,
    JitOrder, JitTrade, Kind, LiquidityInteraction, Score, SellTokenBalance, SigningScheme,
    Solution, Solutions, Trade,
};

fn u(v: u128) -> U256 {
    U256::from_u128(v)
}

fn addr(b: u8) -> Address {
    Address([b; 20])
}

const UID: OrderUid = OrderUid([7; 56]);

/// Sell 10 of token A for at least 8 of token B, with no fee policy.
fn sell_order(kind: OrderKind) -> domain::Order {
    domain::Order {
        uid: UID,
        sell: Asset { token: addr(0xa), amount: u(10) },
        buy: Asset { token: addr(0xb), amount: u(8) },
        user_fee: u(0),
        side: Side::Sell,
        kind,
        partially_fillable: false,
        protocol_fees: vec![],
    }
}

fn auction(kind: OrderKind, driver_deadline: i64) -> domain::Auction {
    domain::Auction {
        id: Some(1),
        tokens: vec![],
        orders: vec![sell_order(kind)],
        effective_gas_price: u(1),
        deadline: Deadline { driver: driver_deadline, solvers: driver_deadline - 10 },
    }
}

fn pool() -> domain::Liquidity {
    domain::Liquidity {
        id: 3,
        gas: u(90_000),
        kind: LiquidityKind::UniswapV2(UniswapV2Pool {
            address: addr(0x50),
            router: addr(0x51),
            reserves: (Asset { token: addr(0xa), amount: u(1_000) }, Asset { token: addr(0xb), amount: u(1_000) }),
        }),
    }
}

fn prices() -> Vec<(Address, U256)> {
    vec![(addr(0xa), u(8)), (addr(0xb), u(10))]
}

fn fulfill(uid: OrderUid, executed: u128, fee: Option<u128>) -> Trade {
    Trade::Fulfillment(Fulfillment { order: uid, executed_amount: u(executed), fee: fee.map(u) })
}

fn swap(id: usize) -> Interaction {
    Interaction::Liquidity(LiquidityInteraction {
        internalize: false,
        id,
        input_token: addr(0xa),
        output_token: addr(0xb),
        input_amount: u(10),
        output_amount: u(9),
    })
}

fn answer(trades: Vec<Trade>, interactions: Vec<Interaction>, prices: Vec<(Address, U256)>) -> Solutions {
    Solutions {
        solutions: vec![Solution {
            id: 11,
            prices,
            trades,
            interactions,
            score: Score::Solver { score: u(100) },
            gas: Some(200_000),
        }],
    }
}

fn jit(executed: u128, partially_fillable: bool) -> Trade {
    Trade::Jit(JitTrade {
        order: JitOrder {
            sell_token: addr(0xb),
            buy_token: addr(0xa),
            receiver: addr(0x33),
            sell_amount: u(9),
            buy_amount: u(10),
            valid_to: 1_700_000_000,
            app_data: [4; 32],
            fee_amount: u(0),
            kind: Kind::Sell,
            partially_fillable,
            sell_token_balance: SellTokenBalance::default(),
            buy_token_balance: BuyTokenBalance::default(),
            signing_scheme: SigningScheme::Eip1271,
            signature: vec![1, 2, 3],
        },
        executed_amount: u(executed),
    })
}

#[test]
fn end_to_end_sell_order_through_constant_product_pool() {
    let a = auction(OrderKind::Market, 100);
    let pools = vec![pool()];
    let encoded = Auction::new(&a, &pools, addr(0xff));
    assert_eq!(encoded.orders.len(), 1);
    assert_eq!(encoded.orders[0].sell_amount, u(10));
    assert_eq!(encoded.orders[0].buy_amount, u(8));
    assert_eq!(encoded.liquidity.len(), 1);
    match &encoded.liquidity[0] {
        Liquidity::ConstantProduct(c) => assert_eq!(c.fee, Decimal { digits: 3, scale: 3 }),
        other => panic!("unexpected {other:?}"),
    }
    let decoded = answer(vec![fulfill(UID, 10, None)], vec![swap(3)], prices())
        .into_domain(&a, &pools, addr(0xff), addr(0x99), None)
        .unwrap();
    assert_eq!(decoded.len(), 1);
    let s = &decoded[0];
    assert_eq!(s.id, 11);
    assert_eq!(s.trades.len(), 1);
    assert!(matches!(&s.trades[0], competition::Trade::Fulfillment(f) if f.executed == u(10) && f.fee == Fee::Static));
    assert_eq!(s.interactions.len(), 1);
    assert!(matches!(&s.interactions[0], competition::Interaction::Liquidity(l) if l.liquidity.id == 3));
    assert_eq!(s.score, SolverScore::Solver(u(100)));
    assert_eq!(s.gas, Some(200_000));
    assert_eq!(s.solver.0, [0x99; 20]);
}

#[test]
fn unknown_order_uid_is_rejected() {
    let a = auction(OrderKind::Market, 100);
    let r = answer(vec![fulfill(OrderUid([8; 56]), 10, None)], vec![], prices())
        .into_domain(&a, &[], addr(0xff), addr(0x99), None);
    assert!(matches!(r, Err(Error::InvalidOrderUid(uid)) if uid.0 == [8; 56]));
}

#[test]
fn known_order_uid_echoes_tokens() {
    let a = auction(OrderKind::Market, 100);
    let r = answer(vec![fulfill(UID, 10, None)], vec![], prices())
        .into_domain(&a, &[], addr(0xff), addr(0x99), None)
        .unwrap();
    match &r[0].trades[0] {
        competition::Trade::Fulfillment(f) => {
            assert_eq!(f.order.sell.token.0, [0xa; 20]);
            assert_eq!(f.order.buy.token.0, [0xb; 20]);
        }
        other => panic!("unexpected {other:?}"),
    }
}

#[test]
fn wrong_executed_amount_is_invalid_fulfillment() {
    let a = auction(OrderKind::Market, 100);
    let r = answer(vec![fulfill(UID, 9, None)], vec![], prices())
        .into_domain(&a, &[], addr(0xff), addr(0x99), None);
    assert!(matches!(r, Err(Error::InvalidFulfillment(TradeError::InvalidExecutedAmount))));
}

#[test]
fn dynamic_fee_on_market_order_is_invalid_fee() {
    let a = auction(OrderKind::Market, 100);
    let r = answer(vec![fulfill(UID, 10, Some(1))], vec![], prices())
        .into_domain(&a, &[], addr(0xff), addr(0x99), None);
    assert!(matches!(r, Err(Error::InvalidFulfillment(TradeError::InvalidFee))));
}

#[test]
fn limit_order_takes_dynamic_fee_out_of_sell_amount() {
    let a = auction(OrderKind::Limit, 100);
    let r = answer(vec![fulfill(UID, 7, Some(3))], vec![], prices())
        .into_domain(&a, &[], addr(0xff), addr(0x99), None)
        .unwrap();
    assert!(matches!(&r[0].trades[0], competition::Trade::Fulfillment(f) if f.fee == Fee::Dynamic(u(3))));
    let r = answer(vec![fulfill(UID, 10, None)], vec![], prices())
        .into_domain(&a, &[], addr(0xff), addr(0x99), None);
    assert!(matches!(r, Err(Error::InvalidFulfillment(TradeError::InvalidFee))));
}

#[test]
fn unknown_liquidity_id_is_rejected() {
    let a = auction(OrderKind::Market, 100);
    let r = answer(vec![], vec![swap(4)], prices()).into_domain(&a, &[pool()], addr(0xff), addr(0x99), None);
    assert!(matches!(r, Err(Error::InvalidLiquidityId(4))));
}

#[test]
fn known_liquidity_id_binds_whole_pool() {
    let a = auction(OrderKind::Market, 100);
    let r = answer(vec![], vec![swap(3)], prices())
        .into_domain(&a, &[pool()], addr(0xff), addr(0x99), None)
        .unwrap();
    match &r[0].interactions[0] {
        competition::Interaction::Liquidity(l) => {
            assert_eq!(l.liquidity.gas, u(90_000));
            assert!(matches!(&l.liquidity.kind, LiquidityKind::UniswapV2(p) if p.address.0 == [0x50; 20]));
            assert_eq!(l.input.amount, u(10));
            assert_eq!(l.output.amount, u(9));
        }
        other => panic!("unexpected {other:?}"),
    }
}

#[test]
fn missing_clearing_price_is_rejected() {
    let a = auction(OrderKind::Market, 100);
    let r = answer(vec![fulfill(UID, 10, None)], vec![], vec![(addr(0xa), u(8))])
        .into_domain(&a, &[], addr(0xff), addr(0x99), None);
    assert!(matches!(r, Err(Error::InvalidClearingPrices)));
}

#[test]
fn jit_order_is_attributed_to_solver() {
    let a = auction(OrderKind::Market, 100);
    let r = answer(vec![jit(9, false)], vec![], vec![])
        .into_domain(&a, &[], addr(0xff), addr(0x99), None)
        .unwrap();
    match &r[0].trades[0] {
        competition::Trade::Jit(j) => {
            assert_eq!(j.order.signature.signer.0, [0x99; 20]);
            assert_eq!(j.order.signature.data, vec![1, 2, 3]);
            assert_eq!(j.order.signature.scheme, competition::SigningScheme::Eip1271);
            assert_eq!(j.order.sell_token_balance, competition::SellTokenBalance::Erc20);
            assert_eq!(j.order.receiver.0, [0x33; 20]);
            assert_eq!(j.executed, u(9));
        }
        other => panic!("unexpected {other:?}"),
    }
}

#[test]
fn jit_with_wrong_amount_is_rejected() {
    let a = auction(OrderKind::Market, 100);
    let r = answer(vec![jit(5, false)], vec![], vec![]).into_domain(&a, &[], addr(0xff), addr(0x99), None);
    assert!(matches!(r, Err(Error::InvalidJitTrade(TradeError::InvalidExecutedAmount))));
    let r = answer(vec![jit(5, true)], vec![], vec![]).into_domain(&a, &[], addr(0xff), addr(0x99), None);
    assert!(r.is_ok());
}

#[test]
fn custom_interaction_passes_through() {
    let a = auction(OrderKind::Market, 100);
    let custom = Interaction::Custom(CustomInteraction {
        internalize: true,
        target: addr(0x70),
        value: u(5),
        call_data: vec![0xde, 0xad],
        allowances: vec![Allowance { token: addr(0xa), spender: addr(0x71), amount: u(10) }],
        inputs: vec![solver_dto::solution::Asset { token: addr(0xa), amount: u(10) }],
        outputs: vec![],
    });
    let r = answer(vec![], vec![custom], vec![]).into_domain(&a, &[], addr(0xff), addr(0x99), None).unwrap();
    match &r[0].interactions[0] {
        competition::Interaction::Custom(c) => {
            assert_eq!(c.call_data, vec![0xde, 0xad]);
            assert_eq!(c.allowances[0].spender.0, [0x71; 20]);
            assert_eq!(c.inputs[0].amount, u(10));
            assert!(c.outputs.is_empty());
            assert!(c.internalize);
            assert_eq!(c.value, u(5));
        }
        other => panic!("unexpected {other:?}"),
    }
}

#[test]
fn one_bad_solution_fails_the_answer() {
    let a = auction(OrderKind::Market, 100);
    let good = Solution {
        id: 1,
        prices: prices(),
        trades: vec![fulfill(UID, 10, None)],
        interactions: vec![],
        score: Score::RiskAdjusted { success_probability: 500_000_000_000_000_000 },
        gas: None,
    };
    let bad = Solution {
        id: 2,
        prices: prices(),
        trades: vec![],
        interactions: vec![swap(99)],
        score: Score::Solver { score: u(1) },
        gas: None,
    };
    let r = Solutions { solutions: vec![good, bad] }.into_domain(&a, &[pool()], addr(0xff), addr(0x99), None);
    assert!(matches!(r, Err(Error::InvalidLiquidityId(99))));
}

#[test]
fn empty_answer_decodes_to_nothing() {
    let a = auction(OrderKind::Market, 100);
    let r = Solutions { solutions: vec![] }.into_domain(&a, &[], addr(0xff), addr(0x99), None).unwrap();
    assert!(r.is_empty());
}

#[test]
fn deadline_after_cutoff_ranks_by_surplus() {
    let t: i64 = 1_000;
    assert_eq!(resolve_score(Score::Solver { score: u(100) }, t + 1, Some(t)), SolverScore::Surplus);
    assert_eq!(resolve_score(Score::Solver { score: u(100) }, t - 1, Some(t)), SolverScore::Solver(u(100)));
    assert_eq!(resolve_score(Score::Solver { score: u(100) }, t, Some(t)), SolverScore::Solver(u(100)));
    assert_eq!(resolve_score(Score::Solver { score: u(100) }, t + 1, None), SolverScore::Solver(u(100)));
    assert_eq!(
        resolve_score(Score::RiskAdjusted { success_probability: 9 }, t - 1, Some(t)),
        SolverScore::RiskAdjusted(9)
    );
}

#[test]
fn into_domain_applies_cutoff_to_driver_deadline() {
    let a = auction(OrderKind::Market, 1_001);
    let r = answer(vec![], vec![], vec![]).into_domain(&a, &[], addr(0xff), addr(0x99), Some(1_000)).unwrap();
    assert_eq!(r[0].score, SolverScore::Surplus);
    let a = auction(OrderKind::Market, 999);
    let r = answer(vec![], vec![], vec![]).into_domain(&a, &[], addr(0xff), addr(0x99), Some(1_000)).unwrap();
    assert_eq!(r[0].score, SolverScore::Solver(u(100)));
}

#[test]
fn native_token_prices_come_from_wrapped_token() {
    let mut a = auction(OrderKind::Market, 100);
    a.orders[0].buy.token = Address([0xee; 20]);
    let r = answer(vec![fulfill(UID, 10, None)], vec![], vec![(addr(0xa), u(8)), (addr(0xff), u(10))])
        .into_domain(&a, &[], addr(0xff), addr(0x99), None);
    assert!(r.is_ok());
}

#[test]
fn amounts_beyond_128_bits_validate_exactly() {
    let mut a = auction(OrderKind::Market, 100);
    let big = U256 { hi: 3, lo: 7 };
    a.orders[0].sell.amount = big;
    let trade = Trade::Fulfillment(Fulfillment { order: UID, executed_amount: big, fee: None });
    let r = answer(vec![trade], vec![], prices()).into_domain(&a, &[], addr(0xff), addr(0x99), None);
    assert!(r.is_ok());
    let short = Trade::Fulfillment(Fulfillment { order: UID, executed_amount: U256 { hi: 3, lo: 6 }, fee: None });
    let r = answer(vec![short], vec![], prices()).into_domain(&a, &[], addr(0xff), addr(0x99), None);
    assert!(matches!(r, Err(Error::InvalidFulfillment(TradeError::InvalidExecutedAmount))));
}

#[test]
fn protocol_fee_on_static_fee_order_is_rejected() {
    let mut a = auction(OrderKind::Market, 100);
    a.orders[0].protocol_fees = vec![FeePolicy::Volume { factor: 1_000 }];
    let r = answer(vec![fulfill(UID, 10, None)], vec![], prices()).into_domain(&a, &[], addr(0xff), addr(0x99), None);
    assert!(matches!(r, Err(Error::ProtocolFee(ProtocolFeeError::StaticFee))));
}

#[test]
fn missing_price_comes_before_protocol_fee() {
    let mut a = auction(OrderKind::Market, 100);
    a.orders[0].protocol_fees = vec![FeePolicy::Volume { factor: 1_000 }];
    let r = answer(vec![fulfill(UID, 10, None)], vec![], vec![]).into_domain(&a, &[], addr(0xff), addr(0x99), None);
    assert!(matches!(r, Err(Error::InvalidClearingPrices)));
}

#[test]
fn protocol_fee_on_limit_order_with_dynamic_fee_is_accepted() {
    let mut a = auction(OrderKind::Limit, 100);
    a.orders[0].protocol_fees = vec![FeePolicy::Surplus { factor: 1_000, max_volume_factor: 2_000 }];
    let r = answer(vec![fulfill(UID, 7, Some(3))], vec![], prices()).into_domain(&a, &[], addr(0xff), addr(0x99), None);
    assert!(r.is_ok());
}
