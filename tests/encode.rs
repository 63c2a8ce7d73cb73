use solver_dto::auction::{Auction, Class, Kind, Liquidity};
use solver_dto::bytes::{Address, OrderUid};
use solver_dto::u256::U256;
use solver_dto::decimal::{mul_div_u256, rational_to_decimal, raw_to_decimal, Decimal, DecimalDigits};
use solver_dto::domain::{
    self, Asset, Deadline, FeePolicy, LiquidityKind, OrderKind, Ratio, Side, StablePoolState,
    StableReserve, SwaprPool, TokenInfo, UniswapV2Pool, UniswapV3Pool, WeightedPoolState,
    WeightedReserve, WeightedVersion,
};

const E17: u64 = 100_000_000_000_000_000;

fn u(v: u128) -> U256 {
    U256::from_u128(v)
}

fn addr(b: u8) -> Address {
    Address([b; 20])
}

fn order(side: Side, sell: u128, buy: u128, fees: Vec<FeePolicy>) -> domain::Order {
    domain::Order {
        uid: OrderUid([7; 56]),
        sell: Asset { token: addr(1), amount: u(sell) },
        buy: Asset { token: addr(2), amount: u(buy) },
        user_fee: u(5),
        side,
        kind: OrderKind::Market,
        partially_fillable: false,
        protocol_fees: fees,
    }
}

fn auction_of(orders: Vec<domain::Order>, tokens: Vec<TokenInfo>) -> domain::Auction {
    domain::Auction {
        id: Some(42),
        tokens,
        orders,
        effective_gas_price: u(1_000_000_000),
        deadline: Deadline { driver: 2_000, solvers: 1_500 },
    }
}

fn token(a: Address, symbol: &str) -> TokenInfo {
    TokenInfo {
        address: a,
        decimals: Some(18),
        symbol: Some(symbol.to_string()),
        price: Some(u(1_000)),
        available_balance: u(77),
        trusted: true,
    }
}

fn uniswap(id: usize, a: Address, b: Address) -> domain::Liquidity {
    domain::Liquidity {
        id,
        gas: u(110_000),
        kind: LiquidityKind::UniswapV2(UniswapV2Pool {
            address: addr(0x50),
            router: addr(0x51),
            reserves: (Asset { token: a, amount: u(1_000) }, Asset { token: b, amount: u(2_000) }),
        }),
    }
}

#[test]
fn volume_fee_lowers_sell_amount_of_buy_order() {
    let a = auction_of(vec![order(Side::Buy, 1_100, 500, vec![FeePolicy::Volume { factor: E17 }])], vec![]);
    let r = Auction::new(&a, &[], addr(9));
    assert_eq!(r.orders[0].sell_amount, u(1_000));
    assert_eq!(r.orders[0].buy_amount, u(500));
    assert_eq!(r.orders[0].kind, Kind::Buy);
}

#[test]
fn volume_fee_raises_buy_amount_of_sell_order() {
    let a = auction_of(vec![order(Side::Sell, 10, 900, vec![FeePolicy::Volume { factor: E17 }])], vec![]);
    let r = Auction::new(&a, &[], addr(9));
    assert_eq!(r.orders[0].sell_amount, u(10));
    assert_eq!(r.orders[0].buy_amount, u(1_000));
    assert_eq!(r.orders[0].kind, Kind::Sell);
}

#[test]
fn volume_fee_rounds_down() {
    // 1000 / 1.3 = 769.23...
    let a = auction_of(vec![order(Side::Buy, 1_000, 1, vec![FeePolicy::Volume { factor: 3 * E17 }])], vec![]);
    let r = Auction::new(&a, &[], addr(9));
    assert_eq!(r.orders[0].sell_amount, u(769));
}

#[test]
fn zero_volume_fee_changes_nothing() {
    let a = auction_of(
        vec![
            order(Side::Buy, 1_234, 567, vec![FeePolicy::Volume { factor: 0 }]),
            order(Side::Sell, 1_234, 567, vec![FeePolicy::Volume { factor: 0 }]),
        ],
        vec![],
    );
    let r = Auction::new(&a, &[], addr(9));
    for o in &r.orders {
        assert_eq!(o.sell_amount, u(1_234));
        assert_eq!(o.buy_amount, u(567));
    }
}

#[test]
fn only_first_fee_policy_adjusts() {
    let fees = vec![FeePolicy::Surplus { factor: E17, max_volume_factor: E17 }, FeePolicy::Volume { factor: E17 }];
    let a = auction_of(vec![order(Side::Buy, 1_100, 500, fees)], vec![]);
    let r = Auction::new(&a, &[], addr(9));
    assert_eq!(r.orders[0].sell_amount, u(1_100));
}

#[test]
fn overflowing_adjustment_falls_back_to_zero() {
    let mut o = order(Side::Sell, 1, 1, vec![FeePolicy::Volume { factor: 5 * E17 }]);
    o.buy.amount = U256 { hi: u128::MAX, lo: u128::MAX };
    let a = auction_of(vec![o], vec![]);
    let r = Auction::new(&a, &[], addr(9));
    assert_eq!(r.orders[0].buy_amount, U256::zero());
}

#[test]
fn raised_amount_may_pass_128_bits() {
    let a = auction_of(vec![order(Side::Sell, 1, u128::MAX, vec![FeePolicy::Volume { factor: 5 * E17 }])], vec![]);
    let r = Auction::new(&a, &[], addr(9));
    // 2 * (2^128 - 1)
    assert_eq!(r.orders[0].buy_amount, U256 { hi: 1, lo: u128::MAX - 1 });
}

#[test]
fn factor_of_one_or_more_falls_back_to_zero() {
    let a = auction_of(vec![order(Side::Sell, 1, 100, vec![FeePolicy::Volume { factor: 10 * E17 }])], vec![]);
    let r = Auction::new(&a, &[], addr(9));
    assert_eq!(r.orders[0].buy_amount, u(0));
}

#[test]
fn native_buy_token_is_wrapped() {
    let mut o = order(Side::Sell, 10, 8, vec![]);
    o.buy.token = Address([0xee; 20]);
    o.kind = OrderKind::Limit;
    let a = auction_of(vec![o], vec![]);
    let r = Auction::new(&a, &[], addr(9));
    assert_eq!(r.orders[0].buy_token.0, [9; 20]);
    assert_eq!(r.orders[0].class, Class::Limit);
    assert_eq!(r.orders[0].fee_amount, u(5));
}

#[test]
fn pool_tokens_get_default_entries() {
    let a = auction_of(vec![], vec![token(addr(1), "A")]);
    let pools = vec![uniswap(0, addr(1), addr(2)), uniswap(1, addr(2), addr(3))];
    let r = Auction::new(&a, &pools, addr(9));
    assert_eq!(r.tokens.len(), 3);
    assert_eq!(r.tokens[0].0 .0, [1; 20]);
    assert_eq!(r.tokens[0].1.symbol.as_deref(), Some("A"));
    assert_eq!(r.tokens[0].1.available_balance, u(77));
    assert!(r.tokens[0].1.trusted);
    assert_eq!(r.tokens[1].0 .0, [2; 20]);
    assert_eq!(r.tokens[1].1.symbol, None);
    assert_eq!(r.tokens[1].1.decimals, None);
    assert_eq!(r.tokens[1].1.available_balance, u(0));
    assert!(!r.tokens[1].1.trusted);
    assert_eq!(r.tokens[2].0 .0, [3; 20]);
}

#[test]
fn auction_id_gas_price_and_deadline() {
    let mut a = auction_of(vec![], vec![]);
    let r = Auction::new(&a, &[], addr(9));
    assert_eq!(r.id.as_deref(), Some("42"));
    assert_eq!(r.effective_gas_price, u(1_000_000_000));
    assert_eq!(r.deadline, 1_500);
    a.id = Some(-7);
    assert_eq!(Auction::new(&a, &[], addr(9)).id.as_deref(), Some("-7"));
    a.id = None;
    assert_eq!(Auction::new(&a, &[], addr(9)).id, None);
}

#[test]
fn constant_product_pool_is_sorted_with_fixed_fee() {
    let a = auction_of(vec![], vec![]);
    let r = Auction::new(&a, &[uniswap(4, addr(8), addr(3))], addr(9));
    match &r.liquidity[0] {
        Liquidity::ConstantProduct(c) => {
            assert_eq!(c.id, 4);
            assert_eq!(c.gas_estimate, u(110_000));
            assert_eq!(c.tokens[0].0 .0, [3; 20]);
            assert_eq!(c.tokens[0].1.balance, u(2_000));
            assert_eq!(c.tokens[1].0 .0, [8; 20]);
            assert_eq!(c.tokens[1].1.balance, u(1_000));
            assert_eq!(c.fee, Decimal { digits: 3, scale: 3 });
        }
        other => panic!("unexpected {other:?}"),
    }
}

#[test]
fn swapr_pool_fee_is_its_basis_points() {
    let a = auction_of(vec![], vec![]);
    let pool = domain::Liquidity {
        id: 1,
        gas: u(1),
        kind: LiquidityKind::Swapr(SwaprPool {
            base: UniswapV2Pool {
                address: addr(0x50),
                router: addr(0x51),
                reserves: (Asset { token: addr(1), amount: u(1) }, Asset { token: addr(2), amount: u(2) }),
            },
            fee_bps: 25,
        }),
    };
    let r = Auction::new(&a, &[pool], addr(9));
    match &r.liquidity[0] {
        Liquidity::ConstantProduct(c) => assert_eq!(c.fee, Decimal { digits: 25, scale: 4 }),
        other => panic!("unexpected {other:?}"),
    }
}

#[test]
fn concentrated_pool_fee_comes_from_its_ratio() {
    let a = auction_of(vec![], vec![]);
    let pool = domain::Liquidity {
        id: 2,
        gas: u(3),
        kind: LiquidityKind::UniswapV3(UniswapV3Pool {
            address: addr(0x60),
            router: addr(0x61),
            tokens: (addr(1), addr(2)),
            sqrt_price: u(79_228_162_514_264_337_593_543_950_336),
            liquidity: 5_000,
            tick: -3,
            liquidity_net: std::collections::BTreeMap::from([(-60, 10), (60, -10)]),
            fee: Ratio { numer: u(3_000), denom: u(1_000_000) },
        }),
    };
    let r = Auction::new(&a, &[pool], addr(9));
    match &r.liquidity[0] {
        Liquidity::ConcentratedLiquidity(c) => {
            assert_eq!(c.fee, DecimalDigits { digits: vec![3], scale: 3 });
            assert_eq!(c.tokens.len(), 2);
            assert_eq!(c.tick, -3);
            assert_eq!(c.liquidity_net, std::collections::BTreeMap::from([(-60, 10), (60, -10)]));
        }
        other => panic!("unexpected {other:?}"),
    }
}

#[test]
fn balancer_pools_keep_reserve_order_and_scale_by_1e18() {
    let a = auction_of(vec![], vec![]);
    let mut id = [0u8; 32];
    for (i, b) in id.iter_mut().enumerate() {
        *b = i as u8;
    }
    let stable = domain::Liquidity {
        id: 5,
        gas: u(9),
        kind: LiquidityKind::BalancerV2Stable(StablePoolState {
            id,
            reserves: vec![
                StableReserve { asset: Asset { token: addr(4), amount: u(40) }, scale: 1_000_000_000_000_000_000 },
                StableReserve { asset: Asset { token: addr(2), amount: u(20) }, scale: 1_000_000_000_000 },
            ],
            amplification_parameter: Ratio { numer: u(200_000), denom: u(1_000) },
            fee: 400_000_000_000_000,
        }),
    };
    let weighted = domain::Liquidity {
        id: 6,
        gas: u(9),
        kind: LiquidityKind::BalancerV2Weighted(WeightedPoolState {
            id,
            reserves: vec![WeightedReserve { asset: Asset { token: addr(7), amount: u(70) }, scale: 1, weight: 500_000_000_000_000_000 }],
            fee: 3_000_000_000_000_000,
            version: WeightedVersion::V3Plus,
        }),
    };
    let r = Auction::new(&a, &[stable, weighted], addr(9));
    match &r.liquidity[0] {
        Liquidity::Stable(c) => {
            let want: Vec<u8> = (0u8..20).collect();
            assert_eq!(c.address.0.to_vec(), want);
            let (first, _) = c.tokens.get_index(0).unwrap();
            let (second, reserve) = c.tokens.get_index(1).unwrap();
            assert_eq!(first.0, [4; 20]);
            assert_eq!(second.0, [2; 20]);
            assert_eq!(reserve.balance, u(20));
            assert_eq!(reserve.scaling_factor, Decimal { digits: 1_000_000_000_000, scale: 18 });
            assert_eq!(c.amplification_parameter, DecimalDigits { digits: vec![2, 0, 0], scale: 0 });
            assert_eq!(c.fee, Decimal { digits: 400_000_000_000_000, scale: 18 });
        }
        other => panic!("unexpected {other:?}"),
    }
    match &r.liquidity[1] {
        Liquidity::WeightedProduct(c) => {
            let (_, reserve) = c.tokens.get_index(0).unwrap();
            assert_eq!(reserve.weight, Decimal { digits: 500_000_000_000_000_000, scale: 18 });
            assert_eq!(reserve.scaling_factor, Decimal { digits: 1, scale: 18 });
            assert_eq!(c.fee, Decimal { digits: 3_000_000_000_000_000, scale: 18 });
            assert_eq!(c.version, solver_dto::auction::WeightedProductVersion::V3Plus);
        }
        other => panic!("unexpected {other:?}"),
    }
    assert_eq!(r.tokens.len(), 3);
}

#[test]
fn encoding_twice_gives_identical_output() {
    let a = auction_of(
        vec![order(Side::Buy, 1_100, 500, vec![FeePolicy::Volume { factor: E17 }])],
        vec![token(addr(1), "A")],
    );
    let pools = vec![uniswap(0, addr(2), addr(1)), uniswap(1, addr(3), addr(1))];
    let first = format!("{:?}", Auction::new(&a, &pools, addr(9)));
    let second = format!("{:?}", Auction::new(&a, &pools, addr(9)));
    assert_eq!(first, second);
}

#[test]
fn decimal_helpers_exact_values() {
    assert_eq!(raw_to_decimal(5), Decimal { digits: 5, scale: 18 });
    assert_eq!(rational_to_decimal(u(1), u(4)), DecimalDigits { digits: vec![2, 5], scale: 2 });
    assert_eq!(rational_to_decimal(u(3), u(1_000)), DecimalDigits { digits: vec![3], scale: 3 });
    assert_eq!(rational_to_decimal(u(0), u(7)).scale, 0);
    assert_eq!(rational_to_decimal(u(7), u(1)), DecimalDigits { digits: vec![7], scale: 0 });
    assert_eq!(mul_div_u256(u(10), 3, 4), Some(u(7)));
    assert_eq!(mul_div_u256(u(u128::MAX), 2, 1), Some(U256 { hi: 1, lo: u128::MAX - 1 }));
    assert_eq!(mul_div_u256(u(u128::MAX), 3, 3), Some(u(u128::MAX)));
}

#[test]
fn address_order_is_bytewise() {
    let mut a = [0u8; 20];
    let mut b = [0u8; 20];
    a[19] = 1;
    b[0] = 1;
    assert!(Address(a).lt(&Address(b)));
    assert!(!Address(b).lt(&Address(a)));
    assert!(!Address(a).lt(&Address(a)));
    assert!(Address([0xee; 20]).is_native());
    assert!(!Address(a).is_native());
}

#[test]
fn adjustment_of_amount_beyond_128_bits_is_exact() {
    let mut o = order(Side::Buy, 1, 1, vec![FeePolicy::Volume { factor: E17 }]);
    o.sell.amount = U256 { hi: 1, lo: 0 };
    let a = auction_of(vec![o], vec![]);
    let r = Auction::new(&a, &[], addr(9));
    // floor(2^128 / 1.1)
    assert_eq!(r.orders[0].sell_amount, u(309_347_606_291_762_239_512_158_734_028_880_192_232));
    assert_eq!(r.orders[0].buy_amount, u(1));
}

#[test]
fn amounts_beyond_128_bits_pass_through_without_fee() {
    let mut o = order(Side::Buy, 1, 1, vec![]);
    o.sell.amount = U256 { hi: 9, lo: 9 };
    let a = auction_of(vec![o], vec![]);
    let r = Auction::new(&a, &[], addr(9));
    assert_eq!(r.orders[0].sell_amount, U256 { hi: 9, lo: 9 });
}

#[test]
fn wide_mul_div_exact_values() {
    let a = U256 { hi: 1 << 72, lo: 12_345 };
    assert_eq!(
        mul_div_u256(a, 7, 3),
        Some(U256 { hi: 11_018_855_126_695_838_831_957, lo: 113_427_455_640_312_821_154_458_202_477_256_099_290 })
    );
    assert_eq!(
        mul_div_u256(U256 { hi: 1, lo: 5 }, 3, 4),
        Some(U256 { hi: 0, lo: 255_211_775_190_703_847_597_530_955_573_826_158_595 })
    );
    assert_eq!(mul_div_u256(U256 { hi: u128::MAX, lo: u128::MAX }, 2, 1), None);
    assert_eq!(mul_div_u256(U256 { hi: u128::MAX, lo: u128::MAX }, 1, 1), Some(U256 { hi: u128::MAX, lo: u128::MAX }));
}

#[test]
fn fraction_without_short_expansion_is_rounded_by_the_division() {
    let d = rational_to_decimal(u(1), u(3));
    assert_eq!(d.scale, 100);
    assert_eq!(d.digits, vec![3; 100]);
    let d = rational_to_decimal(u(2), u(3));
    assert_eq!(d.scale, 100);
    let mut want = vec![6; 99];
    want.push(7);
    assert_eq!(d.digits, want);
}

#[test]
fn concentrated_pool_with_one_third_fee_encodes() {
    let a = auction_of(vec![], vec![]);
    let pool = domain::Liquidity {
        id: 2,
        gas: u(3),
        kind: LiquidityKind::UniswapV3(UniswapV3Pool {
            address: addr(0x60),
            router: addr(0x61),
            tokens: (addr(1), addr(2)),
            sqrt_price: u(1),
            liquidity: 1,
            tick: 0,
            liquidity_net: std::collections::BTreeMap::new(),
            fee: Ratio { numer: u(1), denom: u(3) },
        }),
    };
    let r = Auction::new(&a, &[pool], addr(9));
    match &r.liquidity[0] {
        Liquidity::ConcentratedLiquidity(c) => assert_eq!(c.fee.digits, vec![3; 100]),
        other => panic!("unexpected {other:?}"),
    }
}

#[test]
fn wide_ratio_converts() {
    let numer = U256 { hi: 1, lo: 0 };
    let d = rational_to_decimal(numer, u(2));
    // 2^127
    assert_eq!(d.scale, 0);
    let text: String = d.digits.iter().map(|x| char::from(b'0' + x)).collect();
    assert_eq!(text, "170141183460469231731687303715884105728");
}
