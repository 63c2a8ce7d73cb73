//! Properties that hold across the encoder and the decoder.
use vstd::prelude::*;
use crate::auction::{
    stable_entries, weighted_entries,
    is_snapshot, same_pool, same_snapshot,
    constant_product_fee, default_token, distinct_keys, encode_order, encodes, has_key, pool_tokens,
    swapr_fee, token_map, token_of, volume_factor, with_defaults, Liquidity, Token,
};
use crate::bytes::Address;
use crate::competition;
use crate::competition::fulfillment_check;
use crate::decimal::pow10;
use crate::u256::{
    lemma_from_value, lemma_value_bound, lemma_value_of_from_value, small, u256_max,
};
use crate::hex::{bytes_of_hex, digit_value, hex_body, hex_digit, hex_of, prefix, valid_hex};
use crate::domain;
use crate::domain::{LiquidityKind, Side, FACTOR_SCALE};
use crate::solution::{
    decodes_interaction, decodes_trade, fee_of, has_order, has_pool, interaction_error,
    order_with_uid, pool_with_id, resolved_score, trade_error, Error, Fulfillment, Interaction,
    LiquidityInteraction, Score, Trade,
};

verus! {

/// A volume fee with factor `f < 1` shows solvers a sell amount of
/// `floor(sell / (1 + f))` for a buy order and a buy amount of
/// `floor(buy / (1 - f))` for a sell order, wherever that fits in 256 bits;
/// the other amount is left alone, and `f = 0` changes nothing.
pub proof fn volume_fee_adjusts_limits(o: domain::Order, weth: Address, factor: u64)
    requires
        volume_factor(o) == Some(factor),
        factor < FACTOR_SCALE,
        o.side == Side::Sell ==> (o.buy.amount.value() as int) * FACTOR_SCALE / (FACTOR_SCALE
            - factor) <= u256_max(),
    ensures
        o.side == Side::Buy ==> encode_order(o, weth).sell_amount.value() == (o.sell.amount.value() as int)
            * FACTOR_SCALE / (FACTOR_SCALE + factor) && encode_order(o, weth).buy_amount
            == o.buy.amount,
        o.side == Side::Sell ==> encode_order(o, weth).buy_amount.value() == (o.buy.amount.value() as int)
            * FACTOR_SCALE / (FACTOR_SCALE - factor) && encode_order(o, weth).sell_amount
            == o.sell.amount,
        factor == 0 ==> encode_order(o, weth).sell_amount == o.sell.amount
            && encode_order(o, weth).buy_amount == o.buy.amount,
{
    let s = FACTOR_SCALE as int;
    let a = o.sell.amount.value() as int;
    let b = o.buy.amount.value() as int;
    let f = factor as int;
    assert(a * s / (s + f) <= a) by {
        assert(a * s <= a * (s + f)) by (nonlinear_arith)
            requires
                a >= 0,
                f >= 0,
        ;
        vstd::arithmetic::div_mod::lemma_div_is_ordered(a * s, a * (s + f), s + f);
        vstd::arithmetic::div_mod::lemma_div_multiples_vanish(a, s + f);
        assert(a * (s + f) == (s + f) * a) by (nonlinear_arith);
    }
    assert(a * s / (s + f) >= 0) by (nonlinear_arith)
        requires
            a >= 0,
            s > 0,
            f >= 0,
    ;
    assert(b * s / (s - f) >= 0) by (nonlinear_arith)
        requires
            b >= 0,
            s > f,
            f >= 0,
    ;
    lemma_value_bound(o.sell.amount);
    lemma_value_bound(o.buy.amount);
    lemma_value_of_from_value(a * s / (s + f));
    if o.side == Side::Sell {
        lemma_value_of_from_value(b * s / (s - f));
    }
    if factor == 0 {
        vstd::arithmetic::div_mod::lemma_div_multiples_vanish(a, s);
        vstd::arithmetic::div_mod::lemma_div_multiples_vanish(b, s);
        assert(a * s == s * a) by (nonlinear_arith);
        assert(b * s == s * b) by (nonlinear_arith);
        lemma_from_value(o.sell.amount);
        lemma_from_value(o.buy.amount);
    }
}

/// A constant-product pool is shown with a fee of exactly 3/1000, a Swapr
/// pool with exactly its basis points over 10000.
pub proof fn constant_product_fee_round_trip(dto: Liquidity, l: domain::Liquidity)
    requires
        encodes(dto, l),
    ensures
        l.kind is UniswapV2 ==> (dto matches Liquidity::ConstantProduct(c) && c.fee.equals_ratio(
            3,
            1000,
        )),
        l.kind is Swapr ==> (dto matches Liquidity::ConstantProduct(c) && c.fee.equals_ratio(
            l.kind->Swapr_0.fee_bps as int,
            10000,
        )),
{
    reveal_with_fuel(pow10, 5);
    assert(constant_product_fee().equals_ratio(3, 1000));
    if let LiquidityKind::Swapr(p) = l.kind {
        assert(swapr_fee(p.fee_bps).equals_ratio(p.fee_bps as int, 10000));
    }
}

/// With a cutoff `t`, a solution of an auction whose deadline is `t + 1` is
/// ranked by surplus whatever the solver declared; with a deadline of
/// `t - 1` its declared score stands.
pub proof fn surplus_ranking_after_cutoff(t: i64, declared: Score)
    requires
        i64::MIN < t < i64::MAX,
    ensures
        resolved_score(declared, (t + 1) as i64, Some(t)) == competition::SolverScore::Surplus,
        resolved_score(declared, (t - 1) as i64, Some(t)) == match declared {
            Score::Solver { score } => competition::SolverScore::Solver(score),
            Score::RiskAdjusted { success_probability } => competition::SolverScore::RiskAdjusted(
                success_probability,
            ),
        },
        resolved_score(Score::Solver { score: small(100) }, (t + 1) as i64, Some(t))
            == competition::SolverScore::Surplus,
        resolved_score(Score::Solver { score: small(100) }, (t - 1) as i64, Some(t))
            == competition::SolverScore::Solver(small(100)),
{
}

/// A fulfillment of a uid that no auction order has fails; one of a uid
/// that an order has, with a fee and an amount the order allows, succeeds,
/// and the fulfilled order trades that order's tokens.
pub proof fn fulfillment_resolves_order(
    f: Fulfillment,
    orders: Seq<domain::Order>,
    solver: Address,
    out: competition::Trade,
)
    ensures
        !has_order(orders, f.order) ==> trade_error(Trade::Fulfillment(f), orders) == Some(
            Error::InvalidOrderUid(f.order),
        ),
        has_order(orders, f.order) && fulfillment_check(
            order_with_uid(orders, f.order),
            f.executed_amount,
            fee_of(f.fee),
        ) is Ok ==> trade_error(Trade::Fulfillment(f), orders) is None,
        decodes_trade(out, Trade::Fulfillment(f), orders, solver) ==> (out matches competition::Trade::Fulfillment(x)
            && x.order.sell.token == order_with_uid(orders, f.order).sell.token
            && x.order.buy.token == order_with_uid(orders, f.order).buy.token),
{
}

/// A swap through a liquidity id that the round does not hold fails; one
/// through an id it holds succeeds and carries the whole pool.
pub proof fn interaction_resolves_pool(
    l: LiquidityInteraction,
    pools: Seq<domain::Liquidity>,
    out: competition::Interaction,
)
    ensures
        !has_pool(pools, l.id) ==> interaction_error(Interaction::Liquidity(l), pools) == Some(
            Error::InvalidLiquidityId(l.id),
        ),
        has_pool(pools, l.id) ==> interaction_error(Interaction::Liquidity(l), pools) is None,
        decodes_interaction(out, Interaction::Liquidity(l), pools) ==> (out matches competition::Interaction::Liquidity(x)
            && x.liquidity.same_as(&pool_with_id(pools, l.id))),
{
}

proof fn lemma_with_defaults_covers(entries: Seq<(Address, Token)>, extra: Seq<Address>, j: int)
    requires
        0 <= j < extra.len(),
    ensures
        has_key(with_defaults(entries, extra), extra[j]),
    decreases extra.len(),
{
    let prev = with_defaults(entries, extra.drop_last());
    let next = prev.push((extra.last(), default_token()));
    assert(with_defaults(entries, extra) == if has_key(prev, extra.last()) {
        prev
    } else {
        next
    });
    if j == extra.len() - 1 {
        if !has_key(prev, extra.last()) {
            assert(next[prev.len() as int].0.bytes() == extra.last().bytes());
        }
    } else {
        lemma_with_defaults_covers(entries, extra.drop_last(), j);
        assert(extra.drop_last()[j] == extra[j]);
        if !has_key(prev, extra.last()) {
            let i = choose|i: int| 0 <= i < prev.len() && #[trigger] prev[i].0.bytes() == extra[j].bytes();
            assert(next[i].0.bytes() == extra[j].bytes());
        }
    }
}

proof fn lemma_with_defaults_distinct(entries: Seq<(Address, Token)>, extra: Seq<Address>)
    requires
        distinct_keys(entries),
    ensures
        distinct_keys(with_defaults(entries, extra)),
    decreases extra.len(),
{
    if extra.len() > 0 {
        lemma_with_defaults_distinct(entries, extra.drop_last());
        let prev = with_defaults(entries, extra.drop_last());
        if !has_key(prev, extra.last()) {
            let next = prev.push((extra.last(), default_token()));
            assert forall|i: int, j: int| 0 <= i < j < next.len() implies next[i].0.bytes()
                != next[j].0.bytes() by {
                if j == prev.len() {
                    assert(prev[i].0.bytes() != extra.last().bytes());
                }
            }
        }
    }
}

proof fn lemma_pool_tokens_contain(pools: Seq<domain::Liquidity>, k: int, j: int)
    requires
        0 <= k < pools.len(),
        0 <= j < pools[k].tokens().len(),
    ensures
        pool_tokens(pools).contains(pools[k].tokens()[j]),
    decreases pools.len(),
{
    let prev = pool_tokens(pools.drop_last());
    if k == pools.len() - 1 {
        assert((prev + pools.last().tokens())[prev.len() + j] == pools[k].tokens()[j]);
    } else {
        assert(pools.drop_last()[k] == pools[k]);
        lemma_pool_tokens_contain(pools.drop_last(), k, j);
        let i = choose|i: int| 0 <= i < prev.len() && prev[i] == pools[k].tokens()[j];
        assert((prev + pools.last().tokens())[i] == pools[k].tokens()[j]);
    }
}

/// Every token that a liquidity source holds has an entry in the token map
/// that solvers are sent, a default one where the auction has no metadata.
pub proof fn pool_tokens_have_entries(
    tokens: Seq<domain::TokenInfo>,
    pools: Seq<domain::Liquidity>,
    k: int,
    j: int,
)
    requires
        0 <= k < pools.len(),
        0 <= j < pools[k].tokens().len(),
    ensures
        has_key(token_map(tokens, pools), pools[k].tokens()[j]),
{
    lemma_pool_tokens_contain(pools, k, j);
    let extra = pool_tokens(pools);
    let i = choose|i: int| 0 <= i < extra.len() && extra[i] == pools[k].tokens()[j];
    lemma_with_defaults_covers(
        tokens.map_values(|t: domain::TokenInfo| (t.address, token_of(t))),
        extra,
        i,
    );
}

/// The snapshot that solvers are sent lists every token that a liquidity
/// source of the round holds.
pub proof fn snapshot_lists_pool_tokens(
    r: crate::auction::Auction,
    auction: domain::Auction,
    liquidity: Seq<domain::Liquidity>,
    weth: Address,
    k: int,
    j: int,
)
    requires
        is_snapshot(r, auction, liquidity, weth),
        0 <= k < liquidity.len(),
        0 <= j < liquidity[k].tokens().len(),
    ensures
        has_key(r.tokens@, liquidity[k].tokens()[j]),
{
    pool_tokens_have_entries(auction.tokens@, liquidity, k, j);
}

/// The token map is keyed by address: no address occurs twice, where the
/// auction's own metadata has none twice.
pub proof fn token_map_is_keyed(tokens: Seq<domain::TokenInfo>, pools: Seq<domain::Liquidity>)
    requires
        domain::distinct_token_addresses(tokens),
    ensures
        distinct_keys(token_map(tokens, pools)),
{
    let seeded = tokens.map_values(|t: domain::TokenInfo| (t.address, token_of(t)));
    assert(distinct_keys(seeded));
    lemma_with_defaults_distinct(seeded, pool_tokens(pools));
}

proof fn lemma_encoding_unique(a: Liquidity, b: Liquidity, l: domain::Liquidity)
    requires
        encodes(a, l),
        encodes(b, l),
    ensures
        same_pool(a, b),
{
    match (a, b) {
        (Liquidity::ConstantProduct(x), Liquidity::ConstantProduct(y)) => {
            assert(x.tokens@ =~= y.tokens@);
        },
        (Liquidity::WeightedProduct(x), Liquidity::WeightedProduct(y)) => {
            assert(weighted_entries(x.tokens) =~= weighted_entries(y.tokens));
        },
        (Liquidity::Stable(x), Liquidity::Stable(y)) => {
            assert(stable_entries(x.tokens) =~= stable_entries(y.tokens));
        },
        (Liquidity::ConcentratedLiquidity(x), Liquidity::ConcentratedLiquidity(y)) => {
            assert(x.tokens@ =~= y.tokens@);
        },
        _ => {},
    }
}

/// Encoding is deterministic: two snapshots of the same auction state hold
/// the same values in the same order.
pub proof fn encoding_is_deterministic(
    auction: domain::Auction,
    liquidity: Seq<domain::Liquidity>,
    weth: Address,
    a: crate::auction::Auction,
    b: crate::auction::Auction,
)
    requires
        is_snapshot(a, auction, liquidity, weth),
        is_snapshot(b, auction, liquidity, weth),
    ensures
        same_snapshot(a, b),
{
    assert(a.orders@ =~= b.orders@);
    assert forall|k: int| 0 <= k < a.liquidity@.len() implies same_pool(
        #[trigger] a.liquidity@[k],
        b.liquidity@[k],
    ) by {
        lemma_encoding_unique(a.liquidity@[k], b.liquidity@[k], liquidity[k]);
    }
}

proof fn lemma_digit_value_of_hex_digit(n: int)
    requires
        0 <= n < 16,
    ensures
        digit_value(hex_digit(n)) == Some(n),
{
}

/// Hex text that the encoder writes reads back as the bytes it was written from.
pub proof fn hex_round_trip(b: Seq<u8>)
    ensures
        valid_hex(hex_body(prefix() + hex_of(b))),
        bytes_of_hex(hex_body(prefix() + hex_of(b))) == b,
{
    let h = hex_of(b);
    assert(hex_body(prefix() + h) =~= h);
    assert forall|i: int| 0 <= i < h.len() implies (#[trigger] digit_value(h[i])) is Some by {
        let x = b[i / 2] as int;
        lemma_digit_value_of_hex_digit(x / 16);
        lemma_digit_value_of_hex_digit(x % 16);
    }
    assert forall|i: int| 0 <= i < b.len() implies #[trigger] bytes_of_hex(h)[i] == b[i] by {
        let x = b[i] as int;
        assert((2 * i) / 2 == i);
        assert((2 * i + 1) / 2 == i);
        assert((2 * i) % 2 == 0);
        assert((2 * i + 1) % 2 == 1);
        lemma_digit_value_of_hex_digit(x / 16);
        lemma_digit_value_of_hex_digit(x % 16);
        assert(16 * (x / 16) + x % 16 == x);
    }
    assert(bytes_of_hex(h) =~= b);
}

} // verus!
