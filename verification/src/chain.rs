//! Bar counts along a chain of averages, each stage fed by the one before it.

use vstd::prelude::*;
use crate::ema::{ema_feed, ema_series, lemma_ema_series_len, EmaModel};
use crate::scalar::Scalar;
use crate::window::count_bar;

verus! {

/// The bars a chain of `stages` averages over `period` bars needs before its
/// last stage has a value: every stage but the first starts on the bar on
/// which the stage before it matures, so the windows add up less one bar for
/// each link.
pub open spec fn chain_lookback(stages: int, period: int) -> int {
    stages * period - (stages - 1)
}

/// The most stages that a chain here has.
pub const MAX_STAGES: u64 = 6;

/// The bars that have reached the stage with `before` stages ahead of it,
/// once the chain has seen `bars`.
pub open spec fn stage_bars(bars: int, before: int, period: int) -> int {
    let reached = bars - before * (period - 1);
    if reached < 0 {
        0
    } else {
        reached
    }
}

/// Whether a stage holds what its place in the chain gives it: it has seen
/// the bars that have reached it, or, once the chain's count has stopped at
/// the largest number a `u64` holds, no fewer than that count gives.
pub open spec fn stage_in_step<S: Scalar>(m: EmaModel<S>, bars: int, before: int, period: int) -> bool {
    &&& m.valid()
    &&& m.period() == period
    &&& 2 <= period <= i32::MAX
    &&& 0 <= before < MAX_STAGES
    &&& 0 <= bars <= u64::MAX
    &&& bars < u64::MAX ==> m.window.bars == stage_bars(bars, before, period)
    &&& bars >= u64::MAX ==> m.window.bars >= stage_bars(bars, before, period)
}

/// The first stage of a chain keeps in step with the chain's count.
pub proof fn lemma_first_stage_in_step<S: Scalar>(m: EmaModel<S>, x: S, is_new_bar: bool, bars: int)
    requires
        stage_in_step(m, bars, 0, m.period()),
    ensures
        ({
            let (out, next) = ema_feed(m, Some(x), is_new_bar);
            let counted = count_bar(bars, is_new_bar);
            &&& stage_in_step(next, counted, 0, m.period())
            &&& out.is_some() <==> counted >= chain_lookback(1, m.period())
            &&& out.is_some() ==> out == next.current
        }),
{
}

/// A later stage keeps in step with the chain's count when it is fed what
/// the stage before it produced.
pub proof fn lemma_next_stage_in_step<S: Scalar>(
    m: EmaModel<S>,
    input: Option<S>,
    is_new_bar: bool,
    bars: int,
    before: int,
)
    requires
        before >= 1,
        stage_in_step(m, bars, before, m.period()),
        input.is_some() <==> count_bar(bars, is_new_bar) >= chain_lookback(before, m.period()),
    ensures
        ({
            let (out, next) = ema_feed(m, input, is_new_bar);
            let counted = count_bar(bars, is_new_bar);
            &&& stage_in_step(next, counted, before, m.period())
            &&& out.is_some() <==> counted >= chain_lookback(before + 1, m.period())
            &&& out.is_some() ==> out == next.current
        }),
{
    let p = m.period();
    assert(before * (p - 1) + p == (before + 1) * p - before) by (nonlinear_arith);
    assert(before * (p - 1) + 1 == before * p - (before - 1)) by (nonlinear_arith);
    assert(0 <= before * (p - 1) <= 5 * 0x7fff_ffff) by (nonlinear_arith)
        requires
            1 <= before <= 5,
            2 <= p <= 0x7fff_ffff,
    ;
}

/// The values of the stage with `depth` stages up to and including it: the
/// history itself at depth zero, and at each further depth the averages of
/// the values one depth up.
pub open spec fn ema_cascade<S: Scalar>(period: int, xs: Seq<S>, depth: nat) -> Seq<S>
    decreases depth,
{
    if depth == 0 {
        xs
    } else {
        ema_series(period, ema_cascade(period, xs, (depth - 1) as nat))
    }
}

/// Each stage has one value less than the stage before it for each bar of
/// its warm-up.
pub proof fn lemma_ema_cascade_len<S: Scalar>(period: int, xs: Seq<S>, depth: nat)
    requires
        period >= 2,
    ensures
        ema_cascade(period, xs, depth).len() == if xs.len() < depth * (period - 1) {
            0
        } else {
            xs.len() - depth * (period - 1)
        },
    decreases depth,
{
    if depth == 0 {
        assert(depth * (period - 1) == 0) by (nonlinear_arith)
            requires
                depth == 0,
        ;
    } else {
        let up = (depth - 1) as nat;
        lemma_ema_cascade_len(period, xs, up);
        lemma_ema_series_len(period, ema_cascade(period, xs, up));
        assert(depth * (period - 1) == up * (period - 1) + (period - 1)) by (nonlinear_arith)
            requires
                depth == up + 1,
        ;
        assert(up * (period - 1) >= 0) by (nonlinear_arith)
            requires
                period >= 2,
                up >= 0,
        ;
    }
}

} // verus!
