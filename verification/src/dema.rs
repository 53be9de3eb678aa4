//! The double exponential moving average: two chained averages, combined as
//! twice the first less the second.

use vstd::prelude::*;
use crate::chain::{
    chain_lookback, ema_cascade, lemma_ema_cascade_len, lemma_first_stage_in_step,
    lemma_next_stage_in_step, stage_in_step,
};
use crate::config::{ConfigError, MIN_PERIOD};
use crate::ema::{
    ema_feed, ema_run, ema_series, lemma_ema_feed_revision_commutes,
    lemma_ema_stage_follows, EMAState, EmaModel,
};
use crate::scalar::Scalar;
use crate::window::{count_bar, fed};

verus! {

/// `2 * e1 - e2`.
pub open spec fn dema_value<S: Scalar>(e1: S, e2: S) -> S {
    S::of_int(2).times_spec(e1).minus_spec(e2)
}

/// What the indicator's state is: the number of bars seen so far and the two stages.
pub struct DemaModel<S> {
    pub bars: int,
    pub stage1: EmaModel<S>,
    pub stage2: EmaModel<S>,
}

impl<S: Scalar> DemaModel<S> {
    /// The window length of each stage.
    pub open spec fn period(self) -> int {
        self.stage1.period()
    }

    /// The bars needed before the indicator has a value.
    pub open spec fn lookback(self) -> int {
        chain_lookback(2, self.period())
    }

    /// Each stage holds what its place in the chain gives it.
    pub open spec fn valid(self) -> bool {
        &&& stage_in_step(self.stage1, self.bars, 0, self.period())
        &&& stage_in_step(self.stage2, self.bars, 1, self.period())
    }

    /// The state before any bar.
    pub open spec fn fresh(period: int) -> Self {
        DemaModel { bars: 0, stage1: EmaModel::fresh(period), stage2: EmaModel::fresh(period) }
    }
}

/// One step of the indicator: the first stage advances on the sample, the
/// second on what the first produced; there is a value once both have one.
pub open spec fn dema_advance<S: Scalar>(m: DemaModel<S>, x: S, is_new_bar: bool) -> (
    Option<S>,
    DemaModel<S>,
) {
    let (o1, s1) = ema_feed(m.stage1, Some(x), is_new_bar);
    let (o2, s2) = ema_feed(m.stage2, o1, is_new_bar);
    let next = DemaModel {
        bars: count_bar(m.bars, is_new_bar),
        stage1: s1,
        stage2: s2,
    };
    if o1.is_some() && o2.is_some() {
        (Some(dema_value(o1.unwrap(), o2.unwrap())), next)
    } else {
        (None, next)
    }
}

/// A step keeps a valid state valid, and there is a value exactly when the
/// count has reached the lookback: the two windows less the one bar they share.
pub proof fn lemma_dema_advance_valid<S: Scalar>(m: DemaModel<S>, x: S, is_new_bar: bool)
    requires
        m.valid(),
    ensures
        dema_advance(m, x, is_new_bar).1.valid(),
        dema_advance(m, x, is_new_bar).1.period() == m.period(),
        dema_advance(m, x, is_new_bar).0.is_some() <==> dema_advance(m, x, is_new_bar).1.bars
            >= 2 * m.period() - 1,
{
    let p = m.period();
    let (o1, s1) = ema_feed(m.stage1, Some(x), is_new_bar);
    lemma_first_stage_in_step(m.stage1, x, is_new_bar, m.bars);
    lemma_next_stage_in_step(m.stage2, o1, is_new_bar, m.bars, 1);
}

/// State for DEMA calculation.
pub struct DEMAState<S> {
    period: i32,
    lookback_count: u64,
    ema1_state: EMAState<S>,
    ema2_state: EMAState<S>,
}

impl<S> View for DEMAState<S> {
    type V = DemaModel<S>;

    closed spec fn view(&self) -> DemaModel<S> {
        DemaModel {
            bars: self.lookback_count as int,
            stage1: self.ema1_state@,
            stage2: self.ema2_state@,
        }
    }
}

impl<S: Scalar> DEMAState<S> {
    /// The number of bars seen so far.
    pub fn lookback_count(&self) -> (r: u64)
        ensures
            r == self@.bars,
    {
        self.lookback_count
    }

    /// The window length that the state was set up with.
    pub fn period(&self) -> (r: i32)
        ensures
            self.wf() ==> r == self@.period(),
    {
        self.period
    }

    /// Whether the state is one that `overlap_dema_state_init` and the steps
    /// after it can have produced.
    pub closed spec fn wf(&self) -> bool {
        &&& self@.valid()
        &&& self.period == self@.period()
        &&& self.ema1_state.wf()
        &&& self.ema2_state.wf()
    }

    /// A well-formed state has a valid model.
    pub proof fn lemma_wf_valid(&self)
        requires
            self.wf(),
        ensures
            self@.valid(),
    {
    }
}

/// Sets up the indicator over `period` bars. A period below two is refused.
pub fn overlap_dema_state_init<S: Scalar>(period: i32) -> (r: Result<DEMAState<S>, ConfigError>)
    ensures
        period < 2 <==> r == Err::<DEMAState<S>, ConfigError>(ConfigError::InvalidPeriod),
        period >= 2 <==> r.is_ok(),
        r.is_ok() ==> r.unwrap().wf() && r.unwrap()@ == DemaModel::<S>::fresh(period as int),
{
    if period < MIN_PERIOD {
        return Err(ConfigError::InvalidPeriod);
    }
    Ok(
        DEMAState {
            period,
            lookback_count: 0,
            ema1_state: EMAState::fresh(period),
            ema2_state: EMAState::fresh(period),
        },
    )
}

/// Advances the indicator by one sample. A new bar (`is_new_bar`) finalizes
/// the bar before it; otherwise the bar in progress is revised. The value is
/// `None` until both stages have matured.
pub fn overlap_dema_state_next<S: Scalar>(state: &DEMAState<S>, value: S, is_new_bar: bool) -> (r: (
    Option<S>,
    DEMAState<S>,
))
    requires
        state.wf(),
    ensures
        r.1.wf(),
        (r.0, r.1@) == dema_advance(state@, value, is_new_bar),
        r.0.is_some() <==> r.1@.bars >= r.1@.lookback(),
        r.1@.bars == count_bar(state@.bars, is_new_bar),
        r.1@.period() == state@.period(),
{
    proof {
        lemma_dema_advance_valid(state@, value, is_new_bar);
    }
    let lookback_count: u64 = if is_new_bar && state.lookback_count < u64::MAX {
        state.lookback_count + 1
    } else {
        state.lookback_count
    };
    let (ema1_value, ema1_state) = state.ema1_state.stage_next(Some(value), is_new_bar);
    let (ema2_value, ema2_state) = state.ema2_state.stage_next(ema1_value, is_new_bar);
    let next = DEMAState { period: state.period, lookback_count, ema1_state, ema2_state };
    match (ema1_value, ema2_value) {
        (Some(e1), Some(e2)) => (Some(S::from_i64(2).times(e1).minus(e2)), next),
        _ => (None, next),
    }
}

/// The value and the state after the bars `xs`, each opened in turn on a
/// fresh state.
pub open spec fn dema_run<S: Scalar>(period: int, xs: Seq<S>) -> (Option<S>, DemaModel<S>)
    decreases xs.len(),
{
    if xs.len() == 0 {
        (None, DemaModel::fresh(period))
    } else {
        dema_advance(dema_run(period, xs.drop_last()).1, xs.last(), true)
    }
}

/// The state after the bar in progress was revised to each of `us` in turn.
pub open spec fn dema_revised_by<S: Scalar>(m: DemaModel<S>, us: Seq<S>) -> DemaModel<S>
    decreases us.len(),
{
    if us.len() == 0 {
        m
    } else {
        dema_advance(dema_revised_by(m, us.drop_last()), us.last(), false).1
    }
}

/// Stepping through a history bar by bar gives what the formula gives on the
/// whole history: each stage is the average of the values of the stage before
/// it, and the indicator combines the newest values. There is a value from
/// the bar `2 * period - 1` on and none before.
pub proof fn lemma_dema_follows_history<S: Scalar>(period: int, xs: Seq<S>)
    requires
        2 <= period <= i32::MAX,
    ensures
        dema_run(period, xs).1.valid(),
        dema_run(period, xs).1.bars == if xs.len() < u64::MAX {
            xs.len() as int
        } else {
            u64::MAX as int
        },
        dema_run(period, xs).1.stage1 == ema_run(period, ema_cascade(period, xs, 0)).1,
        dema_run(period, xs).1.stage2 == ema_run(period, ema_cascade(period, xs, 1)).1,
        xs.len() >= 1 ==> dema_run(period, xs).0 == if xs.len() >= 2 * period - 1 {
            Some(
                dema_value(ema_cascade(period, xs, 1).last(), ema_cascade(period, xs, 2).last()),
            )
        } else {
            None
        },
    decreases xs.len(),
{
    lemma_ema_cascade_len(period, xs, 0);
    lemma_ema_cascade_len(period, xs, 1);
    lemma_ema_cascade_len(period, xs, 2);
    if xs.len() > 0 {
        let before = xs.drop_last();
        let x = xs.last();
        lemma_dema_follows_history(period, before);
        let m = dema_run(period, before).1;
        lemma_dema_advance_valid(m, x, true);
        let c0 = ema_cascade(period, xs, 0);
        let b0 = ema_cascade(period, before, 0);
        let o0 = Some(x);
        assert(fed(b0, o0, c0)) by {
            assert(xs =~= before.push(x));
        }
        let c1 = ema_cascade(period, xs, 1);
        let b1 = ema_cascade(period, before, 1);
        let (o1, s1) = ema_feed(m.stage1, o0, true);
        assert(s1 == ema_run(period, c0).1 && fed(b1, o1, c1) && (o1.is_some() ==> o1 == Some(
            c1.last(),
        ))) by {
            assert(c1 == ema_series(period, c0));
            assert(b1 == ema_series(period, b0));
            lemma_ema_stage_follows(period, b0, o0, c0);
        }
        let c2 = ema_cascade(period, xs, 2);
        let b2 = ema_cascade(period, before, 2);
        let (o2, s2) = ema_feed(m.stage2, o1, true);
        assert(s2 == ema_run(period, c1).1 && fed(b2, o2, c2) && (o2.is_some() ==> o2 == Some(
            c2.last(),
        ))) by {
            assert(c2 == ema_series(period, c1));
            assert(b2 == ema_series(period, b1));
            lemma_ema_stage_follows(period, b1, o1, c1);
        }
    }
}

/// Revising the bar that was just opened gives the value and the state that
/// opening the bar with the revised sample would have given.
pub proof fn lemma_dema_revision_commutes<S: Scalar>(m: DemaModel<S>, x: S, u: S)
    requires
        m.valid(),
    ensures
        dema_advance(dema_advance(m, x, true).1, u, false) == dema_advance(m, u, true),
{
    let x0 = Some(x);
    let u0 = Some(u);
    lemma_ema_feed_revision_commutes(m.stage1, x0, u0);
    let x1 = ema_feed(m.stage1, x0, true).0;
    let u1 = ema_feed(m.stage1, u0, true).0;
    lemma_ema_feed_revision_commutes(m.stage2, x1, u1);
}

/// However often the bar that was just opened is revised, the value and the
/// state are those that opening the bar with the last revision would have
/// given: the bars before it are never disturbed.
pub proof fn lemma_dema_revisions_collapse<S: Scalar>(m: DemaModel<S>, x: S, us: Seq<S>)
    requires
        m.valid(),
        us.len() >= 1,
    ensures
        dema_advance(dema_revised_by(dema_advance(m, x, true).1, us.drop_last()), us.last(), false)
            == dema_advance(m, us.last(), true),
    decreases us.len(),
{
    let before = us.drop_last();
    if before.len() == 0 {
        lemma_dema_revision_commutes(m, x, us.last());
    } else {
        lemma_dema_revisions_collapse(m, x, before);
        lemma_dema_revision_commutes(m, before.last(), us.last());
    }
}

} // verus!
