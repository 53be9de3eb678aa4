//! The triple exponential moving average: three chained averages, combined
//! as three times the first, less three times the second, plus the third.

use vstd::prelude::*;
use crate::chain::{
    chain_lookback, ema_cascade, lemma_ema_cascade_len, lemma_first_stage_in_step,
    lemma_next_stage_in_step, stage_in_step,
};
use crate::config::{ConfigError, MIN_PERIOD};
use crate::ema::{
    ema_feed, ema_run, ema_series, lemma_ema_feed_revision_commutes,
    lemma_ema_stage_follows, EMAState, EmaModel,
};
use crate::scalar::Scalar;
use crate::window::{count_bar, fed};

verus! {

/// `3 * e1 - 3 * e2 + e3`.
pub open spec fn tema_value<S: Scalar>(e1: S, e2: S, e3: S) -> S {
    S::of_int(3).times_spec(e1).minus_spec(S::of_int(3).times_spec(e2)).plus_spec(e3)
}

/// What the indicator's state is: the number of bars seen so far and the three stages.
pub struct TemaModel<S> {
    pub bars: int,
    pub stage1: EmaModel<S>,
    pub stage2: EmaModel<S>,
    pub stage3: EmaModel<S>,
}

impl<S: Scalar> TemaModel<S> {
    /// The window length of each stage.
    pub open spec fn period(self) -> int {
        self.stage1.period()
    }

    /// The bars needed before the indicator has a value.
    pub open spec fn lookback(self) -> int {
        chain_lookback(3, self.period())
    }

    /// Each stage holds what its place in the chain gives it.
    pub open spec fn valid(self) -> bool {
        &&& stage_in_step(self.stage1, self.bars, 0, self.period())
        &&& stage_in_step(self.stage2, self.bars, 1, self.period())
        &&& stage_in_step(self.stage3, self.bars, 2, self.period())
    }

    /// The state before any bar.
    pub open spec fn fresh(period: int) -> Self {
        TemaModel {
            bars: 0,
            stage1: EmaModel::fresh(period),
            stage2: EmaModel::fresh(period),
            stage3: EmaModel::fresh(period),
        }
    }
}

/// One step of the indicator: each stage advances on what the stage before
/// it produced; there is a value once all three have one.
pub open spec fn tema_advance<S: Scalar>(m: TemaModel<S>, x: S, is_new_bar: bool) -> (
    Option<S>,
    TemaModel<S>,
) {
    let (o1, s1) = ema_feed(m.stage1, Some(x), is_new_bar);
    let (o2, s2) = ema_feed(m.stage2, o1, is_new_bar);
    let (o3, s3) = ema_feed(m.stage3, o2, is_new_bar);
    let next = TemaModel {
        bars: count_bar(m.bars, is_new_bar),
        stage1: s1,
        stage2: s2,
        stage3: s3,
    };
    if o1.is_some() && o2.is_some() && o3.is_some() {
        (Some(tema_value(o1.unwrap(), o2.unwrap(), o3.unwrap())), next)
    } else {
        (None, next)
    }
}

/// A step keeps a valid state valid, and there is a value exactly when the
/// count has reached the lookback: the three windows less the two bars they
/// share.
pub proof fn lemma_tema_advance_valid<S: Scalar>(m: TemaModel<S>, x: S, is_new_bar: bool)
    requires
        m.valid(),
    ensures
        tema_advance(m, x, is_new_bar).1.valid(),
        tema_advance(m, x, is_new_bar).1.period() == m.period(),
        tema_advance(m, x, is_new_bar).0.is_some() <==> tema_advance(m, x, is_new_bar).1.bars
            >= 3 * m.period() - 2,
{
    let (o1, s1) = ema_feed(m.stage1, Some(x), is_new_bar);
    let (o2, s2) = ema_feed(m.stage2, o1, is_new_bar);
    lemma_first_stage_in_step(m.stage1, x, is_new_bar, m.bars);
    lemma_next_stage_in_step(m.stage2, o1, is_new_bar, m.bars, 1);
    lemma_next_stage_in_step(m.stage3, o2, is_new_bar, m.bars, 2);
}

/// State for TEMA calculation.
pub struct TEMAState<S> {
    period: i32,
    lookback_count: u64,
    ema1_state: EMAState<S>,
    ema2_state: EMAState<S>,
    ema3_state: EMAState<S>,
}

impl<S> View for TEMAState<S> {
    type V = TemaModel<S>;

    closed spec fn view(&self) -> TemaModel<S> {
        TemaModel {
            bars: self.lookback_count as int,
            stage1: self.ema1_state@,
            stage2: self.ema2_state@,
            stage3: self.ema3_state@,
        }
    }
}

impl<S: Scalar> TEMAState<S> {
    /// The number of bars seen so far.
    pub fn lookback_count(&self) -> (r: u64)
        ensures
            r == self@.bars,
    {
        self.lookback_count
    }

    /// The window length that the state was set up with.
    pub fn period(&self) -> (r: i32)
        ensures
            self.wf() ==> r == self@.period(),
    {
        self.period
    }

    /// Whether the state is one that `overlap_tema_state_init` and the steps
    /// after it can have produced.
    pub closed spec fn wf(&self) -> bool {
        &&& self@.valid()
        &&& self.period == self@.period()
        &&& self.ema1_state.wf()
        &&& self.ema2_state.wf()
        &&& self.ema3_state.wf()
    }

    /// A well-formed state has a valid model.
    pub proof fn lemma_wf_valid(&self)
        requires
            self.wf(),
        ensures
            self@.valid(),
    {
    }
}

/// Sets up the indicator over `period` bars. A period below two is refused.
pub fn overlap_tema_state_init<S: Scalar>(period: i32) -> (r: Result<TEMAState<S>, ConfigError>)
    ensures
        period < 2 <==> r == Err::<TEMAState<S>, ConfigError>(ConfigError::InvalidPeriod),
        period >= 2 <==> r.is_ok(),
        r.is_ok() ==> r.unwrap().wf() && r.unwrap()@ == TemaModel::<S>::fresh(period as int),
{
    if period < MIN_PERIOD {
        return Err(ConfigError::InvalidPeriod);
    }
    Ok(
        TEMAState {
            period,
            lookback_count: 0,
            ema1_state: EMAState::fresh(period),
            ema2_state: EMAState::fresh(period),
            ema3_state: EMAState::fresh(period),
        },
    )
}

/// Advances the indicator by one sample. A new bar (`is_new_bar`) finalizes
/// the bar before it; otherwise the bar in progress is revised. The value is
/// `None` until all three stages have matured.
pub fn overlap_tema_state_next<S: Scalar>(state: &TEMAState<S>, value: S, is_new_bar: bool) -> (r: (
    Option<S>,
    TEMAState<S>,
))
    requires
        state.wf(),
    ensures
        r.1.wf(),
        (r.0, r.1@) == tema_advance(state@, value, is_new_bar),
        r.0.is_some() <==> r.1@.bars >= r.1@.lookback(),
        r.1@.bars == count_bar(state@.bars, is_new_bar),
        r.1@.period() == state@.period(),
{
    proof {
        lemma_tema_advance_valid(state@, value, is_new_bar);
    }
    let lookback_count: u64 = if is_new_bar && state.lookback_count < u64::MAX {
        state.lookback_count + 1
    } else {
        state.lookback_count
    };
    let (ema1_value, ema1_state) = state.ema1_state.stage_next(Some(value), is_new_bar);
    let (ema2_value, ema2_state) = state.ema2_state.stage_next(ema1_value, is_new_bar);
    let (ema3_value, ema3_state) = state.ema3_state.stage_next(ema2_value, is_new_bar);
    let next = TEMAState {
        period: state.period,
        lookback_count,
        ema1_state,
        ema2_state,
        ema3_state,
    };
    match (ema1_value, ema2_value, ema3_value) {
        (Some(e1), Some(e2), Some(e3)) => {
            let three: S = S::from_i64(3);
            (Some(three.times(e1).minus(three.times(e2)).plus(e3)), next)
        },
        _ => (None, next),
    }
}

/// The value and the state after the bars `xs`, each opened in turn on a
/// fresh state.
pub open spec fn tema_run<S: Scalar>(period: int, xs: Seq<S>) -> (Option<S>, TemaModel<S>)
    decreases xs.len(),
{
    if xs.len() == 0 {
        (None, TemaModel::fresh(period))
    } else {
        tema_advance(tema_run(period, xs.drop_last()).1, xs.last(), true)
    }
}

/// The state after the bar in progress was revised to each of `us` in turn.
pub open spec fn tema_revised_by<S: Scalar>(m: TemaModel<S>, us: Seq<S>) -> TemaModel<S>
    decreases us.len(),
{
    if us.len() == 0 {
        m
    } else {
        tema_advance(tema_revised_by(m, us.drop_last()), us.last(), false).1
    }
}

/// Stepping through a history bar by bar gives what the formula gives on the
/// whole history: each stage is the average of the values of the stage before
/// it, and the indicator combines the newest values. There is a value from
/// the bar `3 * period - 2` on and none before.
pub proof fn lemma_tema_follows_history<S: Scalar>(period: int, xs: Seq<S>)
    requires
        2 <= period <= i32::MAX,
    ensures
        tema_run(period, xs).1.valid(),
        tema_run(period, xs).1.bars == if xs.len() < u64::MAX {
            xs.len() as int
        } else {
            u64::MAX as int
        },
        tema_run(period, xs).1.stage1 == ema_run(period, ema_cascade(period, xs, 0)).1,
        tema_run(period, xs).1.stage2 == ema_run(period, ema_cascade(period, xs, 1)).1,
        tema_run(period, xs).1.stage3 == ema_run(period, ema_cascade(period, xs, 2)).1,
        xs.len() >= 1 ==> tema_run(period, xs).0 == if xs.len() >= 3 * period - 2 {
            Some(
                tema_value(
                    ema_cascade(period, xs, 1).last(),
                    ema_cascade(period, xs, 2).last(),
                    ema_cascade(period, xs, 3).last(),
                ),
            )
        } else {
            None
        },
    decreases xs.len(),
{
    lemma_ema_cascade_len(period, xs, 0);
    lemma_ema_cascade_len(period, xs, 1);
    lemma_ema_cascade_len(period, xs, 2);
    lemma_ema_cascade_len(period, xs, 3);
    if xs.len() > 0 {
        let before = xs.drop_last();
        let x = xs.last();
        lemma_tema_follows_history(period, before);
        let m = tema_run(period, before).1;
        lemma_tema_advance_valid(m, x, true);
        let c0 = ema_cascade(period, xs, 0);
        let b0 = ema_cascade(period, before, 0);
        let o0 = Some(x);
        assert(fed(b0, o0, c0)) by {
            assert(xs =~= before.push(x));
        }
        let c1 = ema_cascade(period, xs, 1);
        let b1 = ema_cascade(period, before, 1);
        let (o1, s1) = ema_feed(m.stage1, o0, true);
        assert(s1 == ema_run(period, c0).1 && fed(b1, o1, c1) && (o1.is_some() ==> o1 == Some(
            c1.last(),
        ))) by {
            assert(c1 == ema_series(period, c0));
            assert(b1 == ema_series(period, b0));
            lemma_ema_stage_follows(period, b0, o0, c0);
        }
        let c2 = ema_cascade(period, xs, 2);
        let b2 = ema_cascade(period, before, 2);
        let (o2, s2) = ema_feed(m.stage2, o1, true);
        assert(s2 == ema_run(period, c1).1 && fed(b2, o2, c2) && (o2.is_some() ==> o2 == Some(
            c2.last(),
        ))) by {
            assert(c2 == ema_series(period, c1));
            assert(b2 == ema_series(period, b1));
            lemma_ema_stage_follows(period, b1, o1, c1);
        }
        let c3 = ema_cascade(period, xs, 3);
        let b3 = ema_cascade(period, before, 3);
        let (o3, s3) = ema_feed(m.stage3, o2, true);
        assert(s3 == ema_run(period, c2).1 && fed(b3, o3, c3) && (o3.is_some() ==> o3 == Some(
            c3.last(),
        ))) by {
            assert(c3 == ema_series(period, c2));
            assert(b3 == ema_series(period, b2));
            lemma_ema_stage_follows(period, b2, o2, c2);
        }
    }
}

/// Revising the bar that was just opened gives the value and the state that
/// opening the bar with the revised sample would have given.
pub proof fn lemma_tema_revision_commutes<S: Scalar>(m: TemaModel<S>, x: S, u: S)
    requires
        m.valid(),
    ensures
        tema_advance(tema_advance(m, x, true).1, u, false) == tema_advance(m, u, true),
{
    let x0 = Some(x);
    let u0 = Some(u);
    lemma_ema_feed_revision_commutes(m.stage1, x0, u0);
    let x1 = ema_feed(m.stage1, x0, true).0;
    let u1 = ema_feed(m.stage1, u0, true).0;
    lemma_ema_feed_revision_commutes(m.stage2, x1, u1);
    let x2 = ema_feed(m.stage2, x1, true).0;
    let u2 = ema_feed(m.stage2, u1, true).0;
    lemma_ema_feed_revision_commutes(m.stage3, x2, u2);
}

/// However often the bar that was just opened is revised, the value and the
/// state are those that opening the bar with the last revision would have
/// given: the bars before it are never disturbed.
pub proof fn lemma_tema_revisions_collapse<S: Scalar>(m: TemaModel<S>, x: S, us: Seq<S>)
    requires
        m.valid(),
        us.len() >= 1,
    ensures
        tema_advance(tema_revised_by(tema_advance(m, x, true).1, us.drop_last()), us.last(), false)
            == tema_advance(m, us.last(), true),
    decreases us.len(),
{
    let before = us.drop_last();
    if before.len() == 0 {
        lemma_tema_revision_commutes(m, x, us.last());
    } else {
        lemma_tema_revisions_collapse(m, x, before);
        lemma_tema_revision_commutes(m, before.last(), us.last());
    }
}

} // verus!
