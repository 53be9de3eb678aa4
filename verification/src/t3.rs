//! The T3 average: six chained averages, the last four combined with weights
//! that a volume factor sets.

use vstd::prelude::*;
use crate::chain::{
    chain_lookback, ema_cascade, lemma_ema_cascade_len, lemma_first_stage_in_step,
    lemma_next_stage_in_step, stage_in_step,
};
use crate::config::{ConfigError, MIN_PERIOD};
use crate::ema::{
    ema_feed, ema_run, ema_series, lemma_ema_feed_revision_commutes,
    lemma_ema_stage_follows, EMAState, EmaModel,
};
use crate::scalar::Scalar;
use crate::window::{count_bar, fed};

verus! {

/// The weight of the sixth stage: `-v^3`.
pub open spec fn t3_c1<S: Scalar>(v: S) -> S {
    v.negated_spec().times_spec(v).times_spec(v)
}

/// The weight of the fifth stage: `3v^2 + 3v^3`.
pub open spec fn t3_c2<S: Scalar>(v: S) -> S {
    let three = S::of_int(3);
    three.times_spec(v).times_spec(v).plus_spec(three.times_spec(v).times_spec(v).times_spec(v))
}

/// The weight of the fourth stage: `-6v^2 - 3v - 3v^3`.
pub open spec fn t3_c3<S: Scalar>(v: S) -> S {
    let three = S::of_int(3);
    S::of_int(-6).times_spec(v).times_spec(v).minus_spec(three.times_spec(v)).minus_spec(
        three.times_spec(v).times_spec(v).times_spec(v),
    )
}

/// The weight of the third stage: `1 + 3v + v^3 + 3v^2`.
pub open spec fn t3_c4<S: Scalar>(v: S) -> S {
    let three = S::of_int(3);
    S::of_int(1).plus_spec(three.times_spec(v)).plus_spec(v.times_spec(v).times_spec(v)).plus_spec(
        three.times_spec(v).times_spec(v),
    )
}

/// `c1 * e6 + c2 * e5 + c3 * e4 + c4 * e3`.
pub open spec fn t3_value<S: Scalar>(v: S, e3: S, e4: S, e5: S, e6: S) -> S {
    t3_c1(v).times_spec(e6).plus_spec(t3_c2(v).times_spec(e5)).plus_spec(
        t3_c3(v).times_spec(e4),
    ).plus_spec(t3_c4(v).times_spec(e3))
}

/// What the indicator's state is: the volume factor, the number of bars seen
/// so far and the six stages.
pub struct T3Model<S> {
    pub vfactor: S,
    pub bars: int,
    pub stage1: EmaModel<S>,
    pub stage2: EmaModel<S>,
    pub stage3: EmaModel<S>,
    pub stage4: EmaModel<S>,
    pub stage5: EmaModel<S>,
    pub stage6: EmaModel<S>,
}

impl<S: Scalar> T3Model<S> {
    /// The window length of each stage.
    pub open spec fn period(self) -> int {
        self.stage1.period()
    }

    /// The bars needed before the indicator has a value.
    pub open spec fn lookback(self) -> int {
        chain_lookback(6, self.period())
    }

    /// Each stage holds what its place in the chain gives it.
    pub open spec fn valid(self) -> bool {
        &&& stage_in_step(self.stage1, self.bars, 0, self.period())
        &&& stage_in_step(self.stage2, self.bars, 1, self.period())
        &&& stage_in_step(self.stage3, self.bars, 2, self.period())
        &&& stage_in_step(self.stage4, self.bars, 3, self.period())
        &&& stage_in_step(self.stage5, self.bars, 4, self.period())
        &&& stage_in_step(self.stage6, self.bars, 5, self.period())
    }

    /// The state before any bar.
    pub open spec fn fresh(period: int, vfactor: S) -> Self {
        T3Model {
            vfactor,
            bars: 0,
            stage1: EmaModel::fresh(period),
            stage2: EmaModel::fresh(period),
            stage3: EmaModel::fresh(period),
            stage4: EmaModel::fresh(period),
            stage5: EmaModel::fresh(period),
            stage6: EmaModel::fresh(period),
        }
    }
}

/// One step of the indicator: each stage advances on what the stage before
/// it produced; there is a value once the third to sixth stages have one.
pub open spec fn t3_advance<S: Scalar>(m: T3Model<S>, x: S, is_new_bar: bool) -> (
    Option<S>,
    T3Model<S>,
) {
    let (o1, s1) = ema_feed(m.stage1, Some(x), is_new_bar);
    let (o2, s2) = ema_feed(m.stage2, o1, is_new_bar);
    let (o3, s3) = ema_feed(m.stage3, o2, is_new_bar);
    let (o4, s4) = ema_feed(m.stage4, o3, is_new_bar);
    let (o5, s5) = ema_feed(m.stage5, o4, is_new_bar);
    let (o6, s6) = ema_feed(m.stage6, o5, is_new_bar);
    let next = T3Model {
        vfactor: m.vfactor,
        bars: count_bar(m.bars, is_new_bar),
        stage1: s1,
        stage2: s2,
        stage3: s3,
        stage4: s4,
        stage5: s5,
        stage6: s6,
    };
    if o3.is_some() && o4.is_some() && o5.is_some() && o6.is_some() {
        (Some(t3_value(m.vfactor, o3.unwrap(), o4.unwrap(), o5.unwrap(), o6.unwrap())), next)
    } else {
        (None, next)
    }
}

/// A step keeps a valid state valid, and there is a value exactly when the
/// count has reached the lookback: the six windows less the five bars they
/// share.
pub proof fn lemma_t3_advance_valid<S: Scalar>(m: T3Model<S>, x: S, is_new_bar: bool)
    requires
        m.valid(),
    ensures
        t3_advance(m, x, is_new_bar).1.valid(),
        t3_advance(m, x, is_new_bar).1.period() == m.period(),
        t3_advance(m, x, is_new_bar).1.vfactor == m.vfactor,
        t3_advance(m, x, is_new_bar).0.is_some() <==> t3_advance(m, x, is_new_bar).1.bars >= 6
            * m.period() - 5,
{
    let (o1, s1) = ema_feed(m.stage1, Some(x), is_new_bar);
    let (o2, s2) = ema_feed(m.stage2, o1, is_new_bar);
    let (o3, s3) = ema_feed(m.stage3, o2, is_new_bar);
    let (o4, s4) = ema_feed(m.stage4, o3, is_new_bar);
    let (o5, s5) = ema_feed(m.stage5, o4, is_new_bar);
    lemma_first_stage_in_step(m.stage1, x, is_new_bar, m.bars);
    lemma_next_stage_in_step(m.stage2, o1, is_new_bar, m.bars, 1);
    lemma_next_stage_in_step(m.stage3, o2, is_new_bar, m.bars, 2);
    lemma_next_stage_in_step(m.stage4, o3, is_new_bar, m.bars, 3);
    lemma_next_stage_in_step(m.stage5, o4, is_new_bar, m.bars, 4);
    lemma_next_stage_in_step(m.stage6, o5, is_new_bar, m.bars, 5);
}

/// State for T3 calculation.
pub struct T3State<S> {
    period: i32,
    vfactor: S,
    lookback_count: u64,
    ema1_state: EMAState<S>,
    ema2_state: EMAState<S>,
    ema3_state: EMAState<S>,
    ema4_state: EMAState<S>,
    ema5_state: EMAState<S>,
    ema6_state: EMAState<S>,
}

impl<S> View for T3State<S> {
    type V = T3Model<S>;

    closed spec fn view(&self) -> T3Model<S> {
        T3Model {
            vfactor: self.vfactor,
            bars: self.lookback_count as int,
            stage1: self.ema1_state@,
            stage2: self.ema2_state@,
            stage3: self.ema3_state@,
            stage4: self.ema4_state@,
            stage5: self.ema5_state@,
            stage6: self.ema6_state@,
        }
    }
}

impl<S: Scalar> T3State<S> {
    /// The number of bars seen so far.
    pub fn lookback_count(&self) -> (r: u64)
        ensures
            r == self@.bars,
    {
        self.lookback_count
    }

    /// The window length that the state was set up with.
    pub fn period(&self) -> (r: i32)
        ensures
            self.wf() ==> r == self@.period(),
    {
        self.period
    }

    /// Whether the state is one that `overlap_t3_state_init` and the steps
    /// after it can have produced.
    pub closed spec fn wf(&self) -> bool {
        &&& self@.valid()
        &&& self.period == self@.period()
        &&& self.ema1_state.wf()
        &&& self.ema2_state.wf()
        &&& self.ema3_state.wf()
        &&& self.ema4_state.wf()
        &&& self.ema5_state.wf()
        &&& self.ema6_state.wf()
    }

    /// A well-formed state has a valid model.
    pub proof fn lemma_wf_valid(&self)
        requires
            self.wf(),
        ensures
            self@.valid(),
    {
    }
}

/// The combination of the last four stages for the volume factor `v`.
fn t3_combine<S: Scalar>(v: S, e3: S, e4: S, e5: S, e6: S) -> (r: S)
    ensures
        r == t3_value(v, e3, e4, e5, e6),
{
    let three: S = S::from_i64(3);
    let c1: S = v.negated().times(v).times(v);
    let c2: S = three.times(v).times(v).plus(three.times(v).times(v).times(v));
    let c3: S = S::from_i64(-6).times(v).times(v).minus(three.times(v)).minus(
        three.times(v).times(v).times(v),
    );
    let c4: S = S::from_i64(1).plus(three.times(v)).plus(v.times(v).times(v)).plus(
        three.times(v).times(v),
    );
    c1.times(e6).plus(c2.times(e5)).plus(c3.times(e4)).plus(c4.times(e3))
}

/// Sets up the indicator over `period` bars with the volume factor `vfactor`.
/// A period below two is refused.
pub fn overlap_t3_state_init<S: Scalar>(period: i32, vfactor: S) -> (r: Result<
    T3State<S>,
    ConfigError,
>)
    ensures
        period < 2 <==> r == Err::<T3State<S>, ConfigError>(ConfigError::InvalidPeriod),
        period >= 2 <==> r.is_ok(),
        r.is_ok() ==> r.unwrap().wf() && r.unwrap()@ == T3Model::<S>::fresh(
            period as int,
            vfactor,
        ),
{
    if period < MIN_PERIOD {
        return Err(ConfigError::InvalidPeriod);
    }
    Ok(
        T3State {
            period,
            vfactor,
            lookback_count: 0,
            ema1_state: EMAState::fresh(period),
            ema2_state: EMAState::fresh(period),
            ema3_state: EMAState::fresh(period),
            ema4_state: EMAState::fresh(period),
            ema5_state: EMAState::fresh(period),
            ema6_state: EMAState::fresh(period),
        },
    )
}

/// Advances the indicator by one sample. A new bar (`is_new_bar`) finalizes
/// the bar before it; otherwise the bar in progress is revised. The value is
/// `None` until all six stages have matured.
pub fn overlap_t3_state_next<S: Scalar>(state: &T3State<S>, value: S, is_new_bar: bool) -> (r: (
    Option<S>,
    T3State<S>,
))
    requires
        state.wf(),
    ensures
        r.1.wf(),
        (r.0, r.1@) == t3_advance(state@, value, is_new_bar),
        r.0.is_some() <==> r.1@.bars >= r.1@.lookback(),
        r.1@.bars == count_bar(state@.bars, is_new_bar),
        r.1@.period() == state@.period(),
{
    proof {
        lemma_t3_advance_valid(state@, value, is_new_bar);
    }
    let lookback_count: u64 = if is_new_bar && state.lookback_count < u64::MAX {
        state.lookback_count + 1
    } else {
        state.lookback_count
    };
    let (ema1_value, ema1_state) = state.ema1_state.stage_next(Some(value), is_new_bar);
    let (ema2_value, ema2_state) = state.ema2_state.stage_next(ema1_value, is_new_bar);
    let (ema3_value, ema3_state) = state.ema3_state.stage_next(ema2_value, is_new_bar);
    let (ema4_value, ema4_state) = state.ema4_state.stage_next(ema3_value, is_new_bar);
    let (ema5_value, ema5_state) = state.ema5_state.stage_next(ema4_value, is_new_bar);
    let (ema6_value, ema6_state) = state.ema6_state.stage_next(ema5_value, is_new_bar);
    let next = T3State {
        period: state.period,
        vfactor: state.vfactor,
        lookback_count,
        ema1_state,
        ema2_state,
        ema3_state,
        ema4_state,
        ema5_state,
        ema6_state,
    };
    match (ema3_value, ema4_value, ema5_value, ema6_value) {
        (Some(e3), Some(e4), Some(e5), Some(e6)) => (
            Some(t3_combine(state.vfactor, e3, e4, e5, e6)),
            next,
        ),
        _ => (None, next),
    }
}

/// The value and the state after the bars `xs`, each opened in turn on a
/// fresh state.
pub open spec fn t3_run<S: Scalar>(period: int, vfactor: S, xs: Seq<S>) -> (Option<S>, T3Model<S>)
    decreases xs.len(),
{
    if xs.len() == 0 {
        (None, T3Model::fresh(period, vfactor))
    } else {
        t3_advance(t3_run(period, vfactor, xs.drop_last()).1, xs.last(), true)
    }
}

/// The state after the bar in progress was revised to each of `us` in turn.
pub open spec fn t3_revised_by<S: Scalar>(m: T3Model<S>, us: Seq<S>) -> T3Model<S>
    decreases us.len(),
{
    if us.len() == 0 {
        m
    } else {
        t3_advance(t3_revised_by(m, us.drop_last()), us.last(), false).1
    }
}

/// Stepping through a history bar by bar gives what the formula gives on the
/// whole history: each stage is the average of the values of the stage before
/// it, and the indicator combines the newest values. There is a value from
/// the bar `6 * period - 5` on and none before.
pub proof fn lemma_t3_follows_history<S: Scalar>(period: int, vfactor: S, xs: Seq<S>)
    requires
        2 <= period <= i32::MAX,
    ensures
        t3_run(period, vfactor, xs).1.valid(),
        t3_run(period, vfactor, xs).1.vfactor == vfactor,
        t3_run(period, vfactor, xs).1.bars == if xs.len() < u64::MAX {
            xs.len() as int
        } else {
            u64::MAX as int
        },
        t3_run(period, vfactor, xs).1.stage1 == ema_run(period, ema_cascade(period, xs, 0)).1,
        t3_run(period, vfactor, xs).1.stage2 == ema_run(period, ema_cascade(period, xs, 1)).1,
        t3_run(period, vfactor, xs).1.stage3 == ema_run(period, ema_cascade(period, xs, 2)).1,
        t3_run(period, vfactor, xs).1.stage4 == ema_run(period, ema_cascade(period, xs, 3)).1,
        t3_run(period, vfactor, xs).1.stage5 == ema_run(period, ema_cascade(period, xs, 4)).1,
        t3_run(period, vfactor, xs).1.stage6 == ema_run(period, ema_cascade(period, xs, 5)).1,
        xs.len() >= 1 ==> t3_run(period, vfactor, xs).0 == if xs.len() >= 6 * period - 5 {
            Some(
                t3_value(
                    vfactor,
                    ema_cascade(period, xs, 3).last(),
                    ema_cascade(period, xs, 4).last(),
                    ema_cascade(period, xs, 5).last(),
                    ema_cascade(period, xs, 6).last(),
                ),
            )
        } else {
            None
        },
    decreases xs.len(),
{
    lemma_ema_cascade_len(period, xs, 0);
    lemma_ema_cascade_len(period, xs, 1);
    lemma_ema_cascade_len(period, xs, 2);
    lemma_ema_cascade_len(period, xs, 3);
    lemma_ema_cascade_len(period, xs, 4);
    lemma_ema_cascade_len(period, xs, 5);
    lemma_ema_cascade_len(period, xs, 6);
    if xs.len() > 0 {
        let before = xs.drop_last();
        let x = xs.last();
        lemma_t3_follows_history(period, vfactor, before);
        let m = t3_run(period, vfactor, before).1;
        lemma_t3_advance_valid(m, x, true);
        let c0 = ema_cascade(period, xs, 0);
        let b0 = ema_cascade(period, before, 0);
        let o0 = Some(x);
        assert(fed(b0, o0, c0)) by {
            assert(xs =~= before.push(x));
        }
        let c1 = ema_cascade(period, xs, 1);
        let b1 = ema_cascade(period, before, 1);
        let (o1, s1) = ema_feed(m.stage1, o0, true);
        assert(s1 == ema_run(period, c0).1 && fed(b1, o1, c1) && (o1.is_some() ==> o1 == Some(
            c1.last(),
        ))) by {
            assert(c1 == ema_series(period, c0));
            assert(b1 == ema_series(period, b0));
            lemma_ema_stage_follows(period, b0, o0, c0);
        }
        let c2 = ema_cascade(period, xs, 2);
        let b2 = ema_cascade(period, before, 2);
        let (o2, s2) = ema_feed(m.stage2, o1, true);
        assert(s2 == ema_run(period, c1).1 && fed(b2, o2, c2) && (o2.is_some() ==> o2 == Some(
            c2.last(),
        ))) by {
            assert(c2 == ema_series(period, c1));
            assert(b2 == ema_series(period, b1));
            lemma_ema_stage_follows(period, b1, o1, c1);
        }
        let c3 = ema_cascade(period, xs, 3);
        let b3 = ema_cascade(period, before, 3);
        let (o3, s3) = ema_feed(m.stage3, o2, true);
        assert(s3 == ema_run(period, c2).1 && fed(b3, o3, c3) && (o3.is_some() ==> o3 == Some(
            c3.last(),
        ))) by {
            assert(c3 == ema_series(period, c2));
            assert(b3 == ema_series(period, b2));
            lemma_ema_stage_follows(period, b2, o2, c2);
        }
        let c4 = ema_cascade(period, xs, 4);
        let b4 = ema_cascade(period, before, 4);
        let (o4, s4) = ema_feed(m.stage4, o3, true);
        assert(s4 == ema_run(period, c3).1 && fed(b4, o4, c4) && (o4.is_some() ==> o4 == Some(
            c4.last(),
        ))) by {
            assert(c4 == ema_series(period, c3));
            assert(b4 == ema_series(period, b3));
            lemma_ema_stage_follows(period, b3, o3, c3);
        }
        let c5 = ema_cascade(period, xs, 5);
        let b5 = ema_cascade(period, before, 5);
        let (o5, s5) = ema_feed(m.stage5, o4, true);
        assert(s5 == ema_run(period, c4).1 && fed(b5, o5, c5) && (o5.is_some() ==> o5 == Some(
            c5.last(),
        ))) by {
            assert(c5 == ema_series(period, c4));
            assert(b5 == ema_series(period, b4));
            lemma_ema_stage_follows(period, b4, o4, c4);
        }
        let c6 = ema_cascade(period, xs, 6);
        let b6 = ema_cascade(period, before, 6);
        let (o6, s6) = ema_feed(m.stage6, o5, true);
        assert(s6 == ema_run(period, c5).1 && fed(b6, o6, c6) && (o6.is_some() ==> o6 == Some(
            c6.last(),
        ))) by {
            assert(c6 == ema_series(period, c5));
            assert(b6 == ema_series(period, b5));
            lemma_ema_stage_follows(period, b5, o5, c5);
        }
    }
}

/// Revising the bar that was just opened gives the value and the state that
/// opening the bar with the revised sample would have given.
pub proof fn lemma_t3_revision_commutes<S: Scalar>(m: T3Model<S>, x: S, u: S)
    requires
        m.valid(),
    ensures
        t3_advance(t3_advance(m, x, true).1, u, false) == t3_advance(m, u, true),
{
    let x0 = Some(x);
    let u0 = Some(u);
    lemma_ema_feed_revision_commutes(m.stage1, x0, u0);
    let x1 = ema_feed(m.stage1, x0, true).0;
    let u1 = ema_feed(m.stage1, u0, true).0;
    lemma_ema_feed_revision_commutes(m.stage2, x1, u1);
    let x2 = ema_feed(m.stage2, x1, true).0;
    let u2 = ema_feed(m.stage2, u1, true).0;
    lemma_ema_feed_revision_commutes(m.stage3, x2, u2);
    let x3 = ema_feed(m.stage3, x2, true).0;
    let u3 = ema_feed(m.stage3, u2, true).0;
    lemma_ema_feed_revision_commutes(m.stage4, x3, u3);
    let x4 = ema_feed(m.stage4, x3, true).0;
    let u4 = ema_feed(m.stage4, u3, true).0;
    lemma_ema_feed_revision_commutes(m.stage5, x4, u4);
    let x5 = ema_feed(m.stage5, x4, true).0;
    let u5 = ema_feed(m.stage5, u4, true).0;
    lemma_ema_feed_revision_commutes(m.stage6, x5, u5);
}

/// However often the bar that was just opened is revised, the value and the
/// state are those that opening the bar with the last revision would have
/// given: the bars before it are never disturbed.
pub proof fn lemma_t3_revisions_collapse<S: Scalar>(m: T3Model<S>, x: S, us: Seq<S>)
    requires
        m.valid(),
        us.len() >= 1,
    ensures
        t3_advance(t3_revised_by(t3_advance(m, x, true).1, us.drop_last()), us.last(), false)
            == t3_advance(m, us.last(), true),
    decreases us.len(),
{
    let before = us.drop_last();
    if before.len() == 0 {
        lemma_t3_revision_commutes(m, x, us.last());
    } else {
        lemma_t3_revisions_collapse(m, x, before);
        lemma_t3_revision_commutes(m, before.last(), us.last());
    }
}

} // verus!
