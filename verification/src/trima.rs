//! The triangular moving average: a simple average of a simple average.

use vstd::prelude::*;
use crate::config::{ConfigError, MIN_PERIOD};
use crate::scalar::Scalar;
use crate::sma::{
    lemma_sma_series_len, lemma_sma_stage_follows, sma_feed, sma_series, SMAState,
};
use crate::window::{count_bar, fed, lemma_window_revision_commutes, WindowModel};

verus! {

/// The window lengths of the two stages: both the upper half of an odd
/// `period`; the half and the half plus one of an even `period`; below three
/// both are `period` itself.
pub open spec fn trima_periods(period: int) -> (int, int) {
    if period < 3 {
        (period, period)
    } else if period % 2 == 1 {
        ((period + 1) / 2, (period + 1) / 2)
    } else {
        (period / 2, period / 2 + 1)
    }
}

/// The bars that have reached the second stage once `bars` were seen: all
/// but those before the first stage had its first value.
pub open spec fn second_stage_bars(bars: int, first: int) -> int {
    let reached = bars - (first - 1);
    if reached < 0 {
        0
    } else {
        reached
    }
}

/// What the indicator's state is: the period, the number of bars seen so
/// far, and the windows of the two stages.
pub struct TrimaModel<S> {
    pub period: int,
    pub bars: int,
    pub stage1: WindowModel<S>,
    pub stage2: WindowModel<S>,
}

impl<S: Scalar> TrimaModel<S> {
    /// The stages have the window lengths that the period sets, and each has
    /// seen the bars that have reached it, or, once the count has stopped at
    /// the largest number a `u64` holds, no fewer than that count gives.
    pub open spec fn valid(self) -> bool {
        &&& 2 <= self.period <= i32::MAX
        &&& (self.stage1.capacity, self.stage2.capacity) == trima_periods(self.period)
        &&& self.stage1.valid()
        &&& self.stage2.valid()
        &&& 0 <= self.bars <= u64::MAX
        &&& self.stage1.bars == self.bars
        &&& self.bars < u64::MAX ==> self.stage2.bars == second_stage_bars(
            self.bars,
            self.stage1.capacity,
        )
        &&& self.bars >= u64::MAX ==> self.stage2.bars >= second_stage_bars(
            self.bars,
            self.stage1.capacity,
        )
    }

    /// The state before any bar.
    pub open spec fn fresh(period: int) -> Self {
        TrimaModel {
            period,
            bars: 0,
            stage1: WindowModel::fresh(trima_periods(period).0),
            stage2: WindowModel::fresh(trima_periods(period).1),
        }
    }
}

/// One step of the indicator: the first stage averages the samples, the
/// second averages what the first produced. The value is the second stage's,
/// or the first stage's for a period below three.
pub open spec fn trima_advance<S: Scalar>(m: TrimaModel<S>, x: S, is_new_bar: bool) -> (
    Option<S>,
    TrimaModel<S>,
) {
    let (o1, s1) = sma_feed(m.stage1, Some(x), is_new_bar);
    let (o2, s2) = sma_feed(m.stage2, o1, is_new_bar);
    let next = TrimaModel {
        period: m.period,
        bars: count_bar(m.bars, is_new_bar),
        stage1: s1,
        stage2: s2,
    };
    if m.period < 3 {
        (o1, next)
    } else {
        (o2, next)
    }
}

/// A step keeps a valid state valid, and there is a value exactly when
/// `period` bars were counted.
pub proof fn lemma_trima_advance_valid<S: Scalar>(m: TrimaModel<S>, x: S, is_new_bar: bool)
    requires
        m.valid(),
    ensures
        trima_advance(m, x, is_new_bar).1.valid(),
        trima_advance(m, x, is_new_bar).1.period == m.period,
        trima_advance(m, x, is_new_bar).0.is_some() <==> trima_advance(m, x, is_new_bar).1.bars
            >= m.period,
{
}

/// State for TRIMA calculation.
pub struct TRIMAState<S> {
    period: i32,
    lookback_count: u64,
    first_sma: SMAState<S>,
    second_sma: SMAState<S>,
}

impl<S> View for TRIMAState<S> {
    type V = TrimaModel<S>;

    closed spec fn view(&self) -> TrimaModel<S> {
        TrimaModel {
            period: self.period as int,
            bars: self.lookback_count as int,
            stage1: self.first_sma@,
            stage2: self.second_sma@,
        }
    }
}

impl<S: Scalar> TRIMAState<S> {
    /// The number of bars seen so far.
    pub fn lookback_count(&self) -> (r: u64)
        ensures
            r == self@.bars,
    {
        self.lookback_count
    }

    /// The window length that the state was set up with.
    pub fn period(&self) -> (r: i32)
        ensures
            self.wf() ==> r == self@.period,
    {
        self.period
    }

    /// Whether the state is one that `overlap_trima_state_init` and the steps
    /// after it can have produced.
    pub closed spec fn wf(&self) -> bool {
        &&& self@.valid()
        &&& self.first_sma.wf()
        &&& self.second_sma.wf()
    }

    /// A well-formed state has a valid model.
    pub proof fn lemma_wf_valid(&self)
        requires
            self.wf(),
        ensures
            self@.valid(),
    {
    }
}

/// The window lengths of the two stages for `period`.
pub fn trima_stage_periods(period: i32) -> (r: (i32, i32))
    requires
        period >= 2,
    ensures
        (r.0 as int, r.1 as int) == trima_periods(period as int),
        r.0 >= 2,
        r.1 >= 2,
{
    if period < 3 {
        (period, period)
    } else if period % 2 == 1 {
        let half: i32 = (period - 1) / 2 + 1;
        (half, half)
    } else {
        let half: i32 = period / 2;
        (half, half + 1)
    }
}

/// Sets up the indicator over `period` bars. A period below two is refused.
pub fn overlap_trima_state_init<S: Scalar>(period: i32) -> (r: Result<TRIMAState<S>, ConfigError>)
    ensures
        period < 2 <==> r == Err::<TRIMAState<S>, ConfigError>(ConfigError::InvalidPeriod),
        period >= 2 <==> r.is_ok(),
        r.is_ok() ==> r.unwrap().wf() && r.unwrap()@ == TrimaModel::<S>::fresh(period as int),
{
    if period < MIN_PERIOD {
        return Err(ConfigError::InvalidPeriod);
    }
    let (first_period, second_period) = trima_stage_periods(period);
    Ok(
        TRIMAState {
            period,
            lookback_count: 0,
            first_sma: SMAState::fresh(first_period),
            second_sma: SMAState::fresh(second_period),
        },
    )
}

/// Advances the indicator by one sample. A new bar (`is_new_bar`) finalizes
/// the bar before it; otherwise the bar in progress is revised. The value is
/// `None` until `period` bars were seen.
pub fn overlap_trima_state_next<S: Scalar>(state: &TRIMAState<S>, value: S, is_new_bar: bool) -> (r:
    (Option<S>, TRIMAState<S>))
    requires
        state.wf(),
    ensures
        r.1.wf(),
        (r.0, r.1@) == trima_advance(state@, value, is_new_bar),
        r.0.is_some() <==> r.1@.bars >= r.1@.period,
        r.1@.bars == count_bar(state@.bars, is_new_bar),
        r.1@.period == state@.period,
{
    proof {
        lemma_trima_advance_valid(state@, value, is_new_bar);
        state.first_sma.lemma_wf_valid();
        state.second_sma.lemma_wf_valid();
    }
    let lookback_count: u64 = if is_new_bar && state.lookback_count < u64::MAX {
        state.lookback_count + 1
    } else {
        state.lookback_count
    };
    let (first_value, first_sma) = state.first_sma.stage_next(Some(value), is_new_bar);
    let (second_value, second_sma) = state.second_sma.stage_next(first_value, is_new_bar);
    let next = TRIMAState { period: state.period, lookback_count, first_sma, second_sma };
    if state.period < 3 {
        (first_value, next)
    } else {
        (second_value, next)
    }
}

/// The value and the state after the bars `xs`, each opened in turn on a
/// fresh state.
pub open spec fn trima_run<S: Scalar>(period: int, xs: Seq<S>) -> (Option<S>, TrimaModel<S>)
    decreases xs.len(),
{
    if xs.len() == 0 {
        (None, TrimaModel::fresh(period))
    } else {
        trima_advance(trima_run(period, xs.drop_last()).1, xs.last(), true)
    }
}

/// The state after the bar in progress was revised to each of `us` in turn.
pub open spec fn trima_revised_by<S: Scalar>(m: TrimaModel<S>, us: Seq<S>) -> TrimaModel<S>
    decreases us.len(),
{
    if us.len() == 0 {
        m
    } else {
        trima_advance(trima_revised_by(m, us.drop_last()), us.last(), false).1
    }
}

/// The indicator over a whole history: the newest mean of the means of the
/// history, or the newest mean itself for a period below three.
pub open spec fn trima_reference<S: Scalar>(period: int, xs: Seq<S>) -> S {
    let (first, second) = trima_periods(period);
    if period < 3 {
        sma_series(first, xs).last()
    } else {
        sma_series(second, sma_series(first, xs)).last()
    }
}

/// Stepping through a history bar by bar gives what the formula gives on the
/// whole history. There is a value from the bar `period` on and none before.
pub proof fn lemma_trima_follows_history<S: Scalar>(period: int, xs: Seq<S>)
    requires
        2 <= period <= i32::MAX,
    ensures
        trima_run(period, xs).1.valid(),
        trima_run(period, xs).1.period == period,
        trima_run(period, xs).1.bars == if xs.len() < u64::MAX {
            xs.len() as int
        } else {
            u64::MAX as int
        },
        trima_run(period, xs).1.stage1 == WindowModel::run(trima_periods(period).0, xs),
        trima_run(period, xs).1.stage2 == WindowModel::run(
            trima_periods(period).1,
            sma_series(trima_periods(period).0, xs),
        ),
        xs.len() >= 1 ==> trima_run(period, xs).0 == if xs.len() >= period {
            Some(trima_reference(period, xs))
        } else {
            None
        },
    decreases xs.len(),
{
    let (first, second) = trima_periods(period);
    lemma_sma_series_len(first, xs);
    if xs.len() > 0 {
        let before = xs.drop_last();
        let x = xs.last();
        lemma_trima_follows_history(period, before);
        let m = trima_run(period, before).1;
        lemma_trima_advance_valid(m, x, true);
        assert(fed(before, Some(x), xs)) by {
            assert(xs =~= before.push(x));
        }
        lemma_sma_stage_follows(first, before, Some(x), xs);
        let o1 = sma_feed(m.stage1, Some(x), true).0;
        lemma_sma_stage_follows(second, sma_series(first, before), o1, sma_series(first, xs));
    }
}

/// Revising the bar that was just opened gives the value and the state that
/// opening the bar with the revised sample would have given.
pub proof fn lemma_trima_revision_commutes<S: Scalar>(m: TrimaModel<S>, x: S, u: S)
    requires
        m.valid(),
    ensures
        trima_advance(trima_advance(m, x, true).1, u, false) == trima_advance(m, u, true),
{
    lemma_window_revision_commutes(m.stage1, x, u);
    let ox = sma_feed(m.stage1, Some(x), true).0;
    let ou = sma_feed(m.stage1, Some(u), true).0;
    if ox.is_some() {
        lemma_window_revision_commutes(m.stage2, ox.unwrap(), ou.unwrap());
    }
}

/// However often the bar that was just opened is revised, the value and the
/// state are those that opening the bar with the last revision would have
/// given: the bars before it are never disturbed.
pub proof fn lemma_trima_revisions_collapse<S: Scalar>(m: TrimaModel<S>, x: S, us: Seq<S>)
    requires
        m.valid(),
        us.len() >= 1,
    ensures
        trima_advance(
            trima_revised_by(trima_advance(m, x, true).1, us.drop_last()),
            us.last(),
            false,
        ) == trima_advance(m, us.last(), true),
    decreases us.len(),
{
    let before = us.drop_last();
    if before.len() == 0 {
        lemma_trima_revision_commutes(m, x, us.last());
    } else {
        lemma_trima_revisions_collapse(m, x, before);
        lemma_trima_revision_commutes(m, before.last(), us.last());
    }
}

} // verus!
