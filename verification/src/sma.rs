//! The simple moving average: the mean of the window.

use vstd::prelude::*;
use crate::config::{ConfigError, MIN_PERIOD};
use crate::scalar::{mean_of, Scalar};
use crate::window::{
    count_bar, fed, lemma_window_revisions_collapse, lemma_window_run, tail, BarWindow,
    WindowModel,
};

verus! {

/// The indicator's value for a window: the mean of its samples, once the window is ready.
pub open spec fn sma_value<S: Scalar>(w: WindowModel<S>) -> Option<S> {
    if w.ready() {
        Some(mean_of(w.items, w.capacity))
    } else {
        None
    }
}

/// One step of the indicator: the window advances, and the value is taken
/// from the window that results.
pub open spec fn sma_advance<S: Scalar>(m: WindowModel<S>, x: S, is_new_bar: bool) -> (
    Option<S>,
    WindowModel<S>,
) {
    let w = m.advanced(x, is_new_bar);
    (sma_value(w), w)
}

/// One step of a stage in a chain: it advances on what the stage before it
/// produced, and stays as it is while that stage has produced nothing.
pub open spec fn sma_feed<S: Scalar>(m: WindowModel<S>, input: Option<S>, is_new_bar: bool) -> (
    Option<S>,
    WindowModel<S>,
) {
    match input {
        None => (None, m),
        Some(x) => sma_advance(m, x, is_new_bar),
    }
}

/// State for SMA calculation.
pub struct SMAState<S> {
    period: i32,
    window: BarWindow<S>,
}

impl<S> View for SMAState<S> {
    type V = WindowModel<S>;

    closed spec fn view(&self) -> WindowModel<S> {
        self.window@
    }
}

impl<S: Scalar> SMAState<S> {
    /// The number of bars seen so far.
    pub fn lookback_count(&self) -> (r: u64)
        ensures
            r == self@.bars,
    {
        self.window.bars()
    }

    /// The window length that the state was set up with.
    pub fn period(&self) -> (r: i32)
        ensures
            self.wf() ==> r == self@.capacity,
    {
        self.period
    }

    /// Whether the state is one that `overlap_sma_state_init` and the steps
    /// after it can have produced.
    pub closed spec fn wf(&self) -> bool {
        &&& self@.valid()
        &&& self.period >= 2
        &&& self.period == self@.capacity
    }

    /// A well-formed state has a valid model over at least two bars.
    pub proof fn lemma_wf_valid(&self)
        requires
            self.wf(),
        ensures
            self@.valid(),
            self@.capacity >= 2,
    {
    }

    /// The state before any bar, for a window of `period >= 2` bars.
    pub(crate) fn fresh(period: i32) -> (r: Self)
        requires
            period >= 2,
        ensures
            r.wf(),
            r@ == WindowModel::<S>::fresh(period as int),
    {
        SMAState { period, window: BarWindow::new(period as usize) }
    }

    /// A copy of the state.
    pub fn duplicate(&self) -> (r: Self)
        ensures
            r@ == self@,
            self.wf() ==> r.wf(),
    {
        SMAState { period: self.period, window: self.window.duplicate() }
    }

    /// One step of this average as a stage of a chain: it advances on `input`
    /// where the stage before produced a value, and is copied where it did not.
    pub fn stage_next(&self, input: Option<S>, is_new_bar: bool) -> (r: (Option<S>, Self))
        requires
            self.wf(),
        ensures
            r.1.wf(),
            (r.0, r.1@) == sma_feed(self@, input, is_new_bar),
    {
        match input {
            None => (None, self.duplicate()),
            Some(x) => overlap_sma_state_next(self, x, is_new_bar),
        }
    }
}

/// Sets up the indicator over `period` bars. A period below two is refused.
pub fn overlap_sma_state_init<S: Scalar>(period: i32) -> (r: Result<SMAState<S>, ConfigError>)
    ensures
        period < 2 <==> r == Err::<SMAState<S>, ConfigError>(ConfigError::InvalidPeriod),
        period >= 2 <==> r.is_ok(),
        r.is_ok() ==> r.unwrap().wf() && r.unwrap()@ == WindowModel::<S>::fresh(period as int),
{
    if period < MIN_PERIOD {
        return Err(ConfigError::InvalidPeriod);
    }
    Ok(SMAState::fresh(period))
}

/// Advances the indicator by one sample. A new bar (`is_new_bar`) slides the
/// window; otherwise the newest sample is overwritten. The value is `None`
/// until `period` bars were seen.
pub fn overlap_sma_state_next<S: Scalar>(state: &SMAState<S>, value: S, is_new_bar: bool) -> (r: (
    Option<S>,
    SMAState<S>,
))
    requires
        state.wf(),
    ensures
        r.1.wf(),
        (r.0, r.1@) == sma_advance(state@, value, is_new_bar),
        r.0.is_some() <==> r.1@.ready(),
        r.1@.bars == count_bar(state@.bars, is_new_bar),
        r.1@.capacity == state@.capacity,
{
    let window = state.window.advanced(value, is_new_bar);
    if !window.is_ready() {
        return (None, SMAState { period: state.period, window });
    }
    let sma: S = window.total().over(S::from_i64(state.period as i64));
    (Some(sma), SMAState { period: state.period, window })
}

/// The indicator's value on the newest of the bars `xs`, all opened in turn
/// on a fresh state, is what the formula gives on the newest `period` of them
/// taken alone; there is none before `period` bars.
pub proof fn lemma_sma_follows_history<S: Scalar>(period: int, xs: Seq<S>)
    requires
        2 <= period <= i32::MAX,
        xs.len() >= 1,
    ensures
        sma_advance(WindowModel::run(period, xs.drop_last()), xs.last(), true) == (
            if xs.len() >= period {
                Some(mean_of(tail(xs, period), period))
            } else {
                None::<S>
            },
            WindowModel::run(period, xs),
        ),
{
    lemma_window_run(period, xs);
}

/// However often the bar that was just opened is revised, the value and the
/// state are those that opening the bar with the last revision would have given.
pub proof fn lemma_sma_revisions_collapse<S: Scalar>(m: WindowModel<S>, x: S, us: Seq<S>)
    requires
        m.valid(),
        us.len() >= 1,
    ensures
        sma_advance(sma_advance(m, x, true).1.revised_by(us.drop_last()), us.last(), false)
            == sma_advance(m, us.last(), true),
{
    lemma_window_revisions_collapse(m, x, us);
}

/// The values that the history `xs` gives, from the first bar that has one:
/// the mean of each run of `period` neighbouring samples.
#[verifier::opaque]
pub open spec fn sma_series<S: Scalar>(period: int, xs: Seq<S>) -> Seq<S> {
    Seq::new(
        if xs.len() < period {
            0nat
        } else {
            (xs.len() - period + 1) as nat
        },
        |j: int| mean_of(xs.subrange(j, j + period), period),
    )
}

/// A history has one value less than bars for each bar of the warm-up, the
/// newest of them the mean of the newest `period` samples.
pub proof fn lemma_sma_series_len<S: Scalar>(period: int, xs: Seq<S>)
    requires
        period >= 1,
    ensures
        sma_series(period, xs).len() == if xs.len() < period {
            0
        } else {
            xs.len() - period + 1
        },
        xs.len() >= period ==> sma_series(period, xs).last() == mean_of(tail(xs, period), period),
{
    reveal(sma_series);
    if xs.len() == period {
        assert(xs.subrange(0, period) =~= xs);
    }
}

/// A stage that is fed what the stage before it produces holds, after every
/// bar, what stepping through that stage's values alone gives; and what it
/// produces in turn extends its own values in the same way.
pub proof fn lemma_sma_stage_follows<S: Scalar>(
    period: int,
    before: Seq<S>,
    input: Option<S>,
    after: Seq<S>,
)
    requires
        1 <= period <= i32::MAX,
        fed(before, input, after),
    ensures
        sma_feed(WindowModel::run(period, before), input, true).1 == WindowModel::run(
            period,
            after,
        ),
        fed(
            sma_series(period, before),
            sma_feed(WindowModel::run(period, before), input, true).0,
            sma_series(period, after),
        ),
        sma_feed(WindowModel::run(period, before), input, true).0.is_some() ==> sma_series(
            period,
            after,
        ).len() > 0 && sma_feed(WindowModel::run(period, before), input, true).0 == Some(
            sma_series(period, after).last(),
        ),
{
    let n = after.len() as int;
    lemma_sma_series_len(period, before);
    lemma_sma_series_len(period, after);
    match input {
        None => {},
        Some(v) => {
            assert(after.drop_last() =~= before);
            lemma_window_run(period, after);
            if n >= period {
                reveal(sma_series);
                assert forall|j: int| 0 <= j < n - period implies #[trigger] sma_series(
                    period,
                    before,
                )[j] == sma_series(period, after)[j] by {
                    assert(before.subrange(j, j + period) =~= after.subrange(j, j + period));
                }
                assert(sma_series(period, after) =~= sma_series(period, before).push(
                    sma_series(period, after).last(),
                ));
            } else {
                assert(sma_series(period, after) =~= sma_series(period, before));
            }
        },
    }
}

} // verus!
