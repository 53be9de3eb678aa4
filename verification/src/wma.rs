//! The weighted moving average: the samples weighted 1 to `period` from the
//! oldest to the newest, over the sum of the weights.

use vstd::prelude::*;
use crate::config::{ConfigError, MIN_PERIOD};
use crate::scalar::{weight_total, weighted_sum_of, Scalar};
use crate::window::{
    count_bar, lemma_window_revisions_collapse, lemma_window_run, tail, BarWindow, WindowModel,
};

verus! {

/// The indicator's value for a window: the weighted sum of its samples over the sum of the weights, once the window is ready.
pub open spec fn wma_value<S: Scalar>(w: WindowModel<S>) -> Option<S> {
    if w.ready() {
        Some(weighted_sum_of(w.items).over_spec(weight_total(w.capacity)))
    } else {
        None
    }
}

/// One step of the indicator: the window advances, and the value is taken
/// from the window that results.
pub open spec fn wma_advance<S: Scalar>(m: WindowModel<S>, x: S, is_new_bar: bool) -> (
    Option<S>,
    WindowModel<S>,
) {
    let w = m.advanced(x, is_new_bar);
    (wma_value(w), w)
}

/// State for WMA calculation.
pub struct WMAState<S> {
    period: i32,
    window: BarWindow<S>,
}

impl<S> View for WMAState<S> {
    type V = WindowModel<S>;

    closed spec fn view(&self) -> WindowModel<S> {
        self.window@
    }
}

impl<S: Scalar> WMAState<S> {
    /// The number of bars seen so far.
    pub fn lookback_count(&self) -> (r: u64)
        ensures
            r == self@.bars,
    {
        self.window.bars()
    }

    /// The window length that the state was set up with.
    pub fn period(&self) -> (r: i32)
        ensures
            self.wf() ==> r == self@.capacity,
    {
        self.period
    }

    /// Whether the state is one that `overlap_wma_state_init` and the steps
    /// after it can have produced.
    pub closed spec fn wf(&self) -> bool {
        &&& self@.valid()
        &&& self.period >= 2
        &&& self.period == self@.capacity
    }

    /// A well-formed state has a valid model over at least two bars.
    pub proof fn lemma_wf_valid(&self)
        requires
            self.wf(),
        ensures
            self@.valid(),
            self@.capacity >= 2,
    {
    }
}

/// Sets up the indicator over `period` bars. A period below two is refused.
pub fn overlap_wma_state_init<S: Scalar>(period: i32) -> (r: Result<WMAState<S>, ConfigError>)
    ensures
        period < 2 <==> r == Err::<WMAState<S>, ConfigError>(ConfigError::InvalidPeriod),
        period >= 2 <==> r.is_ok(),
        r.is_ok() ==> r.unwrap().wf() && r.unwrap()@ == WindowModel::<S>::fresh(period as int),
{
    if period < MIN_PERIOD {
        return Err(ConfigError::InvalidPeriod);
    }
    Ok(WMAState { period, window: BarWindow::new(period as usize) })
}

/// Advances the indicator by one sample. A new bar (`is_new_bar`) slides the
/// window; otherwise the newest sample is overwritten. The value is `None`
/// until `period` bars were seen.
pub fn overlap_wma_state_next<S: Scalar>(state: &WMAState<S>, value: S, is_new_bar: bool) -> (r: (
    Option<S>,
    WMAState<S>,
))
    requires
        state.wf(),
    ensures
        r.1.wf(),
        (r.0, r.1@) == wma_advance(state@, value, is_new_bar),
        r.0.is_some() <==> r.1@.ready(),
        r.1@.bars == count_bar(state@.bars, is_new_bar),
        r.1@.capacity == state@.capacity,
{
    let window = state.window.advanced(value, is_new_bar);
    if !window.is_ready() {
        return (None, WMAState { period: state.period, window });
    }
    let period: i64 = state.period as i64;
    assert(0 <= period * (period + 1) <= 0x7fff_ffff * 0x8000_0000) by (nonlinear_arith)
        requires
            2 <= period <= 0x7fff_ffff,
    ;
    let sum_weights: S = S::from_i64(period * (period + 1)).over(S::from_i64(2));
    let wma: S = window.weighted_total().over(sum_weights);
    (Some(wma), WMAState { period: state.period, window })
}

/// The indicator's value on the newest of the bars `xs`, all opened in turn
/// on a fresh state, is what the formula gives on the newest `period` of them
/// taken alone; there is none before `period` bars.
pub proof fn lemma_wma_follows_history<S: Scalar>(period: int, xs: Seq<S>)
    requires
        2 <= period <= i32::MAX,
        xs.len() >= 1,
    ensures
        wma_advance(WindowModel::run(period, xs.drop_last()), xs.last(), true) == (
            if xs.len() >= period {
                Some(weighted_sum_of(tail(xs, period)).over_spec(weight_total(period)))
            } else {
                None::<S>
            },
            WindowModel::run(period, xs),
        ),
{
    lemma_window_run(period, xs);
}

/// However often the bar that was just opened is revised, the value and the
/// state are those that opening the bar with the last revision would have given.
pub proof fn lemma_wma_revisions_collapse<S: Scalar>(m: WindowModel<S>, x: S, us: Seq<S>)
    requires
        m.valid(),
        us.len() >= 1,
    ensures
        wma_advance(wma_advance(m, x, true).1.revised_by(us.drop_last()), us.last(), false)
            == wma_advance(m, us.last(), true),
{
    lemma_window_revisions_collapse(m, x, us);
}

} // verus!
