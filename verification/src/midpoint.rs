//! The midpoint: halfway between the largest and the smallest sample of the
//! window.

use vstd::prelude::*;
use crate::config::{ConfigError, MIN_PERIOD};
use crate::scalar::{highest_of, lowest_of, Scalar};
use crate::window::{
    count_bar, lemma_window_revisions_collapse, lemma_window_run, tail, BarWindow, WindowModel,
};

verus! {

/// The indicator's value for a window: the largest sample plus the smallest, over two, once the window is ready.
pub open spec fn midpoint_value<S: Scalar>(w: WindowModel<S>) -> Option<S> {
    if w.ready() {
        Some(highest_of(w.items).plus_spec(lowest_of(w.items)).over_spec(S::of_int(2)))
    } else {
        None
    }
}

/// One step of the indicator: the window advances, and the value is taken
/// from the window that results.
pub open spec fn midpoint_advance<S: Scalar>(m: WindowModel<S>, x: S, is_new_bar: bool) -> (
    Option<S>,
    WindowModel<S>,
) {
    let w = m.advanced(x, is_new_bar);
    (midpoint_value(w), w)
}

/// State for MIDPOINT calculation.
pub struct MIDPOINTState<S> {
    period: i32,
    window: BarWindow<S>,
}

impl<S> View for MIDPOINTState<S> {
    type V = WindowModel<S>;

    closed spec fn view(&self) -> WindowModel<S> {
        self.window@
    }
}

impl<S: Scalar> MIDPOINTState<S> {
    /// The number of bars seen so far.
    pub fn lookback_count(&self) -> (r: u64)
        ensures
            r == self@.bars,
    {
        self.window.bars()
    }

    /// The window length that the state was set up with.
    pub fn period(&self) -> (r: i32)
        ensures
            self.wf() ==> r == self@.capacity,
    {
        self.period
    }

    /// Whether the state is one that `overlap_midpoint_state_init` and the steps
    /// after it can have produced.
    pub closed spec fn wf(&self) -> bool {
        &&& self@.valid()
        &&& self.period >= 2
        &&& self.period == self@.capacity
    }

    /// A well-formed state has a valid model over at least two bars.
    pub proof fn lemma_wf_valid(&self)
        requires
            self.wf(),
        ensures
            self@.valid(),
            self@.capacity >= 2,
    {
    }
}

/// Sets up the indicator over `period` bars. A period below two is refused.
pub fn overlap_midpoint_state_init<S: Scalar>(period: i32) -> (r: Result<MIDPOINTState<S>, ConfigError>)
    ensures
        period < 2 <==> r == Err::<MIDPOINTState<S>, ConfigError>(ConfigError::InvalidPeriod),
        period >= 2 <==> r.is_ok(),
        r.is_ok() ==> r.unwrap().wf() && r.unwrap()@ == WindowModel::<S>::fresh(period as int),
{
    if period < MIN_PERIOD {
        return Err(ConfigError::InvalidPeriod);
    }
    Ok(MIDPOINTState { period, window: BarWindow::new(period as usize) })
}

/// Advances the indicator by one sample. A new bar (`is_new_bar`) slides the
/// window; otherwise the newest sample is overwritten. The value is `None`
/// until `period` bars were seen.
pub fn overlap_midpoint_state_next<S: Scalar>(state: &MIDPOINTState<S>, value: S, is_new_bar: bool) -> (r: (
    Option<S>,
    MIDPOINTState<S>,
))
    requires
        state.wf(),
    ensures
        r.1.wf(),
        (r.0, r.1@) == midpoint_advance(state@, value, is_new_bar),
        r.0.is_some() <==> r.1@.ready(),
        r.1@.bars == count_bar(state@.bars, is_new_bar),
        r.1@.capacity == state@.capacity,
{
    let window = state.window.advanced(value, is_new_bar);
    if !window.is_ready() {
        return (None, MIDPOINTState { period: state.period, window });
    }
    let midpoint: S = window.highest().plus(window.lowest()).over(S::from_i64(2));
    (Some(midpoint), MIDPOINTState { period: state.period, window })
}

/// The indicator's value on the newest of the bars `xs`, all opened in turn
/// on a fresh state, is what the formula gives on the newest `period` of them
/// taken alone; there is none before `period` bars.
pub proof fn lemma_midpoint_follows_history<S: Scalar>(period: int, xs: Seq<S>)
    requires
        2 <= period <= i32::MAX,
        xs.len() >= 1,
    ensures
        midpoint_advance(WindowModel::run(period, xs.drop_last()), xs.last(), true) == (
            if xs.len() >= period {
                Some(highest_of(tail(xs, period)).plus_spec(lowest_of(tail(xs, period))).over_spec(
                    S::of_int(2),
                ))
            } else {
                None::<S>
            },
            WindowModel::run(period, xs),
        ),
{
    lemma_window_run(period, xs);
}

/// However often the bar that was just opened is revised, the value and the
/// state are those that opening the bar with the last revision would have given.
pub proof fn lemma_midpoint_revisions_collapse<S: Scalar>(m: WindowModel<S>, x: S, us: Seq<S>)
    requires
        m.valid(),
        us.len() >= 1,
    ensures
        midpoint_advance(midpoint_advance(m, x, true).1.revised_by(us.drop_last()), us.last(), false)
            == midpoint_advance(m, us.last(), true),
{
    lemma_window_revisions_collapse(m, x, us);
}

} // verus!
