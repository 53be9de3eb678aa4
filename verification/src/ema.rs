//! The exponential moving average, alone and as one stage of a chain.

use vstd::prelude::*;
use crate::config::{ConfigError, MIN_PERIOD};
use crate::scalar::{mean_of, Scalar};
use crate::window::{
    count_bar, fed, lemma_window_revision_commutes, lemma_window_run, BarWindow, WindowModel,
};

verus! {

/// The smoothing constant of a window of `period` bars: two over `period + 1`.
pub open spec fn smoothing<S: Scalar>(period: int) -> S {
    S::of_int(2).over_spec(S::of_int(period).plus_spec(S::of_int(1)))
}

/// One step of the recurrence: `(x - base) * k + base`.
pub open spec fn smoothed<S: Scalar>(x: S, base: S, k: S) -> S {
    x.minus_spec(base).times_spec(k).plus_spec(base)
}

/// What an average's state is: its window, the estimate after the latest
/// step, and the estimate as of the bar before the one in progress.
pub struct EmaModel<S> {
    pub window: WindowModel<S>,
    pub current: Option<S>,
    pub committed: Option<S>,
}

impl<S: Scalar> EmaModel<S> {
    /// The window length.
    pub open spec fn period(self) -> int {
        self.window.capacity
    }

    /// The average has an estimate exactly when its window is ready, and no
    /// committed estimate before it has a current one.
    pub open spec fn valid(self) -> bool {
        &&& self.window.valid()
        &&& self.window.capacity >= 2
        &&& self.current.is_some() <==> self.window.ready()
        &&& self.committed.is_some() ==> self.current.is_some()
    }

    /// The state before any bar.
    pub open spec fn fresh(period: int) -> Self {
        EmaModel { window: WindowModel::fresh(period), current: None, committed: None }
    }
}

/// One step of the average: the value for the bar, if the window is ready,
/// and the state that follows.
///
/// A new bar builds on the latest estimate and commits it; a revision builds
/// on the committed estimate again. Without an estimate to build on, the value
/// is the mean of the window.
pub open spec fn ema_advance<S: Scalar>(m: EmaModel<S>, x: S, is_new_bar: bool) -> (
    Option<S>,
    EmaModel<S>,
) {
    let window = m.window.advanced(x, is_new_bar);
    if !window.ready() {
        (None, EmaModel { window, current: m.current, committed: m.committed })
    } else {
        let base = if is_new_bar {
            m.current
        } else {
            m.committed
        };
        let value = match base {
            None => mean_of(window.items, window.capacity),
            Some(b) => smoothed(x, b, smoothing(window.capacity)),
        };
        (Some(value), EmaModel { window, current: Some(value), committed: base })
    }
}

/// One step of a stage in a chain: it advances on what the stage before it
/// produced, and stays as it is while that stage has produced nothing.
pub open spec fn ema_feed<S: Scalar>(m: EmaModel<S>, input: Option<S>, is_new_bar: bool) -> (
    Option<S>,
    EmaModel<S>,
) {
    match input {
        None => (None, m),
        Some(x) => ema_advance(m, x, is_new_bar),
    }
}

/// A step keeps a valid state valid, and produces a value exactly when the
/// window is ready afterwards.
pub proof fn lemma_ema_advance_valid<S: Scalar>(m: EmaModel<S>, x: S, is_new_bar: bool)
    requires
        m.valid(),
    ensures
        ema_advance(m, x, is_new_bar).1.valid(),
        ema_advance(m, x, is_new_bar).1.period() == m.period(),
        ema_advance(m, x, is_new_bar).0.is_some() <==> ema_advance(m, x, is_new_bar).1.window.ready(),
        ema_advance(m, x, is_new_bar).0.is_some() ==> ema_advance(m, x, is_new_bar).0
            == ema_advance(m, x, is_new_bar).1.current,
{
}

/// State for EMA calculation.
pub struct EMAState<S> {
    period: i32,
    k: S,
    current_ema: Option<S>,
    prev_ema: Option<S>,
    window: BarWindow<S>,
}

impl<S> View for EMAState<S> {
    type V = EmaModel<S>;

    closed spec fn view(&self) -> EmaModel<S> {
        EmaModel { window: self.window@, current: self.current_ema, committed: self.prev_ema }
    }
}

impl<S: Scalar> EMAState<S> {
    /// The number of bars seen so far.
    pub fn lookback_count(&self) -> (r: u64)
        ensures
            r == self@.window.bars,
    {
        self.window.bars()
    }

    /// The window length that the state was set up with.
    pub fn period(&self) -> (r: i32)
        ensures
            self.wf() ==> r == self@.period(),
    {
        self.period
    }

    /// The smoothing constant: two over the window length plus one.
    pub fn smoothing_constant(&self) -> (r: S)
        ensures
            self.wf() ==> r == smoothing::<S>(self@.period()),
    {
        self.k
    }

    /// Whether the state is one that `overlap_ema_state_init` and the steps
    /// after it can have produced.
    pub closed spec fn wf(&self) -> bool {
        &&& self@.valid()
        &&& self.period == self@.period()
        &&& self.k == smoothing::<S>(self.period as int)
    }

    /// A well-formed state has a valid model.
    pub proof fn lemma_wf_valid(&self)
        requires
            self.wf(),
        ensures
            self@.valid(),
    {
    }

    /// The state before any bar, for a window of `period >= 2` bars.
    pub(crate) fn fresh(period: i32) -> (r: Self)
        requires
            period >= 2,
        ensures
            r.wf(),
            r@ == EmaModel::<S>::fresh(period as int),
    {
        let k: S = S::from_i64(2).over(S::from_i64(period as i64).plus(S::from_i64(1)));
        EMAState {
            period,
            k,
            current_ema: None,
            prev_ema: None,
            window: BarWindow::new(period as usize),
        }
    }

    /// A copy of the state.
    pub fn duplicate(&self) -> (r: Self)
        ensures
            r@ == self@,
            self.wf() ==> r.wf(),
    {
        EMAState {
            period: self.period,
            k: self.k,
            current_ema: self.current_ema,
            prev_ema: self.prev_ema,
            window: self.window.duplicate(),
        }
    }

    /// One step of this average as a stage of a chain: it advances on `input`
    /// where the stage before produced a value, and is copied where it did not.
    pub fn stage_next(&self, input: Option<S>, is_new_bar: bool) -> (r: (Option<S>, Self))
        requires
            self.wf(),
        ensures
            r.1.wf(),
            (r.0, r.1@) == ema_feed(self@, input, is_new_bar),
    {
        match input {
            None => (None, self.duplicate()),
            Some(x) => overlap_ema_state_next(self, x, is_new_bar),
        }
    }
}

/// Sets up an average over `period` bars. A period below two is refused.
pub fn overlap_ema_state_init<S: Scalar>(period: i32) -> (r: Result<EMAState<S>, ConfigError>)
    ensures
        period < 2 <==> r == Err::<EMAState<S>, ConfigError>(ConfigError::InvalidPeriod),
        period >= 2 <==> r.is_ok(),
        r.is_ok() ==> r.unwrap().wf() && r.unwrap()@ == EmaModel::<S>::fresh(period as int),
{
    if period < MIN_PERIOD {
        return Err(ConfigError::InvalidPeriod);
    }
    Ok(EMAState::fresh(period))
}

/// Advances the average by one sample. A new bar (`is_new_bar`) finalizes the
/// bar before it; otherwise the bar in progress is revised. The value is
/// `None` until `period` bars were seen.
pub fn overlap_ema_state_next<S: Scalar>(state: &EMAState<S>, value: S, is_new_bar: bool) -> (r: (
    Option<S>,
    EMAState<S>,
))
    requires
        state.wf(),
    ensures
        r.1.wf(),
        (r.0, r.1@) == ema_advance(state@, value, is_new_bar),
        r.0.is_some() <==> r.1@.window.ready(),
        r.1@.window.bars == count_bar(state@.window.bars, is_new_bar),
        r.1@.period() == state@.period(),
{
    let window = state.window.advanced(value, is_new_bar);
    if !window.is_ready() {
        return (
            None,
            EMAState {
                period: state.period,
                k: state.k,
                current_ema: state.current_ema,
                prev_ema: state.prev_ema,
                window,
            },
        );
    }
    let base: Option<S> = if is_new_bar {
        state.current_ema
    } else {
        state.prev_ema
    };
    let ema: S = match base {
        None => window.total().over(S::from_i64(state.period as i64)),
        Some(b) => value.minus(b).times(state.k).plus(b),
    };
    (
        Some(ema),
        EMAState {
            period: state.period,
            k: state.k,
            current_ema: Some(ema),
            prev_ema: base,
            window,
        },
    )
}

/// The value and the state after the bars `xs`, each opened in turn on a
/// fresh state.
pub open spec fn ema_run<S: Scalar>(period: int, xs: Seq<S>) -> (Option<S>, EmaModel<S>)
    decreases xs.len(),
{
    if xs.len() == 0 {
        (None, EmaModel::fresh(period))
    } else {
        ema_advance(ema_run(period, xs.drop_last()).1, xs.last(), true)
    }
}

/// The state after the bar in progress was revised to each of `us` in turn.
pub open spec fn ema_revised_by<S: Scalar>(m: EmaModel<S>, us: Seq<S>) -> EmaModel<S>
    decreases us.len(),
{
    if us.len() == 0 {
        m
    } else {
        ema_advance(ema_revised_by(m, us.drop_last()), us.last(), false).1
    }
}

/// The average of the history `xs` at the bar `i`, counted from zero, as the
/// recurrence over the whole history gives it: none before the bar
/// `period - 1`, there the mean of the first `period` samples, and from then
/// on each value smoothed from the one before.
pub open spec fn ema_reference<S: Scalar>(period: int, xs: Seq<S>, i: int) -> Option<S>
    decreases i,
{
    if i < 1 || i < period - 1 {
        None
    } else if i == period - 1 {
        Some(mean_of(xs.subrange(0, period), period))
    } else {
        Some(smoothed(xs[i], ema_reference(period, xs, i - 1).unwrap(), smoothing(period)))
    }
}

/// The values that the history `xs` gives, from the first bar that has one.
#[verifier::opaque]
pub open spec fn ema_series<S: Scalar>(period: int, xs: Seq<S>) -> Seq<S> {
    Seq::new(
        if xs.len() < period {
            0nat
        } else {
            (xs.len() - period + 1) as nat
        },
        |j: int| ema_reference(period, xs, j + period - 1).unwrap(),
    )
}

/// A history has one value less than bars for each bar of the warm-up, the
/// newest of them the value at the newest bar.
pub proof fn lemma_ema_series_len<S: Scalar>(period: int, xs: Seq<S>)
    requires
        period >= 2,
    ensures
        ema_series(period, xs).len() == if xs.len() < period {
            0
        } else {
            xs.len() - period + 1
        },
        xs.len() >= period ==> Some(ema_series(period, xs).last()) == ema_reference(
            period,
            xs,
            xs.len() - 1,
        ),
{
    reveal(ema_series);
    lemma_ema_reference_some(period, xs, xs.len() - 1);
}

/// The recurrence over a history has a value from the bar `period - 1` on.
pub proof fn lemma_ema_reference_some<S: Scalar>(period: int, xs: Seq<S>, i: int)
    requires
        period >= 2,
    ensures
        ema_reference(period, xs, i).is_some() <==> i >= period - 1,
    decreases i,
{
    if i > period - 1 {
        lemma_ema_reference_some(period, xs, i - 1);
    }
}

/// The recurrence at a bar reads no bar after it.
pub proof fn lemma_ema_reference_prefix<S: Scalar>(period: int, xs: Seq<S>, k: int, i: int)
    requires
        period >= 2,
        0 <= i < k <= xs.len(),
    ensures
        ema_reference(period, xs.take(k), i) == ema_reference(period, xs, i),
    decreases i,
{
    if i == period - 1 {
        assert(xs.take(k).subrange(0, period) =~= xs.subrange(0, period));
    } else if i > period - 1 {
        lemma_ema_reference_prefix(period, xs, k, i - 1);
    }
}

/// Stepping through a history bar by bar gives, at every bar, the value that
/// the recurrence over the whole history gives there: none for the first
/// `period - 1` bars and one from the bar `period` on. The state holds the
/// newest samples, that value, and the value of the bar before as committed.
pub proof fn lemma_ema_follows_history<S: Scalar>(period: int, xs: Seq<S>)
    requires
        2 <= period <= i32::MAX,
    ensures
        ema_run(period, xs).1.valid(),
        ema_run(period, xs).1.window == WindowModel::run(period, xs),
        ema_run(period, xs).0 == ema_reference(period, xs, xs.len() - 1),
        ema_run(period, xs).0.is_some() <==> xs.len() >= period,
        ema_run(period, xs).1.current == ema_reference(period, xs, xs.len() - 1),
        ema_run(period, xs).1.committed == ema_reference(period, xs, xs.len() - 2),
    decreases xs.len(),
{
    let n = xs.len() as int;
    if n > 0 {
        let before = xs.drop_last();
        lemma_ema_follows_history(period, before);
        lemma_window_run(period, xs);
        lemma_window_run(period, before);
        assert(before == xs.take(n - 1));
        if n >= 2 {
            lemma_ema_reference_prefix(period, xs, n - 1, n - 2);
        }
        lemma_ema_reference_some(period, xs, n - 2);
        lemma_ema_reference_some(period, xs, n - 1);
        if n == period {
            assert(xs.subrange(0, period) =~= xs);
        }
    }
}

/// A stage that is fed what the stage before it produces holds, after every
/// bar, what stepping through that stage's values alone gives; and what it
/// produces in turn extends its own values in the same way.
pub proof fn lemma_ema_stage_follows<S: Scalar>(
    period: int,
    before: Seq<S>,
    input: Option<S>,
    after: Seq<S>,
)
    requires
        2 <= period <= i32::MAX,
        fed(before, input, after),
    ensures
        ema_feed(ema_run(period, before).1, input, true).1 == ema_run(period, after).1,
        fed(
            ema_series(period, before),
            ema_feed(ema_run(period, before).1, input, true).0,
            ema_series(period, after),
        ),
        ema_feed(ema_run(period, before).1, input, true).0.is_some() ==> ema_series(
            period,
            after,
        ).len() > 0 && ema_feed(ema_run(period, before).1, input, true).0 == Some(
            ema_series(period, after).last(),
        ),
{
    let n = after.len() as int;
    reveal(ema_series);
    match input {
        None => {
            assert(ema_series(period, before) =~= Seq::<S>::empty());
        },
        Some(v) => {
            assert(after.drop_last() =~= before);
            assert(before == after.take(n - 1));
            lemma_ema_follows_history(period, after);
            lemma_ema_reference_some(period, after, n - 1);
            let out = ema_run(period, after).0;
            if n >= period {
                assert forall|j: int| 0 <= j < n - period implies #[trigger] ema_series(
                    period,
                    before,
                )[j] == ema_series(period, after)[j] by {
                    lemma_ema_reference_prefix(period, after, n - 1, j + period - 1);
                }
                assert(ema_series(period, after) =~= ema_series(period, before).push(
                    out.unwrap(),
                ));
            } else {
                assert(ema_series(period, after) =~= ema_series(period, before));
            }
        },
    }
}

/// Revising the bar that was just opened gives the value and the state that
/// opening the bar with the revised sample would have given.
pub proof fn lemma_ema_revision_commutes<S: Scalar>(m: EmaModel<S>, x: S, u: S)
    requires
        m.valid(),
    ensures
        ema_advance(ema_advance(m, x, true).1, u, false) == ema_advance(m, u, true),
{
    lemma_window_revision_commutes(m.window, x, u);
}

/// The same for a stage of a chain, where the stage before it produced a
/// value on both occasions or on neither.
pub proof fn lemma_ema_feed_revision_commutes<S: Scalar>(
    m: EmaModel<S>,
    a: Option<S>,
    b: Option<S>,
)
    requires
        m.valid(),
        a.is_some() == b.is_some(),
    ensures
        ema_feed(ema_feed(m, a, true).1, b, false) == ema_feed(m, b, true),
{
    if a.is_some() {
        lemma_ema_revision_commutes(m, a.unwrap(), b.unwrap());
    }
}

/// However often the bar that was just opened is revised, the value and the
/// state are those that opening the bar with the last revision would have
/// given: the bars before it are never disturbed.
pub proof fn lemma_ema_revisions_collapse<S: Scalar>(m: EmaModel<S>, x: S, us: Seq<S>)
    requires
        m.valid(),
        us.len() >= 1,
    ensures
        ema_advance(ema_revised_by(ema_advance(m, x, true).1, us.drop_last()), us.last(), false)
            == ema_advance(m, us.last(), true),
    decreases us.len(),
{
    let before = us.drop_last();
    if before.len() == 0 {
        lemma_ema_revision_commutes(m, x, us.last());
    } else {
        lemma_ema_revisions_collapse(m, x, before);
        lemma_ema_revision_commutes(m, before.last(), us.last());
    }
}

} // verus!
