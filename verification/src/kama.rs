//! The adaptive moving average: an exponential average whose smoothing
//! constant follows how directly the window moved.

use vstd::prelude::*;
use crate::config::{ConfigError, MIN_PERIOD};
use crate::fixed::Fixed;
use crate::scalar::{path_length_of, Scalar};
use crate::window::{
    count_bar, lemma_window_advanced_valid, lemma_window_revision_commutes, lemma_window_run,
    BarWindow, WindowModel,
};

verus! {

/// The smoothing constant of the fastest average: two over three.
pub open spec fn fastest_sc<S: Scalar>() -> S {
    S::of_int(2).over_spec(S::of_int(3))
}

/// The smoothing constant of the slowest average: two over thirty-one.
pub open spec fn slowest_sc<S: Scalar>() -> S {
    S::of_int(2).over_spec(S::of_int(31))
}

/// The net move over the window: the magnitude of newest less oldest.
pub open spec fn net_change<S: Scalar>(w: Seq<S>) -> S {
    w.last().minus_spec(w.first()).magnitude_spec()
}

/// The efficiency ratio of a window: net move over path length, and one
/// where the path is no longer than the net move or has no length.
pub open spec fn efficiency_ratio<S: Scalar>(w: Seq<S>) -> S {
    let change = net_change(w);
    let volatility = path_length_of(w);
    if volatility.le_spec(change) || volatility.same_spec(S::of_int(0)) {
        S::of_int(1)
    } else {
        change.over_spec(volatility)
    }
}

/// The smoothing constant for an efficiency ratio:
/// `(er * (fastest - slowest) + slowest)` squared.
pub open spec fn adaptive_sc<S: Scalar>(er: S) -> S {
    let root = er.times_spec(fastest_sc::<S>().minus_spec(slowest_sc::<S>())).plus_spec(
        slowest_sc::<S>(),
    );
    root.times_spec(root)
}

/// One step of the recurrence: `prev + sc * (x - prev)`.
pub open spec fn adapted<S: Scalar>(x: S, prev: S, sc: S) -> S {
    prev.plus_spec(sc.times_spec(x.minus_spec(prev)))
}

/// What the indicator's state is: its window of `period + 1` samples, the
/// value after the latest step, and the value as of the bar before the one in
/// progress.
pub struct KamaModel<S> {
    pub window: WindowModel<S>,
    pub current: Option<S>,
    pub committed: Option<S>,
}

impl<S: Scalar> KamaModel<S> {
    /// The period: one less than the window holds.
    pub open spec fn period(self) -> int {
        self.window.capacity - 1
    }

    /// The indicator has a value exactly when its window is ready, and no
    /// committed value before it has a current one.
    pub open spec fn valid(self) -> bool {
        &&& self.window.valid()
        &&& self.window.capacity >= 3
        &&& self.current.is_some() <==> self.window.ready()
        &&& self.committed.is_some() ==> self.current.is_some()
    }

    /// The state before any bar.
    pub open spec fn fresh(period: int) -> Self {
        KamaModel { window: WindowModel::fresh(period + 1), current: None, committed: None }
    }
}

/// One step of the indicator: the value for the bar, once more than `period`
/// bars were seen, and the state that follows.
///
/// A new bar builds on the latest value and commits it; a revision builds on
/// the committed value again. Without a value to build on, the sample of the
/// bar before takes its place.
pub open spec fn kama_advance<S: Scalar>(m: KamaModel<S>, x: S, is_new_bar: bool) -> (
    Option<S>,
    KamaModel<S>,
) {
    let window = m.window.advanced(x, is_new_bar);
    if !window.ready() {
        (None, KamaModel { window, current: m.current, committed: m.committed })
    } else {
        let base = if is_new_bar {
            m.current
        } else {
            m.committed
        };
        let prev = match base {
            None => window.items[window.capacity - 2],
            Some(b) => b,
        };
        let value = adapted(x, prev, adaptive_sc(efficiency_ratio(window.items)));
        (Some(value), KamaModel { window, current: Some(value), committed: base })
    }
}

/// A step keeps a valid state valid, and produces a value exactly when the
/// window is ready afterwards.
pub proof fn lemma_kama_advance_valid<S: Scalar>(m: KamaModel<S>, x: S, is_new_bar: bool)
    requires
        m.valid(),
    ensures
        kama_advance(m, x, is_new_bar).1.valid(),
        kama_advance(m, x, is_new_bar).1.period() == m.period(),
        kama_advance(m, x, is_new_bar).0.is_some() <==> kama_advance(m, x, is_new_bar).1.window.bars
            > m.period(),
{
}

/// State for KAMA calculation.
pub struct KAMAState<S> {
    period: i32,
    window: BarWindow<S>,
    current_kama: Option<S>,
    prev_kama: Option<S>,
    fastest_sc: S,
    slowest_sc: S,
}

impl<S> View for KAMAState<S> {
    type V = KamaModel<S>;

    closed spec fn view(&self) -> KamaModel<S> {
        KamaModel { window: self.window@, current: self.current_kama, committed: self.prev_kama }
    }
}

impl<S: Scalar> KAMAState<S> {
    /// The number of bars seen so far.
    pub fn lookback_count(&self) -> (r: u64)
        ensures
            r == self@.window.bars,
    {
        self.window.bars()
    }

    /// The window length that the state was set up with.
    pub fn period(&self) -> (r: i32)
        ensures
            self.wf() ==> r == self@.period(),
    {
        self.period
    }

    /// Whether the state is one that `overlap_kama_state_init` and the steps
    /// after it can have produced.
    pub closed spec fn wf(&self) -> bool {
        &&& self@.valid()
        &&& self.period == self@.period()
        &&& self.fastest_sc == fastest_sc::<S>()
        &&& self.slowest_sc == slowest_sc::<S>()
    }

    /// A well-formed state has a valid model.
    pub proof fn lemma_wf_valid(&self)
        requires
            self.wf(),
        ensures
            self@.valid(),
    {
    }
}

/// Sets up the indicator over `period` bars. A period below two is refused.
pub fn overlap_kama_state_init<S: Scalar>(period: i32) -> (r: Result<KAMAState<S>, ConfigError>)
    ensures
        period < 2 <==> r == Err::<KAMAState<S>, ConfigError>(ConfigError::InvalidPeriod),
        period >= 2 <==> r.is_ok(),
        r.is_ok() ==> r.unwrap().wf() && r.unwrap()@ == KamaModel::<S>::fresh(period as int),
{
    if period < MIN_PERIOD {
        return Err(ConfigError::InvalidPeriod);
    }
    let fastest_sc: S = S::from_i64(2).over(S::from_i64(3));
    let slowest_sc: S = S::from_i64(2).over(S::from_i64(31));
    let capacity: usize = (period as u32 + 1) as usize;
    Ok(
        KAMAState {
            period,
            window: BarWindow::new(capacity),
            current_kama: None,
            prev_kama: None,
            fastest_sc,
            slowest_sc,
        },
    )
}

/// Advances the indicator by one sample. A new bar (`is_new_bar`) finalizes
/// the bar before it; otherwise the bar in progress is revised. The value is
/// `None` until more than `period` bars were seen.
pub fn overlap_kama_state_next<S: Scalar>(state: &KAMAState<S>, value: S, is_new_bar: bool) -> (r: (
    Option<S>,
    KAMAState<S>,
))
    requires
        state.wf(),
    ensures
        r.1.wf(),
        (r.0, r.1@) == kama_advance(state@, value, is_new_bar),
        r.0.is_some() <==> r.1@.window.ready(),
        r.1@.window.bars == count_bar(state@.window.bars, is_new_bar),
        r.1@.period() == state@.period(),
{
    let window = state.window.advanced(value, is_new_bar);
    if !window.is_ready() {
        return (
            None,
            KAMAState {
                period: state.period,
                window,
                current_kama: state.current_kama,
                prev_kama: state.prev_kama,
                fastest_sc: state.fastest_sc,
                slowest_sc: state.slowest_sc,
            },
        );
    }
    let len: usize = window.len();
    let change: S = window.get(len - 1).minus(window.get(0)).magnitude();
    let volatility: S = window.path_length();
    let er: S = if volatility.le(change) || volatility.same(S::from_i64(0)) {
        S::from_i64(1)
    } else {
        change.over(volatility)
    };
    let root: S = er.times(state.fastest_sc.minus(state.slowest_sc)).plus(state.slowest_sc);
    let sc: S = root.times(root);
    let base: Option<S> = if is_new_bar {
        state.current_kama
    } else {
        state.prev_kama
    };
    let prev: S = match base {
        None => window.get(len - 2),
        Some(b) => b,
    };
    let kama: S = prev.plus(sc.times(value.minus(prev)));
    (
        Some(kama),
        KAMAState {
            period: state.period,
            window,
            current_kama: Some(kama),
            prev_kama: base,
            fastest_sc: state.fastest_sc,
            slowest_sc: state.slowest_sc,
        },
    )
}

/// The value and the state after the bars `xs`, each opened in turn on a
/// fresh state.
pub open spec fn kama_run<S: Scalar>(period: int, xs: Seq<S>) -> (Option<S>, KamaModel<S>)
    decreases xs.len(),
{
    if xs.len() == 0 {
        (None, KamaModel::fresh(period))
    } else {
        kama_advance(kama_run(period, xs.drop_last()).1, xs.last(), true)
    }
}

/// The state after the bar in progress was revised to each of `us` in turn.
pub open spec fn kama_revised_by<S: Scalar>(m: KamaModel<S>, us: Seq<S>) -> KamaModel<S>
    decreases us.len(),
{
    if us.len() == 0 {
        m
    } else {
        kama_advance(kama_revised_by(m, us.drop_last()), us.last(), false).1
    }
}

/// The indicator on the history `xs` at the bar `i`, counted from zero, as
/// the recurrence over the whole history gives it: none before the bar
/// `period`; there it adapts from the sample before it, and from then on from
/// its own value one bar earlier, each time at the rate that the `period + 1`
/// samples up to the bar set.
pub open spec fn kama_reference<S: Scalar>(period: int, xs: Seq<S>, i: int) -> Option<S>
    decreases i,
{
    if i < 1 || i < period {
        None
    } else {
        let prev = if i == period {
            xs[period - 1]
        } else {
            kama_reference(period, xs, i - 1).unwrap()
        };
        Some(
            adapted(
                xs[i],
                prev,
                adaptive_sc(efficiency_ratio(xs.subrange(i - period, i + 1))),
            ),
        )
    }
}

/// The recurrence at a bar reads no bar after it.
pub proof fn lemma_kama_reference_prefix<S: Scalar>(period: int, xs: Seq<S>, k: int, i: int)
    requires
        period >= 2,
        0 <= i < k <= xs.len(),
    ensures
        kama_reference(period, xs.take(k), i) == kama_reference(period, xs, i),
    decreases i,
{
    if i >= period {
        assert(xs.take(k).subrange(i - period, i + 1) =~= xs.subrange(i - period, i + 1));
        if i > period {
            lemma_kama_reference_prefix(period, xs, k, i - 1);
        }
    }
}

/// Stepping through a history bar by bar gives, at every bar, the value that
/// the recurrence over the whole history gives there: none for the first
/// `period` bars and one from the next bar on. The state holds the newest
/// samples, that value, and the value of the bar before as committed.
pub proof fn lemma_kama_follows_history<S: Scalar>(period: int, xs: Seq<S>)
    requires
        2 <= period <= i32::MAX,
    ensures
        kama_run(period, xs).1.valid(),
        kama_run(period, xs).1.window == WindowModel::run(period + 1, xs),
        kama_run(period, xs).0 == kama_reference(period, xs, xs.len() - 1),
        kama_run(period, xs).0.is_some() <==> xs.len() > period,
        kama_run(period, xs).1.current == kama_reference(period, xs, xs.len() - 1),
        kama_run(period, xs).1.committed == kama_reference(period, xs, xs.len() - 2),
    decreases xs.len(),
{
    let n = xs.len() as int;
    if n > 0 {
        let before = xs.drop_last();
        lemma_kama_follows_history(period, before);
        lemma_window_run(period + 1, xs);
        lemma_window_run(period + 1, before);
        assert(before == xs.take(n - 1));
        if n >= 2 {
            lemma_kama_reference_prefix(period, xs, n - 1, n - 2);
        }
        if n == period + 1 {
            assert(xs.subrange(0, period + 1) =~= xs);
        }
    }
}

/// Revising the bar that was just opened gives the value and the state that
/// opening the bar with the revised sample would have given.
pub proof fn lemma_kama_revision_commutes<S: Scalar>(m: KamaModel<S>, x: S, u: S)
    requires
        m.valid(),
    ensures
        kama_advance(kama_advance(m, x, true).1, u, false) == kama_advance(m, u, true),
{
    lemma_window_revision_commutes(m.window, x, u);
}

/// However often the bar that was just opened is revised, the value and the
/// state are those that opening the bar with the last revision would have
/// given: the bars before it are never disturbed.
pub proof fn lemma_kama_revisions_collapse<S: Scalar>(m: KamaModel<S>, x: S, us: Seq<S>)
    requires
        m.valid(),
        us.len() >= 1,
    ensures
        kama_advance(kama_revised_by(kama_advance(m, x, true).1, us.drop_last()), us.last(), false)
            == kama_advance(m, us.last(), true),
    decreases us.len(),
{
    let before = us.drop_last();
    if before.len() == 0 {
        lemma_kama_revision_commutes(m, x, us.last());
    } else {
        lemma_kama_revisions_collapse(m, x, before);
        lemma_kama_revision_commutes(m, before.last(), us.last());
    }
}

/// Where the path along the window that a step leaves is no longer than the
/// window's net move, the efficiency ratio is one, and the value adapts at
/// the rate that the ratio one sets, whatever the scalar.
pub proof fn lemma_kama_on_direct_window<S: Scalar>(m: KamaModel<S>, x: S, is_new_bar: bool)
    requires
        m.valid(),
        m.window.advanced(x, is_new_bar).ready(),
        path_length_of(m.window.advanced(x, is_new_bar).items).le_spec(
            net_change(m.window.advanced(x, is_new_bar).items),
        ),
    ensures
        efficiency_ratio(m.window.advanced(x, is_new_bar).items) == S::of_int(1),
        ({
            let window = m.window.advanced(x, is_new_bar);
            let base = if is_new_bar {
                m.current
            } else {
                m.committed
            };
            let prev = match base {
                None => window.items[window.capacity - 2],
                Some(b) => b,
            };
            kama_advance(m, x, is_new_bar).0 == Some(adapted(x, prev, adaptive_sc(S::of_int(1))))
        }),
{
}

/// Whether no sample of `w` is below one before it.
pub open spec fn rising(w: Seq<Fixed>) -> bool {
    forall|i: int, j: int| 0 <= i <= j < w.len() ==> w[i].raw <= w[j].raw
}

/// In fixed point, the path along a rising window is exactly as long as its
/// net move, as long as that move can be held.
pub proof fn lemma_rising_path_is_net_move(w: Seq<Fixed>)
    requires
        w.len() >= 1,
        rising(w),
        w.last().raw - w.first().raw <= i64::MAX,
    ensures
        path_length_of(w).raw == w.last().raw - w.first().raw,
        path_length_of(w) == net_change(w),
    decreases w.len(),
{
    if w.len() > 1 {
        let before = w.drop_last();
        assert(rising(before));
        assert(before.last() == w[w.len() - 2]);
        assert(before.first() == w.first());
        lemma_rising_path_is_net_move(before);
    }
}

/// In fixed point, a rising window has the efficiency ratio one, and the
/// smoothing constant is that of the fastest average, squared.
pub proof fn lemma_rising_window_smooths_fastest(w: Seq<Fixed>)
    requires
        w.len() >= 1,
        rising(w),
        w.last().raw - w.first().raw <= i64::MAX,
    ensures
        efficiency_ratio(w) == Fixed::of_int(1),
        adaptive_sc(efficiency_ratio(w)) == fastest_sc::<Fixed>().times_spec(fastest_sc::<Fixed>()),
{
    lemma_rising_path_is_net_move(w);
    let fastest = fastest_sc::<Fixed>();
    let slowest = slowest_sc::<Fixed>();
    assert(fastest.raw == 666_666);
    assert(slowest.raw == 64_516);
    let span = fastest.minus_spec(slowest);
    assert(span.raw == 602_150);
    let one = Fixed::of_int(1);
    assert(one.raw * span.raw == 602_150_000_000);
    assert(one.times_spec(span).raw == 602_150);
    assert(one.times_spec(span).plus_spec(slowest) == fastest);
}

/// In fixed point, a step that leaves a full, rising window adapts at the
/// rate of the fastest average, squared.
pub proof fn lemma_kama_on_rising_window(m: KamaModel<Fixed>, x: Fixed, is_new_bar: bool)
    requires
        m.valid(),
        m.window.advanced(x, is_new_bar).ready(),
        rising(m.window.advanced(x, is_new_bar).items),
        m.window.advanced(x, is_new_bar).items.last().raw - m.window.advanced(
            x,
            is_new_bar,
        ).items.first().raw <= i64::MAX,
    ensures
        ({
            let window = m.window.advanced(x, is_new_bar);
            let base = if is_new_bar {
                m.current
            } else {
                m.committed
            };
            let prev = match base {
                None => window.items[window.capacity - 2],
                Some(b) => b,
            };
            kama_advance(m, x, is_new_bar).0 == Some(
                adapted(x, prev, fastest_sc::<Fixed>().times_spec(fastest_sc::<Fixed>())),
            )
        }),
{
    lemma_window_advanced_valid(m.window, x, is_new_bar);
    lemma_rising_window_smooths_fastest(m.window.advanced(x, is_new_bar).items);
}

} // verus!
