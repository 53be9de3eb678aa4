//! The parabolic stop-and-reverse: a stop that trails the trend, closes in on
//! the extreme price by a growing factor, and flips sides when price crosses it.

use vstd::prelude::*;
use crate::config::ConfigError;
use crate::scalar::{OrderedScalar, Scalar};

verus! {

/// The side of the market that the stop trails.
#[derive(Clone, Copy, Debug, PartialEq, Eq, Structural)]
pub enum Trend {
    Long,
    Short,
}

/// The bars after which the indicator has a value.
pub const SAR_LOOKBACK: u64 = 2;

/// What the indicator knows after a bar.
///
/// Nothing is set before the first bar; the first bar sets the previous high
/// and low; from the second bar on the trend, the stop and the extreme point
/// are set. `bars_seen` counts every bar, up to the largest number a `u64`
/// holds.
#[derive(Clone, Copy, Debug)]
pub struct SarTrack<S> {
    pub trend_direction: Option<Trend>,
    pub stop_price: Option<S>,
    pub extreme_point: Option<S>,
    pub current_acceleration_factor: S,
    pub previous_high: Option<S>,
    pub previous_low: Option<S>,
    pub bars_seen: u64,
}

/// Whether the bounds can be used: both above zero, the step at most the cap.
pub open spec fn acceleration_valid<S: Scalar>(step: S, cap: S) -> bool {
    &&& !step.le_spec(S::of_int(0))
    &&& !cap.le_spec(S::of_int(0))
    &&& step.le_spec(cap)
}

/// `b` where `b` is at most `cap`, else `cap`.
pub open spec fn capped<S: Scalar>(b: S, cap: S) -> S {
    if b.le_spec(cap) {
        b
    } else {
        cap
    }
}

/// The stop moved toward the extreme point: `stop + af * (extreme - stop)`.
pub open spec fn candidate_stop<S: Scalar>(stop: S, extreme: S, af: S) -> S {
    stop.plus_spec(af.times_spec(extreme.minus_spec(stop)))
}

impl<S: Scalar> SarTrack<S> {
    /// What is known before the first bar.
    pub open spec fn fresh(step: S) -> Self {
        SarTrack {
            trend_direction: None,
            stop_price: None,
            extreme_point: None,
            current_acceleration_factor: step,
            previous_high: None,
            previous_low: None,
            bars_seen: 0,
        }
    }

    /// Each field is set from the bar on which it is first known, and the
    /// acceleration factor is the cap or at most the cap.
    pub open spec fn valid(self, cap: S) -> bool {
        &&& self.bars_seen >= 1 ==> self.previous_high.is_some() && self.previous_low.is_some()
        &&& self.bars_seen >= 2 ==> self.trend_direction.is_some() && self.stop_price.is_some()
            && self.extreme_point.is_some()
        &&& self.bars_seen < 2 ==> self.trend_direction.is_none()
        &&& self.current_acceleration_factor == cap || self.current_acceleration_factor.le_spec(
            cap,
        )
    }

    /// The count of bars once one more has followed.
    pub open spec fn counted(self) -> u64 {
        if self.bars_seen < u64::MAX {
            (self.bars_seen + 1) as u64
        } else {
            self.bars_seen
        }
    }

    /// The first bar: its high and low are kept, and there is no value yet.
    pub open spec fn seeded(self, high: S, low: S) -> Self {
        SarTrack { previous_high: Some(high), previous_low: Some(low), bars_seen: 1, ..self }
    }

    /// The second bar: the trend is up where the high rose by more than the
    /// low fell, and down otherwise. The stop starts at the previous bar's
    /// far side and the extreme point at this bar's near side.
    pub open spec fn started(self, step: S, high: S, low: S) -> Self {
        let up = !high.minus_spec(self.previous_high.unwrap()).le_spec(
            self.previous_low.unwrap().minus_spec(low),
        );
        SarTrack {
            trend_direction: Some(
                if up {
                    Trend::Long
                } else {
                    Trend::Short
                },
            ),
            stop_price: Some(
                if up {
                    self.previous_low.unwrap()
                } else {
                    self.previous_high.unwrap()
                },
            ),
            extreme_point: Some(
                if up {
                    high
                } else {
                    low
                },
            ),
            current_acceleration_factor: step,
            previous_high: Some(high),
            previous_low: Some(low),
            bars_seen: 2,
        }
    }

    /// Whether the bar crosses the stop that the trend would move to.
    pub open spec fn reverses(self, high: S, low: S) -> bool {
        let candidate = candidate_stop(
            self.stop_price.unwrap(),
            self.extreme_point.unwrap(),
            self.current_acceleration_factor,
        );
        match self.trend_direction {
            Some(Trend::Short) => candidate.le_spec(high),
            _ => low.le_spec(candidate),
        }
    }

    /// Whether the bar carries the extreme point further along the trend.
    pub open spec fn advances(self, high: S, low: S) -> bool {
        match self.trend_direction {
            Some(Trend::Short) => !self.extreme_point.unwrap().le_spec(low),
            _ => !high.le_spec(self.extreme_point.unwrap()),
        }
    }

    /// A later bar. Where it crosses the stop, the trend flips: the stop goes
    /// to the old extreme point, the extreme point to this bar's far side, and
    /// the acceleration factor back to the step. Otherwise the stop moves
    /// toward the extreme point, and where the bar carries the extreme point
    /// further, the acceleration factor grows by the step up to the cap.
    pub open spec fn trailed(self, step: S, cap: S, high: S, low: S) -> Self {
        let long = self.trend_direction != Some(Trend::Short);
        let stop = self.stop_price.unwrap();
        let extreme = self.extreme_point.unwrap();
        let af = self.current_acceleration_factor;
        if self.reverses(high, low) {
            SarTrack {
                trend_direction: Some(
                    if long {
                        Trend::Short
                    } else {
                        Trend::Long
                    },
                ),
                stop_price: Some(extreme),
                extreme_point: Some(
                    if long {
                        low
                    } else {
                        high
                    },
                ),
                current_acceleration_factor: step,
                previous_high: Some(high),
                previous_low: Some(low),
                bars_seen: self.counted(),
            }
        } else if self.advances(high, low) {
            SarTrack {
                trend_direction: self.trend_direction,
                stop_price: Some(candidate_stop(stop, extreme, af)),
                extreme_point: Some(
                    if long {
                        high
                    } else {
                        low
                    },
                ),
                current_acceleration_factor: capped(af.plus_spec(step), cap),
                previous_high: Some(high),
                previous_low: Some(low),
                bars_seen: self.counted(),
            }
        } else {
            SarTrack {
                trend_direction: self.trend_direction,
                stop_price: Some(candidate_stop(stop, extreme, af)),
                extreme_point: self.extreme_point,
                current_acceleration_factor: af,
                previous_high: Some(high),
                previous_low: Some(low),
                bars_seen: self.counted(),
            }
        }
    }

    /// What is known once the bar `high`, `low` follows.
    pub open spec fn followed_by(self, step: S, cap: S, high: S, low: S) -> Self {
        if self.bars_seen == 0 {
            self.seeded(high, low)
        } else if self.bars_seen == 1 {
            self.started(step, high, low)
        } else {
            self.trailed(step, cap, high, low)
        }
    }

    /// The indicator's value after a bar: the stop, once there is one.
    pub open spec fn value(self) -> Option<S> {
        if self.bars_seen >= 2 {
            self.stop_price
        } else {
            None
        }
    }
}

/// What the indicator's state is: the acceleration bounds, what was known
/// before the bar in progress, and what is known with it.
pub struct SarModel<S> {
    pub step: S,
    pub cap: S,
    pub committed: SarTrack<S>,
    pub current: SarTrack<S>,
}

impl<S: Scalar> SarModel<S> {
    /// The bounds can be used and both snapshots are valid.
    pub open spec fn valid(self) -> bool {
        &&& acceleration_valid(self.step, self.cap)
        &&& self.committed.valid(self.cap)
        &&& self.current.valid(self.cap)
    }

    /// The state before any bar.
    pub open spec fn fresh(step: S, cap: S) -> Self {
        SarModel { step, cap, committed: SarTrack::fresh(step), current: SarTrack::fresh(step) }
    }
}

/// A new bar: what is known so far is committed, and the bar follows it.
pub open spec fn sar_finalize<S: Scalar>(m: SarModel<S>, high: S, low: S) -> (
    Option<S>,
    SarModel<S>,
) {
    let current = m.current.followed_by(m.step, m.cap, high, low);
    (current.value(), SarModel { step: m.step, cap: m.cap, committed: m.current, current })
}

/// A revision of the bar in progress: the bar is taken back, and the revised
/// one follows what was committed before it.
pub open spec fn sar_revise<S: Scalar>(m: SarModel<S>, high: S, low: S) -> (
    Option<S>,
    SarModel<S>,
) {
    let current = m.committed.followed_by(m.step, m.cap, high, low);
    (current.value(), SarModel { step: m.step, cap: m.cap, committed: m.committed, current })
}

/// One step of the indicator.
pub open spec fn sar_advance<S: Scalar>(m: SarModel<S>, high: S, low: S, is_new_bar: bool) -> (
    Option<S>,
    SarModel<S>,
) {
    if is_new_bar {
        sar_finalize(m, high, low)
    } else {
        sar_revise(m, high, low)
    }
}

/// A bar keeps a valid snapshot valid; there is no value after the first bar
/// and one after every later bar.
pub proof fn lemma_followed_by_valid<S: Scalar>(t: SarTrack<S>, step: S, cap: S, high: S, low: S)
    requires
        acceleration_valid(step, cap),
        t.valid(cap),
    ensures
        t.followed_by(step, cap, high, low).valid(cap),
        t.followed_by(step, cap, high, low).value().is_some() <==> t.bars_seen >= 1,
        t.followed_by(step, cap, high, low).bars_seen == t.counted(),
{
}

/// What a bar does to the acceleration factor, whatever the scalar's order:
/// on a reversal it is the step again; where the trend holds and the extreme
/// point advances it grows by the step, up to the cap; else it stays. The
/// trend changes on a reversal only.
pub proof fn lemma_acceleration_step<S: Scalar>(t: SarTrack<S>, step: S, cap: S, high: S, low: S)
    requires
        acceleration_valid(step, cap),
        t.valid(cap),
        t.bars_seen >= 2,
    ensures
        ({
            let next = t.followed_by(step, cap, high, low);
            &&& next.current_acceleration_factor == if t.reverses(high, low) {
                step
            } else if t.advances(high, low) {
                capped(t.current_acceleration_factor.plus_spec(step), cap)
            } else {
                t.current_acceleration_factor
            }
            &&& t.reverses(high, low) <==> next.trend_direction != t.trend_direction
            &&& next.current_acceleration_factor == cap || next.current_acceleration_factor.le_spec(
                cap,
            )
        }),
{
}

/// Whether the acceleration factor behaves across the bar `high`, `low` that
/// takes `t` to `next`: it does not exceed the cap; the trend changes exactly
/// where the bar reverses it, and there the factor is the step again; where
/// the trend holds, the factor does not fall.
pub open spec fn acceleration_kept<S: Scalar>(
    t: SarTrack<S>,
    next: SarTrack<S>,
    step: S,
    cap: S,
    high: S,
    low: S,
) -> bool {
    &&& next.current_acceleration_factor.le_spec(cap)
    &&& t.reverses(high, low) <==> next.trend_direction != t.trend_direction
    &&& t.reverses(high, low) ==> next.current_acceleration_factor == step
    &&& !t.reverses(high, low) ==> t.current_acceleration_factor.le_spec(
        next.current_acceleration_factor,
    )
}

/// Within a trend the acceleration factor never falls and never exceeds the
/// cap; on the bar that reverses the trend it is the step again.
pub proof fn lemma_acceleration_monotonic<S: OrderedScalar>(
    t: SarTrack<S>,
    step: S,
    cap: S,
    high: S,
    low: S,
)
    requires
        acceleration_valid(step, cap),
        t.valid(cap),
        t.bars_seen >= 2,
    ensures
        acceleration_kept(t, t.followed_by(step, cap, high, low), step, cap, high, low),
{
    let af = t.current_acceleration_factor;
    S::le_reflexive(cap);
    S::le_reflexive(af);
    S::plus_positive_grows(af, step);
}

/// The value and the state after the bars `bars`, given as pairs of high and
/// low and each opened in turn on a fresh state.
pub open spec fn sar_run<S: Scalar>(step: S, cap: S, bars: Seq<(S, S)>) -> (Option<S>, SarModel<S>)
    decreases bars.len(),
{
    if bars.len() == 0 {
        (None, SarModel::fresh(step, cap))
    } else {
        sar_finalize(sar_run(step, cap, bars.drop_last()).1, bars.last().0, bars.last().1)
    }
}

/// The state after the bar in progress was revised to each of `us` in turn.
pub open spec fn sar_revised_by<S: Scalar>(m: SarModel<S>, us: Seq<(S, S)>) -> SarModel<S>
    decreases us.len(),
{
    if us.len() == 0 {
        m
    } else {
        sar_revise(sar_revised_by(m, us.drop_last()), us.last().0, us.last().1).1
    }
}

/// A step keeps a valid state valid and the bounds as they are.
pub proof fn lemma_sar_advance_valid<S: Scalar>(m: SarModel<S>, high: S, low: S, is_new_bar: bool)
    requires
        m.valid(),
    ensures
        sar_advance(m, high, low, is_new_bar).1.valid(),
        sar_advance(m, high, low, is_new_bar).1.step == m.step,
        sar_advance(m, high, low, is_new_bar).1.cap == m.cap,
{
    lemma_followed_by_valid(m.current, m.step, m.cap, high, low);
    lemma_followed_by_valid(m.committed, m.step, m.cap, high, low);
}

/// Stepping through a history bar by bar, there is no value on the first bar
/// and one on every bar after it.
pub proof fn lemma_sar_warm_up<S: Scalar>(step: S, cap: S, bars: Seq<(S, S)>)
    requires
        acceleration_valid(step, cap),
    ensures
        sar_run(step, cap, bars).1.valid(),
        sar_run(step, cap, bars).1.step == step,
        sar_run(step, cap, bars).1.cap == cap,
        sar_run(step, cap, bars).1.current.bars_seen == if bars.len() < u64::MAX {
            bars.len() as int
        } else {
            u64::MAX as int
        },
        sar_run(step, cap, bars).0.is_some() <==> bars.len() >= 2,
    decreases bars.len(),
{
    if bars.len() > 0 {
        let before = bars.drop_last();
        lemma_sar_warm_up(step, cap, before);
        let m = sar_run(step, cap, before).1;
        lemma_sar_advance_valid(m, bars.last().0, bars.last().1, true);
        lemma_followed_by_valid(m.current, step, cap, bars.last().0, bars.last().1);
    }
}

/// Revising the bar that was just opened gives the value and the state that
/// opening the bar with the revised high and low would have given.
pub proof fn lemma_sar_revision_commutes<S: Scalar>(
    m: SarModel<S>,
    high: S,
    low: S,
    revised_high: S,
    revised_low: S,
)
    ensures
        sar_revise(sar_finalize(m, high, low).1, revised_high, revised_low) == sar_finalize(
            m,
            revised_high,
            revised_low,
        ),
{
}

/// However often the bar that was just opened is revised, the value and the
/// state are those that opening the bar with the last revision would have
/// given: the bars before it are never disturbed.
pub proof fn lemma_sar_revisions_collapse<S: Scalar>(
    m: SarModel<S>,
    high: S,
    low: S,
    us: Seq<(S, S)>,
)
    requires
        us.len() >= 1,
    ensures
        sar_revise(
            sar_revised_by(sar_finalize(m, high, low).1, us.drop_last()),
            us.last().0,
            us.last().1,
        ) == sar_finalize(m, us.last().0, us.last().1),
    decreases us.len(),
{
    let before = us.drop_last();
    if before.len() == 0 {
        lemma_sar_revision_commutes(m, high, low, us.last().0, us.last().1);
    } else {
        lemma_sar_revisions_collapse(m, high, low, before);
        lemma_sar_revision_commutes(m, before.last().0, before.last().1, us.last().0, us.last().1);
    }
}

impl<S: Scalar> SarTrack<S> {
    /// What is known once each of `bars` has followed in turn.
    pub open spec fn followed_through(self, step: S, cap: S, bars: Seq<(S, S)>) -> Self
        decreases bars.len(),
    {
        if bars.len() == 0 {
            self
        } else {
            self.followed_through(step, cap, bars.drop_last()).followed_by(
                step,
                cap,
                bars.last().0,
                bars.last().1,
            )
        }
    }

    /// Whether none of `bars`, following in turn, reverses the trend.
    pub open spec fn holds_through(self, step: S, cap: S, bars: Seq<(S, S)>) -> bool
        decreases bars.len(),
    {
        bars.len() > 0 ==> self.holds_through(step, cap, bars.drop_last())
            && !self.followed_through(step, cap, bars.drop_last()).reverses(
            bars.last().0,
            bars.last().1,
        )
    }
}

/// Over any run of bars that does not reverse the trend, the trend stays, and
/// the acceleration factor ends no lower than it began and no higher than the
/// cap.
pub proof fn lemma_acceleration_over_trend<S: OrderedScalar>(
    t: SarTrack<S>,
    step: S,
    cap: S,
    bars: Seq<(S, S)>,
)
    requires
        acceleration_valid(step, cap),
        t.valid(cap),
        t.bars_seen >= 2,
        t.holds_through(step, cap, bars),
    ensures
        t.followed_through(step, cap, bars).valid(cap),
        t.followed_through(step, cap, bars).bars_seen >= 2,
        t.followed_through(step, cap, bars).trend_direction == t.trend_direction,
        t.current_acceleration_factor.le_spec(
            t.followed_through(step, cap, bars).current_acceleration_factor,
        ),
        bars.len() > 0 ==> t.followed_through(step, cap, bars).current_acceleration_factor.le_spec(
            cap,
        ),
    decreases bars.len(),
{
    if bars.len() == 0 {
        S::le_reflexive(t.current_acceleration_factor);
    } else {
        let before = bars.drop_last();
        lemma_acceleration_over_trend(t, step, cap, before);
        let mid = t.followed_through(step, cap, before);
        lemma_followed_by_valid(mid, step, cap, bars.last().0, bars.last().1);
        lemma_acceleration_monotonic(mid, step, cap, bars.last().0, bars.last().1);
        S::le_transitive(
            t.current_acceleration_factor,
            mid.current_acceleration_factor,
            t.followed_through(step, cap, bars).current_acceleration_factor,
        );
    }
}

/// State for SAR calculation.
pub struct SARState<S> {
    acceleration_step: S,
    acceleration_cap: S,
    committed: SarTrack<S>,
    current: SarTrack<S>,
}

impl<S> View for SARState<S> {
    type V = SarModel<S>;

    closed spec fn view(&self) -> SarModel<S> {
        SarModel {
            step: self.acceleration_step,
            cap: self.acceleration_cap,
            committed: self.committed,
            current: self.current,
        }
    }
}

impl<S: Scalar> SARState<S> {
    /// Whether the state is one that `overlap_sar_state_init` and the steps
    /// after it can have produced.
    pub open spec fn wf(&self) -> bool {
        self@.valid()
    }

    /// What is known with the bar in progress.
    pub fn snapshot(&self) -> (r: SarTrack<S>)
        ensures
            r == self@.current,
    {
        self.current
    }
}

/// What is known once the bar `high`, `low` follows `t`.
fn follow<S: Scalar>(t: &SarTrack<S>, step: S, cap: S, high: S, low: S) -> (r: SarTrack<S>)
    requires
        acceleration_valid(step, cap),
        t.valid(cap),
    ensures
        r == t.followed_by(step, cap, high, low),
        r.valid(cap),
{
    if t.bars_seen == 0 {
        SarTrack {
            trend_direction: t.trend_direction,
            stop_price: t.stop_price,
            extreme_point: t.extreme_point,
            current_acceleration_factor: t.current_acceleration_factor,
            previous_high: Some(high),
            previous_low: Some(low),
            bars_seen: 1,
        }
    } else if t.bars_seen == 1 {
        let previous_high: S = t.previous_high.unwrap();
        let previous_low: S = t.previous_low.unwrap();
        let up: bool = !high.minus(previous_high).le(previous_low.minus(low));
        SarTrack {
            trend_direction: Some(
                if up {
                    Trend::Long
                } else {
                    Trend::Short
                },
            ),
            stop_price: Some(
                if up {
                    previous_low
                } else {
                    previous_high
                },
            ),
            extreme_point: Some(
                if up {
                    high
                } else {
                    low
                },
            ),
            current_acceleration_factor: step,
            previous_high: Some(high),
            previous_low: Some(low),
            bars_seen: SAR_LOOKBACK,
        }
    } else {
        let bars_seen: u64 = if t.bars_seen < u64::MAX {
            t.bars_seen + 1
        } else {
            t.bars_seen
        };
        let long: bool = match t.trend_direction {
            Some(Trend::Short) => false,
            _ => true,
        };
        let stop: S = t.stop_price.unwrap();
        let extreme: S = t.extreme_point.unwrap();
        let af: S = t.current_acceleration_factor;
        let candidate: S = stop.plus(af.times(extreme.minus(stop)));
        let reverses: bool = if long {
            low.le(candidate)
        } else {
            candidate.le(high)
        };
        if reverses {
            SarTrack {
                trend_direction: Some(
                    if long {
                        Trend::Short
                    } else {
                        Trend::Long
                    },
                ),
                stop_price: Some(extreme),
                extreme_point: Some(
                    if long {
                        low
                    } else {
                        high
                    },
                ),
                current_acceleration_factor: step,
                previous_high: Some(high),
                previous_low: Some(low),
                bars_seen,
            }
        } else {
            let advances: bool = if long {
                !high.le(extreme)
            } else {
                !extreme.le(low)
            };
            if advances {
                let raised: S = af.plus(step);
                SarTrack {
                    trend_direction: t.trend_direction,
                    stop_price: Some(candidate),
                    extreme_point: Some(
                        if long {
                            high
                        } else {
                            low
                        },
                    ),
                    current_acceleration_factor: if raised.le(cap) {
                        raised
                    } else {
                        cap
                    },
                    previous_high: Some(high),
                    previous_low: Some(low),
                    bars_seen,
                }
            } else {
                SarTrack {
                    trend_direction: t.trend_direction,
                    stop_price: Some(candidate),
                    extreme_point: t.extreme_point,
                    current_acceleration_factor: af,
                    previous_high: Some(high),
                    previous_low: Some(low),
                    bars_seen,
                }
            }
        }
    }
}

/// The indicator's value for a snapshot.
fn value_of<S: Scalar>(t: &SarTrack<S>) -> (r: Option<S>)
    ensures
        r == t.value(),
{
    if t.bars_seen >= SAR_LOOKBACK {
        t.stop_price
    } else {
        None
    }
}

/// Sets up the indicator. Bounds that are not above zero, and a step above
/// the cap, are refused.
pub fn overlap_sar_state_init<S: Scalar>(acceleration_step: S, acceleration_cap: S) -> (r: Result<
    SARState<S>,
    ConfigError,
>)
    ensures
        !acceleration_valid(acceleration_step, acceleration_cap) <==> r == Err::<
            SARState<S>,
            ConfigError,
        >(ConfigError::InvalidAcceleration),
        acceleration_valid(acceleration_step, acceleration_cap) <==> r.is_ok(),
        r.is_ok() ==> r.unwrap().wf() && r.unwrap()@ == SarModel::<S>::fresh(
            acceleration_step,
            acceleration_cap,
        ),
{
    let zero: S = S::from_i64(0);
    if acceleration_step.le(zero) || acceleration_cap.le(zero) || !acceleration_step.le(
        acceleration_cap,
    ) {
        return Err(ConfigError::InvalidAcceleration);
    }
    let start = SarTrack {
        trend_direction: None,
        stop_price: None,
        extreme_point: None,
        current_acceleration_factor: acceleration_step,
        previous_high: None,
        previous_low: None,
        bars_seen: 0,
    };
    Ok(SARState { acceleration_step, acceleration_cap, committed: start, current: start })
}

/// Finalizes the bar in progress and opens a new one with `high` and `low`.
/// Once a trend is set, the acceleration factor does not exceed the cap, does
/// not fall while the trend holds, and is the step again on a reversal.
pub fn finalize_bar<S: OrderedScalar>(state: &SARState<S>, high: S, low: S) -> (r: (
    Option<S>,
    SARState<S>,
))
    requires
        state.wf(),
    ensures
        r.1.wf(),
        (r.0, r.1@) == sar_finalize(state@, high, low),
        r.0.is_some() <==> r.1@.current.bars_seen >= 2,
        r.1@.current.bars_seen == state@.current.counted(),
        state@.current.bars_seen >= 2 ==> acceleration_kept(
            state@.current,
            r.1@.current,
            state@.step,
            state@.cap,
            high,
            low,
        ),
{
    proof {
        if state@.current.bars_seen >= 2 {
            lemma_acceleration_monotonic(state@.current, state@.step, state@.cap, high, low);
        }
    }
    let current = follow(
        &state.current,
        state.acceleration_step,
        state.acceleration_cap,
        high,
        low,
    );
    (
        value_of(&current),
        SARState {
            acceleration_step: state.acceleration_step,
            acceleration_cap: state.acceleration_cap,
            committed: state.current,
            current,
        },
    )
}

/// Revises the bar in progress to `high` and `low`: the bar is taken back and
/// applied again to what was known before it, so that the acceleration factor
/// behaves toward the bar before as it does on a new bar.
pub fn revise_current_bar<S: OrderedScalar>(state: &SARState<S>, high: S, low: S) -> (r: (
    Option<S>,
    SARState<S>,
))
    requires
        state.wf(),
    ensures
        r.1.wf(),
        (r.0, r.1@) == sar_revise(state@, high, low),
        r.0.is_some() <==> r.1@.current.bars_seen >= 2,
        state@.committed.bars_seen >= 2 ==> acceleration_kept(
            state@.committed,
            r.1@.current,
            state@.step,
            state@.cap,
            high,
            low,
        ),
{
    proof {
        if state@.committed.bars_seen >= 2 {
            lemma_acceleration_monotonic(state@.committed, state@.step, state@.cap, high, low);
        }
    }
    let current = follow(
        &state.committed,
        state.acceleration_step,
        state.acceleration_cap,
        high,
        low,
    );
    (
        value_of(&current),
        SARState {
            acceleration_step: state.acceleration_step,
            acceleration_cap: state.acceleration_cap,
            committed: state.committed,
            current,
        },
    )
}

/// Advances the indicator by one bar's high and low. A new bar (`is_new_bar`)
/// finalizes the bar before it; otherwise the bar in progress is revised. The
/// value is `None` on the first bar.
pub fn overlap_sar_state_next<S: OrderedScalar>(
    state: &SARState<S>,
    high: S,
    low: S,
    is_new_bar: bool,
) -> (r: (Option<S>, SARState<S>))
    requires
        state.wf(),
    ensures
        r.1.wf(),
        (r.0, r.1@) == sar_advance(state@, high, low, is_new_bar),
        r.0.is_some() <==> r.1@.current.bars_seen >= 2,
        ({
            let before = if is_new_bar {
                state@.current
            } else {
                state@.committed
            };
            before.bars_seen >= 2 ==> acceleration_kept(
                before,
                r.1@.current,
                state@.step,
                state@.cap,
                high,
                low,
            )
        }),
{
    if is_new_bar {
        finalize_bar(state, high, low)
    } else {
        revise_current_bar(state, high, low)
    }
}

} // verus!
