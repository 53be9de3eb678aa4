use theory_craft_ta::config::ConfigError;
use theory_craft_ta::ema::{overlap_ema_state_init, overlap_ema_state_next, EMAState};
use theory_craft_ta::kama::{overlap_kama_state_init, overlap_kama_state_next};
use theory_craft_ta::midpoint::{overlap_midpoint_state_init, overlap_midpoint_state_next};
use theory_craft_ta::scalar::Scalar;
use theory_craft_ta::sma::{overlap_sma_state_init, overlap_sma_state_next, SMAState};
use theory_craft_ta::trima::{
    overlap_trima_state_init, overlap_trima_state_next, trima_stage_periods,
};
use theory_craft_ta::wma::{overlap_wma_state_init, overlap_wma_state_next};

#[derive(Clone, Copy, Debug, PartialEq)]
struct Real(f64);

impl Scalar for Real {
    fn from_i64(n: i64) -> Real {
        Real(n as f64)
    }
    fn plus(self, rhs: Real) -> Real {
        Real(self.0 + rhs.0)
    }
    fn minus(self, rhs: Real) -> Real {
        Real(self.0 - rhs.0)
    }
    fn times(self, rhs: Real) -> Real {
        Real(self.0 * rhs.0)
    }
    fn over(self, rhs: Real) -> Real {
        Real(self.0 / rhs.0)
    }
    fn negated(self) -> Real {
        Real(-self.0)
    }
    fn magnitude(self) -> Real {
        Real(self.0.abs())
    }
    fn le(self, rhs: Real) -> bool {
        self.0 <= rhs.0
    }
    fn same(self, rhs: Real) -> bool {
        self.0 == rhs.0
    }
}

fn close(got: Option<Real>, want: f64) -> bool {
    match got {
        Some(Real(v)) => (v - want).abs() <= 1e-12 * (1.0 + want.abs()),
        None => false,
    }
}

fn sma_outputs(period: i32, xs: &[f64]) -> Vec<Option<Real>> {
    let mut state: SMAState<Real> = overlap_sma_state_init(period).unwrap();
    let mut out = Vec::new();
    for x in xs {
        let (value, next) = overlap_sma_state_next(&state, Real(*x), true);
        out.push(value);
        state = next;
    }
    out
}

fn ema_outputs(period: i32, xs: &[f64]) -> Vec<Option<Real>> {
    let mut state: EMAState<Real> = overlap_ema_state_init(period).unwrap();
    let mut out = Vec::new();
    for x in xs {
        let (value, next) = overlap_ema_state_next(&state, Real(*x), true);
        out.push(value);
        state = next;
    }
    out
}

fn wma_outputs(period: i32, xs: &[f64]) -> Vec<Option<Real>> {
    let mut state = overlap_wma_state_init::<Real>(period).unwrap();
    let mut out = Vec::new();
    for x in xs {
        let (value, next) = overlap_wma_state_next(&state, Real(*x), true);
        out.push(value);
        state = next;
    }
    out
}

fn midpoint_outputs(period: i32, xs: &[f64]) -> Vec<Option<Real>> {
    let mut state = overlap_midpoint_state_init::<Real>(period).unwrap();
    let mut out = Vec::new();
    for x in xs {
        let (value, next) = overlap_midpoint_state_next(&state, Real(*x), true);
        out.push(value);
        state = next;
    }
    out
}

fn trima_outputs(period: i32, xs: &[f64]) -> Vec<Option<Real>> {
    let mut state = overlap_trima_state_init::<Real>(period).unwrap();
    let mut out = Vec::new();
    for x in xs {
        let (value, next) = overlap_trima_state_next(&state, Real(*x), true);
        out.push(value);
        state = next;
    }
    out
}

fn kama_outputs(period: i32, xs: &[f64]) -> Vec<Option<Real>> {
    let mut state = overlap_kama_state_init::<Real>(period).unwrap();
    let mut out = Vec::new();
    for x in xs {
        let (value, next) = overlap_kama_state_next(&state, Real(*x), true);
        out.push(value);
        state = next;
    }
    out
}

#[test]
fn sma_period_three_over_one_to_five() {
    let out = sma_outputs(3, &[1.0, 2.0, 3.0, 4.0, 5.0]);
    assert_eq!(out, vec![None, None, Some(Real(2.0)), Some(Real(3.0)), Some(Real(4.0))]);
}

#[test]
fn ema_period_two_over_one_three_five() {
    let out = ema_outputs(2, &[1.0, 3.0, 5.0]);
    assert_eq!(out, vec![None, Some(Real(2.0)), Some(Real(4.0))]);
}

#[test]
fn ema_period_three_seeds_with_the_mean_then_smooths_by_a_half() {
    let out = ema_outputs(3, &[2.0, 4.0, 6.0, 8.0, 0.0]);
    assert_eq!(
        out,
        vec![None, None, Some(Real(4.0)), Some(Real(6.0)), Some(Real(3.0))]
    );
}

#[test]
fn wma_weights_the_newest_sample_most() {
    let out = wma_outputs(3, &[1.0, 2.0, 3.0, 4.0]);
    assert_eq!(out[0], None);
    assert_eq!(out[1], None);
    assert_eq!(out[2], Some(Real((1.0 * 1.0 + 2.0 * 2.0 + 3.0 * 3.0) / 6.0)));
    assert_eq!(out[3], Some(Real((2.0 * 1.0 + 3.0 * 2.0 + 4.0 * 3.0) / 6.0)));
}

#[test]
fn midpoint_is_halfway_between_the_extremes_of_the_window() {
    let out = midpoint_outputs(3, &[5.0, 1.0, 3.0, 9.0, 9.5]);
    assert_eq!(
        out,
        vec![None, None, Some(Real(3.0)), Some(Real(5.0)), Some(Real(6.25))]
    );
}

#[test]
fn every_average_refuses_a_period_below_two() {
    for period in [1, 0, -5, i32::MIN] {
        assert!(matches!(
            overlap_sma_state_init::<Real>(period),
            Err(ConfigError::InvalidPeriod)
        ));
        assert!(matches!(
            overlap_ema_state_init::<Real>(period),
            Err(ConfigError::InvalidPeriod)
        ));
        assert!(matches!(
            overlap_wma_state_init::<Real>(period),
            Err(ConfigError::InvalidPeriod)
        ));
        assert!(matches!(
            overlap_midpoint_state_init::<Real>(period),
            Err(ConfigError::InvalidPeriod)
        ));
        assert!(matches!(
            overlap_trima_state_init::<Real>(period),
            Err(ConfigError::InvalidPeriod)
        ));
        assert!(matches!(
            overlap_kama_state_init::<Real>(period),
            Err(ConfigError::InvalidPeriod)
        ));
    }
}

#[test]
fn every_average_accepts_a_period_of_two() {
    assert!(overlap_sma_state_init::<Real>(2).is_ok());
    assert!(overlap_ema_state_init::<Real>(2).is_ok());
    assert!(overlap_wma_state_init::<Real>(2).is_ok());
    assert!(overlap_midpoint_state_init::<Real>(2).is_ok());
    assert!(overlap_trima_state_init::<Real>(2).is_ok());
    assert!(overlap_kama_state_init::<Real>(2).is_ok());
}

#[test]
fn config_error_says_what_was_wrong() {
    assert_eq!(ConfigError::InvalidPeriod.message(), "Invalid period: must be >= 2");
    assert_ne!(
        ConfigError::InvalidAcceleration.message(),
        ConfigError::InvalidPeriod.message()
    );
}

#[test]
fn warm_up_ends_on_the_bar_that_fills_the_window() {
    let xs: Vec<f64> = (1..=12).map(|i| i as f64).collect();
    for period in 2..=6 {
        let first = (period - 1) as usize;
        let sma = sma_outputs(period, &xs);
        let ema = ema_outputs(period, &xs);
        let wma = wma_outputs(period, &xs);
        let mid = midpoint_outputs(period, &xs);
        let tri = trima_outputs(period, &xs);
        let kama = kama_outputs(period, &xs);
        for i in 0..xs.len() {
            assert_eq!(sma[i].is_some(), i >= first);
            assert_eq!(ema[i].is_some(), i >= first);
            assert_eq!(wma[i].is_some(), i >= first);
            assert_eq!(mid[i].is_some(), i >= first);
            assert_eq!(tri[i].is_some(), i >= first);
            assert_eq!(kama[i].is_some(), i >= first + 1);
        }
    }
}

#[test]
fn a_value_of_zero_is_not_a_missing_value() {
    let out = sma_outputs(2, &[1.0, -1.0]);
    assert_eq!(out, vec![None, Some(Real(0.0))]);
}

#[test]
fn stepping_matches_a_recomputation_over_the_whole_history() {
    let xs = [3.0, 1.0, 4.0, 1.0, 5.0, 9.0, 2.0, 6.0, 5.0, 3.0];
    let period = 4usize;
    let sma = sma_outputs(period as i32, &xs);
    let ema = ema_outputs(period as i32, &xs);
    let k = 2.0 / (period as f64 + 1.0);
    let mut reference: Option<f64> = None;
    for i in 0..xs.len() {
        if i + 1 < period {
            assert_eq!(sma[i], None);
            assert_eq!(ema[i], None);
            continue;
        }
        let window = &xs[i + 1 - period..=i];
        let mut sum = 0.0;
        for v in window {
            sum += v;
        }
        assert_eq!(sma[i], Some(Real(sum / period as f64)));
        reference = Some(match reference {
            None => sum / period as f64,
            Some(prev) => (xs[i] - prev) * k + prev,
        });
        assert_eq!(ema[i], reference.map(Real));
    }
}

#[test]
fn a_revision_overwrites_the_newest_sample() {
    let mut state: SMAState<Real> = overlap_sma_state_init(3).unwrap();
    for x in [1.0, 2.0, 3.0] {
        state = overlap_sma_state_next(&state, Real(x), true).1;
    }
    let (revised, state) = overlap_sma_state_next(&state, Real(6.0), false);
    assert_eq!(revised, Some(Real(3.0)));
    let (next, _) = overlap_sma_state_next(&state, Real(4.0), true);
    assert_eq!(next, Some(Real(4.0)));
}

#[test]
fn a_revision_before_any_bar_holds_the_sample_without_counting_a_bar() {
    let state: SMAState<Real> = overlap_sma_state_init(2).unwrap();
    let (first, state) = overlap_sma_state_next(&state, Real(5.0), false);
    assert_eq!(first, None);
    let (second, state) = overlap_sma_state_next(&state, Real(7.0), true);
    assert_eq!(second, None);
    let (third, _) = overlap_sma_state_next(&state, Real(9.0), true);
    assert_eq!(third, Some(Real(8.0)));
}

#[test]
fn revisions_then_the_next_bar_equal_opening_the_bar_with_the_last_revision() {
    let mut base: EMAState<Real> = overlap_ema_state_init(2).unwrap();
    for x in [1.0, 3.0, 5.0] {
        base = overlap_ema_state_next(&base, Real(x), true).1;
    }
    let (_, opened) = overlap_ema_state_next(&base, Real(6.0), true);
    let (_, once) = overlap_ema_state_next(&opened, Real(7.5), false);
    let (revised_value, twice) = overlap_ema_state_next(&once, Real(9.0), false);
    let (direct_value, direct) = overlap_ema_state_next(&base, Real(9.0), true);
    assert_eq!(revised_value, direct_value);
    let after_revisions = overlap_ema_state_next(&twice, Real(11.0), true).0;
    let after_direct = overlap_ema_state_next(&direct, Real(11.0), true).0;
    assert_eq!(after_revisions, after_direct);
    assert!(close(after_direct, (11.0 - (9.0 - 4.0) * (2.0 / 3.0) - 4.0) * (2.0 / 3.0)
        + (9.0 - 4.0) * (2.0 / 3.0)
        + 4.0));
}

#[test]
fn a_revision_of_the_seed_bar_recomputes_the_mean() {
    let mut state: EMAState<Real> = overlap_ema_state_init(3).unwrap();
    for x in [2.0, 4.0, 6.0] {
        state = overlap_ema_state_next(&state, Real(x), true).1;
    }
    let (revised, _) = overlap_ema_state_next(&state, Real(12.0), false);
    assert_eq!(revised, Some(Real(6.0)));
}

#[test]
fn trima_stage_windows_follow_the_parity_of_the_period() {
    assert_eq!(trima_stage_periods(2), (2, 2));
    assert_eq!(trima_stage_periods(3), (2, 2));
    assert_eq!(trima_stage_periods(4), (2, 3));
    assert_eq!(trima_stage_periods(5), (3, 3));
    assert_eq!(trima_stage_periods(10), (5, 6));
    assert_eq!(trima_stage_periods(i32::MAX), (1 << 30, 1 << 30));
}

#[test]
fn trima_averages_the_averages() {
    let even = trima_outputs(4, &[1.0, 2.0, 3.0, 4.0, 5.0, 6.0]);
    assert_eq!(
        even,
        vec![None, None, None, Some(Real(2.5)), Some(Real(3.5)), Some(Real(4.5))]
    );
    let odd = trima_outputs(5, &[1.0, 2.0, 3.0, 4.0, 5.0, 6.0, 7.0]);
    assert_eq!(
        odd,
        vec![None, None, None, None, Some(Real(3.0)), Some(Real(4.0)), Some(Real(5.0))]
    );
}

#[test]
fn trima_of_period_two_is_the_simple_average() {
    let xs = [1.0, 2.0, 4.0, 8.0];
    assert_eq!(trima_outputs(2, &xs), sma_outputs(2, &xs));
    assert_eq!(trima_outputs(2, &xs)[1], Some(Real(1.5)));
}

#[test]
fn kama_on_a_rising_series_smooths_at_the_fastest_rate() {
    let fastest: f64 = 2.0 / 3.0;
    let slowest: f64 = 2.0 / 31.0;
    let sc: f64 = (1.0 * (fastest - slowest) + slowest) * (1.0 * (fastest - slowest) + slowest);
    assert!((sc - fastest * fastest).abs() < 1e-15);
    let xs = [1.0, 2.0, 3.0, 4.0, 5.0, 6.0];
    let out = kama_outputs(3, &xs);
    assert_eq!(&out[..3], &[None, None, None]);
    let mut prev = xs[2];
    for i in 3..xs.len() {
        let want = prev + sc * (xs[i] - prev);
        assert_eq!(out[i], Some(Real(want)));
        assert!(close(out[i], prev + fastest * fastest * (xs[i] - prev)));
        prev = want;
    }
}

#[test]
fn kama_slows_down_when_the_window_wanders() {
    let out = kama_outputs(2, &[1.0, 3.0, 2.0]);
    let er: f64 = 1.0 / 3.0;
    let root: f64 = er * (2.0 / 3.0 - 2.0 / 31.0) + 2.0 / 31.0;
    assert_eq!(out[0], None);
    assert_eq!(out[1], None);
    assert_eq!(out[2], Some(Real(3.0 + root * root * (2.0 - 3.0))));
}

#[test]
fn kama_on_a_flat_window_takes_the_ratio_as_one() {
    let out = kama_outputs(2, &[4.0, 4.0, 4.0]);
    assert_eq!(out[2], Some(Real(4.0)));
}

#[test]
fn kama_revision_builds_on_the_committed_value() {
    let mut base = overlap_kama_state_init::<Real>(2).unwrap();
    for x in [1.0, 2.0, 4.0, 5.0] {
        base = overlap_kama_state_next(&base, Real(x), true).1;
    }
    let (_, opened) = overlap_kama_state_next(&base, Real(7.0), true);
    let (revised, after) = overlap_kama_state_next(&opened, Real(3.0), false);
    let (direct, direct_after) = overlap_kama_state_next(&base, Real(3.0), true);
    assert_eq!(revised, direct);
    assert_eq!(
        overlap_kama_state_next(&after, Real(8.0), true).0,
        overlap_kama_state_next(&direct_after, Real(8.0), true).0
    );
}

#[test]
fn the_bar_count_rises_on_every_new_bar_and_on_no_revision() {
    let mut sma: SMAState<Real> = overlap_sma_state_init(2).unwrap();
    let mut ema: EMAState<Real> = overlap_ema_state_init(2).unwrap();
    let mut wma = overlap_wma_state_init::<Real>(2).unwrap();
    let mut mid = overlap_midpoint_state_init::<Real>(2).unwrap();
    let mut tri = overlap_trima_state_init::<Real>(2).unwrap();
    let mut kama = overlap_kama_state_init::<Real>(2).unwrap();
    assert_eq!(sma.lookback_count(), 0);
    assert_eq!(ema.period(), 2);
    assert_eq!(ema.smoothing_constant(), Real(2.0 / 3.0));
    for i in 1..=7u64 {
        let x = Real(i as f64);
        sma = overlap_sma_state_next(&sma, x, true).1;
        ema = overlap_ema_state_next(&ema, x, true).1;
        wma = overlap_wma_state_next(&wma, x, true).1;
        mid = overlap_midpoint_state_next(&mid, x, true).1;
        tri = overlap_trima_state_next(&tri, x, true).1;
        kama = overlap_kama_state_next(&kama, x, true).1;
        assert_eq!(sma.lookback_count(), i);
        assert_eq!(ema.lookback_count(), i);
        assert_eq!(wma.lookback_count(), i);
        assert_eq!(mid.lookback_count(), i);
        assert_eq!(tri.lookback_count(), i);
        assert_eq!(kama.lookback_count(), i);
        let revised = Real(-1.0);
        assert_eq!(overlap_sma_state_next(&sma, revised, false).1.lookback_count(), i);
        assert_eq!(overlap_ema_state_next(&ema, revised, false).1.lookback_count(), i);
        assert_eq!(overlap_wma_state_next(&wma, revised, false).1.lookback_count(), i);
        assert_eq!(overlap_midpoint_state_next(&mid, revised, false).1.lookback_count(), i);
        assert_eq!(overlap_trima_state_next(&tri, revised, false).1.lookback_count(), i);
        assert_eq!(overlap_kama_state_next(&kama, revised, false).1.lookback_count(), i);
    }
    assert_eq!(sma.period(), 2);
    assert_eq!(kama.period(), 2);
    assert_eq!(tri.period(), 2);
}

#[test]
fn kama_on_rising_doubles_is_within_rounding_of_the_fastest_rate() {
    // The two rises add up to 6.95, the net move to 6.949999999999999: in
    // doubles the ratio of this rising window is just below one.
    let xs = [0.94, 6.52, 7.89];
    let out = kama_outputs(2, &xs);
    let volatility = (6.52_f64 - 0.94).abs() + (7.89_f64 - 6.52).abs();
    let change = (7.89_f64 - 0.94).abs();
    assert!(volatility > change);
    let er = change / volatility;
    let root = er * (2.0 / 3.0 - 2.0 / 31.0) + 2.0 / 31.0;
    assert_eq!(out[2], Some(Real(6.52 + root * root * (7.89 - 6.52))));
    assert!(close(out[2], 6.52 + (4.0 / 9.0) * (7.89 - 6.52)));
}
