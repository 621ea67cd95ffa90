//! Fan curve configuration: the data model and its validation.

use vstd::prelude::*;

use crate::binary64::{
    lemma_nonnegative_finite, spec_in_closed_range, spec_is_nan, spec_le, spec_lt, spec_order_key,
    Binary64,
};

verus! {

/// 0.0
pub const ZERO_BITS: u64 = 0x0;

/// 100.0, the largest duty cycle in percent.
pub const MAX_PWM_BITS: u64 = 0x4059_0000_0000_0000;

/// 120.0, the largest temperature in °C a curve point may name.
pub const MAX_TEMP_BITS: u64 = 0x405e_0000_0000_0000;

/// Shortest accepted control loop interval, in milliseconds.
pub const MIN_POLL_INTERVAL_MS: u64 = 250;

/// Longest accepted control loop interval, in milliseconds.
pub const MAX_POLL_INTERVAL_MS: u64 = 60_000;

/// Most fans a configuration may describe.
pub const MAX_FANS: usize = 8;

/// Fewest points a hardware curve may have.
pub const MIN_HW_POINTS: usize = 2;

/// Most points a hardware curve may have (Smart Fan IV engine limit).
pub const MAX_HW_POINTS: usize = 7;

/// One point of a fan curve: at `temp` °C run the fan at `pwm` percent.
#[derive(Clone, Copy, Debug)]
pub struct CurvePoint {
    pub temp: Binary64,
    pub pwm: Binary64,
}

#[derive(Clone, Copy, Debug, PartialEq, Eq, Structural)]
pub enum FanMode {
    /// Firmware automatic control (restores the enable value and Smart Fan IV
    /// points seen at startup).
    Auto,
    /// Software control following the configured curve.
    Curve,
    /// The user's curve programmed into the chip's Smart Fan IV engine; the
    /// hardware runs the loop autonomously.
    Hardware,
    /// Software control at a fixed duty cycle.
    Manual,
}

#[derive(Clone, Debug)]
pub struct FanConfig {
    pub mode: FanMode,
    /// Duty cycle in percent used in Manual mode.
    pub manual_pwm: Binary64,
    /// Curve points, kept sorted by temperature.
    pub curve: Vec<CurvePoint>,
    /// Curve used in Hardware mode. Constrained by the Smart Fan IV engine:
    /// a bounded number of points and non-decreasing duty.
    pub hw_curve: Vec<CurvePoint>,
}

pub struct FanConfigView {
    pub mode: FanMode,
    pub manual_pwm: Binary64,
    pub curve: Seq<CurvePoint>,
    pub hw_curve: Seq<CurvePoint>,
}

impl View for FanConfig {
    type V = FanConfigView;

    open spec fn view(&self) -> FanConfigView {
        FanConfigView {
            mode: self.mode,
            manual_pwm: self.manual_pwm,
            curve: self.curve@,
            hw_curve: self.hw_curve@,
        }
    }
}

#[derive(Clone, Debug)]
pub struct Config {
    /// Control loop interval in milliseconds.
    pub poll_interval_ms: u64,
    /// Per-fan configuration, index 0 = fan1, index 1 = fan2.
    pub fans: Vec<FanConfig>,
}

pub struct ConfigView {
    pub poll_interval_ms: u64,
    pub fans: Seq<FanConfigView>,
}

impl View for Config {
    type V = ConfigView;

    open spec fn view(&self) -> ConfigView {
        ConfigView {
            poll_interval_ms: self.poll_interval_ms,
            fans: self.fans@.map_values(|f: FanConfig| f@),
        }
    }
}

/// Why a configuration was rejected. `fan` is the 1-based fan number.
#[derive(Clone, Copy, Debug)]
pub enum ConfigError {
    /// The poll interval lies outside 250..=60000 ms.
    PollInterval,
    /// There are no fans, or more than eight.
    FanCount { count: usize },
    /// The manual duty lies outside 0..=100 %.
    ManualPwmOutOfRange { fan: usize },
    /// The software curve has fewer than two points.
    CurveTooShort { fan: usize },
    /// A software curve point lies outside 0..=120 °C or 0..=100 %.
    CurvePointOutOfRange { fan: usize, point: CurvePoint },
    /// The software curve is not sorted by temperature.
    CurveNotSorted { fan: usize },
    /// The hardware curve does not have 2..=7 points.
    HwCurveLength { fan: usize },
    /// A hardware curve point lies outside 0..=120 °C or 0..=100 %.
    HwCurvePointOutOfRange { fan: usize, point: CurvePoint },
    /// The hardware curve decreases in temperature or duty somewhere.
    HwCurveNotMonotonic { fan: usize },
}

/// A point is accepted when its temperature lies in 0..=120 and its duty in 0..=100.
pub open spec fn point_in_range(p: CurvePoint) -> bool {
    spec_in_closed_range(p.temp.bits, ZERO_BITS, MAX_TEMP_BITS)
        && spec_in_closed_range(p.pwm.bits, ZERO_BITS, MAX_PWM_BITS)
}

/// The first point of `pts` that is out of range, if any.
pub open spec fn first_out_of_range(pts: Seq<CurvePoint>) -> Option<CurvePoint>
    decreases pts.len(),
{
    if pts.len() == 0 {
        None
    } else if !point_in_range(pts[0]) {
        Some(pts[0])
    } else {
        first_out_of_range(pts.drop_first())
    }
}

/// The temperature drops from point `i` to point `i + 1`.
pub open spec fn temp_drops_at(pts: Seq<CurvePoint>, i: int) -> bool {
    spec_lt(pts[i + 1].temp.bits, pts[i].temp.bits)
}

/// The temperature or the duty drops from point `i` to point `i + 1`.
pub open spec fn temp_or_pwm_drops_at(pts: Seq<CurvePoint>, i: int) -> bool {
    spec_lt(pts[i + 1].temp.bits, pts[i].temp.bits) || spec_lt(pts[i + 1].pwm.bits, pts[i].pwm.bits)
}

/// Some adjacent pair of `pts` has a dropping temperature.
pub open spec fn has_temp_drop(pts: Seq<CurvePoint>) -> bool {
    exists|i: int| 0 <= i < pts.len() - 1 && #[trigger] temp_drops_at(pts, i)
}

/// Some adjacent pair of `pts` has a dropping temperature or duty.
pub open spec fn has_temp_or_pwm_drop(pts: Seq<CurvePoint>) -> bool {
    exists|i: int| 0 <= i < pts.len() - 1 && #[trigger] temp_or_pwm_drops_at(pts, i)
}

/// The verdict on one fan's configuration; `fan` is its 1-based number.
/// The checks run in this order and the first failing one is reported.
pub open spec fn fan_verdict(f: FanConfigView, fan: usize) -> Result<(), ConfigError> {
    if !spec_in_closed_range(f.manual_pwm.bits, ZERO_BITS, MAX_PWM_BITS) {
        Err(ConfigError::ManualPwmOutOfRange { fan })
    } else if f.curve.len() < 2 {
        Err(ConfigError::CurveTooShort { fan })
    } else if first_out_of_range(f.curve) is Some {
        Err(ConfigError::CurvePointOutOfRange { fan, point: first_out_of_range(f.curve)->0 })
    } else if has_temp_drop(f.curve) {
        Err(ConfigError::CurveNotSorted { fan })
    } else if !(MIN_HW_POINTS <= f.hw_curve.len() <= MAX_HW_POINTS) {
        Err(ConfigError::HwCurveLength { fan })
    } else if first_out_of_range(f.hw_curve) is Some {
        Err(ConfigError::HwCurvePointOutOfRange { fan, point: first_out_of_range(f.hw_curve)->0 })
    } else if has_temp_or_pwm_drop(f.hw_curve) {
        Err(ConfigError::HwCurveNotMonotonic { fan })
    } else {
        Ok(())
    }
}

/// The verdict on fans `i..` of `fans`: the first fan's error, or `Ok`.
pub open spec fn fans_verdict(fans: Seq<FanConfigView>, i: int) -> Result<(), ConfigError>
    decreases fans.len() - i,
{
    if i < 0 || i >= fans.len() {
        Ok(())
    } else {
        match fan_verdict(fans[i], (i + 1) as usize) {
            Err(e) => Err(e),
            Ok(()) => fans_verdict(fans, i + 1),
        }
    }
}

/// The verdict on a whole configuration.
pub open spec fn config_verdict(c: ConfigView) -> Result<(), ConfigError> {
    if !(MIN_POLL_INTERVAL_MS <= c.poll_interval_ms <= MAX_POLL_INTERVAL_MS) {
        Err(ConfigError::PollInterval)
    } else if c.fans.len() == 0 || c.fans.len() > MAX_FANS {
        Err(ConfigError::FanCount { count: c.fans.len() as usize })
    } else {
        fans_verdict(c.fans, 0)
    }
}

/// The curve point whose temperature and duty have the given bit patterns.
pub open spec fn point_of(temp_bits: u64, pwm_bits: u64) -> CurvePoint {
    CurvePoint { temp: Binary64 { bits: temp_bits }, pwm: Binary64 { bits: pwm_bits } }
}

/// The default hardware curve: 40→20, 55→30, 70→50, 80→75, 90→100 (°C → %).
pub open spec fn default_hw_curve_points() -> Seq<CurvePoint> {
    seq![
        point_of(0x4044_0000_0000_0000, 0x4034_0000_0000_0000),
        point_of(0x404b_8000_0000_0000, 0x403e_0000_0000_0000),
        point_of(0x4051_8000_0000_0000, 0x4049_0000_0000_0000),
        point_of(0x4054_0000_0000_0000, 0x4052_c000_0000_0000),
        point_of(0x4056_8000_0000_0000, 0x4059_0000_0000_0000),
    ]
}

/// The default software curve: 40→20, 50→30, 60→45, 70→65, 80→85, 85→100
/// (°C → %). Idle stays above the duty at which the fans start spinning.
pub open spec fn default_curve_points() -> Seq<CurvePoint> {
    seq![
        point_of(0x4044_0000_0000_0000, 0x4034_0000_0000_0000),
        point_of(0x4049_0000_0000_0000, 0x403e_0000_0000_0000),
        point_of(0x404e_0000_0000_0000, 0x4046_8000_0000_0000),
        point_of(0x4051_8000_0000_0000, 0x4050_4000_0000_0000),
        point_of(0x4054_0000_0000_0000, 0x4055_4000_0000_0000),
        point_of(0x4055_4000_0000_0000, 0x4059_0000_0000_0000),
    ]
}

/// One fan of the default configuration: automatic mode, 50 % manual duty.
pub open spec fn default_fan() -> FanConfigView {
    FanConfigView {
        mode: FanMode::Auto,
        manual_pwm: Binary64 { bits: 0x4049_0000_0000_0000 },
        curve: default_curve_points(),
        hw_curve: default_hw_curve_points(),
    }
}

/// The default configuration: a 2 s interval and two fans as `default_fan`.
pub open spec fn default_config() -> ConfigView {
    ConfigView { poll_interval_ms: 2000, fans: seq![default_fan(), default_fan()] }
}

fn point(temp_bits: u64, pwm_bits: u64) -> (r: CurvePoint)
    ensures
        r == point_of(temp_bits, pwm_bits),
{
    CurvePoint { temp: Binary64 { bits: temp_bits }, pwm: Binary64 { bits: pwm_bits } }
}

/// Default hardware curve; also used when loading configs that predate it.
pub fn default_hw_curve() -> (r: Vec<CurvePoint>)
    ensures
        r@ == default_hw_curve_points(),
{
    let r = vec![
        point(0x4044_0000_0000_0000, 0x4034_0000_0000_0000),
        point(0x404b_8000_0000_0000, 0x403e_0000_0000_0000),
        point(0x4051_8000_0000_0000, 0x4049_0000_0000_0000),
        point(0x4054_0000_0000_0000, 0x4052_c000_0000_0000),
        point(0x4056_8000_0000_0000, 0x4059_0000_0000_0000),
    ];
    assert(r@ =~= default_hw_curve_points());
    r
}

fn default_curve() -> (r: Vec<CurvePoint>)
    ensures
        r@ == default_curve_points(),
{
    let r = vec![
        point(0x4044_0000_0000_0000, 0x4034_0000_0000_0000),
        point(0x4049_0000_0000_0000, 0x403e_0000_0000_0000),
        point(0x404e_0000_0000_0000, 0x4046_8000_0000_0000),
        point(0x4051_8000_0000_0000, 0x4050_4000_0000_0000),
        point(0x4054_0000_0000_0000, 0x4055_4000_0000_0000),
        point(0x4055_4000_0000_0000, 0x4059_0000_0000_0000),
    ];
    assert(r@ =~= default_curve_points());
    r
}

fn default_fan_config() -> (r: FanConfig)
    ensures
        r@ == default_fan(),
{
    FanConfig {
        mode: FanMode::Auto,
        manual_pwm: Binary64 { bits: 0x4049_0000_0000_0000 },
        curve: default_curve(),
        hw_curve: default_hw_curve(),
    }
}

impl Default for Config {
    fn default() -> (r: Config)
        ensures
            r@ == default_config(),
    {
        let fans = vec![default_fan_config(), default_fan_config()];
        let r = Config { poll_interval_ms: 2000, fans };
        assert(r@.fans =~= default_config().fans);
        r
    }
}

/// Every point of a curve whose patterns are non-negative finite numbers
/// no larger than the bounds is in range; none of them is NaN.
proof fn lemma_points_in_range(pts: Seq<CurvePoint>)
    requires
        forall|i: int|
            0 <= i < pts.len() ==> #[trigger] pts[i].temp.bits <= MAX_TEMP_BITS
                && pts[i].pwm.bits <= MAX_PWM_BITS,
    ensures
        first_out_of_range(pts) is None,
        forall|i: int|
            0 <= i < pts.len() ==> spec_order_key(#[trigger] pts[i].temp.bits)
                == pts[i].temp.bits as int && spec_order_key(pts[i].pwm.bits)
                == pts[i].pwm.bits as int && !spec_is_nan(pts[i].temp.bits) && !spec_is_nan(
                pts[i].pwm.bits,
            ),
    decreases pts.len(),
{
    lemma_nonnegative_finite(ZERO_BITS);
    lemma_nonnegative_finite(MAX_TEMP_BITS);
    lemma_nonnegative_finite(MAX_PWM_BITS);
    assert forall|i: int| 0 <= i < pts.len() implies spec_order_key(#[trigger] pts[i].temp.bits)
        == pts[i].temp.bits as int && spec_order_key(pts[i].pwm.bits) == pts[i].pwm.bits as int
        && !spec_is_nan(pts[i].temp.bits) && !spec_is_nan(pts[i].pwm.bits) by {
        lemma_nonnegative_finite(pts[i].temp.bits);
        lemma_nonnegative_finite(pts[i].pwm.bits);
    }
    if pts.len() > 0 {
        let p = pts[0];
        assert(p.temp.bits <= MAX_TEMP_BITS && p.pwm.bits <= MAX_PWM_BITS);
        lemma_nonnegative_finite(p.temp.bits);
        lemma_nonnegative_finite(p.pwm.bits);
        assert(point_in_range(p));
        let rest = pts.drop_first();
        assert forall|i: int| 0 <= i < rest.len() implies #[trigger] rest[i].temp.bits
            <= MAX_TEMP_BITS && rest[i].pwm.bits <= MAX_PWM_BITS by {
            assert(rest[i] == pts[i + 1]);
        }
        lemma_points_in_range(rest);
    }
}

/// The default configuration is accepted.
pub proof fn lemma_default_config_is_valid()
    ensures
        config_verdict(default_config()) == Ok::<(), ConfigError>(()),
{
    let f = default_fan();
    lemma_points_in_range(f.curve);
    lemma_points_in_range(f.hw_curve);
    lemma_nonnegative_finite(0x4049_0000_0000_0000);
    lemma_nonnegative_finite(ZERO_BITS);
    lemma_nonnegative_finite(MAX_PWM_BITS);
    assert forall|i: int| 0 <= i < f.curve.len() - 1 implies !#[trigger] temp_drops_at(f.curve, i) by {
        assert(spec_order_key(f.curve[i].temp.bits) == f.curve[i].temp.bits as int);
        assert(spec_order_key(f.curve[i + 1].temp.bits) == f.curve[i + 1].temp.bits as int);
        if i == 0 {} else if i == 1 {} else if i == 2 {} else if i == 3 {} else {}
    }
    assert forall|i: int| 0 <= i < f.hw_curve.len() - 1 implies !#[trigger] temp_or_pwm_drops_at(
        f.hw_curve,
        i,
    ) by {
        assert(spec_order_key(f.hw_curve[i].temp.bits) == f.hw_curve[i].temp.bits as int);
        assert(spec_order_key(f.hw_curve[i + 1].temp.bits) == f.hw_curve[i + 1].temp.bits as int);
        assert(spec_order_key(f.hw_curve[i].pwm.bits) == f.hw_curve[i].pwm.bits as int);
        assert(spec_order_key(f.hw_curve[i + 1].pwm.bits) == f.hw_curve[i + 1].pwm.bits as int);
        if i == 0 {} else if i == 1 {} else if i == 2 {} else {}
    }
    assert(!has_temp_drop(f.curve));
    assert(!has_temp_or_pwm_drop(f.hw_curve));
    assert(fan_verdict(f, 1) == Ok::<(), ConfigError>(()));
    assert(fan_verdict(f, 2) == Ok::<(), ConfigError>(()));
    let fans = default_config().fans;
    assert(fans_verdict(fans, 2) == Ok::<(), ConfigError>(()));
    assert(fans_verdict(fans, 1) == Ok::<(), ConfigError>(()));
    assert(fans_verdict(fans, 0) == Ok::<(), ConfigError>(()));
}

/// When a configuration is accepted, so is each of its fans.
pub proof fn lemma_accepted_config_fan(c: ConfigView, i: int)
    requires
        config_verdict(c) is Ok,
        0 <= i < c.fans.len(),
    ensures
        fan_verdict(c.fans[i], (i + 1) as usize) is Ok,
{
    lemma_fans_verdict_ok(c.fans, 0, i);
}

proof fn lemma_fans_verdict_ok(fans: Seq<FanConfigView>, from: int, i: int)
    requires
        0 <= from <= i < fans.len(),
        fans_verdict(fans, from) is Ok,
    ensures
        fan_verdict(fans[i], (i + 1) as usize) is Ok,
    decreases i - from,
{
    if from < i {
        lemma_fans_verdict_ok(fans, from + 1, i);
    }
}

/// When no point of a curve is out of range, every point is in range.
pub proof fn lemma_no_point_out_of_range(pts: Seq<CurvePoint>)
    requires
        first_out_of_range(pts) is None,
    ensures
        forall|i: int| 0 <= i < pts.len() ==> point_in_range(#[trigger] pts[i]),
    decreases pts.len(),
{
    if pts.len() > 0 {
        let rest = pts.drop_first();
        lemma_no_point_out_of_range(rest);
        assert forall|i: int| 0 <= i < pts.len() implies point_in_range(#[trigger] pts[i]) by {
            if i > 0 {
                assert(pts[i] == rest[i - 1]);
            }
        }
    }
}

/// `x` lies in `0..=hi` as `f64` compares.
pub open spec fn bounded(x: Binary64, hi: u64) -> bool {
    spec_le(ZERO_BITS, x.bits) && spec_le(x.bits, hi)
}

/// Every point of `pts` has a temperature in 0..=120 and a duty in 0..=100.
pub open spec fn curve_within_bounds(pts: Seq<CurvePoint>) -> bool {
    forall|i: int| 0 <= i < pts.len() ==> #[trigger] point_within_bounds(pts[i])
}

/// The point's temperature lies in 0..=120 and its duty in 0..=100.
pub open spec fn point_within_bounds(p: CurvePoint) -> bool {
    bounded(p.temp, MAX_TEMP_BITS) && bounded(p.pwm, MAX_PWM_BITS)
}

/// The temperature does not fall from point `i` to point `i + 1`.
pub open spec fn temp_holds_or_rises(pts: Seq<CurvePoint>, i: int) -> bool {
    spec_le(pts[i].temp.bits, pts[i + 1].temp.bits)
}

/// Neither the temperature nor the duty falls from point `i` to point `i + 1`.
pub open spec fn temp_and_pwm_hold_or_rise(pts: Seq<CurvePoint>, i: int) -> bool {
    spec_le(pts[i].temp.bits, pts[i + 1].temp.bits) && spec_le(pts[i].pwm.bits, pts[i + 1].pwm.bits)
}

/// The rules one fan's configuration must meet.
pub open spec fn fan_acceptable(f: FanConfigView) -> bool {
    &&& bounded(f.manual_pwm, MAX_PWM_BITS)
    &&& f.curve.len() >= 2
    &&& curve_within_bounds(f.curve)
    &&& forall|i: int| 0 <= i < f.curve.len() - 1 ==> #[trigger] temp_holds_or_rises(f.curve, i)
    &&& 2 <= f.hw_curve.len() <= 7
    &&& curve_within_bounds(f.hw_curve)
    &&& forall|i: int|
        0 <= i < f.hw_curve.len() - 1 ==> #[trigger] temp_and_pwm_hold_or_rise(f.hw_curve, i)
}

/// The rules a configuration must meet: a poll interval of 250..=60000 ms,
/// one to eight fans, and every fan acceptable.
pub open spec fn config_acceptable(c: ConfigView) -> bool {
    &&& 250 <= c.poll_interval_ms <= 60_000
    &&& 1 <= c.fans.len() <= 8
    &&& forall|i: int| 0 <= i < c.fans.len() ==> fan_acceptable(#[trigger] c.fans[i])
}

/// No point is out of range exactly when every point is within bounds.
pub proof fn lemma_first_out_of_range_none_iff(pts: Seq<CurvePoint>)
    ensures
        first_out_of_range(pts) is None <==> curve_within_bounds(pts),
    decreases pts.len(),
{
    if pts.len() > 0 {
        let rest = pts.drop_first();
        lemma_first_out_of_range_none_iff(rest);
        if curve_within_bounds(pts) {
            assert(point_within_bounds(pts[0]));
            assert forall|i: int| 0 <= i < rest.len() implies #[trigger] point_within_bounds(rest[i]) by {
                assert(rest[i] == pts[i + 1]);
            }
        }
        if first_out_of_range(pts) is None {
            assert forall|i: int| 0 <= i < pts.len() implies #[trigger] point_within_bounds(pts[i]) by {
                if i > 0 {
                    assert(pts[i] == rest[i - 1]);
                }
            }
        }
    }
}

/// On points that are not NaN, "no adjacent pair drops" is "every
/// adjacent pair holds or rises".
proof fn lemma_no_drop_iff(pts: Seq<CurvePoint>)
    requires
        curve_within_bounds(pts),
    ensures
        !has_temp_drop(pts) <==> forall|i: int|
            0 <= i < pts.len() - 1 ==> #[trigger] temp_holds_or_rises(pts, i),
        !has_temp_or_pwm_drop(pts) <==> forall|i: int|
            0 <= i < pts.len() - 1 ==> #[trigger] temp_and_pwm_hold_or_rise(pts, i),
{
    if !has_temp_drop(pts) {
        assert forall|i: int| 0 <= i < pts.len() - 1 implies #[trigger] temp_holds_or_rises(pts, i) by {
            assert(point_within_bounds(pts[i]) && point_within_bounds(pts[i + 1]));
            assert(!temp_drops_at(pts, i));
        }
    }
    if forall|i: int| 0 <= i < pts.len() - 1 ==> #[trigger] temp_holds_or_rises(pts, i) {
        assert forall|i: int| 0 <= i < pts.len() - 1 implies !#[trigger] temp_drops_at(pts, i) by {
            assert(point_within_bounds(pts[i]) && point_within_bounds(pts[i + 1]));
            assert(temp_holds_or_rises(pts, i));
        }
    }
    if !has_temp_or_pwm_drop(pts) {
        assert forall|i: int| 0 <= i < pts.len() - 1 implies #[trigger] temp_and_pwm_hold_or_rise(pts, i) by {
            assert(point_within_bounds(pts[i]) && point_within_bounds(pts[i + 1]));
            assert(!temp_or_pwm_drops_at(pts, i));
        }
    }
    if forall|i: int| 0 <= i < pts.len() - 1 ==> #[trigger] temp_and_pwm_hold_or_rise(pts, i) {
        assert forall|i: int| 0 <= i < pts.len() - 1 implies !#[trigger] temp_or_pwm_drops_at(pts, i) by {
            assert(point_within_bounds(pts[i]) && point_within_bounds(pts[i + 1]));
            assert(temp_and_pwm_hold_or_rise(pts, i));
        }
    }
}

/// A fan's configuration is accepted exactly when it meets the rules.
pub proof fn lemma_fan_verdict_ok_iff(f: FanConfigView, fan: usize)
    ensures
        fan_verdict(f, fan) is Ok <==> fan_acceptable(f),
{
    lemma_first_out_of_range_none_iff(f.curve);
    lemma_first_out_of_range_none_iff(f.hw_curve);
    if curve_within_bounds(f.curve) {
        lemma_no_drop_iff(f.curve);
    }
    if curve_within_bounds(f.hw_curve) {
        lemma_no_drop_iff(f.hw_curve);
    }
}

proof fn lemma_fans_verdict_ok_iff(fans: Seq<FanConfigView>, from: int)
    requires
        0 <= from <= fans.len(),
    ensures
        fans_verdict(fans, from) is Ok <==> forall|i: int|
            from <= i < fans.len() ==> fan_acceptable(#[trigger] fans[i]),
    decreases fans.len() - from,
{
    if from < fans.len() {
        lemma_fans_verdict_ok_iff(fans, from + 1);
        lemma_fan_verdict_ok_iff(fans[from], (from + 1) as usize);
    }
}

/// A configuration is accepted exactly when it meets the rules.
pub proof fn lemma_config_verdict_ok_iff(c: ConfigView)
    ensures
        config_verdict(c) is Ok <==> config_acceptable(c),
{
    lemma_fans_verdict_ok_iff(c.fans, 0);
}

/// In an accepted configuration every hardware curve is non-decreasing in
/// temperature and in duty at every adjacent pair, and every software
/// curve is non-decreasing in temperature.
pub proof fn lemma_accepted_curves_rise(c: ConfigView, f: int, i: int)
    requires
        config_verdict(c) is Ok,
        0 <= f < c.fans.len(),
    ensures
        0 <= i < c.fans[f].hw_curve.len() - 1 ==> spec_le(
            c.fans[f].hw_curve[i].temp.bits,
            c.fans[f].hw_curve[i + 1].temp.bits,
        ) && spec_le(c.fans[f].hw_curve[i].pwm.bits, c.fans[f].hw_curve[i + 1].pwm.bits),
        0 <= i < c.fans[f].curve.len() - 1 ==> spec_le(
            c.fans[f].curve[i].temp.bits,
            c.fans[f].curve[i + 1].temp.bits,
        ),
{
    lemma_config_verdict_ok_iff(c);
    assert(fan_acceptable(c.fans[f]));
    if 0 <= i < c.fans[f].hw_curve.len() - 1 {
        assert(temp_and_pwm_hold_or_rise(c.fans[f].hw_curve, i));
    }
    if 0 <= i < c.fans[f].curve.len() - 1 {
        assert(temp_holds_or_rises(c.fans[f].curve, i));
    }
}

/// What a rejection of fan `f` (numbered `n`) with error `e` says about it:
/// the error names the fan, and the fan breaks the rule the error names.
pub open spec fn error_describes_fan(f: FanConfigView, n: usize, e: ConfigError) -> bool {
    match e {
        ConfigError::ManualPwmOutOfRange { fan } => fan == n && !bounded(f.manual_pwm, MAX_PWM_BITS),
        ConfigError::CurveTooShort { fan } => fan == n && f.curve.len() < 2,
        ConfigError::CurvePointOutOfRange { fan, point } => fan == n && f.curve.contains(point)
            && !point_within_bounds(point),
        ConfigError::CurveNotSorted { fan } => fan == n && exists|i: int|
            0 <= i < f.curve.len() - 1 && !#[trigger] temp_holds_or_rises(f.curve, i),
        ConfigError::HwCurveLength { fan } => fan == n && !(2 <= f.hw_curve.len() <= 7),
        ConfigError::HwCurvePointOutOfRange { fan, point } => fan == n && f.hw_curve.contains(point)
            && !point_within_bounds(point),
        ConfigError::HwCurveNotMonotonic { fan } => fan == n && exists|i: int|
            0 <= i < f.hw_curve.len() - 1 && !#[trigger] temp_and_pwm_hold_or_rise(f.hw_curve, i),
        _ => false,
    }
}

/// The first point out of range is a point of the curve that is out of bounds.
proof fn lemma_first_out_of_range_some(pts: Seq<CurvePoint>)
    requires
        first_out_of_range(pts) is Some,
    ensures
        pts.contains(first_out_of_range(pts)->0),
        !point_within_bounds(first_out_of_range(pts)->0),
    decreases pts.len(),
{
    if point_in_range(pts[0]) {
        lemma_first_out_of_range_some(pts.drop_first());
        let p = first_out_of_range(pts)->0;
        let k = choose|k: int| 0 <= k < pts.drop_first().len() && pts.drop_first()[k] == p;
        assert(pts[k + 1] == p);
    } else {
        assert(pts[0] == pts[0]);
    }
}

/// A rejected fan is rejected for a rule it breaks.
pub proof fn lemma_fan_error_describes_fan(f: FanConfigView, n: usize)
    requires
        fan_verdict(f, n) is Err,
    ensures
        error_describes_fan(f, n, fan_verdict(f, n)->Err_0),
{
    lemma_first_out_of_range_none_iff(f.curve);
    lemma_first_out_of_range_none_iff(f.hw_curve);
    if first_out_of_range(f.curve) is Some {
        lemma_first_out_of_range_some(f.curve);
    }
    if first_out_of_range(f.hw_curve) is Some {
        lemma_first_out_of_range_some(f.hw_curve);
    }
    if curve_within_bounds(f.curve) {
        lemma_no_drop_iff(f.curve);
    }
    if curve_within_bounds(f.hw_curve) {
        lemma_no_drop_iff(f.hw_curve);
    }
}

proof fn lemma_fans_verdict_err(fans: Seq<FanConfigView>, from: int)
    requires
        0 <= from <= fans.len(),
        fans_verdict(fans, from) is Err,
    ensures
        exists|j: int|
            from <= j < fans.len() && (forall|k: int| from <= k < j ==> fan_acceptable(#[trigger] fans[k]))
                && error_describes_fan(#[trigger] fans[j], (j + 1) as usize, fans_verdict(fans, from)->Err_0),
    decreases fans.len() - from,
{
    lemma_fan_verdict_ok_iff(fans[from], (from + 1) as usize);
    if fan_verdict(fans[from], (from + 1) as usize) is Err {
        lemma_fan_error_describes_fan(fans[from], (from + 1) as usize);
        assert(error_describes_fan(fans[from], (from + 1) as usize, fans_verdict(fans, from)->Err_0));
    } else {
        lemma_fans_verdict_err(fans, from + 1);
        let j = choose|j: int|
            from + 1 <= j < fans.len() && (forall|k: int| from + 1 <= k < j ==> fan_acceptable(#[trigger] fans[k]))
                && error_describes_fan(#[trigger] fans[j], (j + 1) as usize, fans_verdict(fans, from + 1)->Err_0);
        assert forall|k: int| from <= k < j implies fan_acceptable(#[trigger] fans[k]) by {
            if k == from {
            }
        }
        assert(error_describes_fan(fans[j], (j + 1) as usize, fans_verdict(fans, from)->Err_0));
    }
}

/// A rejected configuration is rejected for a rule it breaks: a poll
/// interval outside 250..=60000 ms; else a fan count outside 1..=8, which
/// the error gives; else the error names the first fan that breaks a rule,
/// all fans before it being acceptable, and says which rule.
pub proof fn lemma_config_error_describes_config(c: ConfigView)
    requires
        config_verdict(c) is Err,
    ensures
        config_verdict(c)->Err_0 is PollInterval <==> !(250 <= c.poll_interval_ms <= 60_000),
        config_verdict(c)->Err_0 is FanCount ==> (c.fans.len() == 0 || c.fans.len() > 8)
            && config_verdict(c)->Err_0->count == c.fans.len() as usize,
        !(config_verdict(c)->Err_0 is PollInterval) && !(config_verdict(c)->Err_0 is FanCount)
            ==> exists|j: int|
            0 <= j < c.fans.len() && (forall|k: int| 0 <= k < j ==> fan_acceptable(#[trigger] c.fans[k]))
                && error_describes_fan(#[trigger] c.fans[j], (j + 1) as usize, config_verdict(c)->Err_0),
{
    if 250 <= c.poll_interval_ms <= 60_000 && 1 <= c.fans.len() <= 8 {
        lemma_fans_verdict_err(c.fans, 0);
        let j = choose|j: int|
            0 <= j < c.fans.len() && (forall|k: int| 0 <= k < j ==> fan_acceptable(#[trigger] c.fans[k]))
                && error_describes_fan(#[trigger] c.fans[j], (j + 1) as usize, fans_verdict(c.fans, 0)->Err_0);
        assert(!(config_verdict(c)->Err_0 is PollInterval)) by {
            assert(error_describes_fan(c.fans[j], (j + 1) as usize, config_verdict(c)->Err_0));
        }
    }
}

fn point_ok(p: CurvePoint) -> (r: bool)
    ensures
        r == point_in_range(p),
{
    let zero = Binary64 { bits: ZERO_BITS };
    p.temp.in_closed_range(zero, Binary64 { bits: MAX_TEMP_BITS }) && p.pwm.in_closed_range(
        zero,
        Binary64 { bits: MAX_PWM_BITS },
    )
}

fn find_out_of_range(pts: &Vec<CurvePoint>) -> (r: Option<CurvePoint>)
    ensures
        r == first_out_of_range(pts@),
{
    let mut i: usize = 0;
    assert(pts@.skip(0) =~= pts@);
    while i < pts.len()
        invariant
            i <= pts.len(),
            first_out_of_range(pts@) == first_out_of_range(pts@.skip(i as int)),
        decreases pts.len() - i,
    {
        assert(pts@.skip(i as int)[0] == pts@[i as int]);
        if !point_ok(pts[i]) {
            return Some(pts[i]);
        }
        assert(pts@.skip(i as int).drop_first() =~= pts@.skip(i + 1));
        i = i + 1;
    }
    assert(pts@.skip(i as int).len() == 0);
    None
}

fn temp_drops(pts: &Vec<CurvePoint>) -> (r: bool)
    ensures
        r == has_temp_drop(pts@),
{
    let mut i: usize = 0;
    while i < pts.len() && i + 1 < pts.len()
        invariant
            i <= pts.len(),
            forall|j: int| 0 <= j < i ==> !#[trigger] temp_drops_at(pts@, j),
        decreases pts.len() - i,
    {
        if pts[i + 1].temp.lt(pts[i].temp) {
            assert(temp_drops_at(pts@, i as int));
            return true;
        }
        i = i + 1;
    }
    false
}

fn temp_or_pwm_drops(pts: &Vec<CurvePoint>) -> (r: bool)
    ensures
        r == has_temp_or_pwm_drop(pts@),
{
    let mut i: usize = 0;
    while i < pts.len() && i + 1 < pts.len()
        invariant
            i <= pts.len(),
            forall|j: int| 0 <= j < i ==> !#[trigger] temp_or_pwm_drops_at(pts@, j),
        decreases pts.len() - i,
    {
        if pts[i + 1].temp.lt(pts[i].temp) || pts[i + 1].pwm.lt(pts[i].pwm) {
            assert(temp_or_pwm_drops_at(pts@, i as int));
            return true;
        }
        i = i + 1;
    }
    false
}

impl FanConfig {
    /// Check this fan's configuration; `fan` is its 1-based number, used in
    /// the error.
    pub fn check(&self, fan: usize) -> (r: Result<(), ConfigError>)
        ensures
            r == fan_verdict(self@, fan),
    {
        let zero = Binary64 { bits: ZERO_BITS };
        if !self.manual_pwm.in_closed_range(zero, Binary64 { bits: MAX_PWM_BITS }) {
            return Err(ConfigError::ManualPwmOutOfRange { fan });
        }
        if self.curve.len() < 2 {
            return Err(ConfigError::CurveTooShort { fan });
        }
        if let Some(point) = find_out_of_range(&self.curve) {
            return Err(ConfigError::CurvePointOutOfRange { fan, point });
        }
        if temp_drops(&self.curve) {
            return Err(ConfigError::CurveNotSorted { fan });
        }
        if !(MIN_HW_POINTS <= self.hw_curve.len() && self.hw_curve.len() <= MAX_HW_POINTS) {
            return Err(ConfigError::HwCurveLength { fan });
        }
        if let Some(point) = find_out_of_range(&self.hw_curve) {
            return Err(ConfigError::HwCurvePointOutOfRange { fan, point });
        }
        if temp_or_pwm_drops(&self.hw_curve) {
            return Err(ConfigError::HwCurveNotMonotonic { fan });
        }
        Ok(())
    }
}

impl Config {
    /// Accept the configuration or name the first rule it breaks.
    pub fn validate(&self) -> (r: Result<(), ConfigError>)
        ensures
            r == config_verdict(self@),
    {
        if !(MIN_POLL_INTERVAL_MS <= self.poll_interval_ms
            && self.poll_interval_ms <= MAX_POLL_INTERVAL_MS) {
            return Err(ConfigError::PollInterval);
        }
        if self.fans.len() == 0 || self.fans.len() > MAX_FANS {
            return Err(ConfigError::FanCount { count: self.fans.len() });
        }
        let mut i: usize = 0;
        while i < self.fans.len()
            invariant
                0 < self.fans.len() <= MAX_FANS,
                i <= self.fans.len(),
                config_verdict(self@) == fans_verdict(self@.fans, i as int),
            decreases self.fans.len() - i,
        {
            assert(self@.fans[i as int] == self.fans@[i as int]@);
            let verdict = self.fans[i].check(i + 1);
            if verdict.is_err() {
                return verdict;
            }
            i = i + 1;
        }
        Ok(())
    }
}

} // verus!
