//! Per-fan control decisions of the control loop.
//!
//! Each tick the loop asks, for every fan, where its target duty comes
//! from, whether the control mode must be switched, whether the hardware
//! curve must be programmed and whether a new duty must be written. It
//! remembers what it last applied so that sysfs is only touched when
//! something changes.

use vstd::prelude::*;

use crate::binary64::{spec_eq, spec_is_nan, Binary64};
use crate::config::{
    config_verdict, lemma_accepted_config_fan, lemma_no_point_out_of_range, point_in_range,
    ConfigView, CurvePoint, FanConfig, FanConfigView, FanMode,
};

verus! {

/// 100.0: the duty, in percent, of a fan running at full speed.
pub const FULL_SPEED_BITS: u64 = 0x4059_0000_0000_0000;

/// A fan's target duty this tick.
#[derive(Clone, Copy, Debug)]
pub enum Target {
    /// No target: the chip controls the fan itself (auto or hardware mode,
    /// or no configuration for this fan).
    Unmanaged,
    /// This duty, in percent: the configured manual duty, or full speed
    /// when the curve cannot be evaluated.
    Percent(Binary64),
    /// The software curve, evaluated at the control temperature.
    Curve,
}

/// The sysfs action that switches a fan into a new mode.
#[derive(Clone, Copy, Debug, PartialEq, Eq, Structural)]
pub enum ModeSwitch {
    /// Restore the enable value seen at startup (auto mode, or no configuration).
    RestoreAuto,
    /// Select manual PWM control (curve and manual modes).
    SelectManual,
    /// Nothing to write now; the hardware curve is programmed separately.
    Hardware,
}

/// A sysfs action the loop must perform on a fan.
#[derive(Clone, Copy, Debug, PartialEq, Eq, Structural)]
pub enum FanAction {
    /// Write the enable value seen at startup (`PwmFan::set_auto`).
    RestoreAuto,
    /// Select manual PWM control (`PwmFan::set_manual`).
    SelectManual,
    /// Program the configured hardware curve into the chip.
    ProgramHwCurve,
    /// Write this raw duty (`PwmFan::set_pwm_raw`).
    WritePwm(u8),
}

/// How far one fan's part of a tick has come. A tick switches the mode,
/// then programs the hardware curve, then writes the duty, each only when
/// needed; every action is followed by a report of whether it succeeded.
#[derive(Clone, Copy, Debug, PartialEq, Eq, Structural)]
pub enum FanStage {
    /// Nothing done yet.
    Start,
    /// The mode switch was asked for.
    AfterModeSwitch,
    /// The hardware curve programming was asked for.
    AfterHwProgram,
    /// The duty write was asked for.
    AfterPwmWrite,
    /// Nothing is left to do this tick.
    Finished,
}

/// One temperature reading: whether the sensor feeds the fan curves, and
/// the value in millidegrees Celsius when it could be read.
#[derive(Clone, Copy, Debug)]
pub struct SensorReading {
    pub control: bool,
    pub milli_celsius: Option<i64>,
}

/// What the loop remembers about one fan between ticks.
#[derive(Debug)]
pub struct FanRuntime {
    /// The mode last applied successfully.
    pub last_mode: Option<FanMode>,
    /// The raw duty last written successfully.
    pub last_raw: Option<u8>,
    /// The hardware curve last programmed into the chip.
    pub last_hw_curve: Option<Vec<CurvePoint>>,
}

pub struct FanRuntimeView {
    pub last_mode: Option<FanMode>,
    pub last_raw: Option<u8>,
    pub last_hw_curve: Option<Seq<CurvePoint>>,
}

impl View for FanRuntime {
    type V = FanRuntimeView;

    open spec fn view(&self) -> FanRuntimeView {
        FanRuntimeView {
            last_mode: self.last_mode,
            last_raw: self.last_raw,
            last_hw_curve: match self.last_hw_curve {
                Some(c) => Some(c@),
                None => None,
            },
        }
    }
}

/// The target of a fan configured as `cfg` (`None` when it has no
/// configuration), given whether a control temperature is known. In curve
/// mode without a temperature the fan runs at full speed.
pub open spec fn spec_fan_target(cfg: Option<FanConfigView>, temp_known: bool) -> Target {
    match cfg {
        Some(c) => match c.mode {
            FanMode::Manual => Target::Percent(c.manual_pwm),
            FanMode::Curve => if temp_known {
                Target::Curve
            } else {
                Target::Percent(Binary64 { bits: FULL_SPEED_BITS })
            },
            _ => Target::Unmanaged,
        },
        None => Target::Unmanaged,
    }
}

/// The view of an optional fan configuration.
pub open spec fn cfg_view(cfg: Option<&FanConfig>) -> Option<FanConfigView> {
    match cfg {
        Some(c) => Some(c@),
        None => None,
    }
}

/// The mode of an optional fan configuration.
pub open spec fn cfg_mode(cfg: Option<FanConfigView>) -> Option<FanMode> {
    match cfg {
        Some(c) => Some(c.mode),
        None => None,
    }
}

/// The switch needed to go from the last applied mode to `mode`, if any.
pub open spec fn spec_mode_switch(last: Option<FanMode>, mode: Option<FanMode>) -> Option<
    ModeSwitch,
> {
    if mode == last {
        None
    } else {
        match mode {
            None | Some(FanMode::Auto) => Some(ModeSwitch::RestoreAuto),
            Some(FanMode::Hardware) => Some(ModeSwitch::Hardware),
            _ => Some(ModeSwitch::SelectManual),
        }
    }
}

/// Point `i` of `a` and of `b` compare equal as pairs of `f64`.
pub open spec fn points_match(a: Seq<CurvePoint>, b: Seq<CurvePoint>, i: int) -> bool {
    spec_eq(a[i].temp.bits, b[i].temp.bits) && spec_eq(a[i].pwm.bits, b[i].pwm.bits)
}

/// Two curves compare equal as `Vec<CurvePoint>` of `f64` pairs do.
pub open spec fn curves_equal(a: Seq<CurvePoint>, b: Seq<CurvePoint>) -> bool {
    a.len() == b.len() && forall|i: int| 0 <= i < a.len() ==> #[trigger] points_match(a, b, i)
}

/// No coordinate of the curve is NaN.
pub open spec fn curve_has_no_nan(c: Seq<CurvePoint>) -> bool {
    forall|i: int|
        0 <= i < c.len() ==> !spec_is_nan(#[trigger] c[i].temp.bits) && !spec_is_nan(c[i].pwm.bits)
}

/// Whether the hardware curve of `cfg` must be (re)programmed: the fan is in
/// hardware mode and the curve differs from the one last programmed.
pub open spec fn spec_needs_hw_program(rt: FanRuntimeView, cfg: FanConfigView) -> bool {
    cfg.mode == FanMode::Hardware && match rt.last_hw_curve {
        Some(c) => !curves_equal(c, cfg.hw_curve),
        None => true,
    }
}

/// Whether `raw` must be written: it is not the duty last written.
pub open spec fn spec_needs_pwm_write(rt: FanRuntimeView, raw: u8) -> bool {
    rt.last_raw != Some(raw)
}

/// The memory after `mode` was applied: the duty and the hardware curve
/// must be applied anew.
pub open spec fn spec_after_mode_applied(rt: FanRuntimeView, mode: Option<FanMode>) -> FanRuntimeView {
    FanRuntimeView { last_mode: mode, last_raw: None, last_hw_curve: None }
}

/// The memory after `curve` was programmed.
pub open spec fn spec_after_hw_programmed(rt: FanRuntimeView, curve: Seq<CurvePoint>) -> FanRuntimeView {
    FanRuntimeView { last_hw_curve: Some(curve), ..rt }
}

/// The memory after `raw` was written.
pub open spec fn spec_after_pwm_written(rt: FanRuntimeView, raw: u8) -> FanRuntimeView {
    FanRuntimeView { last_raw: Some(raw), ..rt }
}

/// From the duty write on: write `raw` when it is not the duty last written.
pub open spec fn spec_from_duty(rt: FanRuntimeView, raw: Option<u8>) -> (FanStage, Option<FanAction>, FanRuntimeView) {
    if raw is Some && spec_needs_pwm_write(rt, raw->0) {
        (FanStage::AfterPwmWrite, Some(FanAction::WritePwm(raw->0)), rt)
    } else {
        (FanStage::Finished, None, rt)
    }
}

/// From the hardware curve on: program it when needed, else go on to the duty.
pub open spec fn spec_from_hw(rt: FanRuntimeView, cfg: Option<FanConfigView>, raw: Option<u8>) -> (
    FanStage,
    Option<FanAction>,
    FanRuntimeView,
) {
    if cfg is Some && spec_needs_hw_program(rt, cfg->0) {
        (FanStage::AfterHwProgram, Some(FanAction::ProgramHwCurve), rt)
    } else {
        spec_from_duty(rt, raw)
    }
}

/// One step of a fan's part of a tick: from the memory `rt`, the stage
/// reached, the fan's configuration, the raw duty targeted (`None` when
/// the fan has no target) and whether the last action asked for succeeded,
/// to the next stage, the next action (`None` when the tick is over for
/// this fan) and the memory. The memory records an action only when it
/// succeeded; a switch into hardware mode needs no write and is applied at once.
pub open spec fn spec_fan_step(
    rt: FanRuntimeView,
    stage: FanStage,
    cfg: Option<FanConfigView>,
    raw: Option<u8>,
    ok: bool,
) -> (FanStage, Option<FanAction>, FanRuntimeView) {
    let mode = cfg_mode(cfg);
    match stage {
        FanStage::Start => match spec_mode_switch(rt.last_mode, mode) {
            None => spec_from_hw(rt, cfg, raw),
            Some(ModeSwitch::Hardware) => spec_from_hw(spec_after_mode_applied(rt, mode), cfg, raw),
            Some(ModeSwitch::RestoreAuto) => (FanStage::AfterModeSwitch, Some(FanAction::RestoreAuto), rt),
            Some(ModeSwitch::SelectManual) => (
                FanStage::AfterModeSwitch,
                Some(FanAction::SelectManual),
                rt,
            ),
        },
        FanStage::AfterModeSwitch => spec_from_hw(
            if ok {
                spec_after_mode_applied(rt, mode)
            } else {
                rt
            },
            cfg,
            raw,
        ),
        FanStage::AfterHwProgram => spec_from_duty(
            if ok && cfg is Some {
                spec_after_hw_programmed(rt, cfg->0.hw_curve)
            } else {
                rt
            },
            raw,
        ),
        FanStage::AfterPwmWrite => (
            FanStage::Finished,
            None,
            if ok && raw is Some {
                spec_after_pwm_written(rt, raw->0)
            } else {
                rt
            },
        ),
        FanStage::Finished => (FanStage::Finished, None, rt),
    }
}

/// The actions of a fan's part of a tick and the memory after it, when the
/// actions succeed as `outcomes` says (an action without an outcome failed).
pub open spec fn spec_drive(
    rt: FanRuntimeView,
    stage: FanStage,
    cfg: Option<FanConfigView>,
    raw: Option<u8>,
    ok: bool,
    outcomes: Seq<bool>,
    fuel: nat,
) -> (Seq<FanAction>, FanRuntimeView)
    decreases fuel,
{
    let (next, action, rt2) = spec_fan_step(rt, stage, cfg, raw, ok);
    match action {
        None => (Seq::empty(), rt2),
        Some(a) => if fuel == 0 {
            (seq![a], rt2)
        } else {
            let rest = spec_drive(
                rt2,
                next,
                cfg,
                raw,
                outcomes.len() > 0 && outcomes[0],
                outcomes.drop_first(),
                (fuel - 1) as nat,
            );
            (seq![a] + rest.0, rest.1)
        },
    }
}

/// A whole fan's part of a tick: its actions and the memory after it.
pub open spec fn spec_fan_tick(
    rt: FanRuntimeView,
    cfg: Option<FanConfigView>,
    raw: Option<u8>,
    outcomes: Seq<bool>,
) -> (Seq<FanAction>, FanRuntimeView) {
    spec_drive(rt, FanStage::Start, cfg, raw, false, outcomes, 3)
}

/// The largest readable control temperature, over `readings[..n]`.
pub open spec fn spec_control_temp(readings: Seq<SensorReading>, n: int) -> Option<i64>
    decreases n,
{
    if n <= 0 {
        None
    } else {
        let acc = spec_control_temp(readings, n - 1);
        let r = readings[n - 1];
        if r.control && r.milli_celsius is Some {
            let t = r.milli_celsius->0;
            match acc {
                Some(a) => Some(if a >= t { a } else { t }),
                None => Some(t),
            }
        } else {
            acc
        }
    }
}

/// The target duty of a fan configured as `cfg` this tick.
pub fn fan_target(cfg: Option<&FanConfig>, temp_known: bool) -> (r: Target)
    ensures
        r == spec_fan_target(cfg_view(cfg), temp_known),
{
    match cfg {
        Some(c) => match c.mode {
            FanMode::Manual => Target::Percent(c.manual_pwm),
            FanMode::Curve => if temp_known {
                Target::Curve
            } else {
                Target::Percent(Binary64 { bits: FULL_SPEED_BITS })
            },
            _ => Target::Unmanaged,
        },
        None => Target::Unmanaged,
    }
}

/// The control temperature: the maximum over the control sensors that
/// could be read, `None` when there is none.
pub fn control_temp(readings: &Vec<SensorReading>) -> (r: Option<i64>)
    ensures
        r == spec_control_temp(readings@, readings@.len() as int),
{
    let mut acc: Option<i64> = None;
    let mut i: usize = 0;
    while i < readings.len()
        invariant
            i <= readings.len(),
            acc == spec_control_temp(readings@, i as int),
        decreases readings.len() - i,
    {
        let r = readings[i];
        if r.control {
            if let Some(t) = r.milli_celsius {
                acc = match acc {
                    Some(a) => Some(if a >= t { a } else { t }),
                    None => Some(t),
                };
            }
        }
        i = i + 1;
    }
    acc
}

fn from_duty(rt: &FanRuntime, raw: Option<u8>) -> (r: (FanStage, Option<FanAction>))
    ensures
        (r.0, r.1, rt@) == spec_from_duty(rt@, raw),
{
    match raw {
        Some(v) => if rt.needs_pwm_write(v) {
            (FanStage::AfterPwmWrite, Some(FanAction::WritePwm(v)))
        } else {
            (FanStage::Finished, None)
        },
        None => (FanStage::Finished, None),
    }
}

fn from_hw(rt: &FanRuntime, cfg: Option<&FanConfig>, raw: Option<u8>) -> (r: (FanStage, Option<FanAction>))
    ensures
        (r.0, r.1, rt@) == spec_from_hw(rt@, cfg_view(cfg), raw),
{
    if let Some(c) = cfg {
        if rt.needs_hw_program(c) {
            return (FanStage::AfterHwProgram, Some(FanAction::ProgramHwCurve));
        }
    }
    from_duty(rt, raw)
}

/// One step of a fan's part of a tick (see `spec_fan_step`). The loop
/// starts at `FanStage::Start`, performs each action returned and reports
/// in `ok` whether it succeeded, until no action is returned.
pub fn fan_step(
    rt: &mut FanRuntime,
    stage: FanStage,
    cfg: Option<&FanConfig>,
    raw: Option<u8>,
    ok: bool,
) -> (r: (FanStage, Option<FanAction>))
    ensures
        (r.0, r.1, final(rt)@) == spec_fan_step(old(rt)@, stage, cfg_view(cfg), raw, ok),
{
    let mode = match cfg {
        Some(c) => Some(c.mode),
        None => None,
    };
    match stage {
        FanStage::Start => match rt.mode_switch(mode) {
            None => from_hw(rt, cfg, raw),
            Some(ModeSwitch::Hardware) => {
                rt.mode_applied(mode);
                from_hw(rt, cfg, raw)
            },
            Some(ModeSwitch::RestoreAuto) => (FanStage::AfterModeSwitch, Some(FanAction::RestoreAuto)),
            Some(ModeSwitch::SelectManual) => (FanStage::AfterModeSwitch, Some(FanAction::SelectManual)),
        },
        FanStage::AfterModeSwitch => {
            if ok {
                rt.mode_applied(mode);
            }
            from_hw(rt, cfg, raw)
        },
        FanStage::AfterHwProgram => {
            if ok {
                if let Some(c) = cfg {
                    rt.hw_programmed(&c.hw_curve);
                }
            }
            from_duty(rt, raw)
        },
        FanStage::AfterPwmWrite => {
            if ok {
                if let Some(v) = raw {
                    rt.pwm_written(v);
                }
            }
            (FanStage::Finished, None)
        },
        FanStage::Finished => (FanStage::Finished, None),
    }
}

fn points_equal(a: &Vec<CurvePoint>, b: &Vec<CurvePoint>) -> (r: bool)
    ensures
        r == curves_equal(a@, b@),
{
    if a.len() != b.len() {
        return false;
    }
    let mut i: usize = 0;
    while i < a.len()
        invariant
            a.len() == b.len(),
            i <= a.len(),
            forall|j: int| 0 <= j < i ==> #[trigger] points_match(a@, b@, j),
        decreases a.len() - i,
    {
        if !(a[i].temp.ieee_eq(b[i].temp) && a[i].pwm.ieee_eq(b[i].pwm)) {
            assert(!points_match(a@, b@, i as int));
            return false;
        }
        assert(points_match(a@, b@, i as int));
        i = i + 1;
    }
    true
}

fn copy_curve(c: &Vec<CurvePoint>) -> (r: Vec<CurvePoint>)
    ensures
        r@ == c@,
{
    let mut r: Vec<CurvePoint> = Vec::new();
    let mut i: usize = 0;
    while i < c.len()
        invariant
            i <= c.len(),
            r@ == c@.take(i as int),
        decreases c.len() - i,
    {
        r.push(c[i]);
        i = i + 1;
        assert(r@ =~= c@.take(i as int));
    }
    assert(c@.take(c.len() as int) =~= c@);
    r
}

impl FanRuntime {
    /// A fan about which nothing has been applied yet.
    pub fn new() -> (r: FanRuntime)
        ensures
            r@ == (FanRuntimeView { last_mode: None, last_raw: None, last_hw_curve: None }),
    {
        FanRuntime { last_mode: None, last_raw: None, last_hw_curve: None }
    }

    /// The switch needed to bring the fan into `mode`, `None` when it is
    /// already there.
    pub fn mode_switch(&self, mode: Option<FanMode>) -> (r: Option<ModeSwitch>)
        ensures
            r == spec_mode_switch(self.last_mode, mode),
    {
        if mode == self.last_mode {
            None
        } else {
            match mode {
                None | Some(FanMode::Auto) => Some(ModeSwitch::RestoreAuto),
                Some(FanMode::Hardware) => Some(ModeSwitch::Hardware),
                _ => Some(ModeSwitch::SelectManual),
            }
        }
    }

    /// Record that the switch to `mode` succeeded.
    pub fn mode_applied(&mut self, mode: Option<FanMode>)
        ensures
            final(self)@ == spec_after_mode_applied(old(self)@, mode),
    {
        self.last_mode = mode;
        self.last_raw = None;
        self.last_hw_curve = None;
    }

    /// Whether the hardware curve of `cfg` must be programmed now.
    pub fn needs_hw_program(&self, cfg: &FanConfig) -> (r: bool)
        ensures
            r == spec_needs_hw_program(self@, cfg@),
    {
        if cfg.mode != FanMode::Hardware {
            return false;
        }
        match &self.last_hw_curve {
            Some(c) => !points_equal(c, &cfg.hw_curve),
            None => true,
        }
    }

    /// Record that `curve` was programmed into the chip.
    pub fn hw_programmed(&mut self, curve: &Vec<CurvePoint>)
        ensures
            final(self)@ == spec_after_hw_programmed(old(self)@, curve@),
    {
        self.last_hw_curve = Some(copy_curve(curve));
    }

    /// Whether the raw duty `raw` must be written now.
    pub fn needs_pwm_write(&self, raw: u8) -> (r: bool)
        ensures
            r == spec_needs_pwm_write(self@, raw),
    {
        match self.last_raw {
            Some(last) => last != raw,
            None => true,
        }
    }

    /// Record that the raw duty `raw` was written.
    pub fn pwm_written(&mut self, raw: u8)
        ensures
            final(self)@ == spec_after_pwm_written(old(self)@, raw),
    {
        self.last_raw = Some(raw);
    }
}

/// The target of a fan: a manual fan runs at its manual duty, a curve fan
/// follows the curve when a temperature is known and runs at full speed
/// (100 %) when none is, and a fan in auto or hardware mode, or without a
/// configuration, gets no target. Only a curve fan's target depends on
/// whether a temperature is known.
pub proof fn lemma_fan_target_by_mode(cfg: Option<FanConfigView>, temp_known: bool)
    ensures
        cfg is None ==> spec_fan_target(cfg, temp_known) is Unmanaged,
        cfg is Some && cfg->0.mode == FanMode::Manual ==> spec_fan_target(cfg, temp_known)
            == Target::Percent(cfg->0.manual_pwm),
        cfg is Some && cfg->0.mode == FanMode::Curve && temp_known ==> spec_fan_target(
            cfg,
            temp_known,
        ) is Curve,
        cfg is Some && cfg->0.mode == FanMode::Curve && !temp_known ==> spec_fan_target(
            cfg,
            temp_known,
        ) == Target::Percent(Binary64 { bits: 0x4059_0000_0000_0000 }),
        cfg is Some && (cfg->0.mode == FanMode::Auto || cfg->0.mode == FanMode::Hardware)
            ==> spec_fan_target(cfg, temp_known) is Unmanaged,
        !(cfg is Some && cfg->0.mode == FanMode::Curve) ==> spec_fan_target(cfg, true)
            == spec_fan_target(cfg, false),
{
}

/// The switch a mode change needs: none when the mode stays; restoring
/// automatic control for auto mode or no configuration; manual PWM control
/// for curve and manual mode; no write for hardware mode.
pub proof fn lemma_mode_switch_by_mode(last: Option<FanMode>, mode: Option<FanMode>)
    ensures
        (spec_mode_switch(last, mode) is None) <==> last == mode,
        last != mode && (mode is None || mode == Some(FanMode::Auto)) ==> spec_mode_switch(last, mode)
            == Some(ModeSwitch::RestoreAuto),
        last != mode && (mode == Some(FanMode::Manual) || mode == Some(FanMode::Curve))
            ==> spec_mode_switch(last, mode) == Some(ModeSwitch::SelectManual),
        last != mode && mode == Some(FanMode::Hardware) ==> spec_mode_switch(last, mode) == Some(
            ModeSwitch::Hardware,
        ),
{
}

/// Two curves compare equal exactly when they have the same length and
/// every point agrees in temperature and in duty.
pub proof fn lemma_curves_equal_pointwise(a: Seq<CurvePoint>, b: Seq<CurvePoint>)
    ensures
        curves_equal(a, b) <==> (a.len() == b.len() && forall|i: int|
            0 <= i < a.len() ==> spec_eq(#[trigger] a[i].temp.bits, b[i].temp.bits) && spec_eq(
                a[i].pwm.bits,
                b[i].pwm.bits,
            )),
{
    if curves_equal(a, b) {
        assert forall|i: int| 0 <= i < a.len() implies spec_eq(#[trigger] a[i].temp.bits, b[i].temp.bits)
            && spec_eq(a[i].pwm.bits, b[i].pwm.bits) by {
            assert(points_match(a, b, i));
        }
    }
    if a.len() == b.len() && forall|i: int|
        0 <= i < a.len() ==> spec_eq(#[trigger] a[i].temp.bits, b[i].temp.bits) && spec_eq(
            a[i].pwm.bits,
            b[i].pwm.bits,
        ) {
        assert forall|i: int| 0 <= i < a.len() implies #[trigger] points_match(a, b, i) by {
            assert(spec_eq(a[i].temp.bits, b[i].temp.bits));
        }
    }
}

/// A fan in hardware mode whose configured curve differs from the one last
/// programmed, in the length or in any point's temperature or duty, needs
/// programming; one in any other mode never does.
pub proof fn lemma_changed_hw_curve_is_programmed(rt: FanRuntimeView, cfg: FanConfigView, i: int)
    ensures
        cfg.mode != FanMode::Hardware ==> !spec_needs_hw_program(rt, cfg),
        cfg.mode == FanMode::Hardware && rt.last_hw_curve is None ==> spec_needs_hw_program(rt, cfg),
        cfg.mode == FanMode::Hardware && rt.last_hw_curve is Some && rt.last_hw_curve->0.len()
            != cfg.hw_curve.len() ==> spec_needs_hw_program(rt, cfg),
        cfg.mode == FanMode::Hardware && rt.last_hw_curve is Some && 0 <= i
            < rt.last_hw_curve->0.len() && i < cfg.hw_curve.len() && (!spec_eq(
            rt.last_hw_curve->0[i].temp.bits,
            cfg.hw_curve[i].temp.bits,
        ) || !spec_eq(rt.last_hw_curve->0[i].pwm.bits, cfg.hw_curve[i].pwm.bits))
            ==> spec_needs_hw_program(rt, cfg),
{
    if rt.last_hw_curve is Some {
        lemma_curves_equal_pointwise(rt.last_hw_curve->0, cfg.hw_curve);
    }
}

/// After a mode switch succeeded, the memory holds the new mode and no duty
/// or curve, so a fan in manual or curve mode gets its targeted duty
/// written at once, whatever duty was written before the switch.
pub proof fn lemma_mode_switch_then_duty_written(rt: FanRuntimeView, cfg: FanConfigView, v: u8)
    requires
        cfg.mode == FanMode::Manual || cfg.mode == FanMode::Curve,
    ensures
        spec_fan_step(rt, FanStage::AfterModeSwitch, Some(cfg), Some(v), true) == (
            FanStage::AfterPwmWrite,
            Some(FanAction::WritePwm(v)),
            FanRuntimeView { last_mode: Some(cfg.mode), last_raw: None, last_hw_curve: None },
        ),
{
}

/// After a mode switch succeeded for a fan in hardware mode, its curve is
/// programmed next.
pub proof fn lemma_mode_switch_then_curve_programmed(rt: FanRuntimeView, cfg: FanConfigView, raw: Option<u8>)
    requires
        cfg.mode == FanMode::Hardware,
    ensures
        spec_fan_step(rt, FanStage::AfterModeSwitch, Some(cfg), raw, true) == (
            FanStage::AfterHwProgram,
            Some(FanAction::ProgramHwCurve),
            FanRuntimeView { last_mode: Some(FanMode::Hardware), last_raw: None, last_hw_curve: None },
        ),
{
}

/// The first step of a tick: a fan whose mode changed to manual or curve
/// is switched to manual control, one that changed to auto or lost its
/// configuration is restored to automatic control, and in both cases the
/// memory is untouched until the switch is reported. A fan that changed to
/// hardware mode is switched at once (no write) and its curve programmed.
/// A fan whose mode stayed and whose targeted duty differs from the last
/// written one (and that needs no curve programming) gets the duty written.
pub proof fn lemma_tick_start(rt: FanRuntimeView, cfg: Option<FanConfigView>, raw: Option<u8>)
    ensures
        cfg_mode(cfg) != rt.last_mode && (cfg_mode(cfg) == Some(FanMode::Manual) || cfg_mode(cfg)
            == Some(FanMode::Curve)) ==> spec_fan_step(rt, FanStage::Start, cfg, raw, false) == (
            FanStage::AfterModeSwitch,
            Some(FanAction::SelectManual),
            rt,
        ),
        cfg_mode(cfg) != rt.last_mode && (cfg is None || cfg_mode(cfg) == Some(FanMode::Auto))
            ==> spec_fan_step(rt, FanStage::Start, cfg, raw, false) == (
            FanStage::AfterModeSwitch,
            Some(FanAction::RestoreAuto),
            rt,
        ),
        cfg_mode(cfg) != rt.last_mode && cfg_mode(cfg) == Some(FanMode::Hardware) ==> spec_fan_step(
            rt,
            FanStage::Start,
            cfg,
            raw,
            false,
        ) == (
            FanStage::AfterHwProgram,
            Some(FanAction::ProgramHwCurve),
            FanRuntimeView { last_mode: Some(FanMode::Hardware), last_raw: None, last_hw_curve: None },
        ),
        cfg_mode(cfg) == rt.last_mode && cfg_mode(cfg) != Some(FanMode::Hardware) && raw is Some
            && rt.last_raw != raw ==> spec_fan_step(rt, FanStage::Start, cfg, raw, false) == (
            FanStage::AfterPwmWrite,
            Some(FanAction::WritePwm(raw->0)),
            rt,
        ),
{
}

/// A successful duty write is remembered (and nothing else changes); a
/// successful curve programming remembers the configured curve and goes on
/// to the duty. After the duty write the fan's tick is over.
pub proof fn lemma_successes_are_recorded(rt: FanRuntimeView, cfg: FanConfigView, v: u8)
    ensures
        spec_fan_step(rt, FanStage::AfterPwmWrite, Some(cfg), Some(v), true) == (
            FanStage::Finished,
            None::<FanAction>,
            FanRuntimeView { last_raw: Some(v), ..rt },
        ),
        spec_fan_step(rt, FanStage::AfterHwProgram, Some(cfg), Some(v), true).2.last_hw_curve == Some(
            cfg.hw_curve,
        ),
        spec_fan_step(rt, FanStage::AfterHwProgram, Some(cfg), Some(v), true).2.last_mode == rt.last_mode,
        spec_fan_step(rt, FanStage::AfterHwProgram, Some(cfg), Some(v), true).2.last_raw == rt.last_raw,
        rt.last_raw != Some(v) ==> spec_fan_step(rt, FanStage::AfterHwProgram, Some(cfg), Some(v), true).1
            == Some(FanAction::WritePwm(v)),
{
}

/// Two fan ticks from equal memories, for equal configurations and
/// targets, whose actions succeed alike, make the same actions and leave
/// equal memories.
pub proof fn lemma_fan_tick_deterministic(
    rt1: FanRuntimeView,
    rt2: FanRuntimeView,
    cfg: Option<FanConfigView>,
    raw: Option<u8>,
    outcomes: Seq<bool>,
)
    requires
        rt1 == rt2,
    ensures
        spec_fan_tick(rt1, cfg, raw, outcomes) == spec_fan_tick(rt2, cfg, raw, outcomes),
{
}

/// When nothing changed since the last tick (the mode is applied, the
/// hardware curve programmed, the duty written), a tick touches no file.
pub proof fn lemma_steady_tick_is_quiet(
    rt: FanRuntimeView,
    cfg: Option<FanConfigView>,
    raw: Option<u8>,
    outcomes: Seq<bool>,
)
    requires
        rt.last_mode == cfg_mode(cfg),
        cfg is Some ==> !spec_needs_hw_program(rt, cfg->0),
        raw is Some ==> rt.last_raw == raw,
    ensures
        spec_fan_tick(rt, cfg, raw, outcomes) == (Seq::<FanAction>::empty(), rt),
{
}

/// A failed duty write leaves the memory as it was, so the next tick
/// writes the same duty again.
pub proof fn lemma_failed_pwm_write_is_retried(rt: FanRuntimeView, cfg: Option<FanConfigView>, raw: u8)
    requires
        spec_needs_pwm_write(rt, raw),
    ensures
        spec_fan_step(rt, FanStage::AfterPwmWrite, cfg, Some(raw), false).2 == rt,
        spec_needs_pwm_write(spec_fan_step(rt, FanStage::AfterPwmWrite, cfg, Some(raw), false).2, raw),
{
}

/// A failed curve programming leaves the memory as it was, so the next
/// tick programs the curve again.
pub proof fn lemma_failed_hw_program_is_retried(rt: FanRuntimeView, cfg: FanConfigView, raw: Option<u8>)
    requires
        spec_needs_hw_program(rt, cfg),
    ensures
        spec_fan_step(rt, FanStage::AfterHwProgram, Some(cfg), raw, false).2 == rt,
        spec_needs_hw_program(spec_fan_step(rt, FanStage::AfterHwProgram, Some(cfg), raw, false).2, cfg),
{
}

/// A failed mode switch leaves the memory as it was, so the next tick
/// asks for the same switch again.
pub proof fn lemma_failed_mode_switch_is_retried(
    rt: FanRuntimeView,
    cfg: Option<FanConfigView>,
    raw: Option<u8>,
)
    ensures
        spec_fan_step(rt, FanStage::AfterModeSwitch, cfg, raw, false).2 == rt,
{
}

/// The control temperature depends only on the control sensors: readings
/// that agree on which sensors are control sensors and on what those read
/// give the same control temperature, whatever the other sensors read.
pub proof fn lemma_control_temp_ignores_other_sensors(
    a: Seq<SensorReading>,
    b: Seq<SensorReading>,
    n: int,
)
    requires
        0 <= n <= a.len(),
        a.len() == b.len(),
        forall|i: int|
            0 <= i < a.len() ==> (#[trigger] a[i]).control == b[i].control && (a[i].control
                ==> a[i].milli_celsius == b[i].milli_celsius),
    ensures
        spec_control_temp(a, n) == spec_control_temp(b, n),
    decreases n,
{
    if n > 0 {
        lemma_control_temp_ignores_other_sensors(a, b, n - 1);
        assert(a[n - 1].control == b[n - 1].control);
    }
}

/// Two ticks whose readings agree on the control sensors, for equal
/// configurations, give every fan the same target.
pub proof fn lemma_target_ignores_other_sensors(
    a: Seq<SensorReading>,
    b: Seq<SensorReading>,
    cfg: Option<FanConfigView>,
)
    requires
        a.len() == b.len(),
        forall|i: int|
            0 <= i < a.len() ==> (#[trigger] a[i]).control == b[i].control && (a[i].control
                ==> a[i].milli_celsius == b[i].milli_celsius),
    ensures
        spec_control_temp(a, a.len() as int) == spec_control_temp(b, b.len() as int),
        spec_fan_target(cfg, spec_control_temp(a, a.len() as int) is Some) == spec_fan_target(
            cfg,
            spec_control_temp(b, b.len() as int) is Some,
        ),
{
    lemma_control_temp_ignores_other_sensors(a, b, a.len() as int);
}

/// After a mode was applied, applying the same mode again needs no switch.
pub proof fn lemma_mode_switch_settles(rt: FanRuntimeView, mode: Option<FanMode>)
    ensures
        spec_mode_switch(spec_after_mode_applied(rt, mode).last_mode, mode) is None,
{
}

/// After a mode switch, whatever duty is targeted is written again.
pub proof fn lemma_mode_switch_forces_pwm_write(rt: FanRuntimeView, mode: Option<FanMode>, raw: u8)
    ensures
        spec_needs_pwm_write(spec_after_mode_applied(rt, mode), raw),
{
}

/// After a mode switch, a fan in hardware mode gets its curve programmed.
pub proof fn lemma_mode_switch_forces_hw_program(
    rt: FanRuntimeView,
    mode: Option<FanMode>,
    cfg: FanConfigView,
)
    requires
        cfg.mode == FanMode::Hardware,
    ensures
        spec_needs_hw_program(spec_after_mode_applied(rt, mode), cfg),
{
}

/// Once a duty was written, the same duty is not written again, and any
/// other duty is.
pub proof fn lemma_pwm_write_settles(rt: FanRuntimeView, raw: u8, other: u8)
    ensures
        !spec_needs_pwm_write(spec_after_pwm_written(rt, raw), raw),
        other != raw ==> spec_needs_pwm_write(spec_after_pwm_written(rt, raw), other),
{
}

/// Once a curve without NaN was programmed, it is not programmed again
/// while the configured curve stays the same.
pub proof fn lemma_hw_program_settles(rt: FanRuntimeView, cfg: FanConfigView)
    requires
        curve_has_no_nan(cfg.hw_curve),
    ensures
        !spec_needs_hw_program(spec_after_hw_programmed(rt, cfg.hw_curve), cfg),
{
    let c = cfg.hw_curve;
    assert forall|i: int| 0 <= i < c.len() implies #[trigger] points_match(c, c, i) by {
        assert(!spec_is_nan(c[i].temp.bits));
    }
}

/// With an accepted configuration, a fan's hardware curve, once
/// programmed, is not programmed again while the configuration stays.
pub proof fn lemma_accepted_hw_curve_settles(rt: FanRuntimeView, c: ConfigView, i: int)
    requires
        config_verdict(c) is Ok,
        0 <= i < c.fans.len(),
    ensures
        !spec_needs_hw_program(spec_after_hw_programmed(rt, c.fans[i].hw_curve), c.fans[i]),
{
    let f = c.fans[i];
    lemma_accepted_config_fan(c, i);
    lemma_no_point_out_of_range(f.hw_curve);
    assert forall|k: int| 0 <= k < f.hw_curve.len() implies !spec_is_nan(
        #[trigger] f.hw_curve[k].temp.bits,
    ) && !spec_is_nan(f.hw_curve[k].pwm.bits) by {
        assert(point_in_range(f.hw_curve[k]));
    }
    lemma_hw_program_settles(rt, f);
}

/// The control temperature is a reading of a control sensor, at least as
/// high as every other readable control sensor; it is unknown only when no
/// control sensor could be read.
pub proof fn lemma_control_temp_is_max(readings: Seq<SensorReading>, n: int)
    requires
        0 <= n <= readings.len(),
    ensures
        spec_control_temp(readings, n) is None <==> forall|k: int|
            0 <= k < n ==> !(#[trigger] readings[k].control && readings[k].milli_celsius is Some),
        spec_control_temp(readings, n) is Some ==> (exists|k: int|
            0 <= k < n && #[trigger] readings[k].control && readings[k].milli_celsius == spec_control_temp(
                readings,
                n,
            )),
        forall|k: int|
            0 <= k < n && #[trigger] readings[k].control && readings[k].milli_celsius is Some
                ==> readings[k].milli_celsius->0 <= spec_control_temp(readings, n)->0,
    decreases n,
{
    if n > 0 {
        lemma_control_temp_is_max(readings, n - 1);
        let r = readings[n - 1];
        if r.control && r.milli_celsius is Some {
            assert(readings[n - 1].control);
        }
    }
}

} // verus!
