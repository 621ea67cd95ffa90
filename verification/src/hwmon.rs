//! hwmon sysfs devices: file paths, the interpretation of what their files
//! hold, and the writes that control the fans.
//!
//! Devices are located by chip name (the `name` file of each hwmon
//! directory) rather than by index, since hwmon numbering can change between
//! boots. Reading and writing the files is left to the caller; this module
//! says which file to touch, what to write, and what a read means.

use vstd::prelude::*;
use vstd::string::*;

use crate::sort::{numbers_sorted, sort_numbers, sort_strings, strings_sorted, views};
use crate::text::{
    decimal, decimal_string, has_prefix, has_suffix, is_white_space, lemma_decimal_digits,
    lemma_parse_i64_signed_decimal, lemma_parse_u32_decimal, parse_i64, parse_u32, push_decimal, spec_parse_i64, spec_parse_u32,
    signed_decimal, signed_decimal_string, spec_trim, starts_with, strip_prefix, strip_suffix,
    to_string, trim, trim_end, trim_start,
};

verus! {

/// The directory that holds one subdirectory per hwmon device.
pub const HWMON_ROOT: &'static str = "/sys/class/hwmon";

/// The `pwm{N}_enable` value that hands a fan to the chip's Smart Fan IV
/// engine on the nct6775 driver.
pub const SMART_FAN_IV: u32 = 5;

/// Fans `1..=CHASSIS_FANS` are the chassis fans (pwm1/fan1 and pwm2/fan2).
pub const CHASSIS_FANS: u32 = 2;

/// `Path::new(base).join(name)`.
pub open spec fn spec_join(base: Seq<char>, name: Seq<char>) -> Seq<char> {
    if name.len() > 0 && name[0] == '/' {
        name
    } else if base.len() == 0 {
        name
    } else if base.last() == '/' {
        base + name
    } else {
        base.push('/') + name
    }
}

/// `format!("{prefix}{n}{suffix}")`.
pub open spec fn numbered(prefix: Seq<char>, n: u32, suffix: Seq<char>) -> Seq<char> {
    prefix + decimal(n as nat) + suffix
}

/// A file whose contents could not be interpreted.
#[derive(Clone, Debug)]
pub enum SysfsError {
    /// The file at `path` does not hold a number of the expected type.
    Parse { path: String },
}

/// Write `contents` to the file at `path`.
#[derive(Clone, Debug)]
pub struct SysfsWrite {
    pub path: String,
    pub contents: String,
}

/// What reading a `u32` from the file at `path` that holds `contents` gives.
pub open spec fn spec_read_u32(path: String, contents: Seq<char>) -> Result<u32, SysfsError> {
    match spec_parse_u32(spec_trim(contents)) {
        Some(v) => Ok(v),
        None => Err(SysfsError::Parse { path }),
    }
}

/// What reading a temperature in millidegrees Celsius from the file at
/// `path` that holds `contents` gives.
pub open spec fn spec_read_milli(path: String, contents: Seq<char>) -> Result<i64, SysfsError> {
    match spec_parse_i64(spec_trim(contents)) {
        Some(v) => Ok(v),
        None => Err(SysfsError::Parse { path }),
    }
}

/// `Path::new(base).join(name)`.
pub fn join(base: &str, name: &str) -> (r: String)
    ensures
        r@ == spec_join(base@, name@),
{
    let absolute = name.unicode_len() > 0 && name.get_char(0) == '/';
    let n = base.unicode_len();
    if absolute || n == 0 {
        return to_string(name);
    }
    let mut r = to_string(base);
    if base.get_char(n - 1) != '/' {
        crate::text::push_char(&mut r, '/');
    }
    r.append(name);
    r
}

fn numbered_name(prefix: &str, n: u32, suffix: &str) -> (r: String)
    ensures
        r@ == numbered(prefix@, n, suffix@),
{
    let mut r = to_string(prefix);
    push_decimal(&mut r, n as u64);
    r.append(suffix);
    r
}

/// Read a `u32` from the file at `path`, which holds `contents`: surrounding
/// white space is ignored.
pub fn read_u32(path: &String, contents: &str) -> (r: Result<u32, SysfsError>)
    ensures
        r == spec_read_u32(*path, contents@),
{
    let t = trim(contents);
    match parse_u32(t.as_str()) {
        Some(v) => Ok(v),
        None => Err(SysfsError::Parse { path: path.clone() }),
    }
}

/// Read a temperature in millidegrees Celsius from the file at `path`,
/// which holds `contents`: surrounding white space is ignored.
pub fn read_milli(path: &String, contents: &str) -> (r: Result<i64, SysfsError>)
    ensures
        r == spec_read_milli(*path, contents@),
{
    let t = trim(contents);
    match parse_i64(t.as_str()) {
        Some(v) => Ok(v),
        None => Err(SysfsError::Parse { path: path.clone() }),
    }
}

/// One PWM-controllable fan on the Super I/O chip.
#[derive(Debug)]
pub struct PwmFan {
    /// 1-based index as used in sysfs file names (pwm1, fan1_input, ...).
    pub index: u32,
    /// The duty file, `pwm{N}`.
    pub pwm: String,
    /// The control mode file, `pwm{N}_enable`.
    pub enable: String,
    /// The speed file, `fan{N}_input`.
    pub fan_input: String,
    /// `pwm{N}_enable` value observed at startup; restored for "auto" mode.
    pub original_enable: u32,
    /// The Smart Fan IV curve points (temperature in millidegrees, raw
    /// duty) observed at startup; restored for "auto" mode.
    pub original_points: Vec<(i64, u32)>,
}

impl PwmFan {
    /// Fan `index` of the chip directory `chip`, whose enable file held
    /// `original_enable` at startup.
    pub fn new(chip: &str, index: u32, original_enable: u32) -> (r: PwmFan)
        ensures
            r.index == index,
            r.original_enable == original_enable,
            r.original_points@.len() == 0,
            r.pwm@ == spec_join(chip@, numbered("pwm"@, index, ""@)),
            r.enable@ == spec_join(chip@, numbered("pwm"@, index, "_enable"@)),
            r.fan_input@ == spec_join(chip@, numbered("fan"@, index, "_input"@)),
    {
        let pwm = join(chip, numbered_name("pwm", index, "").as_str());
        let enable = join(chip, numbered_name("pwm", index, "_enable").as_str());
        let fan_input = join(chip, numbered_name("fan", index, "_input").as_str());
        PwmFan { index, pwm, enable, fan_input, original_enable, original_points: Vec::new() }
    }

    /// The speed in RPM, from the contents of `fan_input`.
    pub fn rpm(&self, contents: &str) -> (r: Result<u32, SysfsError>)
        ensures
            r == spec_read_u32(self.fan_input, contents@),
    {
        read_u32(&self.fan_input, contents)
    }

    /// The raw duty (0-255), from the contents of `pwm`.
    pub fn pwm_raw(&self, contents: &str) -> (r: Result<u32, SysfsError>)
        ensures
            r == spec_read_u32(self.pwm, contents@),
    {
        read_u32(&self.pwm, contents)
    }

    /// The control mode value, from the contents of `enable`.
    pub fn enable_value(&self, contents: &str) -> (r: Result<u32, SysfsError>)
        ensures
            r == spec_read_u32(self.enable, contents@),
    {
        read_u32(&self.enable, contents)
    }

    /// Switch the fan to manual PWM control: write `1` to `enable`.
    pub fn set_manual(&self) -> (r: SysfsWrite)
        ensures
            r.path == self.enable,
            r.contents@ == "1"@,
    {
        SysfsWrite { path: self.enable.clone(), contents: to_string("1") }
    }

    /// Return the fan to the automatic mode that was active at startup:
    /// write `original_enable` to `enable`.
    pub fn set_auto(&self) -> (r: SysfsWrite)
        ensures
            r.path == self.enable,
            r.contents@ == decimal(self.original_enable as nat),
    {
        SysfsWrite {
            path: self.enable.clone(),
            contents: decimal_string(self.original_enable as u64),
        }
    }

    /// Set the raw duty (0-255): write `value` to `pwm`. Only meaningful in
    /// manual mode.
    pub fn set_pwm_raw(&self, value: u8) -> (r: SysfsWrite)
        ensures
            r.path == self.pwm,
            r.contents@ == decimal(value as nat),
    {
        SysfsWrite { path: self.pwm.clone(), contents: decimal_string(value as u64) }
    }
}

/// The view of an optional string slice.
pub open spec fn str_view(o: Option<&str>) -> Option<Seq<char>> {
    match o {
        Some(t) => Some(t@),
        None => None,
    }
}

/// The view of an optional string.
pub open spec fn string_view(o: Option<String>) -> Option<Seq<char>> {
    match o {
        Some(t) => Some(t@),
        None => None,
    }
}

/// What a temperature sensor measures; lets the frontend group sensors.
#[derive(Clone, Copy, Debug, PartialEq, Eq, Structural)]
pub enum SensorKind {
    /// The CPU package.
    Cpu,
    /// One CPU core.
    Core,
    /// An NVMe drive.
    Nvme,
}

impl SensorKind {
    /// The name the status report uses: "cpu", "core" or "nvme".
    pub fn as_str(self) -> (r: &'static str)
        ensures
            r@ == match self {
                SensorKind::Cpu => "cpu"@,
                SensorKind::Core => "core"@,
                SensorKind::Nvme => "nvme"@,
            },
    {
        match self {
            SensorKind::Cpu => "cpu",
            SensorKind::Core => "core",
            SensorKind::Nvme => "nvme",
        }
    }
}

/// A temperature source, either shown for information or used as input to
/// the fan curves (`control == true`).
#[derive(Debug)]
pub struct TempSensor {
    /// Human readable label, e.g. "Package id 0", "Core 4" or "nvme0".
    pub label: String,
    pub kind: SensorKind,
    /// Drive model for NVMe sensors.
    pub model: Option<String>,
    /// Whether this sensor feeds the fan curves. Only the CPU package does.
    pub control: bool,
    /// The temperature file, in millidegrees Celsius.
    pub input: String,
}

/// The label of coretemp channel `channel`: the trimmed contents of its
/// label file when that could be read, else `temp{channel}`.
pub open spec fn coretemp_label(channel: u32, label_file: Option<Seq<char>>) -> Seq<char> {
    match label_file {
        Some(t) => spec_trim(t),
        None => numbered("temp"@, channel, ""@),
    }
}

impl TempSensor {
    /// The temperature in millidegrees Celsius, from the contents of `input`.
    pub fn read(&self, contents: &str) -> (r: Result<i64, SysfsError>)
        ensures
            r == spec_read_milli(self.input, contents@),
    {
        read_milli(&self.input, contents)
    }

    /// Coretemp channel `channel` of the chip directory `chip`, whose label
    /// file held `label_file` (`None` when it could not be read). The
    /// channel labelled "Package..." is the CPU package, the only control
    /// input; the others are per-core and informational.
    pub fn coretemp(chip: &str, channel: u32, label_file: Option<&str>) -> (r: TempSensor)
        ensures
            r.label@ == coretemp_label(channel, str_view(label_file)),
            r.control == has_prefix(r.label@, "Package"@),
            r.kind == (if r.control {
                SensorKind::Cpu
            } else {
                SensorKind::Core
            }),
            r.model is None,
            r.input@ == spec_join(chip@, numbered("temp"@, channel, "_input"@)),
    {
        let label = match label_file {
            Some(t) => trim(t),
            None => numbered_name("temp", channel, ""),
        };
        let is_package = starts_with(label.as_str(), "Package");
        let input = join(chip, numbered_name("temp", channel, "_input").as_str());
        TempSensor {
            label,
            kind: if is_package {
                SensorKind::Cpu
            } else {
                SensorKind::Core
            },
            model: None,
            control: is_package,
            input,
        }
    }

    /// The label file of coretemp channel `channel` of the chip directory `chip`.
    pub fn coretemp_label_file(chip: &str, channel: u32) -> (r: String)
        ensures
            r@ == spec_join(chip@, numbered("temp"@, channel, "_label"@)),
    {
        join(chip, numbered_name("temp", channel, "_label").as_str())
    }

    /// The temperature file of the composite sensor of the NVMe chip
    /// directory `chip`.
    pub fn nvme_input_file(chip: &str) -> (r: String)
        ensures
            r@ == spec_join(chip@, "temp1_input"@),
    {
        join(chip, "temp1_input")
    }

    /// The composite sensor (`temp1`) of the NVMe chip directory `chip`,
    /// for the drive `device` of model `model`. Display only: drive
    /// temperatures are coarse and slow, so they never feed the curves.
    pub fn nvme(chip: &str, device: &str, model: Option<String>) -> (r: TempSensor)
        ensures
            r.label@ == device@,
            r.kind == SensorKind::Nvme,
            r.model == model,
            !r.control,
            r.input@ == spec_join(chip@, "temp1_input"@),
    {
        TempSensor {
            label: to_string(device),
            kind: SensorKind::Nvme,
            model,
            control: false,
            input: join(chip, "temp1_input"),
        }
    }
}

/// The channel number of a coretemp file named `temp{N}_input`.
pub open spec fn spec_temp_channel(name: Seq<char>) -> Option<u32> {
    let rest = name.skip("temp"@.len() as int);
    if has_prefix(name, "temp"@) && has_suffix(rest, "_input"@) {
        spec_parse_u32(rest.take(rest.len() - "_input"@.len()))
    } else {
        None
    }
}

/// The channel numbers that `names` carry, in their order.
pub open spec fn spec_channels(names: Seq<String>) -> Seq<u32>
    decreases names.len(),
{
    if names.len() == 0 {
        Seq::empty()
    } else {
        let prev = spec_channels(names.drop_last());
        match spec_temp_channel(names.last()@) {
            Some(ch) => prev.push(ch),
            None => prev,
        }
    }
}

/// The channel number of a coretemp file named `temp{N}_input`.
pub fn temp_channel(name: &str) -> (r: Option<u32>)
    ensures
        r == spec_temp_channel(name@),
{
    match strip_prefix(name, "temp") {
        Some(rest) => match strip_suffix(rest.as_str(), "_input") {
            Some(number) => parse_u32(number.as_str()),
            None => None,
        },
        None => None,
    }
}

/// The channels of a coretemp chip directory whose files are named
/// `file_names`, in ascending order.
pub fn coretemp_channels(file_names: &Vec<String>) -> (r: Vec<u32>)
    ensures
        r@.to_multiset() == spec_channels(file_names@).to_multiset(),
        numbers_sorted(r@),
{
    let mut channels: Vec<u32> = Vec::new();
    let mut i: usize = 0;
    while i < file_names.len()
        invariant
            i <= file_names.len(),
            channels@ == spec_channels(file_names@.take(i as int)),
        decreases file_names.len() - i,
    {
        assert(file_names@.take(i + 1).drop_last() =~= file_names@.take(i as int));
        if let Some(ch) = temp_channel(file_names[i].as_str()) {
            channels.push(ch);
        }
        i = i + 1;
    }
    assert(file_names@.take(file_names.len() as int) =~= file_names@);
    sort_numbers(channels)
}

/// The kinds of hwmon chip the controller looks for.
#[derive(Clone, Copy, Debug, PartialEq, Eq, Structural)]
pub enum ChipKind {
    /// The nct67xx Super I/O chip that drives the fans.
    FanController,
    /// The CPU temperature sensors.
    CoreTemp,
    /// An NVMe drive.
    Nvme,
}

/// Whether a chip of (trimmed) name `name` is of kind `kind`.
pub open spec fn chip_matches(kind: ChipKind, name: Seq<char>) -> bool {
    match kind {
        ChipKind::FanController => has_prefix(name, "nct67"@),
        ChipKind::CoreTemp => name == "coretemp"@,
        ChipKind::Nvme => name == "nvme"@,
    }
}

impl ChipKind {
    /// Whether a chip of (trimmed) name `name` is of this kind.
    pub fn matches(self, name: &str) -> (r: bool)
        ensures
            r == chip_matches(self, name@),
    {
        match self {
            ChipKind::FanController => starts_with(name, "nct67"),
            ChipKind::CoreTemp => {
                let c = to_string("coretemp");
                let n = to_string(name);
                n == c
            },
            ChipKind::Nvme => {
                let c = to_string("nvme");
                let n = to_string(name);
                n == c
            },
        }
    }
}

/// One directory entry of the hwmon root.
#[derive(Clone, Debug)]
pub struct HwmonEntry {
    /// The entry's file name, e.g. `hwmon3`.
    pub file_name: String,
    /// The contents of its `name` file, `None` when it could not be read.
    pub chip_name: Option<String>,
}

/// The entries of `entries` that are chips of kind `kind`, by file name, in
/// directory order.
pub open spec fn selected_names(entries: Seq<HwmonEntry>, kind: ChipKind) -> Seq<Seq<char>>
    decreases entries.len(),
{
    if entries.len() == 0 {
        Seq::empty()
    } else {
        let prev = selected_names(entries.drop_last(), kind);
        let e = entries.last();
        if e.chip_name is Some && chip_matches(kind, spec_trim(e.chip_name->0@)) {
            prev.push(e.file_name@)
        } else {
            prev
        }
    }
}

/// The directories under `root` whose entries in `entries` are chips of
/// kind `kind`, sorted by path. (All of them lie in `root`, so their paths
/// sort as their file names do.)
pub fn find_chips(root: &str, entries: &Vec<HwmonEntry>, kind: ChipKind) -> (r: Vec<String>)
    ensures
        exists|names: Seq<Seq<char>>|
            {
                &&& names.to_multiset() == selected_names(entries@, kind).to_multiset()
                &&& strings_sorted(names)
                &&& names.len() == r@.len()
                &&& forall|i: int| 0 <= i < r@.len() ==> #[trigger] r@[i]@ == spec_join(root@, names[i])
            },
{
    let mut names: Vec<String> = Vec::new();
    let mut i: usize = 0;
    while i < entries.len()
        invariant
            i <= entries.len(),
            views(names@) == selected_names(entries@.take(i as int), kind),
        decreases entries.len() - i,
    {
        assert(entries@.take(i + 1).drop_last() =~= entries@.take(i as int));
        let e = &entries[i];
        if let Some(chip_name) = &e.chip_name {
            let trimmed = trim(chip_name.as_str());
            if kind.matches(trimmed.as_str()) {
                names.push(e.file_name.clone());
                assert(views(names@) =~= selected_names(entries@.take(i as int), kind).push(
                    e.file_name@,
                ));
            }
        }
        i = i + 1;
    }
    assert(entries@.take(entries.len() as int) =~= entries@);
    let sorted = sort_strings(names);
    let mut r: Vec<String> = Vec::new();
    let mut j: usize = 0;
    while j < sorted.len()
        invariant
            j <= sorted.len(),
            r@.len() == j,
            forall|k: int| 0 <= k < j ==> #[trigger] r@[k]@ == spec_join(root@, views(sorted@)[k]),
        decreases sorted.len() - j,
    {
        r.push(join(root, sorted[j].as_str()));
        j = j + 1;
    }
    assert(views(sorted@).len() == r@.len());
    r
}

/// The fan controller: the first, by path, of the chips under `root` whose
/// name starts with `nct67`.
pub fn fan_controller_chip(root: &str, entries: &Vec<HwmonEntry>) -> (r: Result<String, DiscoverError>)
    ensures
        match r {
            Ok(chip) => exists|names: Seq<Seq<char>>|
                {
                    &&& names.to_multiset() == selected_names(entries@, ChipKind::FanController).to_multiset()
                    &&& strings_sorted(names)
                    &&& names.len() > 0
                    &&& chip@ == spec_join(root@, names[0])
                },
            Err(e) => e is NoFanController && selected_names(entries@, ChipKind::FanController).len() == 0,
        },
{
    let chips = find_chips(root, entries, ChipKind::FanController);
    if chips.len() == 0 {
        proof {
            let names = choose|names: Seq<Seq<char>>|
                {
                    &&& names.to_multiset() == selected_names(entries@, ChipKind::FanController).to_multiset()
                    &&& strings_sorted(names)
                    &&& names.len() == chips@.len()
                    &&& forall|i: int| 0 <= i < chips@.len() ==> #[trigger] chips@[i]@ == spec_join(root@, names[i])
                };
            broadcast use vstd::seq_lib::group_to_multiset_ensures;

            assert(names.to_multiset().len() == 0);
        }
        return Err(DiscoverError::NoFanController);
    }
    Ok(chips[0].clone())
}

/// The index of the `\n` that ends the line starting at `i`, or the length.
pub open spec fn line_end(s: Seq<char>, i: int) -> int
    decreases s.len() - i,
{
    if i >= s.len() {
        s.len() as int
    } else if s[i] == '\n' {
        i
    } else {
        line_end(s, i + 1)
    }
}

/// The trimmed rest of the first line, from the one starting at `i` on,
/// that begins with `Model Number:`. (A line's trailing `\r` ends up in
/// the rest, where trimming removes it.)
pub open spec fn model_from_line(s: Seq<char>, i: int) -> Option<Seq<char>>
    decreases s.len() - i,
{
    if i < 0 || i >= s.len() {
        None
    } else {
        let line = s.subrange(i, line_end(s, i));
        if has_prefix(line, "Model Number:"@) {
            Some(spec_trim(line.skip("Model Number:"@.len() as int)))
        } else if line_end(s, i) >= s.len() {
            None
        } else {
            proof {
                lemma_line_end_bounds(s, i);
            }
            model_from_line(s, line_end(s, i) + 1)
        }
    }
}

/// The drive model of an NVMe device: from the output of `smartctl -i`
/// when it ran successfully and names one, else from the trimmed sysfs
/// `model` attribute when that is not empty.
pub open spec fn spec_nvme_model(smartctl: Option<Seq<char>>, sysfs_model: Option<Seq<char>>) -> Option<
    Seq<char>,
> {
    let from_smartctl = match smartctl {
        Some(out) => model_from_line(out, 0),
        None => None,
    };
    match from_smartctl {
        Some(m) => Some(m),
        None => match sysfs_model {
            Some(t) => if spec_trim(t).len() > 0 {
                Some(spec_trim(t))
            } else {
                None
            },
            None => None,
        },
    }
}

/// A line ends at its first `\n`, or at the end of the text.
pub proof fn lemma_line_end_bounds(s: Seq<char>, i: int)
    requires
        0 <= i <= s.len(),
    ensures
        i <= line_end(s, i) <= s.len(),
        line_end(s, i) < s.len() ==> s[line_end(s, i)] == '\n',
        forall|k: int| i <= k < line_end(s, i) ==> s[k] != '\n',
    decreases s.len() - i,
{
    if i < s.len() && s[i] != '\n' {
        lemma_line_end_bounds(s, i + 1);
    }
}

/// The model comes from smartctl whenever its output names one; otherwise,
/// whether or not smartctl ran, from the sysfs attribute, trimmed, when that
/// is readable and not blank; otherwise there is none. A model, when there is
/// one, is never blank from the sysfs side.
pub proof fn lemma_nvme_model_sources(smartctl: Option<Seq<char>>, sysfs_model: Option<Seq<char>>)
    ensures
        smartctl is Some && model_from_line(smartctl->0, 0) is Some ==> spec_nvme_model(
            smartctl,
            sysfs_model,
        ) == model_from_line(smartctl->0, 0),
        (smartctl is None || model_from_line(smartctl->0, 0) is None) && sysfs_model is Some
            && spec_trim(sysfs_model->0).len() > 0 ==> spec_nvme_model(smartctl, sysfs_model) == Some(
            spec_trim(sysfs_model->0),
        ),
        (smartctl is None || model_from_line(smartctl->0, 0) is None) && (sysfs_model is None
            || spec_trim(sysfs_model->0).len() == 0) ==> spec_nvme_model(smartctl, sysfs_model) is None,
        spec_nvme_model(None, sysfs_model) == spec_nvme_model(Some(Seq::<char>::empty()), sysfs_model),
{
}

/// A model found in smartctl output is the trimmed rest of a line of that
/// output that begins with `Model Number:`.
pub proof fn lemma_smartctl_model_is_from_a_line(out: Seq<char>, i: int)
    requires
        0 <= i,
        i == 0 || (i <= out.len() && out[i - 1] == '\n'),
        model_from_line(out, i) is Some,
    ensures
        exists|start: int, end: int|
            0 <= start <= end <= out.len() && (start == 0 || out[start - 1] == '\n') && (end
                == out.len() || out[end] == '\n') && has_prefix(
                out.subrange(start, end),
                "Model Number:"@,
            ) && model_from_line(out, i) == Some(
                spec_trim(out.subrange(start, end).skip("Model Number:"@.len() as int)),
            ),
    decreases out.len() - i,
{
    lemma_line_end_bounds(out, i);
    let e = line_end(out, i);
    if has_prefix(out.subrange(i, e), "Model Number:"@) {
        assert(0 <= i <= e <= out.len());
    } else {
        lemma_smartctl_model_is_from_a_line(out, e + 1);
        let (start, end) = choose|start: int, end: int|
            0 <= start <= end <= out.len() && (start == 0 || out[start - 1] == '\n') && (end
                == out.len() || out[end] == '\n') && has_prefix(
                out.subrange(start, end),
                "Model Number:"@,
            ) && model_from_line(out, e + 1) == Some(
                spec_trim(out.subrange(start, end).skip("Model Number:"@.len() as int)),
            );
        assert(model_from_line(out, i) == model_from_line(out, e + 1));
    }
}

fn model_from_smartctl(out: &str) -> (r: Option<String>)
    ensures
        string_view(r) == model_from_line(out@, 0),
{
    let n = out.unicode_len();
    let mut i: usize = 0;
    while i < n
        invariant
            n == out@.len(),
            i <= n,
            model_from_line(out@, 0) == model_from_line(out@, i as int),
        decreases n - i,
    {
        let mut e: usize = i;
        while e < n && out.get_char(e) != '\n'
            invariant
                n == out@.len(),
                i <= e <= n,
                line_end(out@, i as int) == line_end(out@, e as int),
            decreases n - e,
        {
            e = e + 1;
        }
        let line = out.substring_char(i, e);
        assert(line@ == out@.subrange(i as int, line_end(out@, i as int)));
        if let Some(rest) = strip_prefix(line, "Model Number:") {
            return Some(trim(rest.as_str()));
        }
        if e == n {
            return None;
        }
        i = e + 1;
    }
    None
}

/// The drive model of an NVMe device, from the output of `smartctl -i`
/// (`None` when it did not run successfully) or else from the contents of
/// the sysfs `model` attribute (`None` when it could not be read).
pub fn nvme_model(smartctl: Option<&str>, sysfs_model: Option<&str>) -> (r: Option<String>)
    ensures
        string_view(r) == spec_nvme_model(str_view(smartctl), str_view(sysfs_model)),
{
    if let Some(out) = smartctl {
        if let Some(m) = model_from_smartctl(out) {
            return Some(m);
        }
    }
    match sysfs_model {
        Some(t) => {
            let m = trim(t);
            if m.as_str().unicode_len() > 0 {
                Some(m)
            } else {
                None
            }
        },
        None => None,
    }
}

/// Why the hardware found cannot be controlled.
#[derive(Clone, Copy, Debug)]
pub enum DiscoverError {
    /// No nct67xx chip among the hwmon devices.
    NoFanController,
    /// No CPU package temperature sensor, which fan control needs.
    NoControlSensor,
}

/// All hardware handles the controller needs.
#[derive(Debug)]
pub struct Hardware {
    pub fans: Vec<PwmFan>,
    pub sensors: Vec<TempSensor>,
}

impl Hardware {
    /// The hardware made of `fans` and `sensors`, provided some sensor
    /// feeds the fan curves.
    pub fn assemble(fans: Vec<PwmFan>, sensors: Vec<TempSensor>) -> (r: Result<
        Hardware,
        DiscoverError,
    >)
        ensures
            match r {
                Ok(hw) => hw.fans@ == fans@ && hw.sensors@ == sensors@,
                Err(e) => e is NoControlSensor && forall|i: int| 0 <= i < sensors@.len() ==> !(#[trigger] sensors@[i]).control,
            },
            r is Ok <==> exists|i: int| 0 <= i < sensors@.len() && (#[trigger] sensors@[i]).control,
    {
        let mut i: usize = 0;
        while i < sensors.len()
            invariant
                i <= sensors.len(),
                forall|k: int| 0 <= k < i ==> !(#[trigger] sensors@[k]).control,
            decreases sensors.len() - i,
        {
            if sensors[i].control {
                return Ok(Hardware { fans, sensors });
            }
            i = i + 1;
        }
        Err(DiscoverError::NoControlSensor)
    }

    /// For every fan, in order, the writes that restore it to its startup
    /// automatic control. Used on shutdown and as a failsafe.
    pub fn restore_auto(&self) -> (r: Vec<Vec<SysfsWrite>>)
        ensures
            r@.len() == self.fans@.len(),
            forall|i: int| 0 <= i < r@.len() ==> are_auto_writes((#[trigger] r@[i])@, self.fans@[i]),
    {
        let mut r: Vec<Vec<SysfsWrite>> = Vec::new();
        let mut i: usize = 0;
        while i < self.fans.len()
            invariant
                i <= self.fans.len(),
                r@.len() == i,
                forall|k: int| 0 <= k < i ==> are_auto_writes((#[trigger] r@[k])@, self.fans@[k]),
            decreases self.fans.len() - i,
        {
            r.push(self.fans[i].auto_writes());
            i = i + 1;
        }
        r
    }
}

/// The file of a Smart Fan IV curve point of the fan whose duty file is
/// `pwm`: `{pwm}_auto_point{point}{suffix}`.
pub open spec fn auto_point_file(pwm: Seq<char>, point: nat, suffix: Seq<char>) -> Seq<char> {
    pwm + "_auto_point"@ + decimal(point) + suffix
}

fn auto_point_name(pwm: &String, point: usize, suffix: &str) -> (r: String)
    ensures
        r@ == auto_point_file(pwm@, point as nat, suffix@),
{
    let mut r = pwm.clone();
    r.append("_auto_point");
    push_decimal(&mut r, point as u64);
    r.append(suffix);
    assert(r@ =~= auto_point_file(pwm@, point as nat, suffix@));
    r
}

impl PwmFan {
    /// The duty file of Smart Fan IV curve point `point` (1-based); the
    /// chip offers as many points as such files exist.
    pub fn auto_point_pwm_file(&self, point: usize) -> (r: String)
        ensures
            r@ == auto_point_file(self.pwm@, point as nat, "_pwm"@),
    {
        auto_point_name(&self.pwm, point, "_pwm")
    }

    /// The temperature file of Smart Fan IV curve point `point` (1-based).
    pub fn auto_point_temp_file(&self, point: usize) -> (r: String)
        ensures
            r@ == auto_point_file(self.pwm@, point as nat, "_temp"@),
    {
        auto_point_name(&self.pwm, point, "_temp")
    }

    /// The writes that set the Smart Fan IV curve points to `points`
    /// (temperature in millidegrees, raw duty): point `k + 1` gets its
    /// temperature, then its duty.
    pub fn point_writes(&self, points: &Vec<(i64, u32)>) -> (r: Vec<SysfsWrite>)
        ensures
            are_point_writes(r@, self.pwm@, points@),
    {
        let mut r: Vec<SysfsWrite> = Vec::new();
        let mut k: usize = 0;
        while k < points.len()
            invariant
                k <= points@.len(),
                are_point_writes(r@, self.pwm@, points@.take(k as int)),
            decreases points.len() - k,
        {
            let (temp, raw) = points[k];
            let ghost old_r = r@;
            r.push(SysfsWrite {
                path: auto_point_name(&self.pwm, k + 1, "_temp"),
                contents: signed_decimal_string(temp),
            });
            r.push(SysfsWrite {
                path: auto_point_name(&self.pwm, k + 1, "_pwm"),
                contents: decimal_string(raw as u64),
            });
            proof {
                let taken = points@.take(k + 1);
                assert forall|j: int| 0 <= j < taken.len() implies is_point_write_pair(
                    r@,
                    self.pwm@,
                    taken,
                    j,
                ) by {
                    if j < k {
                        assert(r@[2 * j] == old_r[2 * j] && r@[2 * j + 1] == old_r[2 * j + 1]);
                        assert(taken[j] == points@.take(k as int)[j]);
                        assert(is_point_write_pair(old_r, self.pwm@, points@.take(k as int), j));
                    }
                }
            }
            k = k + 1;
        }
        assert(points@.take(points.len() as int) =~= points@);
        r
    }

    /// The writes that program the Smart Fan IV curve `points` and hand the
    /// fan to the engine: the point writes, then `SMART_FAN_IV` to the enable file.
    pub fn hardware_curve_writes(&self, points: &Vec<(i64, u32)>) -> (r: Vec<SysfsWrite>)
        ensures
            r@.len() == 2 * points@.len() + 1,
            are_point_writes(r@.take(2 * points@.len() as int), self.pwm@, points@),
            r@[2 * points@.len() as int].path == self.enable,
            r@[2 * points@.len() as int].contents@ == decimal(SMART_FAN_IV as nat),
    {
        let mut r = self.point_writes(points);
        let ghost before = r@;
        r.push(SysfsWrite {
            path: self.enable.clone(),
            contents: decimal_string(SMART_FAN_IV as u64),
        });
        assert(r@.take(2 * points@.len() as int) =~= before);
        r
    }

    /// The writes that return the fan to the automatic control it had at
    /// startup: the Smart Fan IV points seen then, and last the enable
    /// value seen then (`set_auto`).
    pub fn auto_writes(&self) -> (r: Vec<SysfsWrite>)
        ensures
            are_auto_writes(r@, *self),
    {
        let mut r = self.point_writes(&self.original_points);
        let ghost before = r@;
        r.push(self.set_auto());
        assert(r@.take(2 * self.original_points@.len() as int) =~= before);
        r
    }
}

/// Point `k` of `points` is written by `w[2k]` (its temperature) and
/// `w[2k + 1]` (its duty).
pub open spec fn is_point_write_pair(w: Seq<SysfsWrite>, pwm: Seq<char>, points: Seq<(i64, u32)>, k: int) -> bool {
    &&& w[2 * k].path@ == auto_point_file(pwm, (k + 1) as nat, "_temp"@)
    &&& w[2 * k].contents@ == signed_decimal(points[k].0 as int)
    &&& w[2 * k + 1].path@ == auto_point_file(pwm, (k + 1) as nat, "_pwm"@)
    &&& w[2 * k + 1].contents@ == decimal(points[k].1 as nat)
}

/// `w` are exactly the writes that set the curve points of the fan with
/// duty file `pwm` to `points`, in order.
pub open spec fn are_point_writes(w: Seq<SysfsWrite>, pwm: Seq<char>, points: Seq<(i64, u32)>) -> bool {
    &&& w.len() == 2 * points.len()
    &&& forall|k: int| 0 <= k < points.len() ==> #[trigger] is_point_write_pair(w, pwm, points, k)
}

/// `w` are exactly the writes that return `fan` to its startup automatic
/// control: its startup points, then its startup enable value.
pub open spec fn are_auto_writes(w: Seq<SysfsWrite>, fan: PwmFan) -> bool {
    let n = 2 * fan.original_points@.len();
    &&& w.len() == n + 1
    &&& are_point_writes(w.take(n as int), fan.pwm@, fan.original_points@)
    &&& w[n as int].path == fan.enable
    &&& w[n as int].contents@ == decimal(fan.original_enable as nat)
}

/// Signs and digits carry no white space, so trimming leaves a signed
/// decimal alone.
proof fn lemma_trim_signed_decimal(v: int)
    ensures
        spec_trim(signed_decimal(v)) == signed_decimal(v),
{
    let s = signed_decimal(v);
    if v < 0 {
        lemma_decimal_digits((-v) as nat);
        let d = decimal((-v) as nat);
        assert(s.last() == d.last());
        assert(!is_white_space(d.last()));
    } else {
        lemma_decimal_digits(v as nat);
        assert(!is_white_space(s.last()));
        assert(!is_white_space(s[0]));
    }
    assert(!is_white_space(s[0]));
    assert(trim_start(s) == s);
}

/// The point writes for `points` set, in order, each point's temperature
/// file and duty file, and what each file is given reads back as the
/// point's temperature (millidegrees) and duty.
pub proof fn lemma_point_writes_read_back(w: Seq<SysfsWrite>, pwm: Seq<char>, points: Seq<(i64, u32)>)
    requires
        are_point_writes(w, pwm, points),
    ensures
        w.len() == 2 * points.len(),
        forall|k: int|
            0 <= k < points.len() ==> (#[trigger] w[2 * k]).path@ == auto_point_file(pwm, (k + 1) as nat, "_temp"@)
                && spec_read_milli(w[2 * k].path, w[2 * k].contents@) == Ok::<i64, SysfsError>(points[k].0)
                && w[2 * k + 1].path@ == auto_point_file(pwm, (k + 1) as nat, "_pwm"@)
                && spec_read_u32(w[2 * k + 1].path, w[2 * k + 1].contents@) == Ok::<u32, SysfsError>(points[k].1),
{
    assert forall|k: int| 0 <= k < points.len() implies (#[trigger] w[2 * k]).path@ == auto_point_file(
        pwm,
        (k + 1) as nat,
        "_temp"@,
    ) && spec_read_milli(w[2 * k].path, w[2 * k].contents@) == Ok::<i64, SysfsError>(points[k].0)
        && w[2 * k + 1].path@ == auto_point_file(pwm, (k + 1) as nat, "_pwm"@) && spec_read_u32(
        w[2 * k + 1].path,
        w[2 * k + 1].contents@,
    ) == Ok::<u32, SysfsError>(points[k].1) by {
        assert(is_point_write_pair(w, pwm, points, k));
        lemma_trim_signed_decimal(points[k].0 as int);
        lemma_parse_i64_signed_decimal(points[k].0);
        lemma_trim_decimal(points[k].1 as nat);
        lemma_parse_u32_decimal(points[k].1);
    }
}

/// Returning a fan to automatic control rewrites every curve point seen at
/// startup, each reading back as it was then, and last the enable file,
/// reading back as the enable value seen at startup.
pub proof fn lemma_auto_writes_restore_startup(w: Seq<SysfsWrite>, fan: PwmFan)
    requires
        are_auto_writes(w, fan),
    ensures
        w.len() == 2 * fan.original_points@.len() + 1,
        forall|k: int|
            0 <= k < fan.original_points@.len() ==> (#[trigger] w[2 * k]).path@ == auto_point_file(
                fan.pwm@,
                (k + 1) as nat,
                "_temp"@,
            ) && spec_read_milli(w[2 * k].path, w[2 * k].contents@) == Ok::<i64, SysfsError>(
                fan.original_points@[k].0,
            ) && w[2 * k + 1].path@ == auto_point_file(fan.pwm@, (k + 1) as nat, "_pwm"@)
                && spec_read_u32(w[2 * k + 1].path, w[2 * k + 1].contents@) == Ok::<u32, SysfsError>(
                fan.original_points@[k].1,
            ),
        w[2 * fan.original_points@.len() as int].path == fan.enable,
        spec_read_u32(
            w[2 * fan.original_points@.len() as int].path,
            w[2 * fan.original_points@.len() as int].contents@,
        ) == Ok::<u32, SysfsError>(fan.original_enable),
{
    let n = 2 * fan.original_points@.len();
    let pw = w.take(n as int);
    lemma_point_writes_read_back(pw, fan.pwm@, fan.original_points@);
    assert forall|k: int| 0 <= k < fan.original_points@.len() implies (#[trigger] w[2 * k]) == pw[2 * k]
        && w[2 * k + 1] == pw[2 * k + 1] by {}
    lemma_trim_decimal(fan.original_enable as nat);
    lemma_parse_u32_decimal(fan.original_enable);
}

/// Decimal digits carry no white space, so trimming leaves them alone.
proof fn lemma_trim_decimal(n: nat)
    ensures
        spec_trim(decimal(n)) == decimal(n),
{
    let d = decimal(n);
    lemma_decimal_digits(n);
    assert(!is_white_space(d[0]));
    assert(!is_white_space(d.last()));
    assert(trim_start(d) == d);
}

/// What `set_pwm_raw` writes, `pwm_raw` reads back.
pub proof fn lemma_pwm_raw_reads_back(fan: PwmFan, value: u8)
    ensures
        spec_read_u32(fan.pwm, decimal(value as nat)) == Ok::<u32, SysfsError>(value as u32),
{
    lemma_trim_decimal(value as nat);
    lemma_parse_u32_decimal(value as u32);
}

/// What `set_auto` writes, `enable_value` reads back: the enable value seen
/// at startup.
pub proof fn lemma_enable_reads_back(fan: PwmFan)
    ensures
        spec_read_u32(fan.enable, decimal(fan.original_enable as nat)) == Ok::<u32, SysfsError>(
            fan.original_enable,
        ),
{
    lemma_trim_decimal(fan.original_enable as nat);
    lemma_parse_u32_decimal(fan.original_enable);
}

} // verus!
