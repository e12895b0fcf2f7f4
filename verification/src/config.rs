//! The daemon's settings.

use vstd::prelude::*;

use crate::fan::{preset_curve, FanPoint, FanPreset};
use crate::profile::PerformanceProfile;

verus! {

/// How the fans are run.
#[derive(Debug, PartialEq, Eq)]
pub struct FanConfig {
    /// Whether the daemon runs the fans at all.
    pub enabled: bool,
    /// The time between two looks at the temperature, in milliseconds.
    pub interval_ms: u64,
    /// By how many degrees a fall in temperature has to exceed what a lower speed asks for.
    pub hysteresis_c: i32,
    /// The curve to follow where no other is given.
    pub preset: FanPreset,
    /// A curve in place of the preset.
    pub curve: Option<Vec<FanPoint>>,
}

/// The settings that the daemon applies when it starts.
#[derive(Debug, PartialEq, Eq)]
pub struct Config {
    pub profile: Option<PerformanceProfile>,
    pub charging_profile: Option<String>,
    pub ac_auto_boot: Option<bool>,
    pub usb_powershare: Option<bool>,
    pub fn_lock: Option<bool>,
    pub fan: FanConfig,
}

/// Fan control is off unless it is asked for.
pub fn default_fan_enabled() -> (enabled: bool)
    ensures
        !enabled,
{
    false
}

/// One second.
pub fn default_interval_ms() -> (interval_ms: u64)
    ensures
        interval_ms == 1_000,
{
    1_000
}

/// Five degrees.
pub fn default_hysteresis_c() -> (hysteresis_c: i32)
    ensures
        hysteresis_c == 5,
{
    5
}

/// The silent preset.
pub fn default_preset() -> (preset: FanPreset)
    ensures
        preset == FanPreset::Silent,
{
    FanPreset::Silent
}

/// The fan settings where nothing is configured.
pub open spec fn default_fan_config() -> FanConfig {
    FanConfig {
        enabled: false,
        interval_ms: 1_000,
        hysteresis_c: 5,
        preset: FanPreset::Silent,
        curve: None,
    }
}

/// The settings where nothing is configured.
pub open spec fn default_config() -> Config {
    Config {
        profile: None,
        charging_profile: None,
        ac_auto_boot: None,
        usb_powershare: None,
        fn_lock: None,
        fan: default_fan_config(),
    }
}

impl Default for FanConfig {
    fn default() -> (config: Self)
        ensures
            config == default_fan_config(),
    {
        FanConfig {
            enabled: default_fan_enabled(),
            interval_ms: default_interval_ms(),
            hysteresis_c: default_hysteresis_c(),
            preset: default_preset(),
            curve: None,
        }
    }
}

impl Default for Config {
    fn default() -> (config: Self)
        ensures
            config == default_config(),
    {
        Config {
            profile: None,
            charging_profile: None,
            ac_auto_boot: None,
            usb_powershare: None,
            fn_lock: None,
            fan: FanConfig::default(),
        }
    }
}

/// What a configuration file says about the fans. What it leaves out is `None`.
#[derive(Debug, PartialEq, Eq)]
pub struct FanSection {
    pub enabled: Option<bool>,
    pub interval_ms: Option<u64>,
    pub hysteresis_c: Option<i32>,
    pub preset: Option<FanPreset>,
    pub curve: Option<Vec<FanPoint>>,
}

/// What a configuration file says. What it leaves out is `None`.
#[derive(Debug, PartialEq, Eq)]
pub struct ConfigFile {
    pub profile: Option<PerformanceProfile>,
    pub charging_profile: Option<String>,
    pub ac_auto_boot: Option<bool>,
    pub usb_powershare: Option<bool>,
    pub fn_lock: Option<bool>,
    pub fan: Option<FanSection>,
}

/// The value that is given, or else the other one.
pub open spec fn given_or<T>(given: Option<T>, other: T) -> T {
    match given {
        Some(value) => value,
        None => other,
    }
}

/// The fan settings that a section of a file stands for.
pub open spec fn section_settings(section: FanSection) -> FanConfig {
    FanConfig {
        enabled: given_or(section.enabled, false),
        interval_ms: given_or(section.interval_ms, 1_000),
        hysteresis_c: given_or(section.hysteresis_c, 5),
        preset: given_or(section.preset, FanPreset::Silent),
        curve: section.curve,
    }
}

/// The settings that a file stands for: what it says, and the defaults for what it leaves out.
pub open spec fn file_settings(file: ConfigFile) -> Config {
    Config {
        profile: file.profile,
        charging_profile: file.charging_profile,
        ac_auto_boot: file.ac_auto_boot,
        usb_powershare: file.usb_powershare,
        fn_lock: file.fn_lock,
        fan: match file.fan {
            Some(section) => section_settings(section),
            None => default_fan_config(),
        },
    }
}

impl FanSection {
    /// The fan settings that the section stands for.
    pub fn settings(self) -> (config: FanConfig)
        ensures
            config == section_settings(self),
    {
        FanConfig {
            enabled: match self.enabled {
                Some(enabled) => enabled,
                None => default_fan_enabled(),
            },
            interval_ms: match self.interval_ms {
                Some(interval_ms) => interval_ms,
                None => default_interval_ms(),
            },
            hysteresis_c: match self.hysteresis_c {
                Some(hysteresis_c) => hysteresis_c,
                None => default_hysteresis_c(),
            },
            preset: match self.preset {
                Some(preset) => preset,
                None => default_preset(),
            },
            curve: self.curve,
        }
    }
}

impl ConfigFile {
    /// The settings that the file stands for.
    pub fn settings(self) -> (config: Config)
        ensures
            config == file_settings(self),
    {
        Config {
            profile: self.profile,
            charging_profile: self.charging_profile,
            ac_auto_boot: self.ac_auto_boot,
            usb_powershare: self.usb_powershare,
            fn_lock: self.fn_lock,
            fan: match self.fan {
                Some(section) => section.settings(),
                None => FanConfig::default(),
            },
        }
    }
}

/// A file that leaves everything out, with or without an empty section for the fans.
pub open spec fn says_nothing(file: ConfigFile) -> bool {
    &&& file.profile is None
    &&& file.charging_profile is None
    &&& file.ac_auto_boot is None
    &&& file.usb_powershare is None
    &&& file.fn_lock is None
    &&& file.fan matches Some(section) ==> {
        &&& section.enabled is None
        &&& section.interval_ms is None
        &&& section.hysteresis_c is None
        &&& section.preset is None
        &&& section.curve is None
    }
}

/// A file that leaves everything out stands for the default settings.
pub proof fn law_empty_file_is_default(file: ConfigFile)
    requires
        says_nothing(file),
    ensures
        file_settings(file) == default_config(),
{
}

/// The curve that the settings select: their own one, or else the preset's.
pub open spec fn configured_curve(config: FanConfig) -> Seq<FanPoint> {
    match config.curve {
        Some(curve) => curve@,
        None => preset_curve(config.preset),
    }
}

/// The curve that the settings select.
pub fn selected_curve(config: &FanConfig) -> (curve: Vec<FanPoint>)
    ensures
        curve@ == configured_curve(*config),
{
    match &config.curve {
        Some(points) => {
            let mut curve: Vec<FanPoint> = Vec::new();
            for i in 0..points.len()
                invariant
                    curve@ == points@.take(i as int),
            {
                curve.push(points[i]);
                assert(curve@ == points@.take(i + 1));
            }
            curve
        },
        None => config.preset.curve(),
    }
}

/// A setting that a file gives is the setting in use.
pub proof fn law_given_settings_are_used(file: ConfigFile)
    ensures
        ({
            let config = file_settings(file);
            &&& config.profile == file.profile
            &&& config.charging_profile == file.charging_profile
            &&& config.ac_auto_boot == file.ac_auto_boot
            &&& config.usb_powershare == file.usb_powershare
            &&& config.fn_lock == file.fn_lock
            &&& file.fan matches Some(section) ==> {
                &&& section.enabled matches Some(enabled) ==> config.fan.enabled == enabled
                &&& section.interval_ms matches Some(millis) ==> config.fan.interval_ms == millis
                &&& section.hysteresis_c matches Some(degrees) ==> config.fan.hysteresis_c
                    == degrees
                &&& section.preset matches Some(preset) ==> config.fan.preset == preset
                &&& config.fan.curve == section.curve
            }
        }),
{
}

/// A fan setting that a file leaves out has its default, whatever else the file gives: no fan
/// control, one second, five degrees, the silent preset and no curve of its own.
pub proof fn law_missing_settings_are_defaults(file: ConfigFile)
    ensures
        ({
            let fan = file_settings(file).fan;
            let given = file.fan;
            &&& given is None || given->0.enabled is None ==> !fan.enabled
            &&& given is None || given->0.interval_ms is None ==> fan.interval_ms == 1_000
            &&& given is None || given->0.hysteresis_c is None ==> fan.hysteresis_c == 5
            &&& given is None || given->0.preset is None ==> fan.preset == FanPreset::Silent
            &&& given is None || given->0.curve is None ==> fan.curve is None
        }),
{
}

/// A curve of its own is the one that is followed; without it, the preset's is.
pub proof fn law_own_curve_goes_first(config: FanConfig, curve: Vec<FanPoint>)
    ensures
        config.curve == Some(curve) ==> configured_curve(config) == curve@,
        config.curve is None ==> configured_curve(config) == preset_curve(config.preset),
{
}

} // verus!
