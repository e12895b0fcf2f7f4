use tuxedo_driver::config::{
    default_fan_enabled, default_hysteresis_c, default_interval_ms, default_preset, selected_curve,
    Config, FanConfig, FanSection,
};
use tuxedo_driver::fan::{p, FanPreset};

#[test]
fn defaults() {
    assert!(!default_fan_enabled());
    assert_eq!(default_interval_ms(), 1_000);
    assert_eq!(default_hysteresis_c(), 5);
    assert_eq!(default_preset(), FanPreset::Silent);
    let config = Config::default();
    assert_eq!(config.profile, None);
    assert_eq!(config.charging_profile, None);
    assert_eq!(config.ac_auto_boot, None);
    assert_eq!(config.usb_powershare, None);
    assert_eq!(config.fn_lock, None);
    assert_eq!(config.fan, FanConfig::default());
    assert_eq!(
        config.fan,
        FanConfig {
            enabled: false,
            interval_ms: 1_000,
            hysteresis_c: 5,
            preset: FanPreset::Silent,
            curve: None,
        }
    );
}

#[test]
fn a_section_is_filled_up_with_defaults() {
    let section = || FanSection {
        enabled: None,
        interval_ms: None,
        hysteresis_c: None,
        preset: None,
        curve: None,
    };
    assert_eq!(section().settings(), FanConfig::default());
    let mut enabled = section();
    enabled.enabled = Some(true);
    enabled.hysteresis_c = Some(-1);
    assert_eq!(
        enabled.settings(),
        FanConfig {
            enabled: true,
            hysteresis_c: -1,
            ..FanConfig::default()
        }
    );
    let full = FanSection {
        enabled: Some(false),
        interval_ms: Some(7),
        hysteresis_c: Some(0),
        preset: Some(FanPreset::Cool),
        curve: Some(vec![p(50, 10)]),
    };
    assert_eq!(
        full.settings(),
        FanConfig {
            enabled: false,
            interval_ms: 7,
            hysteresis_c: 0,
            preset: FanPreset::Cool,
            curve: Some(vec![p(50, 10)]),
        }
    );
}

#[test]
fn a_curve_replaces_the_preset() {
    let mut config = FanConfig::default();
    assert_eq!(selected_curve(&config), FanPreset::Silent.curve());
    config.preset = FanPreset::Cool;
    assert_eq!(selected_curve(&config), FanPreset::Cool.curve());
    config.curve = Some(vec![p(50, 10), p(90, 100)]);
    assert_eq!(selected_curve(&config), vec![p(50, 10), p(90, 100)]);
    config.curve = Some(Vec::new());
    assert_eq!(selected_curve(&config), Vec::new());
}
