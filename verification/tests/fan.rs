use tuxedo_driver::fan::{
    apply_hw_limit, curve_speed, next_target, p, percent_to_raw, raw_to_percent,
    target_speed_for_temp, FanPoint, FanPreset,
};

const PRESETS: [FanPreset; 5] = [
    FanPreset::Silent,
    FanPreset::Quiet,
    FanPreset::Balanced,
    FanPreset::Cool,
    FanPreset::Freezy,
];

#[test]
fn raw_to_percent_agrees_with_floating_point() {
    let in_float = |raw: i32| ((raw as f64 * 100.0 / 200.0).round()).clamp(0.0, 100.0) as u8;
    for raw in -1000..=1000 {
        assert_eq!(raw_to_percent(raw), in_float(raw), "{raw}");
    }
    for raw in [i32::MIN, i32::MIN + 1, i32::MAX - 1, i32::MAX] {
        assert_eq!(raw_to_percent(raw), in_float(raw), "{raw}");
    }
}

#[test]
fn percent_to_raw_agrees_with_floating_point() {
    for percent in 0..=u8::MAX {
        let in_float = (200.0_f64 * percent as f64 / 100.0).round() as i32;
        assert_eq!(percent_to_raw(percent), in_float, "{percent}");
    }
}

#[test]
fn scale_on_single_values() {
    assert_eq!(raw_to_percent(0), 0);
    assert_eq!(raw_to_percent(1), 1);
    assert_eq!(raw_to_percent(70), 35);
    assert_eq!(raw_to_percent(199), 100);
    assert_eq!(raw_to_percent(200), 100);
    assert_eq!(raw_to_percent(-1), 0);
    assert_eq!(percent_to_raw(0), 0);
    assert_eq!(percent_to_raw(35), 70);
    assert_eq!(percent_to_raw(100), 200);
}

#[test]
fn percentages_read_back() {
    for percent in 0..=u8::MAX {
        assert_eq!(raw_to_percent(percent_to_raw(percent)), percent.min(100));
    }
    for raw in 0..=200 {
        let back = percent_to_raw(raw_to_percent(raw));
        assert!(raw <= back && back <= raw + 1);
    }
}

#[test]
fn preset_names() {
    let names: Vec<&str> = PRESETS.iter().map(|preset| preset.name()).collect();
    assert_eq!(names, ["silent", "quiet", "balanced", "cool", "freezy"]);
}

#[test]
fn preset_curves() {
    let lengths: Vec<usize> = PRESETS.iter().map(|preset| preset.curve().len()).collect();
    assert_eq!(lengths, [18, 25, 26, 26, 17]);
    assert_eq!(FanPreset::Silent.curve()[0], p(60, 0));
    assert_eq!(FanPreset::Silent.curve()[1], p(65, 20));
    assert_eq!(FanPreset::Silent.curve()[12], p(88, 75));
    assert_eq!(FanPreset::Quiet.curve()[0], p(50, 0));
    assert_eq!(FanPreset::Quiet.curve()[9], p(71, 37));
    assert_eq!(FanPreset::Balanced.curve()[0], p(45, 0));
    assert_eq!(FanPreset::Balanced.curve()[14], p(74, 53));
    assert_eq!(FanPreset::Cool.curve()[0], p(39, 0));
    assert_eq!(FanPreset::Cool.curve()[23], p(89, 90));
    assert_eq!(FanPreset::Freezy.curve()[0], p(29, 20));
    assert_eq!(FanPreset::Freezy.curve()[9], p(77, 65));
    for preset in PRESETS {
        assert_eq!(preset.curve().last(), Some(&p(100, 100)));
    }
}

#[test]
fn presets_ascend() {
    for preset in PRESETS {
        for pair in preset.curve().windows(2) {
            assert!(pair[0].temp <= pair[1].temp && pair[0].speed <= pair[1].speed);
        }
        for temp in 95..=120 {
            assert_eq!(curve_speed(&preset.curve(), temp), 100);
        }
    }
}

#[test]
fn curve_speed_takes_the_first_point_that_reaches() {
    let curve = [p(40, 10), p(50, 20), p(60, 200)];
    assert_eq!(curve_speed(&curve, i32::MIN), 10);
    assert_eq!(curve_speed(&curve, 40), 10);
    assert_eq!(curve_speed(&curve, 41), 20);
    assert_eq!(curve_speed(&curve, 50), 20);
    assert_eq!(curve_speed(&curve, 51), 100);
    assert_eq!(curve_speed(&curve, 61), 100);
    assert_eq!(curve_speed(&[], 50), 0);
    assert_eq!(curve_speed(&[p(40, 30)], 90), 30);
    assert_eq!(curve_speed(&[p(60, 30), p(40, 10)], 50), 30);
}

#[test]
fn hw_limit() {
    assert_eq!(apply_hw_limit(50, 30, true), 50);
    assert_eq!(apply_hw_limit(30, 30, false), 30);
    assert_eq!(apply_hw_limit(29, 30, true), 30);
    assert_eq!(apply_hw_limit(15, 30, true), 30);
    assert_eq!(apply_hw_limit(14, 30, true), 0);
    assert_eq!(apply_hw_limit(15, 30, false), 30);
    assert_eq!(apply_hw_limit(14, 30, false), 14);
    assert_eq!(apply_hw_limit(0, 0, true), 0);
    assert_eq!(apply_hw_limit(12, 25, true), 25);
    assert_eq!(apply_hw_limit(11, 25, true), 0);
}

#[test]
fn hw_limit_outcomes_and_order() {
    for min_speed in 0..=100 {
        for off in [false, true] {
            let mut previous = 0;
            for speed in 0..=100 {
                let limited = apply_hw_limit(speed, min_speed, off);
                assert!(limited == speed || limited == min_speed || limited == 0);
                assert!(!off || limited == 0 || limited >= min_speed);
                assert!(limited >= previous);
                previous = limited;
            }
        }
    }
}

#[test]
fn target_speed_combines_curve_and_limit() {
    let curve = FanPreset::Silent.curve();
    assert_eq!(target_speed_for_temp(55, 25, true, &curve), 0);
    assert_eq!(target_speed_for_temp(65, 25, true, &curve), 25);
    assert_eq!(target_speed_for_temp(75, 25, true, &curve), 40);
    assert_eq!(target_speed_for_temp(150, 25, true, &curve), 100);
}

#[test]
fn targets_ascend_with_temperature() {
    for preset in PRESETS {
        let curve = preset.curve();
        for off in [false, true] {
            let mut previous = 0;
            for temp in 0..=120 {
                let target = target_speed_for_temp(temp, 25, off, &curve);
                assert!(previous <= target && target <= 100);
                previous = target;
            }
        }
    }
}

#[test]
fn ascending_speeds_are_enough() {
    let curve = [p(70, 10), p(40, 20), p(90, 30), p(60, 200)];
    let mut previous = 0;
    for temp in 0..=120 {
        let speed = curve_speed(&curve, temp);
        let target = target_speed_for_temp(temp, 0, false, &curve);
        assert!(previous <= speed && target == speed);
        previous = speed;
    }
    assert_eq!(previous, 100);
}

#[test]
fn hysteresis_holds_and_releases() {
    let curve: [FanPoint; 3] = [p(60, 20), p(70, 40), p(80, 60)];
    assert_eq!(next_target(None, 65, 5, 0, false, &curve), 40);
    assert_eq!(next_target(Some(60), 68, 5, 0, false, &curve), 60);
    assert_eq!(next_target(Some(60), 66, 5, 0, false, &curve), 60);
    assert_eq!(next_target(Some(60), 65, 5, 0, false, &curve), 40);
    assert_eq!(next_target(Some(60), 68, 0, 0, false, &curve), 40);
    assert_eq!(next_target(Some(60), 68, -5, 0, false, &curve), 40);
    assert_eq!(next_target(Some(20), 75, 5, 0, false, &curve), 60);
    assert_eq!(next_target(Some(40), 65, 5, 0, false, &curve), 40);
}

#[test]
fn hysteresis_saturates() {
    let curve = [p(60, 20), p(i32::MAX, 40)];
    assert_eq!(next_target(Some(50), i32::MAX, 5, 0, false, &curve), 40);
    assert_eq!(next_target(Some(40), 0, i32::MAX, 0, false, &curve), 40);
}

#[test]
fn hysteresis_on_the_presets() {
    for preset in PRESETS {
        let curve = preset.curve();
        for before in 20..=110 {
            let speed = target_speed_for_temp(before, 25, true, &curve);
            for temp in before - 5..=before {
                assert_eq!(next_target(Some(speed), temp, 5, 25, true, &curve), speed);
            }
        }
        for temp in 20..=110 {
            for previous in 0..=100 {
                let target = target_speed_for_temp(temp, 25, true, &curve);
                let next = next_target(Some(previous), temp, 5, 25, true, &curve);
                assert!(next >= target && (next == target || next == previous));
            }
        }
    }
}
