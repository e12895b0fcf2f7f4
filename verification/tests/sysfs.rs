use std::path::Path;

use tuxedo_driver::number::{decimal_text, parse_u32};
use tuxedo_driver::sysfs::{
    bool_word, choose_charging_profile, ensure_available, label_for, line_of, read_bool,
    set_charging_profile, sysfs, AC_AUTO_BOOT, BRIGHTNESS, CHARGING_PROFILE,
    CHARGING_PROFILES_AVAILABLE, FN_LOCK, MAX_BRIGHTNESS, TUXEDO_KEYBOARD, USB_POWERSHARE,
};
use tuxedo_driver::text::trim;

#[test]
fn paths_below_the_directory() {
    assert_eq!(sysfs(FN_LOCK), "/sys/devices/platform/tuxedo_keyboard/fn_lock");
    for relative in ["", "a", "a/b", "/etc", "./a", "a/"] {
        let expected = Path::new(TUXEDO_KEYBOARD).join(relative);
        assert_eq!(sysfs(relative), expected.to_str().unwrap());
    }
}

#[test]
fn attributes_have_paths_of_their_own() {
    let attributes = [
        CHARGING_PROFILE,
        CHARGING_PROFILES_AVAILABLE,
        BRIGHTNESS,
        MAX_BRIGHTNESS,
        FN_LOCK,
        AC_AUTO_BOOT,
        USB_POWERSHARE,
    ];
    for (i, attribute) in attributes.iter().enumerate() {
        assert!(attributes[..i].iter().all(|other| sysfs(other) != sysfs(attribute)));
    }
}

#[test]
fn labels_are_file_names() {
    let paths = [
        "", ".", "..", "/", "//", "/.", "/..", "a", "a/", "a//", "a/.", "a/./", "a/..", "a/../b",
        "./a", "./.", "../a", "a/b", "/a/b/", "a/...", "...", ".a", "a.", "a/b/./.", "a/b/.//",
        "a//b", "caf\u{e9}/\u{1f600}",
    ];
    for path in paths {
        let expected = match Path::new(path).file_name() {
            Some(name) => name.to_str().unwrap(),
            None => "value",
        };
        assert_eq!(label_for(path), expected, "{path:?}");
        assert!(!label_for(path).is_empty() && !label_for(path).contains('/'));
    }
    assert_eq!(label_for(&sysfs(FN_LOCK)), "fn_lock");
    assert_eq!(label_for(&sysfs(AC_AUTO_BOOT)), "ac_auto_boot");
    assert_eq!(label_for(&sysfs(USB_POWERSHARE)), "usb_powershare");
}

#[test]
fn missing_paths_are_named() {
    assert_eq!(ensure_available("/a", true), Ok(()));
    let missing = ensure_available("/a/b", false).unwrap_err();
    assert_eq!(missing.path, "/a/b");
    assert_eq!(missing.message(), "/a/b is not available");
}

#[test]
fn switches() {
    assert_eq!(bool_word(true), "on");
    assert_eq!(bool_word(false), "off");
    assert!(read_bool("1\n"));
    assert!(read_bool("1"));
    assert!(!read_bool("0\n"));
    assert!(!read_bool("11"));
    assert!(!read_bool("on"));
    assert!(!read_bool(""));
}

#[test]
fn values_read_back() {
    assert!(read_bool(&line_of("1")));
    assert!(!read_bool(&line_of("0")));
    for value in [0, 1, 2, 255, u32::MAX] {
        let line = line_of(&decimal_text(u64::from(value)));
        assert_eq!(parse_u32(trim(&line)), Ok(value));
    }
    assert_eq!(trim(&line_of("stationary")), "stationary");
}

#[test]
fn configured_charging_profile() {
    let list = "high_capacity balanced stationary\n";
    let path = "/sys/devices/platform/tuxedo_keyboard/charging_profile/charging_profile";
    assert_eq!(
        set_charging_profile("balanced", list),
        Ok((path.to_owned(), "balanced\n".to_owned()))
    );
    assert_eq!(
        set_charging_profile(" balanced", list),
        Err(
            " balanced is not in available charging profiles: high_capacity balanced stationary"
                .to_owned()
        )
    );
    assert_eq!(
        set_charging_profile("", list),
        Err(
            " is not in available charging profiles: high_capacity balanced stationary".to_owned()
        )
    );
}

#[test]
fn requested_charging_profile() {
    let list = "high_capacity balanced stationary\n";
    let path = "/sys/devices/platform/tuxedo_keyboard/charging_profile/charging_profile";
    assert_eq!(
        choose_charging_profile("stationary", list),
        Ok((path.to_owned(), "stationary\n".to_owned()))
    );
    assert_eq!(
        choose_charging_profile("fast", list),
        Err("fast is not in available profiles: high_capacity balanced stationary".to_owned())
    );
}
