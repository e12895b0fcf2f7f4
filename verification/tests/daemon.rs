use tuxedo_driver::config::{Config, ConfigFile};
use tuxedo_driver::daemon::{
    apply_startup_settings, fan_control_disabled, load_config, on_off, open, sleep_chunk,
    sleep_interruptible, wait_for_path, write_bool, write_value, Wait, APPEARANCE_TIMEOUT_MS,
};
use tuxedo_driver::ioctl::Request;
use tuxedo_driver::profile::PerformanceProfile;
use tuxedo_driver::session::Session;
use tuxedo_driver::step::{Action, Failure, Reply, Step};

const BASE: &str = "/sys/devices/platform/tuxedo_keyboard";

fn play(mut session: Session, replies: Vec<Reply<String, Vec<u8>>>) -> Vec<Action<String>> {
    let mut actions = vec![session.action()];
    for reply in replies {
        session.resume(reply);
        actions.push(session.action());
    }
    actions
}

fn write(relative: &str, contents: &str) -> Action<String> {
    Action::WriteFile(format!("{BASE}/{relative}"), contents.to_owned())
}

fn log(line: &str) -> Action<String> {
    Action::Log(line.to_owned())
}

#[test]
fn words() {
    assert_eq!(on_off(true), "on");
    assert_eq!(on_off(false), "off");
}

#[test]
fn writes() {
    assert_eq!(
        write_value("/a", "balanced"),
        Step::WriteFile("/a".to_owned(), "balanced\n".to_owned())
    );
    assert_eq!(write_bool("/a", true), Step::WriteFile("/a".to_owned(), "1\n".to_owned()));
    assert_eq!(write_bool("/a", false), Step::WriteFile("/a".to_owned(), "0\n".to_owned()));
}

#[test]
fn a_missing_file_means_defaults() {
    let (config, message) = load_config("/etc/x.toml", None);
    assert_eq!(config, Config::default());
    let line = "config /etc/x.toml not found; using defaults";
    assert_eq!(message.as_deref(), Some(line));
    assert_eq!(apply_startup_settings(&config), Vec::new());
    assert!(!config.fan.enabled);
}

#[test]
fn a_file_is_taken_as_it_stands() {
    let empty = ConfigFile {
        profile: None,
        charging_profile: None,
        ac_auto_boot: None,
        usb_powershare: None,
        fn_lock: None,
        fan: None,
    };
    assert_eq!(load_config("/etc/x.toml", Some(empty)), (Config::default(), None));
    let file = ConfigFile {
        profile: None,
        charging_profile: Some("balanced".to_owned()),
        ac_auto_boot: Some(false),
        usb_powershare: None,
        fn_lock: None,
        fan: None,
    };
    let expected = Config {
        charging_profile: Some("balanced".to_owned()),
        ac_auto_boot: Some(false),
        ..Config::default()
    };
    assert_eq!(load_config("/etc/x.toml", Some(file)), (expected, None));
}

#[test]
fn fans_are_left_alone_unless_enabled() {
    let mut config = Config::default();
    assert_eq!(
        fan_control_disabled(&config),
        Some("fan control disabled; startup settings applied")
    );
    config.fan.enabled = true;
    assert_eq!(fan_control_disabled(&config), None);
}

#[test]
fn waiting_for_a_path() {
    let path = "/dev/tuxedo_io";
    let look = |elapsed, exists| wait_for_path(path, APPEARANCE_TIMEOUT_MS, elapsed, exists);
    let late = Wait::TimedOut("/dev/tuxedo_io did not appear within 30s".to_owned());
    assert_eq!(look(0, true), Wait::Ready);
    assert_eq!(look(0, false), Wait::Pause(250));
    assert_eq!(look(29_999_999_999, true), Wait::Ready);
    assert_eq!(look(29_999_999_999, false), Wait::Pause(250));
    assert_eq!(look(30_000_000_000, false), late);
    assert_eq!(look(30_000_000_000, true), late);
    assert_eq!(look(u128::MAX, false), late);
}

#[test]
fn sleeping_in_chunks() {
    assert!(sleep_interruptible(1000, 0, false));
    assert!(!sleep_interruptible(1000, 0, true));
    assert!(sleep_interruptible(1000, 999_999_999, false));
    assert!(!sleep_interruptible(1000, 1_000_000_000, false));
    assert!(!sleep_interruptible(0, 0, false));
    assert_eq!(sleep_chunk(1000, 0), 250_000_000);
    assert_eq!(sleep_chunk(1000, 750_000_000), 250_000_000);
    assert_eq!(sleep_chunk(1000, 900_000_000), 100_000_000);
    assert_eq!(sleep_chunk(1000, 1_000_000_000), 0);
    assert_eq!(sleep_chunk(u64::MAX, 0), 250_000_000);
}

#[test]
fn opening_the_device() {
    let actions = play(Session::new(open()), vec![Reply::Done, Reply::Int(1)]);
    assert_eq!(
        actions,
        vec![Action::Open, Action::ReadInt(Request::HwcheckUw), Action::Finish]
    );
    let failed = Reply::Failed("denied".to_owned());
    let actions = play(Session::new(open()), vec![failed]);
    assert_eq!(actions[1], Action::Fail(Failure::Io("denied".to_owned())));
    let actions = play(Session::new(open()), vec![Reply::Done, Reply::Int(2)]);
    assert_eq!(
        actions[2],
        Action::Fail(Failure::Message("Uniwill interface is not available".to_owned()))
    );
}

#[test]
fn defaults_change_nothing() {
    assert_eq!(apply_startup_settings(&Config::default()), Vec::new());
}

#[test]
fn every_setting() {
    let config = Config {
        profile: Some(PerformanceProfile::Enthusiast),
        charging_profile: Some("balanced".to_owned()),
        ac_auto_boot: Some(true),
        usb_powershare: Some(false),
        fn_lock: Some(true),
        ..Config::default()
    };
    let mut replies: Vec<Reply<String, Vec<u8>>> = Vec::new();
    for _ in 0..2 {
        replies.push(Reply::Done);
    }
    replies.push(Reply::Text("balanced stationary\n".to_owned()));
    for _ in 0..8 {
        replies.push(Reply::Done);
    }
    let actions = play(Session::new(apply_startup_settings(&config)), replies);
    assert_eq!(
        actions,
        vec![
            Action::WriteInt(Request::SetUwPerfProf, 2),
            log("profile: set enthusiast"),
            Action::ReadFile(format!("{BASE}/charging_profile/charging_profiles_available")),
            write("charging_profile/charging_profile", "balanced\n"),
            log("charging_profile: set balanced"),
            write("ac_auto_boot/ac_auto_boot", "1\n"),
            log("ac_auto_boot: set on"),
            write("usb_powershare/usb_powershare", "0\n"),
            log("usb_powershare: set off"),
            write("fn_lock", "1\n"),
            log("fn_lock: set on"),
            Action::Finish,
        ]
    );
}

#[test]
fn an_unlisted_charging_profile_ends_the_start() {
    let config = Config {
        charging_profile: Some("fast".to_owned()),
        fn_lock: Some(true),
        ..Config::default()
    };
    let replies = vec![Reply::Text("balanced stationary\n".to_owned()), Reply::Done];
    let actions = play(Session::new(apply_startup_settings(&config)), replies);
    let message = "fast is not in available charging profiles: balanced stationary";
    assert_eq!(actions[1], Action::Fail(Failure::Message(message.to_owned())));
    assert_eq!(actions[2], actions[1]);
}
