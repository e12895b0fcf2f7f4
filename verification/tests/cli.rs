use tuxedo_driver::cli::{
    print_info, print_status, run, run_bool, BacklightCommand, BoolCommand, ChargingCommand,
    Command, FanCommand, OnOff, ProfileCommand,
};
use tuxedo_driver::ioctl::Request;
use tuxedo_driver::number::NumberError;
use tuxedo_driver::profile::PerformanceProfile;
use tuxedo_driver::session::Session;
use tuxedo_driver::step::{Action, Failure, Reply};

const CHARGING: &str =
    "/sys/devices/platform/tuxedo_keyboard/charging_profile/charging_profile";
const CHARGINGS: &str =
    "/sys/devices/platform/tuxedo_keyboard/charging_profile/charging_profiles_available";
const BRIGHTNESS: &str =
    "/sys/devices/platform/tuxedo_keyboard/leds/white:kbd_backlight/brightness";
const MAX_BRIGHTNESS: &str =
    "/sys/devices/platform/tuxedo_keyboard/leds/white:kbd_backlight/max_brightness";
const FN_LOCK: &str = "/sys/devices/platform/tuxedo_keyboard/fn_lock";

type Answer = Reply<String, Vec<u8>>;

fn text(text: &str) -> Answer {
    Reply::Text(text.to_owned())
}

fn io_failure() -> Failure<String> {
    Failure::Io("it failed".to_owned())
}

fn failed() -> Answer {
    Reply::Failed("it failed".to_owned())
}

fn ends(action: &Action<String>) -> bool {
    matches!(action, Action::Finish | Action::Fail(_))
}

/// Every action of a session, with one reply to each until they run out.
fn play(mut session: Session, replies: Vec<Answer>) -> Vec<Action<String>> {
    let mut actions = vec![session.action()];
    for reply in replies {
        session.resume(reply);
        actions.push(session.action());
    }
    actions
}

/// A machine on which everything works.
fn answer(action: &Action<String>) -> Answer {
    match action {
        Action::ReadInt(Request::HwcheckUw) => Reply::Int(1),
        Action::ReadInt(Request::UwModelId) => Reply::Int(19),
        Action::ReadInt(Request::UwFanspeed) => Reply::Int(70),
        Action::ReadInt(Request::UwFanspeed2) => Reply::Int(71),
        Action::ReadInt(Request::UwFanTemp) => Reply::Int(48),
        Action::ReadInt(Request::UwFanTemp2) => Reply::Int(0),
        Action::ReadInt(Request::UwMode) => Reply::Int(0xa0),
        Action::ReadInt(Request::UwModeEnable) => Reply::Int(0),
        Action::ReadInt(Request::UwFansOffAvailable) => Reply::Int(1),
        Action::ReadInt(Request::UwFansMinSpeed) => Reply::Int(25),
        Action::ReadInt(Request::UwProfsAvailable) => Reply::Int(3),
        Action::ReadInt(_) => failed(),
        Action::ReadString(Request::ModVersion) => Reply::Bytes(b"0.3.9\0\0".to_vec()),
        Action::ReadString(_) => Reply::Bytes(b"uniwill_wmi\0junk".to_vec()),
        Action::Exists(_) => Reply::Flag(true),
        Action::ReadFile(path) => text(match path.as_str() {
            CHARGING => "balanced\n",
            CHARGINGS => "high_capacity balanced stationary\n",
            BRIGHTNESS => "1\n",
            MAX_BRIGHTNESS => "2\n",
            FN_LOCK => "1\n",
            _ => "0\n",
        }),
        _ => Reply::Done,
    }
}

/// The actions of a session on the machine on which everything works.
fn perform(mut session: Session) -> Vec<Action<String>> {
    let mut actions = Vec::new();
    loop {
        let action = session.action();
        let last = ends(&action);
        let reply = answer(&action);
        actions.push(action);
        if last {
            return actions;
        }
        session.resume(reply);
    }
}

fn printed(actions: &[Action<String>]) -> Vec<&str> {
    actions
        .iter()
        .filter_map(|action| match action {
            Action::Print(line) => Some(line.as_str()),
            _ => None,
        })
        .collect()
}

fn changes(actions: &[Action<String>]) -> usize {
    actions
        .iter()
        .filter(|action| {
            matches!(action, Action::WriteInt(..) | Action::Signal(_) | Action::WriteFile(..))
        })
        .count()
}

fn queries() -> Vec<Command<String>> {
    vec![
        Command::Status,
        Command::Info,
        Command::Fans(FanCommand::Status),
        Command::Profile(ProfileCommand::List),
        Command::Profile(ProfileCommand::Get),
        Command::Charging(ChargingCommand::List),
        Command::Charging(ChargingCommand::Get),
        Command::Backlight(BacklightCommand::Get),
        Command::FnLock(BoolCommand::Get),
        Command::AcAutoBoot(BoolCommand::Get),
        Command::UsbPowershare(BoolCommand::Get),
    ]
}

#[test]
fn switch_positions() {
    assert!(bool::from(OnOff::On));
    assert!(!bool::from(OnOff::Off));
}

#[test]
fn info() {
    let actions = perform(Session::new(print_info()));
    assert_eq!(
        actions,
        vec![
            Action::Open,
            Action::ReadString(Request::ModVersion),
            Action::Print("module_version: 0.3.9".to_owned()),
            Action::ReadInt(Request::HwcheckUw),
            Action::Print("uniwill_available: true".to_owned()),
            Action::ReadString(Request::UwHwIfStr),
            Action::Print("interface: uniwill_wmi".to_owned()),
            Action::ReadInt(Request::UwModelId),
            Action::Print("model_id: 19".to_owned()),
            Action::Finish,
        ]
    );
}

#[test]
fn info_without_uniwill() {
    let replies = vec![
        Reply::Done,
        Reply::Bytes(Vec::new()),
        Reply::Done,
        Reply::Int(0),
    ];
    let actions = play(run(&Command::Info), replies);
    assert_eq!(actions[2], Action::Print("module_version: ".to_owned()));
    assert_eq!(actions[4], Action::Print("uniwill_available: false".to_owned()));
}

#[test]
fn status() {
    let actions = perform(Session::new(print_status()));
    assert_eq!(
        printed(&actions),
        [
            "module_version: 0.3.9",
            "uniwill_available: true",
            "interface: uniwill_wmi",
            "model_id: 19",
            "",
            "fans: 2",
            "fan_min_speed_percent: 25",
            "fans_off_available: on",
            "manual_mode_register: 0",
            "fan1: speed=35%, raw_speed=70, temp=48C, raw_temp=48C",
            "fan2: speed=36%, raw_speed=71, temp=48C, raw_temp=0C",
            "",
            "profile: power_save (raw 0xa0)",
            "available_profiles: power_save, enthusiast, overboost",
            "",
            "charging_profile: balanced",
            "available_charging_profiles: high_capacity balanced stationary",
            "",
            "backlight: 1/2",
            "fn_lock: on",
            "ac_auto_boot: off",
            "usb_powershare: off",
        ]
    );
    assert_eq!(actions.last(), Some(&Action::Finish));
    assert_eq!(actions.iter().filter(|action| **action == Action::Open).count(), 4);
    assert!(actions.len() <= 61);
}

#[test]
fn a_failing_part_ends_the_status() {
    let mut session = run(&Command::Status);
    let mut lines = Vec::new();
    loop {
        match session.action() {
            Action::Fail(failure) => {
                assert_eq!(failure, Failure::Missing(CHARGING.to_owned()));
                break;
            }
            Action::Exists(_) => session.resume(Reply::Flag(false)),
            action => {
                if let Action::Print(line) = &action {
                    lines.push(line.clone());
                }
                session.resume(answer(&action));
            }
        }
    }
    assert_eq!(lines.last().map(String::as_str), Some(""));
    assert_eq!(lines.len(), 15);
}

#[test]
fn queries_change_nothing() {
    for command in queries() {
        let actions = perform(run(&command));
        assert_eq!(changes(&actions), 0);
        assert_eq!(actions.last(), Some(&Action::Finish));
    }
}

#[test]
fn one_fan() {
    let replies = vec![
        Reply::Done,
        Reply::Int(1),
        failed(),
        Reply::Int(50),
        Reply::Done,
        Reply::Int(0),
        Reply::Done,
        Reply::Int(0),
        Reply::Done,
        Reply::Int(1),
        Reply::Done,
        Reply::Int(199),
        failed(),
    ];
    let actions = play(run(&Command::Fans(FanCommand::Status)), replies);
    assert_eq!(
        printed(&actions),
        [
            "fans: 1",
            "fan_min_speed_percent: 0",
            "fans_off_available: off",
            "manual_mode_register: 1",
            "fan1: speed=100%, raw_speed=199, temp=0C, raw_temp=0C",
        ]
    );
}

#[test]
fn no_fans() {
    let replies = vec![
        Reply::Done,
        Reply::Int(1),
        failed(),
        failed(),
        Reply::Done,
        Reply::Int(30),
        Reply::Done,
        Reply::Int(1),
        Reply::Done,
        Reply::Int(0),
        Reply::Done,
    ];
    let actions = play(run(&Command::Fans(FanCommand::Status)), replies);
    assert_eq!(printed(&actions)[0], "fans: 0");
    assert_eq!(actions.last(), Some(&Action::Finish));
}

#[test]
fn a_speed_that_cannot_be_read_fails_the_report() {
    let replies = vec![
        Reply::Done,
        Reply::Int(1),
        Reply::Int(10),
        failed(),
        Reply::Done,
        Reply::Int(30),
        Reply::Done,
        Reply::Int(1),
        Reply::Done,
        Reply::Int(0),
        Reply::Done,
        failed(),
    ];
    let actions = play(run(&Command::Fans(FanCommand::Status)), replies);
    assert_eq!(actions.last(), Some(&Action::Fail(io_failure())));
}

#[test]
fn second_fan_with_its_own_temperature() {
    let replies = vec![
        Reply::Done,
        Reply::Int(1),
        Reply::Int(0),
        Reply::Int(0),
        Reply::Done,
        Reply::Int(0),
        Reply::Done,
        Reply::Int(0),
        Reply::Done,
        Reply::Int(0),
        Reply::Done,
        Reply::Int(10),
        Reply::Int(-3),
        Reply::Done,
        Reply::Int(20),
        Reply::Int(55),
    ];
    let actions = play(run(&Command::Fans(FanCommand::Status)), replies);
    let lines = printed(&actions);
    assert_eq!(lines[4], "fan1: speed=5%, raw_speed=10, temp=-3C, raw_temp=-3C");
    assert_eq!(lines[5], "fan2: speed=10%, raw_speed=20, temp=55C, raw_temp=55C");
}

#[test]
fn fans_set_1_35() {
    let command = Command::Fans(FanCommand::SetTo { fan: 1, percent: 35 });
    assert_eq!(
        perform(run(&command)),
        vec![
            Action::Open,
            Action::ReadInt(Request::HwcheckUw),
            Action::WriteInt(Request::SetUwFanspeed, 70),
            Action::Print("fan1: set 35% (raw 70)".to_owned()),
            Action::Finish,
        ]
    );
}

#[test]
fn fans_set_2_100() {
    let command = Command::Fans(FanCommand::SetTo { fan: 2, percent: 100 });
    let actions = perform(run(&command));
    assert_eq!(actions[2], Action::WriteInt(Request::SetUwFanspeed2, 200));
    assert_eq!(actions[3], Action::Print("fan2: set 100% (raw 200)".to_owned()));
}

#[test]
fn bad_fan_settings_are_refused() {
    for fan in [0, 3, 255] {
        let command = Command::Fans(FanCommand::SetTo { fan, percent: 200 });
        let actions = perform(run(&command));
        assert_eq!(changes(&actions), 0);
        assert_eq!(
            actions.last(),
            Some(&Action::Fail(Failure::Message("fan must be 1 or 2".to_owned())))
        );
    }
    let command = Command::Fans(FanCommand::SetTo { fan: 1, percent: 101 });
    let actions = perform(run(&command));
    assert_eq!(changes(&actions), 0);
    assert_eq!(
        actions.last(),
        Some(&Action::Fail(Failure::Message("percent must be 0..=100".to_owned())))
    );
}

#[test]
fn fans_auto() {
    let actions = perform(run(&Command::Fans(FanCommand::Auto)));
    assert_eq!(actions[2], Action::Signal(Request::SetUwFanauto));
    assert_eq!(actions[3], Action::Print("fans: automatic mode requested".to_owned()));
}

#[test]
fn without_uniwill_nothing_is_changed() {
    let commands = [
        Command::Fans(FanCommand::SetTo { fan: 1, percent: 35 }),
        Command::Fans(FanCommand::Auto),
        Command::Profile(ProfileCommand::SetTo { profile: PerformanceProfile::Overboost }),
    ];
    for command in commands {
        let actions = play(run(&command), vec![Reply::Done, Reply::Int(0), Reply::Done]);
        assert_eq!(changes(&actions), 0);
        assert_eq!(
            actions.last(),
            Some(&Action::Fail(Failure::Message("Uniwill interface is not available".to_owned())))
        );
        let actions = play(run(&command), vec![failed(), Reply::Int(1), Reply::Done]);
        assert_eq!(changes(&actions), 0);
        assert_eq!(actions.last(), Some(&Action::Fail(io_failure())));
    }
}

#[test]
fn profile_set_overboost() {
    let profile = PerformanceProfile::Overboost;
    let actions = perform(run(&Command::Profile(ProfileCommand::SetTo { profile })));
    assert_eq!(actions[2], Action::WriteInt(Request::SetUwPerfProf, 3));
    assert_eq!(actions[3], Action::Print("profile: set overboost".to_owned()));
    assert_eq!(actions[4], Action::Finish);
}

#[test]
fn unknown_profiles() {
    let replies = vec![Reply::Done, Reply::Int(1), Reply::Int(7)];
    let actions = play(run(&Command::Profile(ProfileCommand::List)), replies);
    assert_eq!(actions[3], Action::Print("available_profiles: ".to_owned()));
    let replies = vec![Reply::Done, Reply::Int(1), Reply::Int(0x80)];
    let actions = play(run(&Command::Profile(ProfileCommand::Get)), replies);
    assert_eq!(actions[3], Action::Print("profile: unknown (raw 0x80)".to_owned()));
}

#[test]
fn charging_set_stationary() {
    let profile = " stationary ".to_owned();
    let actions = perform(run(&Command::Charging(ChargingCommand::SetTo { profile })));
    assert_eq!(
        actions,
        vec![
            Action::Exists(CHARGINGS.to_owned()),
            Action::ReadFile(CHARGINGS.to_owned()),
            Action::Exists(CHARGING.to_owned()),
            Action::WriteFile(CHARGING.to_owned(), "stationary\n".to_owned()),
            Action::Print("charging_profile: set stationary".to_owned()),
            Action::Finish,
        ]
    );
}

#[test]
fn unlisted_charging_profile() {
    let profile = "fast".to_owned();
    let actions = perform(run(&Command::Charging(ChargingCommand::SetTo { profile })));
    assert_eq!(changes(&actions), 0);
    let message = "fast is not in available profiles: high_capacity balanced stationary";
    assert_eq!(
        actions.last(),
        Some(&Action::Fail(Failure::Message(message.to_owned())))
    );
}

#[test]
fn backlight_set_2() {
    let command = Command::Backlight(BacklightCommand::SetTo { brightness: 2 });
    assert_eq!(
        perform(run(&command)),
        vec![
            Action::Exists(MAX_BRIGHTNESS.to_owned()),
            Action::ReadFile(MAX_BRIGHTNESS.to_owned()),
            Action::Exists(BRIGHTNESS.to_owned()),
            Action::WriteFile(BRIGHTNESS.to_owned(), "2\n".to_owned()),
            Action::Print("backlight: set 2/2".to_owned()),
            Action::Finish,
        ]
    );
}

#[test]
fn too_bright() {
    let command = Command::Backlight(BacklightCommand::SetTo { brightness: 3 });
    let actions = perform(run(&command));
    assert_eq!(changes(&actions), 0);
    assert_eq!(
        actions.last(),
        Some(&Action::Fail(Failure::Message("brightness must be 0..=2".to_owned())))
    );
}

#[test]
fn highest_brightness_that_is_no_number() {
    let cases = [
        ("\n", NumberError::Empty),
        ("max\n", NumberError::InvalidDigit),
        ("4294967296\n", NumberError::PosOverflow),
    ];
    for (limit, error) in cases {
        let command = Command::Backlight(BacklightCommand::SetTo { brightness: 0 });
        let actions = play(run(&command), vec![Reply::Flag(true), text(limit)]);
        assert_eq!(actions[2], Action::Fail(Failure::Number(error)));
    }
}

#[test]
fn usb_powershare_set_on() {
    let path = "/sys/devices/platform/tuxedo_keyboard/usb_powershare/usb_powershare";
    let command = Command::UsbPowershare(BoolCommand::SetTo { value: OnOff::On });
    assert_eq!(
        perform(run(&command)),
        vec![
            Action::Exists(path.to_owned()),
            Action::WriteFile(path.to_owned(), "1\n".to_owned()),
            Action::Print("usb_powershare: set on".to_owned()),
            Action::Finish,
        ]
    );
}

#[test]
fn switches_at_any_path() {
    let actions = perform(Session::new(run_bool(BoolCommand::SetTo { value: OnOff::Off }, "/")));
    assert_eq!(actions[1], Action::WriteFile("/".to_owned(), "0\n".to_owned()));
    assert_eq!(actions[2], Action::Print("value: set off".to_owned()));
    let actions = perform(run(&Command::FnLock(BoolCommand::Get)));
    assert_eq!(printed(&actions), ["fn_lock: on"]);
}

#[test]
fn missing_attributes_are_reported() {
    let cases = [
        (Command::Charging(ChargingCommand::List), CHARGINGS),
        (Command::Charging(ChargingCommand::Get), CHARGING),
        (Command::Backlight(BacklightCommand::Get), BRIGHTNESS),
        (Command::Backlight(BacklightCommand::SetTo { brightness: 1 }), MAX_BRIGHTNESS),
        (Command::FnLock(BoolCommand::SetTo { value: OnOff::On }), FN_LOCK),
    ];
    for (command, path) in cases {
        let actions = play(run(&command), vec![Reply::Flag(false), Reply::Done, Reply::Done]);
        assert_eq!(actions[0], Action::Exists(path.to_owned()));
        for action in &actions[1..] {
            assert_eq!(*action, Action::Fail(Failure::Missing(path.to_owned())));
        }
    }
}

#[test]
fn failed_actions_end_the_session() {
    let command = Command::Charging(ChargingCommand::Get);
    let actions = play(run(&command), vec![Reply::Flag(true), failed()]);
    assert_eq!(actions[2], Action::Fail(io_failure()));
    let command = Command::FnLock(BoolCommand::SetTo { value: OnOff::On });
    let actions = play(run(&command), vec![Reply::Flag(true), failed()]);
    assert_eq!(actions[2], Action::Fail(io_failure()));
}

#[test]
fn sessions_end_whatever_the_replies() {
    let replies: [fn() -> Answer; 6] = [
        || Reply::Done,
        || Reply::Int(1),
        || Reply::Bytes(vec![0xff]),
        || text("1"),
        || Reply::Flag(true),
        failed,
    ];
    for command in queries() {
        for seed in 0..6 {
            let mut session = run(&command);
            for step in 0..60 {
                session.resume(replies[(seed + step * step) % 6]());
            }
            assert!(ends(&session.action()));
        }
    }
}
