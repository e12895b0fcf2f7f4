use tuxedo_driver::config::FanConfig;
use tuxedo_driver::fan::{p, FanPreset};
use tuxedo_driver::fan_loop::{hand_back_text, set_fan_percent, FanLoop};
use tuxedo_driver::ioctl::Request;
use tuxedo_driver::step::{Action, Failure, Reply};

type Answer = Reply<String, Vec<u8>>;

fn io_failure() -> Failure<String> {
    Failure::Io("no such device".to_owned())
}

fn failed() -> Answer {
    Reply::Failed("no such device".to_owned())
}

fn config() -> FanConfig {
    FanConfig {
        enabled: true,
        interval_ms: 1_000,
        hysteresis_c: 5,
        preset: FanPreset::Silent,
        curve: Some(vec![p(60, 0), p(70, 40), p(80, 60)]),
    }
}

fn play(fan_loop: &mut FanLoop, replies: Vec<Answer>) -> Vec<Action<String>> {
    let mut actions = vec![fan_loop.action()];
    for reply in replies {
        fan_loop.resume(reply);
        actions.push(fan_loop.action());
    }
    actions
}

/// A loop with two fans that stop and have 25 percent as their lowest speed, up to its first
/// look at whether it is to end.
fn started(config: &FanConfig, verbose: bool) -> FanLoop {
    let mut fan_loop = FanLoop::new(config, verbose);
    let replies = vec![Reply::Int(0), Reply::Int(0), Reply::Int(1), Reply::Int(25), Reply::Done];
    let actions = play(&mut fan_loop, replies);
    assert_eq!(actions[5], Action::Poll);
    fan_loop
}

#[test]
fn fans_and_their_requests() {
    assert_eq!(set_fan_percent(0, 35), Ok((Request::SetUwFanspeed, 70)));
    assert_eq!(set_fan_percent(1, 100), Ok((Request::SetUwFanspeed2, 200)));
    assert_eq!(set_fan_percent(1, 255), Ok((Request::SetUwFanspeed2, 200)));
    assert_eq!(
        set_fan_percent(2, 35),
        Err(Failure::Message("fan index out of range".to_owned()))
    );
}

#[test]
fn start() {
    let mut fan_loop = FanLoop::new(&config(), false);
    let replies = vec![Reply::Int(0), Reply::Int(0), Reply::Int(1), Reply::Int(25), Reply::Done];
    let line = "fan control started: fans=2, preset=silent, interval=1s, hysteresis=5C, \
                min_speed=25%, fans_off_available=on";
    assert_eq!(
        play(&mut fan_loop, replies),
        vec![
            Action::ReadInt(Request::UwFanspeed),
            Action::ReadInt(Request::UwFanspeed2),
            Action::ReadInt(Request::UwFansOffAvailable),
            Action::ReadInt(Request::UwFansMinSpeed),
            Action::Log(line.to_owned()),
            Action::Poll,
        ]
    );
}

#[test]
fn start_with_other_settings() {
    let mut settings = config();
    settings.interval_ms = 100;
    settings.hysteresis_c = -1;
    settings.preset = FanPreset::Freezy;
    let mut fan_loop = FanLoop::new(&settings, false);
    let replies = vec![failed(), Reply::Int(0), Reply::Int(0), Reply::Int(250)];
    let line = "fan control started: fans=1, preset=freezy, interval=500ms, hysteresis=-1C, \
                min_speed=100%, fans_off_available=off";
    assert_eq!(play(&mut fan_loop, replies)[4], Action::Log(line.to_owned()));
}

#[test]
fn no_fans_no_control() {
    let mut fan_loop = FanLoop::new(&config(), false);
    let actions = play(&mut fan_loop, vec![failed(), failed(), Reply::Done]);
    let message = "no controllable fans detected".to_owned();
    assert_eq!(actions[2], Action::Fail(Failure::Message(message)));
    assert_eq!(actions[3], actions[2]);
}

#[test]
fn a_failure_before_the_start_needs_no_hand_back() {
    let mut fan_loop = FanLoop::new(&config(), false);
    let actions = play(&mut fan_loop, vec![Reply::Int(0), Reply::Int(0), failed()]);
    assert_eq!(actions[3], Action::Fail(io_failure()));
    let mut fan_loop = FanLoop::new(&config(), false);
    let replies = vec![Reply::Int(0), Reply::Int(0), Reply::Int(1), failed()];
    assert_eq!(play(&mut fan_loop, replies)[4], Action::Fail(io_failure()));
}

#[test]
fn one_round() {
    let mut fan_loop = started(&config(), true);
    let replies = vec![
        Reply::Flag(false),
        Reply::Int(65),
        Reply::Done,
        Reply::Done,
        Reply::Done,
        Reply::Done,
    ];
    assert_eq!(
        play(&mut fan_loop, replies),
        vec![
            Action::Poll,
            Action::ReadInt(Request::UwFanTemp),
            Action::WriteInt(Request::SetUwFanspeed2, 80),
            Action::WriteInt(Request::SetUwFanspeed, 80),
            Action::Log("fans: temp=65C set 40%".to_owned()),
            Action::Sleep(1_000),
            Action::Poll,
        ]
    );
}

#[test]
fn one_round_with_one_fan() {
    let mut settings = config();
    settings.interval_ms = 0;
    let mut fan_loop = FanLoop::new(&settings, false);
    let replies = vec![
        Reply::Int(0),
        failed(),
        Reply::Int(0),
        Reply::Int(-5),
        Reply::Done,
        Reply::Flag(false),
        Reply::Int(95),
        Reply::Done,
        Reply::Done,
    ];
    let actions = play(&mut fan_loop, replies);
    assert_eq!(actions[7], Action::WriteInt(Request::SetUwFanspeed, 120));
    assert_eq!(actions[8], Action::Sleep(500));
    assert_eq!(actions[9], Action::Poll);
}

#[test]
fn the_look_for_a_stop_comes_round() {
    let mut fan_loop = started(&config(), true);
    for _ in 0..3 {
        fan_loop.resume(Reply::Flag(false));
        let mut replies = 0;
        while fan_loop.action() != Action::Poll {
            let reply = match fan_loop.action() {
                Action::ReadInt(_) => Reply::Int(70),
                _ => Reply::Done,
            };
            fan_loop.resume(reply);
            replies += 1;
        }
        assert_eq!(replies, 5);
    }
}

#[test]
fn messages_about_the_hand_back() {
    assert_eq!(hand_back_text(None), "restored firmware fan auto mode");
    assert_eq!(
        hand_back_text(Some("denied")),
        "failed to restore firmware fan auto mode: denied"
    );
}

#[test]
fn hysteresis_between_rounds() {
    let mut fan_loop = started(&config(), false);
    let mut speeds = Vec::new();
    for temp in [75, 68, 66, 65, 60, 57, 55, 90] {
        let replies = vec![
            Reply::Flag(false),
            Reply::Int(temp),
            Reply::Done,
            Reply::Done,
            Reply::Done,
        ];
        let actions = play(&mut fan_loop, replies);
        match &actions[2] {
            Action::WriteInt(_, value) => speeds.push(*value),
            action => panic!("{action:?}"),
        }
    }
    assert_eq!(speeds, [120, 120, 120, 80, 80, 80, 0, 120]);
}

#[test]
fn a_stop_hands_the_fans_back() {
    let mut fan_loop = started(&config(), false);
    let actions = play(&mut fan_loop, vec![Reply::Flag(true), Reply::Done, Reply::Done]);
    assert_eq!(
        actions,
        vec![
            Action::Poll,
            Action::Signal(Request::SetUwFanauto),
            Action::Log("restored firmware fan auto mode".to_owned()),
            Action::Finish,
        ]
    );
}

#[test]
fn a_failure_hands_the_fans_back() {
    let mut fan_loop = started(&config(), false);
    let replies = vec![Reply::Flag(false), failed(), failed(), Reply::Done];
    let actions = play(&mut fan_loop, replies);
    let line = "failed to restore firmware fan auto mode: no such device".to_owned();
    assert_eq!(actions[2], Action::Signal(Request::SetUwFanauto));
    assert_eq!(actions[3], Action::Log(line));
    assert_eq!(actions[4], Action::Fail(io_failure()));

    let mut fan_loop = started(&config(), false);
    let replies = vec![
        Reply::Flag(false),
        Reply::Int(70),
        Reply::Done,
        failed(),
        Reply::Done,
        Reply::Done,
    ];
    let actions = play(&mut fan_loop, replies);
    assert_eq!(actions[4], Action::Signal(Request::SetUwFanauto));
    assert_eq!(actions[6], Action::Fail(io_failure()));
}

#[test]
fn the_first_failure_decides() {
    let reason = |text: &str| Reply::Failed(text.to_owned());
    for hand_back in [Reply::Done, reason("gone for good"), Reply::Int(1)] {
        let mut fan_loop = started(&config(), false);
        let replies = vec![Reply::Flag(false), reason("gone"), hand_back];
        let actions = play(&mut fan_loop, replies);
        assert_eq!(actions[2], Action::Signal(Request::SetUwFanauto));
        for _ in 0..4 {
            fan_loop.resume(reason("too late"));
            assert_eq!(fan_loop.action(), Action::Fail(Failure::Io("gone".to_owned())));
        }
    }
    let mut fan_loop = started(&config(), false);
    let replies = vec![Reply::Flag(false), Reply::Int(50), Reply::Int(0), failed(), Reply::Done];
    assert_eq!(play(&mut fan_loop, replies)[5], Action::Fail(Failure::Mismatch));
}

#[test]
fn control_lasts_from_the_announcement_to_the_hand_back() {
    let mut fan_loop = FanLoop::new(&config(), false);
    let replies = vec![
        Reply::Int(0),
        Reply::Int(0),
        Reply::Int(1),
        Reply::Int(25),
        Reply::Done,
        Reply::Flag(false),
        Reply::Int(65),
        Reply::Done,
        Reply::Done,
        Reply::Done,
        Reply::Flag(true),
        Reply::Done,
        Reply::Done,
    ];
    let mut runs = vec![fan_loop.runs_fans()];
    for reply in replies {
        fan_loop.resume(reply);
        runs.push(fan_loop.runs_fans());
    }
    let expected: Vec<bool> = (0..14).map(|at| (4..11).contains(&at)).collect();
    assert_eq!(runs, expected);
}

#[test]
fn the_loop_always_hands_back_and_writes_in_range() {
    let replies: [fn() -> Answer; 5] = [
        || Reply::Done,
        || Reply::Int(77),
        || Reply::Flag(false),
        || Reply::Flag(true),
        failed,
    ];
    for seed in 0..500_usize {
        let mut fan_loop = FanLoop::new(&config(), seed % 2 == 0);
        let mut announced = false;
        let mut handed_back = false;
        let mut state = seed;
        for _ in 0..200 {
            let action = fan_loop.action();
            let quiet = matches!(action, Action::Log(_) | Action::Finish | Action::Fail(_));
            assert!(!handed_back || quiet);
            match &action {
                Action::Log(line) if line.starts_with("fan control started") => announced = true,
                Action::Signal(request) => {
                    assert_eq!(*request, Request::SetUwFanauto);
                    handed_back = true;
                }
                Action::WriteInt(request, value) => {
                    assert!(announced && !handed_back);
                    assert!(matches!(request, Request::SetUwFanspeed | Request::SetUwFanspeed2));
                    assert!(*value == 0 || (50..=200).contains(value));
                }
                Action::Finish | Action::Fail(_) => break,
                _ => {}
            }
            state = (state * 1_103_515_245 + 12_345) % 2_147_483_648;
            let good = match &action {
                Action::ReadInt(_) => 1,
                Action::Poll => 2,
                _ => 0,
            };
            let choice = if state / 65_536 % 8 == 0 { state / 1_024 % 5 } else { good };
            fan_loop.resume(replies[choice]());
        }
        let over = matches!(fan_loop.action(), Action::Finish | Action::Fail(_));
        assert!(!announced || handed_back || !over);
    }
}
