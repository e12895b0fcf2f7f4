//! The daemon: what it does when it starts, and how it waits.

use vstd::prelude::*;

use crate::config::{
    default_config, file_settings, law_empty_file_is_default, law_given_settings_are_used,
    says_nothing, Config, ConfigFile,
};
use crate::fan::FanPreset;
use crate::ioctl::Request;
use crate::number::{duration_as_text, duration_text};
use crate::profile::{profile_id, profile_name, PerformanceProfile};
use crate::session::{
    at_rest, carries_out, has_led_on, law_driver_writes_are_planned, law_file_writes_are_planned,
    law_parts_carried_out, law_session_ends, law_success_performs_every_step,
    law_success_performs_what_follows, lemma_longest_run_sum, lemma_nothing_carried_out,
    lemma_short_run, lemma_step_carried_out, longest_run, next_action, performs, played,
    resumed, writes_for,
};
use crate::step::{
    action_of, after, after_text, steps_model, Action, ActionModel, Failure, FailureModel, Reply,
    ReplyModel, Step, StepModel,
};
use crate::sysfs::{
    line_of, switch_line, switch_word, sysfs, sysfs_path, value_line, AC_AUTO_BOOT,
    CHARGING_PROFILE, CHARGING_PROFILES_AVAILABLE, FN_LOCK, USB_POWERSHARE,
};
use crate::text::{has_word, trimmed};

verus! {

/// Where the settings are looked for unless another place is named.
pub const DEFAULT_CONFIG: &'static str = "/etc/tuxedo-driver-daemon.toml";

/// How long the daemon waits for the driver to appear, in milliseconds.
pub const APPEARANCE_TIMEOUT_MS: u64 = 30_000;

/// The longest time between two looks at what is waited for, in milliseconds.
pub const LOOK_MS: u64 = 250;

/// The word for a switch.
pub fn on_off(value: bool) -> (word: &'static str)
    ensures
        word@ == switch_word(value),
{
    if value {
        "on"
    } else {
        "off"
    }
}

/// The message that there are no settings.
pub open spec fn no_config_message(path: Seq<char>) -> Seq<char> {
    "config "@ + path + " not found; using defaults"@
}

/// The settings to use, given what the file for them says; `None` stands for a file that is not
/// there.
pub open spec fn loaded_config(file: Option<ConfigFile>) -> Config {
    match file {
        Some(file) => file_settings(file),
        None => default_config(),
    }
}

/// The settings to use, and a message for the log where the file for them is not there.
pub fn load_config(path: &str, file: Option<ConfigFile>) -> (loaded: (Config, Option<String>))
    ensures
        loaded.0 == loaded_config(file),
        match loaded.1 {
            Some(message) => file is None && message@ == no_config_message(path@),
            None => file is Some,
        },
{
    match file {
        Some(file) => (file.settings(), None),
        None => {
            let mut message = "config ".to_owned();
            message.append(path);
            message.append(" not found; using defaults");
            (Config::default(), Some(message))
        },
    }
}

/// The message for the log where the settings leave the fans to the firmware. The daemon is
/// done then; else it goes on to run the fans.
pub fn fan_control_disabled(config: &Config) -> (message: Option<&'static str>)
    ensures
        match message {
            Some(message) => {
                &&& !config.fan.enabled
                &&& message@ == "fan control disabled; startup settings applied"@
            },
            None => config.fan.enabled,
        },
{
    if config.fan.enabled {
        None
    } else {
        Some("fan control disabled; startup settings applied")
    }
}

/// What to do next while waiting for a path. `S` stands for text.
#[derive(Debug, PartialEq, Eq)]
pub enum Wait<S> {
    /// The path is there.
    Ready,
    /// Look again after a number of milliseconds.
    Pause(u64),
    /// The path did not appear in time.
    TimedOut(S),
}

impl View for Wait<String> {
    type V = Wait<Seq<char>>;

    open spec fn view(&self) -> Wait<Seq<char>> {
        match self {
            Wait::Ready => Wait::Ready,
            Wait::Pause(millis) => Wait::Pause(*millis),
            Wait::TimedOut(message) => Wait::TimedOut(message@),
        }
    }
}

/// A number of milliseconds in nanoseconds.
pub open spec fn nanos(millis: u64) -> nat {
    (millis * 1_000_000) as nat
}

/// What to do next while waiting for a path, when `elapsed_ns` nanoseconds have gone by. Once
/// the time is up, the path is too late even if it is there.
pub open spec fn wait_outcome(
    path: Seq<char>,
    timeout_ms: u64,
    elapsed_ns: u128,
    exists: bool,
) -> Wait<Seq<char>> {
    if elapsed_ns >= nanos(timeout_ms) {
        Wait::TimedOut(path + " did not appear within "@ + duration_text(timeout_ms as nat))
    } else if exists {
        Wait::Ready
    } else {
        Wait::Pause(LOOK_MS)
    }
}

/// What to do next while waiting for a path.
pub fn wait_for_path(path: &str, timeout_ms: u64, elapsed_ns: u128, exists: bool) -> (wait: Wait<
    String,
>)
    ensures
        wait@ == wait_outcome(path@, timeout_ms, elapsed_ns, exists),
{
    let timeout_ns: u128 = timeout_ms as u128 * 1_000_000;
    if elapsed_ns >= timeout_ns {
        let mut message = path.to_owned();
        message.append(" did not appear within ");
        message.append(duration_as_text(timeout_ms).as_str());
        Wait::TimedOut(message)
    } else if exists {
        Wait::Ready
    } else {
        Wait::Pause(LOOK_MS)
    }
}

/// Whether a sleep goes on: its time is not up, and the daemon is not to stop.
pub open spec fn sleeps_on(duration_ms: u64, elapsed_ns: u128, terminate: bool) -> bool {
    elapsed_ns < nanos(duration_ms) && !terminate
}

/// Whether a sleep of `duration_ms` milliseconds goes on after `elapsed_ns` nanoseconds: it
/// ends when its time is up or when the daemon is to stop.
pub fn sleep_interruptible(duration_ms: u64, elapsed_ns: u128, terminate: bool) -> (goes_on: bool)
    ensures
        goes_on == (elapsed_ns < nanos(duration_ms) && !terminate),
        goes_on == sleeps_on(duration_ms, elapsed_ns, terminate),
{
    let duration_ns: u128 = duration_ms as u128 * 1_000_000;
    elapsed_ns < duration_ns && !terminate
}

/// How many nanoseconds of a sleep to take at a time: the rest of it, but no more than lies
/// between two looks.
pub open spec fn chunk_nanos(duration_ms: u64, elapsed_ns: u128) -> nat {
    if elapsed_ns >= nanos(duration_ms) {
        0
    } else if nanos(duration_ms) - elapsed_ns < nanos(LOOK_MS) {
        (nanos(duration_ms) - elapsed_ns) as nat
    } else {
        nanos(LOOK_MS)
    }
}

/// How many nanoseconds of a sleep to take at a time.
pub fn sleep_chunk(duration_ms: u64, elapsed_ns: u128) -> (chunk: u64)
    ensures
        chunk == chunk_nanos(duration_ms, elapsed_ns),
{
    let duration_ns: u128 = duration_ms as u128 * 1_000_000;
    let look_ns: u64 = LOOK_MS * 1_000_000;
    if elapsed_ns >= duration_ns {
        return 0;
    }
    let rest: u128 = duration_ns - elapsed_ns;
    if rest < look_ns as u128 {
        rest as u64
    } else {
        look_ns
    }
}

/// The steps that open the device and make sure that it can be used.
pub open spec fn open_steps() -> Seq<StepModel> {
    seq![Step::Open, Step::RequireUniwill]
}

/// Opens the device and makes sure that it can be used.
pub fn open() -> (steps: Vec<Step<String>>)
    ensures
        steps_model(steps@) == open_steps(),
{
    let steps = vec![Step::Open, Step::RequireUniwill];
    assert(steps_model(steps@) == open_steps());
    steps
}

/// Writes a value to an attribute.
pub fn write_value(path: &str, value: &str) -> (step: Step<String>)
    ensures
        step@ == Step::WriteFile(path@, value_line(value@)),
{
    Step::WriteFile(path.to_owned(), line_of(value))
}

/// Writes the position of a switch to an attribute.
pub fn write_bool(path: &str, value: bool) -> (step: Step<String>)
    ensures
        step@ == Step::WriteFile(path@, switch_line(value)),
{
    write_value(
        path,
        if value {
            "1"
        } else {
            "0"
        },
    )
}

/// The steps that set a switch, where a position is configured.
pub open spec fn switch_setting(
    label: Seq<char>,
    path: Seq<char>,
    value: Option<bool>,
) -> Seq<StepModel> {
    match value {
        Some(value) => seq![
            Step::WriteFile(path, switch_line(value)),
            Step::Log(label + ": set "@ + switch_word(value)),
        ],
        None => seq![],
    }
}

/// The steps that set the performance profile, where one is configured.
pub open spec fn profile_setting(profile: Option<PerformanceProfile>) -> Seq<StepModel> {
    match profile {
        Some(profile) => seq![
            Step::WriteInt(Request::SetUwPerfProf, profile_id(profile)),
            Step::Log("profile: set "@ + profile_name(profile)),
        ],
        None => seq![],
    }
}

/// The steps that set the charging profile, where one is configured.
pub open spec fn charging_setting(profile: Option<String>) -> Seq<StepModel> {
    match profile {
        Some(profile) => seq![Step::SetCharging(profile@)],
        None => seq![],
    }
}

/// The steps that apply the settings: those that are configured, in a fixed order.
pub open spec fn startup_steps(config: Config) -> Seq<StepModel> {
    profile_setting(config.profile) + charging_setting(config.charging_profile) + switch_setting(
        "ac_auto_boot"@,
        sysfs_path(AC_AUTO_BOOT@),
        config.ac_auto_boot,
    ) + switch_setting("usb_powershare"@, sysfs_path(USB_POWERSHARE@), config.usb_powershare)
        + switch_setting("fn_lock"@, sysfs_path(FN_LOCK@), config.fn_lock)
}

fn push_switch(steps: &mut Vec<Step<String>>, label: &str, path: &str, value: Option<bool>)
    ensures
        steps_model(final(steps)@) == steps_model(old(steps)@) + switch_setting(
            label@,
            path@,
            value,
        ),
{
    let ghost before = steps@;
    if let Some(value) = value {
        let mut line = label.to_owned();
        line.append(": set ");
        line.append(on_off(value));
        steps.push(write_bool(path, value));
        steps.push(Step::Log(line));
    }
    assert(steps_model(steps@) == steps_model(before) + switch_setting(label@, path@, value));
}

/// Applies the settings.
pub fn apply_startup_settings(config: &Config) -> (steps: Vec<Step<String>>)
    ensures
        steps_model(steps@) == startup_steps(*config),
{
    let mut steps: Vec<Step<String>> = Vec::new();
    if let Some(profile) = config.profile {
        let mut line = "profile: set ".to_owned();
        line.append(profile.name());
        steps.push(Step::WriteInt(Request::SetUwPerfProf, profile.id()));
        steps.push(Step::Log(line));
    }
    let ghost profile_part = steps_model(steps@);
    if let Some(profile) = &config.charging_profile {
        steps.push(Step::SetCharging(profile.clone()));
    }
    assert(profile_part == profile_setting(config.profile));
    assert(steps_model(steps@) == profile_part + charging_setting(config.charging_profile));
    push_switch(&mut steps, "ac_auto_boot", sysfs(AC_AUTO_BOOT).as_str(), config.ac_auto_boot);
    push_switch(
        &mut steps,
        "usb_powershare",
        sysfs(USB_POWERSHARE).as_str(),
        config.usb_powershare,
    );
    push_switch(&mut steps, "fn_lock", sysfs(FN_LOCK).as_str(), config.fn_lock);
    steps
}

/// Without a file the settings are those of a file that leaves everything out. No setting is
/// applied then, and the fans are left to the firmware.
pub proof fn law_missing_file_is_empty_file(file: ConfigFile)
    requires
        says_nothing(file),
    ensures
        loaded_config(None) == loaded_config(Some(file)),
        startup_steps(loaded_config(None)) == Seq::<StepModel>::empty(),
        !loaded_config(None).fan.enabled,
{
    law_empty_file_is_default(file);
    law_unset_changes_nothing(loaded_config(None));
}

/// Where no setting is configured but those of the fans, nothing is done when the daemon
/// starts.
pub proof fn law_unset_changes_nothing(config: Config)
    requires
        config.profile is None,
        config.charging_profile is None,
        config.ac_auto_boot is None,
        config.usb_powershare is None,
        config.fn_lock is None,
    ensures
        startup_steps(config) == Seq::<StepModel>::empty(),
{
}

proof fn lemma_setting_lengths(
    profile: Option<PerformanceProfile>,
    charging: Option<String>,
    label: Seq<char>,
    path: Seq<char>,
    value: Option<bool>,
)
    ensures
        longest_run(profile_setting(profile)) <= 2,
        longest_run(charging_setting(charging)) <= 3,
        longest_run(switch_setting(label, path, value)) <= 2,
{
    lemma_short_run(profile_setting(profile));
    lemma_short_run(charging_setting(charging));
    lemma_short_run(switch_setting(label, path, value));
}

/// Applying the settings ends after at most eleven actions, whatever the replies are.
pub proof fn law_startup_ends(config: Config, replies: Seq<ReplyModel>)
    requires
        replies.len() >= 11,
    ensures
        at_rest(played(startup_steps(config), replies)),
{
    let first = profile_setting(config.profile);
    let second = charging_setting(config.charging_profile);
    let boot = sysfs_path(AC_AUTO_BOOT@);
    let third = switch_setting("ac_auto_boot"@, boot, config.ac_auto_boot);
    let usb = sysfs_path(USB_POWERSHARE@);
    let fourth = switch_setting("usb_powershare"@, usb, config.usb_powershare);
    let lock = sysfs_path(FN_LOCK@);
    let fifth = switch_setting("fn_lock"@, lock, config.fn_lock);
    let profile = config.profile;
    let charging = config.charging_profile;
    lemma_setting_lengths(profile, charging, "ac_auto_boot"@, boot, config.ac_auto_boot);
    lemma_setting_lengths(profile, charging, "usb_powershare"@, usb, config.usb_powershare);
    lemma_setting_lengths(profile, charging, "fn_lock"@, lock, config.fn_lock);
    lemma_longest_run_sum(first, second);
    lemma_longest_run_sum(first + second, third);
    lemma_longest_run_sum(first + second + third, fourth);
    lemma_longest_run_sum(first + second + third + fourth, fifth);
    law_session_ends(startup_steps(config), replies);
}

/// When the settings are applied, no file is written but those of the configured switches and,
/// if the configured charging profile is one of the words of a list that was read, the one for
/// that profile.
pub proof fn law_startup_writes(
    config: Config,
    replies: Seq<ReplyModel>,
    path: Seq<char>,
    contents: Seq<char>,
)
    requires
        next_action(played(startup_steps(config), replies)) == Action::WriteFile(path, contents),
    ensures
        ({
            ||| is_switch_write(AC_AUTO_BOOT@, config.ac_auto_boot, path, contents)
            ||| is_switch_write(USB_POWERSHARE@, config.usb_powershare, path, contents)
            ||| is_switch_write(FN_LOCK@, config.fn_lock, path, contents)
            ||| config.charging_profile matches Some(profile) && path == sysfs_path(
                CHARGING_PROFILE@,
            ) && contents == value_line(profile@) && exists|i: int|
                0 <= i < replies.len() && (#[trigger] replies[i]) is Text && has_word(
                    trimmed(replies[i]->Text_0),
                    profile@,
                )
        }),
{
    let steps = startup_steps(config);
    law_file_writes_are_planned(steps, replies, path, contents);
    let write = Step::WriteFile(path, contents);
    if steps.contains(write) {
        let k = choose|k: int| 0 <= k < steps.len() && steps[k] == write;
        lemma_startup_step(config, k);
    } else {
        let (k, i) = choose|k: int, i: int|
            0 <= k < steps.len() && 0 <= i < replies.len() && replies[i] is Text && #[trigger]
                writes_for(steps[k], replies[i]->Text_0, path, contents);
        lemma_startup_step(config, k);
        let text = replies[i]->Text_0;
        let more = after_text(steps[k], text)->Ok_0;
        let m = choose|m: int| 0 <= m < more.len() && more[m] == write;
        assert(steps[k] is SetCharging);
        assert(m == 0);
    }
}

/// The write that sets a switch, where a position is configured.
pub open spec fn is_switch_write(
    relative: Seq<char>,
    value: Option<bool>,
    path: Seq<char>,
    contents: Seq<char>,
) -> bool {
    value matches Some(value) && path == sysfs_path(relative) && contents == switch_line(value)
}

proof fn lemma_startup_step(config: Config, k: int)
    requires
        0 <= k < startup_steps(config).len(),
    ensures
        ({
            let step = startup_steps(config)[k];
            ||| step is WriteInt
            ||| step is Log
            ||| config.charging_profile matches Some(profile) && step == Step::SetCharging(
                profile@,
            )
            ||| step matches Step::WriteFile(path, contents) && (is_switch_write(
                AC_AUTO_BOOT@,
                config.ac_auto_boot,
                path,
                contents,
            ) || is_switch_write(USB_POWERSHARE@, config.usb_powershare, path, contents)
                || is_switch_write(FN_LOCK@, config.fn_lock, path, contents))
        }),
{
}

proof fn lemma_step_performed(steps: Seq<StepModel>, replies: Seq<ReplyModel>, step: StepModel)
    requires
        steps.contains(step),
        played(steps, replies).len() == 0,
    ensures
        performs(steps, replies, action_of(step)),
        step matches Step::SetCharging(profile) ==> performs(
            steps,
            replies,
            Action::WriteFile(sysfs_path(CHARGING_PROFILE@), value_line(profile)),
        ),
{
    let k = choose|k: int| 0 <= k < steps.len() && steps[k] == step;
    law_success_performs_every_step(steps, replies, k);
    if step is SetCharging {
        law_success_performs_what_follows(steps, replies, k);
        let i = choose|i: int|
            0 <= i < replies.len() && #[trigger] has_led_on(steps, replies, k, i);
        let more = after(steps[k], replies[i])->Ok_0;
        assert(performs(steps, replies, action_of(more[0])));
    }
}

proof fn lemma_settings_are_steps(config: Config)
    ensures
        config.profile matches Some(profile) ==> startup_steps(config).contains(
            Step::WriteInt(Request::SetUwPerfProf, profile_id(profile)),
        ),
        config.charging_profile matches Some(profile) ==> startup_steps(config).contains(
            Step::SetCharging(profile@),
        ),
        config.ac_auto_boot matches Some(value) ==> startup_steps(config).contains(
            Step::WriteFile(sysfs_path(AC_AUTO_BOOT@), switch_line(value)),
        ),
        config.usb_powershare matches Some(value) ==> startup_steps(config).contains(
            Step::WriteFile(sysfs_path(USB_POWERSHARE@), switch_line(value)),
        ),
        config.fn_lock matches Some(value) ==> startup_steps(config).contains(
            Step::WriteFile(sysfs_path(FN_LOCK@), switch_line(value)),
        ),
{
    let steps = startup_steps(config);
    let first = profile_setting(config.profile);
    let second = first + charging_setting(config.charging_profile);
    let third = second + switch_setting(
        "ac_auto_boot"@,
        sysfs_path(AC_AUTO_BOOT@),
        config.ac_auto_boot,
    );
    let fourth = third + switch_setting(
        "usb_powershare"@,
        sysfs_path(USB_POWERSHARE@),
        config.usb_powershare,
    );
    if let Some(profile) = config.profile {
        assert(steps[0] == first[0]);
    }
    if let Some(profile) = config.charging_profile {
        assert(steps[first.len() as int] == Step::SetCharging(profile@));
    }
    if let Some(value) = config.ac_auto_boot {
        assert(steps[second.len() as int] is WriteFile);
    }
    if let Some(value) = config.usb_powershare {
        assert(steps[third.len() as int] is WriteFile);
    }
    if let Some(value) = config.fn_lock {
        assert(steps[fourth.len() as int] is WriteFile);
    }
}

/// If the settings are applied with success, every one that is configured has been written.
pub proof fn law_startup_applies_everything(config: Config, replies: Seq<ReplyModel>)
    requires
        played(startup_steps(config), replies).len() == 0,
    ensures
        config.profile matches Some(profile) ==> performs(
            startup_steps(config),
            replies,
            Action::WriteInt(Request::SetUwPerfProf, profile_id(profile)),
        ),
        config.charging_profile matches Some(profile) ==> performs(
            startup_steps(config),
            replies,
            Action::WriteFile(sysfs_path(CHARGING_PROFILE@), value_line(profile@)),
        ),
        config.ac_auto_boot matches Some(value) ==> performs(
            startup_steps(config),
            replies,
            Action::WriteFile(sysfs_path(AC_AUTO_BOOT@), switch_line(value)),
        ),
        config.usb_powershare matches Some(value) ==> performs(
            startup_steps(config),
            replies,
            Action::WriteFile(sysfs_path(USB_POWERSHARE@), switch_line(value)),
        ),
        config.fn_lock matches Some(value) ==> performs(
            startup_steps(config),
            replies,
            Action::WriteFile(sysfs_path(FN_LOCK@), switch_line(value)),
        ),
{
    let steps = startup_steps(config);
    lemma_settings_are_steps(config);
    if let Some(profile) = config.profile {
        let write = Step::WriteInt(Request::SetUwPerfProf, profile_id(profile));
        lemma_step_performed(steps, replies, write);
    }
    if let Some(profile) = config.charging_profile {
        lemma_step_performed(steps, replies, Step::SetCharging(profile@));
    }
    if let Some(value) = config.ac_auto_boot {
        let write = Step::WriteFile(sysfs_path(AC_AUTO_BOOT@), switch_line(value));
        lemma_step_performed(steps, replies, write);
    }
    if let Some(value) = config.usb_powershare {
        let write = Step::WriteFile(sysfs_path(USB_POWERSHARE@), switch_line(value));
        lemma_step_performed(steps, replies, write);
    }
    if let Some(value) = config.fn_lock {
        let write = Step::WriteFile(sysfs_path(FN_LOCK@), switch_line(value));
        lemma_step_performed(steps, replies, write);
    }
}

/// A sleep is cut into pieces that never reach beyond its end, and between two of which no
/// more than a quarter of a second goes by.
pub proof fn law_sleep_chunks(duration_ms: u64, elapsed_ns: u128)
    ensures
        chunk_nanos(duration_ms, elapsed_ns) <= nanos(LOOK_MS),
        elapsed_ns < nanos(duration_ms) ==> 0 < chunk_nanos(duration_ms, elapsed_ns) && elapsed_ns
            + chunk_nanos(duration_ms, elapsed_ns) <= nanos(duration_ms),
{
}

/// A sleep goes on until its time is up, a million nanoseconds for each millisecond, and no
/// longer than until the daemon is to stop.
pub proof fn law_sleep_lasts(duration_ms: u64, elapsed_ns: u128)
    ensures
        !sleeps_on(duration_ms, elapsed_ns, true),
        sleeps_on(duration_ms, elapsed_ns, false) <==> elapsed_ns < duration_ms * 1_000_000,
{
}

/// A piece of a sleep is a quarter of a second, or the rest of it where that is less.
pub proof fn law_sleep_piece(duration_ms: u64, elapsed_ns: u128)
    ensures
        ({
            let rest = duration_ms * 1_000_000 - elapsed_ns;
            let piece = chunk_nanos(duration_ms, elapsed_ns) as int;
            &&& rest >= 250_000_000 ==> piece == 250_000_000
            &&& 0 <= rest <= 250_000_000 ==> piece == rest
            &&& rest <= 0 ==> piece == 0
        }),
{
}

/// A path is waited for until it is there, with a look every quarter of a second, as long as
/// the time is not up. Then it is too late.
pub proof fn law_waiting(path: Seq<char>, timeout_ms: u64, elapsed_ns: u128, exists: bool)
    ensures
        ({
            let wait = wait_outcome(path, timeout_ms, elapsed_ns, exists);
            let in_time = elapsed_ns < timeout_ms * 1_000_000;
            &&& in_time && exists ==> wait == Wait::<Seq<char>>::Ready
            &&& in_time && !exists ==> wait == Wait::<Seq<char>>::Pause(250)
            &&& !in_time ==> wait == Wait::TimedOut(
                path + " did not appear within "@ + duration_text(timeout_ms as nat),
            )
        }),
{
}

/// The settings that a file gives are those that the daemon uses; without a file it uses none,
/// runs no fans, and would follow the silent preset.
pub proof fn law_loaded_settings(file: Option<ConfigFile>)
    ensures
        ({
            let config = loaded_config(file);
            &&& file matches Some(file) ==> {
                &&& config.profile == file.profile
                &&& config.charging_profile == file.charging_profile
                &&& config.ac_auto_boot == file.ac_auto_boot
                &&& config.usb_powershare == file.usb_powershare
                &&& config.fn_lock == file.fn_lock
                &&& file.fan matches Some(fan) ==> {
                    &&& fan.enabled matches Some(enabled) ==> config.fan.enabled == enabled
                    &&& fan.interval_ms matches Some(millis) ==> config.fan.interval_ms == millis
                    &&& fan.hysteresis_c matches Some(degrees) ==> config.fan.hysteresis_c
                        == degrees
                    &&& fan.preset matches Some(preset) ==> config.fan.preset == preset
                    &&& config.fan.curve == fan.curve
                }
            }
            &&& file is None ==> {
                &&& config.profile is None
                &&& config.charging_profile is None
                &&& config.ac_auto_boot is None
                &&& config.usb_powershare is None
                &&& config.fn_lock is None
                &&& !config.fan.enabled
                &&& config.fan.interval_ms == 1_000
                &&& config.fan.hysteresis_c == 5
                &&& config.fan.preset == FanPreset::Silent
                &&& config.fan.curve is None
            }
        }),
{
    if let Some(file) = file {
        law_given_settings_are_used(file);
    }
}

proof fn lemma_pair_carried_out(first: StepModel, line: Seq<char>, told: ReplyModel)
    requires
        first is WriteInt || first is WriteFile,
    ensures
        carries_out(
            seq![first, Step::Log(line)],
            seq![Reply::Done, told],
            seq![action_of(first), Action::Log(line)],
        ),
{
    lemma_nothing_carried_out();
    let log = Step::Log(line);
    lemma_step_carried_out(log, told, Seq::empty(), Seq::empty(), Seq::empty());
    lemma_step_carried_out(first, Reply::Done, Seq::empty(), Seq::empty(), Seq::empty());
    let none = Seq::<ReplyModel>::empty();
    let nothing = Seq::<ActionModel>::empty();
    let done = Reply::<Seq<char>, Seq<u8>>::Done;
    law_parts_carried_out(
        seq![first],
        seq![done] + none,
        seq![action_of(first)] + nothing,
        seq![log],
        seq![told] + none,
        seq![Action::Log(line)] + nothing,
    );
    assert(seq![first] + seq![log] =~= seq![first, log]);
    assert((seq![done] + none) + (seq![told] + none) =~= seq![done, told]);
    assert((seq![action_of(first)] + nothing) + (seq![Action::Log(line)] + nothing) =~= seq![
        action_of(first),
        Action::Log(line),
    ]);
}

/// What the daemon writes and logs for a switch that is configured, and the replies to it.
pub open spec fn switch_run(
    name: Seq<char>,
    relative: Seq<char>,
    value: Option<bool>,
    told: ReplyModel,
) -> (Seq<ReplyModel>, Seq<ActionModel>) {
    match value {
        Some(value) => (
            seq![Reply::Done, told],
            seq![
                Action::WriteFile(
                    sysfs_path(relative),
                    if value {
                        "1"@.push('\n')
                    } else {
                        "0"@.push('\n')
                    },
                ),
                Action::Log(
                    name + ": set "@ + if value {
                        "on"@
                    } else {
                        "off"@
                    },
                ),
            ],
        ),
        None => (seq![], seq![]),
    }
}

proof fn lemma_switch_run(
    name: Seq<char>,
    relative: Seq<char>,
    value: Option<bool>,
    told: ReplyModel,
)
    ensures
        ({
            let run = switch_run(name, relative, value, told);
            carries_out(switch_setting(name, sysfs_path(relative), value), run.0, run.1)
        }),
{
    lemma_nothing_carried_out();
    if let Some(on) = value {
        let steps = switch_setting(name, sysfs_path(relative), value);
        lemma_pair_carried_out(steps[0], steps[1]->Log_0, told);
        assert(steps =~= seq![steps[0], steps[1]]);
    }
}

/// What the daemon writes and logs for a performance profile that is configured, and the
/// replies to it.
pub open spec fn profile_run(profile: Option<PerformanceProfile>, told: ReplyModel) -> (
    Seq<ReplyModel>,
    Seq<ActionModel>,
) {
    match profile {
        Some(profile) => {
            let (id, name) = match profile {
                PerformanceProfile::PowerSave => (1i32, "power_save"@),
                PerformanceProfile::Enthusiast => (2i32, "enthusiast"@),
                PerformanceProfile::Overboost => (3i32, "overboost"@),
            };
            (
                seq![Reply::Done, told],
                seq![
                    Action::WriteInt(Request::SetUwPerfProf, id),
                    Action::Log("profile: set "@ + name),
                ],
            )
        },
        None => (seq![], seq![]),
    }
}

/// What the daemon reads, writes and logs for a charging profile that is configured, and the
/// replies to it, where the list of profiles holds `list`.
pub open spec fn charging_run(
    profile: Option<String>,
    list: Seq<char>,
    told: ReplyModel,
) -> (Seq<ReplyModel>, Seq<ActionModel>) {
    match profile {
        Some(profile) => (
            seq![Reply::Text(list), Reply::Done, told],
            seq![
                Action::ReadFile(sysfs_path(CHARGING_PROFILES_AVAILABLE@)),
                Action::WriteFile(sysfs_path(CHARGING_PROFILE@), profile@.push('\n')),
                Action::Log("charging_profile: set "@ + profile@),
            ],
        ),
        None => (seq![], seq![]),
    }
}

proof fn lemma_profile_run(profile: Option<PerformanceProfile>, told: ReplyModel)
    ensures
        ({
            let run = profile_run(profile, told);
            carries_out(profile_setting(profile), run.0, run.1)
        }),
{
    lemma_nothing_carried_out();
    if profile is Some {
        let steps = profile_setting(profile);
        lemma_pair_carried_out(steps[0], steps[1]->Log_0, told);
        assert(steps =~= seq![steps[0], steps[1]]);
    }
}

proof fn lemma_charging_run(profile: Option<String>, list: Seq<char>, told: ReplyModel)
    requires
        profile matches Some(profile) ==> has_word(trimmed(list), profile@),
    ensures
        ({
            let run = charging_run(profile, list, told);
            carries_out(charging_setting(profile), run.0, run.1)
        }),
{
    lemma_nothing_carried_out();
    if let Some(name) = profile {
        let step = Step::SetCharging(name@);
        let run = charging_run(profile, list, told);
        let more = after(step, Reply::Text(list))->Ok_0;
        lemma_pair_carried_out(more[0], more[1]->Log_0, told);
        assert(more =~= seq![more[0], more[1]]);
        let replies = seq![Reply::Done, told];
        let actions = seq![action_of(more[0]), Action::Log(more[1]->Log_0)];
        lemma_step_carried_out(step, Reply::Text(list), more, replies, actions);
        assert(seq![Reply::Text(list)] + replies =~= run.0);
        assert(seq![action_of(step)] + actions =~= run.1);
    }
}

/// Applying the settings does what is configured and nothing else, in this order: performance
/// profile, charging profile, start on AC, USB powershare, Fn lock.
pub proof fn law_startup_run(config: Config, list: Seq<char>, told: ReplyModel)
    requires
        config.charging_profile matches Some(profile) ==> has_word(trimmed(list), profile@),
    ensures
        ({
            let first = profile_run(config.profile, told);
            let second = charging_run(config.charging_profile, list, told);
            let third = switch_run("ac_auto_boot"@, AC_AUTO_BOOT@, config.ac_auto_boot, told);
            let fourth = switch_run(
                "usb_powershare"@,
                USB_POWERSHARE@,
                config.usb_powershare,
                told,
            );
            let fifth = switch_run("fn_lock"@, FN_LOCK@, config.fn_lock, told);
            carries_out(
                startup_steps(config),
                first.0 + second.0 + third.0 + fourth.0 + fifth.0,
                first.1 + second.1 + third.1 + fourth.1 + fifth.1,
            )
        }),
{
    let first = profile_run(config.profile, told);
    let second = charging_run(config.charging_profile, list, told);
    let third = switch_run("ac_auto_boot"@, AC_AUTO_BOOT@, config.ac_auto_boot, told);
    let fourth = switch_run("usb_powershare"@, USB_POWERSHARE@, config.usb_powershare, told);
    let fifth = switch_run("fn_lock"@, FN_LOCK@, config.fn_lock, told);
    lemma_profile_run(config.profile, told);
    lemma_charging_run(config.charging_profile, list, told);
    lemma_switch_run("ac_auto_boot"@, AC_AUTO_BOOT@, config.ac_auto_boot, told);
    lemma_switch_run("usb_powershare"@, USB_POWERSHARE@, config.usb_powershare, told);
    lemma_switch_run("fn_lock"@, FN_LOCK@, config.fn_lock, told);
    let s1 = profile_setting(config.profile);
    let s2 = charging_setting(config.charging_profile);
    let s3 = switch_setting("ac_auto_boot"@, sysfs_path(AC_AUTO_BOOT@), config.ac_auto_boot);
    let s4 = switch_setting("usb_powershare"@, sysfs_path(USB_POWERSHARE@), config.usb_powershare);
    let s5 = switch_setting("fn_lock"@, sysfs_path(FN_LOCK@), config.fn_lock);
    let r2 = first.0 + second.0;
    let a2 = first.1 + second.1;
    law_parts_carried_out(s1, first.0, first.1, s2, second.0, second.1);
    law_parts_carried_out(s1 + s2, r2, a2, s3, third.0, third.1);
    let r3 = r2 + third.0;
    let a3 = a2 + third.1;
    law_parts_carried_out(s1 + s2 + s3, r3, a3, s4, fourth.0, fourth.1);
    law_parts_carried_out(
        s1 + s2 + s3 + s4,
        r3 + fourth.0,
        a3 + fourth.1,
        s5,
        fifth.0,
        fifth.1,
    );
}

/// A configured charging profile that is none of the words of the list ends the start and is
/// named together with the list.
pub proof fn law_unlisted_setting_refused(profile: Seq<char>, list: Seq<char>)
    requires
        !has_word(trimmed(list), profile),
    ensures
        after(Step::SetCharging(profile), Reply::Text(list))
            == Err::<Seq<StepModel>, FailureModel>(
            Failure::Message(
                profile + " is not in available "@ + "charging profiles"@ + ": "@ + trimmed(list),
            ),
        ),
{
}

/// When the settings are applied, nothing is written to the driver but the number of the
/// configured performance profile.
pub proof fn law_startup_driver_writes(config: Config, replies: Seq<ReplyModel>)
    ensures
        match next_action(played(startup_steps(config), replies)) {
            Action::WriteInt(request, value) => {
                &&& request == Request::SetUwPerfProf
                &&& config.profile matches Some(profile) && value == match profile {
                    PerformanceProfile::PowerSave => 1i32,
                    PerformanceProfile::Enthusiast => 2i32,
                    PerformanceProfile::Overboost => 3i32,
                }
            },
            Action::Signal(_) => false,
            _ => true,
        },
{
    let steps = startup_steps(config);
    law_driver_writes_are_planned(steps, replies);
    let action = next_action(played(steps, replies));
    if action is WriteInt || action is Signal {
        let k = choose|k: int|
            0 <= k < steps.len() && action_of(#[trigger] steps[k]) == action && (steps[k]
                is WriteInt || steps[k] is Signal);
        lemma_startup_driver_step(config, k);
    }
}

proof fn lemma_startup_driver_step(config: Config, k: int)
    requires
        0 <= k < startup_steps(config).len(),
    ensures
        !(startup_steps(config)[k] is Signal),
        startup_steps(config)[k] is WriteInt ==> config.profile is Some && startup_steps(config)[k]
            == Step::<Seq<char>>::WriteInt(
            Request::SetUwPerfProf,
            profile_id(config.profile->0),
        ),
{
}

/// The device can be used if it opens and the driver says 1; any other number is refused.
pub proof fn law_open_outcomes(value: i32)
    ensures
        next_action(open_steps()) == Action::<Seq<char>>::Open,
        ({
            let opened = resumed(open_steps(), Reply::Done);
            let asked = resumed(opened, Reply::Int(value));
            &&& next_action(opened) == Action::<Seq<char>>::ReadInt(Request::HwcheckUw)
            &&& value == 1 ==> next_action(asked) == Action::<Seq<char>>::Finish
            &&& value != 1 ==> next_action(asked) == Action::Fail(
                Failure::Message("Uniwill interface is not available"@),
            )
        }),
{
    let opened = resumed(open_steps(), Reply::Done);
    assert(opened =~= seq![Step::<Seq<char>>::RequireUniwill]);
}

/// The message that there are no settings names the path that was looked at.
pub proof fn law_missing_file_is_named(path: Seq<char>)
    ensures
        no_config_message(path) == "config "@ + path + " not found; using defaults"@,
{
}

} // verus!
