//! The commands of the command line and the steps that carry them out.

use vstd::prelude::*;

use crate::fan::{law_raw_in_range, percent_to_raw, raw_of_percent, NB02_FAN_SPEED_MAX};
use crate::ioctl::Request;
use crate::number::{decimal, decimal_text, parsed_u32, NumberError};
use crate::profile::{profile_id, profile_name, PerformanceProfile};
use crate::session::{
    at_rest, has_failed, has_led_on, is_change, law_driver_writes_are_planned,
    law_reading_changes_nothing, law_rest_is_final, law_session_ends,
    law_success_performs_every_step, law_success_performs_what_follows,
    law_success_reaches_every_step, lemma_longest_run_sum, lemma_played_once, lemma_played_split,
    lemma_short_run, longest_run, next_action, only_reads, performs, played, resumed,
    Session,
};
use crate::step::{
    action_of, after, steps_model, Action, ActionModel, Failure, FileForm, IntForm, Reply,
    ReplyModel, Step, StepModel,
};
use crate::sysfs::{
    bool_word, charging_refusal, label_for, line_of, path_label, switch_line, switch_word, sysfs,
    sysfs_path, value_line, AC_AUTO_BOOT, BRIGHTNESS, CHARGING_PROFILE,
    CHARGING_PROFILES_AVAILABLE, FN_LOCK, MAX_BRIGHTNESS, USB_POWERSHARE,
};
use crate::text::{has_word, trim, trimmed};

verus! {

/// The position of a switch.
#[derive(Copy, Clone, Debug, PartialEq, Eq, Structural)]
pub enum OnOff {
    On,
    Off,
}

impl From<OnOff> for bool {
    fn from(value: OnOff) -> (on: bool) {
        matches!(value, OnOff::On)
    }
}

impl vstd::std_specs::convert::FromSpecImpl<OnOff> for bool {
    open spec fn obeys_from_spec() -> bool {
        true
    }

    open spec fn from_spec(value: OnOff) -> bool {
        value == OnOff::On
    }
}

/// What to do with the fans.
#[derive(Copy, Clone, Debug, PartialEq, Eq, Structural)]
pub enum FanCommand {
    /// Report on them.
    Status,
    /// Run one, counted from 1, at a fixed percentage.
    SetTo { fan: u8, percent: u8 },
    /// Hand them back to the firmware.
    Auto,
}

/// What to do with the performance profile.
#[derive(Copy, Clone, Debug, PartialEq, Eq, Structural)]
pub enum ProfileCommand {
    /// List those to choose from.
    List,
    /// Show the one in use.
    Get,
    /// Choose one.
    SetTo { profile: PerformanceProfile },
}

/// What to do with the charging profile. `S` stands for text.
#[derive(Debug, PartialEq, Eq)]
pub enum ChargingCommand<S> {
    /// List those to choose from.
    List,
    /// Show the one in use.
    Get,
    /// Choose one.
    SetTo { profile: S },
}

/// What to do with the light of the keyboard.
#[derive(Copy, Clone, Debug, PartialEq, Eq, Structural)]
pub enum BacklightCommand {
    /// Show the brightness and the highest one.
    Get,
    /// Set the brightness.
    SetTo { brightness: u32 },
}

/// What to do with a switch.
#[derive(Copy, Clone, Debug, PartialEq, Eq, Structural)]
pub enum BoolCommand {
    /// Show its position.
    Get,
    /// Set its position.
    SetTo { value: OnOff },
}

/// A command of the command line. `S` stands for text.
#[derive(Debug, PartialEq, Eq)]
pub enum Command<S> {
    /// Show everything.
    Status,
    /// Show what the driver says of itself.
    Info,
    Fans(FanCommand),
    Profile(ProfileCommand),
    Charging(ChargingCommand<S>),
    Backlight(BacklightCommand),
    FnLock(BoolCommand),
    AcAutoBoot(BoolCommand),
    UsbPowershare(BoolCommand),
}

impl View for ChargingCommand<String> {
    type V = ChargingCommand<Seq<char>>;

    open spec fn view(&self) -> ChargingCommand<Seq<char>> {
        match self {
            ChargingCommand::List => ChargingCommand::List,
            ChargingCommand::Get => ChargingCommand::Get,
            ChargingCommand::SetTo { profile } => ChargingCommand::SetTo { profile: profile@ },
        }
    }
}

impl View for Command<String> {
    type V = Command<Seq<char>>;

    open spec fn view(&self) -> Command<Seq<char>> {
        match self {
            Command::Status => Command::Status,
            Command::Info => Command::Info,
            Command::Fans(command) => Command::Fans(*command),
            Command::Profile(command) => Command::Profile(*command),
            Command::Charging(command) => Command::Charging(command@),
            Command::Backlight(command) => Command::Backlight(*command),
            Command::FnLock(command) => Command::FnLock(*command),
            Command::AcAutoBoot(command) => Command::AcAutoBoot(*command),
            Command::UsbPowershare(command) => Command::UsbPowershare(*command),
        }
    }
}

/// The steps that show what the driver says of itself.
pub open spec fn info_steps() -> Seq<StepModel> {
    seq![
        Step::Open,
        Step::ShowString("module_version"@, Request::ModVersion),
        Step::ShowInt("uniwill_available"@, Request::HwcheckUw, IntForm::Truth),
        Step::ShowString("interface"@, Request::UwHwIfStr),
        Step::ShowInt("model_id"@, Request::UwModelId, IntForm::Number),
    ]
}

/// The steps that carry out a command on the fans. Whether a fan and a percentage make sense
/// is looked at after the device.
pub open spec fn fans_steps(command: FanCommand) -> Seq<StepModel> {
    seq![Step::Open, Step::RequireUniwill] + match command {
        FanCommand::Status => seq![Step::CountFirstFan],
        FanCommand::SetTo { fan, percent } => if !(1 <= fan <= 2) {
            seq![Step::Refuse(Failure::Message("fan must be 1 or 2"@))]
        } else if percent > 100 {
            seq![Step::Refuse(Failure::Message("percent must be 0..=100"@))]
        } else {
            seq![
                Step::WriteInt(
                    if fan == 1 {
                        Request::SetUwFanspeed
                    } else {
                        Request::SetUwFanspeed2
                    },
                    raw_of_percent(percent as int) as i32,
                ),
                Step::Print(fan_set_line(fan, percent)),
            ]
        },
        FanCommand::Auto => seq![
            Step::Signal(Request::SetUwFanauto),
            Step::Print("fans: automatic mode requested"@),
        ],
    }
}

/// The report that a fan was set.
pub open spec fn fan_set_line(fan: u8, percent: u8) -> Seq<char> {
    "fan"@ + decimal(fan as nat) + ": set "@ + decimal(percent as nat) + "% (raw "@ + decimal(
        raw_of_percent(percent as int) as nat,
    ) + ")"@
}

/// The steps that carry out a command on the performance profile.
pub open spec fn profile_steps(command: ProfileCommand) -> Seq<StepModel> {
    seq![Step::Open, Step::RequireUniwill] + match command {
        ProfileCommand::List => seq![Step::ShowProfiles],
        ProfileCommand::Get => seq![Step::ShowProfile],
        ProfileCommand::SetTo { profile } => seq![
            Step::WriteInt(Request::SetUwPerfProf, profile_id(profile)),
            Step::Print("profile: set "@ + profile_name(profile)),
        ],
    }
}

/// The steps that carry out a command on the charging profile.
pub open spec fn charging_steps(command: ChargingCommand<Seq<char>>) -> Seq<StepModel> {
    let current = sysfs_path(CHARGING_PROFILE@);
    let available = sysfs_path(CHARGING_PROFILES_AVAILABLE@);
    match command {
        ChargingCommand::List => seq![
            Step::EnsureAvailable(available),
            Step::ShowFile("available_charging_profiles"@, available, FileForm::Text),
        ],
        ChargingCommand::Get => seq![
            Step::EnsureAvailable(current),
            Step::ShowFile("charging_profile"@, current, FileForm::Text),
        ],
        ChargingCommand::SetTo { profile } => seq![
            Step::EnsureAvailable(available),
            Step::ChooseCharging(trimmed(profile)),
        ],
    }
}

/// The steps that carry out a command on the light of the keyboard.
pub open spec fn backlight_steps(command: BacklightCommand) -> Seq<StepModel> {
    match command {
        BacklightCommand::Get => seq![
            Step::EnsureAvailable(sysfs_path(BRIGHTNESS@)),
            Step::Brightness,
        ],
        BacklightCommand::SetTo { brightness } => seq![
            Step::EnsureAvailable(sysfs_path(MAX_BRIGHTNESS@)),
            Step::LimitBrightness(brightness),
        ],
    }
}

/// The steps that show the position of the switch at a path, behind a label.
pub open spec fn switch_steps(label: Seq<char>, path: Seq<char>) -> Seq<StepModel> {
    seq![Step::EnsureAvailable(path), Step::ShowFile(label, path, FileForm::Switch)]
}

/// The steps that write a line to an attribute that has to be there.
pub open spec fn write_steps(path: Seq<char>, contents: Seq<char>) -> Seq<StepModel> {
    seq![Step::EnsureAvailable(path), Step::WriteFile(path, contents)]
}

/// The steps that carry out a command on the switch at a path.
pub open spec fn bool_steps(command: BoolCommand, path: Seq<char>) -> Seq<StepModel> {
    match command {
        BoolCommand::Get => switch_steps(path_label(path), path),
        BoolCommand::SetTo { value } => write_steps(path, switch_line(value == OnOff::On)) + seq![
            Step::Print(path_label(path) + ": set "@ + switch_word(value == OnOff::On)),
        ],
    }
}

/// The steps that show everything, with an empty line between one subject and the next.
pub open spec fn status_steps() -> Seq<StepModel> {
    let blank = seq![Step::Print(""@)];
    info_steps() + blank + fans_steps(FanCommand::Status) + blank + profile_steps(
        ProfileCommand::Get,
    ) + profile_steps(ProfileCommand::List) + blank + charging_steps(ChargingCommand::Get)
        + charging_steps(ChargingCommand::List) + blank + backlight_steps(BacklightCommand::Get)
        + switch_steps("fn_lock"@, sysfs_path(FN_LOCK@)) + switch_steps(
        "ac_auto_boot"@,
        sysfs_path(AC_AUTO_BOOT@),
    ) + switch_steps("usb_powershare"@, sysfs_path(USB_POWERSHARE@))
}

/// The steps that carry out a command.
pub open spec fn command_steps(command: Command<Seq<char>>) -> Seq<StepModel> {
    match command {
        Command::Status => status_steps(),
        Command::Info => info_steps(),
        Command::Fans(command) => fans_steps(command),
        Command::Profile(command) => profile_steps(command),
        Command::Charging(command) => charging_steps(command),
        Command::Backlight(command) => backlight_steps(command),
        Command::FnLock(command) => bool_steps(command, sysfs_path(FN_LOCK@)),
        Command::AcAutoBoot(command) => bool_steps(command, sysfs_path(AC_AUTO_BOOT@)),
        Command::UsbPowershare(command) => bool_steps(command, sysfs_path(USB_POWERSHARE@)),
    }
}

fn joined(first: Vec<Step<String>>, second: Vec<Step<String>>) -> (steps: Vec<Step<String>>)
    ensures
        steps_model(steps@) == steps_model(first@) + steps_model(second@),
{
    let mut steps = first;
    let mut second = second;
    let ghost parts = (steps@, second@);
    steps.append(&mut second);
    assert(steps_model(steps@) == steps_model(parts.0) + steps_model(parts.1));
    steps
}

fn blank() -> (steps: Vec<Step<String>>)
    ensures
        steps_model(steps@) == seq![Step::Print(""@)],
{
    let steps = vec![Step::Print("".to_owned())];
    assert(steps_model(steps@) == seq![Step::Print(""@)]);
    steps
}

/// Shows what the driver says of itself.
pub fn print_info() -> (steps: Vec<Step<String>>)
    ensures
        steps_model(steps@) == info_steps(),
{
    let steps = vec![
        Step::Open,
        Step::ShowString("module_version".to_owned(), Request::ModVersion),
        Step::ShowInt("uniwill_available".to_owned(), Request::HwcheckUw, IntForm::Truth),
        Step::ShowString("interface".to_owned(), Request::UwHwIfStr),
        Step::ShowInt("model_id".to_owned(), Request::UwModelId, IntForm::Number),
    ];
    assert(steps_model(steps@) == info_steps());
    steps
}

/// Carries out a command on the fans.
pub fn run_fans(command: FanCommand) -> (steps: Vec<Step<String>>)
    ensures
        steps_model(steps@) == fans_steps(command),
{
    let mut steps = vec![Step::Open, Step::RequireUniwill];
    match command {
        FanCommand::Status => {
            steps.push(Step::CountFirstFan);
        },
        FanCommand::SetTo { fan, percent } => {
            if fan < 1 || fan > 2 {
                steps.push(Step::Refuse(Failure::Message("fan must be 1 or 2".to_owned())));
            } else if percent > 100 {
                steps.push(Step::Refuse(Failure::Message("percent must be 0..=100".to_owned())));
            } else {
                let raw: i32 = percent_to_raw(percent);
                proof {
                    law_raw_in_range(percent);
                }
                let request = if fan == 1 {
                    Request::SetUwFanspeed
                } else {
                    Request::SetUwFanspeed2
                };
                let mut line = "fan".to_owned();
                line.append(decimal_text(fan as u64).as_str());
                line.append(": set ");
                line.append(decimal_text(percent as u64).as_str());
                line.append("% (raw ");
                line.append(decimal_text(raw as u64).as_str());
                line.append(")");
                steps.push(Step::WriteInt(request, raw));
                steps.push(Step::Print(line));
            }
        },
        FanCommand::Auto => {
            steps.push(Step::Signal(Request::SetUwFanauto));
            steps.push(Step::Print("fans: automatic mode requested".to_owned()));
        },
    }
    assert(steps_model(steps@) == fans_steps(command));
    steps
}

/// Carries out a command on the performance profile.
pub fn run_profile(command: ProfileCommand) -> (steps: Vec<Step<String>>)
    ensures
        steps_model(steps@) == profile_steps(command),
{
    let mut steps = vec![Step::Open, Step::RequireUniwill];
    match command {
        ProfileCommand::List => {
            steps.push(Step::ShowProfiles);
        },
        ProfileCommand::Get => {
            steps.push(Step::ShowProfile);
        },
        ProfileCommand::SetTo { profile } => {
            let mut line = "profile: set ".to_owned();
            line.append(profile.name());
            steps.push(Step::WriteInt(Request::SetUwPerfProf, profile.id()));
            steps.push(Step::Print(line));
        },
    }
    assert(steps_model(steps@) == profile_steps(command));
    steps
}

/// Carries out a command on the charging profile.
pub fn run_charging(command: &ChargingCommand<String>) -> (steps: Vec<Step<String>>)
    ensures
        steps_model(steps@) == charging_steps(command@),
{
    let current = sysfs(CHARGING_PROFILE);
    let available = sysfs(CHARGING_PROFILES_AVAILABLE);
    let steps = match command {
        ChargingCommand::List => vec![
            Step::EnsureAvailable(available.clone()),
            Step::ShowFile("available_charging_profiles".to_owned(), available, FileForm::Text),
        ],
        ChargingCommand::Get => vec![
            Step::EnsureAvailable(current.clone()),
            Step::ShowFile("charging_profile".to_owned(), current, FileForm::Text),
        ],
        ChargingCommand::SetTo { profile } => vec![
            Step::EnsureAvailable(available),
            Step::ChooseCharging(trim(profile.as_str()).to_owned()),
        ],
    };
    assert(steps_model(steps@) == charging_steps(command@));
    steps
}

/// Carries out a command on the light of the keyboard.
pub fn run_backlight(command: BacklightCommand) -> (steps: Vec<Step<String>>)
    ensures
        steps_model(steps@) == backlight_steps(command),
{
    let steps = match command {
        BacklightCommand::Get => vec![
            Step::EnsureAvailable(sysfs(BRIGHTNESS)),
            Step::Brightness,
        ],
        BacklightCommand::SetTo { brightness } => vec![
            Step::EnsureAvailable(sysfs(MAX_BRIGHTNESS)),
            Step::LimitBrightness(brightness),
        ],
    };
    assert(steps_model(steps@) == backlight_steps(command));
    steps
}

/// Shows the position of the switch at a path, behind a label.
pub fn show_switch(label: &str, path: &str) -> (steps: Vec<Step<String>>)
    ensures
        steps_model(steps@) == switch_steps(label@, path@),
{
    let steps = vec![
        Step::EnsureAvailable(path.to_owned()),
        Step::ShowFile(label.to_owned(), path.to_owned(), FileForm::Switch),
    ];
    assert(steps_model(steps@) == switch_steps(label@, path@));
    steps
}

/// Writes a value to an attribute that has to be there.
pub fn write_value(path: &str, value: &str) -> (steps: Vec<Step<String>>)
    ensures
        steps_model(steps@) == write_steps(path@, value_line(value@)),
{
    let steps = vec![
        Step::EnsureAvailable(path.to_owned()),
        Step::WriteFile(path.to_owned(), line_of(value)),
    ];
    assert(steps_model(steps@) == write_steps(path@, value_line(value@)));
    steps
}

/// Carries out a command on the switch at a path.
pub fn run_bool(command: BoolCommand, path: &str) -> (steps: Vec<Step<String>>)
    ensures
        steps_model(steps@) == bool_steps(command, path@),
{
    let label = label_for(path);
    match command {
        BoolCommand::Get => show_switch(label.as_str(), path),
        BoolCommand::SetTo { value } => {
            let enabled: bool = bool::from(value);
            let mut line = label;
            line.append(": set ");
            line.append(bool_word(enabled));
            let mut steps = write_value(
                path,
                if enabled {
                    "1"
                } else {
                    "0"
                },
            );
            let ghost written = steps@;
            steps.push(Step::Print(line));
            assert(steps_model(steps@) == steps_model(written) + seq![Step::Print(line@)]);
            steps
        },
    }
}

/// Shows everything.
pub fn print_status() -> (steps: Vec<Step<String>>)
    ensures
        steps_model(steps@) == status_steps(),
{
    let steps = joined(print_info(), blank());
    let steps = joined(steps, run_fans(FanCommand::Status));
    let steps = joined(steps, blank());
    let steps = joined(steps, run_profile(ProfileCommand::Get));
    let steps = joined(steps, run_profile(ProfileCommand::List));
    let steps = joined(steps, blank());
    let steps = joined(steps, run_charging(&ChargingCommand::Get));
    let steps = joined(steps, run_charging(&ChargingCommand::List));
    let steps = joined(steps, blank());
    let steps = joined(steps, run_backlight(BacklightCommand::Get));
    let steps = joined(steps, show_switch("fn_lock", sysfs(FN_LOCK).as_str()));
    let steps = joined(steps, show_switch("ac_auto_boot", sysfs(AC_AUTO_BOOT).as_str()));
    joined(steps, show_switch("usb_powershare", sysfs(USB_POWERSHARE).as_str()))
}

/// The session that carries out a command.
pub fn run(command: &Command<String>) -> (session: Session)
    ensures
        session@ == command_steps(command@),
{
    let steps = match command {
        Command::Status => print_status(),
        Command::Info => print_info(),
        Command::Fans(command) => run_fans(*command),
        Command::Profile(command) => run_profile(*command),
        Command::Charging(command) => run_charging(command),
        Command::Backlight(command) => run_backlight(*command),
        Command::FnLock(command) => run_bool(*command, sysfs(FN_LOCK).as_str()),
        Command::AcAutoBoot(command) => run_bool(*command, sysfs(AC_AUTO_BOOT).as_str()),
        Command::UsbPowershare(command) => run_bool(*command, sysfs(USB_POWERSHARE).as_str()),
    };
    Session::new(steps)
}

/// A command that asks for information only.
pub open spec fn is_query(command: Command<Seq<char>>) -> bool {
    match command {
        Command::Status | Command::Info => true,
        Command::Fans(command) => command is Status,
        Command::Profile(command) => !(command is SetTo),
        Command::Charging(command) => !(command is SetTo),
        Command::Backlight(command) => command is Get,
        Command::FnLock(command) => command is Get,
        Command::AcAutoBoot(command) => command is Get,
        Command::UsbPowershare(command) => command is Get,
    }
}

/// A row of steps that only read.
pub open spec fn all_only_read(steps: Seq<StepModel>) -> bool {
    forall|k: int| 0 <= k < steps.len() ==> only_reads(#[trigger] steps[k])
}

proof fn lemma_parts_only_read(first: Seq<StepModel>, second: Seq<StepModel>)
    requires
        all_only_read(first),
        all_only_read(second),
    ensures
        all_only_read(first + second),
{
}

proof fn lemma_status_only_reads()
    ensures
        all_only_read(status_steps()),
{
    let blank = seq![Step::Print(""@)];
    let fans = fans_steps(FanCommand::Status);
    let profile = profile_steps(ProfileCommand::Get);
    let profiles = profile_steps(ProfileCommand::List);
    let charging = charging_steps(ChargingCommand::Get);
    let chargings = charging_steps(ChargingCommand::List);
    let backlight = backlight_steps(BacklightCommand::Get);
    let s = info_steps() + blank;
    lemma_parts_only_read(s, fans);
    let s = s + fans;
    lemma_parts_only_read(s, blank);
    let s = s + blank;
    lemma_parts_only_read(s, profile);
    let s = s + profile;
    lemma_parts_only_read(s, profiles);
    let s = s + profiles;
    lemma_parts_only_read(s, blank);
    let s = s + blank;
    lemma_parts_only_read(s, charging);
    let s = s + charging;
    lemma_parts_only_read(s, chargings);
    let s = s + chargings;
    lemma_parts_only_read(s, blank);
    let s = s + blank;
    lemma_parts_only_read(s, backlight);
    let s = s + backlight;
    let fn_lock = switch_steps("fn_lock"@, sysfs_path(FN_LOCK@));
    lemma_parts_only_read(s, fn_lock);
    let s = s + fn_lock;
    let ac_auto_boot = switch_steps("ac_auto_boot"@, sysfs_path(AC_AUTO_BOOT@));
    lemma_parts_only_read(s, ac_auto_boot);
    let s = s + ac_auto_boot;
    lemma_parts_only_read(s, switch_steps("usb_powershare"@, sysfs_path(USB_POWERSHARE@)));
}

/// A command that asks for information changes nothing, whatever the replies are.
pub proof fn law_queries_change_nothing(command: Command<Seq<char>>, replies: Seq<ReplyModel>)
    requires
        is_query(command),
    ensures
        !is_change(next_action(played(command_steps(command), replies))),
{
    if command is Status {
        lemma_status_only_reads();
    }
    assert(all_only_read(command_steps(command)));
    law_reading_changes_nothing(command_steps(command), replies);
}

/// A command on the fans or the performance profile changes nothing before the device was
/// opened and the driver said that the Uniwill interface is present.
pub proof fn law_no_change_without_uniwill(
    command: Command<Seq<char>>,
    replies: Seq<ReplyModel>,
)
    requires
        command is Fans || command is Profile,
        is_change(next_action(played(command_steps(command), replies))),
    ensures
        replies.len() >= 2,
        replies[0] is Done,
        replies[1] == Reply::<Seq<char>, Seq<u8>>::Int(1),
{
    let steps = command_steps(command);
    assert(steps[0] is Open && steps[1] is RequireUniwill);
    if replies.len() > 0 {
        let opened = resumed(steps, replies[0]);
        let rest = replies.drop_first();
        assert(played(steps, replies) == played(opened, rest));
        if !(replies[0] is Done) {
            law_rest_is_final(opened, rest);
        } else {
            assert(opened == steps.drop_first());
            assert(opened[0] is RequireUniwill);
            if rest.len() > 0 {
                assert(rest[0] == replies[1]);
                if rest[0] != Reply::<Seq<char>, Seq<u8>>::Int(1) {
                    law_rest_is_final(resumed(opened, rest[0]), rest.drop_first());
                }
            }
        }
    }
}

/// Where the driver says that the Uniwill interface is not present, a command on the fans or
/// the performance profile fails with that message.
pub proof fn law_missing_uniwill_is_reported(
    command: Command<Seq<char>>,
    value: i32,
    replies: Seq<ReplyModel>,
)
    requires
        command is Fans || command is Profile,
        value != 1,
        replies.len() >= 2,
        replies[0] is Done,
        replies[1] == Reply::<Seq<char>, Seq<u8>>::Int(value),
    ensures
        next_action(played(command_steps(command), replies)) == Action::Fail(
            Failure::Message("Uniwill interface is not available"@),
        ),
{
    let steps = command_steps(command);
    assert(steps[0] is Open && steps[1] is RequireUniwill);
    let opened = resumed(steps, replies[0]);
    let rest = replies.drop_first();
    assert(opened == steps.drop_first());
    assert(opened[0] is RequireUniwill);
    assert(rest[0] == replies[1]);
    assert(played(steps, replies) == played(opened, rest));
    law_rest_is_final(resumed(opened, rest[0]), rest.drop_first());
}

/// A fan or a percentage that there is none of is refused, once the driver can be used.
pub proof fn law_bad_fan_setting_refused(fan: u8, percent: u8, replies: Seq<ReplyModel>)
    requires
        !(1 <= fan <= 2) || percent > 100,
        replies.len() >= 2,
        replies[0] is Done,
        replies[1] == Reply::<Seq<char>, Seq<u8>>::Int(1),
    ensures
        next_action(played(fans_steps(FanCommand::SetTo { fan, percent }), replies))
            == Action::Fail(
            Failure::Message(
                if !(1 <= fan <= 2) {
                    "fan must be 1 or 2"@
                } else {
                    "percent must be 0..=100"@
                },
            ),
        ),
{
    let steps = fans_steps(FanCommand::SetTo { fan, percent });
    lemma_uniwill_present(steps, replies);
    assert(steps.skip(2)[0] == steps[2]);
    law_rest_is_final(steps.skip(2), replies.skip(2));
}

proof fn lemma_uniwill_present(steps: Seq<StepModel>, replies: Seq<ReplyModel>)
    requires
        steps.len() >= 2,
        steps[0] is Open,
        steps[1] is RequireUniwill,
        replies.len() >= 2,
        replies[0] is Done,
        replies[1] == Reply::<Seq<char>, Seq<u8>>::Int(1),
    ensures
        played(steps, replies) == played(steps.skip(2), replies.skip(2)),
{
    lemma_played_once(steps, replies);
    let opened = resumed(steps, replies[0]);
    assert(opened == steps.drop_first());
    lemma_played_once(opened, replies.drop_first());
    assert(resumed(opened, replies[1]) == steps.skip(2));
    assert(replies.drop_first().drop_first() == replies.skip(2));
}

/// A valid setting of a fan is written as soon as the driver can be used, and reported when
/// the driver has taken it.
pub proof fn law_fan_setting_written(
    fan: u8,
    percent: u8,
    replies: Seq<ReplyModel>,
    last: ReplyModel,
)
    requires
        1 <= fan <= 2,
        percent <= 100,
        replies.len() == 2,
        replies[0] is Done,
        replies[1] == Reply::<Seq<char>, Seq<u8>>::Int(1),
    ensures
        ({
            let ready = played(fans_steps(FanCommand::SetTo { fan, percent }), replies);
            let set = resumed(ready, Reply::Done);
            &&& next_action(ready) == Action::<Seq<char>>::WriteInt(
                if fan == 1 {
                    Request::SetUwFanspeed
                } else {
                    Request::SetUwFanspeed2
                },
                raw_of_percent(percent as int) as i32,
            )
            &&& next_action(set) == Action::Print(fan_set_line(fan, percent))
            &&& next_action(resumed(set, last)) == Action::<Seq<char>>::Finish
        }),
{
    let steps = fans_steps(FanCommand::SetTo { fan, percent });
    lemma_uniwill_present(steps, replies);
    assert(replies.skip(2).len() == 0);
    assert(steps.skip(2)[0] == steps[2]);
    let set = resumed(steps.skip(2), Reply::Done);
    assert(set == steps.skip(3));
    assert(set[0] == steps[3]);
}

/// What setting a fan writes to the driver goes to that fan, stands for the percentage, and
/// lies within the driver's scale. A fan or a percentage that there is none of leads to no
/// write at all.
pub proof fn law_fan_write_in_range(
    fan: u8,
    percent: u8,
    replies: Seq<ReplyModel>,
    request: Request,
    value: i32,
)
    requires
        next_action(played(fans_steps(FanCommand::SetTo { fan, percent }), replies))
            == Action::<Seq<char>>::WriteInt(request, value),
    ensures
        1 <= fan <= 2,
        percent <= 100,
        request == if fan == 1 {
            Request::SetUwFanspeed
        } else {
            Request::SetUwFanspeed2
        },
        value == raw_of_percent(percent as int),
        0 <= value <= NB02_FAN_SPEED_MAX,
{
    let steps = fans_steps(FanCommand::SetTo { fan, percent });
    law_driver_writes_are_planned(steps, replies);
    let k = choose|k: int|
        0 <= k < steps.len() && steps[k] == Step::<Seq<char>>::WriteInt(request, value);
    assert(steps[k] is WriteInt);
    if percent <= 100 {
        law_raw_in_range(percent);
    }
}

/// A charging profile is written only if it is, trimmed, one of the words of the list that was
/// read.
pub proof fn law_only_listed_profile_written(profile: Seq<char>, replies: Seq<ReplyModel>)
    requires
        is_change(
            next_action(
                played(charging_steps(ChargingCommand::SetTo { profile }), replies),
            ),
        ),
    ensures
        replies.len() == 3,
        replies[1] is Text,
        has_word(trimmed(replies[1]->Text_0), trimmed(profile)),
        next_action(played(charging_steps(ChargingCommand::SetTo { profile }), replies))
            == Action::WriteFile(sysfs_path(CHARGING_PROFILE@), value_line(trimmed(profile))),
{
    let s0 = charging_steps(ChargingCommand::SetTo { profile });
    lemma_write_after_reading(s0, replies);
}

/// A brightness is written only if it is not above the highest one that was read.
pub proof fn law_brightness_within_limit(brightness: u32, replies: Seq<ReplyModel>)
    requires
        is_change(
            next_action(
                played(backlight_steps(BacklightCommand::SetTo { brightness }), replies),
            ),
        ),
    ensures
        replies.len() == 3,
        replies[1] is Text,
        parsed_u32(trimmed(replies[1]->Text_0)) matches Ok(max) && brightness <= max,
        next_action(played(backlight_steps(BacklightCommand::SetTo { brightness }), replies))
            == Action::WriteFile(
            sysfs_path(BRIGHTNESS@),
            value_line(decimal(brightness as nat)),
        ),
{
    let s0 = backlight_steps(BacklightCommand::SetTo { brightness });
    lemma_write_after_reading(s0, replies);
}

/// A charging profile that is, trimmed, none of the words of the list is refused.
pub proof fn law_unlisted_profile_refused(
    profile: Seq<char>,
    list: Seq<char>,
    replies: Seq<ReplyModel>,
)
    requires
        !has_word(trimmed(list), trimmed(profile)),
        replies.len() >= 2,
        replies[0] == Reply::<Seq<char>, Seq<u8>>::Flag(true),
        replies[1] == Reply::<Seq<char>, Seq<u8>>::Text(list),
    ensures
        next_action(played(charging_steps(ChargingCommand::SetTo { profile }), replies))
            == Action::Fail(
            Failure::Message(charging_refusal(trimmed(profile), "profiles"@, trimmed(list))),
        ),
{
    lemma_refused_after_reading(charging_steps(ChargingCommand::SetTo { profile }), replies);
}

/// A brightness above the highest one is refused.
pub proof fn law_brightness_above_limit_refused(
    brightness: u32,
    limit: Seq<char>,
    max: u32,
    replies: Seq<ReplyModel>,
)
    requires
        parsed_u32(trimmed(limit)) == Ok::<u32, NumberError>(max),
        brightness > max,
        replies.len() >= 2,
        replies[0] == Reply::<Seq<char>, Seq<u8>>::Flag(true),
        replies[1] == Reply::<Seq<char>, Seq<u8>>::Text(limit),
    ensures
        next_action(played(backlight_steps(BacklightCommand::SetTo { brightness }), replies))
            == Action::Fail(
            Failure::Message("brightness must be 0..="@ + decimal(max as nat)),
        ),
{
    lemma_refused_after_reading(
        backlight_steps(BacklightCommand::SetTo { brightness }),
        replies,
    );
}

proof fn lemma_refused_after_reading(steps: Seq<StepModel>, replies: Seq<ReplyModel>)
    requires
        steps.len() == 2,
        steps[0] is EnsureAvailable,
        steps[1] is LimitBrightness || steps[1] is ChooseCharging,
        replies.len() >= 2,
        replies[0] == Reply::<Seq<char>, Seq<u8>>::Flag(true),
        after(steps[1], replies[1]) is Err,
    ensures
        next_action(played(steps, replies)) == Action::Fail(after(steps[1], replies[1])->Err_0),
{
    lemma_played_once(steps, replies);
    let available = resumed(steps, replies[0]);
    assert(available == seq![steps[1]]);
    let rest = replies.drop_first();
    lemma_played_once(available, rest);
    law_rest_is_final(resumed(available, rest[0]), rest.drop_first());
}

/// A charging profile that is, trimmed, one of the words of the list is written, if the
/// attribute for it is there, and reported when it has been written.
pub proof fn law_listed_profile_written(profile: Seq<char>, list: Seq<char>, last: ReplyModel)
    requires
        has_word(trimmed(list), trimmed(profile)),
    ensures
        ({
            let steps = charging_steps(ChargingCommand::SetTo { profile });
            let ready = resumed(
                resumed(resumed(steps, Reply::Flag(true)), Reply::Text(list)),
                Reply::Flag(true),
            );
            let written = resumed(ready, Reply::Done);
            &&& next_action(ready) == Action::WriteFile(
                sysfs_path(CHARGING_PROFILE@),
                value_line(trimmed(profile)),
            )
            &&& next_action(written) == Action::Print(
                "charging_profile: set "@ + trimmed(profile),
            )
            &&& next_action(resumed(written, last)) == Action::<Seq<char>>::Finish
        }),
{
    let steps = charging_steps(ChargingCommand::SetTo { profile });
    lemma_written_after_reading(steps, Reply::Text(list), last);
}

/// A brightness that is not above the highest one is written, if the attribute for it is
/// there, and reported when it has been written.
pub proof fn law_brightness_written(
    brightness: u32,
    limit: Seq<char>,
    max: u32,
    last: ReplyModel,
)
    requires
        parsed_u32(trimmed(limit)) == Ok::<u32, NumberError>(max),
        brightness <= max,
    ensures
        ({
            let steps = backlight_steps(BacklightCommand::SetTo { brightness });
            let ready = resumed(
                resumed(resumed(steps, Reply::Flag(true)), Reply::Text(limit)),
                Reply::Flag(true),
            );
            let written = resumed(ready, Reply::Done);
            &&& next_action(ready) == Action::WriteFile(
                sysfs_path(BRIGHTNESS@),
                value_line(decimal(brightness as nat)),
            )
            &&& next_action(written) == Action::Print(
                "backlight: set "@ + decimal(brightness as nat) + "/"@ + decimal(max as nat),
            )
            &&& next_action(resumed(written, last)) == Action::<Seq<char>>::Finish
        }),
{
    let steps = backlight_steps(BacklightCommand::SetTo { brightness });
    lemma_written_after_reading(steps, Reply::Text(limit), last);
}

proof fn lemma_written_after_reading(steps: Seq<StepModel>, read: ReplyModel, last: ReplyModel)
    requires
        steps.len() == 2,
        steps[0] is EnsureAvailable,
        steps[1] is LimitBrightness || steps[1] is ChooseCharging,
        after(steps[1], read) is Ok,
    ensures
        ({
            let more = after(steps[1], read)->Ok_0;
            let ready = resumed(
                resumed(resumed(steps, Reply::Flag(true)), read),
                Reply::Flag(true),
            );
            let written = resumed(ready, Reply::Done);
            &&& ready.len() > 0 && ready[0] == more[1]
            &&& written.len() > 0 && written[0] == more[2]
            &&& resumed(written, last).len() == 0
        }),
{
    let available = resumed(steps, Reply::Flag(true));
    assert(available == seq![steps[1]]);
    let more = after(steps[1], read)->Ok_0;
    let chosen = resumed(available, read);
    assert(chosen == more);
    assert(more[0] is EnsureAvailable && more[1] is WriteFile && more[2] is Print);
    let ready = resumed(chosen, Reply::Flag(true));
    assert(ready == more.drop_first());
    let written = resumed(ready, Reply::Done);
    assert(written == seq![more[2]]);
}

/// The attribute that a command looks for first, where it looks for one.
pub open spec fn first_attribute(command: Command<Seq<char>>) -> Option<Seq<char>> {
    match command {
        Command::Charging(command) => Some(
            sysfs_path(
                if command is Get {
                    CHARGING_PROFILE@
                } else {
                    CHARGING_PROFILES_AVAILABLE@
                },
            ),
        ),
        Command::Backlight(command) => Some(
            sysfs_path(
                if command is Get {
                    BRIGHTNESS@
                } else {
                    MAX_BRIGHTNESS@
                },
            ),
        ),
        Command::FnLock(_) => Some(sysfs_path(FN_LOCK@)),
        Command::AcAutoBoot(_) => Some(sysfs_path(AC_AUTO_BOOT@)),
        Command::UsbPowershare(_) => Some(sysfs_path(USB_POWERSHARE@)),
        _ => None,
    }
}

/// A command on an attribute that is not there fails and names it.
pub proof fn law_missing_attribute_reported(
    command: Command<Seq<char>>,
    path: Seq<char>,
    replies: Seq<ReplyModel>,
)
    requires
        first_attribute(command) == Some(path),
        replies.len() >= 1,
        replies[0] == Reply::<Seq<char>, Seq<u8>>::Flag(false),
    ensures
        next_action(command_steps(command)) == Action::Exists(path),
        next_action(played(command_steps(command), replies)) == Action::Fail(
            Failure::Missing(path),
        ),
{
    let steps = command_steps(command);
    assert(steps[0] == Step::EnsureAvailable(path));
    lemma_played_once(steps, replies);
    law_rest_is_final(resumed(steps, replies[0]), replies.drop_first());
}

/// A switch is written as it was asked for, if its attribute is there, and reported when it
/// has been written.
pub proof fn law_switch_written(value: OnOff, path: Seq<char>, last: ReplyModel)
    ensures
        ({
            let steps = bool_steps(BoolCommand::SetTo { value }, path);
            let ready = resumed(steps, Reply::Flag(true));
            let written = resumed(ready, Reply::Done);
            &&& next_action(steps) == Action::Exists(path)
            &&& next_action(ready) == Action::WriteFile(path, switch_line(value == OnOff::On))
            &&& next_action(written) == Action::Print(
                path_label(path) + ": set "@ + switch_word(value == OnOff::On),
            )
            &&& next_action(resumed(written, last)) == Action::<Seq<char>>::Finish
        }),
{
    let steps = bool_steps(BoolCommand::SetTo { value }, path);
    assert(steps.len() == 3 && steps[0] is EnsureAvailable && steps[1] is WriteFile && steps[2]
        is Print);
    let ready = resumed(steps, Reply::Flag(true));
    assert(ready == steps.drop_first());
    let written = resumed(ready, Reply::Done);
    assert(written == seq![steps[2]]);
}

proof fn lemma_write_after_reading(steps: Seq<StepModel>, replies: Seq<ReplyModel>)
    requires
        steps.len() == 2,
        steps[0] is EnsureAvailable,
        steps[1] is LimitBrightness || steps[1] is ChooseCharging,
        is_change(next_action(played(steps, replies))),
    ensures
        replies.len() == 3,
        replies[1] is Text,
        after(steps[1], replies[1]) is Ok,
        next_action(played(steps, replies)) == action_of(
            after(steps[1], replies[1])->Ok_0[1],
        ),
{
    assert(replies.len() > 0);
    let s1 = resumed(steps, replies[0]);
    let r1 = replies.drop_first();
    assert(played(steps, replies) == played(s1, r1));
    if has_failed(s1) {
        law_rest_is_final(s1, r1);
    }
    assert(s1 == seq![steps[1]]);
    assert(r1.len() > 0);
    assert(r1[0] == replies[1]);
    let s2 = resumed(s1, r1[0]);
    let r2 = r1.drop_first();
    assert(played(s1, r1) == played(s2, r2));
    if has_failed(s2) {
        law_rest_is_final(s2, r2);
    }
    let more = after(steps[1], replies[1])->Ok_0;
    assert(s2 == more);
    assert(more.len() == 3 && more[0] is EnsureAvailable && more[1] is WriteFile);
    assert(more[2] is Print);
    assert(r2.len() > 0);
    let s3 = resumed(s2, r2[0]);
    let r3 = r2.drop_first();
    assert(played(s2, r2) == played(s3, r3));
    if has_failed(s3) {
        law_rest_is_final(s3, r3);
    }
    assert(s3 == more.drop_first());
    assert(s3[0] == more[1]);
    if r3.len() > 0 {
        let s4 = resumed(s3, r3[0]);
        let r4 = r3.drop_first();
        assert(played(s3, r3) == played(s4, r4));
        if has_failed(s4) {
            law_rest_is_final(s4, r4);
        } else {
            assert(s4 == seq![more[2]]);
            law_reading_changes_nothing(s4, r4);
        }
    }
}

/// The change that a command asks for, where it asks for one.
pub open spec fn requested_change(command: Command<Seq<char>>) -> Option<ActionModel> {
    match command {
        Command::Fans(FanCommand::SetTo { fan, percent }) => Some(
            Action::WriteInt(
                if fan == 1 {
                    Request::SetUwFanspeed
                } else {
                    Request::SetUwFanspeed2
                },
                raw_of_percent(percent as int) as i32,
            ),
        ),
        Command::Fans(FanCommand::Auto) => Some(Action::Signal(Request::SetUwFanauto)),
        Command::Profile(ProfileCommand::SetTo { profile }) => Some(
            Action::WriteInt(Request::SetUwPerfProf, profile_id(profile)),
        ),
        Command::Charging(ChargingCommand::SetTo { profile }) => Some(
            Action::WriteFile(sysfs_path(CHARGING_PROFILE@), value_line(trimmed(profile))),
        ),
        Command::Backlight(BacklightCommand::SetTo { brightness }) => Some(
            Action::WriteFile(sysfs_path(BRIGHTNESS@), value_line(decimal(brightness as nat))),
        ),
        Command::FnLock(BoolCommand::SetTo { value }) => Some(
            Action::WriteFile(sysfs_path(FN_LOCK@), switch_line(value == OnOff::On)),
        ),
        Command::AcAutoBoot(BoolCommand::SetTo { value }) => Some(
            Action::WriteFile(sysfs_path(AC_AUTO_BOOT@), switch_line(value == OnOff::On)),
        ),
        Command::UsbPowershare(BoolCommand::SetTo { value }) => Some(
            Action::WriteFile(sysfs_path(USB_POWERSHARE@), switch_line(value == OnOff::On)),
        ),
        _ => None,
    }
}

/// A command that ends with success has made the change that it was given for, whatever the
/// replies are.
#[verifier::rlimit(50)]
pub proof fn law_success_means_changed(
    command: Command<Seq<char>>,
    replies: Seq<ReplyModel>,
    change: ActionModel,
)
    requires
        requested_change(command) == Some(change),
        played(command_steps(command), replies).len() == 0,
    ensures
        performs(command_steps(command), replies, change),
{
    let steps = command_steps(command);
    if command is Fans || command is Profile {
        law_success_reaches_every_step(steps, replies, 2);
        let j = choose|j: int|
            0 <= j < replies.len() && #[trigger] played(steps, replies.take(j)) == steps.skip(2);
        assert(steps.skip(2)[0] == steps[2]);
        if steps[2] is Refuse {
            lemma_played_split(steps, replies, j);
            law_rest_is_final(steps.skip(2), replies.skip(j));
        }
        law_success_performs_every_step(steps, replies, 2);
    } else if command is Charging || command is Backlight {
        law_success_performs_what_follows(steps, replies, 1);
        let i = choose|i: int|
            0 <= i < replies.len() && #[trigger] has_led_on(steps, replies, 1, i);
        let more = after(steps[1], replies[i])->Ok_0;
        assert(performs(steps, replies, action_of(more[1])));
    } else {
        law_success_performs_every_step(steps, replies, 1);
    }
}

proof fn lemma_status_length()
    ensures
        longest_run(status_steps()) == 60,
{
    let blank = seq![Step::<Seq<char>>::Print(""@)];
    let fans = fans_steps(FanCommand::Status);
    let profile = profile_steps(ProfileCommand::Get);
    let profiles = profile_steps(ProfileCommand::List);
    let charging = charging_steps(ChargingCommand::Get);
    let chargings = charging_steps(ChargingCommand::List);
    let backlight = backlight_steps(BacklightCommand::Get);
    let fn_lock = switch_steps("fn_lock"@, sysfs_path(FN_LOCK@));
    let ac_auto_boot = switch_steps("ac_auto_boot"@, sysfs_path(AC_AUTO_BOOT@));
    let usb_powershare = switch_steps("usb_powershare"@, sysfs_path(USB_POWERSHARE@));
    lemma_short_run(info_steps());
    lemma_short_run(blank);
    lemma_short_run(fans);
    lemma_short_run(profile);
    lemma_short_run(profiles);
    lemma_short_run(charging);
    lemma_short_run(chargings);
    lemma_short_run(backlight);
    lemma_short_run(fn_lock);
    lemma_short_run(ac_auto_boot);
    lemma_short_run(usb_powershare);
    let s1 = info_steps() + blank;
    let s2 = s1 + fans;
    let s3 = s2 + blank;
    let s4 = s3 + profile;
    let s5 = s4 + profiles;
    let s6 = s5 + blank;
    let s7 = s6 + charging;
    let s8 = s7 + chargings;
    let s9 = s8 + blank;
    let s10 = s9 + backlight;
    let s11 = s10 + fn_lock;
    let s12 = s11 + ac_auto_boot;
    lemma_longest_run_sum(info_steps(), blank);
    lemma_longest_run_sum(s1, fans);
    lemma_longest_run_sum(s2, blank);
    lemma_longest_run_sum(s3, profile);
    lemma_longest_run_sum(s4, profiles);
    lemma_longest_run_sum(s5, blank);
    lemma_longest_run_sum(s6, charging);
    lemma_longest_run_sum(s7, chargings);
    lemma_longest_run_sum(s8, blank);
    lemma_longest_run_sum(s9, backlight);
    lemma_longest_run_sum(s10, fn_lock);
    lemma_longest_run_sum(s11, ac_auto_boot);
    lemma_longest_run_sum(s12, usb_powershare);
}

/// Every command ends after at most sixty actions, whatever the replies are.
pub proof fn law_commands_end(command: Command<Seq<char>>, replies: Seq<ReplyModel>)
    requires
        replies.len() >= 60,
    ensures
        at_rest(played(command_steps(command), replies)),
{
    if command is Status {
        lemma_status_length();
    } else {
        lemma_short_run(command_steps(command));
    }
    law_session_ends(command_steps(command), replies);
}

} // verus!
