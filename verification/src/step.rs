//! The steps that sessions are made of, and what becomes of each.
//!
//! A step names an action for the caller to perform; the caller's reply replaces the step by
//! those that follow from it, or ends the session with a failure. Nothing in here touches a
//! device or a file.

use vstd::prelude::*;

use crate::fan::{percent_of_raw, raw_to_percent};
use crate::ioctl::Request;
use crate::number::{
    decimal, decimal_text, hex_bits, hex_bits_text, parse_u32, parsed_u32, signed_decimal,
    signed_decimal_text, NumberError,
};
use crate::profile::{
    counted_profiles, list_names, listed_names, mode_name, profile_from_mode, PerformanceProfile,
};
use crate::sysfs::{
    bool_word, charging_refusal, choose_charging_profile, ensure_available, is_on, line_of,
    read_bool, set_charging_profile, switch_word, sysfs, sysfs_path, value_line, BRIGHTNESS,
    CHARGING_PROFILE, CHARGING_PROFILES_AVAILABLE, MAX_BRIGHTNESS,
};
use crate::text::{before_nul, buffer_text, decoded, has_word, trim, trimmed};

verus! {

/// Why a session ends without success. `S` stands for text.
#[derive(Debug, PartialEq, Eq)]
pub enum Failure<S> {
    /// An action failed, for the reason given.
    Io(S),
    /// The reply to an action was of another kind than the action asks for.
    Mismatch,
    /// A path is not there.
    Missing(S),
    /// A text that should hold a number does not.
    Number(NumberError),
    /// Anything else, in words.
    Message(S),
}

/// What the caller is asked to do. `S` stands for text.
#[derive(Debug, PartialEq, Eq)]
pub enum Action<S> {
    /// Open the driver's device for reading and writing.
    Open,
    /// Read an integer from the driver.
    ReadInt(Request),
    /// Read a string from the driver.
    ReadString(Request),
    /// Write an integer to the driver.
    WriteInt(Request, i32),
    /// Make a request of the driver that passes no value.
    Signal(Request),
    /// Find out whether a path is there.
    Exists(S),
    /// Read a file.
    ReadFile(S),
    /// Write the second text to the file that the first one names.
    WriteFile(S, S),
    /// Print a line.
    Print(S),
    /// Write a line to the log.
    Log(S),
    /// Find out whether the daemon was asked to stop.
    Poll,
    /// Wait for a number of milliseconds, or until the daemon is asked to stop.
    Sleep(u64),
    /// End with success.
    Finish,
    /// End with a failure.
    Fail(Failure<S>),
}

/// What came of an action. `S` stands for text and `B` for bytes.
#[derive(Debug, PartialEq, Eq)]
pub enum Reply<S, B> {
    /// It was done.
    Done,
    /// The integer that was read.
    Int(i32),
    /// The buffer that the driver filled.
    Bytes(B),
    /// What the file holds.
    Text(S),
    /// The answer to a question.
    Flag(bool),
    /// It failed, for the reason given.
    Failed(S),
}

/// How an integer from the driver is shown.
#[derive(Copy, Clone, Debug, PartialEq, Eq, Structural)]
pub enum IntForm {
    /// In decimal.
    Number,
    /// As `true` for 1, else as `false`.
    Truth,
    /// As `on` for 1, else as `off`.
    Switch,
}

/// How the contents of an attribute are shown.
#[derive(Copy, Clone, Debug, PartialEq, Eq, Structural)]
pub enum FileForm {
    /// As they are, trimmed.
    Text,
    /// As `on` for 1, else as `off`.
    Switch,
}

/// One step of a session. `S` stands for text.
#[derive(Debug, PartialEq, Eq)]
pub enum Step<S> {
    /// Open the driver's device.
    Open,
    /// Make sure that the Uniwill interface is present.
    RequireUniwill,
    /// Show a string of the driver behind a label.
    ShowString(S, Request),
    /// Show an integer of the driver behind a label.
    ShowInt(S, Request, IntForm),
    /// Find out whether the first fan is there; the report on the fans follows.
    CountFirstFan,
    /// Find out whether the second fan is there, knowing whether the first one is.
    CountSecondFan(bool),
    /// Read the speed of a fan, counted from 0.
    FanSpeed(u8),
    /// Read the temperature at a fan, knowing its speed.
    FanTemp(u8, i32),
    /// Read the temperature at the first fan in place of the second one's, knowing the second
    /// one's speed and temperature.
    FirstFanTemp(i32, i32),
    /// Show the performance profiles to choose from.
    ShowProfiles,
    /// Show the performance profile in use.
    ShowProfile,
    /// Write an integer to the driver.
    WriteInt(Request, i32),
    /// Make a request of the driver that passes no value.
    Signal(Request),
    /// Make sure that a path is there.
    EnsureAvailable(S),
    /// Show what the attribute at a path holds, behind a label.
    ShowFile(S, S, FileForm),
    /// Read the brightness of the keyboard, to show it.
    Brightness,
    /// Read the highest brightness, to show it behind the brightness in use.
    MaxBrightness(S),
    /// Read the highest brightness, to set one that is not above it.
    LimitBrightness(u32),
    /// Read the list of charging profiles, to set the one that was asked for.
    ChooseCharging(S),
    /// Read the list of charging profiles, to set the configured one.
    SetCharging(S),
    /// Write the second text to the file that the first one names.
    WriteFile(S, S),
    /// Print a line.
    Print(S),
    /// Write a line to the log.
    Log(S),
    /// End with a failure.
    Refuse(Failure<S>),
}

/// A failure in the model.
pub type FailureModel = Failure<Seq<char>>;

/// An action in the model.
pub type ActionModel = Action<Seq<char>>;

/// A reply in the model.
pub type ReplyModel = Reply<Seq<char>, Seq<u8>>;

/// A step in the model.
pub type StepModel = Step<Seq<char>>;

impl View for Failure<String> {
    type V = FailureModel;

    open spec fn view(&self) -> FailureModel {
        match self {
            Failure::Io(reason) => Failure::Io(reason@),
            Failure::Mismatch => Failure::Mismatch,
            Failure::Missing(path) => Failure::Missing(path@),
            Failure::Number(error) => Failure::Number(*error),
            Failure::Message(message) => Failure::Message(message@),
        }
    }
}

impl View for Action<String> {
    type V = ActionModel;

    open spec fn view(&self) -> ActionModel {
        match self {
            Action::Open => Action::Open,
            Action::ReadInt(request) => Action::ReadInt(*request),
            Action::ReadString(request) => Action::ReadString(*request),
            Action::WriteInt(request, value) => Action::WriteInt(*request, *value),
            Action::Signal(request) => Action::Signal(*request),
            Action::Exists(path) => Action::Exists(path@),
            Action::ReadFile(path) => Action::ReadFile(path@),
            Action::WriteFile(path, contents) => Action::WriteFile(path@, contents@),
            Action::Print(line) => Action::Print(line@),
            Action::Log(line) => Action::Log(line@),
            Action::Poll => Action::Poll,
            Action::Sleep(millis) => Action::Sleep(*millis),
            Action::Finish => Action::Finish,
            Action::Fail(failure) => Action::Fail(failure@),
        }
    }
}

impl View for Reply<String, Vec<u8>> {
    type V = ReplyModel;

    open spec fn view(&self) -> ReplyModel {
        match self {
            Reply::Done => Reply::Done,
            Reply::Int(value) => Reply::Int(*value),
            Reply::Bytes(bytes) => Reply::Bytes(bytes@),
            Reply::Text(text) => Reply::Text(text@),
            Reply::Flag(flag) => Reply::Flag(*flag),
            Reply::Failed(reason) => Reply::Failed(reason@),
        }
    }
}

impl View for Step<String> {
    type V = StepModel;

    open spec fn view(&self) -> StepModel {
        match self {
            Step::Open => Step::Open,
            Step::RequireUniwill => Step::RequireUniwill,
            Step::ShowString(label, request) => Step::ShowString(label@, *request),
            Step::ShowInt(label, request, form) => Step::ShowInt(label@, *request, *form),
            Step::CountFirstFan => Step::CountFirstFan,
            Step::CountSecondFan(first) => Step::CountSecondFan(*first),
            Step::FanSpeed(fan) => Step::FanSpeed(*fan),
            Step::FanTemp(fan, raw_speed) => Step::FanTemp(*fan, *raw_speed),
            Step::FirstFanTemp(raw_speed, raw_temp) => Step::FirstFanTemp(*raw_speed, *raw_temp),
            Step::ShowProfiles => Step::ShowProfiles,
            Step::ShowProfile => Step::ShowProfile,
            Step::WriteInt(request, value) => Step::WriteInt(*request, *value),
            Step::Signal(request) => Step::Signal(*request),
            Step::EnsureAvailable(path) => Step::EnsureAvailable(path@),
            Step::ShowFile(label, path, form) => Step::ShowFile(label@, path@, *form),
            Step::Brightness => Step::Brightness,
            Step::MaxBrightness(brightness) => Step::MaxBrightness(brightness@),
            Step::LimitBrightness(value) => Step::LimitBrightness(*value),
            Step::ChooseCharging(requested) => Step::ChooseCharging(requested@),
            Step::SetCharging(profile) => Step::SetCharging(profile@),
            Step::WriteFile(path, contents) => Step::WriteFile(path@, contents@),
            Step::Print(line) => Step::Print(line@),
            Step::Log(line) => Step::Log(line@),
            Step::Refuse(failure) => Step::Refuse(failure@),
        }
    }
}

/// A row of steps in the model.
pub open spec fn steps_model(steps: Seq<Step<String>>) -> Seq<StepModel> {
    steps.map_values(|step: Step<String>| step@)
}

/// A label with what belongs to it.
pub open spec fn labelled(label: Seq<char>, text: Seq<char>) -> Seq<char> {
    label + ": "@ + text
}

/// How an integer is shown.
pub open spec fn shown_int(value: i32, form: IntForm) -> Seq<char> {
    match form {
        IntForm::Number => signed_decimal(value as int),
        IntForm::Truth => if value == 1 {
            "true"@
        } else {
            "false"@
        },
        IntForm::Switch => switch_word(value == 1),
    }
}

/// How the contents of an attribute are shown.
pub open spec fn shown_file(contents: Seq<char>, form: FileForm) -> Seq<char> {
    match form {
        FileForm::Text => trimmed(contents),
        FileForm::Switch => switch_word(is_on(contents)),
    }
}

/// The request for the speed of a fan, counted from 0.
pub open spec fn fan_speed_request(fan: u8) -> Option<Request> {
    if fan == 0 {
        Some(Request::UwFanspeed)
    } else if fan == 1 {
        Some(Request::UwFanspeed2)
    } else {
        None
    }
}

/// The request for the temperature at a fan, counted from 0.
pub open spec fn fan_temp_request(fan: u8) -> Option<Request> {
    if fan == 0 {
        Some(Request::UwFanTemp)
    } else if fan == 1 {
        Some(Request::UwFanTemp2)
    } else {
        None
    }
}

/// The refusal of a fan that there is none of.
pub open spec fn no_such_fan() -> FailureModel {
    Failure::Message("fan index out of range"@)
}

/// The number of fans, given which of the two are there.
pub open spec fn counted_fans(first: bool, second: bool) -> u8 {
    if first && second {
        2
    } else if first || second {
        1
    } else {
        0
    }
}

/// The report on one fan, counted from 0.
pub open spec fn fan_line(fan: u8, raw_speed: i32, temp: i32, raw_temp: i32) -> Seq<char> {
    "fan"@ + decimal((fan + 1) as nat) + ": speed="@ + decimal(
        percent_of_raw(raw_speed as int) as nat,
    ) + "%, raw_speed="@ + signed_decimal(raw_speed as int) + ", temp="@ + signed_decimal(
        temp as int,
    ) + "C, raw_temp="@ + signed_decimal(raw_temp as int) + "C"@
}

/// The steps that report on `fans` fans.
pub open spec fn fan_report(fans: u8) -> Seq<StepModel> {
    seq![
        Step::Print(labelled("fans"@, decimal(fans as nat))),
        Step::ShowInt("fan_min_speed_percent"@, Request::UwFansMinSpeed, IntForm::Number),
        Step::ShowInt("fans_off_available"@, Request::UwFansOffAvailable, IntForm::Switch),
        Step::ShowInt("manual_mode_register"@, Request::UwModeEnable, IntForm::Number),
    ] + Seq::new(fans as nat, |fan: int| Step::FanSpeed(fan as u8))
}

/// The report on the performance profile in use.
pub open spec fn profile_line(raw: i32) -> Seq<char> {
    "profile: "@ + mode_name(raw) + " (raw 0x"@ + hex_bits(raw) + ")"@
}

/// The action that a step asks for.
pub open spec fn action_of(step: StepModel) -> ActionModel {
    match step {
        Step::Open => Action::Open,
        Step::RequireUniwill => Action::ReadInt(Request::HwcheckUw),
        Step::ShowString(_, request) => Action::ReadString(request),
        Step::ShowInt(_, request, _) => Action::ReadInt(request),
        Step::CountFirstFan => Action::ReadInt(Request::UwFanspeed),
        Step::CountSecondFan(_) => Action::ReadInt(Request::UwFanspeed2),
        Step::FanSpeed(fan) => match fan_speed_request(fan) {
            Some(request) => Action::ReadInt(request),
            None => Action::Fail(no_such_fan()),
        },
        Step::FanTemp(fan, _) => match fan_temp_request(fan) {
            Some(request) => Action::ReadInt(request),
            None => Action::Fail(no_such_fan()),
        },
        Step::FirstFanTemp(_, _) => Action::ReadInt(Request::UwFanTemp),
        Step::ShowProfiles => Action::ReadInt(Request::UwProfsAvailable),
        Step::ShowProfile => Action::ReadInt(Request::UwMode),
        Step::WriteInt(request, value) => Action::WriteInt(request, value),
        Step::Signal(request) => Action::Signal(request),
        Step::EnsureAvailable(path) => Action::Exists(path),
        Step::ShowFile(_, path, _) => Action::ReadFile(path),
        Step::Brightness => Action::ReadFile(sysfs_path(BRIGHTNESS@)),
        Step::MaxBrightness(_) => Action::ReadFile(sysfs_path(MAX_BRIGHTNESS@)),
        Step::LimitBrightness(_) => Action::ReadFile(sysfs_path(MAX_BRIGHTNESS@)),
        Step::ChooseCharging(_) => Action::ReadFile(sysfs_path(CHARGING_PROFILES_AVAILABLE@)),
        Step::SetCharging(_) => Action::ReadFile(sysfs_path(CHARGING_PROFILES_AVAILABLE@)),
        Step::WriteFile(path, contents) => Action::WriteFile(path, contents),
        Step::Print(line) => Action::Print(line),
        Step::Log(line) => Action::Log(line),
        Step::Refuse(failure) => Action::Fail(failure),
    }
}

/// The steps that take the place of a step whose action read an integer.
pub open spec fn after_int(step: StepModel, value: i32) -> Result<Seq<StepModel>, FailureModel> {
    match step {
        Step::RequireUniwill => if value == 1 {
            Ok(seq![])
        } else {
            Err(Failure::Message("Uniwill interface is not available"@))
        },
        Step::ShowInt(label, _, form) => Ok(
            seq![Step::Print(labelled(label, shown_int(value, form)))],
        ),
        Step::FanSpeed(fan) => if fan < 2 {
            Ok(seq![Step::FanTemp(fan, value)])
        } else {
            Err(no_such_fan())
        },
        Step::ShowProfiles => Ok(
            seq![
                Step::Print(
                    labelled("available_profiles"@, listed_names(counted_profiles(value))),
                ),
            ],
        ),
        Step::ShowProfile => Ok(seq![Step::Print(profile_line(value))]),
        _ => Err(Failure::Mismatch),
    }
}

/// The steps that take the place of a step whose action read a file.
pub open spec fn after_text(
    step: StepModel,
    text: Seq<char>,
) -> Result<Seq<StepModel>, FailureModel> {
    match step {
        Step::ShowFile(label, _, form) => Ok(
            seq![Step::Print(labelled(label, shown_file(text, form)))],
        ),
        Step::Brightness => Ok(
            seq![
                Step::EnsureAvailable(sysfs_path(MAX_BRIGHTNESS@)),
                Step::MaxBrightness(trimmed(text)),
            ],
        ),
        Step::MaxBrightness(brightness) => Ok(
            seq![Step::Print("backlight: "@ + brightness + "/"@ + trimmed(text))],
        ),
        Step::LimitBrightness(value) => match parsed_u32(trimmed(text)) {
            Ok(max) => if value > max {
                Err(Failure::Message("brightness must be 0..="@ + decimal(max as nat)))
            } else {
                Ok(
                    seq![
                        Step::EnsureAvailable(sysfs_path(BRIGHTNESS@)),
                        Step::WriteFile(
                            sysfs_path(BRIGHTNESS@),
                            value_line(decimal(value as nat)),
                        ),
                        Step::Print(
                            "backlight: set "@ + decimal(value as nat) + "/"@ + decimal(
                                max as nat,
                            ),
                        ),
                    ],
                )
            },
            Err(error) => Err(Failure::Number(error)),
        },
        Step::ChooseCharging(requested) => if has_word(trimmed(text), requested) {
            Ok(
                seq![
                    Step::EnsureAvailable(sysfs_path(CHARGING_PROFILE@)),
                    Step::WriteFile(sysfs_path(CHARGING_PROFILE@), value_line(requested)),
                    Step::Print("charging_profile: set "@ + requested),
                ],
            )
        } else {
            Err(Failure::Message(charging_refusal(requested, "profiles"@, trimmed(text))))
        },
        Step::SetCharging(profile) => if has_word(trimmed(text), profile) {
            Ok(
                seq![
                    Step::WriteFile(sysfs_path(CHARGING_PROFILE@), value_line(profile)),
                    Step::Log("charging_profile: set "@ + profile),
                ],
            )
        } else {
            Err(Failure::Message(charging_refusal(profile, "charging profiles"@, trimmed(text))))
        },
        _ => Err(Failure::Mismatch),
    }
}

/// The failure that a reply stands for which is not what its action asks for.
pub open spec fn failure_of(reply: ReplyModel) -> FailureModel {
    match reply {
        Reply::Failed(reason) => Failure::Io(reason),
        _ => Failure::Mismatch,
    }
}

/// The temperature that a reply holds, or 0 where it holds none.
pub open spec fn temp_or_zero(reply: ReplyModel) -> i32 {
    match reply {
        Reply::Int(value) => value,
        _ => 0,
    }
}

/// The steps that take the place of a step once its action has been replied to. A fan counts
/// as there if its speed can be read; a temperature that cannot be read counts as 0, and the
/// second fan's is replaced by the first one's unless it is positive.
pub open spec fn after(
    step: StepModel,
    reply: ReplyModel,
) -> Result<Seq<StepModel>, FailureModel> {
    match step {
        Step::Print(_) | Step::Log(_) => Ok(seq![]),
        Step::Refuse(failure) => Err(failure),
        Step::CountFirstFan => Ok(seq![Step::CountSecondFan(reply is Int)]),
        Step::CountSecondFan(first) => Ok(fan_report(counted_fans(first, reply is Int))),
        Step::FanTemp(fan, raw_speed) => {
            let raw_temp = temp_or_zero(reply);
            if fan >= 2 {
                Err(no_such_fan())
            } else if fan == 1 && raw_temp <= 0 {
                Ok(seq![Step::FirstFanTemp(raw_speed, raw_temp)])
            } else {
                Ok(seq![Step::Print(fan_line(fan, raw_speed, raw_temp, raw_temp))])
            }
        },
        Step::FirstFanTemp(raw_speed, raw_temp) => Ok(
            seq![Step::Print(fan_line(1, raw_speed, temp_or_zero(reply), raw_temp))],
        ),
        Step::Open | Step::WriteInt(_, _) | Step::Signal(_) | Step::WriteFile(_, _) => if reply
            is Done {
            Ok(seq![])
        } else {
            Err(failure_of(reply))
        },
        Step::EnsureAvailable(path) => match reply {
            Reply::Flag(true) => Ok(seq![]),
            Reply::Flag(false) => Err(Failure::Missing(path)),
            _ => Err(failure_of(reply)),
        },
        Step::ShowString(label, _) => match reply {
            Reply::Bytes(bytes) => Ok(
                seq![Step::Print(labelled(label, trimmed(decoded(before_nul(bytes)))))],
            ),
            _ => Err(failure_of(reply)),
        },
        Step::FanSpeed(fan) => match reply {
            Reply::Int(value) => after_int(step, value),
            _ => Err(
                if fan < 2 {
                    failure_of(reply)
                } else {
                    no_such_fan()
                },
            ),
        },
        _ => match reply {
            Reply::Int(value) => after_int(step, value),
            Reply::Text(text) => after_text(step, text),
            _ => Err(failure_of(reply)),
        },
    }
}

/// The outcome of a step in the model.
pub open spec fn outcome_model(
    outcome: Result<Vec<Step<String>>, Failure<String>>,
) -> Result<Seq<StepModel>, FailureModel> {
    match outcome {
        Ok(steps) => Ok(steps_model(steps@)),
        Err(failure) => Err(failure@),
    }
}

fn none() -> (steps: Vec<Step<String>>)
    ensures
        steps_model(steps@) == Seq::<StepModel>::empty(),
{
    let steps: Vec<Step<String>> = Vec::new();
    assert(steps_model(steps@) == Seq::<StepModel>::empty());
    steps
}

fn one(step: Step<String>) -> (steps: Vec<Step<String>>)
    ensures
        steps_model(steps@) == seq![step@],
{
    let steps = vec![step];
    assert(steps_model(steps@) == seq![step@]);
    steps
}

fn two(first: Step<String>, second: Step<String>) -> (steps: Vec<Step<String>>)
    ensures
        steps_model(steps@) == seq![first@, second@],
{
    let steps = vec![first, second];
    assert(steps_model(steps@) == seq![first@, second@]);
    steps
}

fn three(first: Step<String>, second: Step<String>, third: Step<String>) -> (steps: Vec<
    Step<String>,
>)
    ensures
        steps_model(steps@) == seq![first@, second@, third@],
{
    let steps = vec![first, second, third];
    assert(steps_model(steps@) == seq![first@, second@, third@]);
    steps
}

/// A label with what belongs to it.
pub fn label_line(label: &str, text: &str) -> (line: String)
    ensures
        line@ == labelled(label@, text@),
{
    let mut line = label.to_owned();
    line.append(": ");
    line.append(text);
    line
}

fn prefixed(prefix: &str, text: &str) -> (line: String)
    ensures
        line@ == prefix@ + text@,
{
    let mut line = prefix.to_owned();
    line.append(text);
    line
}

/// How an integer is shown.
pub fn show_int(value: i32, form: IntForm) -> (text: String)
    ensures
        text@ == shown_int(value, form),
{
    match form {
        IntForm::Number => signed_decimal_text(value),
        IntForm::Truth => if value == 1 {
            "true".to_owned()
        } else {
            "false".to_owned()
        },
        IntForm::Switch => bool_word(value == 1).to_owned(),
    }
}

/// How the contents of an attribute are shown.
pub fn show_file(contents: &str, form: FileForm) -> (text: String)
    ensures
        text@ == shown_file(contents@, form),
{
    match form {
        FileForm::Text => trim(contents).to_owned(),
        FileForm::Switch => bool_word(read_bool(contents)).to_owned(),
    }
}

/// The request for the speed of a fan, counted from 0.
pub fn read_fan_speed_raw(fan: u8) -> (request: Result<Request, Failure<String>>)
    ensures
        match request {
            Ok(request) => fan_speed_request(fan) == Some(request),
            Err(failure) => fan_speed_request(fan) is None && failure@ == no_such_fan(),
        },
{
    match fan {
        0 => Ok(Request::UwFanspeed),
        1 => Ok(Request::UwFanspeed2),
        _ => Err(Failure::Message("fan index out of range".to_owned())),
    }
}

/// The request for the temperature at a fan, counted from 0.
pub fn read_fan_temp_raw(fan: u8) -> (request: Result<Request, Failure<String>>)
    ensures
        match request {
            Ok(request) => fan_temp_request(fan) == Some(request),
            Err(failure) => fan_temp_request(fan) is None && failure@ == no_such_fan(),
        },
{
    match fan {
        0 => Ok(Request::UwFanTemp),
        1 => Ok(Request::UwFanTemp2),
        _ => Err(Failure::Message("fan index out of range".to_owned())),
    }
}

/// The number of fans, given which of the two have a speed that can be read.
pub fn fan_count(first: bool, second: bool) -> (fans: u8)
    ensures
        fans == counted_fans(first, second),
{
    let mut fans: u8 = 0;
    if first {
        fans += 1;
    }
    if second {
        fans += 1;
    }
    fans
}

/// The report on one fan, counted from 0.
pub fn fan_line_text(fan: u8, raw_speed: i32, temp: i32, raw_temp: i32) -> (line: String)
    ensures
        line@ == fan_line(fan, raw_speed, temp, raw_temp),
{
    let mut line = "fan".to_owned();
    line.append(decimal_text(fan as u64 + 1).as_str());
    line.append(": speed=");
    line.append(decimal_text(raw_to_percent(raw_speed) as u64).as_str());
    line.append("%, raw_speed=");
    line.append(signed_decimal_text(raw_speed).as_str());
    line.append(", temp=");
    line.append(signed_decimal_text(temp).as_str());
    line.append("C, raw_temp=");
    line.append(signed_decimal_text(raw_temp).as_str());
    line.append("C");
    line
}

fn fan_report_steps(fans: u8) -> (steps: Vec<Step<String>>)
    ensures
        steps_model(steps@) == fan_report(fans),
{
    let mut steps = vec![
        Step::Print(label_line("fans", decimal_text(fans as u64).as_str())),
        Step::ShowInt(
            "fan_min_speed_percent".to_owned(),
            Request::UwFansMinSpeed,
            IntForm::Number,
        ),
        Step::ShowInt(
            "fans_off_available".to_owned(),
            Request::UwFansOffAvailable,
            IntForm::Switch,
        ),
        Step::ShowInt("manual_mode_register".to_owned(), Request::UwModeEnable, IntForm::Number),
    ];
    for fan in 0..fans
        invariant
            steps@.len() == 4 + fan,
            forall|k: int| 0 <= k < 4 + fan ==> (#[trigger] steps@[k])@ == fan_report(fans)[k],
    {
        steps.push(Step::FanSpeed(fan));
    }
    assert(steps_model(steps@) == fan_report(fans));
    steps
}

/// The report on the performance profile in use.
pub fn profile_line_text(raw: i32) -> (line: String)
    ensures
        line@ == profile_line(raw),
{
    let mut line = "profile: ".to_owned();
    line.append(profile_from_mode(raw));
    line.append(" (raw 0x");
    line.append(hex_bits_text(raw).as_str());
    line.append(")");
    line
}

impl Failure<String> {
    /// The failure that a reply stands for which is not what its action asks for.
    pub fn from_reply(reply: Reply<String, Vec<u8>>) -> (failure: Self)
        ensures
            failure@ == failure_of(reply@),
    {
        match reply {
            Reply::Failed(reason) => Failure::Io(reason),
            _ => Failure::Mismatch,
        }
    }

    /// The same failure once more.
    pub fn copied(&self) -> (failure: Self)
        ensures
            failure@ == self@,
    {
        match self {
            Failure::Io(reason) => Failure::Io(reason.clone()),
            Failure::Mismatch => Failure::Mismatch,
            Failure::Missing(path) => Failure::Missing(path.clone()),
            Failure::Number(error) => Failure::Number(*error),
            Failure::Message(message) => Failure::Message(message.clone()),
        }
    }
}

impl Step<String> {
    /// The action that the step asks for.
    pub fn action(&self) -> (action: Action<String>)
        ensures
            action@ == action_of(self@),
    {
        match self {
            Step::Open => Action::Open,
            Step::RequireUniwill => Action::ReadInt(Request::HwcheckUw),
            Step::ShowString(_, request) => Action::ReadString(*request),
            Step::ShowInt(_, request, _) => Action::ReadInt(*request),
            Step::CountFirstFan => Action::ReadInt(Request::UwFanspeed),
            Step::CountSecondFan(_) => Action::ReadInt(Request::UwFanspeed2),
            Step::FanSpeed(fan) => match read_fan_speed_raw(*fan) {
                Ok(request) => Action::ReadInt(request),
                Err(failure) => Action::Fail(failure),
            },
            Step::FanTemp(fan, _) => match read_fan_temp_raw(*fan) {
                Ok(request) => Action::ReadInt(request),
                Err(failure) => Action::Fail(failure),
            },
            Step::FirstFanTemp(_, _) => Action::ReadInt(Request::UwFanTemp),
            Step::ShowProfiles => Action::ReadInt(Request::UwProfsAvailable),
            Step::ShowProfile => Action::ReadInt(Request::UwMode),
            Step::WriteInt(request, value) => Action::WriteInt(*request, *value),
            Step::Signal(request) => Action::Signal(*request),
            Step::EnsureAvailable(path) => Action::Exists(path.clone()),
            Step::ShowFile(_, path, _) => Action::ReadFile(path.clone()),
            Step::Brightness => Action::ReadFile(sysfs(BRIGHTNESS)),
            Step::MaxBrightness(_) => Action::ReadFile(sysfs(MAX_BRIGHTNESS)),
            Step::LimitBrightness(_) => Action::ReadFile(sysfs(MAX_BRIGHTNESS)),
            Step::ChooseCharging(_) => Action::ReadFile(sysfs(CHARGING_PROFILES_AVAILABLE)),
            Step::SetCharging(_) => Action::ReadFile(sysfs(CHARGING_PROFILES_AVAILABLE)),
            Step::WriteFile(path, contents) => Action::WriteFile(path.clone(), contents.clone()),
            Step::Print(line) => Action::Print(line.clone()),
            Step::Log(line) => Action::Log(line.clone()),
            Step::Refuse(failure) => Action::Fail(failure.copied()),
        }
    }

    /// The steps that take the place of this one, whose action read an integer.
    pub fn after_int(self, value: i32) -> (outcome: Result<Vec<Step<String>>, Failure<String>>)
        ensures
            outcome_model(outcome) == after_int(self@, value),
    {
        match self {
            Step::RequireUniwill => if value == 1 {
                Ok(none())
            } else {
                Err(Failure::Message("Uniwill interface is not available".to_owned()))
            },
            Step::ShowInt(label, _, form) => Ok(
                one(
                    Step::Print(label_line(label.as_str(), show_int(value, form).as_str())),
                ),
            ),
            Step::FanSpeed(fan) => match read_fan_speed_raw(fan) {
                Ok(_) => Ok(one(Step::FanTemp(fan, value))),
                Err(failure) => Err(failure),
            },
            Step::ShowProfiles => {
                let profiles = PerformanceProfile::from_count(value);
                let names = list_names(profiles.as_slice());
                Ok(one(Step::Print(label_line("available_profiles", names.as_str()))))
            },
            Step::ShowProfile => Ok(one(Step::Print(profile_line_text(value)))),
            _ => Err(Failure::Mismatch),
        }
    }

    /// The steps that take the place of this one, whose action read a file.
    pub fn after_text(self, text: &str) -> (outcome: Result<
        Vec<Step<String>>,
        Failure<String>,
    >)
        ensures
            outcome_model(outcome) == after_text(self@, text@),
    {
        match self {
            Step::ShowFile(label, _, form) => Ok(
                one(Step::Print(label_line(label.as_str(), show_file(text, form).as_str()))),
            ),
            Step::Brightness => Ok(
                two(
                    Step::EnsureAvailable(sysfs(MAX_BRIGHTNESS)),
                    Step::MaxBrightness(trim(text).to_owned()),
                ),
            ),
            Step::MaxBrightness(brightness) => {
                let mut line = prefixed("backlight: ", brightness.as_str());
                line.append("/");
                line.append(trim(text));
                Ok(one(Step::Print(line)))
            },
            Step::LimitBrightness(value) => match parse_u32(trim(text)) {
                Ok(max) => {
                    let limit = decimal_text(max as u64);
                    if value > max {
                        return Err(
                            Failure::Message(prefixed("brightness must be 0..=", limit.as_str())),
                        );
                    }
                    let brightness = decimal_text(value as u64);
                    let mut line = prefixed("backlight: set ", brightness.as_str());
                    line.append("/");
                    line.append(limit.as_str());
                    Ok(
                        three(
                            Step::EnsureAvailable(sysfs(BRIGHTNESS)),
                            Step::WriteFile(sysfs(BRIGHTNESS), line_of(brightness.as_str())),
                            Step::Print(line),
                        ),
                    )
                },
                Err(error) => Err(Failure::Number(error)),
            },
            Step::ChooseCharging(requested) => match choose_charging_profile(
                requested.as_str(),
                text,
            ) {
                Ok((path, contents)) => Ok(
                    three(
                        Step::EnsureAvailable(path.clone()),
                        Step::WriteFile(path, contents),
                        Step::Print(prefixed("charging_profile: set ", requested.as_str())),
                    ),
                ),
                Err(message) => Err(Failure::Message(message)),
            },
            Step::SetCharging(profile) => match set_charging_profile(profile.as_str(), text) {
                Ok((path, contents)) => Ok(
                    two(
                        Step::WriteFile(path, contents),
                        Step::Log(prefixed("charging_profile: set ", profile.as_str())),
                    ),
                ),
                Err(message) => Err(Failure::Message(message)),
            },
            _ => Err(Failure::Mismatch),
        }
    }

    /// The steps that take the place of this one, once its action has been replied to.
    pub fn after(self, reply: Reply<String, Vec<u8>>) -> (outcome: Result<
        Vec<Step<String>>,
        Failure<String>,
    >)
        ensures
            outcome_model(outcome) == after(self@, reply@),
    {
        match self {
            Step::Print(_) | Step::Log(_) => Ok(none()),
            Step::Refuse(failure) => Err(failure),
            Step::CountFirstFan => Ok(one(Step::CountSecondFan(matches!(reply, Reply::Int(_))))),
            Step::CountSecondFan(first) => Ok(
                fan_report_steps(fan_count(first, matches!(reply, Reply::Int(_)))),
            ),
            Step::FanTemp(fan, raw_speed) => {
                let raw_temp: i32 = match reply {
                    Reply::Int(value) => value,
                    _ => 0,
                };
                if let Err(failure) = read_fan_temp_raw(fan) {
                    return Err(failure);
                }
                if fan == 1 && raw_temp <= 0 {
                    Ok(one(Step::FirstFanTemp(raw_speed, raw_temp)))
                } else {
                    Ok(one(Step::Print(fan_line_text(fan, raw_speed, raw_temp, raw_temp))))
                }
            },
            Step::FirstFanTemp(raw_speed, raw_temp) => {
                let temp: i32 = match reply {
                    Reply::Int(value) => value,
                    _ => 0,
                };
                Ok(one(Step::Print(fan_line_text(1, raw_speed, temp, raw_temp))))
            },
            Step::Open | Step::WriteInt(_, _) | Step::Signal(_) | Step::WriteFile(_, _) => {
                match reply {
                    Reply::Done => Ok(none()),
                    other => Err(Failure::from_reply(other)),
                }
            },
            Step::EnsureAvailable(path) => match reply {
                Reply::Flag(exists) => match ensure_available(path.as_str(), exists) {
                    Ok(()) => Ok(none()),
                    Err(missing) => Err(Failure::Missing(missing.path)),
                },
                other => Err(Failure::from_reply(other)),
            },
            Step::ShowString(label, _) => match reply {
                Reply::Bytes(bytes) => Ok(
                    one(
                        Step::Print(
                            label_line(label.as_str(), buffer_text(bytes.as_slice()).as_str()),
                        ),
                    ),
                ),
                other => Err(Failure::from_reply(other)),
            },
            Step::FanSpeed(fan) => match reply {
                Reply::Int(value) => self.after_int(value),
                other => match read_fan_speed_raw(fan) {
                    Ok(_) => Err(Failure::from_reply(other)),
                    Err(failure) => Err(failure),
                },
            },
            _ => match reply {
                Reply::Int(value) => self.after_int(value),
                Reply::Text(text) => self.after_text(text.as_str()),
                other => Err(Failure::from_reply(other)),
            },
        }
    }
}

/// The number of fans is how many of the two are there.
pub proof fn law_fans_are_counted(first: bool, second: bool)
    ensures
        counted_fans(first, second) == (if first {
            1int
        } else {
            0
        }) + (if second {
            1int
        } else {
            0
        }),
{
}

/// The speed and the temperature of the first fan and of the second one have requests of their
/// own, and there is no third fan.
pub proof fn law_fan_requests(fan: u8)
    ensures
        fan == 0 ==> fan_speed_request(fan) == Some(Request::UwFanspeed) && fan_temp_request(fan)
            == Some(Request::UwFanTemp),
        fan == 1 ==> fan_speed_request(fan) == Some(Request::UwFanspeed2) && fan_temp_request(fan)
            == Some(Request::UwFanTemp2),
        fan > 1 ==> fan_speed_request(fan) is None && fan_temp_request(fan) is None,
{
}

} // verus!
