//! Whole runs of the commands: what each one asks for, from its first action to its last, when
//! the replies are good.

use vstd::prelude::*;

use crate::cli::{
    command_steps, fans_steps, is_query, law_brightness_within_limit,
    law_only_listed_profile_written, law_queries_change_nothing, requested_change,
    BacklightCommand, BoolCommand, ChargingCommand, Command, FanCommand, OnOff, ProfileCommand,
};
use crate::fan::{law_raw_is_twice_percent, percent_of_raw};
use crate::ioctl::Request;
use crate::number::{decimal, hex_bits, parsed_u32, signed_decimal, NumberError};
use crate::profile::{counted_profiles, listed_names, mode_name, PerformanceProfile};
use crate::session::{
    carries_out, is_change, law_driver_writes_are_planned, law_file_writes_are_planned,
    law_parts_carried_out, law_reading_changes_nothing, law_rest_is_final,
    lemma_nothing_carried_out, lemma_played_once, lemma_played_split, lemma_step_carried_out,
    next_action, only_reads, played, resumed, writes_for,
};
use crate::step::{
    action_of, after, fan_report, Action, ActionModel, Failure, FailureModel, Reply, ReplyModel,
    Step, StepModel,
};
use crate::sysfs::{
    law_label_is_last_part, law_sysfs_below_directory, path_label, sysfs_path, AC_AUTO_BOOT,
    BRIGHTNESS, CHARGING_PROFILE, CHARGING_PROFILES_AVAILABLE, FN_LOCK, MAX_BRIGHTNESS,
    USB_POWERSHARE,
};
use crate::text::{before_nul, decoded, has_word, trimmed};

verus! {

/// A step that nothing follows from.
proof fn lemma_quiet(step: StepModel, reply: ReplyModel)
    requires
        !(step is Refuse),
        after(step, reply) == Ok::<Seq<StepModel>, FailureModel>(Seq::empty()),
    ensures
        carries_out(seq![step], seq![reply], seq![action_of(step)]),
{
    lemma_nothing_carried_out();
    lemma_step_carried_out(step, reply, Seq::empty(), Seq::empty(), Seq::empty());
    assert(seq![reply] + Seq::<ReplyModel>::empty() == seq![reply]);
    assert(seq![action_of(step)] + Seq::<ActionModel>::empty() == seq![action_of(step)]);
}

/// A step that a line follows from.
proof fn lemma_reports(step: StepModel, reply: ReplyModel, line: Seq<char>, told: ReplyModel)
    requires
        !(step is Refuse),
        after(step, reply) == Ok::<Seq<StepModel>, FailureModel>(seq![Step::Print(line)]),
    ensures
        carries_out(seq![step], seq![reply, told], seq![action_of(step), Action::Print(line)]),
{
    let print = Step::Print(line);
    lemma_quiet(print, told);
    lemma_step_carried_out(step, reply, seq![print], seq![told], seq![Action::Print(line)]);
    assert(seq![reply] + seq![told] == seq![reply, told]);
    assert(seq![action_of(step)] + seq![Action::Print(line)] == seq![
        action_of(step),
        Action::Print(line),
    ]);
}

/// The device is opened and the Uniwill interface found.
proof fn lemma_device_ready()
    ensures
        carries_out(
            seq![Step::Open, Step::RequireUniwill],
            seq![Reply::Done, Reply::Int(1)],
            seq![Action::Open, Action::ReadInt(Request::HwcheckUw)],
        ),
{
    lemma_quiet(Step::Open, Reply::Done);
    lemma_quiet(Step::RequireUniwill, Reply::Int(1));
    law_parts_carried_out(
        seq![Step::Open],
        seq![Reply::Done],
        seq![Action::Open],
        seq![Step::RequireUniwill],
        seq![Reply::Int(1)],
        seq![Action::ReadInt(Request::HwcheckUw)],
    );
    assert(seq![Step::<Seq<char>>::Open] + seq![Step::<Seq<char>>::RequireUniwill] == seq![
        Step::<Seq<char>>::Open,
        Step::<Seq<char>>::RequireUniwill,
    ]);
    assert(seq![Reply::<Seq<char>, Seq<u8>>::Done] + seq![Reply::<Seq<char>, Seq<u8>>::Int(1)]
        == seq![Reply::<Seq<char>, Seq<u8>>::Done, Reply::<Seq<char>, Seq<u8>>::Int(1)]);
    assert(seq![Action::<Seq<char>>::Open] + seq![
        Action::<Seq<char>>::ReadInt(Request::HwcheckUw),
    ] == seq![Action::<Seq<char>>::Open, Action::<Seq<char>>::ReadInt(Request::HwcheckUw)]);
}

/// A row of steps behind those that make the device ready.
proof fn lemma_behind_device(
    steps: Seq<StepModel>,
    replies: Seq<ReplyModel>,
    actions: Seq<ActionModel>,
)
    requires
        carries_out(steps, replies, actions),
    ensures
        carries_out(
            seq![Step::Open, Step::RequireUniwill] + steps,
            seq![Reply::Done, Reply::Int(1)] + replies,
            seq![Action::Open, Action::ReadInt(Request::HwcheckUw)] + actions,
        ),
{
    lemma_device_ready();
    law_parts_carried_out(
        seq![Step::Open, Step::RequireUniwill],
        seq![Reply::Done, Reply::Int(1)],
        seq![Action::Open, Action::ReadInt(Request::HwcheckUw)],
        steps,
        replies,
        actions,
    );
}

/// A step that changes something and a line behind it.
proof fn lemma_change_and_line(change: StepModel, line: Seq<char>, told: ReplyModel)
    requires
        change is WriteInt || change is Signal || change is WriteFile,
    ensures
        carries_out(
            seq![change, Step::Print(line)],
            seq![Reply::Done, told],
            seq![action_of(change), Action::Print(line)],
        ),
{
    lemma_quiet(change, Reply::Done);
    lemma_quiet(Step::Print(line), told);
    law_parts_carried_out(
        seq![change],
        seq![Reply::Done],
        seq![action_of(change)],
        seq![Step::Print(line)],
        seq![told],
        seq![Action::Print(line)],
    );
    assert(seq![change] + seq![Step::Print(line)] == seq![change, Step::Print(line)]);
    assert(seq![Reply::<Seq<char>, Seq<u8>>::Done] + seq![told] == seq![
        Reply::<Seq<char>, Seq<u8>>::Done,
        told,
    ]);
    assert(seq![action_of(change)] + seq![Action::Print(line)] == seq![
        action_of(change),
        Action::Print(line),
    ]);
}

/// A row of steps behind the question whether an attribute is there.
proof fn lemma_behind_attribute(
    path: Seq<char>,
    steps: Seq<StepModel>,
    replies: Seq<ReplyModel>,
    actions: Seq<ActionModel>,
)
    requires
        carries_out(steps, replies, actions),
    ensures
        carries_out(
            seq![Step::EnsureAvailable(path)] + steps,
            seq![Reply::Flag(true)] + replies,
            seq![Action::Exists(path)] + actions,
        ),
{
    lemma_quiet(Step::EnsureAvailable(path), Reply::Flag(true));
    law_parts_carried_out(
        seq![Step::EnsureAvailable(path)],
        seq![Reply::Flag(true)],
        seq![Action::Exists(path)],
        steps,
        replies,
        actions,
    );
}

/// `info` shows the version and the interface as the driver gives them, up to the first zero
/// byte and trimmed, whether the interface is present, and the number of the model.
pub proof fn law_info_run(
    version: Seq<u8>,
    present: i32,
    interface: Seq<u8>,
    model: i32,
    told: Seq<ReplyModel>,
)
    ensures
        carries_out(
            command_steps(Command::Info),
            seq![
                Reply::Done,
                Reply::Bytes(version),
                told[0],
                Reply::Int(present),
                told[1],
                Reply::Bytes(interface),
                told[2],
                Reply::Int(model),
                told[3],
            ],
            seq![
                Action::Open,
                Action::ReadString(Request::ModVersion),
                Action::Print("module_version"@ + ": "@ + trimmed(decoded(before_nul(version)))),
                Action::ReadInt(Request::HwcheckUw),
                Action::Print(
                    "uniwill_available"@ + ": "@ + if present == 1 {
                        "true"@
                    } else {
                        "false"@
                    },
                ),
                Action::ReadString(Request::UwHwIfStr),
                Action::Print("interface"@ + ": "@ + trimmed(decoded(before_nul(interface)))),
                Action::ReadInt(Request::UwModelId),
                Action::Print("model_id"@ + ": "@ + signed_decimal(model as int)),
            ],
        ),
{
    let steps = command_steps(Command::Info);
    let line1 = "module_version"@ + ": "@ + trimmed(decoded(before_nul(version)));
    let line2 = "uniwill_available"@ + ": "@ + if present == 1 {
        "true"@
    } else {
        "false"@
    };
    let line3 = "interface"@ + ": "@ + trimmed(decoded(before_nul(interface)));
    let line4 = "model_id"@ + ": "@ + signed_decimal(model as int);
    lemma_quiet(steps[0], Reply::Done);
    lemma_reports(steps[1], Reply::Bytes(version), line1, told[0]);
    lemma_reports(steps[2], Reply::Int(present), line2, told[1]);
    lemma_reports(steps[3], Reply::Bytes(interface), line3, told[2]);
    lemma_reports(steps[4], Reply::Int(model), line4, told[3]);
    let r0 = seq![Reply::Done];
    let r1 = seq![Reply::Bytes(version), told[0]];
    let r2 = seq![Reply::Int(present), told[1]];
    let r3 = seq![Reply::Bytes(interface), told[2]];
    let r4 = seq![Reply::Int(model), told[3]];
    let a0 = seq![Action::Open];
    let a1 = seq![Action::ReadString(Request::ModVersion), Action::Print(line1)];
    let a2 = seq![Action::ReadInt(Request::HwcheckUw), Action::Print(line2)];
    let a3 = seq![Action::ReadString(Request::UwHwIfStr), Action::Print(line3)];
    let a4 = seq![Action::ReadInt(Request::UwModelId), Action::Print(line4)];
    let s0 = seq![steps[0]];
    let s1 = s0 + seq![steps[1]];
    let s2 = s1 + seq![steps[2]];
    let s3 = s2 + seq![steps[3]];
    law_parts_carried_out(s0, r0, a0, seq![steps[1]], r1, a1);
    law_parts_carried_out(s1, r0 + r1, a0 + a1, seq![steps[2]], r2, a2);
    law_parts_carried_out(s2, r0 + r1 + r2, a0 + a1 + a2, seq![steps[3]], r3, a3);
    law_parts_carried_out(
        s3,
        r0 + r1 + r2 + r3,
        a0 + a1 + a2 + a3,
        seq![steps[4]],
        r4,
        a4,
    );
    assert(s3 + seq![steps[4]] == steps);
    assert(r0 + r1 + r2 + r3 + r4 == seq![
        Reply::Done,
        Reply::Bytes(version),
        told[0],
        Reply::Int(present),
        told[1],
        Reply::Bytes(interface),
        told[2],
        Reply::Int(model),
        told[3],
    ]);
    assert(a0 + a1 + a2 + a3 + a4 == seq![
        Action::Open,
        Action::ReadString(Request::ModVersion),
        Action::Print(line1),
        Action::ReadInt(Request::HwcheckUw),
        Action::Print(line2),
        Action::ReadString(Request::UwHwIfStr),
        Action::Print(line3),
        Action::ReadInt(Request::UwModelId),
        Action::Print(line4),
    ]);
}

/// `fans auto` makes one request of the driver, which hands the fans back, and reports it.
pub proof fn law_fans_auto_run(told: ReplyModel)
    ensures
        carries_out(
            command_steps(Command::Fans(FanCommand::Auto)),
            seq![Reply::Done, Reply::Int(1), Reply::Done, told],
            seq![
                Action::Open,
                Action::ReadInt(Request::HwcheckUw),
                Action::Signal(Request::SetUwFanauto),
                Action::Print("fans: automatic mode requested"@),
            ],
        ),
{
    let line = "fans: automatic mode requested"@;
    lemma_change_and_line(Step::Signal(Request::SetUwFanauto), line, told);
    let steps = seq![Step::Signal(Request::SetUwFanauto), Step::Print(line)];
    let actions = seq![Action::Signal(Request::SetUwFanauto), Action::Print(line)];
    lemma_behind_device(steps, seq![Reply::Done, told], actions);
    lemma_four(Reply::Int(1), Reply::Done, told, actions[0], actions[1]);
    assert(seq![Step::Open, Step::RequireUniwill] + steps == command_steps(
        Command::Fans(FanCommand::Auto),
    ));
}

/// Replies and actions of a command that makes the device ready and does two things more.
proof fn lemma_four(
    second: ReplyModel,
    third: ReplyModel,
    fourth: ReplyModel,
    action: ActionModel,
    line: ActionModel,
)
    ensures
        seq![Reply::Done, second] + seq![third, fourth] == seq![
            Reply::Done,
            second,
            third,
            fourth,
        ],
        seq![Action::Open, Action::ReadInt(Request::HwcheckUw)] + seq![action, line] == seq![
            Action::Open,
            Action::ReadInt(Request::HwcheckUw),
            action,
            line,
        ],
{
    assert(seq![Reply::Done, second] + seq![third, fourth] =~= seq![
        Reply::Done,
        second,
        third,
        fourth,
    ]);
    assert(seq![Action::Open, Action::ReadInt(Request::HwcheckUw)] + seq![action, line] =~= seq![
        Action::Open,
        Action::ReadInt(Request::HwcheckUw),
        action,
        line,
    ]);
}

/// `fans set` with a valid fan and percentage writes twice the percentage to that fan and
/// reports it.
pub proof fn law_fans_set_run(fan: u8, percent: u8, told: ReplyModel)
    requires
        fan == 1 || fan == 2,
        percent <= 100,
    ensures
        carries_out(
            command_steps(Command::Fans(FanCommand::SetTo { fan, percent })),
            seq![Reply::Done, Reply::Int(1), Reply::Done, told],
            seq![
                Action::Open,
                Action::ReadInt(Request::HwcheckUw),
                Action::WriteInt(
                    if fan == 1 {
                        Request::SetUwFanspeed
                    } else {
                        Request::SetUwFanspeed2
                    },
                    (2 * percent) as i32,
                ),
                Action::Print(
                    "fan"@ + decimal(fan as nat) + ": set "@ + decimal(percent as nat)
                        + "% (raw "@ + decimal((2 * percent) as nat) + ")"@,
                ),
            ],
        ),
{
    law_raw_is_twice_percent(percent);
    let request = if fan == 1 {
        Request::SetUwFanspeed
    } else {
        Request::SetUwFanspeed2
    };
    let line = "fan"@ + decimal(fan as nat) + ": set "@ + decimal(percent as nat) + "% (raw "@
        + decimal((2 * percent) as nat) + ")"@;
    let change = Step::WriteInt(request, (2 * percent) as i32);
    lemma_change_and_line(change, line, told);
    let steps = seq![change, Step::Print(line)];
    let actions = seq![Action::WriteInt(request, (2 * percent) as i32), Action::Print(line)];
    lemma_behind_device(steps, seq![Reply::Done, told], actions);
    lemma_four(Reply::Int(1), Reply::Done, told, actions[0], actions[1]);
    assert(seq![Step::Open, Step::RequireUniwill] + steps == command_steps(
        Command::Fans(FanCommand::SetTo { fan, percent }),
    ));
}

/// `profile set` writes the profile's number, 1, 2 or 3, and reports its name.
pub proof fn law_profile_set_run(profile: PerformanceProfile, told: ReplyModel)
    ensures
        carries_out(
            command_steps(Command::Profile(ProfileCommand::SetTo { profile })),
            seq![Reply::Done, Reply::Int(1), Reply::Done, told],
            seq![
                Action::Open,
                Action::ReadInt(Request::HwcheckUw),
                Action::WriteInt(
                    Request::SetUwPerfProf,
                    match profile {
                        PerformanceProfile::PowerSave => 1,
                        PerformanceProfile::Enthusiast => 2,
                        PerformanceProfile::Overboost => 3,
                    },
                ),
                Action::Print(
                    "profile: set "@ + match profile {
                        PerformanceProfile::PowerSave => "power_save"@,
                        PerformanceProfile::Enthusiast => "enthusiast"@,
                        PerformanceProfile::Overboost => "overboost"@,
                    },
                ),
            ],
        ),
{
    let id: i32 = match profile {
        PerformanceProfile::PowerSave => 1,
        PerformanceProfile::Enthusiast => 2,
        PerformanceProfile::Overboost => 3,
    };
    let line = "profile: set "@ + match profile {
        PerformanceProfile::PowerSave => "power_save"@,
        PerformanceProfile::Enthusiast => "enthusiast"@,
        PerformanceProfile::Overboost => "overboost"@,
    };
    let change = Step::WriteInt(Request::SetUwPerfProf, id);
    lemma_change_and_line(change, line, told);
    let steps = seq![change, Step::Print(line)];
    let actions = seq![Action::WriteInt(Request::SetUwPerfProf, id), Action::Print(line)];
    lemma_behind_device(steps, seq![Reply::Done, told], actions);
    lemma_four(Reply::Int(1), Reply::Done, told, actions[0], actions[1]);
    assert(seq![Step::Open, Step::RequireUniwill] + steps == command_steps(
        Command::Profile(ProfileCommand::SetTo { profile }),
    ));
}

/// `profile list` lists the profiles that the driver counts, and `profile get` shows what the
/// mode register holds, by name and in hexadecimal.
pub proof fn law_profile_query_runs(count: i32, raw: i32, told: ReplyModel)
    ensures
        carries_out(
            command_steps(Command::Profile(ProfileCommand::List)),
            seq![Reply::Done, Reply::Int(1), Reply::Int(count), told],
            seq![
                Action::Open,
                Action::ReadInt(Request::HwcheckUw),
                Action::ReadInt(Request::UwProfsAvailable),
                Action::Print(
                    "available_profiles"@ + ": "@ + listed_names(counted_profiles(count)),
                ),
            ],
        ),
        carries_out(
            command_steps(Command::Profile(ProfileCommand::Get)),
            seq![Reply::Done, Reply::Int(1), Reply::Int(raw), told],
            seq![
                Action::Open,
                Action::ReadInt(Request::HwcheckUw),
                Action::ReadInt(Request::UwMode),
                Action::Print(
                    "profile: "@ + mode_name(raw) + " (raw 0x"@ + hex_bits(raw) + ")"@,
                ),
            ],
        ),
{
    let list = "available_profiles"@ + ": "@ + listed_names(counted_profiles(count));
    lemma_reports(Step::ShowProfiles, Reply::Int(count), list, told);
    let actions = seq![Action::ReadInt(Request::UwProfsAvailable), Action::Print(list)];
    lemma_behind_device(seq![Step::ShowProfiles], seq![Reply::Int(count), told], actions);
    lemma_four(Reply::Int(1), Reply::Int(count), told, actions[0], actions[1]);
    let device = seq![Step::<Seq<char>>::Open, Step::<Seq<char>>::RequireUniwill];
    assert(device + seq![Step::<Seq<char>>::ShowProfiles] == command_steps(
        Command::Profile(ProfileCommand::List),
    ));
    let mode = "profile: "@ + mode_name(raw) + " (raw 0x"@ + hex_bits(raw) + ")"@;
    lemma_reports(Step::ShowProfile, Reply::Int(raw), mode, told);
    let actions = seq![Action::ReadInt(Request::UwMode), Action::Print(mode)];
    lemma_behind_device(seq![Step::ShowProfile], seq![Reply::Int(raw), told], actions);
    lemma_four(Reply::Int(1), Reply::Int(raw), told, actions[0], actions[1]);
    let device = seq![Step::<Seq<char>>::Open, Step::<Seq<char>>::RequireUniwill];
    assert(device + seq![Step::<Seq<char>>::ShowProfile] == command_steps(
        Command::Profile(ProfileCommand::Get),
    ));
}

/// What the report says about a fan.
pub open spec fn report_line(
    number: Seq<char>,
    raw_speed: i32,
    temp: i32,
    raw_temp: i32,
) -> Seq<char> {
    "fan"@ + number + ": speed="@ + decimal(percent_of_raw(raw_speed as int) as nat)
        + "%, raw_speed="@ + signed_decimal(raw_speed as int) + ", temp="@ + signed_decimal(
        temp as int,
    ) + "C, raw_temp="@ + signed_decimal(raw_temp as int) + "C"@
}

proof fn lemma_fan_numbers()
    ensures
        decimal(1) == "1"@,
        decimal(2) == "2"@,
{
    reveal_strlit("1");
    reveal_strlit("2");
    assert(decimal(1) =~= "1"@);
    assert(decimal(2) =~= "2"@);
}

/// The report on a fan whose temperature was read as a positive one shows that temperature
/// twice, and asks for no other.
pub proof fn law_fan_with_temperature(second: bool, raw_speed: i32, temp: i32, told: ReplyModel)
    requires
        temp > 0,
    ensures
        carries_out(
            seq![
                Step::FanSpeed(
                    if second {
                        1
                    } else {
                        0
                    },
                ),
            ],
            seq![Reply::Int(raw_speed), Reply::Int(temp), told],
            seq![
                Action::ReadInt(
                    if second {
                        Request::UwFanspeed2
                    } else {
                        Request::UwFanspeed
                    },
                ),
                Action::ReadInt(
                    if second {
                        Request::UwFanTemp2
                    } else {
                        Request::UwFanTemp
                    },
                ),
                Action::Print(
                    report_line(
                        if second {
                            "2"@
                        } else {
                            "1"@
                        },
                        raw_speed,
                        temp,
                        temp,
                    ),
                ),
            ],
        ),
{
    lemma_fan_numbers();
    let fan: u8 = if second {
        1
    } else {
        0
    };
    let number = if second {
        "2"@
    } else {
        "1"@
    };
    lemma_fan_with_own_temperature(
        fan,
        raw_speed,
        Reply::Int(temp),
        report_line(number, raw_speed, temp, temp),
        told,
    );
}

proof fn lemma_fan_with_own_temperature(
    fan: u8,
    raw_speed: i32,
    read: ReplyModel,
    line: Seq<char>,
    told: ReplyModel,
)
    requires
        fan < 2,
        after(Step::FanTemp(fan, raw_speed), read) == Ok::<Seq<StepModel>, FailureModel>(
            seq![Step::Print(line)],
        ),
    ensures
        carries_out(
            seq![Step::FanSpeed(fan)],
            seq![Reply::Int(raw_speed), read, told],
            seq![
                action_of(Step::FanSpeed(fan)),
                action_of(Step::FanTemp(fan, raw_speed)),
                Action::Print(line),
            ],
        ),
{
    let second = Step::<Seq<char>>::FanTemp(fan, raw_speed);
    let first = Step::<Seq<char>>::FanSpeed(fan);
    lemma_reports(second, read, line, told);
    let actions = seq![action_of(second), Action::Print(line)];
    lemma_step_carried_out(
        first,
        Reply::Int(raw_speed),
        seq![second],
        seq![read, told],
        actions,
    );
    assert(seq![Reply::Int(raw_speed)] + seq![read, told] =~= seq![
        Reply::Int(raw_speed),
        read,
        told,
    ]);
    assert(seq![action_of(first)] + actions =~= seq![
        action_of(first),
        action_of(second),
        Action::Print(line),
    ]);
}

/// The temperature that a reply gives, or 0 where it could not be read.
pub open spec fn read_or_zero(reply: ReplyModel) -> i32 {
    if let Reply::Int(temp) = reply {
        temp
    } else {
        0
    }
}

/// The first fan's temperature is shown as it is read, and as 0 where it cannot be read.
pub proof fn law_first_fan_report(raw_speed: i32, temp: ReplyModel, told: ReplyModel)
    ensures
        carries_out(
            seq![Step::FanSpeed(0)],
            seq![Reply::Int(raw_speed), temp, told],
            seq![
                Action::ReadInt(Request::UwFanspeed),
                Action::ReadInt(Request::UwFanTemp),
                Action::Print(
                    report_line("1"@, raw_speed, read_or_zero(temp), read_or_zero(temp)),
                ),
            ],
        ),
{
    lemma_fan_numbers();
    let shown = read_or_zero(temp);
    let line = report_line("1"@, raw_speed, shown, shown);
    lemma_fan_with_own_temperature(0, raw_speed, temp, line, told);
}

/// Where the second fan's temperature is not positive, or cannot be read, the first one's is
/// asked for and shown in its place, beside the one that was read.
pub proof fn law_second_fan_without_temperature(
    raw_speed: i32,
    temp: ReplyModel,
    first_temp: ReplyModel,
    told: ReplyModel,
)
    requires
        read_or_zero(temp) <= 0,
    ensures
        carries_out(
            seq![Step::FanSpeed(1)],
            seq![Reply::Int(raw_speed), temp, first_temp, told],
            seq![
                Action::ReadInt(Request::UwFanspeed2),
                Action::ReadInt(Request::UwFanTemp2),
                Action::ReadInt(Request::UwFanTemp),
                Action::Print(
                    report_line("2"@, raw_speed, read_or_zero(first_temp), read_or_zero(temp)),
                ),
            ],
        ),
{
    lemma_fan_numbers();
    let line = report_line("2"@, raw_speed, read_or_zero(first_temp), read_or_zero(temp));
    let first = Step::<Seq<char>>::FanSpeed(1);
    let second = Step::<Seq<char>>::FanTemp(1, raw_speed);
    let third = Step::<Seq<char>>::FirstFanTemp(raw_speed, read_or_zero(temp));
    lemma_reports(third, first_temp, line, told);
    let actions = seq![Action::ReadInt(Request::UwFanTemp), Action::Print(line)];
    lemma_step_carried_out(second, temp, seq![third], seq![first_temp, told], actions);
    let replies = seq![temp] + seq![first_temp, told];
    let actions = seq![Action::ReadInt(Request::UwFanTemp2)] + actions;
    lemma_step_carried_out(first, Reply::Int(raw_speed), seq![second], replies, actions);
    assert(seq![Reply::Int(raw_speed)] + replies =~= seq![
        Reply::Int(raw_speed),
        temp,
        first_temp,
        told,
    ]);
    assert(seq![Action::ReadInt(Request::UwFanspeed2)] + actions =~= seq![
        Action::ReadInt(Request::UwFanspeed2),
        Action::ReadInt(Request::UwFanTemp2),
        Action::ReadInt(Request::UwFanTemp),
        Action::Print(line),
    ]);
}

/// The number of fans whose speed could be read.
pub open spec fn fans_read(first: ReplyModel, second: ReplyModel) -> int {
    (if first is Int {
        1int
    } else {
        0
    }) + (if second is Int {
        1int
    } else {
        0
    })
}

/// The replies with which `fans status` finds out about the fans in general.
pub open spec fn survey_replies(
    first: ReplyModel,
    second: ReplyModel,
    lowest: i32,
    off: i32,
    manual: i32,
    told: Seq<ReplyModel>,
) -> Seq<ReplyModel> {
    seq![
        Reply::Done,
        Reply::Int(1),
        first,
        second,
        told[0],
        Reply::Int(lowest),
        told[1],
        Reply::Int(off),
        told[2],
        Reply::Int(manual),
        told[3],
    ]
}

/// What `fans status` asks for to find out about the fans in general.
pub open spec fn survey_actions(fans: int, lowest: i32, off: i32, manual: i32) -> Seq<
    ActionModel,
> {
    seq![
        Action::Open,
        Action::ReadInt(Request::HwcheckUw),
        Action::ReadInt(Request::UwFanspeed),
        Action::ReadInt(Request::UwFanspeed2),
        Action::Print("fans"@ + ": "@ + decimal(fans as nat)),
        Action::ReadInt(Request::UwFansMinSpeed),
        Action::Print("fan_min_speed_percent"@ + ": "@ + signed_decimal(lowest as int)),
        Action::ReadInt(Request::UwFansOffAvailable),
        Action::Print(
            "fans_off_available"@ + ": "@ + if off == 1 {
                "on"@
            } else {
                "off"@
            },
        ),
        Action::ReadInt(Request::UwModeEnable),
        Action::Print("manual_mode_register"@ + ": "@ + signed_decimal(manual as int)),
    ]
}

proof fn lemma_survey(
    first: ReplyModel,
    second: ReplyModel,
    lowest: i32,
    off: i32,
    manual: i32,
    told: Seq<ReplyModel>,
    fans: Seq<StepModel>,
    replies: Seq<ReplyModel>,
    actions: Seq<ActionModel>,
)
    requires
        fans.len() == fans_read(first, second),
        forall|k: int| 0 <= k < fans.len() ==> #[trigger] fans[k] == Step::<Seq<char>>::FanSpeed(
            k as u8,
        ),
        carries_out(fans, replies, actions),
    ensures
        carries_out(
            command_steps(Command::Fans(FanCommand::Status)),
            survey_replies(first, second, lowest, off, manual, told) + replies,
            survey_actions(fans_read(first, second), lowest, off, manual) + actions,
        ),
{
    let count = fans_read(first, second);
    let report = fan_report(count as u8);
    let all = survey_actions(count, lowest, off, manual);
    let given = survey_replies(first, second, lowest, off, manual, told);
    let s0 = seq![report[0]];
    let s1 = seq![report[1]];
    let s2 = seq![report[2]];
    let s3 = seq![report[3]];
    lemma_quiet(report[0], told[0]);
    lemma_reports(report[1], Reply::Int(lowest), all[6]->Print_0, told[1]);
    lemma_reports(report[2], Reply::Int(off), all[8]->Print_0, told[2]);
    lemma_reports(report[3], Reply::Int(manual), all[10]->Print_0, told[3]);
    let r0 = seq![told[0]];
    let r1 = seq![Reply::Int(lowest), told[1]];
    let r2 = seq![Reply::Int(off), told[2]];
    let r3 = seq![Reply::Int(manual), told[3]];
    let a0 = seq![all[4]];
    let a1 = seq![all[5], all[6]];
    let a2 = seq![all[7], all[8]];
    let a3 = seq![all[9], all[10]];
    law_parts_carried_out(s0, r0, a0, s1, r1, a1);
    law_parts_carried_out(s0 + s1, r0 + r1, a0 + a1, s2, r2, a2);
    law_parts_carried_out(s0 + s1 + s2, r0 + r1 + r2, a0 + a1 + a2, s3, r3, a3);
    let rs = r0 + r1 + r2 + r3;
    let acts = a0 + a1 + a2 + a3;
    law_parts_carried_out(s0 + s1 + s2 + s3, rs, acts, fans, replies, actions);
    assert(s0 + s1 + s2 + s3 + fans =~= report);
    let counting = Step::<Seq<char>>::CountSecondFan(first is Int);
    lemma_step_carried_out(counting, second, report, rs + replies, acts + actions);
    let rs2 = seq![second] + (rs + replies);
    let acts2 = seq![all[3]] + (acts + actions);
    lemma_step_carried_out(Step::CountFirstFan, first, seq![counting], rs2, acts2);
    let rs1 = seq![first] + rs2;
    let acts1 = seq![all[2]] + acts2;
    lemma_behind_device(seq![Step::CountFirstFan], rs1, acts1);
    let device = seq![Step::<Seq<char>>::Open, Step::<Seq<char>>::RequireUniwill];
    assert(device + seq![Step::<Seq<char>>::CountFirstFan] =~= fans_steps(FanCommand::Status));
    assert(seq![Reply::Done, Reply::Int(1)] + rs1 =~= given + replies);
    assert(seq![Action::Open, Action::ReadInt(Request::HwcheckUw)] + acts1 =~= all + actions);
}

/// `fans status` where no fan can be read: what holds of the fans in general is shown, and the
/// report ends there.
pub proof fn law_status_without_fans(
    first: ReplyModel,
    second: ReplyModel,
    lowest: i32,
    off: i32,
    manual: i32,
    told: Seq<ReplyModel>,
)
    requires
        fans_read(first, second) == 0,
    ensures
        carries_out(
            command_steps(Command::Fans(FanCommand::Status)),
            survey_replies(first, second, lowest, off, manual, told),
            survey_actions(0, lowest, off, manual),
        ),
{
    let replies = survey_replies(first, second, lowest, off, manual, told);
    let actions = survey_actions(0, lowest, off, manual);
    lemma_nothing_carried_out();
    lemma_survey(
        first,
        second,
        lowest,
        off,
        manual,
        told,
        Seq::empty(),
        Seq::empty(),
        Seq::empty(),
    );
    assert(replies + Seq::<ReplyModel>::empty() =~= replies);
    assert(actions + Seq::<ActionModel>::empty() =~= actions);
}

/// `fans status` where one fan can be read: the first fan is reported on.
pub proof fn law_status_of_one_fan(
    first: ReplyModel,
    second: ReplyModel,
    lowest: i32,
    off: i32,
    manual: i32,
    raw_speed: i32,
    temp: ReplyModel,
    told: Seq<ReplyModel>,
)
    requires
        fans_read(first, second) == 1,
    ensures
        carries_out(
            command_steps(Command::Fans(FanCommand::Status)),
            survey_replies(first, second, lowest, off, manual, told) + seq![
                Reply::Int(raw_speed),
                temp,
                told[4],
            ],
            survey_actions(1, lowest, off, manual) + seq![
                Action::ReadInt(Request::UwFanspeed),
                Action::ReadInt(Request::UwFanTemp),
                Action::Print(
                    report_line("1"@, raw_speed, read_or_zero(temp), read_or_zero(temp)),
                ),
            ],
        ),
{
    law_first_fan_report(raw_speed, temp, told[4]);
    lemma_survey(
        first,
        second,
        lowest,
        off,
        manual,
        told,
        seq![Step::FanSpeed(0)],
        seq![Reply::Int(raw_speed), temp, told[4]],
        seq![
            Action::ReadInt(Request::UwFanspeed),
            Action::ReadInt(Request::UwFanTemp),
            Action::Print(report_line("1"@, raw_speed, read_or_zero(temp), read_or_zero(temp))),
        ],
    );
}

/// `fans status` where both fans can be read: the first fan is reported on, and then the second
/// one, as is stated for it alone.
pub proof fn law_status_of_two_fans(
    first: ReplyModel,
    second: ReplyModel,
    lowest: i32,
    off: i32,
    manual: i32,
    raw_speed: i32,
    temp: ReplyModel,
    told: Seq<ReplyModel>,
    replies: Seq<ReplyModel>,
    actions: Seq<ActionModel>,
)
    requires
        fans_read(first, second) == 2,
        carries_out(seq![Step::FanSpeed(1)], replies, actions),
    ensures
        carries_out(
            command_steps(Command::Fans(FanCommand::Status)),
            survey_replies(first, second, lowest, off, manual, told) + (seq![
                Reply::Int(raw_speed),
                temp,
                told[4],
            ] + replies),
            survey_actions(2, lowest, off, manual) + (seq![
                Action::ReadInt(Request::UwFanspeed),
                Action::ReadInt(Request::UwFanTemp),
                Action::Print(
                    report_line("1"@, raw_speed, read_or_zero(temp), read_or_zero(temp)),
                ),
            ] + actions),
        ),
{
    let given = seq![Reply::Int(raw_speed), temp, told[4]];
    let asked = seq![
        Action::ReadInt(Request::UwFanspeed),
        Action::ReadInt(Request::UwFanTemp),
        Action::Print(report_line("1"@, raw_speed, read_or_zero(temp), read_or_zero(temp))),
    ];
    law_first_fan_report(raw_speed, temp, told[4]);
    law_parts_carried_out(
        seq![Step::FanSpeed(0)],
        given,
        asked,
        seq![Step::FanSpeed(1)],
        replies,
        actions,
    );
    let fans = seq![Step::<Seq<char>>::FanSpeed(0)] + seq![Step::<Seq<char>>::FanSpeed(1)];
    lemma_survey(
        first,
        second,
        lowest,
        off,
        manual,
        told,
        fans,
        given + replies,
        asked + actions,
    );
}

/// `charging list` and `charging get` show what their attributes hold, trimmed.
pub proof fn law_charging_query_runs(text: Seq<char>, told: ReplyModel)
    ensures
        ({
            let path = sysfs_path(CHARGING_PROFILES_AVAILABLE@);
            carries_out(
                command_steps(Command::Charging(ChargingCommand::List)),
                seq![Reply::Flag(true), Reply::Text(text), told],
                seq![
                    Action::Exists(path),
                    Action::ReadFile(path),
                    Action::Print("available_charging_profiles"@ + ": "@ + trimmed(text)),
                ],
            )
        }),
        ({
            let path = sysfs_path(CHARGING_PROFILE@);
            carries_out(
                command_steps(Command::Charging(ChargingCommand::Get)),
                seq![Reply::Flag(true), Reply::Text(text), told],
                seq![
                    Action::Exists(path),
                    Action::ReadFile(path),
                    Action::Print("charging_profile"@ + ": "@ + trimmed(text)),
                ],
            )
        }),
{
    let list = command_steps(Command::Charging(ChargingCommand::List));
    let listed = "available_charging_profiles"@ + ": "@ + trimmed(text);
    lemma_attribute_shown(list, sysfs_path(CHARGING_PROFILES_AVAILABLE@), text, listed, told);
    let get = command_steps(Command::Charging(ChargingCommand::Get));
    let shown = "charging_profile"@ + ": "@ + trimmed(text);
    lemma_attribute_shown(get, sysfs_path(CHARGING_PROFILE@), text, shown, told);
}

proof fn lemma_attribute_shown(
    steps: Seq<StepModel>,
    path: Seq<char>,
    text: Seq<char>,
    line: Seq<char>,
    told: ReplyModel,
)
    requires
        steps.len() == 2,
        steps[0] == Step::EnsureAvailable(path),
        steps[1] is ShowFile,
        action_of(steps[1]) == Action::ReadFile(path),
        after(steps[1], Reply::Text(text)) == Ok::<Seq<StepModel>, FailureModel>(
            seq![Step::Print(line)],
        ),
    ensures
        carries_out(
            steps,
            seq![Reply::Flag(true), Reply::Text(text), told],
            seq![Action::Exists(path), Action::ReadFile(path), Action::Print(line)],
        ),
{
    lemma_reports(steps[1], Reply::Text(text), line, told);
    let replies = seq![Reply::Text(text), told];
    let actions = seq![Action::ReadFile(path), Action::Print(line)];
    lemma_behind_attribute(path, seq![steps[1]], replies, actions);
    assert(seq![Step::EnsureAvailable(path)] + seq![steps[1]] =~= steps);
    assert(seq![Reply::Flag(true)] + replies =~= seq![Reply::Flag(true), Reply::Text(text), told]);
    assert(seq![Action::Exists(path)] + actions =~= seq![
        Action::Exists(path),
        Action::ReadFile(path),
        Action::Print(line),
    ]);
}

/// A value that is checked against one attribute and then written to another.
proof fn lemma_checked_write(
    steps: Seq<StepModel>,
    limits: Seq<char>,
    text: Seq<char>,
    path: Seq<char>,
    contents: Seq<char>,
    line: Seq<char>,
    told: ReplyModel,
)
    requires
        steps.len() == 2,
        steps[0] == Step::EnsureAvailable(limits),
        !(steps[1] is Refuse),
        action_of(steps[1]) == Action::ReadFile(limits),
        after(steps[1], Reply::Text(text)) == Ok::<Seq<StepModel>, FailureModel>(
            seq![
                Step::EnsureAvailable(path),
                Step::WriteFile(path, contents),
                Step::Print(line),
            ],
        ),
    ensures
        carries_out(
            steps,
            seq![Reply::Flag(true), Reply::Text(text), Reply::Flag(true), Reply::Done, told],
            seq![
                Action::Exists(limits),
                Action::ReadFile(limits),
                Action::Exists(path),
                Action::WriteFile(path, contents),
                Action::Print(line),
            ],
        ),
{
    lemma_change_and_line(Step::WriteFile(path, contents), line, told);
    let written = seq![Step::WriteFile(path, contents), Step::Print(line)];
    let r1 = seq![Reply::Done, told];
    let a1 = seq![Action::WriteFile(path, contents), Action::Print(line)];
    lemma_behind_attribute(path, written, r1, a1);
    let more = seq![
        Step::EnsureAvailable(path),
        Step::WriteFile(path, contents),
        Step::Print(line),
    ];
    assert(seq![Step::EnsureAvailable(path)] + written =~= more);
    let r2 = seq![Reply::Flag(true)] + r1;
    let a2 = seq![Action::Exists(path)] + a1;
    lemma_step_carried_out(steps[1], Reply::Text(text), more, r2, a2);
    let r3 = seq![Reply::Text(text)] + r2;
    let a3 = seq![Action::ReadFile(limits)] + a2;
    lemma_behind_attribute(limits, seq![steps[1]], r3, a3);
    assert(seq![Step::EnsureAvailable(limits)] + seq![steps[1]] =~= steps);
    assert(seq![Reply::Flag(true)] + r3 =~= seq![
        Reply::Flag(true),
        Reply::Text(text),
        Reply::Flag(true),
        Reply::Done,
        told,
    ]);
    assert(seq![Action::Exists(limits)] + a3 =~= seq![
        Action::Exists(limits),
        Action::ReadFile(limits),
        Action::Exists(path),
        Action::WriteFile(path, contents),
        Action::Print(line),
    ]);
}

/// `charging set` with a profile of the list writes that profile, trimmed and with a line feed,
/// and reports it.
pub proof fn law_charging_set_run(profile: Seq<char>, list: Seq<char>, told: ReplyModel)
    requires
        has_word(trimmed(list), trimmed(profile)),
    ensures
        carries_out(
            command_steps(Command::Charging(ChargingCommand::SetTo { profile })),
            seq![Reply::Flag(true), Reply::Text(list), Reply::Flag(true), Reply::Done, told],
            seq![
                Action::Exists(sysfs_path(CHARGING_PROFILES_AVAILABLE@)),
                Action::ReadFile(sysfs_path(CHARGING_PROFILES_AVAILABLE@)),
                Action::Exists(sysfs_path(CHARGING_PROFILE@)),
                Action::WriteFile(sysfs_path(CHARGING_PROFILE@), trimmed(profile).push('\n')),
                Action::Print("charging_profile: set "@ + trimmed(profile)),
            ],
        ),
{
    lemma_checked_write(
        command_steps(Command::Charging(ChargingCommand::SetTo { profile })),
        sysfs_path(CHARGING_PROFILES_AVAILABLE@),
        list,
        sysfs_path(CHARGING_PROFILE@),
        trimmed(profile).push('\n'),
        "charging_profile: set "@ + trimmed(profile),
        told,
    );
}

/// `backlight set` with a brightness that is not above the highest one writes it with a line
/// feed, and reports both.
pub proof fn law_backlight_set_run(
    brightness: u32,
    limit: Seq<char>,
    max: u32,
    told: ReplyModel,
)
    requires
        parsed_u32(trimmed(limit)) == Ok::<u32, NumberError>(max),
        brightness <= max,
    ensures
        carries_out(
            command_steps(Command::Backlight(BacklightCommand::SetTo { brightness })),
            seq![Reply::Flag(true), Reply::Text(limit), Reply::Flag(true), Reply::Done, told],
            seq![
                Action::Exists(sysfs_path(MAX_BRIGHTNESS@)),
                Action::ReadFile(sysfs_path(MAX_BRIGHTNESS@)),
                Action::Exists(sysfs_path(BRIGHTNESS@)),
                Action::WriteFile(
                    sysfs_path(BRIGHTNESS@),
                    decimal(brightness as nat).push('\n'),
                ),
                Action::Print(
                    "backlight: set "@ + decimal(brightness as nat) + "/"@ + decimal(max as nat),
                ),
            ],
        ),
{
    lemma_checked_write(
        command_steps(Command::Backlight(BacklightCommand::SetTo { brightness })),
        sysfs_path(MAX_BRIGHTNESS@),
        limit,
        sysfs_path(BRIGHTNESS@),
        decimal(brightness as nat).push('\n'),
        "backlight: set "@ + decimal(brightness as nat) + "/"@ + decimal(max as nat),
        told,
    );
}

/// A highest brightness that is no number ends `backlight set` with the reason for that.
pub proof fn law_unreadable_limit_is_reported(
    brightness: u32,
    limit: Seq<char>,
    error: NumberError,
)
    requires
        parsed_u32(trimmed(limit)) == Err::<u32, NumberError>(error),
    ensures
        ({
            let steps = command_steps(Command::Backlight(BacklightCommand::SetTo { brightness }));
            next_action(resumed(resumed(steps, Reply::Flag(true)), Reply::Text(limit)))
                == Action::Fail(Failure::<Seq<char>>::Number(error))
        }),
{
    let steps = command_steps(Command::Backlight(BacklightCommand::SetTo { brightness }));
    assert(resumed(steps, Reply::Flag(true)) =~= seq![
        Step::<Seq<char>>::LimitBrightness(brightness),
    ]);
}

/// `backlight get` shows the brightness and the highest one, each as its attribute holds it,
/// trimmed.
pub proof fn law_backlight_get_run(brightness: Seq<char>, max: Seq<char>, told: ReplyModel)
    ensures
        carries_out(
            command_steps(Command::Backlight(BacklightCommand::Get)),
            seq![
                Reply::Flag(true),
                Reply::Text(brightness),
                Reply::Flag(true),
                Reply::Text(max),
                told,
            ],
            seq![
                Action::Exists(sysfs_path(BRIGHTNESS@)),
                Action::ReadFile(sysfs_path(BRIGHTNESS@)),
                Action::Exists(sysfs_path(MAX_BRIGHTNESS@)),
                Action::ReadFile(sysfs_path(MAX_BRIGHTNESS@)),
                Action::Print("backlight: "@ + trimmed(brightness) + "/"@ + trimmed(max)),
            ],
        ),
{
    let steps = command_steps(Command::Backlight(BacklightCommand::Get));
    let path = sysfs_path(BRIGHTNESS@);
    let limits = sysfs_path(MAX_BRIGHTNESS@);
    let line = "backlight: "@ + trimmed(brightness) + "/"@ + trimmed(max);
    let last = Step::MaxBrightness(trimmed(brightness));
    lemma_reports(last, Reply::Text(max), line, told);
    let r1 = seq![Reply::Text(max), told];
    let a1 = seq![Action::ReadFile(limits), Action::Print(line)];
    lemma_behind_attribute(limits, seq![last], r1, a1);
    let more = seq![Step::EnsureAvailable(limits), last];
    assert(seq![Step::EnsureAvailable(limits)] + seq![last] =~= more);
    let r2 = seq![Reply::Flag(true)] + r1;
    let a2 = seq![Action::Exists(limits)] + a1;
    lemma_step_carried_out(Step::Brightness, Reply::Text(brightness), more, r2, a2);
    let r3 = seq![Reply::Text(brightness)] + r2;
    let a3 = seq![Action::ReadFile(path)] + a2;
    lemma_behind_attribute(path, seq![Step::Brightness], r3, a3);
    assert(seq![Step::EnsureAvailable(path)] + seq![Step::Brightness] =~= steps);
    assert(seq![Reply::Flag(true)] + r3 =~= seq![
        Reply::Flag(true),
        Reply::Text(brightness),
        Reply::Flag(true),
        Reply::Text(max),
        told,
    ]);
    assert(seq![Action::Exists(path)] + a3 =~= seq![
        Action::Exists(path),
        Action::ReadFile(path),
        Action::Exists(limits),
        Action::ReadFile(limits),
        Action::Print(line),
    ]);
}

/// A switch: the attribute below the directory, its name, and the commands on it.
pub open spec fn is_switch(
    command: Command<Seq<char>>,
    what: BoolCommand,
    path: Seq<char>,
    name: Seq<char>,
) -> bool {
    let base = "/sys/devices/platform/tuxedo_keyboard"@ + "/"@;
    ||| command == Command::<Seq<char>>::FnLock(what) && path == base + "fn_lock"@ && name
        == "fn_lock"@
    ||| command == Command::<Seq<char>>::AcAutoBoot(what) && path == base
        + "ac_auto_boot/ac_auto_boot"@ && name == "ac_auto_boot"@
    ||| command == Command::<Seq<char>>::UsbPowershare(what) && path == base
        + "usb_powershare/usb_powershare"@ && name == "usb_powershare"@
}

proof fn lemma_name_has_no_slash(name: Seq<char>)
    requires
        name == "fn_lock"@ || name == "ac_auto_boot"@ || name == "usb_powershare"@,
    ensures
        name.len() > 2,
        name[0] != '/',
        forall|k: int| 0 <= k < name.len() ==> #[trigger] name[k] != '/',
{
    reveal_strlit("fn_lock");
    reveal_strlit("ac_auto_boot");
    reveal_strlit("usb_powershare");
}

proof fn lemma_switch_names()
    ensures
        sysfs_path(FN_LOCK@) == "/sys/devices/platform/tuxedo_keyboard"@ + "/"@ + "fn_lock"@,
        sysfs_path(AC_AUTO_BOOT@) == "/sys/devices/platform/tuxedo_keyboard"@ + "/"@
            + "ac_auto_boot/ac_auto_boot"@,
        sysfs_path(USB_POWERSHARE@) == "/sys/devices/platform/tuxedo_keyboard"@ + "/"@
            + "usb_powershare/usb_powershare"@,
        path_label(sysfs_path(FN_LOCK@)) == "fn_lock"@,
        path_label(sysfs_path(AC_AUTO_BOOT@)) == "ac_auto_boot"@,
        path_label(sysfs_path(USB_POWERSHARE@)) == "usb_powershare"@,
{
    lemma_name_has_no_slash("fn_lock"@);
    lemma_name_has_no_slash("ac_auto_boot"@);
    lemma_name_has_no_slash("usb_powershare"@);
    let directory = "/sys/devices/platform/tuxedo_keyboard"@;
    reveal_strlit("/");
    assert("/"@ =~= seq!['/']);
    let boot = "ac_auto_boot/ac_auto_boot"@;
    assert(boot =~= "ac_auto_boot"@ + seq!['/'] + "ac_auto_boot"@) by {
        reveal_strlit("ac_auto_boot/ac_auto_boot");
        reveal_strlit("ac_auto_boot");
    }
    let usb = "usb_powershare/usb_powershare"@;
    assert(usb =~= "usb_powershare"@ + seq!['/'] + "usb_powershare"@) by {
        reveal_strlit("usb_powershare/usb_powershare");
        reveal_strlit("usb_powershare");
    }
    assert(boot[0] == "ac_auto_boot"@[0]);
    assert(usb[0] == "usb_powershare"@[0]);
    law_sysfs_below_directory("fn_lock"@);
    law_sysfs_below_directory(boot);
    law_sysfs_below_directory(usb);
    law_label_is_last_part(directory, "fn_lock"@);
    assert(directory + "/"@ + "fn_lock"@ =~= directory + seq!['/'] + "fn_lock"@);
    let head = directory + "/"@ + "ac_auto_boot"@;
    law_label_is_last_part(head, "ac_auto_boot"@);
    assert(directory + "/"@ + boot =~= head + seq!['/'] + "ac_auto_boot"@);
    let head = directory + "/"@ + "usb_powershare"@;
    law_label_is_last_part(head, "usb_powershare"@);
    assert(directory + "/"@ + usb =~= head + seq!['/'] + "usb_powershare"@);
}

/// A query of a switch shows it as on exactly if its attribute holds a 1, trimmed.
pub proof fn law_switch_get_run(
    command: Command<Seq<char>>,
    path: Seq<char>,
    name: Seq<char>,
    text: Seq<char>,
    told: ReplyModel,
)
    requires
        is_switch(command, BoolCommand::Get, path, name),
    ensures
        carries_out(
            command_steps(command),
            seq![Reply::Flag(true), Reply::Text(text), told],
            seq![
                Action::Exists(path),
                Action::ReadFile(path),
                Action::Print(
                    name + ": "@ + if trimmed(text) == "1"@ {
                        "on"@
                    } else {
                        "off"@
                    },
                ),
            ],
        ),
{
    lemma_switch_names();
    let line = name + ": "@ + if trimmed(text) == "1"@ {
        "on"@
    } else {
        "off"@
    };
    lemma_attribute_shown(command_steps(command), path, text, line, told);
}

/// Setting a switch writes a 1 for on or a 0 for off, with a line feed, and reports the word.
pub proof fn law_switch_set_run(
    command: Command<Seq<char>>,
    value: OnOff,
    path: Seq<char>,
    name: Seq<char>,
    told: ReplyModel,
)
    requires
        is_switch(command, BoolCommand::SetTo { value }, path, name),
    ensures
        carries_out(
            command_steps(command),
            seq![Reply::Flag(true), Reply::Done, told],
            seq![
                Action::Exists(path),
                Action::WriteFile(
                    path,
                    if value is On {
                        "1"@.push('\n')
                    } else {
                        "0"@.push('\n')
                    },
                ),
                Action::Print(
                    name + ": set "@ + if value is On {
                        "on"@
                    } else {
                        "off"@
                    },
                ),
            ],
        ),
{
    lemma_switch_names();
    let contents = if value is On {
        "1"@.push('\n')
    } else {
        "0"@.push('\n')
    };
    let line = name + ": set "@ + if value is On {
        "on"@
    } else {
        "off"@
    };
    let written = seq![Step::WriteFile(path, contents), Step::Print(line)];
    let replies = seq![Reply::Done, told];
    let actions = seq![Action::WriteFile(path, contents), Action::Print(line)];
    lemma_change_and_line(Step::WriteFile(path, contents), line, told);
    lemma_behind_attribute(path, written, replies, actions);
    assert(seq![Step::EnsureAvailable(path)] + written =~= command_steps(command));
    assert(seq![Reply::Flag(true)] + replies =~= seq![Reply::Flag(true), Reply::Done, told]);
    assert(seq![Action::Exists(path)] + actions =~= seq![
        Action::Exists(path),
        Action::WriteFile(path, contents),
        Action::Print(line),
    ]);
}

/// The replies to a command that is carried out, and the actions it asks for.
pub struct Run {
    pub command: Command<Seq<char>>,
    pub replies: Seq<ReplyModel>,
    pub actions: Seq<ActionModel>,
}

/// The run carries its command out.
pub open spec fn succeeds(run: Run) -> bool {
    carries_out(command_steps(run.command), run.replies, run.actions)
}

/// `status` does what these commands do, one after the other, with an empty line between one
/// subject and the next.
pub proof fn law_status_run(
    info: Run,
    fans: Run,
    profile: Run,
    profiles: Run,
    charging: Run,
    chargings: Run,
    backlight: Run,
    fn_lock: Run,
    ac_auto_boot: Run,
    usb_powershare: Run,
    told: ReplyModel,
)
    requires
        succeeds(info) && info.command == Command::<Seq<char>>::Info,
        succeeds(fans) && fans.command == Command::<Seq<char>>::Fans(FanCommand::Status),
        succeeds(profile) && profile.command == Command::<Seq<char>>::Profile(
            ProfileCommand::Get,
        ),
        succeeds(profiles) && profiles.command == Command::<Seq<char>>::Profile(
            ProfileCommand::List,
        ),
        succeeds(charging) && charging.command == Command::<Seq<char>>::Charging(
            ChargingCommand::Get,
        ),
        succeeds(chargings) && chargings.command == Command::<Seq<char>>::Charging(
            ChargingCommand::List,
        ),
        succeeds(backlight) && backlight.command == Command::<Seq<char>>::Backlight(
            BacklightCommand::Get,
        ),
        succeeds(fn_lock) && fn_lock.command == Command::<Seq<char>>::FnLock(BoolCommand::Get),
        succeeds(ac_auto_boot) && ac_auto_boot.command == Command::<Seq<char>>::AcAutoBoot(
            BoolCommand::Get,
        ),
        succeeds(usb_powershare) && usb_powershare.command == Command::<Seq<char>>::UsbPowershare(
            BoolCommand::Get,
        ),
    ensures
        carries_out(
            command_steps(Command::Status),
            info.replies + seq![told] + fans.replies + seq![told] + profile.replies
                + profiles.replies + seq![told] + charging.replies + chargings.replies
                + seq![told] + backlight.replies + fn_lock.replies + ac_auto_boot.replies
                + usb_powershare.replies,
            info.actions + seq![Action::Print(""@)] + fans.actions + seq![Action::Print(""@)]
                + profile.actions + profiles.actions + seq![Action::Print(""@)]
                + charging.actions + chargings.actions + seq![Action::Print(""@)]
                + backlight.actions + fn_lock.actions + ac_auto_boot.actions
                + usb_powershare.actions,
        ),
{
    lemma_switch_names();
    lemma_quiet(Step::Print(""@), told);
    let s = command_steps(info.command);
    let r = info.replies;
    let a = info.actions;
    let blank = seq![Step::Print(""@)];
    let line = seq![Action::Print(""@)];
    let reply = seq![told];
    law_parts_carried_out(s, r, a, blank, reply, line);
    let (s, r, a) = (s + blank, r + reply, a + line);
    let (s, r, a) = lemma_next_part(s, r, a, fans);
    law_parts_carried_out(s, r, a, blank, reply, line);
    let (s, r, a) = (s + blank, r + reply, a + line);
    let (s, r, a) = lemma_next_part(s, r, a, profile);
    let (s, r, a) = lemma_next_part(s, r, a, profiles);
    law_parts_carried_out(s, r, a, blank, reply, line);
    let (s, r, a) = (s + blank, r + reply, a + line);
    let (s, r, a) = lemma_next_part(s, r, a, charging);
    let (s, r, a) = lemma_next_part(s, r, a, chargings);
    law_parts_carried_out(s, r, a, blank, reply, line);
    let (s, r, a) = (s + blank, r + reply, a + line);
    let (s, r, a) = lemma_next_part(s, r, a, backlight);
    let (s, r, a) = lemma_next_part(s, r, a, fn_lock);
    let (s, r, a) = lemma_next_part(s, r, a, ac_auto_boot);
    let (s, r, a) = lemma_next_part(s, r, a, usb_powershare);
    assert(s == command_steps(Command::Status));
}

proof fn lemma_next_part(
    steps: Seq<StepModel>,
    replies: Seq<ReplyModel>,
    actions: Seq<ActionModel>,
    run: Run,
) -> (sum: (Seq<StepModel>, Seq<ReplyModel>, Seq<ActionModel>))
    requires
        carries_out(steps, replies, actions),
        succeeds(run),
    ensures
        sum.0 == steps + command_steps(run.command),
        sum.1 == replies + run.replies,
        sum.2 == actions + run.actions,
        carries_out(sum.0, sum.1, sum.2),
{
    law_parts_carried_out(
        steps,
        replies,
        actions,
        command_steps(run.command),
        run.replies,
        run.actions,
    );
    (steps + command_steps(run.command), replies + run.replies, actions + run.actions)
}

/// Whatever the replies are, the only change that a command ever asks for is the one that it
/// was given for.
pub proof fn law_only_requested_change(command: Command<Seq<char>>, replies: Seq<ReplyModel>)
    requires
        is_change(next_action(played(command_steps(command), replies))),
    ensures
        requested_change(command) == Some(next_action(played(command_steps(command), replies))),
{
    let steps = command_steps(command);
    let action = next_action(played(steps, replies));
    match command {
        Command::Charging(ChargingCommand::SetTo { profile }) => {
            law_only_listed_profile_written(profile, replies);
        },
        Command::Backlight(BacklightCommand::SetTo { brightness }) => {
            law_brightness_within_limit(brightness, replies);
        },
        _ => {
            if is_query(command) {
                law_queries_change_nothing(command, replies);
            } else {
                law_driver_writes_are_planned(steps, replies);
                if let Action::WriteFile(path, contents) = action {
                    law_file_writes_are_planned(steps, replies, path, contents);
                    if !steps.contains(Step::WriteFile(path, contents)) {
                        let (k, i) = choose|k: int, i: int|
                            0 <= k < steps.len() && 0 <= i < replies.len() && replies[i] is Text
                                && #[trigger] writes_for(
                                steps[k],
                                replies[i]->Text_0,
                                path,
                                contents,
                            );
                        assert(!(steps[k] is LimitBrightness || steps[k] is ChooseCharging
                            || steps[k] is SetCharging));
                    }
                }
            }
        },
    }
}

/// At most one step of the row changes something, and it does so itself.
pub open spec fn changes_once(steps: Seq<StepModel>) -> bool {
    &&& forall|i: int, j: int|
        #![trigger steps[i], steps[j]]
        0 <= i < j < steps.len() ==> only_reads(steps[i]) || only_reads(steps[j])
    &&& forall|i: int|
        0 <= i < steps.len() ==> only_reads(#[trigger] steps[i]) || is_change(action_of(steps[i]))
}

proof fn lemma_stays_changing_once(steps: Seq<StepModel>, replies: Seq<ReplyModel>)
    requires
        changes_once(steps),
    ensures
        changes_once(played(steps, replies)),
    decreases replies.len(),
{
    if replies.len() > 0 {
        let next = resumed(steps, replies[0]);
        if steps.len() > 0 && !(steps[0] is Refuse) {
            if let Ok(more) = after(steps[0], replies[0]) {
                assert(only_reads(steps[0]) || is_change(action_of(steps[0])));
                assert forall|k: int| 0 <= k < more.len() implies only_reads(
                    #[trigger] more[k],
                ) by {}
                assert forall|k: int| more.len() <= k < next.len() implies #[trigger] next[k]
                    == steps[k - more.len() + 1] by {}
                assert forall|i: int, j: int|
                    #![trigger next[i], next[j]]
                    0 <= i < j < next.len() implies only_reads(next[i]) || only_reads(next[j]) by {
                    if i < more.len() {
                        assert(next[i] == more[i]);
                    } else {
                        assert(next[i] == steps[i - more.len() + 1]);
                        assert(next[j] == steps[j - more.len() + 1]);
                    }
                }
                assert forall|i: int| 0 <= i < next.len() implies only_reads(#[trigger] next[i])
                    || is_change(action_of(next[i])) by {
                    if i < more.len() {
                        assert(next[i] == more[i]);
                    } else {
                        assert(next[i] == steps[i - more.len() + 1]);
                    }
                }
            }
        }
        assert(changes_once(next));
        lemma_stays_changing_once(next, replies.drop_first());
    }
}

/// Once a command has asked for its change and been replied to, it asks for no change any more,
/// whatever the replies are.
pub proof fn law_change_is_asked_for_once(
    command: Command<Seq<char>>,
    replies: Seq<ReplyModel>,
    j: int,
)
    requires
        0 <= j < replies.len(),
        is_change(next_action(played(command_steps(command), replies.take(j)))),
    ensures
        !is_change(next_action(played(command_steps(command), replies))),
{
    let steps = command_steps(command);
    let now = played(steps, replies.take(j));
    if is_query(command) {
        law_queries_change_nothing(command, replies);
    } else if let Command::Charging(ChargingCommand::SetTo { profile }) = command {
        law_only_listed_profile_written(profile, replies.take(j));
        if is_change(next_action(played(steps, replies))) {
            law_only_listed_profile_written(profile, replies);
        }
    } else if let Command::Backlight(BacklightCommand::SetTo { brightness }) = command {
        law_brightness_within_limit(brightness, replies.take(j));
        if is_change(next_action(played(steps, replies))) {
            law_brightness_within_limit(brightness, replies);
        }
    } else {
        assert(changes_once(steps));
        lemma_stays_changing_once(steps, replies.take(j));
        lemma_played_split(steps, replies, j);
        lemma_played_once(now, replies.skip(j));
        let next = resumed(now, replies[j]);
        let rest = replies.skip(j).drop_first();
        assert(!only_reads(now[0]));
        if after(now[0], replies[j]) is Ok {
            assert forall|k: int| 0 <= k < next.len() implies only_reads(#[trigger] next[k]) by {
                assert(next[k] == now[k + 1]);
                assert(now[0] is WriteInt || now[0] is Signal || now[0] is WriteFile);
            }
            law_reading_changes_nothing(next, rest);
        } else {
            law_rest_is_final(next, rest);
        }
    }
}

} // verus!
