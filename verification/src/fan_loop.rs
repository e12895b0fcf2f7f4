//! The loop by which the daemon runs the fans.
//!
//! The loop is a row of phases. Each one names an action for the caller to perform, and the
//! caller's reply decides on the next phase. From the moment that fan control is announced,
//! every way out of the loop hands the fans back to the firmware first.

use vstd::prelude::*;

use crate::config::{configured_curve, selected_curve, FanConfig};
use crate::fan::{
    held_target, law_limit_respects_minimum, law_raw_in_range, law_target_is_percentage,
    lemma_scale, next_target, percent_clamped, percent_to_raw, preset_curve, preset_name,
    raw_of_percent, speed_on_curve, FanPoint, FanPreset, NB02_FAN_SPEED_MAX,
};
use crate::ioctl::Request;
use crate::number::{
    decimal, decimal_text, duration_as_text, duration_text, signed_decimal, signed_decimal_text,
};
use crate::step::{
    counted_fans, failure_of, fan_count, no_such_fan, Action, ActionModel, Failure, FailureModel,
    Reply, ReplyModel,
};
use crate::sysfs::{bool_word, switch_word};

verus! {

/// The shortest time between two looks at the temperature, in milliseconds.
pub const MIN_INTERVAL_MS: u64 = 500;

/// What the hardware can do.
#[derive(Copy, Clone, Debug, PartialEq, Eq, Structural)]
pub struct Limits {
    /// The number of fans.
    pub fans: u8,
    /// Whether the fans can be switched off.
    pub fans_off_available: bool,
    /// The lowest speed, in percent, at which the fans turn.
    pub min_speed: u8,
}

/// Where the loop stands. `S` stands for text.
#[derive(Debug, PartialEq, Eq)]
pub enum Phase<S> {
    /// Find out whether the first fan is there.
    CountFirst,
    /// Find out whether the second fan is there.
    CountSecond { first: bool },
    /// Find out whether the fans can be switched off.
    FansOff { fans: u8 },
    /// Find out the lowest speed.
    MinSpeed { fans: u8, fans_off_available: bool },
    /// Announce that fan control begins.
    Announce { limits: Limits },
    /// Find out whether the loop is to end.
    Watch { limits: Limits, previous: Option<u8> },
    /// Read the temperature.
    Measure { limits: Limits, previous: Option<u8> },
    /// Set the speed of one fan.
    SetFan { limits: Limits, fan: u8, temp: i32, target: u8 },
    /// Report the speed that was set.
    Report { limits: Limits, temp: i32, target: u8 },
    /// Wait for the next round.
    Rest { limits: Limits, target: u8 },
    /// Hand the fans back to the firmware.
    HandBack { failure: Option<Failure<S>> },
    /// Report on that; `reason` says why it failed, if it did.
    HandBackReport { failure: Option<Failure<S>>, reason: Option<S> },
    /// The loop is over.
    Over { failure: Option<Failure<S>> },
}

/// A phase in the model.
pub type PhaseModel = Phase<Seq<char>>;

/// A failure in the model, where there is one.
pub open spec fn failure_model(failure: Option<Failure<String>>) -> Option<FailureModel> {
    match failure {
        Some(failure) => Some(failure@),
        None => None,
    }
}

impl View for Phase<String> {
    type V = PhaseModel;

    open spec fn view(&self) -> PhaseModel {
        match *self {
            Phase::CountFirst => Phase::CountFirst,
            Phase::CountSecond { first } => Phase::CountSecond { first },
            Phase::FansOff { fans } => Phase::FansOff { fans },
            Phase::MinSpeed { fans, fans_off_available } => Phase::MinSpeed {
                fans,
                fans_off_available,
            },
            Phase::Announce { limits } => Phase::Announce { limits },
            Phase::Watch { limits, previous } => Phase::Watch { limits, previous },
            Phase::Measure { limits, previous } => Phase::Measure { limits, previous },
            Phase::SetFan { limits, fan, temp, target } => Phase::SetFan {
                limits,
                fan,
                temp,
                target,
            },
            Phase::Report { limits, temp, target } => Phase::Report { limits, temp, target },
            Phase::Rest { limits, target } => Phase::Rest { limits, target },
            Phase::HandBack { failure } => Phase::HandBack { failure: failure_model(failure) },
            Phase::HandBackReport { failure, reason } => Phase::HandBackReport {
                failure: failure_model(failure),
                reason: match reason {
                    Some(reason) => Some(reason@),
                    None => None,
                },
            },
            Phase::Over { failure } => Phase::Over { failure: failure_model(failure) },
        }
    }
}

/// The loop in the model: its settings and where it stands.
pub struct FanLoopModel {
    pub preset: FanPreset,
    pub curve: Seq<FanPoint>,
    pub hysteresis_c: i32,
    pub interval_ms: u64,
    pub verbose: bool,
    pub phase: PhaseModel,
}

/// The request that sets the speed of a fan, counted from 0.
pub open spec fn fan_set_request(fan: u8) -> Option<Request> {
    if fan == 0 {
        Some(Request::SetUwFanspeed)
    } else if fan == 1 {
        Some(Request::SetUwFanspeed2)
    } else {
        None
    }
}

/// The percentage cut to 100.
pub open spec fn at_most_full(percent: u8) -> u8 {
    if percent < 100 {
        percent
    } else {
        100
    }
}

/// The request and the value that set a fan, counted from 0, to a percentage.
pub fn set_fan_percent(fan: u8, percent: u8) -> (write: Result<(Request, i32), Failure<String>>)
    ensures
        match write {
            Ok((request, value)) => {
                &&& fan_set_request(fan) == Some(request)
                &&& value == raw_of_percent(at_most_full(percent) as int)
            },
            Err(failure) => fan_set_request(fan) is None && failure@ == no_such_fan(),
        },
{
    let raw: i32 = percent_to_raw(
        if percent < 100 {
            percent
        } else {
            100
        },
    );
    match fan {
        0 => Ok((Request::SetUwFanspeed, raw)),
        1 => Ok((Request::SetUwFanspeed2, raw)),
        _ => Err(Failure::Message("fan index out of range".to_owned())),
    }
}

/// The message that fan control begins.
pub open spec fn start_line(model: FanLoopModel, limits: Limits) -> Seq<char> {
    "fan control started: fans="@ + decimal(limits.fans as nat) + ", preset="@ + preset_name(
        model.preset,
    ) + ", interval="@ + duration_text(model.interval_ms as nat) + ", hysteresis="@
        + signed_decimal(model.hysteresis_c as int) + "C, min_speed="@ + decimal(
        limits.min_speed as nat,
    ) + "%, fans_off_available="@ + switch_word(limits.fans_off_available)
}

/// The message that a speed was set.
pub open spec fn target_line(temp: i32, target: u8) -> Seq<char> {
    "fans: temp="@ + signed_decimal(temp as int) + "C set "@ + decimal(target as nat) + "%"@
}

/// The message about the hand-back.
pub open spec fn hand_back_line(reason: Option<Seq<char>>) -> Seq<char> {
    match reason {
        Some(reason) => "failed to restore firmware fan auto mode: "@ + reason,
        None => "restored firmware fan auto mode"@,
    }
}

/// The message about the hand-back; `reason` says why it failed, if it did.
pub fn hand_back_text(reason: Option<&str>) -> (line: String)
    ensures
        line@ == hand_back_line(
            match reason {
                Some(reason) => Some(reason@),
                None => None,
            },
        ),
{
    match reason {
        Some(reason) => {
            let mut line = "failed to restore firmware fan auto mode: ".to_owned();
            line.append(reason);
            line
        },
        None => "restored firmware fan auto mode".to_owned(),
    }
}

/// The action that the loop asks for.
pub open spec fn loop_action(model: FanLoopModel) -> ActionModel {
    match model.phase {
        Phase::CountFirst => Action::ReadInt(Request::UwFanspeed),
        Phase::CountSecond { first } => Action::ReadInt(Request::UwFanspeed2),
        Phase::FansOff { fans } => Action::ReadInt(Request::UwFansOffAvailable),
        Phase::MinSpeed { fans, fans_off_available } => Action::ReadInt(Request::UwFansMinSpeed),
        Phase::Announce { limits } => Action::Log(start_line(model, limits)),
        Phase::Watch { limits, previous } => Action::Poll,
        Phase::Measure { limits, previous } => Action::ReadInt(Request::UwFanTemp),
        Phase::SetFan { limits, fan, temp, target } => match fan_set_request(fan) {
            Some(request) => Action::WriteInt(
                request,
                raw_of_percent(at_most_full(target) as int) as i32,
            ),
            None => Action::Fail(no_such_fan()),
        },
        Phase::Report { limits, temp, target } => Action::Log(target_line(temp, target)),
        Phase::Rest { limits, target } => Action::Sleep(model.interval_ms),
        Phase::HandBack { failure } => Action::Signal(Request::SetUwFanauto),
        Phase::HandBackReport { failure, reason } => Action::Log(hand_back_line(reason)),
        Phase::Over { failure } => match failure {
            Some(failure) => Action::Fail(failure),
            None => Action::Finish,
        },
    }
}

/// The phase after the reply to the action that the loop asked for.
pub open spec fn next_phase(model: FanLoopModel, reply: ReplyModel) -> PhaseModel {
    match model.phase {
        Phase::CountFirst => Phase::CountSecond { first: reply is Int },
        Phase::CountSecond { first } => {
            let fans = counted_fans(first, reply is Int);
            if fans == 0 {
                Phase::Over { failure: Some(Failure::Message("no controllable fans detected"@)) }
            } else {
                Phase::FansOff { fans }
            }
        },
        Phase::FansOff { fans } => match reply {
            Reply::Int(value) => Phase::MinSpeed { fans, fans_off_available: value == 1 },
            _ => Phase::Over { failure: Some(failure_of(reply)) },
        },
        Phase::MinSpeed { fans, fans_off_available } => match reply {
            Reply::Int(value) => Phase::Announce {
                limits: Limits {
                    fans,
                    fans_off_available,
                    min_speed: percent_clamped(value as int) as u8,
                },
            },
            _ => Phase::Over { failure: Some(failure_of(reply)) },
        },
        Phase::Announce { limits } => Phase::Watch { limits, previous: None },
        Phase::Watch { limits, previous } => match reply {
            Reply::Flag(false) => Phase::Measure { limits, previous },
            Reply::Flag(true) => Phase::HandBack { failure: None },
            _ => Phase::HandBack { failure: Some(failure_of(reply)) },
        },
        Phase::Measure { limits, previous } => match reply {
            Reply::Int(temp) => Phase::SetFan {
                limits,
                fan: (limits.fans - 1) as u8,
                temp,
                target: held_target(
                    previous,
                    temp,
                    model.hysteresis_c,
                    limits.min_speed,
                    limits.fans_off_available,
                    model.curve,
                ),
            },
            _ => Phase::HandBack { failure: Some(failure_of(reply)) },
        },
        Phase::SetFan { limits, fan, temp, target } => if !(reply is Done) {
            Phase::HandBack { failure: Some(failure_of(reply)) }
        } else if fan > 0 {
            Phase::SetFan { limits, fan: (fan - 1) as u8, temp, target }
        } else if model.verbose {
            Phase::Report { limits, temp, target }
        } else {
            Phase::Rest { limits, target }
        },
        Phase::Report { limits, temp, target } => Phase::Rest { limits, target },
        Phase::Rest { limits, target } => Phase::Watch { limits, previous: Some(target) },
        Phase::HandBack { failure } => Phase::HandBackReport {
            failure,
            reason: match reply {
                Reply::Done => None,
                Reply::Failed(reason) => Some(reason),
                _ => Some(""@),
            },
        },
        Phase::HandBackReport { failure, reason } => Phase::Over { failure },
        Phase::Over { failure } => Phase::Over { failure },
    }
}

/// The loop after the reply to the action that it asked for.
pub open spec fn loop_resumed(model: FanLoopModel, reply: ReplyModel) -> FanLoopModel {
    FanLoopModel { phase: next_phase(model, reply), ..model }
}

/// A speed that the hardware can run at.
pub open spec fn fits(speed: u8, limits: Limits) -> bool {
    &&& speed <= 100
    &&& limits.fans_off_available ==> speed == 0 || speed >= limits.min_speed
}

/// What the loop knows of the hardware makes sense.
pub open spec fn limits_wf(limits: Limits) -> bool {
    1 <= limits.fans <= 2 && limits.min_speed <= 100
}

/// What holds of the loop in each phase.
pub open spec fn loop_wf(model: FanLoopModel) -> bool {
    match model.phase {
        Phase::FansOff { fans } => 1 <= fans <= 2,
        Phase::MinSpeed { fans, fans_off_available } => 1 <= fans <= 2,
        Phase::Announce { limits } => limits_wf(limits),
        Phase::Watch { limits, previous } => limits_wf(limits) && (previous matches Some(speed)
            ==> fits(speed, limits)),
        Phase::Measure { limits, previous } => limits_wf(limits) && (previous matches Some(speed)
            ==> fits(speed, limits)),
        Phase::SetFan { limits, fan, temp, target } => limits_wf(limits) && fan < limits.fans
            && fits(target, limits),
        Phase::Report { limits, temp, target } => limits_wf(limits) && fits(target, limits),
        Phase::Rest { limits, target } => limits_wf(limits) && fits(target, limits),
        _ => true,
    }
}

/// Whatever the reply is, what holds of the loop goes on to hold.
pub proof fn law_loop_stays_wf(model: FanLoopModel, reply: ReplyModel)
    requires
        loop_wf(model),
    ensures
        loop_wf(loop_resumed(model, reply)),
{
    if let Phase::Measure { limits, previous } = model.phase {
        if let Reply::Int(temp) = reply {
            law_target_is_percentage(
                temp as int,
                limits.min_speed,
                limits.fans_off_available,
                model.curve,
            );
            law_limit_respects_minimum(
                speed_on_curve(model.curve, temp as int),
                limits.min_speed,
            );
        }
    }
}

/// The loop by which the daemon runs the fans.
pub struct FanLoop {
    preset: FanPreset,
    curve: Vec<FanPoint>,
    hysteresis_c: i32,
    interval_ms: u64,
    verbose: bool,
    phase: Phase<String>,
}

impl View for FanLoop {
    type V = FanLoopModel;

    closed spec fn view(&self) -> FanLoopModel {
        FanLoopModel {
            preset: self.preset,
            curve: self.curve@,
            hysteresis_c: self.hysteresis_c,
            interval_ms: self.interval_ms,
            verbose: self.verbose,
            phase: self.phase@,
        }
    }
}

/// The loop that follows the settings, at its beginning.
pub open spec fn fresh_loop(config: FanConfig, verbose: bool) -> FanLoopModel {
    FanLoopModel {
        preset: config.preset,
        curve: configured_curve(config),
        hysteresis_c: config.hysteresis_c,
        interval_ms: if config.interval_ms > MIN_INTERVAL_MS {
            config.interval_ms
        } else {
            MIN_INTERVAL_MS
        },
        verbose,
        phase: Phase::CountFirst,
    }
}

impl FanLoop {
    #[verifier::type_invariant]
    spec fn wf(self) -> bool {
        loop_wf(self@)
    }

    /// The loop that follows the settings.
    pub fn new(config: &FanConfig, verbose: bool) -> (fan_loop: Self)
        ensures
            fan_loop@ == fresh_loop(*config, verbose),
    {
        FanLoop {
            preset: config.preset,
            curve: selected_curve(config),
            hysteresis_c: config.hysteresis_c,
            interval_ms: if config.interval_ms > MIN_INTERVAL_MS {
                config.interval_ms
            } else {
                MIN_INTERVAL_MS
            },
            verbose,
            phase: Phase::CountFirst,
        }
    }

    /// Whether the loop, and no longer the firmware, runs the fans. Whoever gives the loop up
    /// then has to hand them back.
    pub fn runs_fans(&self) -> (runs: bool)
        ensures
            runs == in_control(self@.phase),
    {
        match &self.phase {
            Phase::Announce { limits: _ } => true,
            Phase::Watch { limits: _, previous: _ } => true,
            Phase::Measure { limits: _, previous: _ } => true,
            Phase::SetFan { limits: _, fan: _, temp: _, target: _ } => true,
            Phase::Report { limits: _, temp: _, target: _ } => true,
            Phase::Rest { limits: _, target: _ } => true,
            _ => false,
        }
    }

    fn start_text(&self, limits: Limits) -> (line: String)
        ensures
            line@ == start_line(self@, limits),
    {
        let mut line = "fan control started: fans=".to_owned();
        line.append(decimal_text(limits.fans as u64).as_str());
        line.append(", preset=");
        line.append(self.preset.name());
        line.append(", interval=");
        line.append(duration_as_text(self.interval_ms).as_str());
        line.append(", hysteresis=");
        line.append(signed_decimal_text(self.hysteresis_c).as_str());
        line.append("C, min_speed=");
        line.append(decimal_text(limits.min_speed as u64).as_str());
        line.append("%, fans_off_available=");
        line.append(bool_word(limits.fans_off_available));
        line
    }

    /// The action that the loop asks for.
    pub fn action(&self) -> (action: Action<String>)
        ensures
            action@ == loop_action(self@),
    {
        match &self.phase {
            Phase::CountFirst => Action::ReadInt(Request::UwFanspeed),
            Phase::CountSecond { first: _ } => Action::ReadInt(Request::UwFanspeed2),
            Phase::FansOff { fans: _ } => Action::ReadInt(Request::UwFansOffAvailable),
            Phase::MinSpeed { fans: _, fans_off_available: _ } => Action::ReadInt(
                Request::UwFansMinSpeed,
            ),
            Phase::Announce { limits } => Action::Log(self.start_text(*limits)),
            Phase::Watch { limits: _, previous: _ } => Action::Poll,
            Phase::Measure { limits: _, previous: _ } => Action::ReadInt(Request::UwFanTemp),
            Phase::SetFan { limits: _, fan, temp: _, target } => match set_fan_percent(
                *fan,
                *target,
            ) {
                Ok((request, value)) => Action::WriteInt(request, value),
                Err(failure) => Action::Fail(failure),
            },
            Phase::Report { limits: _, temp, target } => {
                let mut line = "fans: temp=".to_owned();
                line.append(signed_decimal_text(*temp).as_str());
                line.append("C set ");
                line.append(decimal_text(*target as u64).as_str());
                line.append("%");
                Action::Log(line)
            },
            Phase::Rest { limits: _, target: _ } => Action::Sleep(self.interval_ms),
            Phase::HandBack { failure: _ } => Action::Signal(Request::SetUwFanauto),
            Phase::HandBackReport { failure: _, reason } => match reason {
                Some(reason) => Action::Log(hand_back_text(Some(reason.as_str()))),
                None => Action::Log(hand_back_text(None)),
            },
            Phase::Over { failure } => match failure {
                Some(failure) => Action::Fail(failure.copied()),
                None => Action::Finish,
            },
        }
    }

    fn following(&self, reply: Reply<String, Vec<u8>>) -> (phase: Phase<String>)
        ensures
            phase@ == next_phase(self@, reply@),
    {
        proof {
            use_type_invariant(self);
        }
        match &self.phase {
            Phase::CountFirst => Phase::CountSecond { first: matches!(reply, Reply::Int(_)) },
            Phase::CountSecond { first } => {
                let fans: u8 = fan_count(*first, matches!(reply, Reply::Int(_)));
                if fans == 0 {
                    let message = "no controllable fans detected".to_owned();
                    Phase::Over { failure: Some(Failure::Message(message)) }
                } else {
                    Phase::FansOff { fans }
                }
            },
            Phase::FansOff { fans } => match reply {
                Reply::Int(value) => Phase::MinSpeed {
                    fans: *fans,
                    fans_off_available: value == 1,
                },
                other => Phase::Over { failure: Some(Failure::from_reply(other)) },
            },
            Phase::MinSpeed { fans, fans_off_available } => match reply {
                Reply::Int(value) => {
                    let min_speed: u8 = if value < 0 {
                        0
                    } else if value > 100 {
                        100
                    } else {
                        value as u8
                    };
                    Phase::Announce {
                        limits: Limits {
                            fans: *fans,
                            fans_off_available: *fans_off_available,
                            min_speed,
                        },
                    }
                },
                other => Phase::Over { failure: Some(Failure::from_reply(other)) },
            },
            Phase::Announce { limits } => Phase::Watch { limits: *limits, previous: None },
            Phase::Watch { limits, previous } => match reply {
                Reply::Flag(stop) => if stop {
                    Phase::HandBack { failure: None }
                } else {
                    Phase::Measure { limits: *limits, previous: *previous }
                },
                other => Phase::HandBack { failure: Some(Failure::from_reply(other)) },
            },
            Phase::Measure { limits, previous } => match reply {
                Reply::Int(temp) => {
                    let target: u8 = next_target(
                        *previous,
                        temp,
                        self.hysteresis_c,
                        limits.min_speed,
                        limits.fans_off_available,
                        self.curve.as_slice(),
                    );
                    Phase::SetFan { limits: *limits, fan: limits.fans - 1, temp, target }
                },
                other => Phase::HandBack { failure: Some(Failure::from_reply(other)) },
            },
            Phase::SetFan { limits, fan, temp, target } => match reply {
                Reply::Done => if *fan > 0 {
                    Phase::SetFan {
                        limits: *limits,
                        fan: *fan - 1,
                        temp: *temp,
                        target: *target,
                    }
                } else if self.verbose {
                    Phase::Report { limits: *limits, temp: *temp, target: *target }
                } else {
                    Phase::Rest { limits: *limits, target: *target }
                },
                other => Phase::HandBack { failure: Some(Failure::from_reply(other)) },
            },
            Phase::Report { limits, temp: _, target } => Phase::Rest {
                limits: *limits,
                target: *target,
            },
            Phase::Rest { limits, target } => Phase::Watch {
                limits: *limits,
                previous: Some(*target),
            },
            Phase::HandBack { failure } => Phase::HandBackReport {
                failure: copied(failure),
                reason: match reply {
                    Reply::Done => None,
                    Reply::Failed(reason) => Some(reason),
                    _ => Some("".to_owned()),
                },
            },
            Phase::HandBackReport { failure, reason: _ } => Phase::Over {
                failure: copied(failure),
            },
            Phase::Over { failure } => Phase::Over { failure: copied(failure) },
        }
    }

    /// Goes on with the reply to the action that the loop asked for.
    pub fn resume(&mut self, reply: Reply<String, Vec<u8>>)
        ensures
            final(self)@ == loop_resumed(old(self)@, reply@),
    {
        proof {
            use_type_invariant(&*self);
            law_loop_stays_wf(self@, reply@);
        }
        let phase = self.following(reply);
        self.phase = phase;
    }
}

fn copied(failure: &Option<Failure<String>>) -> (copy: Option<Failure<String>>)
    ensures
        failure_model(copy) == failure_model(*failure),
{
    match failure {
        Some(failure) => Some(failure.copied()),
        None => None,
    }
}

/// The loop after a row of replies.
pub open spec fn loop_played(model: FanLoopModel, replies: Seq<ReplyModel>) -> FanLoopModel
    decreases replies.len(),
{
    if replies.len() == 0 {
        model
    } else {
        loop_resumed(loop_played(model, replies.drop_last()), replies.last())
    }
}

/// The loop, and no longer the firmware, runs the fans.
pub open spec fn in_control(phase: PhaseModel) -> bool {
    phase is Announce || phase is Watch || phase is Measure || phase is SetFan || phase is Report
        || phase is Rest
}

/// How far the loop has come: 0 before it runs the fans, 1 while it does, more afterwards.
pub open spec fn stage(phase: PhaseModel) -> nat {
    match phase {
        Phase::HandBack { failure } => 2,
        Phase::HandBackReport { failure, reason } => 3,
        Phase::Over { failure } => 4,
        _ => if in_control(phase) {
            1
        } else {
            0
        },
    }
}

proof fn lemma_prefix(replies: Seq<ReplyModel>, k: int)
    requires
        0 <= k < replies.len(),
    ensures
        replies.take(k) == replies.drop_last().take(k),
        replies.take(k + 1).drop_last() == replies.take(k),
        replies.take(k + 1).last() == replies[k],
        replies.take(replies.len() as int) == replies,
        replies.drop_last().take(replies.len() - 1) == replies.drop_last(),
{
    assert(replies.take(k) =~= replies.drop_last().take(k));
    assert(replies.take(k + 1).drop_last() =~= replies.take(k));
    assert(replies.take(replies.len() as int) =~= replies);
    assert(replies.drop_last().take(replies.len() - 1) =~= replies.drop_last());
}

/// The loop never goes back: it does not give up the fans and take them again.
pub proof fn law_stages_in_order(model: FanLoopModel, replies: Seq<ReplyModel>, k: int)
    requires
        0 <= k <= replies.len(),
    ensures
        stage(loop_played(model, replies.take(k)).phase) <= stage(
            loop_played(model, replies).phase,
        ),
    decreases replies.len(),
{
    if k < replies.len() {
        lemma_prefix(replies, k);
        law_stages_in_order(model, replies.drop_last(), k);
    } else {
        assert(replies.take(k) == replies);
    }
}

/// Once the loop has taken the fans over, it cannot end, for whatever reason, without having
/// asked the driver to hand them back to the firmware.
pub proof fn law_fans_handed_back(model: FanLoopModel, replies: Seq<ReplyModel>, k: int)
    requires
        0 <= k <= replies.len(),
        in_control(loop_played(model, replies.take(k)).phase),
        loop_played(model, replies).phase is Over,
    ensures
        exists|j: int|
            k < j < replies.len() && #[trigger] loop_action(loop_played(model, replies.take(j)))
                == Action::<Seq<char>>::Signal(Request::SetUwFanauto),
    decreases replies.len(),
{
    if k == replies.len() {
        assert(replies.take(k) == replies);
    } else {
        let shorter = replies.drop_last();
        let last = shorter.len() as int;
        lemma_prefix(replies, k);
        law_stages_in_order(model, shorter, k);
        let before = loop_played(model, shorter);
        if before.phase is Over {
            law_fans_handed_back(model, shorter, k);
            let j = choose|j: int|
                k < j < shorter.len() && #[trigger] loop_action(
                    loop_played(model, shorter.take(j)),
                ) == Action::<Seq<char>>::Signal(Request::SetUwFanauto);
            lemma_prefix(replies, j);
            assert(loop_action(loop_played(model, replies.take(j))) == Action::<Seq<char>>::Signal(
                Request::SetUwFanauto,
            ));
        } else {
            assert(before.phase is HandBackReport);
            assert(k != last);
            let earlier = shorter.drop_last();
            lemma_prefix(shorter, earlier.len() as int);
            lemma_prefix(replies, earlier.len() as int);
            assert(loop_played(model, earlier).phase is HandBack);
            assert(replies.take(earlier.len() as int) == earlier);
            assert(loop_action(loop_played(model, replies.take(earlier.len() as int)))
                == Action::<Seq<char>>::Signal(Request::SetUwFanauto));
            assert(k != earlier.len());
        }
    }
}

/// The loop runs the fans only once it has announced that; no fan is set before.
pub proof fn law_control_is_announced(
    config: FanConfig,
    verbose: bool,
    replies: Seq<ReplyModel>,
)
    requires
        in_control(loop_played(fresh_loop(config, verbose), replies).phase),
    ensures
        exists|k: int|
            0 <= k <= replies.len() && (#[trigger] loop_played(
                fresh_loop(config, verbose),
                replies.take(k),
            )).phase is Announce,
    decreases replies.len(),
{
    let model = fresh_loop(config, verbose);
    if replies.len() > 0 {
        let shorter = replies.drop_last();
        let now = loop_played(model, replies);
        if now.phase is Announce {
            assert(replies.take(replies.len() as int) == replies);
            assert(loop_played(model, replies.take(replies.len() as int)).phase is Announce);
        } else {
            law_control_is_announced(config, verbose, shorter);
            let k = choose|k: int|
                0 <= k <= shorter.len() && (#[trigger] loop_played(model, shorter.take(k))).phase
                    is Announce;
            assert(replies.take(k) == shorter.take(k));
            assert(loop_played(model, replies.take(k)).phase is Announce);
        }
    }
}

/// Once the loop has asked the driver to hand the fans back and been replied to, it makes no
/// request of the driver any more: it writes to the log and ends.
pub proof fn law_hand_back_is_last_request(
    model: FanLoopModel,
    replies: Seq<ReplyModel>,
    k: int,
)
    requires
        0 <= k < replies.len(),
        loop_action(loop_played(model, replies.take(k))) == Action::<Seq<char>>::Signal(
            Request::SetUwFanauto,
        ),
    ensures
        ({
            let action = loop_action(loop_played(model, replies));
            action is Log || action is Finish || action is Fail
        }),
{
    lemma_prefix(replies, k);
    law_stages_in_order(model, replies, k + 1);
}

/// Once the loop has asked the driver to hand the fans back, it sets no fan any more.
pub proof fn law_no_write_after_hand_back(
    model: FanLoopModel,
    replies: Seq<ReplyModel>,
    k: int,
)
    requires
        0 <= k <= replies.len(),
        loop_action(loop_played(model, replies.take(k))) == Action::<Seq<char>>::Signal(
            Request::SetUwFanauto,
        ),
    ensures
        !(loop_action(loop_played(model, replies)) is WriteInt),
{
    law_stages_in_order(model, replies, k);
}

/// When the daemon is asked to stop, the loop hands the fans back and ends with success.
pub proof fn law_stop_hands_back(model: FanLoopModel, second: ReplyModel, third: ReplyModel)
    requires
        model.phase is Watch,
    ensures
        ({
            let asked = loop_resumed(model, Reply::Flag(true));
            let told = loop_resumed(asked, second);
            let over = loop_resumed(told, third);
            &&& loop_action(asked) == Action::<Seq<char>>::Signal(Request::SetUwFanauto)
            &&& loop_action(told) is Log
            &&& second is Done ==> loop_action(told) == Action::Log(
                "restored firmware fan auto mode"@,
            )
            &&& second matches Reply::Failed(reason) ==> loop_action(told) == Action::Log(
                "failed to restore firmware fan auto mode: "@ + reason,
            )
            &&& loop_action(over) == Action::<Seq<char>>::Finish
        }),
{
}

/// When the temperature cannot be read or a fan cannot be set, the loop hands the fans back
/// and ends with the reason for that, whether or not the fans can be handed back.
pub proof fn law_failure_hands_back(
    model: FanLoopModel,
    reason: Seq<char>,
    second: ReplyModel,
    third: ReplyModel,
)
    requires
        model.phase is Measure || model.phase is SetFan,
    ensures
        ({
            let asked = loop_resumed(model, Reply::Failed(reason));
            let told = loop_resumed(asked, second);
            let over = loop_resumed(told, third);
            &&& loop_action(asked) == Action::<Seq<char>>::Signal(Request::SetUwFanauto)
            &&& loop_action(told) is Log
            &&& second is Done ==> loop_action(told) == Action::Log(
                "restored firmware fan auto mode"@,
            )
            &&& second matches Reply::Failed(why) ==> loop_action(told) == Action::Log(
                "failed to restore firmware fan auto mode: "@ + why,
            )
            &&& loop_action(over) == Action::Fail(Failure::Io(reason))
        }),
{
}

/// The first failure while the loop runs the fans decides how it ends: the fans are handed
/// back next, and the loop ends with the reason for that failure, whatever the replies after it
/// are.
pub proof fn law_first_failure_decides(
    model: FanLoopModel,
    replies: Seq<ReplyModel>,
    k: int,
    reason: Seq<char>,
)
    requires
        0 <= k,
        k + 3 <= replies.len(),
        ({
            let phase = loop_played(model, replies.take(k)).phase;
            phase is Measure || phase is SetFan
        }),
        replies[k] == Reply::<Seq<char>, Seq<u8>>::Failed(reason),
    ensures
        loop_action(loop_played(model, replies.take(k + 1))) == Action::<Seq<char>>::Signal(
            Request::SetUwFanauto,
        ),
        loop_action(loop_played(model, replies)) == Action::Fail(Failure::Io(reason)),
{
    let failure = Some(Failure::Io(reason));
    lemma_prefix(replies, k);
    lemma_prefix(replies, k + 1);
    lemma_prefix(replies, k + 2);
    let asked = loop_played(model, replies.take(k + 1));
    assert(asked.phase == (Phase::HandBack { failure }));
    let told = loop_played(model, replies.take(k + 2));
    assert(told.phase is HandBackReport && told.phase->HandBackReport_failure == failure);
    let over = loop_played(model, replies.take(k + 3));
    assert(over.phase == (Phase::Over { failure }));
    law_end_is_final(model, replies, k + 3);
}

/// A loop that is over stays as it is.
pub proof fn law_end_is_final(model: FanLoopModel, replies: Seq<ReplyModel>, k: int)
    requires
        0 <= k <= replies.len(),
        loop_played(model, replies.take(k)).phase is Over,
    ensures
        loop_played(model, replies) == loop_played(model, replies.take(k)),
    decreases replies.len(),
{
    if k < replies.len() {
        lemma_prefix(replies, k);
        law_end_is_final(model, replies.drop_last(), k);
    } else {
        assert(replies.take(k) == replies);
    }
}

/// Before the loop runs the fans there is nothing to hand back: when it cannot find out what
/// the hardware can do, it ends at once with the reason for that.
pub proof fn law_failure_before_control(model: FanLoopModel, reason: Seq<char>)
    requires
        model.phase is FansOff || model.phase is MinSpeed,
    ensures
        loop_action(loop_resumed(model, Reply::Failed(reason))) == Action::Fail(
            Failure::Io(reason),
        ),
{
}

/// What holds of the loop holds after any row of replies.
pub proof fn law_loop_always_wf(config: FanConfig, verbose: bool, replies: Seq<ReplyModel>)
    ensures
        loop_wf(loop_played(fresh_loop(config, verbose), replies)),
    decreases replies.len(),
{
    if replies.len() > 0 {
        law_loop_always_wf(config, verbose, replies.drop_last());
        law_loop_stays_wf(
            loop_played(fresh_loop(config, verbose), replies.drop_last()),
            replies.last(),
        );
    }
}

/// Whatever the settings and the replies are, what the loop writes to the driver is a speed of
/// one of the two fans, within the driver's scale, and, where the fans can stop, either 0 or
/// no less than the lowest speed.
pub proof fn law_written_speeds_fit(
    config: FanConfig,
    verbose: bool,
    replies: Seq<ReplyModel>,
    request: Request,
    value: i32,
)
    requires
        loop_action(loop_played(fresh_loop(config, verbose), replies))
            == Action::<Seq<char>>::WriteInt(request, value),
    ensures
        request == Request::SetUwFanspeed || request == Request::SetUwFanspeed2,
        0 <= value <= NB02_FAN_SPEED_MAX,
        loop_played(fresh_loop(config, verbose), replies).phase matches Phase::SetFan {
            limits,
            fan,
            temp,
            target,
        } && value == raw_of_percent(target as int) && (limits.fans_off_available ==> value == 0
            || value >= raw_of_percent(limits.min_speed as int)),
{
    law_loop_always_wf(config, verbose, replies);
    let model = loop_played(fresh_loop(config, verbose), replies);
    if let Phase::SetFan { limits, fan, temp, target } = model.phase {
        law_raw_in_range(target);
        law_raw_in_range(limits.min_speed);
        lemma_scale(target as int);
        lemma_scale(limits.min_speed as int);
    }
}

/// In every round each fan is set to the same speed, the last one first. Then the loop waits
/// for as long as is configured, and that speed is the previous one of the next round.
pub proof fn law_round_sets_every_fan(
    model: FanLoopModel,
    limits: Limits,
    previous: Option<u8>,
    temp: i32,
    told: ReplyModel,
    rested: ReplyModel,
)
    requires
        loop_wf(model),
        model.phase == (Phase::<Seq<char>>::Measure { limits, previous }),
    ensures
        ({
            let target = held_target(
                previous,
                temp,
                model.hysteresis_c,
                limits.min_speed,
                limits.fans_off_available,
                model.curve,
            );
            let value = raw_of_percent(target as int) as i32;
            let one = loop_resumed(model, Reply::Int(temp));
            let two = loop_resumed(one, Reply::Done);
            let three = loop_resumed(two, Reply::Done);
            let set = if limits.fans == 2 {
                three
            } else {
                two
            };
            let waiting = if model.verbose {
                loop_resumed(set, told)
            } else {
                set
            };
            &&& limits.fans == 1 ==> loop_action(one) == Action::<Seq<char>>::WriteInt(
                Request::SetUwFanspeed,
                value,
            )
            &&& limits.fans == 2 ==> loop_action(one) == Action::<Seq<char>>::WriteInt(
                Request::SetUwFanspeed2,
                value,
            ) && loop_action(two) == Action::<Seq<char>>::WriteInt(Request::SetUwFanspeed, value)
            &&& model.verbose ==> loop_action(set) == Action::Log(target_line(temp, target))
            &&& loop_action(waiting) == Action::<Seq<char>>::Sleep(model.interval_ms)
            &&& loop_resumed(waiting, rested).phase == (Phase::<Seq<char>>::Watch {
                limits,
                previous: Some(target),
            })
        }),
{
    law_loop_stays_wf(model, Reply::Int(temp));
}

/// The loop follows the settings that it began with, whatever the replies are.
pub proof fn law_settings_kept(model: FanLoopModel, replies: Seq<ReplyModel>)
    ensures
        ({
            let now = loop_played(model, replies);
            now == FanLoopModel { phase: now.phase, ..model }
        }),
    decreases replies.len(),
{
    if replies.len() > 0 {
        law_settings_kept(model, replies.drop_last());
    }
}

/// The loop waits for the configured time between two rounds, and never for less than the
/// shortest one.
pub proof fn law_interval_kept(
    config: FanConfig,
    verbose: bool,
    replies: Seq<ReplyModel>,
    millis: u64,
)
    requires
        loop_action(loop_played(fresh_loop(config, verbose), replies))
            == Action::<Seq<char>>::Sleep(millis),
    ensures
        millis >= MIN_INTERVAL_MS,
        config.interval_ms >= MIN_INTERVAL_MS ==> millis == config.interval_ms,
{
    law_settings_kept(fresh_loop(config, verbose), replies);
}

/// How many replies at most lie between a phase in which the loop runs the fans and the next
/// look at whether it is to end.
pub open spec fn until_watch(phase: PhaseModel) -> nat {
    match phase {
        Phase::Announce { limits } => 1,
        Phase::Measure { limits, previous } => 5,
        Phase::SetFan { limits, fan, temp, target } => (3 + fan) as nat,
        Phase::Report { limits, temp, target } => 2,
        Phase::Rest { limits, target } => 1,
        _ => 0,
    }
}

proof fn lemma_played_from_front(model: FanLoopModel, replies: Seq<ReplyModel>)
    requires
        replies.len() > 0,
    ensures
        loop_played(model, replies) == loop_played(
            loop_resumed(model, replies[0]),
            replies.drop_first(),
        ),
    decreases replies.len(),
{
    if replies.len() > 1 {
        lemma_played_from_front(model, replies.drop_last());
        assert(replies.drop_last().drop_first() == replies.drop_first().drop_last());
    } else {
        assert(replies.drop_last() == Seq::<ReplyModel>::empty());
        assert(replies.drop_first() == Seq::<ReplyModel>::empty());
        assert(loop_played(model, replies.drop_last()) == model);
    }
}

/// While the loop runs the fans, at most five replies go by before it looks again at whether
/// it is to end, unless it gives the fans back earlier.
pub proof fn law_watch_comes_round(model: FanLoopModel, replies: Seq<ReplyModel>)
    requires
        loop_wf(model),
        in_control(model.phase),
        replies.len() >= until_watch(model.phase),
    ensures
        until_watch(model.phase) <= 5,
        exists|j: int|
            0 <= j <= until_watch(model.phase) && {
                let phase = (#[trigger] loop_played(model, replies.take(j))).phase;
                phase is Watch || phase is HandBack
            },
    decreases until_watch(model.phase),
{
    if model.phase is Watch {
        assert(replies.take(0).len() == 0);
        assert(loop_played(model, replies.take(0)).phase is Watch);
    } else {
        let next = loop_resumed(model, replies[0]);
        law_loop_stays_wf(model, replies[0]);
        if next.phase is HandBack {
            lemma_played_from_front(model, replies.take(1));
            assert(replies.take(1).drop_first().len() == 0);
            assert(loop_played(model, replies.take(1)).phase is HandBack);
        } else {
            law_watch_comes_round(next, replies.drop_first());
            let j = choose|j: int|
                0 <= j <= until_watch(next.phase) && {
                    let phase = (#[trigger] loop_played(next, replies.drop_first().take(j))).phase;
                    phase is Watch || phase is HandBack
                };
            lemma_played_from_front(model, replies.take(j + 1));
            assert(replies.take(j + 1).drop_first() == replies.drop_first().take(j));
            let phase = loop_played(model, replies.take(j + 1)).phase;
            assert(phase is Watch || phase is HandBack);
        }
    }
}

/// The loop follows the settings: the curve of their own or else the preset's, the hysteresis,
/// and the interval, which is half a second at least.
pub proof fn law_loop_follows_settings(config: FanConfig, verbose: bool)
    ensures
        ({
            let model = fresh_loop(config, verbose);
            &&& model.preset == config.preset
            &&& config.curve matches Some(curve) ==> model.curve == curve@
            &&& config.curve is None ==> model.curve == preset_curve(config.preset)
            &&& model.hysteresis_c == config.hysteresis_c
            &&& config.interval_ms >= 500 ==> model.interval_ms == config.interval_ms
            &&& config.interval_ms < 500 ==> model.interval_ms == 500
            &&& model.verbose == verbose
        }),
{
}

/// How the loop begins: it looks for both fans, finds out whether they can stop and how slow
/// they can turn, and announces what it found together with the settings. Without a fan it ends
/// at once.
pub proof fn law_loop_begins(
    config: FanConfig,
    verbose: bool,
    first: ReplyModel,
    second: ReplyModel,
    off: i32,
    lowest: i32,
    told: ReplyModel,
)
    ensures
        ({
            let fans: int = (if first is Int {
                1int
            } else {
                0
            }) + (if second is Int {
                1int
            } else {
                0
            });
            let min_speed: int = if lowest < 0 {
                0
            } else if lowest > 100 {
                100
            } else {
                lowest as int
            };
            let begun = fresh_loop(config, verbose);
            let looked = loop_resumed(begun, first);
            let counted = loop_resumed(looked, second);
            let asked = loop_resumed(counted, Reply::Int(off));
            let known = loop_resumed(asked, Reply::Int(lowest));
            let running = loop_resumed(known, told);
            &&& loop_action(begun) == Action::<Seq<char>>::ReadInt(Request::UwFanspeed)
            &&& loop_action(looked) == Action::<Seq<char>>::ReadInt(Request::UwFanspeed2)
            &&& fans == 0 ==> loop_action(counted) == Action::Fail(
                Failure::Message("no controllable fans detected"@),
            )
            &&& fans > 0 ==> {
                &&& loop_action(counted) == Action::<Seq<char>>::ReadInt(
                    Request::UwFansOffAvailable,
                )
                &&& loop_action(asked) == Action::<Seq<char>>::ReadInt(Request::UwFansMinSpeed)
                &&& loop_action(known) == Action::Log(
                    "fan control started: fans="@ + decimal(fans as nat) + ", preset="@
                        + preset_name(config.preset) + ", interval="@ + duration_text(
                        if config.interval_ms < 500 {
                            500
                        } else {
                            config.interval_ms as nat
                        },
                    ) + ", hysteresis="@ + signed_decimal(config.hysteresis_c as int)
                        + "C, min_speed="@ + decimal(min_speed as nat)
                        + "%, fans_off_available="@ + if off == 1 {
                        "on"@
                    } else {
                        "off"@
                    },
                )
                &&& running.phase matches Phase::Watch { limits, previous } && limits.fans == fans
                    && limits.fans_off_available == (off == 1) && limits.min_speed == min_speed
                    && previous is None
                &&& loop_action(running) == Action::<Seq<char>>::Poll
            }
        }),
{
}

/// As long as the daemon is not to stop, the loop reads the temperature at the first fan next,
/// knowing what it knew.
pub proof fn law_round_begins(model: FanLoopModel, limits: Limits, previous: Option<u8>)
    requires
        model.phase == (Phase::<Seq<char>>::Watch { limits, previous }),
    ensures
        ({
            let measuring = loop_resumed(model, Reply::Flag(false));
            &&& loop_action(model) == Action::<Seq<char>>::Poll
            &&& loop_action(measuring) == Action::<Seq<char>>::ReadInt(Request::UwFanTemp)
            &&& measuring.phase == (Phase::<Seq<char>>::Measure { limits, previous })
        }),
{
}

/// A round from the temperature to the speed: the first fan to be set gets, on the driver's
/// scale of two to the percent, the speed that the curve, the hardware and the hysteresis call
/// for, and with more than one fan all get the same.
pub proof fn law_round_writes_target(
    model: FanLoopModel,
    limits: Limits,
    previous: Option<u8>,
    temp: i32,
)
    requires
        loop_wf(model),
        model.phase == (Phase::<Seq<char>>::Measure { limits, previous }),
    ensures
        ({
            let target = held_target(
                previous,
                temp,
                model.hysteresis_c,
                limits.min_speed,
                limits.fans_off_available,
                model.curve,
            );
            let one = loop_resumed(model, Reply::Int(temp));
            let two = loop_resumed(one, Reply::Done);
            &&& target <= 100
            &&& loop_action(one) == Action::<Seq<char>>::WriteInt(
                if limits.fans == 2 {
                    Request::SetUwFanspeed2
                } else {
                    Request::SetUwFanspeed
                },
                (2 * target) as i32,
            )
            &&& limits.fans == 2 ==> loop_action(two) == Action::<Seq<char>>::WriteInt(
                Request::SetUwFanspeed,
                (2 * target) as i32,
            )
        }),
{
    law_loop_stays_wf(model, Reply::Int(temp));
    let target = held_target(
        previous,
        temp,
        model.hysteresis_c,
        limits.min_speed,
        limits.fans_off_available,
        model.curve,
    );
    assert(loop_resumed(model, Reply::Int(temp)).phase is SetFan);
    lemma_scale(target as int);
}

/// A percentage up to 100 is set as it is, and one above as 100, on the driver's scale of two
/// to the percent, by the request for that fan; there are two fans.
pub proof fn law_fan_setting(fan: u8, percent: u8)
    ensures
        percent <= 100 ==> raw_of_percent(at_most_full(percent) as int) == 2 * percent,
        percent > 100 ==> raw_of_percent(at_most_full(percent) as int) == 200,
        fan == 0 ==> fan_set_request(fan) == Some(Request::SetUwFanspeed),
        fan == 1 ==> fan_set_request(fan) == Some(Request::SetUwFanspeed2),
        fan > 1 ==> fan_set_request(fan) is None,
{
    lemma_scale(at_most_full(percent) as int);
}

/// The loop runs the fans from the announcement on until it hands them back.
pub proof fn law_control_phases(phase: PhaseModel)
    ensures
        in_control(phase) <==> !(phase is CountFirst || phase is CountSecond || phase is FansOff
            || phase is MinSpeed || phase is HandBack || phase is HandBackReport
            || phase is Over),
{
}

/// The report on a round names the temperature in degrees and the speed in percent, whichever
/// they are.
pub proof fn law_round_report(
    model: FanLoopModel,
    limits: Limits,
    temp: i32,
    target: u8,
    reply: ReplyModel,
)
    requires
        model.phase == (Phase::<Seq<char>>::Report { limits, temp, target }),
    ensures
        loop_action(model) == Action::Log(
            "fans: temp="@ + signed_decimal(temp as int) + "C set "@ + decimal(target as nat)
                + "%"@,
        ),
        loop_action(loop_resumed(model, reply)) == Action::<Seq<char>>::Sleep(model.interval_ms),
{
}

} // verus!
