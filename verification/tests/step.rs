use tuxedo_driver::ioctl::Request;
use tuxedo_driver::number::NumberError;
use tuxedo_driver::step::{
    fan_count, fan_line_text, label_line, profile_line_text, read_fan_speed_raw,
    read_fan_temp_raw, show_file, show_int, Action, Failure, FileForm, IntForm, Reply, Step,
};

fn no_such_fan() -> Failure<String> {
    Failure::Message("fan index out of range".to_owned())
}

#[test]
fn lines() {
    assert_eq!(label_line("fn_lock", "on"), "fn_lock: on");
    assert_eq!(profile_line_text(0x10), "profile: overboost (raw 0x10)");
    assert_eq!(profile_line_text(0), "profile: enthusiast (raw 0x00)");
    assert_eq!(
        fan_line_text(0, 199, 50, 50),
        "fan1: speed=100%, raw_speed=199, temp=50C, raw_temp=50C"
    );
    assert_eq!(
        fan_line_text(255, -1, -2, 0),
        "fan256: speed=0%, raw_speed=-1, temp=-2C, raw_temp=0C"
    );
}

#[test]
fn forms_of_integers() {
    assert_eq!(show_int(-7, IntForm::Number), "-7");
    assert_eq!(show_int(1, IntForm::Truth), "true");
    assert_eq!(show_int(2, IntForm::Truth), "false");
    assert_eq!(show_int(1, IntForm::Switch), "on");
    assert_eq!(show_int(0, IntForm::Switch), "off");
}

#[test]
fn forms_of_files() {
    assert_eq!(show_file(" balanced\n", FileForm::Text), "balanced");
    assert_eq!(show_file("1\n", FileForm::Switch), "on");
    assert_eq!(show_file("yes\n", FileForm::Switch), "off");
}

#[test]
fn fans_by_index() {
    assert_eq!(read_fan_speed_raw(0), Ok(Request::UwFanspeed));
    assert_eq!(read_fan_speed_raw(1), Ok(Request::UwFanspeed2));
    assert_eq!(read_fan_speed_raw(2), Err(no_such_fan()));
    assert_eq!(read_fan_temp_raw(0), Ok(Request::UwFanTemp));
    assert_eq!(read_fan_temp_raw(1), Ok(Request::UwFanTemp2));
    assert_eq!(read_fan_temp_raw(255), Err(no_such_fan()));
}

#[test]
fn fans_are_counted() {
    assert_eq!(fan_count(false, false), 0);
    assert_eq!(fan_count(true, false), 1);
    assert_eq!(fan_count(false, true), 1);
    assert_eq!(fan_count(true, true), 2);
}

#[test]
fn a_fan_that_there_is_none_of() {
    let speed: Step<String> = Step::FanSpeed(2);
    assert_eq!(speed.action(), Action::Fail(no_such_fan()));
    assert_eq!(speed.after(Reply::Int(1)), Err(no_such_fan()));
    let temp: Step<String> = Step::FanTemp(2, 10);
    assert_eq!(temp.action(), Action::Fail(no_such_fan()));
    assert_eq!(temp.after(Reply::Int(1)), Err(no_such_fan()));
}

#[test]
fn replies_of_the_wrong_kind() {
    let step: Step<String> = Step::ShowProfile;
    assert_eq!(step.after(Reply::Text("1".to_owned())), Err(Failure::Mismatch));
    let step: Step<String> = Step::Open;
    assert_eq!(step.after(Reply::Int(1)), Err(Failure::Mismatch));
    let step: Step<String> = Step::Open;
    let denied = Reply::Failed("denied".to_owned());
    assert_eq!(step.after(denied), Err(Failure::Io("denied".to_owned())));
    let step: Step<String> = Step::Brightness;
    assert_eq!(step.after(Reply::Int(1)), Err(Failure::Mismatch));
}

#[test]
fn copies_of_failures() {
    let failures = [
        Failure::Io("denied".to_owned()),
        Failure::Mismatch,
        Failure::Missing("/a".to_owned()),
        Failure::Number(NumberError::Empty),
        no_such_fan(),
    ];
    for failure in failures {
        assert_eq!(failure.copied(), failure);
    }
}
