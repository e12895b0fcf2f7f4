//! The attributes under `/sys/devices/platform/tuxedo_keyboard`: their paths, and what is read
//! from and written to them.

use vstd::prelude::*;
use vstd::string::StrSliceExecFns;

use crate::number::{
    decimal, law_decimal_reads_back, law_decimal_trimmed, parsed_u32, NumberError,
};
use crate::text::{
    chars_of, contains_word, has_word, is_space, is_word_at, law_trim_takes_off_padding,
    law_trim_undoes_line_feed, trim, trimmed,
};

verus! {

/// The directory that holds the attributes.
pub const TUXEDO_KEYBOARD: &'static str = "/sys/devices/platform/tuxedo_keyboard";

/// The charging profile in use, below the directory.
pub const CHARGING_PROFILE: &'static str = "charging_profile/charging_profile";

/// The charging profiles to choose from, below the directory.
pub const CHARGING_PROFILES_AVAILABLE: &'static str =
    "charging_profile/charging_profiles_available";

/// The brightness of the keyboard, below the directory.
pub const BRIGHTNESS: &'static str = "leds/white:kbd_backlight/brightness";

/// The highest brightness of the keyboard, below the directory.
pub const MAX_BRIGHTNESS: &'static str = "leds/white:kbd_backlight/max_brightness";

/// The Fn lock, below the directory.
pub const FN_LOCK: &'static str = "fn_lock";

/// Whether the machine starts when it is plugged in, below the directory.
pub const AC_AUTO_BOOT: &'static str = "ac_auto_boot/ac_auto_boot";

/// Whether USB ports deliver power while the machine is off, below the directory.
pub const USB_POWERSHARE: &'static str = "usb_powershare/usb_powershare";

/// A path below the directory; an absolute path stands for itself.
pub open spec fn sysfs_path(relative: Seq<char>) -> Seq<char> {
    if relative.len() > 0 && relative[0] == '/' {
        relative
    } else {
        TUXEDO_KEYBOARD@ + "/"@ + relative
    }
}

/// A path below the directory of the attributes.
pub fn sysfs(relative: &str) -> (path: String)
    ensures
        path@ == sysfs_path(relative@),
{
    if !relative.is_empty() && relative.get_char(0) == '/' {
        return relative.to_owned();
    }
    let mut path = TUXEDO_KEYBOARD.to_owned();
    path.append("/");
    path.append(relative);
    path
}

/// Where the part behind the last slash begins.
pub open spec fn last_part_start(path: Seq<char>) -> nat
    decreases path.len(),
{
    if path.len() == 0 || path.last() == '/' {
        path.len()
    } else {
        last_part_start(path.drop_last())
    }
}

proof fn lemma_last_part_start(path: Seq<char>, start: int)
    requires
        0 <= start <= path.len(),
        start == 0 || path[start - 1] == '/',
        forall|k: int| start <= k < path.len() ==> #[trigger] path[k] != '/',
    ensures
        last_part_start(path) == start,
    decreases path.len(),
{
    if start < path.len() {
        lemma_last_part_start(path.drop_last(), start);
    }
}

/// The last part begins within the path.
pub proof fn lemma_last_part_start_bound(path: Seq<char>)
    ensures
        last_part_start(path) <= path.len(),
    decreases path.len(),
{
    if path.len() > 0 && path.last() != '/' {
        lemma_last_part_start_bound(path.drop_last());
    }
}

/// The name of the file or directory that a path leads to. Slashes at the end, and parts that
/// are a single dot, do not count. A path that ends in two dots, or that has no other part,
/// leads to nothing that has a name.
pub open spec fn file_name(path: Seq<char>) -> Option<Seq<char>>
    decreases path.len(),
{
    let start = last_part_start(path) as int;
    let part = path.skip(start);
    if part == seq!['.', '.'] {
        None
    } else if part.len() > 0 && part != seq!['.'] {
        Some(part)
    } else if start == 0 {
        None
    } else {
        proof {
            lemma_last_part_start_bound(path);
        }
        file_name(path.take(start - 1))
    }
}

/// What a path is called in the output.
pub open spec fn path_label(path: Seq<char>) -> Seq<char> {
    match file_name(path) {
        Some(name) => name,
        None => "value"@,
    }
}

/// The name of the attribute that a path leads to, or `value` where it has none.
pub fn label_for(path: &str) -> (label: String)
    ensures
        label@ == path_label(path@),
{
    let chars = chars_of(path);
    let mut end: usize = chars.len();
    assert(path@.take(end as int) == path@);
    loop
        invariant
            chars@ == path@,
            end <= chars.len(),
            file_name(path@) == file_name(path@.take(end as int)),
        decreases end,
    {
        let mut start: usize = end;
        while start > 0 && chars[start - 1] != '/'
            invariant
                chars@ == path@,
                start <= end <= chars.len(),
                forall|k: int| start <= k < end ==> #[trigger] path@[k] != '/',
            decreases start,
        {
            start -= 1;
        }
        let ghost head = path@.take(end as int);
        let ghost part = head.skip(start as int);
        proof {
            lemma_last_part_start(head, start as int);
            assert(part == path@.subrange(start as int, end as int));
            assert(part.len() == end - start);
        }
        let length: usize = end - start;
        let dot: bool = length == 1 && chars[start] == '.';
        let dots: bool = length == 2 && chars[start] == '.' && chars[start + 1] == '.';
        assert(dot == (part == seq!['.'])) by {
            if dot {
                assert(part =~= seq!['.']);
            } else if length == 1 {
                assert(part[0] != seq!['.'][0]);
            }
        }
        assert(dots == (part == seq!['.', '.'])) by {
            if dots {
                assert(part =~= seq!['.', '.']);
            } else if length == 2 {
                assert(part[0] != seq!['.', '.'][0] || part[1] != seq!['.', '.'][1]);
            }
        }
        if dots {
            return "value".to_owned();
        }
        if length > 0 && !dot {
            return path.substring_char(start, end).to_owned();
        }
        if start == 0 {
            return "value".to_owned();
        }
        end = start - 1;
        assert(head.take(start - 1) == path@.take(end as int));
    }
}

/// A path that is not there.
#[derive(Debug, PartialEq, Eq)]
pub struct MissingPath {
    pub path: String,
}

/// The message about a path that is not there.
pub open spec fn missing_message(path: Seq<char>) -> Seq<char> {
    path + " is not available"@
}

impl MissingPath {
    /// The message about the path.
    pub fn message(&self) -> (message: String)
        ensures
            message@ == missing_message(self.path@),
    {
        let mut message = self.path.clone();
        message.append(" is not available");
        message
    }
}

/// Refuses a path that is not there.
pub fn ensure_available(path: &str, exists: bool) -> (available: Result<(), MissingPath>)
    ensures
        available is Ok <==> exists,
        available matches Err(missing) ==> missing.path@ == path@,
{
    if exists {
        Ok(())
    } else {
        Err(MissingPath { path: path.to_owned() })
    }
}

/// `on` or `off`.
pub open spec fn switch_word(value: bool) -> Seq<char> {
    if value {
        "on"@
    } else {
        "off"@
    }
}

/// The word for a switch.
pub fn bool_word(value: bool) -> (word: &'static str)
    ensures
        word@ == switch_word(value),
{
    if value {
        "on"
    } else {
        "off"
    }
}

/// A value as it is written to an attribute: with a line feed behind it.
pub open spec fn value_line(value: Seq<char>) -> Seq<char> {
    value.push('\n')
}

/// A switch as it is written to an attribute.
pub open spec fn switch_line(value: bool) -> Seq<char> {
    value_line(if value {
        "1"@
    } else {
        "0"@
    })
}

/// A value as it is written to an attribute.
pub fn line_of(value: &str) -> (line: String)
    ensures
        line@ == value_line(value@),
{
    let mut line = value.to_owned();
    line.append("\n");
    proof {
        reveal_strlit("\n");
        assert(line@ == value_line(value@));
    }
    line
}

/// Whether an attribute that holds `text` is switched on.
pub open spec fn is_on(text: Seq<char>) -> bool {
    trimmed(text) == "1"@
}

/// Whether an attribute that holds `text` is switched on.
pub fn read_bool(text: &str) -> (value: bool)
    ensures
        value == is_on(text@),
{
    trim(text).to_owned() == "1".to_owned()
}

/// The message that refuses a charging profile.
pub open spec fn charging_refusal(
    profile: Seq<char>,
    among: Seq<char>,
    available: Seq<char>,
) -> Seq<char> {
    profile + " is not in available "@ + among + ": "@ + available
}

fn charging_refusal_text(profile: &str, among: &str, available: &str) -> (message: String)
    ensures
        message@ == charging_refusal(profile@, among@, available@),
{
    let mut message = profile.to_owned();
    message.append(" is not in available ");
    message.append(among);
    message.append(": ");
    message.append(available);
    message
}

/// What is written where for a charging profile from the configuration, given what the list of
/// profiles holds: the profile as it stands, if it is one of the words of the list.
pub fn set_charging_profile(profile: &str, list: &str) -> (write: Result<
    (String, String),
    String,
>)
    ensures
        match write {
            Ok((path, contents)) => {
                &&& has_word(trimmed(list@), profile@)
                &&& path@ == sysfs_path(CHARGING_PROFILE@)
                &&& contents@ == value_line(profile@)
            },
            Err(message) => {
                &&& !has_word(trimmed(list@), profile@)
                &&& message@ == charging_refusal(
                    profile@,
                    "charging profiles"@,
                    trimmed(list@),
                )
            },
        },
{
    let available = trim(list);
    if !contains_word(available, profile) {
        return Err(charging_refusal_text(profile, "charging profiles", available));
    }
    Ok((sysfs(CHARGING_PROFILE), line_of(profile)))
}

/// What is written where for a charging profile that was asked for, given what the list of
/// profiles holds. White space at the ends of what was asked for is dropped beforehand.
pub fn choose_charging_profile(requested: &str, list: &str) -> (write: Result<
    (String, String),
    String,
>)
    ensures
        match write {
            Ok((path, contents)) => {
                &&& has_word(trimmed(list@), requested@)
                &&& path@ == sysfs_path(CHARGING_PROFILE@)
                &&& contents@ == value_line(requested@)
            },
            Err(message) => {
                &&& !has_word(trimmed(list@), requested@)
                &&& message@ == charging_refusal(requested@, "profiles"@, trimmed(list@))
            },
        },
{
    let available = trim(list);
    if !contains_word(available, requested) {
        return Err(charging_refusal_text(requested, "profiles", available));
    }
    Ok((sysfs(CHARGING_PROFILE), line_of(requested)))
}

/// A switch that was written to an attribute is read back as it was written.
pub proof fn law_switch_reads_back(value: bool)
    ensures
        is_on(switch_line(value)) == value,
{
    reveal_strlit("1");
    reveal_strlit("0");
    let written = if value {
        "1"@
    } else {
        "0"@
    };
    assert(!is_space(written[0]) && !is_space(written.last()));
    assert(trimmed(written) == written);
    law_trim_undoes_line_feed(written);
    assert("0"@[0] != "1"@[0]);
}

/// A brightness that was written to an attribute is read back as it was written.
pub proof fn law_brightness_reads_back(value: u32)
    ensures
        parsed_u32(trimmed(value_line(decimal(value as nat)))) == Ok::<u32, NumberError>(value),
{
    law_decimal_trimmed(value as nat);
    law_trim_undoes_line_feed(decimal(value as nat));
    law_decimal_reads_back(value);
}

/// A profile that is one of the words of a list is read back as it was written.
pub proof fn law_charging_profile_reads_back(profile: Seq<char>, list: Seq<char>)
    requires
        has_word(list, profile),
    ensures
        trimmed(value_line(profile)) == profile,
{
    let (start, end) = choose|start: int, end: int| #[trigger]
        is_word_at(list, start, end) && list.subrange(start, end) == profile;
    assert(!is_space(list[start]) && !is_space(list[end - 1]));
    assert(profile[0] == list[start] && profile.last() == list[end - 1]);
    assert(trimmed(profile) == profile);
    law_trim_undoes_line_feed(profile);
}

/// What a path is called is not empty and holds no slash.
pub proof fn law_label_is_one_part(path: Seq<char>)
    ensures
        path_label(path).len() > 0,
        forall|k: int| 0 <= k < path_label(path).len() ==> #[trigger] path_label(path)[k] != '/',
    decreases path.len(),
{
    reveal_strlit("value");
    let start = last_part_start(path) as int;
    lemma_last_part_start_bound(path);
    lemma_last_part_has_no_slash(path);
    if path.skip(start) != seq!['.', '.'] {
        if path.skip(start).len() > 0 && path.skip(start) != seq!['.'] {
            assert(path_label(path) == path.skip(start));
        } else if start > 0 {
            law_label_is_one_part(path.take(start - 1));
        }
    }
}

proof fn lemma_last_part_has_no_slash(path: Seq<char>)
    ensures
        forall|k: int| last_part_start(path) <= k < path.len() ==> #[trigger] path[k] != '/',
    decreases path.len(),
{
    if path.len() > 0 && path.last() != '/' {
        let shorter = path.drop_last();
        lemma_last_part_has_no_slash(shorter);
        assert forall|k: int| last_part_start(path) <= k < path.len() implies #[trigger] path[k]
            != '/' by {
            if k < shorter.len() {
                assert(shorter[k] == path[k]);
            }
        }
    }
}

/// A path below the directory is never taken for another one.
pub proof fn law_sysfs_injective(a: Seq<char>, b: Seq<char>)
    requires
        a.len() == 0 || a[0] != '/',
        b.len() == 0 || b[0] != '/',
        sysfs_path(a) == sysfs_path(b),
    ensures
        a == b,
{
    let base = TUXEDO_KEYBOARD@ + "/"@;
    assert(a == sysfs_path(a).skip(base.len() as int));
    assert(b == sysfs_path(b).skip(base.len() as int));
}

/// A path below the directory begins with it; an absolute path stays as it is.
pub proof fn law_sysfs_below_directory(relative: Seq<char>)
    ensures
        relative.len() > 0 && relative[0] == '/' ==> sysfs_path(relative) == relative,
        relative.len() == 0 || relative[0] != '/' ==> sysfs_path(relative)
            == "/sys/devices/platform/tuxedo_keyboard"@ + "/"@ + relative,
{
}

proof fn lemma_part_is_label(head: Seq<char>, name: Seq<char>)
    requires
        head.len() == 0 || head.last() == '/',
        name.len() > 0,
        name != seq!['.'],
        name != seq!['.', '.'],
        forall|k: int| 0 <= k < name.len() ==> #[trigger] name[k] != '/',
    ensures
        path_label(head + name) == name,
{
    let path = head + name;
    let start = head.len() as int;
    assert forall|k: int| start <= k < path.len() implies #[trigger] path[k] != '/' by {
        assert(path[k] == name[k - start]);
    }
    lemma_last_part_start(path, start);
    assert(path.skip(start) == name);
}

/// What stands behind the last slash is what a path is called, and a path without a slash is
/// called what it is, unless that is one dot or two.
pub proof fn law_label_is_last_part(directory: Seq<char>, name: Seq<char>)
    requires
        name.len() > 0,
        name != seq!['.'],
        name != seq!['.', '.'],
        forall|k: int| 0 <= k < name.len() ==> #[trigger] name[k] != '/',
    ensures
        path_label(name) == name,
        path_label(directory + seq!['/'] + name) == name,
{
    assert(Seq::<char>::empty() + name == name);
    lemma_part_is_label(Seq::empty(), name);
    let head = directory + seq!['/'];
    assert(head.last() == '/');
    lemma_part_is_label(head, name);
}

/// Slashes and single dots at its end do not change what a path is called.
pub proof fn law_label_ignores_ending(path: Seq<char>)
    ensures
        path_label(path + seq!['/']) == path_label(path),
        path_label(path + seq!['/', '.']) == path_label(path),
{
    let slash = path + seq!['/'];
    let length = path.len() as int;
    lemma_last_part_start(slash, length + 1);
    assert(slash.skip(length + 1).len() == 0);
    assert(slash.take(length) == path);
    assert(file_name(slash) == file_name(path));
    let dot = path + seq!['/', '.'];
    lemma_last_part_start(dot, length + 1);
    assert(dot.skip(length + 1) == seq!['.']);
    assert(dot.take(length) == path);
    assert(seq!['.'].len() != seq!['.', '.'].len());
    assert(file_name(dot) == file_name(path));
}

/// A path that leads upwards, or nowhere, is called `value`.
pub proof fn law_nameless_paths(path: Seq<char>)
    ensures
        path_label(path + seq!['/', '.', '.']) == "value"@,
        path_label(Seq::empty()) == "value"@,
{
    let up = path + seq!['/', '.', '.'];
    let start = path.len() as int + 1;
    lemma_last_part_start(up, start);
    assert(up.skip(start) == seq!['.', '.']);
    let none = Seq::<char>::empty();
    assert(none.skip(0).len() == 0);
}

/// An attribute is switched on exactly if it holds a 1 and nothing else but white space around
/// it.
pub proof fn law_on_means_one(before: Seq<char>, inner: Seq<char>, behind: Seq<char>)
    requires
        forall|k: int| 0 <= k < before.len() ==> is_space(#[trigger] before[k]),
        forall|k: int| 0 <= k < behind.len() ==> is_space(#[trigger] behind[k]),
        inner.len() > 0 ==> !is_space(inner[0]) && !is_space(inner.last()),
    ensures
        is_on(before + inner + behind) <==> inner == seq!['1'],
{
    law_trim_takes_off_padding(before, inner, behind);
    reveal_strlit("1");
    assert("1"@ == seq!['1']);
}

/// What is written to an attribute is the value and a line feed; for a switch the value is 1
/// or 0.
pub proof fn law_written_lines(value: Seq<char>, on: bool)
    ensures
        value_line(value) == value + seq!['\n'],
        switch_line(on) == if on {
            seq!['1', '\n']
        } else {
            seq!['0', '\n']
        },
{
    reveal_strlit("1");
    reveal_strlit("0");
    assert(switch_line(on) == if on {
        seq!['1', '\n']
    } else {
        seq!['0', '\n']
    });
}

/// A refusal names what was asked for and all there is to choose from, and the message about a
/// path that is not there names the path.
pub proof fn law_refusals_name_their_reason(
    asked: Seq<char>,
    among: Seq<char>,
    available: Seq<char>,
)
    ensures
        charging_refusal(asked, among, available) == asked + (" is not in available "@ + among
            + ": "@) + available,
        missing_message(asked) == asked + " is not available"@,
{
    assert(charging_refusal(asked, among, available) =~= asked + (" is not in available "@
        + among + ": "@) + available);
}

} // verus!
