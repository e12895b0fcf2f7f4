//! The performance profiles of the firmware.

use vstd::prelude::*;

verus! {

/// A performance profile.
#[derive(Copy, Clone, Debug, PartialEq, Eq, Structural)]
pub enum PerformanceProfile {
    PowerSave,
    Enthusiast,
    Overboost,
}

/// The number by which the driver knows a profile.
pub open spec fn profile_id(profile: PerformanceProfile) -> i32 {
    match profile {
        PerformanceProfile::PowerSave => 1,
        PerformanceProfile::Enthusiast => 2,
        PerformanceProfile::Overboost => 3,
    }
}

/// The name of a profile.
pub open spec fn profile_name(profile: PerformanceProfile) -> Seq<char> {
    match profile {
        PerformanceProfile::PowerSave => "power_save"@,
        PerformanceProfile::Enthusiast => "enthusiast"@,
        PerformanceProfile::Overboost => "overboost"@,
    }
}

/// The profiles that a driver has which counts `count` of them: the first two or all three.
/// Any other count stands for none.
pub open spec fn counted_profiles(count: i32) -> Seq<PerformanceProfile> {
    if count == 2 {
        seq![PerformanceProfile::PowerSave, PerformanceProfile::Enthusiast]
    } else if count == 3 {
        seq![
            PerformanceProfile::PowerSave,
            PerformanceProfile::Enthusiast,
            PerformanceProfile::Overboost,
        ]
    } else {
        Seq::empty()
    }
}

/// The names, with a comma and a blank between one and the next.
pub open spec fn listed_names(profiles: Seq<PerformanceProfile>) -> Seq<char>
    decreases profiles.len(),
{
    if profiles.len() == 0 {
        Seq::empty()
    } else if profiles.len() == 1 {
        profile_name(profiles[0])
    } else {
        listed_names(profiles.drop_last()) + ", "@ + profile_name(profiles.last())
    }
}

/// The name for what bits 7, 5 and 4 of the mode register say.
pub open spec fn mode_name(raw: i32) -> Seq<char> {
    let bits = raw & 0xb0;
    if bits == 0xa0 {
        "power_save"@
    } else if bits == 0x10 {
        "overboost"@
    } else if bits == 0x00 {
        "enthusiast"@
    } else {
        "unknown"@
    }
}

impl PerformanceProfile {
    /// The number by which the driver knows the profile.
    pub fn id(self) -> (id: i32)
        ensures
            id == profile_id(self),
    {
        match self {
            PerformanceProfile::PowerSave => 1,
            PerformanceProfile::Enthusiast => 2,
            PerformanceProfile::Overboost => 3,
        }
    }

    /// The name of the profile.
    pub fn name(self) -> (name: &'static str)
        ensures
            name@ == profile_name(self),
    {
        match self {
            PerformanceProfile::PowerSave => "power_save",
            PerformanceProfile::Enthusiast => "enthusiast",
            PerformanceProfile::Overboost => "overboost",
        }
    }

    /// The profiles that a driver has which counts `count` of them.
    pub fn from_count(count: i32) -> (profiles: Vec<Self>)
        ensures
            profiles@ == counted_profiles(count),
    {
        match count {
            2 => vec![PerformanceProfile::PowerSave, PerformanceProfile::Enthusiast],
            3 => vec![
                PerformanceProfile::PowerSave,
                PerformanceProfile::Enthusiast,
                PerformanceProfile::Overboost,
            ],
            _ => Vec::new(),
        }
    }
}

/// The names of the profiles in a row.
pub fn list_names(profiles: &[PerformanceProfile]) -> (list: String)
    ensures
        list@ == listed_names(profiles@),
{
    let mut list = String::new();
    for i in 0..profiles.len()
        invariant
            list@ == listed_names(profiles@.take(i as int)),
    {
        if i > 0 {
            list.append(", ");
        }
        list.append(profiles[i].name());
        let ghost names = profiles@.take(i + 1);
        assert(names.drop_last() == profiles@.take(i as int));
        assert(names.last() == profiles@[i as int]);
        assert(list@ == listed_names(names));
    }
    assert(profiles@.take(profiles@.len() as int) == profiles@);
    list
}

/// The name of the profile that the mode register shows.
pub fn profile_from_mode(raw: i32) -> (name: &'static str)
    ensures
        name@ == mode_name(raw),
{
    match raw & 0xb0 {
        0xa0 => "power_save",
        0x10 => "overboost",
        0x00 => "enthusiast",
        _ => "unknown",
    }
}

/// No two profiles share a number.
pub proof fn law_ids_distinct(a: PerformanceProfile, b: PerformanceProfile)
    requires
        profile_id(a) == profile_id(b),
    ensures
        a == b,
{
}

/// A driver that counts two or three profiles has exactly those whose numbers run up to the
/// count.
pub proof fn law_count_covers_ids(count: i32, profile: PerformanceProfile)
    requires
        2 <= count <= 3,
    ensures
        counted_profiles(count).contains(profile) <==> profile_id(profile) <= count,
        counted_profiles(count).len() == count,
{
    let profiles = counted_profiles(count);
    assert(profiles[0] == PerformanceProfile::PowerSave);
    assert(profiles[1] == PerformanceProfile::Enthusiast);
    if count == 3 {
        assert(profiles[2] == PerformanceProfile::Overboost);
    }
}

/// The name of the mode goes by three bits of the register: bits 7 and 5 without 4 stand for
/// saving power, bit 4 alone for the boost, none of them for the mode in between.
pub proof fn law_mode_bits(raw: i32)
    ensures
        ({
            let bit7 = raw & 0x80 != 0;
            let bit5 = raw & 0x20 != 0;
            let bit4 = raw & 0x10 != 0;
            &&& bit7 && bit5 && !bit4 ==> mode_name(raw) == "power_save"@
            &&& !bit7 && !bit5 && bit4 ==> mode_name(raw) == "overboost"@
            &&& !bit7 && !bit5 && !bit4 ==> mode_name(raw) == "enthusiast"@
            &&& bit4 && (bit7 || bit5) ==> mode_name(raw) == "unknown"@
            &&& !bit4 && bit7 != bit5 ==> mode_name(raw) == "unknown"@
        }),
{
    assert(raw & 0xb0 == 0xa0 <==> raw & 0x80 != 0 && raw & 0x20 != 0 && raw & 0x10 == 0)
        by (bit_vector);
    assert(raw & 0xb0 == 0x10 <==> raw & 0x80 == 0 && raw & 0x20 == 0 && raw & 0x10 != 0)
        by (bit_vector);
    assert(raw & 0xb0 == 0x00 <==> raw & 0x80 == 0 && raw & 0x20 == 0 && raw & 0x10 == 0)
        by (bit_vector);
}

/// Two lists of names, one after the other, have a comma and a blank between them.
pub proof fn law_lists_join(first: Seq<PerformanceProfile>, second: Seq<PerformanceProfile>)
    requires
        first.len() > 0,
        second.len() > 0,
    ensures
        listed_names(first + second) == listed_names(first) + ", "@ + listed_names(second),
    decreases second.len(),
{
    let both = first + second;
    assert(both.last() == second.last());
    assert(both.drop_last() == first + second.drop_last());
    if second.len() == 1 {
        assert(both.drop_last() == first);
        assert(second[0] == second.last());
    } else {
        law_lists_join(first, second.drop_last());
        assert(listed_names(second) == listed_names(second.drop_last()) + ", "@ + profile_name(
            second.last(),
        ));
        assert(listed_names(both) == listed_names(first) + ", "@ + listed_names(
            second.drop_last(),
        ) + ", "@ + profile_name(second.last()));
    }
}

/// The names that are listed for what the driver counts.
pub proof fn law_counted_names(count: i32)
    ensures
        ({
            let names = listed_names(counted_profiles(count));
            &&& count == 2 ==> names == "power_save"@ + ", "@ + "enthusiast"@
            &&& count == 3 ==> names == "power_save"@ + ", "@ + "enthusiast"@ + ", "@
                + "overboost"@
            &&& count != 2 && count != 3 ==> names.len() == 0
        }),
{
    let two = seq![PerformanceProfile::PowerSave, PerformanceProfile::Enthusiast];
    assert(two.drop_last() == seq![PerformanceProfile::PowerSave]);
    assert(listed_names(two.drop_last()) == "power_save"@);
    assert(listed_names(two) == "power_save"@ + ", "@ + "enthusiast"@);
    let three = two.push(PerformanceProfile::Overboost);
    assert(three.drop_last() == two);
    assert(listed_names(three) == listed_names(two) + ", "@ + "overboost"@);
    assert(count == 2 ==> counted_profiles(count) == two);
    assert(count == 3 ==> counted_profiles(count) == three);
}

} // verus!
