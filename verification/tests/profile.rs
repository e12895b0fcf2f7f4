use tuxedo_driver::profile::{list_names, profile_from_mode, PerformanceProfile};

const ALL: [PerformanceProfile; 3] = [
    PerformanceProfile::PowerSave,
    PerformanceProfile::Enthusiast,
    PerformanceProfile::Overboost,
];

#[test]
fn ids_and_names() {
    assert_eq!(ALL.map(PerformanceProfile::id), [1, 2, 3]);
    assert_eq!(ALL.map(PerformanceProfile::name), ["power_save", "enthusiast", "overboost"]);
}

#[test]
fn profiles_by_count() {
    assert_eq!(PerformanceProfile::from_count(2), ALL[..2]);
    assert_eq!(PerformanceProfile::from_count(3), ALL);
    for count in [i32::MIN, -1, 0, 1, 4, i32::MAX] {
        assert!(PerformanceProfile::from_count(count).is_empty());
    }
    for count in 2..=3 {
        let profiles = PerformanceProfile::from_count(count);
        for profile in ALL {
            assert_eq!(profiles.contains(&profile), profile.id() <= count);
        }
    }
}

#[test]
fn names_in_a_row() {
    assert_eq!(list_names(&[]), "");
    assert_eq!(list_names(&ALL[..1]), "power_save");
    assert_eq!(list_names(&ALL[..2]), "power_save, enthusiast");
    assert_eq!(list_names(&ALL), "power_save, enthusiast, overboost");
}

#[test]
fn profile_in_the_mode_register() {
    assert_eq!(profile_from_mode(0xa0), "power_save");
    assert_eq!(profile_from_mode(0x10), "overboost");
    assert_eq!(profile_from_mode(0x00), "enthusiast");
    assert_eq!(profile_from_mode(0x4f), "enthusiast");
    assert_eq!(profile_from_mode(0xef), "power_save");
    assert_eq!(profile_from_mode(0x20), "unknown");
    assert_eq!(profile_from_mode(0x80), "unknown");
    assert_eq!(profile_from_mode(-1), "unknown");
}
