//! Fan speeds: the driver's scale, the fan curves, and the choice of the next speed.

use vstd::prelude::*;

verus! {

/// The driver's value for a fan at full speed.
pub const NB02_FAN_SPEED_MAX: i32 = 0xc8;

/// The quotient to the nearest integer, halves away from zero, for a positive divisor.
pub open spec fn rounded(dividend: int, divisor: int) -> int {
    if dividend >= 0 {
        (2 * dividend + divisor) / (2 * divisor)
    } else {
        -((-2 * dividend + divisor) / (2 * divisor))
    }
}

/// The value cut to the percent scale.
pub open spec fn percent_clamped(value: int) -> int {
    if value < 0 {
        0
    } else if value > 100 {
        100
    } else {
        value
    }
}

/// What the driver's value `raw` is in percent.
pub open spec fn percent_of_raw(raw: int) -> int {
    percent_clamped(rounded(raw * 100, NB02_FAN_SPEED_MAX as int))
}

/// What `percent` is on the driver's scale.
pub open spec fn raw_of_percent(percent: int) -> int {
    rounded(NB02_FAN_SPEED_MAX * percent, 100)
}

/// One percent is two steps of the driver's scale.
pub proof fn lemma_scale(value: int)
    ensures
        value >= 0 ==> rounded(value * 100, NB02_FAN_SPEED_MAX as int) == (value + 1) / 2,
        value < 0 ==> rounded(value * 100, NB02_FAN_SPEED_MAX as int) <= 0,
        value >= 0 ==> raw_of_percent(value) == 2 * value,
{
    let max = NB02_FAN_SPEED_MAX as int;
    assert(max == 200);
    assert(2 * max == 400);
    if value >= 0 {
        assert(rounded(value * 100, max) == (200 * value + 200) / 400);
        assert((200 * value + 200) / 400 == (value + 1) / 2);
        assert(max * value == 200 * value) by (nonlinear_arith)
            requires
                max == 200,
        ;
        assert(raw_of_percent(value) == (2 * (200 * value) + 100) / 200);
        assert((2 * (200 * value) + 100) / 200 == 2 * value);
    } else {
        assert(rounded(value * 100, max) == -((-200 * value + 200) / 400));
        assert((-200 * value + 200) / 400 >= 0);
    }
}

/// A speed on the driver's scale as a whole percentage, never above 100.
pub fn raw_to_percent(raw: i32) -> (percent: u8)
    ensures
        percent == percent_of_raw(raw as int),
{
    proof {
        lemma_scale(raw as int);
    }
    if raw <= 0 {
        return 0;
    }
    let scaled: i64 = raw as i64 * 100;
    let max: i64 = NB02_FAN_SPEED_MAX as i64;
    let nearest: i64 = (2 * scaled + max) / (2 * max);
    if nearest > 100 {
        100
    } else {
        nearest as u8
    }
}

/// A percentage on the driver's scale.
pub fn percent_to_raw(percent: u8) -> (raw: i32)
    ensures
        raw == raw_of_percent(percent as int),
{
    proof {
        lemma_scale(percent as int);
    }
    let scaled: i32 = NB02_FAN_SPEED_MAX * percent as i32;
    (2 * scaled + 100) / 200
}

/// One step of a fan curve: up to the temperature `temp`, run at `speed` percent.
#[derive(Copy, Clone, Debug, PartialEq, Eq, Structural)]
pub struct FanPoint {
    pub temp: i32,
    pub speed: u8,
}

/// A point of a fan curve.
pub fn p(temp: i32, speed: u8) -> (point: FanPoint)
    ensures
        point == (FanPoint { temp, speed }),
{
    FanPoint { temp, speed }
}

/// The preset that lets the machine grow warm before the fans speed up: temperature, speed.
pub const SILENT: [(i32, u8); 18] = [
    (60, 0),
    (65, 20),
    (69, 25),
    (71, 30),
    (73, 35),
    (75, 40),
    (77, 45),
    (79, 50),
    (81, 55),
    (83, 60),
    (85, 65),
    (87, 70),
    (88, 75),
    (89, 80),
    (90, 85),
    (92, 90),
    (94, 95),
    (100, 100),
];

/// The preset that trades a little noise for a lower temperature: temperature, speed.
pub const QUIET: [(i32, u8); 25] = [
    (50, 0),
    (60, 20),
    (63, 22),
    (64, 23),
    (65, 24),
    (67, 25),
    (68, 28),
    (69, 30),
    (70, 33),
    (71, 37),
    (72, 40),
    (73, 43),
    (74, 44),
    (75, 46),
    (76, 48),
    (78, 52),
    (80, 55),
    (82, 60),
    (84, 65),
    (86, 70),
    (88, 80),
    (90, 85),
    (92, 90),
    (94, 95),
    (100, 100),
];

/// The preset between quiet and cool: temperature, speed.
pub const BALANCED: [(i32, u8); 26] = [
    (45, 0),
    (51, 20),
    (53, 23),
    (56, 26),
    (59, 30),
    (62, 33),
    (64, 35),
    (65, 38),
    (66, 40),
    (67, 42),
    (68, 45),
    (69, 47),
    (71, 50),
    (72, 52),
    (74, 53),
    (76, 57),
    (78, 60),
    (79, 63),
    (81, 65),
    (83, 70),
    (85, 75),
    (87, 80),
    (88, 85),
    (91, 90),
    (94, 95),
    (100, 100),
];

/// The preset that keeps the machine cool: temperature, speed.
pub const COOL: [(i32, u8); 26] = [
    (39, 0),
    (45, 20),
    (50, 25),
    (55, 30),
    (56, 32),
    (57, 33),
    (58, 34),
    (60, 35),
    (61, 37),
    (63, 40),
    (64, 42),
    (67, 45),
    (68, 47),
    (70, 50),
    (71, 52),
    (73, 55),
    (74, 57),
    (76, 60),
    (78, 65),
    (80, 70),
    (82, 75),
    (84, 80),
    (86, 85),
    (89, 90),
    (94, 95),
    (100, 100),
];

/// The preset that never stops the fans: temperature, speed.
pub const FREEZY: [(i32, u8); 17] = [
    (29, 20),
    (39, 25),
    (45, 30),
    (49, 35),
    (55, 40),
    (60, 45),
    (65, 50),
    (70, 55),
    (75, 60),
    (77, 65),
    (79, 70),
    (81, 75),
    (83, 80),
    (85, 85),
    (89, 90),
    (94, 95),
    (100, 100),
];

/// The named fan curves.
#[derive(Copy, Clone, Debug, PartialEq, Eq, Structural)]
pub enum FanPreset {
    Silent,
    Quiet,
    Balanced,
    Cool,
    Freezy,
}

/// The points of a table of temperatures and speeds.
pub open spec fn table_points(table: Seq<(i32, u8)>) -> Seq<FanPoint> {
    table.map_values(|row: (i32, u8)| FanPoint { temp: row.0, speed: row.1 })
}

/// The name by which a preset is configured and reported.
pub open spec fn preset_name(preset: FanPreset) -> Seq<char> {
    match preset {
        FanPreset::Silent => "silent"@,
        FanPreset::Quiet => "quiet"@,
        FanPreset::Balanced => "balanced"@,
        FanPreset::Cool => "cool"@,
        FanPreset::Freezy => "freezy"@,
    }
}

/// The curve that a preset stands for.
pub open spec fn preset_curve(preset: FanPreset) -> Seq<FanPoint> {
    match preset {
        FanPreset::Silent => table_points(SILENT@),
        FanPreset::Quiet => table_points(QUIET@),
        FanPreset::Balanced => table_points(BALANCED@),
        FanPreset::Cool => table_points(COOL@),
        FanPreset::Freezy => table_points(FREEZY@),
    }
}

fn points(table: &[(i32, u8)]) -> (curve: Vec<FanPoint>)
    ensures
        curve@ == table_points(table@),
{
    let mut curve: Vec<FanPoint> = Vec::new();
    for i in 0..table.len()
        invariant
            curve@ == table_points(table@.take(i as int)),
    {
        let row = table[i];
        curve.push(p(row.0, row.1));
        assert(table@.take(i + 1) == table@.take(i as int).push(row));
        assert(curve@ == table_points(table@.take(i + 1)));
    }
    assert(table@.take(table@.len() as int) == table@);
    curve
}

impl FanPreset {
    /// The name by which the preset is configured and reported.
    pub fn name(self) -> (name: &'static str)
        ensures
            name@ == preset_name(self),
    {
        match self {
            FanPreset::Silent => "silent",
            FanPreset::Quiet => "quiet",
            FanPreset::Balanced => "balanced",
            FanPreset::Cool => "cool",
            FanPreset::Freezy => "freezy",
        }
    }

    /// The preset's curve.
    pub fn curve(self) -> (curve: Vec<FanPoint>)
        ensures
            curve@ == preset_curve(self),
    {
        match self {
            FanPreset::Silent => points(&SILENT),
            FanPreset::Quiet => points(&QUIET),
            FanPreset::Balanced => points(&BALANCED),
            FanPreset::Cool => points(&COOL),
            FanPreset::Freezy => points(&FREEZY),
        }
    }
}

/// The point of `curve` that applies at `temp`: the first one that reaches up to `temp`, or
/// the last one where none does.
pub open spec fn curve_point(curve: Seq<FanPoint>, temp: int) -> Option<FanPoint>
    decreases curve.len(),
{
    if curve.len() == 0 {
        None
    } else if temp <= curve[0].temp || curve.len() == 1 {
        Some(curve[0])
    } else {
        curve_point(curve.drop_first(), temp)
    }
}

/// The speed, at most 100, that `curve` gives at `temp`; 0 for a curve without points.
pub open spec fn speed_on_curve(curve: Seq<FanPoint>, temp: int) -> u8 {
    match curve_point(curve, temp) {
        Some(point) => if point.speed < 100 {
            point.speed
        } else {
            100
        },
        None => 0,
    }
}

/// What the hardware makes of a wanted speed below its lowest one. Where the fans can stop,
/// they stop below half of the lowest speed and run at the lowest speed from there on. Where
/// they cannot, a speed below half of the lowest one is left as it is.
pub open spec fn limited_speed(speed: u8, min_speed: u8, fans_off_available: bool) -> u8 {
    if speed >= min_speed {
        speed
    } else if speed >= min_speed / 2 {
        min_speed
    } else if fans_off_available {
        0
    } else {
        speed
    }
}

/// The speed to run at for a temperature.
pub open spec fn target_speed(
    temp: int,
    min_speed: u8,
    fans_off_available: bool,
    curve: Seq<FanPoint>,
) -> u8 {
    limited_speed(speed_on_curve(curve, temp), min_speed, fans_off_available)
}

/// The speed that `curve` gives at `temp`.
pub fn curve_speed(curve: &[FanPoint], temp: i32) -> (speed: u8)
    ensures
        speed == speed_on_curve(curve@, temp as int),
{
    assert(curve@.skip(0) == curve@);
    for i in 0..curve.len()
        invariant
            curve_point(curve@, temp as int) == curve_point(curve@.skip(i as int), temp as int),
    {
        let point = curve[i];
        assert(curve@.skip(i as int).drop_first() == curve@.skip(i + 1));
        if temp <= point.temp || i + 1 == curve.len() {
            return if point.speed < 100 {
                point.speed
            } else {
                100
            };
        }
    }
    0
}

/// Fits a wanted speed to what the hardware can do.
pub fn apply_hw_limit(speed: u8, min_speed: u8, fans_off_available: bool) -> (limited: u8)
    ensures
        limited == limited_speed(speed, min_speed, fans_off_available),
{
    if speed < min_speed {
        let half_min: u8 = min_speed / 2;
        if fans_off_available && speed < half_min {
            0
        } else if fans_off_available || speed >= half_min {
            min_speed
        } else {
            speed
        }
    } else {
        speed
    }
}

/// The speed to run at for a temperature.
pub fn target_speed_for_temp(
    temp: i32,
    min_speed: u8,
    fans_off_available: bool,
    curve: &[FanPoint],
) -> (target: u8)
    ensures
        target == target_speed(temp as int, min_speed, fans_off_available, curve@),
{
    let speed: u8 = curve_speed(curve, temp);
    apply_hw_limit(speed, min_speed, fans_off_available)
}

/// The sum cut to the range of `i32`.
pub open spec fn saturated_sum(a: i32, b: i32) -> int {
    if a + b > i32::MAX {
        i32::MAX as int
    } else if a + b < i32::MIN {
        i32::MIN as int
    } else {
        a + b
    }
}

/// The speed to run at next. It is the one for `temp`, except that a fall below the previous
/// speed waits until a temperature higher by `hysteresis_c` would allow it as well.
pub open spec fn held_target(
    previous: Option<u8>,
    temp: i32,
    hysteresis_c: i32,
    min_speed: u8,
    fans_off_available: bool,
    curve: Seq<FanPoint>,
) -> u8 {
    let target = target_speed(temp as int, min_speed, fans_off_available, curve);
    let warmer = target_speed(
        saturated_sum(temp, hysteresis_c),
        min_speed,
        fans_off_available,
        curve,
    );
    match previous {
        Some(speed) => if hysteresis_c > 0 && target < speed && speed <= warmer {
            speed
        } else {
            target
        },
        None => target,
    }
}

/// The speed to run at next, given the one that was set before.
pub fn next_target(
    previous: Option<u8>,
    temp: i32,
    hysteresis_c: i32,
    min_speed: u8,
    fans_off_available: bool,
    curve: &[FanPoint],
) -> (target: u8)
    ensures
        target == held_target(
            previous,
            temp,
            hysteresis_c,
            min_speed,
            fans_off_available,
            curve@,
        ),
{
    let target: u8 = target_speed_for_temp(temp, min_speed, fans_off_available, curve);
    if let Some(speed) = previous {
        if hysteresis_c > 0 && target < speed {
            let hysteresis_temp: i32 = if temp > i32::MAX - hysteresis_c {
                i32::MAX
            } else {
                temp + hysteresis_c
            };
            let hysteresis_target: u8 = target_speed_for_temp(
                hysteresis_temp,
                min_speed,
                fans_off_available,
                curve,
            );
            if hysteresis_target >= speed {
                return speed;
            }
        }
    }
    target
}

/// A curve on which neither temperature nor speed ever falls from one point to the next.
pub open spec fn ascending(curve: Seq<FanPoint>) -> bool {
    forall|i: int, j: int|
        #![trigger curve[i], curve[j]]
        0 <= i <= j < curve.len() ==> curve[i].temp <= curve[j].temp && curve[i].speed
            <= curve[j].speed
}

/// A curve on which the speed never falls from one point to the next.
pub open spec fn speeds_ascend(curve: Seq<FanPoint>) -> bool {
    forall|i: int, j: int|
        #![trigger curve[i], curve[j]]
        0 <= i <= j < curve.len() ==> curve[i].speed <= curve[j].speed
}

/// A percentage that was put on the driver's scale reads back as itself, cut to 100.
pub proof fn law_percent_reads_back(percent: u8)
    ensures
        percent_of_raw(raw_of_percent(percent as int)) == percent_clamped(percent as int),
{
    lemma_scale(percent as int);
    lemma_scale(2 * percent);
}

/// A percentage up to 100 lies between 0 and the driver's full speed.
pub proof fn law_raw_in_range(percent: u8)
    requires
        percent <= 100,
    ensures
        0 <= raw_of_percent(percent as int) <= NB02_FAN_SPEED_MAX,
{
    lemma_scale(percent as int);
}

/// A higher value of the driver never reads as a lower percentage.
pub proof fn law_percent_monotone(a: i32, b: i32)
    requires
        a <= b,
    ensures
        percent_of_raw(a as int) <= percent_of_raw(b as int) <= 100,
{
    lemma_scale(a as int);
    lemma_scale(b as int);
}

/// A reading of the driver, taken as a percentage and put back, moves by one at most.
pub proof fn law_raw_reads_back(raw: i32)
    requires
        0 <= raw <= NB02_FAN_SPEED_MAX,
    ensures
        raw <= raw_of_percent(percent_of_raw(raw as int)) <= raw + 1,
{
    lemma_scale(raw as int);
    lemma_scale(percent_of_raw(raw as int));
}

/// Where the fans can stop, they either stop or run at no less than the lowest speed.
pub proof fn law_limit_respects_minimum(speed: u8, min_speed: u8)
    ensures
        limited_speed(speed, min_speed, true) == 0 || limited_speed(speed, min_speed, true)
            >= min_speed,
{
}

/// The limit leaves a wanted speed, raises it to the lowest one, or stops the fans.
pub proof fn law_limit_outcomes(speed: u8, min_speed: u8, fans_off_available: bool)
    ensures
        ({
            let limited = limited_speed(speed, min_speed, fans_off_available);
            ||| limited == speed
            ||| limited == min_speed && speed < min_speed
            ||| limited == 0 && fans_off_available && speed < min_speed
        }),
{
}

/// The limit never turns a higher wanted speed into a lower one.
pub proof fn law_limit_monotone(a: u8, b: u8, min_speed: u8, fans_off_available: bool)
    requires
        a <= b,
    ensures
        limited_speed(a, min_speed, fans_off_available) <= limited_speed(
            b,
            min_speed,
            fans_off_available,
        ),
{
}

/// The target is a percentage, whatever the curve, as long as the lowest speed is one.
pub proof fn law_target_is_percentage(
    temp: int,
    min_speed: u8,
    fans_off_available: bool,
    curve: Seq<FanPoint>,
)
    requires
        min_speed <= 100,
    ensures
        target_speed(temp, min_speed, fans_off_available, curve) <= 100,
{
}

proof fn lemma_curve_point_bounds(curve: Seq<FanPoint>, temp: int)
    requires
        speeds_ascend(curve),
        curve.len() > 0,
    ensures
        curve_point(curve, temp) is Some,
        curve[0].speed <= curve_point(curve, temp)->0.speed,
    decreases curve.len(),
{
    if !(temp <= curve[0].temp || curve.len() == 1) {
        let rest = curve.drop_first();
        assert(forall|i: int| 0 <= i < rest.len() ==> rest[i] == #[trigger] curve[i + 1]);
        assert(speeds_ascend(rest));
        lemma_curve_point_bounds(rest, temp);
        assert(rest[0] == curve[1]);
    }
}

proof fn lemma_curve_point_monotone(curve: Seq<FanPoint>, low: int, high: int)
    requires
        speeds_ascend(curve),
        curve.len() > 0,
        low <= high,
    ensures
        curve_point(curve, low) is Some,
        curve_point(curve, high) is Some,
        curve_point(curve, low)->0.speed <= curve_point(curve, high)->0.speed,
    decreases curve.len(),
{
    lemma_curve_point_bounds(curve, low);
    lemma_curve_point_bounds(curve, high);
    if !(low <= curve[0].temp || curve.len() == 1) {
        let rest = curve.drop_first();
        assert(forall|i: int| 0 <= i < rest.len() ==> rest[i] == #[trigger] curve[i + 1]);
        assert(speeds_ascend(rest));
        lemma_curve_point_monotone(rest, low, high);
    }
}

/// Where the speeds of a curve ascend, it never gives a lower speed at a higher temperature.
pub proof fn law_curve_speed_monotone(curve: Seq<FanPoint>, low: int, high: int)
    requires
        speeds_ascend(curve),
        low <= high,
    ensures
        speed_on_curve(curve, low) <= speed_on_curve(curve, high),
{
    if curve.len() > 0 {
        lemma_curve_point_monotone(curve, low, high);
    }
}

/// Where the speeds of a curve ascend, a higher temperature never calls for a lower speed.
pub proof fn law_target_monotone(
    low: int,
    high: int,
    min_speed: u8,
    fans_off_available: bool,
    curve: Seq<FanPoint>,
)
    requires
        speeds_ascend(curve),
        low <= high,
    ensures
        target_speed(low, min_speed, fans_off_available, curve) <= target_speed(
            high,
            min_speed,
            fans_off_available,
            curve,
        ),
{
    law_curve_speed_monotone(curve, low, high);
    law_limit_monotone(
        speed_on_curve(curve, low),
        speed_on_curve(curve, high),
        min_speed,
        fans_off_available,
    );
}

/// The next speed is never below the one for the temperature, and it is that one or the
/// previous one.
pub proof fn law_hysteresis_never_undercools(
    previous: Option<u8>,
    temp: i32,
    hysteresis_c: i32,
    min_speed: u8,
    fans_off_available: bool,
    curve: Seq<FanPoint>,
)
    ensures
        ({
            let next = held_target(
                previous,
                temp,
                hysteresis_c,
                min_speed,
                fans_off_available,
                curve,
            );
            let target = target_speed(temp as int, min_speed, fans_off_available, curve);
            &&& next >= target
            &&& next == target || previous == Some(next)
        }),
{
}

/// Without hysteresis the next speed depends on the temperature alone.
pub proof fn law_no_hysteresis(
    previous: Option<u8>,
    temp: i32,
    hysteresis_c: i32,
    min_speed: u8,
    fans_off_available: bool,
    curve: Seq<FanPoint>,
)
    requires
        hysteresis_c <= 0,
    ensures
        held_target(previous, temp, hysteresis_c, min_speed, fans_off_available, curve)
            == target_speed(temp as int, min_speed, fans_off_available, curve),
{
}

/// Where the speeds of a curve ascend, the speed that `before` called for is kept while the
/// temperature has fallen by no more than the hysteresis.
pub proof fn law_hysteresis_holds(
    before: i32,
    temp: i32,
    hysteresis_c: i32,
    min_speed: u8,
    fans_off_available: bool,
    curve: Seq<FanPoint>,
)
    requires
        speeds_ascend(curve),
        hysteresis_c > 0,
        before - hysteresis_c <= temp <= before,
    ensures
        ({
            let speed = target_speed(before as int, min_speed, fans_off_available, curve);
            held_target(
                Some(speed),
                temp,
                hysteresis_c,
                min_speed,
                fans_off_available,
                curve,
            ) == speed
        }),
{
    law_target_monotone(temp as int, before as int, min_speed, fans_off_available, curve);
    law_target_monotone(
        before as int,
        saturated_sum(temp, hysteresis_c),
        min_speed,
        fans_off_available,
        curve,
    );
}

/// A speed that is too high even for a temperature warmer by the hysteresis is given up at
/// once.
pub proof fn law_hysteresis_releases(
    speed: u8,
    temp: i32,
    hysteresis_c: i32,
    min_speed: u8,
    fans_off_available: bool,
    curve: Seq<FanPoint>,
)
    requires
        target_speed(saturated_sum(temp, hysteresis_c), min_speed, fans_off_available, curve)
            < speed,
    ensures
        held_target(Some(speed), temp, hysteresis_c, min_speed, fans_off_available, curve)
            == target_speed(temp as int, min_speed, fans_off_available, curve),
{
}

/// Every preset is an ascending curve.
pub proof fn law_presets_ascending(preset: FanPreset)
    ensures
        ascending(preset_curve(preset)),
        speeds_ascend(preset_curve(preset)),
{
}

/// Every preset runs the fans at full speed above 94 degrees.
pub proof fn law_presets_full_speed(preset: FanPreset, temp: int)
    requires
        temp > 94,
    ensures
        speed_on_curve(preset_curve(preset), temp) == 100,
{
    let curve = preset_curve(preset);
    let last = curve.len() - 1;
    assert(curve[last].temp == 100 && curve[last].speed == 100);
    assert(forall|i: int| 0 <= i < last ==> (#[trigger] curve[i]).temp <= 94);
    lemma_curve_point_last(curve, temp);
}

proof fn lemma_curve_point_last(curve: Seq<FanPoint>, temp: int)
    requires
        curve.len() > 0,
        forall|i: int| 0 <= i < curve.len() - 1 ==> (#[trigger] curve[i]).temp < temp,
    ensures
        curve_point(curve, temp) == Some(curve.last()),
    decreases curve.len(),
{
    if curve.len() > 1 {
        assert(curve[0].temp < temp);
        let rest = curve.drop_first();
        assert(forall|i: int| 0 <= i < rest.len() ==> rest[i] == #[trigger] curve[i + 1]);
        lemma_curve_point_last(rest, temp);
    }
}

/// The speed on a curve is that of the first point that reaches up to the temperature, or of
/// the last point where none does, cut to 100.
pub proof fn law_curve_speed_at(curve: Seq<FanPoint>, temp: int, i: int)
    requires
        0 <= i < curve.len(),
        temp <= curve[i].temp || i == curve.len() - 1,
        forall|j: int| 0 <= j < i ==> (#[trigger] curve[j]).temp < temp,
    ensures
        curve[i].speed <= 100 ==> speed_on_curve(curve, temp) == curve[i].speed,
        curve[i].speed > 100 ==> speed_on_curve(curve, temp) == 100,
    decreases i,
{
    if i > 0 {
        assert(curve[0].temp < temp);
        let rest = curve.drop_first();
        assert forall|j: int| 0 <= j < i - 1 implies (#[trigger] rest[j]).temp < temp by {
            assert(rest[j] == curve[j + 1]);
        }
        law_curve_speed_at(rest, temp, i - 1);
        assert(curve_point(curve, temp) == curve_point(rest, temp));
    }
}

/// A point with a percentage gives its own speed at its own temperature, if all points before
/// it lie at lower temperatures.
pub proof fn law_curve_meets_its_points(curve: Seq<FanPoint>, i: int)
    requires
        0 <= i < curve.len(),
        curve[i].speed <= 100,
        forall|j: int| 0 <= j < i ==> (#[trigger] curve[j]).temp < curve[i].temp,
    ensures
        speed_on_curve(curve, curve[i].temp as int) == curve[i].speed,
{
    law_curve_speed_at(curve, curve[i].temp as int, i);
}

/// Without points, the fans stand still.
pub proof fn law_curve_without_points(curve: Seq<FanPoint>, temp: int)
    requires
        curve.len() == 0,
    ensures
        speed_on_curve(curve, temp) == 0,
{
}

/// Between two of its points, an ascending curve gives the speed of the upper one.
proof fn lemma_between_points(curve: Seq<FanPoint>, temp: int, i: int)
    requires
        ascending(curve),
        0 <= i < curve.len(),
        i > 0 ==> curve[i - 1].temp < temp,
        temp <= curve[i].temp || i == curve.len() - 1,
        curve[i].speed <= 100,
    ensures
        speed_on_curve(curve, temp) == curve[i].speed,
{
    assert forall|j: int| 0 <= j < i implies (#[trigger] curve[j]).temp < temp by {
        assert(curve[j].temp <= curve[i - 1].temp);
    }
    law_curve_speed_at(curve, temp, i);
}

/// What the silent preset does at every temperature.
pub proof fn law_silent_speeds(temp: int)
    ensures
        ({
            let speed = speed_on_curve(preset_curve(FanPreset::Silent), temp);
            &&& temp <= 60 ==> speed == 0
            &&& 60 < temp <= 65 ==> speed == 20
            &&& 65 < temp <= 69 ==> speed == 25
            &&& 69 < temp <= 71 ==> speed == 30
            &&& 71 < temp <= 73 ==> speed == 35
            &&& 73 < temp <= 75 ==> speed == 40
            &&& 75 < temp <= 77 ==> speed == 45
            &&& 77 < temp <= 79 ==> speed == 50
            &&& 79 < temp <= 81 ==> speed == 55
            &&& 81 < temp <= 83 ==> speed == 60
            &&& 83 < temp <= 85 ==> speed == 65
            &&& 85 < temp <= 87 ==> speed == 70
            &&& 87 < temp <= 88 ==> speed == 75
            &&& 88 < temp <= 89 ==> speed == 80
            &&& 89 < temp <= 90 ==> speed == 85
            &&& 90 < temp <= 92 ==> speed == 90
            &&& 92 < temp <= 94 ==> speed == 95
            &&& 94 < temp ==> speed == 100
        }),
{
    let curve = preset_curve(FanPreset::Silent);
    law_presets_ascending(FanPreset::Silent);
    if temp <= 60 {
        assert(curve[0] == (FanPoint { temp: 60, speed: 0 }));
        lemma_between_points(curve, temp, 0);
    } else if temp <= 65 {
        assert(curve[1] == (FanPoint { temp: 65, speed: 20 }));
        assert(curve[0].temp == 60);
        lemma_between_points(curve, temp, 1);
    } else if temp <= 69 {
        assert(curve[2] == (FanPoint { temp: 69, speed: 25 }));
        assert(curve[1].temp == 65);
        lemma_between_points(curve, temp, 2);
    } else if temp <= 71 {
        assert(curve[3] == (FanPoint { temp: 71, speed: 30 }));
        assert(curve[2].temp == 69);
        lemma_between_points(curve, temp, 3);
    } else if temp <= 73 {
        assert(curve[4] == (FanPoint { temp: 73, speed: 35 }));
        assert(curve[3].temp == 71);
        lemma_between_points(curve, temp, 4);
    } else if temp <= 75 {
        assert(curve[5] == (FanPoint { temp: 75, speed: 40 }));
        assert(curve[4].temp == 73);
        lemma_between_points(curve, temp, 5);
    } else if temp <= 77 {
        assert(curve[6] == (FanPoint { temp: 77, speed: 45 }));
        assert(curve[5].temp == 75);
        lemma_between_points(curve, temp, 6);
    } else if temp <= 79 {
        assert(curve[7] == (FanPoint { temp: 79, speed: 50 }));
        assert(curve[6].temp == 77);
        lemma_between_points(curve, temp, 7);
    } else if temp <= 81 {
        assert(curve[8] == (FanPoint { temp: 81, speed: 55 }));
        assert(curve[7].temp == 79);
        lemma_between_points(curve, temp, 8);
    } else if temp <= 83 {
        assert(curve[9] == (FanPoint { temp: 83, speed: 60 }));
        assert(curve[8].temp == 81);
        lemma_between_points(curve, temp, 9);
    } else if temp <= 85 {
        assert(curve[10] == (FanPoint { temp: 85, speed: 65 }));
        assert(curve[9].temp == 83);
        lemma_between_points(curve, temp, 10);
    } else if temp <= 87 {
        assert(curve[11] == (FanPoint { temp: 87, speed: 70 }));
        assert(curve[10].temp == 85);
        lemma_between_points(curve, temp, 11);
    } else if temp <= 88 {
        assert(curve[12] == (FanPoint { temp: 88, speed: 75 }));
        assert(curve[11].temp == 87);
        lemma_between_points(curve, temp, 12);
    } else if temp <= 89 {
        assert(curve[13] == (FanPoint { temp: 89, speed: 80 }));
        assert(curve[12].temp == 88);
        lemma_between_points(curve, temp, 13);
    } else if temp <= 90 {
        assert(curve[14] == (FanPoint { temp: 90, speed: 85 }));
        assert(curve[13].temp == 89);
        lemma_between_points(curve, temp, 14);
    } else if temp <= 92 {
        assert(curve[15] == (FanPoint { temp: 92, speed: 90 }));
        assert(curve[14].temp == 90);
        lemma_between_points(curve, temp, 15);
    } else if temp <= 94 {
        assert(curve[16] == (FanPoint { temp: 94, speed: 95 }));
        assert(curve[15].temp == 92);
        lemma_between_points(curve, temp, 16);
    } else {
        assert(curve[17] == (FanPoint { temp: 100, speed: 100 }));
        assert(curve[16].temp == 94);
        assert(curve.len() == 18);
        lemma_between_points(curve, temp, 17);
    }
}

/// What the quiet preset does at every temperature.
pub proof fn law_quiet_speeds(temp: int)
    ensures
        ({
            let speed = speed_on_curve(preset_curve(FanPreset::Quiet), temp);
            &&& temp <= 50 ==> speed == 0
            &&& 50 < temp <= 60 ==> speed == 20
            &&& 60 < temp <= 63 ==> speed == 22
            &&& 63 < temp <= 64 ==> speed == 23
            &&& 64 < temp <= 65 ==> speed == 24
            &&& 65 < temp <= 67 ==> speed == 25
            &&& 67 < temp <= 68 ==> speed == 28
            &&& 68 < temp <= 69 ==> speed == 30
            &&& 69 < temp <= 70 ==> speed == 33
            &&& 70 < temp <= 71 ==> speed == 37
            &&& 71 < temp <= 72 ==> speed == 40
            &&& 72 < temp <= 73 ==> speed == 43
            &&& 73 < temp <= 74 ==> speed == 44
            &&& 74 < temp <= 75 ==> speed == 46
            &&& 75 < temp <= 76 ==> speed == 48
            &&& 76 < temp <= 78 ==> speed == 52
            &&& 78 < temp <= 80 ==> speed == 55
            &&& 80 < temp <= 82 ==> speed == 60
            &&& 82 < temp <= 84 ==> speed == 65
            &&& 84 < temp <= 86 ==> speed == 70
            &&& 86 < temp <= 88 ==> speed == 80
            &&& 88 < temp <= 90 ==> speed == 85
            &&& 90 < temp <= 92 ==> speed == 90
            &&& 92 < temp <= 94 ==> speed == 95
            &&& 94 < temp ==> speed == 100
        }),
{
    let curve = preset_curve(FanPreset::Quiet);
    law_presets_ascending(FanPreset::Quiet);
    if temp <= 50 {
        assert(curve[0] == (FanPoint { temp: 50, speed: 0 }));
        lemma_between_points(curve, temp, 0);
    } else if temp <= 60 {
        assert(curve[1] == (FanPoint { temp: 60, speed: 20 }));
        assert(curve[0].temp == 50);
        lemma_between_points(curve, temp, 1);
    } else if temp <= 63 {
        assert(curve[2] == (FanPoint { temp: 63, speed: 22 }));
        assert(curve[1].temp == 60);
        lemma_between_points(curve, temp, 2);
    } else if temp <= 64 {
        assert(curve[3] == (FanPoint { temp: 64, speed: 23 }));
        assert(curve[2].temp == 63);
        lemma_between_points(curve, temp, 3);
    } else if temp <= 65 {
        assert(curve[4] == (FanPoint { temp: 65, speed: 24 }));
        assert(curve[3].temp == 64);
        lemma_between_points(curve, temp, 4);
    } else if temp <= 67 {
        assert(curve[5] == (FanPoint { temp: 67, speed: 25 }));
        assert(curve[4].temp == 65);
        lemma_between_points(curve, temp, 5);
    } else if temp <= 68 {
        assert(curve[6] == (FanPoint { temp: 68, speed: 28 }));
        assert(curve[5].temp == 67);
        lemma_between_points(curve, temp, 6);
    } else if temp <= 69 {
        assert(curve[7] == (FanPoint { temp: 69, speed: 30 }));
        assert(curve[6].temp == 68);
        lemma_between_points(curve, temp, 7);
    } else if temp <= 70 {
        assert(curve[8] == (FanPoint { temp: 70, speed: 33 }));
        assert(curve[7].temp == 69);
        lemma_between_points(curve, temp, 8);
    } else if temp <= 71 {
        assert(curve[9] == (FanPoint { temp: 71, speed: 37 }));
        assert(curve[8].temp == 70);
        lemma_between_points(curve, temp, 9);
    } else if temp <= 72 {
        assert(curve[10] == (FanPoint { temp: 72, speed: 40 }));
        assert(curve[9].temp == 71);
        lemma_between_points(curve, temp, 10);
    } else if temp <= 73 {
        assert(curve[11] == (FanPoint { temp: 73, speed: 43 }));
        assert(curve[10].temp == 72);
        lemma_between_points(curve, temp, 11);
    } else if temp <= 74 {
        assert(curve[12] == (FanPoint { temp: 74, speed: 44 }));
        assert(curve[11].temp == 73);
        lemma_between_points(curve, temp, 12);
    } else if temp <= 75 {
        assert(curve[13] == (FanPoint { temp: 75, speed: 46 }));
        assert(curve[12].temp == 74);
        lemma_between_points(curve, temp, 13);
    } else if temp <= 76 {
        assert(curve[14] == (FanPoint { temp: 76, speed: 48 }));
        assert(curve[13].temp == 75);
        lemma_between_points(curve, temp, 14);
    } else if temp <= 78 {
        assert(curve[15] == (FanPoint { temp: 78, speed: 52 }));
        assert(curve[14].temp == 76);
        lemma_between_points(curve, temp, 15);
    } else if temp <= 80 {
        assert(curve[16] == (FanPoint { temp: 80, speed: 55 }));
        assert(curve[15].temp == 78);
        lemma_between_points(curve, temp, 16);
    } else if temp <= 82 {
        assert(curve[17] == (FanPoint { temp: 82, speed: 60 }));
        assert(curve[16].temp == 80);
        lemma_between_points(curve, temp, 17);
    } else if temp <= 84 {
        assert(curve[18] == (FanPoint { temp: 84, speed: 65 }));
        assert(curve[17].temp == 82);
        lemma_between_points(curve, temp, 18);
    } else if temp <= 86 {
        assert(curve[19] == (FanPoint { temp: 86, speed: 70 }));
        assert(curve[18].temp == 84);
        lemma_between_points(curve, temp, 19);
    } else if temp <= 88 {
        assert(curve[20] == (FanPoint { temp: 88, speed: 80 }));
        assert(curve[19].temp == 86);
        lemma_between_points(curve, temp, 20);
    } else if temp <= 90 {
        assert(curve[21] == (FanPoint { temp: 90, speed: 85 }));
        assert(curve[20].temp == 88);
        lemma_between_points(curve, temp, 21);
    } else if temp <= 92 {
        assert(curve[22] == (FanPoint { temp: 92, speed: 90 }));
        assert(curve[21].temp == 90);
        lemma_between_points(curve, temp, 22);
    } else if temp <= 94 {
        assert(curve[23] == (FanPoint { temp: 94, speed: 95 }));
        assert(curve[22].temp == 92);
        lemma_between_points(curve, temp, 23);
    } else {
        assert(curve[24] == (FanPoint { temp: 100, speed: 100 }));
        assert(curve[23].temp == 94);
        assert(curve.len() == 25);
        lemma_between_points(curve, temp, 24);
    }
}

/// What the balanced preset does at every temperature.
pub proof fn law_balanced_speeds(temp: int)
    ensures
        ({
            let speed = speed_on_curve(preset_curve(FanPreset::Balanced), temp);
            &&& temp <= 45 ==> speed == 0
            &&& 45 < temp <= 51 ==> speed == 20
            &&& 51 < temp <= 53 ==> speed == 23
            &&& 53 < temp <= 56 ==> speed == 26
            &&& 56 < temp <= 59 ==> speed == 30
            &&& 59 < temp <= 62 ==> speed == 33
            &&& 62 < temp <= 64 ==> speed == 35
            &&& 64 < temp <= 65 ==> speed == 38
            &&& 65 < temp <= 66 ==> speed == 40
            &&& 66 < temp <= 67 ==> speed == 42
            &&& 67 < temp <= 68 ==> speed == 45
            &&& 68 < temp <= 69 ==> speed == 47
            &&& 69 < temp <= 71 ==> speed == 50
            &&& 71 < temp <= 72 ==> speed == 52
            &&& 72 < temp <= 74 ==> speed == 53
            &&& 74 < temp <= 76 ==> speed == 57
            &&& 76 < temp <= 78 ==> speed == 60
            &&& 78 < temp <= 79 ==> speed == 63
            &&& 79 < temp <= 81 ==> speed == 65
            &&& 81 < temp <= 83 ==> speed == 70
            &&& 83 < temp <= 85 ==> speed == 75
            &&& 85 < temp <= 87 ==> speed == 80
            &&& 87 < temp <= 88 ==> speed == 85
            &&& 88 < temp <= 91 ==> speed == 90
            &&& 91 < temp <= 94 ==> speed == 95
            &&& 94 < temp ==> speed == 100
        }),
{
    let curve = preset_curve(FanPreset::Balanced);
    law_presets_ascending(FanPreset::Balanced);
    if temp <= 45 {
        assert(curve[0] == (FanPoint { temp: 45, speed: 0 }));
        lemma_between_points(curve, temp, 0);
    } else if temp <= 51 {
        assert(curve[1] == (FanPoint { temp: 51, speed: 20 }));
        assert(curve[0].temp == 45);
        lemma_between_points(curve, temp, 1);
    } else if temp <= 53 {
        assert(curve[2] == (FanPoint { temp: 53, speed: 23 }));
        assert(curve[1].temp == 51);
        lemma_between_points(curve, temp, 2);
    } else if temp <= 56 {
        assert(curve[3] == (FanPoint { temp: 56, speed: 26 }));
        assert(curve[2].temp == 53);
        lemma_between_points(curve, temp, 3);
    } else if temp <= 59 {
        assert(curve[4] == (FanPoint { temp: 59, speed: 30 }));
        assert(curve[3].temp == 56);
        lemma_between_points(curve, temp, 4);
    } else if temp <= 62 {
        assert(curve[5] == (FanPoint { temp: 62, speed: 33 }));
        assert(curve[4].temp == 59);
        lemma_between_points(curve, temp, 5);
    } else if temp <= 64 {
        assert(curve[6] == (FanPoint { temp: 64, speed: 35 }));
        assert(curve[5].temp == 62);
        lemma_between_points(curve, temp, 6);
    } else if temp <= 65 {
        assert(curve[7] == (FanPoint { temp: 65, speed: 38 }));
        assert(curve[6].temp == 64);
        lemma_between_points(curve, temp, 7);
    } else if temp <= 66 {
        assert(curve[8] == (FanPoint { temp: 66, speed: 40 }));
        assert(curve[7].temp == 65);
        lemma_between_points(curve, temp, 8);
    } else if temp <= 67 {
        assert(curve[9] == (FanPoint { temp: 67, speed: 42 }));
        assert(curve[8].temp == 66);
        lemma_between_points(curve, temp, 9);
    } else if temp <= 68 {
        assert(curve[10] == (FanPoint { temp: 68, speed: 45 }));
        assert(curve[9].temp == 67);
        lemma_between_points(curve, temp, 10);
    } else if temp <= 69 {
        assert(curve[11] == (FanPoint { temp: 69, speed: 47 }));
        assert(curve[10].temp == 68);
        lemma_between_points(curve, temp, 11);
    } else if temp <= 71 {
        assert(curve[12] == (FanPoint { temp: 71, speed: 50 }));
        assert(curve[11].temp == 69);
        lemma_between_points(curve, temp, 12);
    } else if temp <= 72 {
        assert(curve[13] == (FanPoint { temp: 72, speed: 52 }));
        assert(curve[12].temp == 71);
        lemma_between_points(curve, temp, 13);
    } else if temp <= 74 {
        assert(curve[14] == (FanPoint { temp: 74, speed: 53 }));
        assert(curve[13].temp == 72);
        lemma_between_points(curve, temp, 14);
    } else if temp <= 76 {
        assert(curve[15] == (FanPoint { temp: 76, speed: 57 }));
        assert(curve[14].temp == 74);
        lemma_between_points(curve, temp, 15);
    } else if temp <= 78 {
        assert(curve[16] == (FanPoint { temp: 78, speed: 60 }));
        assert(curve[15].temp == 76);
        lemma_between_points(curve, temp, 16);
    } else if temp <= 79 {
        assert(curve[17] == (FanPoint { temp: 79, speed: 63 }));
        assert(curve[16].temp == 78);
        lemma_between_points(curve, temp, 17);
    } else if temp <= 81 {
        assert(curve[18] == (FanPoint { temp: 81, speed: 65 }));
        assert(curve[17].temp == 79);
        lemma_between_points(curve, temp, 18);
    } else if temp <= 83 {
        assert(curve[19] == (FanPoint { temp: 83, speed: 70 }));
        assert(curve[18].temp == 81);
        lemma_between_points(curve, temp, 19);
    } else if temp <= 85 {
        assert(curve[20] == (FanPoint { temp: 85, speed: 75 }));
        assert(curve[19].temp == 83);
        lemma_between_points(curve, temp, 20);
    } else if temp <= 87 {
        assert(curve[21] == (FanPoint { temp: 87, speed: 80 }));
        assert(curve[20].temp == 85);
        lemma_between_points(curve, temp, 21);
    } else if temp <= 88 {
        assert(curve[22] == (FanPoint { temp: 88, speed: 85 }));
        assert(curve[21].temp == 87);
        lemma_between_points(curve, temp, 22);
    } else if temp <= 91 {
        assert(curve[23] == (FanPoint { temp: 91, speed: 90 }));
        assert(curve[22].temp == 88);
        lemma_between_points(curve, temp, 23);
    } else if temp <= 94 {
        assert(curve[24] == (FanPoint { temp: 94, speed: 95 }));
        assert(curve[23].temp == 91);
        lemma_between_points(curve, temp, 24);
    } else {
        assert(curve[25] == (FanPoint { temp: 100, speed: 100 }));
        assert(curve[24].temp == 94);
        assert(curve.len() == 26);
        lemma_between_points(curve, temp, 25);
    }
}

/// What the cool preset does at every temperature.
pub proof fn law_cool_speeds(temp: int)
    ensures
        ({
            let speed = speed_on_curve(preset_curve(FanPreset::Cool), temp);
            &&& temp <= 39 ==> speed == 0
            &&& 39 < temp <= 45 ==> speed == 20
            &&& 45 < temp <= 50 ==> speed == 25
            &&& 50 < temp <= 55 ==> speed == 30
            &&& 55 < temp <= 56 ==> speed == 32
            &&& 56 < temp <= 57 ==> speed == 33
            &&& 57 < temp <= 58 ==> speed == 34
            &&& 58 < temp <= 60 ==> speed == 35
            &&& 60 < temp <= 61 ==> speed == 37
            &&& 61 < temp <= 63 ==> speed == 40
            &&& 63 < temp <= 64 ==> speed == 42
            &&& 64 < temp <= 67 ==> speed == 45
            &&& 67 < temp <= 68 ==> speed == 47
            &&& 68 < temp <= 70 ==> speed == 50
            &&& 70 < temp <= 71 ==> speed == 52
            &&& 71 < temp <= 73 ==> speed == 55
            &&& 73 < temp <= 74 ==> speed == 57
            &&& 74 < temp <= 76 ==> speed == 60
            &&& 76 < temp <= 78 ==> speed == 65
            &&& 78 < temp <= 80 ==> speed == 70
            &&& 80 < temp <= 82 ==> speed == 75
            &&& 82 < temp <= 84 ==> speed == 80
            &&& 84 < temp <= 86 ==> speed == 85
            &&& 86 < temp <= 89 ==> speed == 90
            &&& 89 < temp <= 94 ==> speed == 95
            &&& 94 < temp ==> speed == 100
        }),
{
    let curve = preset_curve(FanPreset::Cool);
    law_presets_ascending(FanPreset::Cool);
    if temp <= 39 {
        assert(curve[0] == (FanPoint { temp: 39, speed: 0 }));
        lemma_between_points(curve, temp, 0);
    } else if temp <= 45 {
        assert(curve[1] == (FanPoint { temp: 45, speed: 20 }));
        assert(curve[0].temp == 39);
        lemma_between_points(curve, temp, 1);
    } else if temp <= 50 {
        assert(curve[2] == (FanPoint { temp: 50, speed: 25 }));
        assert(curve[1].temp == 45);
        lemma_between_points(curve, temp, 2);
    } else if temp <= 55 {
        assert(curve[3] == (FanPoint { temp: 55, speed: 30 }));
        assert(curve[2].temp == 50);
        lemma_between_points(curve, temp, 3);
    } else if temp <= 56 {
        assert(curve[4] == (FanPoint { temp: 56, speed: 32 }));
        assert(curve[3].temp == 55);
        lemma_between_points(curve, temp, 4);
    } else if temp <= 57 {
        assert(curve[5] == (FanPoint { temp: 57, speed: 33 }));
        assert(curve[4].temp == 56);
        lemma_between_points(curve, temp, 5);
    } else if temp <= 58 {
        assert(curve[6] == (FanPoint { temp: 58, speed: 34 }));
        assert(curve[5].temp == 57);
        lemma_between_points(curve, temp, 6);
    } else if temp <= 60 {
        assert(curve[7] == (FanPoint { temp: 60, speed: 35 }));
        assert(curve[6].temp == 58);
        lemma_between_points(curve, temp, 7);
    } else if temp <= 61 {
        assert(curve[8] == (FanPoint { temp: 61, speed: 37 }));
        assert(curve[7].temp == 60);
        lemma_between_points(curve, temp, 8);
    } else if temp <= 63 {
        assert(curve[9] == (FanPoint { temp: 63, speed: 40 }));
        assert(curve[8].temp == 61);
        lemma_between_points(curve, temp, 9);
    } else if temp <= 64 {
        assert(curve[10] == (FanPoint { temp: 64, speed: 42 }));
        assert(curve[9].temp == 63);
        lemma_between_points(curve, temp, 10);
    } else if temp <= 67 {
        assert(curve[11] == (FanPoint { temp: 67, speed: 45 }));
        assert(curve[10].temp == 64);
        lemma_between_points(curve, temp, 11);
    } else if temp <= 68 {
        assert(curve[12] == (FanPoint { temp: 68, speed: 47 }));
        assert(curve[11].temp == 67);
        lemma_between_points(curve, temp, 12);
    } else if temp <= 70 {
        assert(curve[13] == (FanPoint { temp: 70, speed: 50 }));
        assert(curve[12].temp == 68);
        lemma_between_points(curve, temp, 13);
    } else if temp <= 71 {
        assert(curve[14] == (FanPoint { temp: 71, speed: 52 }));
        assert(curve[13].temp == 70);
        lemma_between_points(curve, temp, 14);
    } else if temp <= 73 {
        assert(curve[15] == (FanPoint { temp: 73, speed: 55 }));
        assert(curve[14].temp == 71);
        lemma_between_points(curve, temp, 15);
    } else if temp <= 74 {
        assert(curve[16] == (FanPoint { temp: 74, speed: 57 }));
        assert(curve[15].temp == 73);
        lemma_between_points(curve, temp, 16);
    } else if temp <= 76 {
        assert(curve[17] == (FanPoint { temp: 76, speed: 60 }));
        assert(curve[16].temp == 74);
        lemma_between_points(curve, temp, 17);
    } else if temp <= 78 {
        assert(curve[18] == (FanPoint { temp: 78, speed: 65 }));
        assert(curve[17].temp == 76);
        lemma_between_points(curve, temp, 18);
    } else if temp <= 80 {
        assert(curve[19] == (FanPoint { temp: 80, speed: 70 }));
        assert(curve[18].temp == 78);
        lemma_between_points(curve, temp, 19);
    } else if temp <= 82 {
        assert(curve[20] == (FanPoint { temp: 82, speed: 75 }));
        assert(curve[19].temp == 80);
        lemma_between_points(curve, temp, 20);
    } else if temp <= 84 {
        assert(curve[21] == (FanPoint { temp: 84, speed: 80 }));
        assert(curve[20].temp == 82);
        lemma_between_points(curve, temp, 21);
    } else if temp <= 86 {
        assert(curve[22] == (FanPoint { temp: 86, speed: 85 }));
        assert(curve[21].temp == 84);
        lemma_between_points(curve, temp, 22);
    } else if temp <= 89 {
        assert(curve[23] == (FanPoint { temp: 89, speed: 90 }));
        assert(curve[22].temp == 86);
        lemma_between_points(curve, temp, 23);
    } else if temp <= 94 {
        assert(curve[24] == (FanPoint { temp: 94, speed: 95 }));
        assert(curve[23].temp == 89);
        lemma_between_points(curve, temp, 24);
    } else {
        assert(curve[25] == (FanPoint { temp: 100, speed: 100 }));
        assert(curve[24].temp == 94);
        assert(curve.len() == 26);
        lemma_between_points(curve, temp, 25);
    }
}

/// What the freezy preset does at every temperature.
pub proof fn law_freezy_speeds(temp: int)
    ensures
        ({
            let speed = speed_on_curve(preset_curve(FanPreset::Freezy), temp);
            &&& temp <= 29 ==> speed == 20
            &&& 29 < temp <= 39 ==> speed == 25
            &&& 39 < temp <= 45 ==> speed == 30
            &&& 45 < temp <= 49 ==> speed == 35
            &&& 49 < temp <= 55 ==> speed == 40
            &&& 55 < temp <= 60 ==> speed == 45
            &&& 60 < temp <= 65 ==> speed == 50
            &&& 65 < temp <= 70 ==> speed == 55
            &&& 70 < temp <= 75 ==> speed == 60
            &&& 75 < temp <= 77 ==> speed == 65
            &&& 77 < temp <= 79 ==> speed == 70
            &&& 79 < temp <= 81 ==> speed == 75
            &&& 81 < temp <= 83 ==> speed == 80
            &&& 83 < temp <= 85 ==> speed == 85
            &&& 85 < temp <= 89 ==> speed == 90
            &&& 89 < temp <= 94 ==> speed == 95
            &&& 94 < temp ==> speed == 100
        }),
{
    let curve = preset_curve(FanPreset::Freezy);
    law_presets_ascending(FanPreset::Freezy);
    if temp <= 29 {
        assert(curve[0] == (FanPoint { temp: 29, speed: 20 }));
        lemma_between_points(curve, temp, 0);
    } else if temp <= 39 {
        assert(curve[1] == (FanPoint { temp: 39, speed: 25 }));
        assert(curve[0].temp == 29);
        lemma_between_points(curve, temp, 1);
    } else if temp <= 45 {
        assert(curve[2] == (FanPoint { temp: 45, speed: 30 }));
        assert(curve[1].temp == 39);
        lemma_between_points(curve, temp, 2);
    } else if temp <= 49 {
        assert(curve[3] == (FanPoint { temp: 49, speed: 35 }));
        assert(curve[2].temp == 45);
        lemma_between_points(curve, temp, 3);
    } else if temp <= 55 {
        assert(curve[4] == (FanPoint { temp: 55, speed: 40 }));
        assert(curve[3].temp == 49);
        lemma_between_points(curve, temp, 4);
    } else if temp <= 60 {
        assert(curve[5] == (FanPoint { temp: 60, speed: 45 }));
        assert(curve[4].temp == 55);
        lemma_between_points(curve, temp, 5);
    } else if temp <= 65 {
        assert(curve[6] == (FanPoint { temp: 65, speed: 50 }));
        assert(curve[5].temp == 60);
        lemma_between_points(curve, temp, 6);
    } else if temp <= 70 {
        assert(curve[7] == (FanPoint { temp: 70, speed: 55 }));
        assert(curve[6].temp == 65);
        lemma_between_points(curve, temp, 7);
    } else if temp <= 75 {
        assert(curve[8] == (FanPoint { temp: 75, speed: 60 }));
        assert(curve[7].temp == 70);
        lemma_between_points(curve, temp, 8);
    } else if temp <= 77 {
        assert(curve[9] == (FanPoint { temp: 77, speed: 65 }));
        assert(curve[8].temp == 75);
        lemma_between_points(curve, temp, 9);
    } else if temp <= 79 {
        assert(curve[10] == (FanPoint { temp: 79, speed: 70 }));
        assert(curve[9].temp == 77);
        lemma_between_points(curve, temp, 10);
    } else if temp <= 81 {
        assert(curve[11] == (FanPoint { temp: 81, speed: 75 }));
        assert(curve[10].temp == 79);
        lemma_between_points(curve, temp, 11);
    } else if temp <= 83 {
        assert(curve[12] == (FanPoint { temp: 83, speed: 80 }));
        assert(curve[11].temp == 81);
        lemma_between_points(curve, temp, 12);
    } else if temp <= 85 {
        assert(curve[13] == (FanPoint { temp: 85, speed: 85 }));
        assert(curve[12].temp == 83);
        lemma_between_points(curve, temp, 13);
    } else if temp <= 89 {
        assert(curve[14] == (FanPoint { temp: 89, speed: 90 }));
        assert(curve[13].temp == 85);
        lemma_between_points(curve, temp, 14);
    } else if temp <= 94 {
        assert(curve[15] == (FanPoint { temp: 94, speed: 95 }));
        assert(curve[14].temp == 89);
        lemma_between_points(curve, temp, 15);
    } else {
        assert(curve[16] == (FanPoint { temp: 100, speed: 100 }));
        assert(curve[15].temp == 94);
        assert(curve.len() == 17);
        lemma_between_points(curve, temp, 16);
    }
}

/// The percentage is the nearest one to the driver's value, of which there are two to the
/// percent; a value between two percentages counts up. Values off the scale are cut to it.
pub proof fn law_percent_is_nearest(raw: i32)
    ensures
        raw <= 0 ==> percent_of_raw(raw as int) == 0,
        0 <= raw <= 200 ==> raw <= 2 * percent_of_raw(raw as int) <= raw + 1,
        raw >= 200 ==> percent_of_raw(raw as int) == 100,
{
    lemma_scale(raw as int);
}

/// The driver's value is twice the percentage.
pub proof fn law_raw_is_twice_percent(percent: u8)
    ensures
        raw_of_percent(percent as int) == 2 * percent,
{
    lemma_scale(percent as int);
}

/// What becomes of a wanted speed. From the lowest speed up it stays. Below, it is raised to
/// the lowest speed unless it is under half of that; then the fans stop if they can, and the
/// speed stays if they cannot.
pub proof fn law_limit_cases(speed: u8, min_speed: u8, fans_off_available: bool)
    ensures
        ({
            let limited = limited_speed(speed, min_speed, fans_off_available);
            &&& speed >= min_speed ==> limited == speed
            &&& min_speed > speed && 2 * speed + 1 >= min_speed ==> limited == min_speed
            &&& min_speed > 2 * speed + 1 && fans_off_available ==> limited == 0
            &&& min_speed > 2 * speed + 1 && !fans_off_available ==> limited == speed
        }),
{
}

/// The speed to run at, from the point of the curve that applies and what the hardware can do.
pub proof fn law_target_at_point(
    curve: Seq<FanPoint>,
    temp: int,
    i: int,
    min_speed: u8,
    fans_off_available: bool,
)
    requires
        0 <= i < curve.len(),
        curve[i].speed <= 100,
        temp <= curve[i].temp || i == curve.len() - 1,
        forall|j: int| 0 <= j < i ==> (#[trigger] curve[j]).temp < temp,
    ensures
        ({
            let wanted = curve[i].speed;
            let target = target_speed(temp, min_speed, fans_off_available, curve);
            &&& wanted >= min_speed ==> target == wanted
            &&& min_speed > wanted && 2 * wanted + 1 >= min_speed ==> target == min_speed
            &&& min_speed > 2 * wanted + 1 && fans_off_available ==> target == 0
            &&& min_speed > 2 * wanted + 1 && !fans_off_available ==> target == wanted
        }),
{
    law_curve_speed_at(curve, temp, i);
}

/// The first speed, and every speed that is not lower than the previous one, is the one for the
/// temperature.
pub proof fn law_rise_is_followed(
    previous: Option<u8>,
    temp: i32,
    hysteresis_c: i32,
    min_speed: u8,
    fans_off_available: bool,
    curve: Seq<FanPoint>,
)
    requires
        previous matches Some(speed) ==> speed <= target_speed(
            temp as int,
            min_speed,
            fans_off_available,
            curve,
        ),
    ensures
        held_target(previous, temp, hysteresis_c, min_speed, fans_off_available, curve)
            == target_speed(temp as int, min_speed, fans_off_available, curve),
{
}

/// The speed falls below the previous one exactly if the previous one is too high for the
/// temperature and, with hysteresis, also for the temperature higher by the hysteresis. What
/// would go beyond the largest temperature is cut to it.
pub proof fn law_fall_waits(
    speed: u8,
    temp: i32,
    hysteresis_c: i32,
    min_speed: u8,
    fans_off_available: bool,
    curve: Seq<FanPoint>,
    warm: i32,
)
    requires
        hysteresis_c > 0,
        warm == temp + hysteresis_c || (temp + hysteresis_c > i32::MAX && warm == i32::MAX),
        target_speed(temp as int, min_speed, fans_off_available, curve) < speed,
    ensures
        ({
            let next = held_target(
                Some(speed),
                temp,
                hysteresis_c,
                min_speed,
                fans_off_available,
                curve,
            );
            let warmer = target_speed(warm as int, min_speed, fans_off_available, curve);
            &&& speed <= warmer ==> next == speed
            &&& speed > warmer ==> next == target_speed(
                temp as int,
                min_speed,
                fans_off_available,
                curve,
            )
        }),
{
}

} // verus!
