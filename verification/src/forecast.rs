//! Real weather, as the forecast service tells it.
//!
//! Wind speeds and directions are kept as the bit patterns of 64-bit floating
//! point numbers. Among the patterns of numbers that are not negative, the order
//! is that of the numbers.

use vstd::arithmetic::power2::{lemma2_to64, pow2};
use vstd::prelude::*;

use crate::weather::{Weather, WeatherKind};

verus! {

/// The integer at `object.key` of the JSON text `body`, if there is one.
pub uninterp spec fn json_int(body: Seq<char>, object: Seq<char>, key: Seq<char>) -> Option<i64>;

/// The bit pattern of the number at `object.key` of the JSON text `body`, if there
/// is one.
pub uninterp spec fn json_float(body: Seq<char>, object: Seq<char>, key: Seq<char>) -> Option<u64>;

/// Whether `body` is a JSON text.
pub uninterp spec fn is_json(body: Seq<char>) -> bool;

/// `serde_json::from_str` into a `Value`, and `Value::as_i64` of the value that
/// indexing with `object` and then `key` gives: `None` where `body` is not JSON,
/// where nothing stands there, or where it is not an integer that fits.
#[verifier::external_body]
pub(crate) fn read_int(body: &str, object: &str, key: &str) -> (r: Option<i64>)
    ensures
        r == json_int(body@, object@, key@),
{
    let value: serde_json::Value = serde_json::from_str(body).ok()?;
    value[object][key].as_i64()
}

/// `serde_json::from_str` into a `Value`, and `Value::as_f64` of the value that
/// indexing with `object` and then `key` gives, as its bit pattern: `None` where
/// `body` is not JSON, where nothing stands there, or where it is not a number.
#[verifier::external_body]
pub(crate) fn read_float(body: &str, object: &str, key: &str) -> (r: Option<u64>)
    ensures
        r == json_float(body@, object@, key@),
{
    let value: serde_json::Value = serde_json::from_str(body).ok()?;
    value[object][key].as_f64().map(|number| number.to_bits())
}

/// `serde_json::from_str` into a `Value`: whether it succeeds.
#[verifier::external_body]
pub(crate) fn check_json(body: &str) -> (r: bool)
    ensures
        r == is_json(body@),
{
    serde_json::from_str::<serde_json::Value>(body).is_ok()
}

/// Whether `bits` is the pattern of a number that is not negative; infinity is
/// one.
pub open spec fn not_negative(bits: u64) -> bool {
    bits <= 0x7ff0_0000_0000_0000
}

/// The patterns of 1, 6, 12, 20, 29, 39, 50, 62, 75, 89, 103 and 118: the wind
/// speeds in km/h at which the levels of the Beaufort scale begin.
pub open spec fn thresholds() -> Seq<u64> {
    seq![
        0x3ff0_0000_0000_0000,
        0x4018_0000_0000_0000,
        0x4028_0000_0000_0000,
        0x4034_0000_0000_0000,
        0x403d_0000_0000_0000,
        0x4043_8000_0000_0000,
        0x4049_0000_0000_0000,
        0x404f_0000_0000_0000,
        0x4052_c000_0000_0000,
        0x4056_4000_0000_0000,
        0x4059_c000_0000_0000,
        0x405d_8000_0000_0000,
    ]
}

/// How many of the first `n` thresholds a wind speed reaches.
pub open spec fn reached(bits: u64, n: int) -> int
    decreases n,
{
    if n <= 0 {
        0
    } else {
        reached(bits, n - 1) + if not_negative(bits) && thresholds()[n - 1] <= bits {
            1int
        } else {
            0int
        }
    }
}

/// The level on the Beaufort scale of a wind speed in km/h: how many of the twelve
/// thresholds it reaches. What is not a number reaches none.
pub open spec fn level_of(bits: u64) -> int {
    reached(bits, 12)
}

/// The level on the Beaufort scale, from 0 to 12, of a wind speed in km/h.
pub fn beaufort(kmh: u64) -> (r: u8)
    ensures
        r == level_of(kmh),
        r <= 12,
{
    let limits: [u64; 12] = [
        0x3ff0_0000_0000_0000,
        0x4018_0000_0000_0000,
        0x4028_0000_0000_0000,
        0x4034_0000_0000_0000,
        0x403d_0000_0000_0000,
        0x4043_8000_0000_0000,
        0x4049_0000_0000_0000,
        0x404f_0000_0000_0000,
        0x4052_c000_0000_0000,
        0x4056_4000_0000_0000,
        0x4059_c000_0000_0000,
        0x405d_8000_0000_0000,
    ];
    assert(limits@ =~= thresholds());
    let mut level: u8 = 0;
    let mut i: usize = 0;
    while i < 12
        invariant
            i <= 12,
            limits@ == thresholds(),
            level == reached(kmh, i as int),
            level <= i,
        decreases 12 - i,
    {
        if kmh <= 0x7ff0_0000_0000_0000 && limits[i] <= kmh {
            level += 1;
        }
        i += 1;
    }
    level
}

/// A stronger wind never has a lower level.
pub proof fn law_beaufort_grows(a: u64, b: u64)
    requires
        a <= b,
        not_negative(b),
    ensures
        level_of(a) <= level_of(b),
{
    lemma_reached_grows(a, b, 12);
}

proof fn lemma_reached_grows(a: u64, b: u64, n: int)
    requires
        a <= b,
        not_negative(b),
    ensures
        reached(a, n) <= reached(b, n),
    decreases n,
{
    if n > 0 {
        lemma_reached_grows(a, b, n - 1);
    }
}

/// What real weather means for the game.
#[derive(Clone, Copy, PartialEq, Eq, Structural, Debug)]
pub enum RealCond {
    Storm(u8),
    Calm,
}

/// The codes for thunderstorms.
pub open spec fn is_thunder(code: i64) -> bool {
    code == 95 || code == 96 || code == 99
}

/// What a weather code and a wind level mean for the game: a thunderstorm is a
/// storm of level 8 at least, and so is a strong breeze (level 6) and up.
pub open spec fn condition(code: i64, level: int) -> RealCond {
    if is_thunder(code) {
        RealCond::Storm(
            if level >= 8 {
                level as u8
            } else {
                8
            },
        )
    } else if level >= 6 {
        RealCond::Storm(level as u8)
    } else {
        RealCond::Calm
    }
}

/// What a weather code and a wind speed in km/h mean for the game.
pub fn classify(weather_code: i64, wind_kmh: u64) -> (r: RealCond)
    ensures
        r == condition(weather_code, level_of(wind_kmh)),
{
    let level: u8 = beaufort(wind_kmh);
    let thunder = weather_code == 95 || weather_code == 96 || weather_code == 99;
    if thunder {
        RealCond::Storm(
            if level >= 8 {
                level
            } else {
                8
            },
        )
    } else if level >= 6 {
        RealCond::Storm(level)
    } else {
        RealCond::Calm
    }
}

/// What the answer of the forecast service means for the game, by what could be
/// read from it; a missing code counts as 0, a missing wind as none.
pub open spec fn condition_read(code: Option<i64>, wind: Option<u64>) -> RealCond {
    condition(
        match code {
            Some(c) => c,
            None => 0,
        },
        level_of(
            match wind {
                Some(w) => w,
                None => 0,
            },
        ),
    )
}

/// What could be read from an answer means for the game.
pub fn classify_read(code: Option<i64>, wind: Option<u64>) -> (r: RealCond)
    ensures
        r == condition_read(code, wind),
{
    let code: i64 = match code {
        Some(c) => c,
        None => 0,
    };
    let wind: u64 = match wind {
        Some(w) => w,
        None => 0,
    };
    classify(code, wind)
}

/// What an answer of the forecast service means for the game: `None` where it is
/// not JSON.
pub fn real_condition(body: &str) -> (r: Option<RealCond>)
    ensures
        r == (if is_json(body@) {
            Some(
                condition_read(
                    json_int(body@, "current"@, "weather_code"@),
                    json_float(body@, "current"@, "wind_speed_10m"@),
                ),
            )
        } else {
            None
        }),
{
    if !check_json(body) {
        return None;
    }
    Some(
        classify_read(
            read_int(body, "current", "weather_code"),
            read_float(body, "current", "wind_speed_10m"),
        ),
    )
}

/// Where to ask for the weather at `lat`, `lon`, given in degrees.
pub fn storm_url(lat: &str, lon: &str) -> (r: String)
    ensures
        r@ == "https://api.open-meteo.com/v1/forecast?latitude="@ + lat@ + "&longitude="@ + lon@
            + "&current=weather_code,wind_speed_10m&wind_speed_unit=kmh"@,
{
    let mut url = "https://api.open-meteo.com/v1/forecast?latitude=".to_owned();
    url.append(lat);
    url.append("&longitude=");
    url.append(lon);
    url.append("&current=weather_code,wind_speed_10m&wind_speed_unit=kmh");
    url
}

/// How many seconds pass between two questions to the forecast service.
pub const POLL_SECONDS: u64 = 300;

/// How many seconds a real storm lasts in the game: a bit longer than until the
/// next answer.
pub const REAL_STORM_SECONDS: u32 = 360;

/// Whether real weather is followed at all, given what `HYPERION_WEATHER` is set
/// to.
pub fn follows_real_weather(setting: Option<&str>) -> (r: bool)
    ensures
        r == !(setting matches Some(s) && s@ == "off"@),
{
    match setting {
        Some(s) => !crate::text::same_text(s, "off"),
        None => true,
    }
}

/// The weather once real weather has come in.
pub open spec fn followed(w: Weather, cond: RealCond) -> Weather {
    if !w.auto_follow {
        w
    } else {
        match cond {
            RealCond::Storm(level) => w.started(
                WeatherKind::Storm,
                if level >= 1 {
                    level
                } else {
                    1
                },
                REAL_STORM_SECONDS,
            ),
            RealCond::Calm => w.calmed(),
        }
    }
}

/// The weather once real weather has come in several times.
pub open spec fn all_followed(w: Weather, conds: Seq<RealCond>) -> Weather
    decreases conds.len(),
{
    if conds.len() == 0 {
        w
    } else {
        followed(all_followed(w, conds.drop_last()), conds.last())
    }
}

/// Lets the weather follow real weather, if it does that.
pub fn apply_real_weather(weather: &mut Weather, conds: &Vec<RealCond>)
    requires
        old(weather).wf(),
    ensures
        final(weather).wf(),
        *final(weather) == all_followed(*old(weather), conds@),
{
    let mut i: usize = 0;
    assert(conds@.take(0) =~= Seq::empty());
    while i < conds.len()
        invariant
            i <= conds@.len(),
            weather.wf(),
            *weather == all_followed(*old(weather), conds@.take(i as int)),
        decreases conds@.len() - i,
    {
        proof {
            let more = conds@.take(i + 1);
            assert(more.drop_last() =~= conds@.take(i as int));
            assert(more.last() == conds@[i as int]);
        }
        if weather.auto_follow {
            match conds[i] {
                RealCond::Storm(level) => {
                    let level: u8 = if level >= 1 {
                        level
                    } else {
                        1
                    };
                    weather.start(WeatherKind::Storm, level, REAL_STORM_SECONDS);
                },
                RealCond::Calm => {
                    weather.calm();
                },
            }
        }
        i += 1;
    }
    assert(conds@.take(conds@.len() as int) =~= conds@);
}

/// Weather that does not follow the real one is left alone by it.
pub proof fn law_manual_weather_is_left_alone(w: Weather, conds: Seq<RealCond>)
    requires
        !w.auto_follow,
    ensures
        all_followed(w, conds) == w,
    decreases conds.len(),
{
    if conds.len() > 0 {
        law_manual_weather_is_left_alone(w, conds.drop_last());
    }
}

/// The levels begin where the Beaufort scale has them: taken apart into exponent and
/// fraction, each threshold is the number of km/h of its level.
pub proof fn law_thresholds_are_wind_speeds(level: int)
    requires
        1 <= level <= 12,
    ensures
        thresholds().len() == 12,
        ({
            let speed = seq![1int, 6, 12, 20, 29, 39, 50, 62, 75, 89, 103, 118][level - 1];
            let bits = thresholds()[level - 1] as int;
            let exponent = bits / 0x10_0000_0000_0000 - 1023;
            let fraction = bits % 0x10_0000_0000_0000;
            0 <= exponent && (0x10_0000_0000_0000 + fraction) * pow2(exponent as nat) == speed
                * 0x10_0000_0000_0000
        }),
{
    lemma2_to64();
    let bits = thresholds()[level - 1] as int;
    let exponent = bits / 0x10_0000_0000_0000 - 1023;
    let whole = 0x10_0000_0000_0000 + bits % 0x10_0000_0000_0000;
    assert(exponent == (if level == 1 {
        0int
    } else if level == 2 {
        2
    } else if level == 3 {
        3
    } else if level <= 5 {
        4
    } else if level <= 8 {
        5
    } else {
        6
    }));
    let scale = pow2(exponent as nat);
    assert(scale == 1 || scale == 4 || scale == 8 || scale == 16 || scale == 32 || scale == 64);
    assert(whole * scale == (if scale == 1 {
        whole
    } else if scale == 4 {
        whole * 4
    } else if scale == 8 {
        whole * 8
    } else if scale == 16 {
        whole * 16
    } else if scale == 32 {
        whole * 32
    } else {
        whole * 64
    })) by (nonlinear_arith)
        requires
            scale == 1 || scale == 4 || scale == 8 || scale == 16 || scale == 32 || scale == 64,
    ;
}

/// A wind has a level exactly when it is as fast as the level begins; what is
/// negative or not a number has none.
pub proof fn law_level_is_reached(bits: u64, level: int)
    requires
        1 <= level <= 12,
    ensures
        level_of(bits) >= level <==> bits <= 0x7ff0_0000_0000_0000 && thresholds()[level - 1]
            <= bits,
        0 <= level_of(bits) <= 12,
{
    reveal_with_fuel(reached, 13);
}

/// A stronger wind never means calmer weather: under one code, a storm stays one and
/// does not lose strength.
pub proof fn law_stronger_wind_is_never_calmer(code: i64, a: int, b: int)
    requires
        0 <= a <= b <= 12,
    ensures
        condition(code, a) matches RealCond::Storm(s) ==> (condition(code, b) matches RealCond::Storm(
            t,
        ) && s <= t),
{
}

/// From a strong breeze on every wind is a storm, whatever the code, of no less than its
/// own level, and of no other unless there is thunder; a weaker wind is one only with
/// thunder.
pub proof fn law_strong_wind_is_a_storm(code: i64, level: int)
    requires
        0 <= level <= 12,
    ensures
        level >= 6 ==> (condition(code, level) matches RealCond::Storm(s) && s >= level),
        code != 95 && code != 96 && code != 99 ==> (condition(code, level) matches RealCond::Storm(s)
            ==> s == level && s >= 6),
{
}

/// Thunder is a storm of level 8 at least in any wind, and of a higher level only in a
/// wind of that level.
pub proof fn law_thunder_is_a_storm(code: i64, level: int)
    requires
        0 <= level <= 12,
        code == 95 || code == 96 || code == 99,
    ensures
        condition(code, level) matches RealCond::Storm(s) && s >= 8 && s >= level && (s > 8 ==> s
            == level),
{
}

/// What an answer leaves out counts as nothing: no code is clear sky, no wind is none.
pub proof fn law_missing_readings_count_as_nothing(code: Option<i64>, wind: Option<u64>)
    ensures
        condition_read(None, wind) == condition_read(Some(0), wind),
        condition_read(code, None) == condition_read(code, Some(0)),
        code matches Some(c) ==> (wind matches Some(w) ==> condition_read(code, wind) == condition(
            c,
            level_of(w),
        )),
        condition_read(None, None) == RealCond::Calm,
{
    law_level_is_reached(0, 1);
}

/// Weather that follows the real one is what came in last: a storm of that level for six
/// minutes, whose effects begin at once, or calm. The player's settings stay.
pub proof fn law_latest_real_weather_decides(w: Weather, conds: Seq<RealCond>)
    requires
        w.auto_follow,
        conds.len() > 0,
    ensures
        ({
            let after = all_followed(w, conds);
            &&& after.auto_follow
            &&& after.persist_damage == w.persist_damage
            &&& conds.last() matches RealCond::Storm(level) ==> {
                &&& after.kind == WeatherKind::Storm
                &&& after.ticks_left == 6 * 60 * 20
                &&& after.next_pulse == 0
                &&& 1 <= after.intensity <= 12
                &&& 1 <= level <= 12 ==> after.intensity == level
                &&& level > 12 ==> after.intensity == 12
            }
            &&& conds.last() == RealCond::Calm ==> after.kind == WeatherKind::Calm
                && after.intensity == 0 && after.ticks_left == 0
        }),
    decreases conds.len(),
{
    if conds.len() > 1 {
        law_latest_real_weather_decides(w, conds.drop_last());
    }
    reveal_with_fuel(all_followed, 2);
}

} // verus!
