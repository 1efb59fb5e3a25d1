//! Each player's own city's weather: a readout, real rain and thunder, and wind.
//!
//! Purely cosmetic; the weather of [`crate::weather`] is the server's.

use vstd::prelude::*;

use crate::forecast::{
    beaufort, check_json, condition, is_json, json_float, json_int, law_level_is_reached, level_of,
    read_float, read_int, RealCond,
};
use crate::text::{int_text, push_int};
use crate::weather::WeatherKind;

verus! {

/// What falls from the sky.
#[derive(Clone, Copy, PartialEq, Eq, Structural, Debug)]
pub enum Precip {
    Clear,
    Rain,
    Thunder,
}

/// What falls from the sky at a weather code.
pub open spec fn precip_at(code: i64) -> Precip {
    if code == 95 || code == 96 || code == 99 {
        Precip::Thunder
    } else if code == 51 || code == 53 || 55 <= code <= 57 || code == 61 || code == 63 || 65 <= code
        <= 67 || code == 71 || code == 73 || code == 75 || code == 77 || 80 <= code <= 82 || code
        == 85 || code == 86 {
        Precip::Rain
    } else {
        Precip::Clear
    }
}

/// What falls from the sky at a weather code.
pub fn precip_of(code: i64) -> (r: Precip)
    ensures
        r == precip_at(code),
{
    match code {
        95 | 96 | 99 => Precip::Thunder,
        51 | 53 | 55 | 56 | 57 | 61 | 63 | 65 | 66 | 67 | 71 | 73 | 75 | 77 | 80 | 81 | 82 | 85
        | 86 => Precip::Rain,
        _ => Precip::Clear,
    }
}

/// The colour and the name of the weather at a code.
pub open spec fn description(code: i64) -> (Seq<char>, Seq<char>) {
    if code == 0 {
        ("§e"@, "晴"@)
    } else if 1 <= code <= 3 {
        ("§7"@, "多云"@)
    } else if code == 45 || code == 48 {
        ("§8"@, "雾"@)
    } else if code == 51 || code == 53 || 55 <= code <= 57 {
        ("§9"@, "小雨"@)
    } else if code == 61 || code == 63 || 65 <= code <= 67 {
        ("§9"@, "雨"@)
    } else if code == 71 || code == 73 || code == 75 || code == 77 {
        ("§f"@, "雪"@)
    } else if 80 <= code <= 82 {
        ("§9"@, "阵雨"@)
    } else if code == 85 || code == 86 {
        ("§f"@, "阵雪"@)
    } else if code == 95 || code == 96 || code == 99 {
        ("§c"@, "雷暴"@)
    } else {
        ("§7"@, "未知"@)
    }
}

/// The colour and the name of the weather at a code.
pub fn describe(code: i64) -> (r: (&'static str, &'static str))
    ensures
        (r.0@, r.1@) == description(code),
{
    match code {
        0 => ("§e", "晴"),
        1 | 2 | 3 => ("§7", "多云"),
        45 | 48 => ("§8", "雾"),
        51 | 53 | 55 | 56 | 57 => ("§9", "小雨"),
        61 | 63 | 65 | 66 | 67 => ("§9", "雨"),
        71 | 73 | 75 | 77 => ("§f", "雪"),
        80 | 81 | 82 => ("§9", "阵雨"),
        85 | 86 => ("§f", "阵雪"),
        95 | 96 | 99 => ("§c", "雷暴"),
        _ => ("§7", "未知"),
    }
}

/// The number with the bit pattern `bits`, rounded to no decimals and written out.
pub uninterp spec fn rounded(bits: u64) -> Seq<char>;

/// A number that was read, rounded to no decimals and written out, if there is one.
pub open spec fn rounded_reading(v: Option<u64>) -> Option<Seq<char>> {
    match v {
        Some(bits) => Some(rounded(bits)),
        None => None,
    }
}

/// What an optional string holds.
pub open spec fn text_of(s: Option<String>) -> Option<Seq<char>> {
    match s {
        Some(s) => Some(s@),
        None => None,
    }
}

/// `serde_json::from_str` into a `Value`, and `Value::as_f64` of the value that
/// indexing with `object` and then `key` gives, formatted without decimals: `None`
/// where `body` is not JSON, where nothing stands there, or where it is not a
/// number. The number is the one that [`read_float`] gives the bit pattern of, and
/// how it is written depends on that pattern alone.
#[verifier::external_body]
fn read_rounded(body: &str, object: &str, key: &str) -> (r: Option<String>)
    ensures
        text_of(r) == match json_float(body@, object@, key@) {
            Some(bits) => Some(rounded(bits)),
            None => None,
        },
{
    let value: serde_json::Value = serde_json::from_str(body).ok()?;
    value[object][key].as_f64().map(|number| format!("{number:.0}"))
}

/// The weather of a city.
#[derive(Clone, Debug, PartialEq, Eq)]
pub struct CityCond {
    pub text: String,
    pub precip: Precip,
    /// On the Beaufort scale.
    pub wind_level: u8,
    /// Where the wind blows from, in degrees, as a bit pattern.
    pub wind_dir: u64,
}

/// What could be read from an answer of the forecast service.
#[derive(Clone, Debug, PartialEq, Eq)]
pub struct Reading {
    pub code: Option<i64>,
    /// Wind speed in km/h, as a bit pattern and written out.
    pub wind: Option<u64>,
    pub wind_text: Option<String>,
    pub wind_dir: Option<u64>,
    /// Temperature in °C, written out.
    pub temp_text: Option<String>,
}

/// The code that was read, or one that no weather has.
pub open spec fn code_or_unknown(v: Option<i64>) -> i64 {
    match v {
        Some(v) => v,
        None => (-1) as i64,
    }
}

/// The pattern that was read, or that of zero.
pub open spec fn or_zero(v: Option<u64>) -> u64 {
    match v {
        Some(v) => v,
        None => 0,
    }
}

/// The text that was read, or that of zero.
pub open spec fn or_zero_text(v: Option<Seq<char>>) -> Seq<char> {
    match v {
        Some(v) => v,
        None => "0"@,
    }
}

/// The readout of a city's weather.
pub open spec fn readout(
    label: Seq<char>,
    code: i64,
    level: int,
    temp: Seq<char>,
    wind: Seq<char>,
) -> Seq<char> {
    description(code).0 + description(code).1 + " §f"@ + label + " §7"@ + temp + "°C · 风"@
        + int_text(level) + "级 "@ + wind + "km/h"@
}

/// `cond` is the weather of the city `label` at these readings. A code that is
/// missing counts as -1, any other number as zero.
pub open spec fn is_weather_of(
    cond: CityCond,
    label: Seq<char>,
    code: Option<i64>,
    wind: Option<u64>,
    wind_text: Option<Seq<char>>,
    wind_dir: Option<u64>,
    temp_text: Option<Seq<char>>,
) -> bool {
    let c = code_or_unknown(code);
    let level = level_of(or_zero(wind));
    &&& cond.text@ == readout(label, c, level, or_zero_text(temp_text), or_zero_text(wind_text))
    &&& cond.precip == precip_at(c)
    &&& cond.wind_level == level
    &&& cond.wind_dir == or_zero(wind_dir)
}

/// `cond` says that the weather of the city `label` could not be had, for the
/// reason `why`.
pub open spec fn is_fallback(cond: CityCond, label: Seq<char>, why: Seq<char>) -> bool {
    &&& cond.text@ == "§7"@ + label + " §c"@ + why
    &&& cond.precip == Precip::Clear
    &&& cond.wind_level == 0
    &&& cond.wind_dir == 0
}

/// The weather of the city `label` at these readings.
pub fn city_weather(label: &str, reading: Reading) -> (r: CityCond)
    ensures
        is_weather_of(
            r,
            label@,
            reading.code,
            reading.wind,
            text_of(reading.wind_text),
            reading.wind_dir,
            text_of(reading.temp_text),
        ),
{
    let code: i64 = match reading.code {
        Some(c) => c,
        None => -1,
    };
    let wind: u64 = match reading.wind {
        Some(w) => w,
        None => 0,
    };
    let wind_dir: u64 = match reading.wind_dir {
        Some(d) => d,
        None => 0,
    };
    let level: u8 = beaufort(wind);
    let (color, name) = describe(code);
    let mut text = color.to_owned();
    text.append(name);
    text.append(" §f");
    text.append(label);
    text.append(" §7");
    match reading.temp_text {
        Some(t) => text.append(t.as_str()),
        None => text.append("0"),
    }
    text.append("°C · 风");
    push_int(&mut text, level as i128);
    text.append("级 ");
    match reading.wind_text {
        Some(t) => text.append(t.as_str()),
        None => text.append("0"),
    }
    text.append("km/h");
    CityCond { text, precip: precip_of(code), wind_level: level, wind_dir }
}

/// That the weather of the city `label` could not be had.
fn fallback(label: &str, why: &str) -> (r: CityCond)
    ensures
        is_fallback(r, label@, why@),
{
    let mut text = "§7".to_owned();
    text.append(label);
    text.append(" §c");
    text.append(why);
    CityCond { text, precip: Precip::Clear, wind_level: 0, wind_dir: 0 }
}

/// Where to ask for the weather of a city at `lat`, `lon`, given in degrees.
pub fn city_url(lat: &str, lon: &str) -> (r: String)
    ensures
        r@ == "https://api.open-meteo.com/v1/forecast?latitude="@ + lat@ + "&longitude="@ + lon@
            + "&current=weather_code,wind_speed_10m,wind_direction_10m,temperature_2m&wind_speed_unit=kmh"@,
{
    let mut url = "https://api.open-meteo.com/v1/forecast?latitude=".to_owned();
    url.append(lat);
    url.append("&longitude=");
    url.append(lon);
    url.append(
        "&current=weather_code,wind_speed_10m,wind_direction_10m,temperature_2m&wind_speed_unit=kmh",
    );
    url
}

/// The weather of the city `label` by the answer of the forecast service; `None`
/// where there was none.
pub fn fetch_city(label: &str, body: Option<&str>) -> (r: CityCond)
    ensures
        match body {
            None => is_fallback(r, label@, "天气获取失败"@),
            Some(body) => if is_json(body@) {
                is_weather_of(
                    r,
                    label@,
                    json_int(body@, "current"@, "weather_code"@),
                    json_float(body@, "current"@, "wind_speed_10m"@),
                    rounded_reading(json_float(body@, "current"@, "wind_speed_10m"@)),
                    json_float(body@, "current"@, "wind_direction_10m"@),
                    rounded_reading(json_float(body@, "current"@, "temperature_2m"@)),
                )
            } else {
                is_fallback(r, label@, "天气解析失败"@)
            },
        },
{
    match body {
        None => fallback(label, "天气获取失败"),
        Some(body) => {
            if !check_json(body) {
                return fallback(label, "天气解析失败");
            }
            city_weather(
                label,
                Reading {
                    code: read_int(body, "current", "weather_code"),
                    wind: read_float(body, "current", "wind_speed_10m"),
                    wind_text: read_rounded(body, "current", "wind_speed_10m"),
                    wind_dir: read_float(body, "current", "wind_direction_10m"),
                    temp_text: read_rounded(body, "current", "temperature_2m"),
                },
            )
        },
    }
}

/// How many ticks pass between two questions for one player (five minutes).
pub const POLL_INTERVAL_TICKS: i64 = 6000;

/// The bit patterns of 39.9 and 116.4, the latitude and longitude of the default
/// city.
pub const DEFAULT_LAT: u64 = 0x4043_f333_3333_3333;

pub const DEFAULT_LON: u64 = 0x405d_1999_9999_999a;

/// A player's city and the weather that was last heard of there.
#[derive(Clone, Debug, PartialEq, Eq)]
pub struct CityWeather {
    pub label: String,
    /// In degrees, as a bit pattern.
    pub lat: u64,
    /// In degrees, as a bit pattern.
    pub lon: u64,
    pub text: String,
    pub precip: Precip,
    /// What the player's client was last told.
    pub applied_precip: Option<Precip>,
    pub wind_level: u8,
    pub wind_dir: u64,
    /// The tick from which on the weather is asked for again.
    pub next_poll: i64,
}

/// A change of the sky that a client is told about.
#[derive(Clone, Copy, PartialEq, Eq, Structural, Debug)]
pub enum SkyEvent {
    EndRaining,
    BeginRaining,
    RainLevelChange,
    ThunderLevelChange,
}

/// What a client is told about what falls from the sky, with the strength in
/// hundredths.
pub open spec fn sky_events(precip: Precip) -> Seq<(SkyEvent, u8)> {
    match precip {
        Precip::Clear => seq![(SkyEvent::EndRaining, 0u8), (SkyEvent::ThunderLevelChange, 0u8)],
        Precip::Rain => seq![
            (SkyEvent::BeginRaining, 0u8),
            (SkyEvent::RainLevelChange, 80u8),
            (SkyEvent::ThunderLevelChange, 0u8),
        ],
        Precip::Thunder => seq![
            (SkyEvent::BeginRaining, 0u8),
            (SkyEvent::RainLevelChange, 100u8),
            (SkyEvent::ThunderLevelChange, 85u8),
        ],
    }
}

/// What to tell a client about what falls from the sky.
pub fn send_precip(precip: Precip) -> (r: Vec<(SkyEvent, u8)>)
    ensures
        r@ == sky_events(precip),
{
    let r = match precip {
        Precip::Clear => vec![(SkyEvent::EndRaining, 0u8), (SkyEvent::ThunderLevelChange, 0u8)],
        Precip::Rain => vec![
            (SkyEvent::BeginRaining, 0u8),
            (SkyEvent::RainLevelChange, 80u8),
            (SkyEvent::ThunderLevelChange, 0u8),
        ],
        Precip::Thunder => vec![
            (SkyEvent::BeginRaining, 0u8),
            (SkyEvent::RainLevelChange, 100u8),
            (SkyEvent::ThunderLevelChange, 85u8),
        ],
    };
    assert(r@ =~= sky_events(precip));
    r
}

impl CityWeather {
    /// The default city, as far as nothing else is configured; nothing is known of
    /// its weather yet.
    pub fn new(label: Option<String>, lat: Option<u64>, lon: Option<u64>) -> (r: Self)
        ensures
            r.label@ == (match label {
                Some(l) => l@,
                None => "北京"@,
            }),
            r.lat == (match lat {
                Some(v) => v,
                None => DEFAULT_LAT,
            }),
            r.lon == (match lon {
                Some(v) => v,
                None => DEFAULT_LON,
            }),
            r.text@ == "§7天气加载中…"@,
            r.precip == Precip::Clear,
            r.applied_precip is None,
            r.wind_level == 0,
            r.wind_dir == 0,
            r.next_poll == 0,
    {
        CityWeather {
            label: match label {
                Some(l) => l,
                None => "北京".to_owned(),
            },
            lat: match lat {
                Some(v) => v,
                None => DEFAULT_LAT,
            },
            lon: match lon {
                Some(v) => v,
                None => DEFAULT_LON,
            },
            text: "§7天气加载中…".to_owned(),
            precip: Precip::Clear,
            applied_precip: None,
            wind_level: 0,
            wind_dir: 0,
            next_poll: 0,
        }
    }

    /// Whether the weather is to be asked for in the tick `tick`; if so, it will not
    /// be again for a while.
    pub fn poll_due(&mut self, tick: i64) -> (r: bool)
        requires
            tick <= i64::MAX - POLL_INTERVAL_TICKS,
        ensures
            r == (tick >= old(self).next_poll),
            r ==> final(self).next_poll == tick + 6000,
            *final(self) == (CityWeather {
                next_poll: if r {
                    (tick + POLL_INTERVAL_TICKS) as i64
                } else {
                    old(self).next_poll
                },
                ..*old(self)
            }),
    {
        if tick < self.next_poll {
            return false;
        }
        self.next_poll = tick + POLL_INTERVAL_TICKS;
        true
    }

    /// Takes in the weather that was heard of. Returns what to tell the client about
    /// the sky: nothing where that has not changed.
    pub fn apply_condition(&mut self, cond: CityCond) -> (r: Vec<(SkyEvent, u8)>)
        ensures
            *final(self) == (CityWeather {
                text: cond.text,
                precip: cond.precip,
                wind_level: cond.wind_level,
                wind_dir: cond.wind_dir,
                applied_precip: Some(cond.precip),
                ..*old(self)
            }),
            r@ == (if old(self).applied_precip == Some(cond.precip) {
                Seq::empty()
            } else {
                sky_events(cond.precip)
            }),
    {
        self.text = cond.text;
        self.precip = cond.precip;
        self.wind_level = cond.wind_level;
        self.wind_dir = cond.wind_dir;
        let changed = match self.applied_precip {
            Some(applied) => applied != cond.precip,
            None => true,
        };
        if changed {
            self.applied_precip = Some(cond.precip);
            send_precip(cond.precip)
        } else {
            Vec::new()
        }
    }

    /// Moves to another city, whose weather is asked for at once.
    pub fn apply_place(&mut self, lat: u64, lon: u64, label: String)
        ensures
            *final(self) == (CityWeather { lat, lon, label, next_poll: 0, ..*old(self) }),
    {
        self.lat = lat;
        self.lon = lon;
        self.label = label;
        self.next_poll = 0;
    }
}

/// Whether the readouts are shown in the tick `tick`: twice a second, and not
/// while the server's own weather has the screen.
pub fn city_hud(kind: WeatherKind, tick: i64) -> (r: bool)
    ensures
        r == (kind == WeatherKind::Calm && tick % 10 == 0),
{
    kind == WeatherKind::Calm && tick % 10 == 0
}

/// How many specks of dust the wind blows past a player in the tick `tick`: none
/// below a visible breeze (level 3).
pub fn wind_particles(tick: i64, wind_level: u8) -> (r: u8)
    ensures
        r == (if tick % 3 == 0 && wind_level >= 3 {
            wind_level
        } else {
            0
        }),
{
    if tick % 3 != 0 || wind_level < 3 {
        0
    } else {
        wind_level
    }
}

/// A client is told of every change of the sky, and of nothing twice: the news is
/// empty exactly where it already knows.
pub proof fn law_sky_is_told_once(known: Option<Precip>, precip: Precip)
    ensures
        sky_events(precip).len() > 0,
        (if known == Some(precip) {
            Seq::empty()
        } else {
            sky_events(precip)
        }).len() == 0 <==> known == Some(precip),
        forall|other: Precip| #[trigger] sky_events(other) == sky_events(precip) ==> other == precip,
{
    assert forall|other: Precip| #[trigger] sky_events(other) == sky_events(precip) implies other
        == precip by {
        let a = sky_events(other);
        let b = sky_events(precip);
        assert(a[0] == b[0] && a[1] == b[1]);
    }
}

/// What falls from the sky follows the codes of the forecast: thunder at the three codes of
/// a thunderstorm, rain at those of drizzle, rain, snow and showers, and nothing at any
/// other.
pub proof fn law_codes_decide_what_falls(code: i64)
    ensures
        precip_at(code) == Precip::Thunder <==> seq![95i64, 96, 99].contains(code),
        precip_at(code) == Precip::Rain <==> seq![
            51i64,
            53,
            55,
            56,
            57,
            61,
            63,
            65,
            66,
            67,
            71,
            73,
            75,
            77,
            80,
            81,
            82,
            85,
            86,
        ].contains(code),
        precip_at(code) == Precip::Thunder <==> condition(code, 0) != RealCond::Calm,
{
    let thunder = seq![95i64, 96, 99];
    assert(thunder[0] == 95 && thunder[1] == 96 && thunder[2] == 99);
    let wet = seq![
        51i64,
        53,
        55,
        56,
        57,
        61,
        63,
        65,
        66,
        67,
        71,
        73,
        75,
        77,
        80,
        81,
        82,
        85,
        86,
    ];
    assert(wet[0] == 51 && wet[1] == 53 && wet[2] == 55 && wet[3] == 56 && wet[4] == 57 && wet[5]
        == 61 && wet[6] == 63 && wet[7] == 65 && wet[8] == 66 && wet[9] == 67 && wet[10] == 71
        && wet[11] == 73 && wet[12] == 75 && wet[13] == 77 && wet[14] == 80 && wet[15] == 81
        && wet[16] == 82 && wet[17] == 85 && wet[18] == 86);
}

/// Each code has its words, and a code that no weather has is not known.
pub proof fn law_codes_have_their_words(code: i64)
    ensures
        code == 0 <==> description(code) == ("§e"@, "晴"@),
        1 <= code <= 3 ==> description(code) == ("§7"@, "多云"@),
        seq![45i64, 48].contains(code) ==> description(code) == ("§8"@, "雾"@),
        seq![51i64, 53, 55, 56, 57].contains(code) ==> description(code) == ("§9"@, "小雨"@),
        seq![61i64, 63, 65, 66, 67].contains(code) ==> description(code) == ("§9"@, "雨"@),
        seq![71i64, 73, 75, 77].contains(code) ==> description(code) == ("§f"@, "雪"@),
        seq![80i64, 81, 82].contains(code) ==> description(code) == ("§9"@, "阵雨"@),
        seq![85i64, 86].contains(code) ==> description(code) == ("§f"@, "阵雪"@),
        seq![95i64, 96, 99].contains(code) ==> description(code) == ("§c"@, "雷暴"@),
        code < 0 || code > 99 || 3 < code < 45 || 86 < code < 95 || 45 < code < 48 || 48 < code < 51
            || 57 < code < 61 || 67 < code < 71 || 77 < code < 80 || 82 < code < 85 || 96 < code < 99
            || code == 52 || code == 54 || code == 62 || code == 64 || code == 72 || code == 74 || code
            == 76 ==> description(code) == ("§7"@, "未知"@),
{
    reveal_strlit("晴");
    reveal_strlit("多云");
    reveal_strlit("雾");
    reveal_strlit("小雨");
    reveal_strlit("雨");
    reveal_strlit("雪");
    reveal_strlit("阵雨");
    reveal_strlit("阵雪");
    reveal_strlit("雷暴");
    reveal_strlit("未知");
    assert("晴"@[0] == '晴' && "多云"@[0] == '多' && "雾"@[0] == '雾' && "小雨"@[0] == '小' && "雨"@[0]
        == '雨' && "雪"@[0] == '雪' && "阵雨"@[0] == '阵' && "阵雪"@[0] == '阵' && "雷暴"@[0] == '雷'
        && "未知"@[0] == '未');
}

/// The words fit what falls: codes that are described alike bring the same from the sky, and
/// so what is called a thunderstorm thunders, and clear sky, clouds and fog stay dry.
pub proof fn law_description_fits_what_falls(code: i64, other: i64)
    ensures
        description(code) == description(other) ==> precip_at(code) == precip_at(other),
        description(code).1 == "雷暴"@ <==> precip_at(code) == Precip::Thunder,
        description(code).1 == "晴"@ || description(code).1 == "多云"@ || description(code).1 == "雾"@
            || description(code).1 == "未知"@ <==> precip_at(code) == Precip::Clear,
{
    reveal_strlit("晴");
    reveal_strlit("多云");
    reveal_strlit("雾");
    reveal_strlit("小雨");
    reveal_strlit("雨");
    reveal_strlit("雪");
    reveal_strlit("阵雨");
    reveal_strlit("阵雪");
    reveal_strlit("雷暴");
    reveal_strlit("未知");
    assert("晴"@[0] == '晴' && "多云"@[0] == '多' && "雾"@[0] == '雾' && "小雨"@[0] == '小' && "雨"@[0]
        == '雨' && "雪"@[0] == '雪' && "阵雨"@[0] == '阵' && "阵雪"@[0] == '阵' && "雷暴"@[0] == '雷'
        && "未知"@[0] == '未');
}

/// The sky that a client is shown is that of the weather: it rains exactly where something
/// falls, harder in a thunderstorm, and it thunders only there. How hard it thunders is
/// always told last, so that it stops when the storm has passed.
pub proof fn law_sky_shows_what_falls(precip: Precip)
    ensures
        ({
            let told = sky_events(precip);
            &&& told.len() > 0 && told.last().0 == SkyEvent::ThunderLevelChange
            &&& told.last().1 > 0 <==> precip == Precip::Thunder
            &&& told[0].0 == SkyEvent::EndRaining <==> precip == Precip::Clear
            &&& told[0].0 == SkyEvent::BeginRaining <==> precip != Precip::Clear
            &&& precip != Precip::Clear ==> told.len() == 3 && told[1].0 == SkyEvent::RainLevelChange
                && 0 < told[1].1 <= 100
            &&& precip == Precip::Clear ==> told.len() == 2
            &&& precip == Precip::Thunder ==> told[1].1 > sky_events(Precip::Rain)[1].1
        }),
{
}

/// The readout holds the city's name, the temperature, the wind's level and its speed, as
/// they were read, behind the description of the weather; what is missing counts as zero, and
/// a missing code is weather that is not known.
pub proof fn law_readout_holds_the_readings(
    cond: CityCond,
    label: Seq<char>,
    code: Option<i64>,
    wind: Option<u64>,
    wind_text: Option<Seq<char>>,
    wind_dir: Option<u64>,
    temp_text: Option<Seq<char>>,
)
    requires
        is_weather_of(cond, label, code, wind, wind_text, wind_dir, temp_text),
    ensures
        ({
            let temp = temp_text.unwrap_or("0"@);
            let speed = wind_text.unwrap_or("0"@);
            let words = description(code.unwrap_or((-1) as i64));
            &&& (words.0 + words.1 + " §f"@ + label + " §7"@ + temp).is_prefix_of(cond.text@)
            &&& (int_text(cond.wind_level as int) + "级 "@ + speed + "km/h"@).is_suffix_of(cond.text@)
        }),
        code is None ==> cond.precip == Precip::Clear && description((-1) as i64).1 == "未知"@,
        code matches Some(c) ==> cond.precip == precip_at(c),
        wind is None ==> cond.wind_level == 0,
        wind matches Some(w) ==> cond.wind_level == level_of(w),
        wind_dir is None ==> cond.wind_dir == 0,
        wind_dir matches Some(d) ==> cond.wind_dir == d,
{
    law_level_is_reached(0, 1);
    let temp = or_zero_text(temp_text);
    let speed = or_zero_text(wind_text);
    let words = description(code_or_unknown(code));
    let front = words.0 + words.1 + " §f"@ + label + " §7"@ + temp;
    let level = level_of(or_zero(wind));
    let back = int_text(level) + "级 "@ + speed + "km/h"@;
    assert(cond.text@ =~= front + "°C · 风"@ + back);
    assert(front =~= cond.text@.take(front.len() as int));
    assert(back =~= cond.text@.skip(cond.text@.len() - back.len()));
}

/// A reading is taken as it is, and one that is missing stays missing.
pub proof fn law_reading_is_taken_as_it_is(text: String, bits: u64)
    ensures
        text_of(Some(text)) == Some(text@),
        text_of(None) is None,
        rounded_reading(Some(bits)) == Some(rounded(bits)),
        rounded_reading(None) is None,
{
}

} // verus!
