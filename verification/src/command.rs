//! The commands about weather that players can use.

use vstd::prelude::*;
use vstd::utf8::encode_utf8;

use crate::text::{
    byte_text_value, int_text, join, joined, law_byte_reads_back, parse_byte, push_int, same_text,
    texts, trim, trimmed,
};
use crate::weather::{clamp_level, clamped, Weather, WeatherKind};

verus! {

/// The `/weather` command: `storm`, `quake`, `calm`, `persist` or `auto`, and for
/// most of them a word more.
#[derive(Clone, Debug, PartialEq, Eq)]
pub struct WeatherCommand {
    pub action: String,
    pub arg: Option<String>,
}

/// What a command does to the weather.
#[derive(Clone, Copy, PartialEq, Eq, Structural, Debug)]
pub enum Apply {
    Start(WeatherKind, u8, u32),
    Calm,
    Persist(bool),
    Auto(bool),
    Noop,
}

/// The level that a word asks for, or `default`, brought into the range from 1 to
/// 12.
pub open spec fn level_asked(arg: Option<Seq<char>>, default: u8) -> u8 {
    clamp_level(
        match arg {
            Some(s) => match byte_text_value(s) {
                Some(v) => v,
                None => default,
            },
            None => default,
        },
    )
}

/// Whether a word turns something on.
pub open spec fn turns_on(arg: Option<Seq<char>>) -> bool {
    arg matches Some(s) && (s == "on"@ || s == "true"@ || s == "1"@)
}

/// What the command does.
pub open spec fn asked_for(action: Seq<char>, arg: Option<Seq<char>>) -> Apply {
    if action == "storm"@ {
        Apply::Start(WeatherKind::Storm, level_asked(arg, 12), 60)
    } else if action == "quake"@ {
        Apply::Start(WeatherKind::Quake, level_asked(arg, 10), 30)
    } else if action == "calm"@ {
        Apply::Calm
    } else if action == "persist"@ {
        Apply::Persist(turns_on(arg))
    } else if action == "auto"@ {
        Apply::Auto(turns_on(arg))
    } else {
        Apply::Noop
    }
}

/// What the player is told.
pub open spec fn weather_reply(action: Seq<char>, apply: Apply) -> Seq<char> {
    match apply {
        Apply::Start(kind, level, _) => if kind == WeatherKind::Storm {
            "§c⚡ Summoned a level "@ + int_text(level as int) + " storm (60s)"@
        } else {
            "§6☶ Summoned a level "@ + int_text(level as int) + " quake (30s)"@
        },
        Apply::Calm => "§aThe weather has calmed."@,
        Apply::Persist(on) => if on {
            "§eDamage mode: §cpermanent §e(ruins persist across restart)"@
        } else {
            "§eDamage mode: §arestoring §e(world heals on restart)"@
        },
        Apply::Auto(on) => if on {
            "§eEnabled §areal-world weather follow §e(polled every 5 min)"@
        } else {
            "§eDisabled real-world weather follow §7(manual commands only)"@
        },
        Apply::Noop => "§cUnknown usage: "@ + action
            + ". Available: storm|quake|calm|persist|auto"@,
    }
}

/// What an optional word holds.
pub open spec fn word(arg: Option<String>) -> Option<Seq<char>> {
    match arg {
        Some(s) => Some(s@),
        None => None,
    }
}

fn int_arg(arg: &Option<String>, default: u8) -> (r: u8)
    ensures
        r == level_asked(word(*arg), default),
{
    match arg {
        Some(s) => match parse_byte(s.as_str()) {
            Some(v) => clamped(v),
            None => clamped(default),
        },
        None => clamped(default),
    }
}

fn switched_on(arg: &Option<String>) -> (r: bool)
    ensures
        r == turns_on(word(*arg)),
{
    match arg {
        Some(s) => same_text(s.as_str(), "on") || same_text(s.as_str(), "true") || same_text(
            s.as_str(),
            "1",
        ),
        None => false,
    }
}

impl WeatherCommand {
    /// What the command does to the weather, and what the player is told.
    pub fn execute(self) -> (r: (Apply, String))
        ensures
            r.0 == asked_for(self.action@, word(self.arg)),
            r.1@ == weather_reply(self.action@, r.0),
    {
        let action = self.action.as_str();
        if same_text(action, "storm") {
            let level: u8 = int_arg(&self.arg, 12);
            let mut reply = "§c⚡ Summoned a level ".to_owned();
            push_int(&mut reply, level as i128);
            reply.append(" storm (60s)");
            (Apply::Start(WeatherKind::Storm, level, 60), reply)
        } else if same_text(action, "quake") {
            let level: u8 = int_arg(&self.arg, 10);
            let mut reply = "§6☶ Summoned a level ".to_owned();
            push_int(&mut reply, level as i128);
            reply.append(" quake (30s)");
            (Apply::Start(WeatherKind::Quake, level, 30), reply)
        } else if same_text(action, "calm") {
            (Apply::Calm, "§aThe weather has calmed.".to_owned())
        } else if same_text(action, "persist") {
            let on = switched_on(&self.arg);
            let reply = if on {
                "§eDamage mode: §cpermanent §e(ruins persist across restart)"
            } else {
                "§eDamage mode: §arestoring §e(world heals on restart)"
            };
            (Apply::Persist(on), reply.to_owned())
        } else if same_text(action, "auto") {
            let on = switched_on(&self.arg);
            let reply = if on {
                "§eEnabled §areal-world weather follow §e(polled every 5 min)"
            } else {
                "§eDisabled real-world weather follow §7(manual commands only)"
            };
            (Apply::Auto(on), reply.to_owned())
        } else {
            let mut reply = "§cUnknown usage: ".to_owned();
            reply.append(action);
            reply.append(". Available: storm|quake|calm|persist|auto");
            (Apply::Noop, reply)
        }
    }
}

/// The weather once a command was applied.
pub open spec fn commanded(w: Weather, apply: Apply) -> Weather {
    match apply {
        Apply::Start(kind, level, seconds) => w.started(kind, level, seconds),
        Apply::Calm => w.calmed(),
        Apply::Persist(on) => Weather { persist_damage: on, ..w },
        Apply::Auto(on) => Weather { auto_follow: on, ..w },
        Apply::Noop => w,
    }
}

/// Applies a command to the weather.
pub fn apply_command(weather: &mut Weather, apply: Apply)
    requires
        old(weather).wf(),
        apply matches Apply::Start(_, _, seconds) ==> seconds * 20 <= u32::MAX,
    ensures
        final(weather).wf(),
        *final(weather) == commanded(*old(weather), apply),
{
    match apply {
        Apply::Start(kind, level, seconds) => {
            weather.start(kind, level, seconds);
        },
        Apply::Calm => {
            weather.calm();
        },
        Apply::Persist(on) => {
            weather.persist_damage = on;
        },
        Apply::Auto(on) => {
            weather.auto_follow = on;
        },
        Apply::Noop => {},
    }
}

/// Whatever a player types, the weather stays within its bounds, and an event that
/// a command starts lasts a minute at most.
pub proof fn law_commands_keep_weather_in_bounds(
    w: Weather,
    action: Seq<char>,
    arg: Option<Seq<char>>,
)
    requires
        w.wf(),
    ensures
        commanded(w, asked_for(action, arg)).wf(),
        asked_for(action, arg) matches Apply::Start(_, level, seconds) ==> 1 <= level <= 12
            && seconds <= 60,
{
}

/// The `/setcity` command: everything behind it is the name of a city.
#[derive(Clone, Debug, PartialEq, Eq)]
pub struct SetCityCommand {
    pub name: Vec<String>,
}

/// What a use of the `/setcity` command comes to.
#[derive(Clone, Debug, PartialEq, Eq)]
pub struct SetCityOutcome {
    /// What the player is told.
    pub reply: String,
    /// The name to look up, if any.
    pub lookup: Option<String>,
}

impl SetCityCommand {
    /// What to tell the player, and which city to look up.
    pub fn execute(self) -> (r: SetCityOutcome)
        ensures
            ({
                let name = joined(texts(self.name@), " "@);
                if trimmed(name).len() == 0 {
                    r.lookup is None && r.reply@ == "§c用法:/setcity <城市名>"@
                } else {
                    &&& r.lookup matches Some(city)
                    &&& city@ == name
                    &&& r.reply@ == "§e正在查询 §f"@ + name + " §e的天气…"@
                }
            }),
    {
        let name = join(&self.name, " ");
        let rest = trim(name.as_str());
        let blank = same_text(rest.as_str(), "");
        proof {
            reveal_strlit("");
            if rest@.len() == 0 {
                assert(rest@ =~= ""@);
            }
        }
        if blank {
            return SetCityOutcome { reply: "§c用法:/setcity <城市名>".to_owned(), lookup: None };
        }
        let mut reply = "§e正在查询 §f".to_owned();
        reply.append(name.as_str());
        reply.append(" §e的天气…");
        SetCityOutcome { reply, lookup: Some(name) }
    }
}

/// Whether a byte stands for itself in a URL.
pub open spec fn unreserved(b: u8) -> bool {
    ||| 0x41 <= b <= 0x5a
    ||| 0x61 <= b <= 0x7a
    ||| 0x30 <= b <= 0x39
    ||| b == 0x2d
    ||| b == 0x5f
    ||| b == 0x2e
    ||| b == 0x7e
}

/// The digit that stands for `n` in upper case hexadecimal.
pub open spec fn hex_digit(n: int) -> char {
    if n < 10 {
        (0x30 + n) as char
    } else {
        (0x41 + n - 10) as char
    }
}

/// One byte in a URL.
pub open spec fn url_byte(b: u8) -> Seq<char> {
    if unreserved(b) {
        seq![b as char]
    } else {
        seq!['%', hex_digit(b as int / 16), hex_digit(b as int % 16)]
    }
}

/// Bytes in a URL.
pub open spec fn url_text(bytes: Seq<u8>) -> Seq<char>
    decreases bytes.len(),
{
    if bytes.len() == 0 {
        Seq::empty()
    } else {
        url_text(bytes.drop_last()) + url_byte(bytes.last())
    }
}

fn hex(n: u8) -> (r: char)
    requires
        n < 16,
    ensures
        r == hex_digit(n as int),
{
    if n < 10 {
        (0x30 + n) as char
    } else {
        (0x41 + (n - 10)) as char
    }
}

/// Writes `s` so that it can stand in a URL as the value of a query: the bytes of
/// its UTF-8 form, as they are or behind a percent sign.
pub fn urlencode(s: &str) -> (r: String)
    ensures
        r@ == url_text(encode_utf8(s@)),
{
    let bytes = s.as_bytes();
    let mut out = String::new();
    let mut i: usize = 0;
    assert(bytes@.take(0) =~= Seq::empty());
    while i < bytes.len()
        invariant
            i <= bytes@.len(),
            out@ == url_text(bytes@.take(i as int)),
        decreases bytes@.len() - i,
    {
        let b: u8 = bytes[i];
        let ghost before = out@;
        if (0x41 <= b && b <= 0x5a) || (0x61 <= b && b <= 0x7a) || (0x30 <= b && b <= 0x39) || b
            == 0x2d || b == 0x5f || b == 0x2e || b == 0x7e {
            out.push(b as char);
        } else {
            out.push('%');
            out.push(hex(b / 16));
            out.push(hex(b % 16));
        }
        proof {
            let more = bytes@.take(i + 1);
            assert(more.drop_last() =~= bytes@.take(i as int));
            assert(more.last() == b);
            assert(out@ =~= before + url_byte(b));
        }
        i += 1;
    }
    assert(bytes@.take(bytes@.len() as int) =~= bytes@);
    out
}

/// The number that a hexadecimal digit stands for.
pub open spec fn hex_value(c: char) -> int {
    if c as int <= 0x39 {
        c as int - 0x30
    } else {
        c as int - 0x41 + 10
    }
}

/// The bytes that a text in a URL stands for.
pub open spec fn url_bytes(text: Seq<char>) -> Seq<u8>
    decreases text.len(),
{
    if text.len() == 0 {
        Seq::empty()
    } else if text[0] == '%' && text.len() >= 3 {
        seq![(hex_value(text[1]) * 16 + hex_value(text[2])) as u8] + url_bytes(text.skip(3))
    } else {
        seq![text[0] as u8] + url_bytes(text.skip(1))
    }
}

/// One byte in front of a text in a URL.
proof fn lemma_url_byte_first(b: u8, rest: Seq<char>)
    ensures
        url_bytes(url_byte(b) + rest) == seq![b] + url_bytes(rest),
{
    let text = url_byte(b) + rest;
    if unreserved(b) {
        assert(text[0] == b as char);
        assert(text.skip(1) =~= rest);
        assert((b as char) as u8 == b);
        assert(b != 0x25);
    } else {
        assert(text[0] == '%');
        assert(text.skip(3) =~= rest);
        assert(text[1] == hex_digit(b as int / 16) && text[2] == hex_digit(b as int % 16));
        assert(hex_value(text[1]) == b as int / 16 && hex_value(text[2]) == b as int % 16);
    }
}

proof fn lemma_url_text_first(bytes: Seq<u8>)
    requires
        bytes.len() > 0,
    ensures
        url_text(bytes) == url_byte(bytes[0]) + url_text(bytes.skip(1)),
    decreases bytes.len(),
{
    if bytes.len() == 1 {
        assert(bytes.drop_last() =~= Seq::empty());
        assert(bytes.skip(1) =~= Seq::empty());
        reveal_with_fuel(url_text, 2);
        assert(url_text(bytes) =~= url_byte(bytes[0]) + url_text(bytes.skip(1)));
    } else {
        let front = bytes.drop_last();
        lemma_url_text_first(front);
        assert(front.skip(1) =~= bytes.skip(1).drop_last());
        assert(bytes.skip(1).last() == bytes.last());
        assert(url_text(bytes) =~= url_byte(bytes[0]) + url_text(bytes.skip(1)));
    }
}

/// What was written into a URL can be read back: no two names look the same
/// there.
pub proof fn law_urlencode_is_reversible(bytes: Seq<u8>)
    ensures
        url_bytes(url_text(bytes)) == bytes,
    decreases bytes.len(),
{
    if bytes.len() > 0 {
        lemma_url_text_first(bytes);
        law_urlencode_is_reversible(bytes.skip(1));
        lemma_url_byte_first(bytes[0], url_text(bytes.skip(1)));
        assert(seq![bytes[0]] + bytes.skip(1) =~= bytes);
    }
}

/// Where to look a city up.
pub fn geocode_url(name: &str) -> (r: String)
    ensures
        r@ == "https://geocoding-api.open-meteo.com/v1/search?name="@ + url_text(encode_utf8(name@))
            + "&count=1&language=zh"@,
{
    let mut url = "https://geocoding-api.open-meteo.com/v1/search?name=".to_owned();
    url.append(urlencode(name).as_str());
    url.append("&count=1&language=zh");
    url
}

/// The bit pattern of the number at `key` of the first entry of the array `list`
/// of the JSON text `body`, if there is one.
pub uninterp spec fn first_float(body: Seq<char>, list: Seq<char>, key: Seq<char>) -> Option<u64>;

/// The string at `key` of the first entry of the array `list` of the JSON text
/// `body`, if there is one.
pub uninterp spec fn first_text(
    body: Seq<char>,
    list: Seq<char>,
    key: Seq<char>,
) -> Option<Seq<char>>;

/// `serde_json::from_str` into a `Value`, and `Value::as_f64` of what stands at
/// `key` of the first entry of `list`, as its bit pattern: `None` where `body` is
/// not JSON, where nothing stands there, or where it is not a number.
#[verifier::external_body]
fn read_first_float(body: &str, list: &str, key: &str) -> (r: Option<u64>)
    ensures
        r == first_float(body@, list@, key@),
{
    let value: serde_json::Value = serde_json::from_str(body).ok()?;
    value[list].get(0)?[key].as_f64().map(|number| number.to_bits())
}

/// `serde_json::from_str` into a `Value`, and `Value::as_str` of what stands at
/// `key` of the first entry of `list`: `None` where `body` is not JSON, where
/// nothing stands there, or where it is not a string.
#[verifier::external_body]
fn read_first_text(body: &str, list: &str, key: &str) -> (r: Option<String>)
    ensures
        word(r) == first_text(body@, list@, key@),
{
    let value: serde_json::Value = serde_json::from_str(body).ok()?;
    value[list].get(0)?[key].as_str().map(|text| text.to_string())
}

/// A place that was looked up: where it is, as bit patterns of degrees, and what
/// it is called.
#[derive(Clone, Debug, PartialEq, Eq)]
pub struct Place {
    pub lat: u64,
    pub lon: u64,
    pub name: String,
}

/// `place` is what looking up `name` comes to, for what could be read from the
/// answer: there is none without both coordinates, and it keeps the name it was
/// looked up by where the answer names none.
pub open spec fn is_place(
    place: Option<Place>,
    name: Seq<char>,
    lat: Option<u64>,
    lon: Option<u64>,
    resolved: Option<Seq<char>>,
) -> bool {
    match (lat, lon) {
        (Some(lat), Some(lon)) => {
            &&& place matches Some(p)
            &&& p.lat == lat
            &&& p.lon == lon
            &&& p.name@ == match resolved {
                Some(r) => r,
                None => name,
            }
        },
        _ => place is None,
    }
}

/// The place that could be read from an answer.
pub fn place_read(
    name: &str,
    lat: Option<u64>,
    lon: Option<u64>,
    resolved: Option<String>,
) -> (r: Option<Place>)
    ensures
        is_place(r, name@, lat, lon, word(resolved)),
{
    match (lat, lon) {
        (Some(lat), Some(lon)) => Some(
            Place {
                lat,
                lon,
                name: match resolved {
                    Some(resolved) => resolved,
                    None => name.to_owned(),
                },
            },
        ),
        _ => None,
    }
}

/// The place called `name`, by the answer of the service that was asked for it;
/// `None` where there was no answer, or none could be read from it.
pub fn geocode(name: &str, body: Option<&str>) -> (r: Option<Place>)
    ensures
        match body {
            Some(body) => is_place(
                r,
                name@,
                first_float(body@, "results"@, "latitude"@),
                first_float(body@, "results"@, "longitude"@),
                first_text(body@, "results"@, "name"@),
            ),
            None => r is None,
        },
{
    match body {
        Some(body) => place_read(
            name,
            read_first_float(body, "results", "latitude"),
            read_first_float(body, "results", "longitude"),
            read_first_text(body, "results", "name"),
        ),
        None => None,
    }
}

/// A level that a player types as a number is the level of the event, brought into the
/// range of the scale; whatever else is typed, or nothing, asks for the usual level.
pub proof fn law_typed_level_is_used(n: nat, arg: Option<Seq<char>>)
    ensures
        1 <= n <= 12 ==> asked_for("storm"@, Some(int_text(n as int))) == Apply::Start(
            WeatherKind::Storm,
            n as u8,
            60,
        ),
        1 <= n <= 12 ==> asked_for("quake"@, Some(int_text(n as int))) == Apply::Start(
            WeatherKind::Quake,
            n as u8,
            30,
        ),
        12 < n <= 255 ==> asked_for("storm"@, Some(int_text(n as int))) == asked_for(
            "storm"@,
            Some(int_text(12)),
        ) && asked_for("quake"@, Some(int_text(n as int))) == asked_for(
            "quake"@,
            Some(int_text(12)),
        ),
        (arg matches Some(s) ==> byte_text_value(s) is None) ==> asked_for("storm"@, arg)
            == Apply::Start(WeatherKind::Storm, 12, 60) && asked_for("quake"@, arg) == Apply::Start(
            WeatherKind::Quake,
            10,
            30,
        ),
{
    reveal_strlit("storm");
    reveal_strlit("quake");
    assert("storm"@[0] == 's' && "quake"@[0] == 'q');
    law_byte_reads_back(n, Seq::empty());
    law_byte_reads_back(12, Seq::empty());
}

/// A setting is switched on by just three words, and changes nothing else about the
/// weather; an unknown command changes nothing.
pub proof fn law_settings_change_one_thing(
    w: Weather,
    on: bool,
    action: Seq<char>,
    arg: Option<Seq<char>>,
)
    ensures
        commanded(w, Apply::Persist(on)).persist_damage == on,
        commanded(w, Apply::Persist(on)) == (Weather {
            persist_damage: on,
            kind: w.kind,
            intensity: w.intensity,
            ticks_left: w.ticks_left,
            auto_follow: w.auto_follow,
            next_pulse: w.next_pulse,
        }),
        commanded(w, Apply::Auto(on)) == (Weather {
            auto_follow: on,
            kind: w.kind,
            intensity: w.intensity,
            ticks_left: w.ticks_left,
            persist_damage: w.persist_damage,
            next_pulse: w.next_pulse,
        }),
        turns_on(arg) <==> arg == Some("on"@) || arg == Some("true"@) || arg == Some("1"@),
        action != "storm"@ && action != "quake"@ && action != "calm"@ && action != "persist"@
            && action != "auto"@ ==> commanded(w, asked_for(action, arg)) == w,
        action != "storm"@ && action != "quake"@ ==> !(asked_for(action, arg) is Start),
{
}

/// A name is written into a URL byte by byte: letters, digits and the four plain signs
/// stand for themselves, every other byte is a percent sign and its two digits in upper
/// case hexadecimal.
pub proof fn law_urlencode_goes_byte_by_byte(bytes: Seq<u8>, b: u8)
    ensures
        url_text(bytes) == bytes.map_values(|b: u8| url_byte(b)).flatten(),
        ({
            let plain = ('A' as int <= b <= 'Z' as int) || ('a' as int <= b <= 'z' as int) || (
            '0' as int <= b <= '9' as int) || b == '-' as int || b == '_' as int || b == '.' as int
                || b == '~' as int;
            &&& plain ==> url_byte(b).len() == 1 && url_byte(b)[0] as int == b
            &&& !plain ==> {
                &&& url_byte(b).len() == 3 && url_byte(b)[0] == '%'
                &&& exists|high: int, low: int|
                    0 <= high < 16 && 0 <= low < 16 && b == high * 16 + low && url_byte(b)[1] == (
                    #[trigger] "0123456789ABCDEF"@[high]) && url_byte(b)[2] == (
                    #[trigger] "0123456789ABCDEF"@[low])
            }
        }),
    decreases bytes.len(),
{
    let pieces = bytes.map_values(|b: u8| url_byte(b));
    if bytes.len() > 0 {
        let fewer = bytes.drop_last();
        law_urlencode_goes_byte_by_byte(fewer, b);
        let before = fewer.map_values(|b: u8| url_byte(b));
        assert(pieces =~= before.push(url_byte(bytes.last())));
        before.lemma_flatten_push(url_byte(bytes.last()));
    } else {
        assert(pieces =~= Seq::empty());
    }
    reveal_strlit("0123456789ABCDEF");
    let high = b as int / 16;
    let low = b as int % 16;
    if !unreserved(b) {
        assert(url_byte(b)[1] == "0123456789ABCDEF"@[high] && url_byte(b)[2]
            == "0123456789ABCDEF"@[low]);
    }
}

/// The player is told the level that the event really has, and which way a setting was
/// switched.
pub proof fn law_reply_tells_what_happens(action: Seq<char>, level: u8, seconds: u32)
    ensures
        weather_reply(action, Apply::Start(WeatherKind::Storm, level, seconds))
            == "§c⚡ Summoned a level "@ + int_text(level as int) + " storm (60s)"@,
        weather_reply(action, Apply::Start(WeatherKind::Quake, level, seconds))
            == "§6☶ Summoned a level "@ + int_text(level as int) + " quake (30s)"@,
        weather_reply(action, Apply::Persist(true)) != weather_reply(action, Apply::Persist(false)),
        weather_reply(action, Apply::Auto(true)) != weather_reply(action, Apply::Auto(false)),
        action.len() > 0 ==> weather_reply(action, Apply::Noop) != weather_reply(
            Seq::empty(),
            Apply::Noop,
        ),
{
    reveal_strlit("§eDamage mode: §cpermanent §e(ruins persist across restart)");
    reveal_strlit("§eDamage mode: §arestoring §e(world heals on restart)");
    reveal_strlit("§eEnabled §areal-world weather follow §e(polled every 5 min)");
    reveal_strlit("§eDisabled real-world weather follow §7(manual commands only)");
    assert("§eDamage mode: §cpermanent §e(ruins persist across restart)"@[16] == 'c');
    assert("§eDamage mode: §arestoring §e(world heals on restart)"@[16] == 'a');
    assert("§eEnabled §areal-world weather follow §e(polled every 5 min)"@[2] == 'E');
    assert("§eDisabled real-world weather follow §7(manual commands only)"@[2] == 'D');
    assert(weather_reply(action, Apply::Noop).len() == weather_reply(Seq::empty(), Apply::Noop).len()
        + action.len());
}

/// A place needs both coordinates, and keeps them; its name is the one that the answer gives,
/// or else the one that was looked up.
pub proof fn law_place_needs_both_coordinates(
    place: Option<Place>,
    name: Seq<char>,
    lat: Option<u64>,
    lon: Option<u64>,
    resolved: Option<Seq<char>>,
)
    requires
        is_place(place, name, lat, lon, resolved),
    ensures
        place is Some <==> lat is Some && lon is Some,
        place matches Some(p) ==> Some(p.lat) == lat && Some(p.lon) == lon,
        place matches Some(p) ==> (resolved matches Some(r) ==> p.name@ == r) && (resolved is None
            ==> p.name@ == name),
{
}

/// What is typed behind a command is taken as it is.
pub proof fn law_word_is_what_was_typed(typed: String)
    ensures
        word(Some(typed)) == Some(typed@),
        word(None) is None,
{
}

} // verus!
