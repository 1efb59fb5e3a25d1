use hyperion::actions::Outgoing;
use hyperion::block::BlockState;
use hyperion::blocks::Blocks;
use hyperion::chunk::{Column, ColumnData};
use hyperion::cityweather::{
    city_hud, city_url, city_weather, describe, fetch_city, precip_of, send_precip, wind_particles,
    CityCond, CityWeather, Precip, Reading, SkyEvent, DEFAULT_LAT, DEFAULT_LON,
};
use hyperion::command::{
    apply_command, geocode, geocode_url, place_read, urlencode, Apply, SetCityCommand, WeatherCommand,
};
use hyperion::forecast::{
    apply_real_weather, beaufort, classify, classify_read, follows_real_weather, real_condition,
    storm_url, RealCond,
};
use hyperion::pos::{I16Vec2, IVec3};
use hyperion::persist::EditStore;
use hyperion::weather::{
    cleanup_bolt, damage, lightning_at, lightning_strikes, lightning_target, strike_column, weather_tick, Pulse,
    Weather, WeatherKind, LIGHTNING_TTL,
};

const PLANKS: BlockState = BlockState { raw: 15 };
const STONE: BlockState = BlockState { raw: 1 };

fn bits(v: f64) -> u64 {
    v.to_bits()
}

fn world() -> Blocks {
    let (store, _) = EditStore::open(String::new(), None);
    let mut blocks = Blocks::new(Some(store));
    blocks.load_pending(vec![Column::new(
        I16Vec2::new(0, 0),
        ColumnData::filled(BlockState::air()),
        Vec::new(),
    )]);
    blocks
}

#[test]
fn weather_starts_within_bounds() {
    let mut weather = Weather::default();
    assert_eq!(weather.kind, WeatherKind::Calm);
    assert!(weather.auto_follow);
    weather.start(WeatherKind::Storm, 0, 60);
    assert_eq!((weather.intensity, weather.ticks_left, weather.next_pulse), (1, 1200, 0));
    weather.start(WeatherKind::Quake, 200, 30);
    assert_eq!((weather.kind, weather.intensity, weather.ticks_left), (WeatherKind::Quake, 12, 600));
    weather.persist_damage = true;
    weather.calm();
    assert_eq!((weather.kind, weather.intensity, weather.ticks_left), (WeatherKind::Calm, 0, 0));
    assert!(weather.persist_damage);
}

#[test]
fn a_storm_runs_its_course() {
    let mut weather = Weather::default();
    assert_eq!(weather_tick(&mut weather).hud, None);
    weather.start(WeatherKind::Storm, 3, 1);
    let mut shown = Vec::new();
    let mut pulses = Vec::new();
    for tick in 0..21 {
        let r = weather_tick(&mut weather);
        if let Some(text) = r.hud {
            shown.push((tick, text));
        }
        if let Some(pulse) = r.pulse {
            pulses.push((tick, pulse));
        }
    }
    assert_eq!(
        shown,
        vec![
            (9, "§c⚡ Storm Lv3 §8[▰▰▰▱▱▱▱▱▱▱▱▱§c§8] §70s".to_string()),
            (19, "§c⚡ Storm Lv3 §8[▰▰▰▱▱▱▱▱▱▱▱▱§c§8] §70s".to_string()),
            (20, "§aThe weather has calmed.".to_string()),
        ]
    );
    assert_eq!(
        pulses,
        vec![(0, Pulse { kind: WeatherKind::Storm, intensity: 3, hits: 2, persist: false })]
    );
    assert_eq!(weather.kind, WeatherKind::Calm);
}

#[test]
fn pulses_come_faster_at_higher_intensity() {
    for (level, gap) in [(1u8, 37u32), (5, 25), (11, 7), (12, 5)] {
        let mut weather = Weather::default();
        weather.start(WeatherKind::Quake, level, 100);
        assert!(weather_tick(&mut weather).pulse.is_some());
        for _ in 1..gap {
            assert!(weather_tick(&mut weather).pulse.is_none());
        }
        assert!(weather_tick(&mut weather).pulse.is_some());
    }
}

#[test]
fn the_readout_of_a_quake() {
    let mut weather = Weather::default();
    weather.start(WeatherKind::Quake, 12, 2);
    weather.ticks_left = 31;
    assert_eq!(
        weather_tick(&mut weather).hud.unwrap(),
        "§6§6☶§r Quake Lv12 §8[▰▰▰▰▰▰▰▰▰▰▰▰§6§8] §71s"
    );
}

#[test]
fn lightning_strikes_near_a_player() {
    let pulse = |kind, intensity| Pulse { kind, intensity, hits: 1, persist: false };
    assert!(lightning_strikes(pulse(WeatherKind::Storm, 8), 7));
    assert!(!lightning_strikes(pulse(WeatherKind::Storm, 8), 8));
    assert!(!lightning_strikes(pulse(WeatherKind::Quake, 12), 0));
    assert_eq!(lightning_at(pulse(WeatherKind::Storm, 8), 3, 7, 2), Some(2));
    assert_eq!(lightning_at(pulse(WeatherKind::Storm, 8), 3, 8, 2), None);
    assert_eq!(lightning_at(pulse(WeatherKind::Storm, 8), 0, 0, 0), None);
    assert_eq!(lightning_at(pulse(WeatherKind::Quake, 12), 3, 0, 2), None);
    let mut struck = 0;
    for _ in 0..2000 {
        if let Some(i) = lightning_target(pulse(WeatherKind::Storm, 12), 3) {
            assert!(i < 3);
            struck += 1;
        }
        assert_eq!(lightning_target(pulse(WeatherKind::Storm, 12), 0), None);
        assert_eq!(lightning_target(pulse(WeatherKind::Quake, 12), 3), None);
        assert_eq!(lightning_target(pulse(WeatherKind::Storm, 60), 1), Some(0));
        assert!(lightning_target(pulse(WeatherKind::Storm, 255), 3).is_some());
    }
    assert!(struck > 0 && struck < 2000);
}

#[test]
fn bolts_fade() {
    let mut ttl = LIGHTNING_TTL;
    let mut ticks = 0;
    while let Some(left) = cleanup_bolt(ttl) {
        ttl = left;
        ticks += 1;
    }
    assert_eq!(ticks, 10);
}

#[test]
fn a_storm_takes_the_topmost_built_block() {
    let mut blocks = world();
    for y in [64, 70, 80, 91] {
        blocks.set_block(IVec3::new(3, y, 3), PLANKS).unwrap();
    }
    blocks.set_block(IVec3::new(3, 85, 3), STONE).unwrap();
    blocks.save_edits();
    let mut out = Vec::new();
    strike_column(&mut blocks, &mut out, WeatherKind::Storm, false, 3, 3);
    assert_eq!(blocks.get_block(IVec3::new(3, 80, 3)), Some(BlockState::air()));
    assert_eq!(blocks.get_block(IVec3::new(3, 85, 3)), Some(STONE));
    assert_eq!(
        out,
        vec![Outgoing::BlockUpdate {
            chunk: I16Vec2::new(0, 0),
            pos: IVec3::new(3, 80, 3),
            state: BlockState::air()
        }]
    );
    assert!(blocks.save_edits().is_none());
    strike_column(&mut blocks, &mut out, WeatherKind::Storm, true, 3, 3);
    strike_column(&mut blocks, &mut out, WeatherKind::Storm, true, 3, 3);
    assert_eq!(out.len(), 2);
    assert_eq!(blocks.get_block(IVec3::new(3, 64, 3)), Some(PLANKS));
    assert_eq!(blocks.get_block(IVec3::new(3, 91, 3)), Some(PLANKS));
    assert!(blocks.save_edits().is_some());
}

#[test]
fn a_quake_gnaws_at_the_foundations() {
    let mut blocks = world();
    for y in [59, 60, 66, 67] {
        blocks.set_block(IVec3::new(0, y, 0), PLANKS).unwrap();
    }
    let pulse = Pulse { kind: WeatherKind::Quake, intensity: 5, hits: 3, persist: false };
    let out = damage(&mut blocks, pulse, &vec![(0, 0), (0, 0), (0, 0), (500, 500)]);
    assert_eq!(out.len(), 2);
    assert_eq!(blocks.get_block(IVec3::new(0, 66, 0)), Some(BlockState::air()));
    assert_eq!(blocks.get_block(IVec3::new(0, 60, 0)), Some(BlockState::air()));
    assert_eq!(blocks.get_block(IVec3::new(0, 59, 0)), Some(PLANKS));
    assert_eq!(blocks.get_block(IVec3::new(0, 67, 0)), Some(PLANKS));
}

#[test]
fn wind_is_measured_on_the_beaufort_scale() {
    let limits = [1.0, 6.0, 12.0, 20.0, 29.0, 39.0, 50.0, 62.0, 75.0, 89.0, 103.0, 118.0];
    for (i, limit) in limits.iter().enumerate() {
        assert_eq!(beaufort(bits(*limit)), i as u8 + 1);
        assert_eq!(beaufort(bits(*limit - 0.001)), i as u8);
        assert_eq!(beaufort(bits(*limit + 0.001)), i as u8 + 1);
    }
    let mut last = 0;
    for tenths in 0..2000 {
        let level = beaufort(bits(f64::from(tenths) / 10.0));
        assert!(level >= last);
        last = level;
    }
    assert_eq!(beaufort(bits(0.0)), 0);
    assert_eq!(beaufort(bits(-0.0)), 0);
    assert_eq!(beaufort(bits(-50.0)), 0);
    assert_eq!(beaufort(bits(f64::NAN)), 0);
    assert_eq!(beaufort(bits(-f64::NAN)), 0);
    assert_eq!(beaufort(bits(f64::INFINITY)), 12);
    assert_eq!(beaufort(bits(f64::NEG_INFINITY)), 0);
}

#[test]
fn real_weather_is_classified() {
    assert_eq!(classify(0, bits(10.0)), RealCond::Calm);
    assert_eq!(classify(0, bits(38.9)), RealCond::Calm);
    assert_eq!(classify(0, bits(39.0)), RealCond::Storm(6));
    assert_eq!(classify(95, bits(0.0)), RealCond::Storm(8));
    assert_eq!(classify(99, bits(120.0)), RealCond::Storm(12));
    assert_eq!(classify(97, bits(0.0)), RealCond::Calm);
    assert_eq!(classify_read(None, None), RealCond::Calm);
    assert_eq!(classify_read(Some(96), None), RealCond::Storm(8));
}

#[test]
fn answers_of_the_forecast_service_are_read() {
    let body = "{\"current\":{\"weather_code\":95,\"wind_speed_10m\":80.5}}";
    assert_eq!(real_condition(body), Some(RealCond::Storm(9)));
    let body = "{\"current\":{\"weather_code\":3,\"wind_speed_10m\":55}}";
    assert_eq!(real_condition(body), Some(RealCond::Storm(7)));
    assert_eq!(real_condition("{}"), Some(RealCond::Calm));
    assert_eq!(real_condition("[1,2]"), Some(RealCond::Calm));
    assert_eq!(real_condition("{\"current\":{\"weather_code\":95.5}}"), Some(RealCond::Calm));
    assert_eq!(real_condition("<html>"), None);
    assert_eq!(real_condition(""), None);
    assert_eq!(
        storm_url("39.9", "116.4"),
        "https://api.open-meteo.com/v1/forecast?latitude=39.9&longitude=116.4&current=weather_code,wind_speed_10m&wind_speed_unit=kmh"
    );
    assert!(follows_real_weather(None));
    assert!(follows_real_weather(Some("on")));
    assert!(!follows_real_weather(Some("off")));
}

#[test]
fn weather_follows_the_real_one_unless_told_not_to() {
    let mut weather = Weather::default();
    apply_real_weather(&mut weather, &vec![RealCond::Calm, RealCond::Storm(9)]);
    assert_eq!((weather.kind, weather.intensity, weather.ticks_left), (WeatherKind::Storm, 9, 7200));
    apply_real_weather(&mut weather, &vec![RealCond::Storm(0)]);
    assert_eq!(weather.intensity, 1);
    apply_real_weather(&mut weather, &vec![RealCond::Calm]);
    assert_eq!(weather.kind, WeatherKind::Calm);
    weather.auto_follow = false;
    let before = weather;
    apply_real_weather(&mut weather, &vec![RealCond::Storm(12)]);
    assert_eq!(weather, before);
}

#[test]
fn the_weather_command() {
    let run = |action: &str, arg: Option<&str>| {
        WeatherCommand { action: action.to_string(), arg: arg.map(str::to_string) }.execute()
    };
    assert_eq!(
        run("storm", None),
        (Apply::Start(WeatherKind::Storm, 12, 60), "§c⚡ Summoned a level 12 storm (60s)".to_string())
    );
    assert_eq!(run("storm", Some("4")).0, Apply::Start(WeatherKind::Storm, 4, 60));
    assert_eq!(run("storm", Some("0")).0, Apply::Start(WeatherKind::Storm, 1, 60));
    assert_eq!(run("storm", Some("99")).0, Apply::Start(WeatherKind::Storm, 12, 60));
    assert_eq!(run("storm", Some("999")).0, Apply::Start(WeatherKind::Storm, 12, 60));
    assert_eq!(run("quake", Some("x")).0, Apply::Start(WeatherKind::Quake, 10, 30));
    assert_eq!(run("quake", Some("7")).1, "§6☶ Summoned a level 7 quake (30s)");
    assert_eq!(run("calm", Some("1")), (Apply::Calm, "§aThe weather has calmed.".to_string()));
    for on in ["on", "true", "1"] {
        assert_eq!(run("persist", Some(on)).0, Apply::Persist(true));
        assert_eq!(run("auto", Some(on)).0, Apply::Auto(true));
    }
    assert_eq!(
        run("persist", Some("on")).1,
        "§eDamage mode: §cpermanent §e(ruins persist across restart)"
    );
    assert_eq!(
        run("persist", None),
        (
            Apply::Persist(false),
            "§eDamage mode: §arestoring §e(world heals on restart)".to_string()
        )
    );
    assert_eq!(
        run("auto", Some("1")).1,
        "§eEnabled §areal-world weather follow §e(polled every 5 min)"
    );
    assert_eq!(
        run("auto", Some("yes")),
        (
            Apply::Auto(false),
            "§eDisabled real-world weather follow §7(manual commands only)".to_string()
        )
    );
    assert_eq!(
        run("Storm", None),
        (
            Apply::Noop,
            "§cUnknown usage: Storm. Available: storm|quake|calm|persist|auto".to_string()
        )
    );
}

#[test]
fn commands_change_the_weather() {
    let mut weather = Weather::default();
    apply_command(&mut weather, Apply::Start(WeatherKind::Quake, 10, 30));
    assert_eq!((weather.kind, weather.ticks_left), (WeatherKind::Quake, 600));
    apply_command(&mut weather, Apply::Persist(true));
    apply_command(&mut weather, Apply::Auto(false));
    apply_command(&mut weather, Apply::Noop);
    assert!(weather.persist_damage && !weather.auto_follow);
    apply_command(&mut weather, Apply::Calm);
    assert_eq!(weather.kind, WeatherKind::Calm);
}

#[test]
fn codes_mean_rain_or_thunder() {
    for code in -5..110 {
        let expected = match code {
            95 | 96 | 99 => Precip::Thunder,
            51 | 53 | 55 | 56 | 57 | 61 | 63 | 65 | 66 | 67 | 71 | 73 | 75 | 77 | 80 | 81 | 82 | 85 | 86 => {
                Precip::Rain
            }
            _ => Precip::Clear,
        };
        assert_eq!(precip_of(code), expected, "{code}");
    }
    assert_eq!(describe(0), ("§e", "晴"));
    assert_eq!(describe(2), ("§7", "多云"));
    assert_eq!(describe(45), ("§8", "雾"));
    assert_eq!(describe(55), ("§9", "小雨"));
    assert_eq!(describe(63), ("§9", "雨"));
    assert_eq!(describe(75), ("§f", "雪"));
    assert_eq!(describe(81), ("§9", "阵雨"));
    assert_eq!(describe(86), ("§f", "阵雪"));
    assert_eq!(describe(99), ("§c", "雷暴"));
    assert_eq!(describe(-1), ("§7", "未知"));
}

#[test]
fn a_city_is_read_out() {
    let body = "{\"current\":{\"weather_code\":61,\"wind_speed_10m\":22.6,\"wind_direction_10m\":270.5,\"temperature_2m\":-3.4}}";
    let cond = fetch_city("上海", Some(body));
    assert_eq!(cond.text, "§9雨 §f上海 §7-3°C · 风4级 23km/h");
    assert_eq!(cond.precip, Precip::Rain);
    assert_eq!(cond.wind_level, 4);
    assert_eq!(f64::from_bits(cond.wind_dir), 270.5);
    let cond = fetch_city("X", Some("{}"));
    assert_eq!(cond.text, "§7未知 §fX §70°C · 风0级 0km/h");
    let cond = fetch_city("X", Some("oops"));
    assert_eq!(cond.text, "§7X §c天气解析失败");
    assert_eq!((cond.precip, cond.wind_level, cond.wind_dir), (Precip::Clear, 0, 0));
    assert_eq!(fetch_city("X", None).text, "§7X §c天气获取失败");
    let reading = Reading {
        code: Some(0),
        wind: Some(bits(6.0)),
        wind_text: Some("6".to_string()),
        wind_dir: None,
        temp_text: Some("21".to_string()),
    };
    assert_eq!(city_weather("A", reading).text, "§e晴 §fA §721°C · 风2级 6km/h");
    assert_eq!(
        city_url("1", "-2.5"),
        "https://api.open-meteo.com/v1/forecast?latitude=1&longitude=-2.5&current=weather_code,wind_speed_10m,wind_direction_10m,temperature_2m&wind_speed_unit=kmh"
    );
}

#[test]
fn the_sky_is_told_once() {
    let mut city = CityWeather::new(None, None, None);
    assert_eq!(city.label, "北京");
    assert_eq!(city.text, "§7天气加载中…");
    assert_eq!((city.lat, city.lon), (bits(39.9), bits(116.4)));
    assert_eq!((DEFAULT_LAT, DEFAULT_LON), (bits(39.9), bits(116.4)));
    let cond = |precip| CityCond { text: "t".to_string(), precip, wind_level: 3, wind_dir: 9 };
    assert_eq!(
        city.apply_condition(cond(Precip::Rain)),
        vec![
            (SkyEvent::BeginRaining, 0),
            (SkyEvent::RainLevelChange, 80),
            (SkyEvent::ThunderLevelChange, 0)
        ]
    );
    assert_eq!(city.apply_condition(cond(Precip::Rain)), vec![]);
    assert_eq!(city.apply_condition(cond(Precip::Clear)), send_precip(Precip::Clear));
    assert_eq!(
        send_precip(Precip::Clear),
        vec![(SkyEvent::EndRaining, 0), (SkyEvent::ThunderLevelChange, 0)]
    );
    assert_eq!(
        send_precip(Precip::Thunder),
        vec![
            (SkyEvent::BeginRaining, 0),
            (SkyEvent::RainLevelChange, 100),
            (SkyEvent::ThunderLevelChange, 85)
        ]
    );
    assert_eq!((city.wind_level, city.wind_dir, city.text.as_str()), (3, 9, "t"));
}

#[test]
fn cities_are_polled_every_five_minutes() {
    let mut city = CityWeather::new(Some("Y".to_string()), Some(1), Some(2));
    assert!(city.poll_due(10));
    assert!(!city.poll_due(6009));
    assert!(city.poll_due(6010));
    city.apply_place(5, 6, "Z".to_string());
    assert_eq!((city.lat, city.lon, city.label.as_str()), (5, 6, "Z"));
    assert!(city.poll_due(6011));
    assert!(city_hud(WeatherKind::Calm, 20));
    assert!(!city_hud(WeatherKind::Calm, 21));
    assert!(!city_hud(WeatherKind::Storm, 20));
    assert_eq!(wind_particles(9, 5), 5);
    assert_eq!(wind_particles(9, 2), 0);
    assert_eq!(wind_particles(10, 5), 0);
    assert_eq!(wind_particles(-3, 5), 5);
}

#[test]
fn names_are_written_into_urls() {
    assert_eq!(urlencode("Az09-_.~"), "Az09-_.~");
    assert_eq!(urlencode("New York"), "New%20York");
    assert_eq!(urlencode("北"), "%E5%8C%97");
    assert_eq!(urlencode("a/b?c=d&e%"), "a%2Fb%3Fc%3Dd%26e%25");
    assert_eq!(
        geocode_url("São"),
        "https://geocoding-api.open-meteo.com/v1/search?name=S%C3%A3o&count=1&language=zh"
    );
}

#[test]
fn names_in_urls_can_be_read_back() {
    let every_byte: Vec<char> = (0u8..=255).map(char::from).collect();
    let s: String = every_byte.into_iter().collect();
    let encoded = urlencode(&s);
    let mut bytes = Vec::new();
    let text = encoded.as_bytes();
    let mut i = 0;
    while i < text.len() {
        if text[i] == b'%' {
            bytes.push(u8::from_str_radix(&encoded[i + 1..i + 3], 16).unwrap());
            i += 3;
        } else {
            bytes.push(text[i]);
            i += 1;
        }
    }
    assert_eq!(bytes, s.as_bytes());
}

#[test]
fn a_city_is_looked_up() {
    let run = |words: &[&str]| SetCityCommand { name: words.iter().map(|w| w.to_string()).collect() }.execute();
    let outcome = run(&["New", "York"]);
    assert_eq!(outcome.lookup.as_deref(), Some("New York"));
    assert_eq!(outcome.reply, "§e正在查询 §fNew York §e的天气…");
    let outcome = run(&[" "]);
    assert_eq!(outcome.lookup, None);
    assert_eq!(outcome.reply, "§c用法:/setcity <城市名>");

    let body = "{\"results\":[{\"latitude\":40.5,\"longitude\":-74,\"name\":\"纽约\"},{\"latitude\":1}]}";
    let place = geocode("New York", Some(body)).unwrap();
    assert_eq!((place.lat, place.lon), (bits(40.5), bits(-74.0)));
    assert_eq!(place.name, "纽约");
    let place = geocode("Nowhere", Some("{\"results\":[{\"latitude\":1,\"longitude\":2}]}")).unwrap();
    assert_eq!(place.name, "Nowhere");
    assert_eq!(geocode("X", Some("{\"results\":[{\"latitude\":1}]}")), None);
    assert_eq!(geocode("X", Some("{\"results\":[]}")), None);
    assert_eq!(geocode("X", Some("{}")), None);
    assert_eq!(geocode("X", Some("nothing")), None);
    assert_eq!(geocode("X", None), None);
    assert_eq!(place_read("A", Some(1), None, None), None);
    assert_eq!(place_read("A", Some(1), Some(2), Some("B".to_string())).unwrap().name, "B");
}
