use windows_island::i18n::I18n;
use windows_island::text::{bytes_equal, concat3, push_decimal, str_eq, str_eq_ignore_ascii_case};
use windows_island::weather::{
    parse_i32, weather_from_response, weather_url, IntParseError, WeatherCache, WeatherInfo,
    WttrArea, WttrCurrent, WttrResponse, WttrValue, WEATHER_TTL_NANOS,
};

#[test]
fn english_lookups() {
    let i18n = I18n::new("en");
    assert_eq!(i18n.t("weather.title"), "Weather");
    assert_eq!(i18n.t("app.name"), "Nimbo");
    assert_eq!(i18n.t("media.no_media"), "No media playing");
    assert_eq!(i18n.t("settings.theme_glass"), "Glass");
    assert_eq!(i18n.t("tray.show_hide"), "Show / Hide");
}

#[test]
fn spanish_lookups() {
    let mut i18n = I18n::new("en");
    i18n.set_locale("es");
    assert_eq!(i18n.locale(), "es");
    assert_eq!(i18n.t("weather.title"), "Clima");
    assert_eq!(i18n.t("weather.feels_like"), "Sensación térmica");
    assert_eq!(i18n.t("stats.title"), "Estadísticas del sistema");
    assert_eq!(i18n.t("settings.title"), "Configuración");
}

#[test]
fn every_table_key_resolves_in_both_locales() {
    let rows = [
        ("app.name", "Nimbo", "Nimbo"),
        ("app.loading", "Loading...", "Cargando..."),
        ("app.error", "Error", "Error"),
        ("weather.title", "Weather", "Clima"),
        ("weather.feels_like", "Feels like", "Sensación térmica"),
        ("weather.humidity", "Humidity", "Humedad"),
        ("weather.wind", "Wind", "Viento"),
        ("weather.loading", "Loading weather...", "Cargando clima..."),
        ("weather.error", "Could not load weather", "No se pudo cargar el clima"),
        ("media.title", "Now Playing", "Reproduciendo"),
        ("media.no_media", "No media playing", "Sin medios en reproducción"),
        ("media.play", "Play", "Reproducir"),
        ("media.pause", "Pause", "Pausar"),
        ("media.next", "Next", "Siguiente"),
        ("media.previous", "Previous", "Anterior"),
        ("stats.title", "System Stats", "Estadísticas del sistema"),
        ("stats.cpu", "CPU", "CPU"),
        ("stats.memory", "Memory", "Memoria"),
        ("stats.disk", "Disk", "Disco"),
        ("stats.network", "Network", "Red"),
        ("tray.show_hide", "Show / Hide", "Mostrar / Ocultar"),
        ("tray.quit", "Quit", "Salir"),
        ("settings.title", "Settings", "Configuración"),
        ("settings.language", "Language", "Idioma"),
        ("settings.theme", "Theme", "Tema"),
        ("settings.theme_light", "Light", "Claro"),
        ("settings.theme_dark", "Dark", "Oscuro"),
        ("settings.theme_glass", "Glass", "Cristal"),
    ];
    let mut i18n = I18n::new("en");
    for (key, en, _) in rows {
        assert_eq!(i18n.t(key), en, "{key}");
    }
    i18n.set_locale("es");
    for (key, _, es) in rows {
        assert_eq!(i18n.t(key), es, "{key}");
    }
}

#[test]
fn unknown_locale_uses_english() {
    let i18n = I18n::new("fr");
    assert_eq!(i18n.locale(), "fr");
    assert_eq!(i18n.t("media.pause"), "Pause");
    let d = I18n::default();
    assert_eq!(d.locale(), "en");
    assert_eq!(d.t("stats.cpu"), "CPU");
}

#[test]
fn missing_or_non_text_keys_give_the_key() {
    let i18n = I18n::new("es");
    assert_eq!(i18n.t("weather.sunny"), "weather.sunny");
    assert_eq!(i18n.t("weather"), "weather");
    assert_eq!(i18n.t("weather.title.extra"), "weather.title.extra");
    assert_eq!(i18n.t(""), "");
    assert_eq!(i18n.t("weather..title"), "weather..title");
    assert_eq!(i18n.t(".weather.title"), ".weather.title");
}

#[test]
fn string_helpers() {
    assert!(bytes_equal(b"abc", b"abc"));
    assert!(!bytes_equal(b"abc", b"abd"));
    assert!(!bytes_equal(b"abc", b"ab"));
    assert!(str_eq("añb", "añb"));
    assert!(!str_eq("a", "A"));
    assert!(str_eq_ignore_ascii_case("Explorer.EXE", "explorer.exe"));
    assert!(!str_eq_ignore_ascii_case("Ä", "ä"));
    assert_eq!(concat3("a", "bc", "d"), "abcd");
    let mut s = "n=".to_string();
    push_decimal(&mut s, 0);
    push_decimal(&mut s, 18446744073709551615);
    assert_eq!(s, "n=018446744073709551615");
}

#[test]
fn parse_i32_matches_std() {
    for s in [
        "0", "42", "-7", "+15", "2147483647", "-2147483648", "2147483648", "-2147483649", "", "-",
        "+", "1a", " 1", "00012", "+-1", "99999999999", "-99999999999", "12é",
    ] {
        let expected = s.parse::<i32>();
        let got = parse_i32(s);
        match (expected, got) {
            (Ok(a), Ok(b)) => assert_eq!(a, b, "{s}"),
            (Err(e), Err(k)) => assert_eq!(e.to_string(), k.message(), "{s}"),
            (a, b) => panic!("{s}: std {:?}, library {:?}", a, b),
        }
    }
    assert_eq!(parse_i32(""), Err(IntParseError::Empty));
    assert_eq!(parse_i32("4x"), Err(IntParseError::InvalidDigit));
    assert_eq!(parse_i32("3000000000"), Err(IntParseError::PosOverflow));
    assert_eq!(parse_i32("-3000000000"), Err(IntParseError::NegOverflow));
}

#[test]
fn weather_urls() {
    assert_eq!(weather_url(""), "https://wttr.in/?format=j1");
    assert_eq!(weather_url("auto"), "https://wttr.in/?format=j1");
    assert_eq!(weather_url("London"), "https://wttr.in/London?format=j1");
    assert_eq!(weather_url("New York"), "https://wttr.in/New%20York?format=j1");
    assert_eq!(weather_url("São Paulo"), "https://wttr.in/S%C3%A3o%20Paulo?format=j1");
    assert_eq!(weather_url("a-b_c.d~e/f"), "https://wttr.in/a-b_c.d~e%2Ff?format=j1");
}

fn value(s: &str) -> WttrValue {
    WttrValue { value: s.to_string() }
}

fn current(temp: &str, feels: &str, humidity: &str, wind: &str) -> WttrCurrent {
    WttrCurrent {
        temp_c: temp.to_string(),
        feels_like_c: feels.to_string(),
        humidity: humidity.to_string(),
        windspeed_kmph: wind.to_string(),
        weather_desc: vec![value("Partly cloudy"), value("ignored")],
        weather_code: "116".to_string(),
    }
}

#[test]
fn weather_record_from_reply() {
    let resp = WttrResponse {
        current_condition: vec![current("21", "20", "64", "11")],
        nearest_area: vec![WttrArea { area_name: vec![value("Madrid")] }],
    };
    let w = weather_from_response(&resp, "madrid").unwrap();
    assert_eq!(w.temp_c, 21);
    assert_eq!(w.feels_like_c, 20);
    assert_eq!(w.humidity, 64);
    assert_eq!(w.wind_kmph, 11);
    assert_eq!(w.description, "Partly cloudy");
    assert_eq!(w.icon_code, "116");
    assert_eq!(w.city, "Madrid");
}

#[test]
fn weather_record_fallbacks() {
    let mut cur = current("-3", "n/a", "", "x");
    cur.weather_desc.clear();
    let resp = WttrResponse { current_condition: vec![cur], nearest_area: vec![] };
    let w = weather_from_response(&resp, "Oslo").unwrap();
    assert_eq!(w.temp_c, -3);
    assert_eq!(w.feels_like_c, -3);
    assert_eq!(w.humidity, 0);
    assert_eq!(w.wind_kmph, 0);
    assert_eq!(w.description, "");
    assert_eq!(w.city, "Oslo");

    let resp = WttrResponse {
        current_condition: vec![current("5", "5", "5", "5")],
        nearest_area: vec![WttrArea { area_name: vec![] }],
    };
    assert_eq!(weather_from_response(&resp, "Lima").unwrap().city, "Lima");
}

#[test]
fn weather_record_errors() {
    let resp = WttrResponse { current_condition: vec![], nearest_area: vec![] };
    assert_eq!(weather_from_response(&resp, "x").unwrap_err(), "No current condition");
    let resp = WttrResponse { current_condition: vec![current("warm", "1", "1", "1")], nearest_area: vec![] };
    assert_eq!(weather_from_response(&resp, "x").unwrap_err(), "invalid digit found in string");
    let resp = WttrResponse { current_condition: vec![current("", "1", "1", "1")], nearest_area: vec![] };
    assert_eq!(weather_from_response(&resp, "x").unwrap_err(), "cannot parse integer from empty string");
}

fn sample_info() -> WeatherInfo {
    WeatherInfo {
        temp_c: 18,
        description: "Sunny".to_string(),
        icon_code: "113".to_string(),
        city: "Quito".to_string(),
        humidity: 40,
        feels_like_c: 17,
        wind_kmph: 9,
    }
}

#[test]
fn cache_serves_until_half_an_hour() {
    let mut cache = WeatherCache::new();
    assert!(cache.fresh(0).is_none());
    cache.store(sample_info(), 1_000);
    let hit = cache.fresh(1_000 + WEATHER_TTL_NANOS - 1).unwrap();
    assert_eq!(hit.city, "Quito");
    assert_eq!(hit.temp_c, 18);
    assert!(cache.fresh(1_000 + WEATHER_TTL_NANOS).is_none());
    assert!(cache.fresh(500).is_some());
    assert_eq!(WEATHER_TTL_NANOS, 1800 * 1_000_000_000);
}

#[test]
fn weather_info_duplicates() {
    let w = sample_info();
    let d = w.duplicate();
    assert_eq!(d.description, w.description);
    assert_eq!(d.wind_kmph, w.wind_kmph);
}

#[test]
fn set_locale_answers_as_a_fresh_instance() {
    let mut i18n = I18n::new("en");
    i18n.set_locale("es");
    let fresh = I18n::new("es");
    for key in ["weather.title", "app.loading", "tray.quit", "weather", "nope.key", "", "a.b.c"] {
        assert_eq!(i18n.t(key), fresh.t(key), "{key}");
    }
}
