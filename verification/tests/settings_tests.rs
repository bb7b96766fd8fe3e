use mini_system_monitor::encode::{encode_png, load_icon, load_image, png_data_url};
use mini_system_monitor::frame::Frame;
use mini_system_monitor::paths::{config_yaml_path, join_path, resolve_theme_path, theme_dir, theme_yaml_path, themes_root};
use mini_system_monitor::settings::{
    city_label, city_search_url, config_text, elevated_create_command, elevated_delete_command, elevated_outcome,
    folder_choice, settings_from_yaml, sid_from_whoami, startup_delay_text, stop_outcome, task_name, task_xml,
    theme_name, urlencoding_simple, yaml_bool, yaml_str, yaml_u64, ConfigSettings,
};
use mini_system_monitor::yaml::{YamlNumber, YamlValue};

fn s(v: &str) -> YamlValue {
    YamlValue::String(v.to_string())
}
fn u(v: u64) -> YamlValue {
    YamlValue::Number(YamlNumber::PosInt(v))
}
fn map(es: Vec<(&str, YamlValue)>) -> YamlValue {
    YamlValue::Mapping(es.into_iter().map(|(k, v)| (s(k), v)).collect())
}

fn unescape(t: &str) -> Vec<u8> {
    let b = t.as_bytes();
    let mut out = Vec::new();
    let mut i = 0;
    while i < b.len() {
        if b[i] == b'%' && i + 2 < b.len() {
            out.push(u8::from_str_radix(&t[i + 1..i + 3], 16).unwrap());
            i += 3;
        } else {
            out.push(b[i]);
            i += 1;
        }
    }
    out
}

#[test]
fn defaults_are_the_shipped_settings() {
    let d = ConfigSettings::defaults();
    assert_eq!((d.com_port.as_str(), d.theme.as_str(), d.ping.as_str()), ("AUTO", "NexusMeter", "8.8.8.8"));
    assert_eq!((d.brightness, d.startup_delay, d.weather_units.as_str()), (20, 30, "metric"));
    assert!(!d.run_on_startup && !d.show_console && d.eth.is_empty());
}

#[test]
fn settings_read_tolerantly() {
    let y = map(vec![
        ("config", map(vec![("COM_PORT", s("COM7")), ("THEME", u(5)), ("ETH", s("eth0"))])),
        ("display", map(vec![("BRIGHTNESS", u(250)), ("SHOW_CONSOLE", YamlValue::Bool(true))])),
        ("startup", map(vec![("DELAY", u(4294967306)), ("RUN_ON_STARTUP", s("true"))])),
        ("lhm", map(vec![("LHM_PATH", s("C:/LHM"))])),
    ]);
    let c = settings_from_yaml(&y);
    assert_eq!(c.com_port, "COM7");
    assert_eq!(c.theme, "NexusMeter");
    assert_eq!(c.eth, "eth0");
    assert_eq!(c.brightness, 100);
    assert!(c.show_console);
    assert!(!c.run_on_startup);
    assert_eq!(c.startup_delay, 10);
    assert_eq!(c.lhm_path, "C:/LHM");
    let e = settings_from_yaml(&YamlValue::Null);
    assert_eq!(e.com_port, "AUTO");
    assert_eq!(yaml_str(&y, &["config", "ETH"]).as_deref(), Some("eth0"));
    assert_eq!(yaml_u64(&y, &["display", "BRIGHTNESS"]), Some(250));
    assert_eq!(yaml_bool(&y, &["display", "SHOW_CONSOLE"]), Some(true));
    assert_eq!(yaml_bool(&y, &["display"]), None);
}

#[test]
fn tagged_values_are_looked_through() {
    let y = map(vec![("config", YamlValue::Tagged(Box::new(map(vec![("PING", YamlValue::Tagged(Box::new(s("1.1.1.1"))))]))))]);
    assert_eq!(settings_from_yaml(&y).ping, "1.1.1.1");
}

#[test]
fn settings_file_text() {
    let c = ConfigSettings::defaults();
    let t = config_text(&c, "41.01", "28.95");
    assert!(t.starts_with("---\nconfig:\n"));
    assert!(t.contains("  COM_PORT: 'AUTO'\n"));
    assert!(t.contains("  WEATHER_LATITUDE: 41.01\n  WEATHER_LONGITUDE: 28.95\n"));
    assert!(t.contains("  BRIGHTNESS: 20\n"));
    assert!(t.contains("  DISPLAY_REVERSE: false\n"));
    assert!(t.contains("  DELAY: 30\n"));
    assert!(t.ends_with("  LHM_PATH: ''\n"));
}

#[test]
fn startup_task_pieces() {
    assert_eq!(startup_delay_text(0), "PT0S");
    assert_eq!(startup_delay_text(45), "PT45S");
    assert_eq!(startup_delay_text(99999), "PT3600S");
    assert_eq!(task_name(), "MiniSystemMonitor");
    let x = task_xml("PT5S", "S-1-5-21-1", "C:\\m.exe", "C:\\");
    assert!(x.starts_with("<?xml version=\"1.0\" encoding=\"UTF-16\"?>\n"));
    assert!(x.contains("<URI>\\MiniSystemMonitor</URI>"));
    assert!(x.contains("<Delay>PT5S</Delay>"));
    assert!(x.contains("<UserId>S-1-5-21-1</UserId>"));
    assert!(x.contains("<Command>C:\\m.exe</Command>\n      <WorkingDirectory>C:\\</WorkingDirectory>"));
    assert!(x.ends_with("</Task>"));
    assert_eq!(
        elevated_create_command("C:\\it's\\t.xml"),
        "Start-Process schtasks -ArgumentList '/create','/xml','\"C:\\it''s\\t.xml\"','/tn','\"MiniSystemMonitor\"','/f' -Verb RunAs -Wait -WindowStyle Hidden"
    );
    assert!(elevated_delete_command().contains("'/delete','/tn'"));
}

#[test]
fn sid_parsing() {
    assert_eq!(sid_from_whoami("\"host\\me\",\"S-1-5-21-123-456\"\r\n"), "S-1-5-21-123-456");
    assert_eq!(sid_from_whoami("garbage"), "S-1-5-32-545");
    assert_eq!(sid_from_whoami(""), "S-1-5-32-545");
}

#[test]
fn small_outcomes() {
    assert_eq!(folder_choice(true, "  C:\\LHM \r\n"), Some("C:\\LHM".to_string()));
    assert_eq!(folder_choice(true, "\n"), None);
    assert_eq!(folder_choice(false, "C:\\x"), None);
    assert!(stop_outcome(true).is_ok());
    assert_eq!(stop_outcome(false), Err("Monitor not running or already stopped".to_string()));
    assert!(elevated_outcome(true, true).is_ok());
    assert_eq!(elevated_outcome(true, false).unwrap_err(), "Failed to create scheduled task (UAC elevation was denied or failed)");
    assert_eq!(elevated_outcome(false, false).unwrap_err(), "Failed to remove scheduled task");
    assert_eq!(theme_name(""), "NexusMeter");
    assert_eq!(theme_name("Dark"), "Dark");
}

#[test]
fn url_escaping() {
    assert_eq!(urlencoding_simple("New York"), "New%20York");
    assert_eq!(urlencoding_simple("a-b_c.d~"), "a-b_c.d~");
    assert_eq!(urlencoding_simple("İzmir"), "%C4%B0zmir");
    assert_eq!(urlencoding_simple("100%"), "100%25");
    for t in ["São Paulo", "a+b=c&d", "%%", ""] {
        assert_eq!(unescape(&urlencoding_simple(t)), t.as_bytes().to_vec());
    }
}

#[test]
fn city_search() {
    assert_eq!(city_search_url("   "), None);
    assert_eq!(
        city_search_url("  Los Angeles "),
        Some("https://geocoding-api.open-meteo.com/v1/search?name=Los%20Angeles&count=8&language=en&format=json".to_string())
    );
    assert!(city_label(Some(String::new()), None, None).is_none());
    assert!(city_label(None, Some("x".into()), None).is_none());
    let c = city_label(Some("Ankara".into()), None, Some("Türkiye".into())).unwrap();
    assert_eq!((c.name.as_str(), c.admin1.as_str(), c.country.as_str()), ("Ankara", "", "Türkiye"));
}

#[test]
fn paths_join_and_resolve() {
    assert_eq!(join_path("a", "b", '/'), "a/b");
    assert_eq!(join_path("a/", "b", '/'), "a/b");
    assert_eq!(join_path("", "b", '/'), "b");
    assert_eq!(join_path("a", "", '/'), "a/");
    assert_eq!(join_path("a", "/etc/b", '/'), "/etc/b");
    assert_eq!(join_path("a\\", "b", '/'), "a\\/b");
    let dirs = vec!["/exe".to_string(), "/proj".to_string()];
    assert_eq!(config_yaml_path(&dirs, &vec![false, true], '/'), "/proj/config.yaml");
    assert_eq!(themes_root(&dirs, &vec![false, false], '/'), "./res/themes");
    assert_eq!(resolve_theme_path(&dirs, &vec![true, true], "x", '/'), "/exe/x");
    assert_eq!(theme_dir("/r/res/themes", "Nexus", '/'), "/r/res/themes/Nexus");
    assert_eq!(theme_yaml_path("/r/res/themes", "Nexus", '/'), "/r/res/themes/Nexus/theme.yaml");
}

#[test]
fn paths_join_as_the_platform_does() {
    let dirs = ["", "a", "a/", "/r/res", "a\\", "C:", "C:\\x", "./res/themes"];
    let names = ["b", "", "res/themes", "/etc/x", "\\y", "D:\\z", "\\\\srv\\s", "theme.yaml"];
    for d in dirs {
        for n in names {
            let std_join = std::path::Path::new(d).join(n).to_string_lossy().into_owned();
            assert_eq!(join_path(d, n, std::path::MAIN_SEPARATOR), std_join, "{:?} + {:?}", d, n);
        }
    }
}

#[test]
fn paths_join_with_windows_separator() {
    assert_eq!(join_path("C:\\x", "b", '\\'), "C:\\x\\b");
    assert_eq!(join_path("C:\\x\\", "b", '\\'), "C:\\x\\b");
    assert_eq!(join_path("C:/x/", "b", '\\'), "C:/x/b");
    assert_eq!(join_path("C:", "b", '\\'), "C:b");
    assert_eq!(join_path("C:\\x", "D:\\y", '\\'), "D:\\y");
    assert_eq!(join_path("C:\\x", "\\y", '\\'), "C:\\y");
    assert_eq!(join_path("x", "\\y", '\\'), "\\y");
    assert_eq!(join_path("C:\\x", "\\\\srv\\share", '\\'), "\\\\srv\\share");
    assert_eq!(join_path("/r", "res/themes", '\\'), "/r\\res/themes");
    let dirs = vec!["C:\\app".to_string()];
    assert_eq!(config_yaml_path(&dirs, &vec![true], '\\'), "C:\\app\\config.yaml");
    assert_eq!(theme_yaml_path("C:\\app\\res/themes", "Nexus", '\\'), "C:\\app\\res/themes\\Nexus\\theme.yaml");
}

#[test]
fn base64_data_url() {
    assert_eq!(png_data_url(&vec![]), "data:image/png;base64,");
    assert_eq!(png_data_url(&b"Man".to_vec()), "data:image/png;base64,TWFu");
    assert_eq!(png_data_url(&b"Ma".to_vec()), "data:image/png;base64,TWE=");
    assert_eq!(png_data_url(&b"M".to_vec()), "data:image/png;base64,TQ==");
    assert_eq!(png_data_url(&vec![0xfb, 0xff, 0xbf]), "data:image/png;base64,+/+/");
}

#[test]
fn image_files_decode_to_rasters() {
    let mut f = Frame::new(2, 2);
    f.put_pixel(0, 0, [255, 0, 0]);
    f.put_pixel(1, 1, [0, 10, 200]);
    let png = encode_png(&f).unwrap();
    let back = load_image(&png, "png").unwrap();
    assert_eq!((back.width(), back.height()), (2, 2));
    assert_eq!(back.as_raw(), f.as_raw());
    assert!(load_image(&png, "PNG").is_some());
    assert!(load_image(&png, "").is_none());
    assert!(load_image(&png, "txt").is_none());
    assert!(load_image(&[1, 2, 3], "png").is_none());
    let icon = load_icon(&png, "png").unwrap();
    assert_eq!((icon.width, icon.height), (2, 2));
    assert_eq!(&icon.data[0..4], &[255, 0, 0, 255]);
    assert_eq!(&icon.data[12..16], &[0, 10, 200, 255]);
}

#[test]
fn png_encoding() {
    let mut f = Frame::new(2, 1);
    f.put_pixel(1, 0, [255, 0, 0]);
    let png = encode_png(&f).unwrap();
    assert_eq!(&png[..8], &[137, 80, 78, 71, 13, 10, 26, 10]);
    assert_ne!(png, f.as_raw().clone());
    let decoded = image::load_from_memory(&png).unwrap().to_rgb8();
    assert_eq!(decoded.dimensions(), (2, 1));
    assert_eq!(decoded.as_raw(), f.as_raw());
    let empty = Frame::new(0, 0);
    let e = encode_png(&empty).unwrap_err();
    assert!(e.starts_with("PNG encode error: "));
}

#[test]
fn base64_length_on_values() {
    for n in 0..10usize {
        let data = vec![0x5au8; n];
        let url = png_data_url(&data);
        let b64 = &url["data:image/png;base64,".len()..];
        assert_eq!(b64.len(), (n + 2) / 3 * 4);
    }
}
