use mini_system_monitor::layout::{background_error, background_path};
use mini_system_monitor::layout::{label_origin, static_label};
use mini_system_monitor::preview::sort_names;
use mini_system_monitor::config::{show_console_setting, theme_file_relative, Theme};
use mini_system_monitor::layout::{
    element_box, layout_text, placeholder_text, plan_element, sample_for, sample_key_of, ElementKind,
};
use mini_system_monitor::preview::{collect_font_names, scan_available_fonts, scan_elements};
use mini_system_monitor::yaml::{get_yaml_value, node_at, YamlNumber, YamlValue};

fn s(v: &str) -> YamlValue {
    YamlValue::String(v.to_string())
}
fn n(v: i64) -> YamlValue {
    if v >= 0 {
        YamlValue::Number(YamlNumber::PosInt(v as u64))
    } else {
        YamlValue::Number(YamlNumber::NegInt(v))
    }
}
fn map(es: Vec<(&str, YamlValue)>) -> YamlValue {
    YamlValue::Mapping(es.into_iter().map(|(k, v)| (s(k), v)).collect())
}
fn path(p: &[&str]) -> Vec<String> {
    p.iter().map(|x| x.to_string()).collect()
}

fn sample_theme() -> YamlValue {
    map(vec![
        (
            "static_images",
            map(vec![("BACKGROUND", map(vec![("PATH", s("background.png")), ("X", n(0)), ("Y", n(0))]))]),
        ),
        (
            "static_text",
            map(vec![(
                "CPU",
                map(vec![("TEXT", s("CPU")), ("X", n(10)), ("Y", n(20)), ("FONT", s("roboto/Roboto.ttf"))]),
            )]),
        ),
        (
            "STATS",
            map(vec![(
                "CPU",
                map(vec![(
                    "PERCENTAGE",
                    map(vec![
                        (
                            "TEXT",
                            map(vec![
                                ("SHOW", YamlValue::Bool(true)),
                                ("X", n(100)),
                                ("Y", n(50)),
                                ("FONT", s("generale/Mono.ttf")),
                                ("FONT_COLOR", s("255, 0, 0")),
                                ("ANCHOR", s("rt")),
                            ]),
                        ),
                        (
                            "GRAPH",
                            map(vec![
                                ("SHOW", YamlValue::Bool(false)),
                                ("X", n(5)),
                                ("Y", n(6)),
                                ("WIDTH", n(120)),
                                ("HEIGHT", n(8)),
                                ("BAR_COLOR", s("0,255,0")),
                            ]),
                        ),
                    ]),
                )]),
            )]),
        ),
    ])
}

#[test]
fn elements_are_found_in_document_order() {
    let t = sample_theme();
    let mut p = Vec::new();
    let mut out = Vec::new();
    scan_elements(&t, &mut p, &mut out);
    assert!(p.is_empty());
    assert_eq!(
        out,
        vec![
            path(&["static_images", "BACKGROUND"]),
            path(&["static_text", "CPU"]),
            path(&["STATS", "CPU", "PERCENTAGE", "TEXT"]),
            path(&["STATS", "CPU", "PERCENTAGE", "GRAPH"]),
        ]
    );
}

#[test]
fn fonts_are_collected() {
    let mut out = vec!["already".to_string()];
    collect_font_names(&sample_theme(), &mut out);
    assert_eq!(out, vec!["already", "roboto/Roboto.ttf", "generale/Mono.ttf"]);
}

#[test]
fn available_fonts_sorted_without_repeats() {
    let r = scan_available_fonts(
        vec!["b.ttf".into(), "a/x.ttf".into(), "b.ttf".into()],
        vec!["C.ttf".into(), "a/x.ttf".into()],
    );
    assert_eq!(r, vec!["C.ttf", "a/x.ttf", "b.ttf"]);
    assert!(scan_available_fonts(vec![], vec![]).is_empty());
}

#[test]
fn font_list_ignores_folder_order() {
    let a = scan_available_fonts(vec!["z.ttf".into(), "m.ttf".into()], vec!["a.ttf".into(), "m.ttf".into()]);
    let b = scan_available_fonts(vec!["a.ttf".into(), "m.ttf".into(), "z.ttf".into()], vec![]);
    let c = scan_available_fonts(vec![], vec!["m.ttf".into(), "z.ttf".into(), "a.ttf".into(), "a.ttf".into()]);
    assert_eq!(a, b);
    assert_eq!(b, c);
}

#[test]
fn path_steps_compose() {
    let t = sample_theme();
    let whole = node_at(&t, &path(&["STATS", "CPU", "PERCENTAGE", "GRAPH", "WIDTH"])).unwrap();
    let mid = node_at(&t, &path(&["STATS", "CPU"])).unwrap();
    let rest = node_at(mid, &path(&["PERCENTAGE", "GRAPH", "WIDTH"])).unwrap();
    assert_eq!(whole.as_i64(), Some(120));
    assert_eq!(rest.as_i64(), Some(120));
    assert!(node_at(&t, &path(&["STATS", "GPU", "X"])).is_none());
    assert!(node_at(mid, &path(&["GPU"])).is_none());
}

#[test]
fn node_lookup() {
    let t = sample_theme();
    let v = node_at(&t, &path(&["STATS", "CPU", "PERCENTAGE", "TEXT", "X"])).unwrap();
    assert_eq!(v.as_i64(), Some(100));
    assert!(node_at(&t, &path(&["STATS", "GPU"])).is_none());
    assert!(get_yaml_value(&t, &["static_text", "CPU", "FONT"]).unwrap().as_str().is_some());
}

#[test]
fn theme_getters() {
    let th = Theme { raw: sample_theme(), path: "themes/Nexus".into() };
    let k = ["STATS", "CPU", "PERCENTAGE", "TEXT"];
    assert_eq!(th.get_i32(&["STATS", "CPU", "PERCENTAGE", "TEXT", "X"]), Some(100));
    assert_eq!(th.get_color(&["STATS", "CPU", "PERCENTAGE", "TEXT", "FONT_COLOR"]), Some([255, 0, 0]));
    assert_eq!(th.get_bool(&["STATS", "CPU", "PERCENTAGE", "GRAPH", "SHOW"]), Some(false));
    assert!(th.section_exists(&["static_images"]));
    assert!(!th.section_exists(&["nothing"]));
    let c = th.text_cfg(&k).unwrap();
    assert_eq!((c.x, c.y, c.color, c.anchor.as_str()), (100, 50, [255, 0, 0], "rt"));
    assert_eq!(c.font.as_deref(), Some("generale/Mono.ttf"));
    assert!(th.graph_cfg(&["STATS", "CPU", "PERCENTAGE", "GRAPH"]).is_none());
    assert_eq!(th.file_path("bg.png", '/'), "themes/Nexus/bg.png");
    assert_eq!(th.file_path("", '/'), "themes/Nexus");
    assert_eq!(th.file_path("fonts/a.ttf", '\\'), "themes/Nexus\\fonts/a.ttf");
    assert_eq!(theme_file_relative("Nexus"), "res/themes/Nexus/theme.yaml");
}

#[test]
fn graph_and_line_defaults() {
    let raw = map(vec![("G", map(vec![("SHOW", YamlValue::Bool(true)), ("X", n(1)), ("Y", n(-2))]))]);
    let th = Theme { raw, path: ".".into() };
    let g = th.graph_cfg(&["G"]).unwrap();
    assert_eq!((g.x, g.y, g.w, g.h, g.color), (1, -2, 100, 10, [255, 255, 255]));
    let l = th.line_cfg(&["G"]).unwrap();
    assert_eq!((l.w, l.h, l.color), (100, 30, [0, 200, 255]));
    assert_eq!(th.icon_cfg(&["G"], 64, 48), Some((1, -2, 64, 48)));
    let t = th.text_cfg(&["G"]).unwrap();
    assert_eq!((t.color, t.anchor.as_str(), t.font.is_none()), ([255, 255, 255], "lt", true));
}

#[test]
fn integers_are_cut_like_as_casts() {
    let raw = map(vec![("X", n(4294967297)), ("Y", n(-1))]);
    let th = Theme::empty("p".into());
    assert_eq!(th.get_i32(&["X"]), None);
    let th = Theme { raw, path: "p".into() };
    assert_eq!(th.get_i32(&["X"]), Some(1));
    assert_eq!(th.get_u32(&["Y"]), Some(u32::MAX));
}

#[test]
fn console_setting() {
    let on = map(vec![("display", map(vec![("SHOW_CONSOLE", YamlValue::Bool(true))]))]);
    assert!(show_console_setting(&on));
    let bad = map(vec![("display", map(vec![("SHOW_CONSOLE", s("yes"))]))]);
    assert!(!show_console_setting(&bad));
    assert!(!show_console_setting(&YamlValue::Null));
}

#[test]
fn sample_texts_by_key() {
    let k = sample_key_of(&path(&["STATS", "weather", "temperature_felt", "TEXT"]));
    assert_eq!(k.iter().collect::<String>(), "STATS.WEATHER.TEMPERATURE_FELT.TEXT");
    assert_eq!(sample_for(&k, "", ""), "54°C");
    let hour = sample_key_of(&path(&["STATS", "DATE", "HOUR", "TEXT"]));
    assert_eq!(sample_for(&hour, "12:34", "Mon 01 Jan"), "12:34");
    let day = sample_key_of(&path(&["STATS", "DATE", "DAY", "TEXT"]));
    assert_eq!(sample_for(&day, "12:34", "Mon 01 Jan"), "Mon 01 Jan");
    assert_eq!(placeholder_text(&path(&["STATS", "UPTIME", "FORMATTED", "TEXT"])), "02:14:33");
    assert_eq!(placeholder_text(&path(&["STATS", "CPU", "FREQUENCY", "TEXT"])), "3200 MHz");
    assert_eq!(placeholder_text(&path(&["STATS", "NET", "WLO", "UPLOAD", "TEXT"])), "UP 512 KB/s");
    assert_eq!(placeholder_text(&path(&["STATS", "MEMORY", "VIRTUAL", "USED"])), "8.2 GB");
    assert_eq!(placeholder_text(&path(&["STATS", "MEMORY", "VIRTUAL", "PERCENT_TEXT"])), "42%");
    assert_eq!(placeholder_text(&path(&["STATS", "WEATHER", "WEATHER_DESCRIPTION", "TEXT"])), "21°");
    assert_eq!(placeholder_text(&path(&["static_text", "LABEL"])), "");
    let clock = placeholder_text(&path(&["STATS", "DATE", "HOUR", "TEXT"]));
    assert_eq!(clock.len(), 5);
    assert_eq!(clock.as_bytes()[2], b':');
}

#[test]
fn element_plans() {
    let t = sample_theme();
    let tp = path(&["STATS", "CPU", "PERCENTAGE", "TEXT"]);
    let plan = plan_element(node_at(&t, &tp).unwrap(), &tp);
    assert!(!plan.hidden);
    assert_eq!((plan.x, plan.y), (100, 50));
    match &plan.kind {
        ElementKind::Text { font, anchor, color, text } => {
            assert_eq!(font.as_deref(), Some("generale/Mono.ttf"));
            assert_eq!(anchor, "rt");
            assert_eq!(*color, [255, 0, 0]);
            assert_eq!(text, "42%");
        },
        _ => panic!("expected a text"),
    }
    let b = element_box(&tp, &plan, 30, 12);
    assert_eq!((b.x, b.y, b.w, b.h, b.hidden), (70, 50, 30, 12, false));
    assert_eq!(b.path, tp);

    let gp = path(&["STATS", "CPU", "PERCENTAGE", "GRAPH"]);
    let g = plan_element(node_at(&t, &gp).unwrap(), &gp);
    assert!(g.hidden);
    match g.kind {
        ElementKind::Bar { w, h, color } => assert_eq!((w, h, color), (120, 8, [0, 255, 0])),
        _ => panic!("expected a bar"),
    }
    let gb = element_box(&gp, &plan_element(node_at(&t, &gp).unwrap(), &gp), 0, 0);
    assert_eq!((gb.x, gb.y, gb.w, gb.h, gb.hidden), (5, 6, 120, 8, true));

    let bp = path(&["static_images", "BACKGROUND"]);
    let bg = plan_element(node_at(&t, &bp).unwrap(), &bp);
    assert!(matches!(bg.kind, ElementKind::Text { .. }));
}

#[test]
fn icon_and_small_boxes() {
    let icon = map(vec![("X", n(3)), ("Y", n(4)), ("WIDTH", n(20)), ("HEIGHT", s("big"))]);
    let p = path(&["ICON"]);
    let plan = plan_element(&icon, &p);
    match plan.kind {
        ElementKind::Icon { w, h } => assert_eq!((w, h), (20, 10)),
        _ => panic!("expected an icon"),
    }
    let empty = map(vec![("TEXT", s("")), ("X", n(50)), ("Y", n(60)), ("ANCHOR", s("mm"))]);
    let ep = plan_element(&empty, &p);
    match &ep.kind {
        ElementKind::Text { text, .. } => assert_eq!(layout_text(text), "123"),
        _ => panic!("expected a text"),
    }
    let b = element_box(&p, &ep, 3, 2);
    assert_eq!((b.x, b.y, b.w, b.h), (49, 59, 4, 4));
}

#[test]
fn background_of_theme() {
    assert_eq!(background_path(&sample_theme()), Ok("background.png".to_string()));
    let none = map(vec![("static_images", map(vec![("BACKGROUND", map(vec![("X", n(0))]))]))]);
    assert_eq!(background_path(&none), Err("theme has no static_images.BACKGROUND.PATH".to_string()));
    assert_eq!(background_error("bg.png"), "could not load background image: bg.png");
}

#[test]
fn static_labels() {
    let l = static_label(&map(vec![("TEXT", s("CPU")), ("X", n(10)), ("FONT_COLOR", s("1, 2, 300"))])).unwrap();
    assert_eq!((l.text.as_str(), l.x, l.y, l.color, l.anchor.as_str()), ("CPU", 10, 0, [1, 2, 0], "lt"));
    assert!(l.font.is_none());
    assert!(static_label(&map(vec![("TEXT", s("")), ("X", n(10))])).is_none());
    assert!(static_label(&map(vec![("X", n(10))])).is_none());
    assert_eq!(label_origin(10, 5, 30, 8, "rb"), (0, 0));
    assert_eq!(label_origin(100, 50, 30, 8, "mm"), (85, 46));
}

#[test]
fn names_sorted_with_repeats() {
    let r = sort_names(vec!["wlan0".into(), "eth0".into(), "Ethernet".into(), "eth0".into(), "".into()]);
    assert_eq!(r, vec!["", "Ethernet", "eth0", "eth0", "wlan0"]);
    let mut expected = vec!["b".to_string(), "ä".to_string(), "a".to_string(), "ab".to_string()];
    let got = sort_names(expected.clone());
    expected.sort();
    assert_eq!(got, expected);
}

#[test]
fn clock_and_calendar_shapes() {
    use_clock_and_calendar();
}

fn use_clock_and_calendar() {
    let c = mini_system_monitor::layout::clock_text();
    let b = c.as_bytes();
    assert_eq!(b.len(), 5);
    assert_eq!(b[2], b':');
    let h: u32 = c[..2].parse().unwrap();
    let m: u32 = c[3..].parse().unwrap();
    assert!(h < 24 && m < 60);
    let d = mini_system_monitor::layout::calendar_text();
    assert_eq!(d.chars().count(), 10);
    assert!(["Sun", "Mon", "Tue", "Wed", "Thu", "Fri", "Sat"].contains(&&d[..3]));
    let day: u32 = d[4..6].parse().unwrap();
    assert!((1..=31).contains(&day));
    assert!(["Jan", "Feb", "Mar", "Apr", "May", "Jun", "Jul", "Aug", "Sep", "Oct", "Nov", "Dec"].contains(&&d[7..]));
    let day_sample = placeholder_text(&path(&["STATS", "DATE", "DAY", "TEXT"]));
    assert_eq!(day_sample.len(), 10);
}
