use mini_system_monitor::lcd_comm::{PortRun, PortStep};
use mini_system_monitor::config::LhmConfig;
use mini_system_monitor::lcd_comm::{find_panel_port, init_commands, FailureTracker, LcdComm, LcdError, PortInfo, UsbPortInfo, FAILURE_LIMIT};
use mini_system_monitor::frame::Frame;
use mini_system_monitor::protocol::LcdCommand;
use mini_system_monitor::monitor::{
    com_port_choice, configured_lhm_path, monitor_theme_name, sensor_interval_ms, startup_brightness, wants_port_scan, Refresh,
    RefreshSchedule, theme_intervals, weather_fetch_interval_ms,
};
use mini_system_monitor::yaml::{YamlNumber, YamlValue};
use std::sync::mpsc;

#[test]
fn first_passes_are_staggered() {
    let t0 = 100_000u64;
    let mut s = RefreshSchedule::start(t0);
    assert!(s.tick(t0).is_empty());
    assert_eq!(s.tick(t0 + 999), vec![]);
    assert_eq!(s.tick(t0 + 1000), vec![Refresh::CpuPercent]);
    assert_eq!(s.tick(t0 + 1300), vec![Refresh::Gpu]);
    assert_eq!(s.tick(t0 + 1600), vec![Refresh::Date]);
    assert_eq!(s.tick(t0 + 1900), vec![Refresh::Uptime]);
    assert_eq!(s.tick(t0 + 2000), vec![Refresh::CpuPercent]);
    assert_eq!(s.tick(t0 + 2800), vec![Refresh::Gpu, Refresh::Date, Refresh::Network]);
    let at5 = s.tick(t0 + 5000);
    assert_eq!(at5, vec![Refresh::CpuPercent, Refresh::Gpu, Refresh::Date, Refresh::Uptime, Refresh::Network, Refresh::Weather]);
    let at6 = s.tick(t0 + 6000);
    assert!(at6.contains(&Refresh::CpuFrequency));
    assert!(!at6.contains(&Refresh::CpuTemperature));
    assert!(!at6.contains(&Refresh::Weather));
}

#[test]
fn refresh_spacing_on_values() {
    let mut s = RefreshSchedule::start(60_000);
    let first = s.tick(200_000);
    assert_eq!(first.len(), 11);
    assert!(s.tick(200_999).is_empty());
    assert_eq!(s.tick(201_000), vec![Refresh::CpuPercent, Refresh::Gpu, Refresh::Date, Refresh::Uptime, Refresh::Network]);
    let later = s.tick(260_000);
    assert!(later.contains(&Refresh::Weather));
    assert!(later.contains(&Refresh::Disk));
}

#[test]
fn early_clock_keeps_weather_at_start() {
    let mut s = RefreshSchedule::start(1000);
    assert_eq!(s.tick(60_999), vec![Refresh::CpuPercent, Refresh::CpuFrequency, Refresh::CpuTemperature, Refresh::Gpu,
        Refresh::GpuTemperature, Refresh::Memory, Refresh::Disk, Refresh::Date, Refresh::Uptime, Refresh::Network]);
    assert_eq!(s.tick(61_000), vec![Refresh::Weather]);
}

#[test]
fn startup_choices() {
    assert_eq!(sensor_interval_ms(None), 2000);
    assert_eq!(sensor_interval_ms(Some(3000)), 3000);
    assert_eq!(monitor_theme_name(&None), "NexusMeter");
    assert_eq!(monitor_theme_name(&Some(String::new())), "");
    assert!(wants_port_scan(&None));
    assert!(wants_port_scan(&Some("AUTO".into())));
    assert!(!wants_port_scan(&Some("auto".into())));
    assert_eq!(com_port_choice(&Some("COM5".into()), Some("COM9".into())), "COM5");
    assert_eq!(com_port_choice(&None, Some("COM9".into())), "COM9");
    assert_eq!(com_port_choice(&Some("AUTO".into()), None), "COM3");
    assert_eq!(startup_brightness(None), 20);
    assert_eq!(startup_brightness(Some(70)), 70);
    assert_eq!(configured_lhm_path(&Some(LhmConfig { lhm_path: Some("D:/l".into()) })), Some("D:/l".to_string()));
    assert_eq!(configured_lhm_path(&Some(LhmConfig { lhm_path: Some(String::new()) })), None);
    assert_eq!(configured_lhm_path(&None), None);
}

#[test]
fn failure_tracker_counts_in_a_row() {
    let mut t = FailureTracker::new();
    assert!(!t.record(false));
    assert!(!t.record(false));
    assert!(!t.record(true));
    assert_eq!(t.consecutive_failures(), 0);
    assert!(!t.record(false));
    assert!(!t.record(false));
    assert!(t.record(false));
    assert_eq!(t.consecutive_failures(), FAILURE_LIMIT);
    assert!(t.record(false));
}

#[test]
fn hard_failures_on_third_failure_in_a_row() {
    let mut t = FailureTracker::new();
    let outcomes = [false, false, true, false, false, false, false];
    let hard: Vec<bool> = outcomes.iter().map(|&ok| t.record(ok)).collect();
    assert_eq!(hard, vec![false, false, false, false, false, true, true]);
}

fn port(name: &str, usb: Option<(Option<&str>, u16, u16)>) -> PortInfo {
    PortInfo {
        port_name: name.into(),
        usb: usb.map(|(sn, vid, pid)| UsbPortInfo { serial_number: sn.map(|s| s.to_string()), vid, pid }),
    }
}

#[test]
fn panel_port_detection() {
    let ports = vec![
        port("COM1", None),
        port("COM2", Some((Some("X"), 0x1234, 0x1))),
        port("COM3", Some((None, 0x1a86, 0x5722))),
        port("COM4", Some((Some("USB35INCHIPSV2"), 0, 0))),
    ];
    assert_eq!(find_panel_port(&ports), Some(2));
    assert_eq!(find_panel_port(&vec![port("COM4", Some((Some("USB35INCHIPSV2"), 0, 0)))]), Some(0));
    assert_eq!(find_panel_port(&vec![port("COM1", None)]), None);
}

#[test]
fn start_up_commands_in_order() {
    let v = init_commands(20);
    assert_eq!(v.len(), 3);
    assert!(matches!(v[0], LcdCommand::SetOrientation(0, 320, 480)));
    assert!(matches!(v[1], LcdCommand::ScreenOn));
    assert!(matches!(v[2], LcdCommand::SetBrightness(20)));
    let bytes: Vec<Vec<u8>> = v.iter().flat_map(|c| c.encode()).collect();
    assert_eq!(
        bytes,
        vec![
            vec![0, 0, 0, 0, 0, 121, 100, 1, 64, 1, 224],
            vec![0, 0, 0, 0, 0, 109],
            vec![51, 0, 0, 0, 0, 110],
        ]
    );
}

#[test]
fn small_image_goes_out_as_header_and_pixels() {
    let (tx, rx) = mpsc::channel();
    let mut lcd = LcdComm::from_sender(tx);
    let mut f = Frame::new(2, 1);
    f.put_pixel(0, 0, [255, 0, 0]);
    f.put_pixel(1, 0, [8, 4, 8]);
    lcd.display_image(&f, 0, 0).unwrap();
    let cmd = rx.recv().unwrap();
    let bytes: Vec<u8> = cmd.encode().concat();
    assert_eq!(bytes, vec![0, 0, 0, 4, 0, 197, 0, 248, 33, 8]);
}

#[test]
fn commands_are_queued_in_order() {
    let (tx, rx) = mpsc::channel();
    let mut lcd = LcdComm::from_sender(tx);
    lcd.initialize(35).unwrap();
    assert!(matches!(rx.recv().unwrap(), LcdCommand::SetOrientation(0, 320, 480)));
    assert!(matches!(rx.recv().unwrap(), LcdCommand::ScreenOn));
    assert!(matches!(rx.recv().unwrap(), LcdCommand::SetBrightness(35)));
    lcd.reset().unwrap();
    lcd.screen_off().unwrap();
    lcd.set_orientation(2).unwrap();
    lcd.quit().unwrap();
    assert!(matches!(rx.recv().unwrap(), LcdCommand::Reset));
    assert!(matches!(rx.recv().unwrap(), LcdCommand::ScreenOff));
    assert!(matches!(rx.recv().unwrap(), LcdCommand::SetOrientation(2, 320, 480)));
    assert!(matches!(rx.recv().unwrap(), LcdCommand::Quit));
}

#[test]
fn image_is_sent_as_rgb565() {
    let (tx, rx) = mpsc::channel();
    let mut lcd = LcdComm::from_sender(tx);
    let mut f = Frame::new(2, 1);
    f.put_pixel(0, 0, [255, 0, 0]);
    f.put_pixel(1, 0, [0, 0, 255]);
    lcd.display_image(&f, 7, 9).unwrap();
    match rx.recv().unwrap() {
        LcdCommand::DisplayImage { rgb565, x, y, w, h } => {
            assert_eq!((x, y, w, h), (7, 9, 2, 1));
            assert_eq!(rgb565, vec![0x00, 0xF8, 0x1F, 0x00]);
        },
        _ => panic!("expected an image"),
    }
}

#[test]
fn stopped_port_thread_hands_the_command_back() {
    let (tx, rx) = mpsc::channel();
    drop(rx);
    let mut lcd = LcdComm::from_sender(tx);
    match lcd.set_brightness(50) {
        Err(LcdError::Disconnected(LcdCommand::SetBrightness(50))) => {},
        _ => panic!("expected the brightness request back"),
    }
    assert!(matches!(lcd.initialize(10), Err(LcdError::Disconnected(LcdCommand::SetOrientation(0, 320, 480)))));
    let mut f = Frame::new(1, 1);
    f.put_pixel(0, 0, [8, 8, 8]);
    match lcd.display_image(&f, 1, 2) {
        Err(LcdError::Disconnected(LcdCommand::DisplayImage { rgb565, x: 1, y: 2, w: 1, h: 1 })) => {
            assert_eq!(rgb565, vec![0x41, 0x08]);
        },
        _ => panic!("expected the image back"),
    }
}

#[test]
fn port_run_stops_at_first_failed_write() {
    let img = LcdCommand::DisplayImage { rgb565: vec![0; 6000], x: 0, y: 0, w: 10, h: 300 };
    let mut run = PortRun::start(&img, 4);
    assert_eq!(run.next(), PortStep::Write(0));
    run.record(true);
    assert_eq!(run.next(), PortStep::Write(1));
    run.record(false);
    assert_eq!(run.next(), PortStep::Finish { flush: true, ok: false });

    let mut header_fails = PortRun::start(&img, 4);
    header_fails.record(false);
    assert_eq!(header_fails.next(), PortStep::Finish { flush: false, ok: false });

    let mut reset = PortRun::start(&LcdCommand::Reset, 1);
    reset.record(false);
    assert_eq!(reset.next(), PortStep::Finish { flush: false, ok: false });
    let mut on = PortRun::start(&LcdCommand::ScreenOn, 1);
    on.record(true);
    assert_eq!(on.next(), PortStep::Finish { flush: true, ok: true });
}

fn ymap(es: Vec<(&str, YamlValue)>) -> YamlValue {
    YamlValue::Mapping(es.into_iter().map(|(k, v)| (YamlValue::String(k.to_string()), v)).collect())
}

fn secs(n: u64) -> YamlValue {
    YamlValue::Number(YamlNumber::PosInt(n))
}

#[test]
fn theme_sets_the_redraw_intervals() {
    let theme = ymap(vec![(
        "STATS",
        ymap(vec![
            ("CPU", ymap(vec![("PERCENTAGE", ymap(vec![("INTERVAL", secs(2))]))])),
            ("GPU", ymap(vec![("INTERVAL", secs(3))])),
            ("DISK", ymap(vec![("INTERVAL", YamlValue::String("often".into()))])),
            ("WEATHER", ymap(vec![("INTERVAL", secs(600))])),
        ]),
    )]);
    let iv = theme_intervals(&theme);
    assert_eq!(iv, vec![2000, 5000, 5000, 3000, 3000, 5000, 10000, 1000, 1000, 1000, 60000]);
    assert_eq!(weather_fetch_interval_ms(&theme), 600_000);
    assert_eq!(weather_fetch_interval_ms(&YamlValue::Null), 300_000);
    assert_eq!(theme_intervals(&YamlValue::Null), vec![1000, 5000, 5000, 1000, 5000, 5000, 10000, 1000, 1000, 1000, 60000]);

    let mut s = RefreshSchedule::start_with_intervals(100_000, iv);
    assert!(s.tick(101_999).iter().all(|g| *g != Refresh::CpuPercent));
    assert!(s.tick(102_000).contains(&Refresh::CpuPercent));
    assert!(!s.tick(103_999).contains(&Refresh::CpuPercent));
    assert!(s.tick(104_000).contains(&Refresh::CpuPercent));
}
