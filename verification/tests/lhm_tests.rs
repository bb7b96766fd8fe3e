use mini_system_monitor::cache::TimedCache;
use mini_system_monitor::lhm::{
    cached_reading,
    choose_json_sensors, choose_pipe_sensors, find_sensor, is_full_program, lhm_exe_candidates, lhm_exe_path,
    pipe_entries, set_path, set_refresh_interval_ms, JsonSensor, LhmSettings,
};

const SAMPLE: &str = "Cpu:Temperature:Core (Tctl/Tdie)|55,5\n\
Cpu:Temperature:Core Max|60\n\
Cpu:Load:CPU Total|12\n\
GpuNvidia:Temperature:GPU Core|48\n\
GpuNvidia:Temperature:GPU Memory Junction|70\n\
GpuNvidia:Load:GPU Core|33\n\
GpuNvidia:SmallData:GPU Memory Used|1024\n\
GpuNvidia:SmallData:GPU Memory Total|8192\n\
GpuNvidia:Clock:GPU Core|1800\n\
no separator here\n";

#[test]
fn settings_record_path_and_interval() {
    let mut s = LhmSettings::new();
    assert_eq!(s.refresh_interval_ms, 3000);
    assert!(s.path.is_none());
    set_path(&mut s, "C:/LHM".into());
    set_refresh_interval_ms(&mut s, 1500);
    assert_eq!(s.path.as_deref(), Some("C:/LHM"));
    assert_eq!(s.refresh_interval_ms, 1500);
}

#[test]
fn readings_reused_within_the_interval() {
    let mut s = LhmSettings::new();
    let mut c: TimedCache<u32> = TimedCache::new();
    assert_eq!(cached_reading(&s, &c, 0), None);
    c.store(1000, 42);
    assert_eq!(cached_reading(&s, &c, 3999), Some(&42));
    assert_eq!(cached_reading(&s, &c, 4000), None);
    set_refresh_interval_ms(&mut s, 500);
    assert_eq!(cached_reading(&s, &c, 1499), Some(&42));
    assert_eq!(cached_reading(&s, &c, 1500), None);
}

#[test]
fn pipe_lines_become_entries() {
    let es = pipe_entries("a|1\nb| 2 \nno bar\na|3\nc|\n");
    let kv: Vec<(String, String)> = es.iter().map(|e| (e.key.clone(), e.value.clone())).collect();
    assert_eq!(
        kv,
        vec![("a".to_string(), "3".to_string()), ("b".to_string(), "2".to_string()), ("c".to_string(), String::new())]
    );
}

#[test]
fn pipe_sensors_by_priority() {
    let es = pipe_entries(SAMPLE);
    assert_eq!(es.len(), 9);
    let usable = vec![true; es.len()];
    let c = choose_pipe_sensors(&es, &usable);
    let key = |i: Option<usize>| i.map(|i| es[i].key.clone());
    assert_eq!(key(c.cpu_temp).as_deref(), Some("Cpu:Temperature:Core (Tctl/Tdie)"));
    assert_eq!(key(c.gpu_temp).as_deref(), Some("GpuNvidia:Temperature:GPU Core"));
    assert_eq!(key(c.gpu_mem_junction_temp).as_deref(), Some("GpuNvidia:Temperature:GPU Memory Junction"));
    assert_eq!(key(c.gpu_load).as_deref(), Some("GpuNvidia:Load:GPU Core"));
    assert_eq!(key(c.gpu_mem_used).as_deref(), Some("GpuNvidia:SmallData:GPU Memory Used"));
    assert_eq!(key(c.gpu_mem_total).as_deref(), Some("GpuNvidia:SmallData:GPU Memory Total"));
    assert_eq!(key(c.gpu_freq).as_deref(), Some("GpuNvidia:Clock:GPU Core"));
}

#[test]
fn unusable_values_are_skipped() {
    let es = pipe_entries("Cpu:Temperature:Package|0\nCpu:Temperature:Core #1|50\n");
    let c = choose_pipe_sensors(&es, &vec![false, true]);
    assert_eq!(c.cpu_temp, Some(1));
    let none = choose_pipe_sensors(&es, &vec![false, false]);
    assert_eq!(none.cpu_temp, None);
}

#[test]
fn find_sensor_falls_back_to_first_candidate() {
    let es = pipe_entries("GpuAmd:Temperature:Edge|40\nGpuAmd:Temperature:Hot Spot|80\n");
    let usable = vec![true, true];
    let hws = ["GpuNvidia", "GpuAmd", "GpuIntel"];
    assert_eq!(find_sensor(&es, &usable, &hws, "Temperature", &["gpu core", "core", "hot spot"]), Some(1));
    assert_eq!(find_sensor(&es, &usable, &hws, "Temperature", &["nothing"]), Some(0));
    assert_eq!(find_sensor(&es, &usable, &hws, "Load", &["core"]), None);
}

fn js(h: &str, n: &str, t: &str, ok: bool) -> JsonSensor {
    JsonSensor { hardware_type: h.into(), name: n.into(), sensor_type: t.into(), usable: ok }
}

#[test]
fn json_sensors_first_match_wins() {
    let ss = vec![
        js("Cpu", "Core #1", "Temperature", false),
        js("Cpu", "Package", "Temperature", true),
        js("GpuNvidia", "GPU Hot Spot", "Temperature", true),
        js("GpuNvidia", "GPU Core", "Temperature", true),
        js("GpuNvidia", "GPU Memory Junction", "Temperature", true),
        js("GpuNvidia", "GPU Core", "Load", true),
        js("GpuNvidia", "GPU Core", "Clock", true),
        js("GpuNvidia", "GPU Memory Used", "SmallData", true),
        js("GpuNvidia", "GPU Memory Total", "Data", true),
        js("Motherboard", "Core", "Load", true),
    ];
    let c = choose_json_sensors(&ss);
    assert_eq!(c.cpu_temp, Some(1));
    assert_eq!(c.gpu_temp, Some(2));
    assert_eq!(c.gpu_mem_junction_temp, Some(4));
    assert_eq!(c.gpu_load, Some(5));
    assert_eq!(c.gpu_freq, Some(6));
    assert_eq!(c.gpu_mem_used, Some(7));
    assert_eq!(c.gpu_mem_total, Some(8));
}

#[test]
fn helper_search_order() {
    let c = lhm_exe_candidates(&Some("D:/lhm".into()), "/proj", "/bin", '/');
    assert_eq!(
        c,
        vec![
            "D:/lhm/lhm_reader.exe".to_string(),
            "D:/lhm/LibreHardwareMonitor.exe".to_string(),
            "/proj/LibreHardwareMonitor/lhm_reader.exe".to_string(),
            "/bin/LibreHardwareMonitor/lhm_reader.exe".to_string(),
        ]
    );
    assert_eq!(lhm_exe_path(&Some("D:/lhm".into()), "/bin", &c, &vec![false, true, true, false], '/'), c[1]);
    assert_eq!(lhm_exe_path(&Some("D:/lhm".into()), "/bin", &c, &vec![false; 4], '/'), "D:/lhm/LibreHardwareMonitor.exe");
    let d = lhm_exe_candidates(&None, "/proj", "/bin/", '/');
    assert_eq!(d.len(), 2);
    assert_eq!(lhm_exe_path(&None, "/bin/", &d, &vec![false, false], '/'), "/bin/LibreHardwareMonitor/lhm_reader.exe");
    let w = lhm_exe_candidates(&Some("D:\\lhm".into()), "C:\\proj", "C:\\bin", '\\');
    assert_eq!(w[0], "D:\\lhm\\lhm_reader.exe");
    assert_eq!(w[3], "C:\\bin\\LibreHardwareMonitor\\lhm_reader.exe");
}

#[test]
fn full_program_by_name() {
    assert!(is_full_program("librehardwaremonitor.EXE"));
    assert!(!is_full_program("lhm_reader.exe"));
}
