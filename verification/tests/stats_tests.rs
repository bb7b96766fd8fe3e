use mini_system_monitor::sensors::{
    cpu_brand_or, cpu_static, first_dedicated_usage, get_cpu_brand, get_cpu_frequencies, get_cpu_logical_cores,
    get_cpu_physical_cores, get_gpu_cores, get_gpu_frequency_mhz, get_gpu_name, get_gpu_vendor, gpu_3d_load,
    guess_gpu_vendor, GpuEngine, SensorInfo, VideoController,
};
use mini_system_monitor::stats::{
    amount_text, bytes_to_mb, cpu_frequency_mhz, disk_total_gb, disk_totals, disk_used_gb, format_uptime,
    network_totals, normalize_interface, DiskSpace, NetSample,
};
use mini_system_monitor::weather::{forecast_url, temperature_unit, unit_symbol, wmo_description, wmo_icon_name};

fn net(name: &str, t: u64, r: u64) -> NetSample {
    NetSample { name: name.to_string(), transmitted: t, received: r }
}

#[test]
fn empty_interface_means_all() {
    assert_eq!(normalize_interface(Some(String::new())), None);
    assert_eq!(normalize_interface(Some("eth0".into())), Some("eth0".to_string()));
    assert_eq!(normalize_interface(None), None);
}

#[test]
fn network_totals_filter() {
    let ss = vec![net("eth0", 10, 100), net("wlan0", 20, 200), net("lo", 40, 400)];
    assert_eq!(network_totals(&ss, &None, &None), (70, 700));
    assert_eq!(network_totals(&ss, &Some("eth0".into()), &None), (10, 100));
    assert_eq!(network_totals(&ss, &Some("eth0".into()), &Some("wlan0".into())), (30, 300));
    assert_eq!(network_totals(&ss, &Some("none".into()), &None), (0, 0));
}

#[test]
fn disk_sums() {
    let ds = vec![
        DiskSpace { total: 500_000_000_000, available: 100_000_000_000 },
        DiskSpace { total: 1_000_000_000_000, available: 1_200_000_000_000 },
    ];
    assert_eq!(disk_totals(&ds), (400_000_000_000, 1_500_000_000_000));
    assert_eq!(disk_used_gb(&ds), 400);
    assert_eq!(disk_total_gb(&ds), 1500);
    assert_eq!(disk_used_gb(&vec![]), 0);
}

#[test]
fn bytes_to_megabytes() {
    assert_eq!(bytes_to_mb(0), 0);
    assert_eq!(bytes_to_mb(1024 * 1024 - 1), 0);
    assert_eq!(bytes_to_mb(5 * 1024 * 1024 + 3), 5);
}

#[test]
fn cpu_frequency_average_or_fallback() {
    assert_eq!(cpu_frequency_mhz(&vec![], Some(3600)), 3600);
    assert_eq!(cpu_frequency_mhz(&vec![], None), 0);
    assert_eq!(cpu_frequency_mhz(&vec![3000, 4001], None), 3500);
    assert_eq!(cpu_frequency_mhz(&vec![-7, 0], None), 18446744073709551613);
}

#[test]
fn uptime_and_amounts() {
    assert_eq!(format_uptime(0), "00:00:00");
    assert_eq!(format_uptime(8073), "02:14:33");
    assert_eq!(format_uptime(360000), "100:00:00");
    assert_eq!(amount_text(8192, "M"), "8192M");
}

#[test]
fn weather_codes() {
    assert_eq!(wmo_icon_name(0), "sunny");
    assert_eq!(wmo_icon_name(2), "cloudy");
    assert_eq!(wmo_icon_name(48), "foggy");
    assert_eq!(wmo_icon_name(81), "rainy");
    assert_eq!(wmo_icon_name(86), "snowy");
    assert_eq!(wmo_icon_name(96), "stormy");
    assert_eq!(wmo_icon_name(-1), "cloudy");
    assert_eq!(wmo_description(63), "Rain");
    assert_eq!(wmo_description(55), "Drizzle");
    assert_eq!(wmo_description(85), "Snow showers");
    assert_eq!(wmo_description(100), "Unknown");
}

#[test]
fn weather_units() {
    assert_eq!(temperature_unit("Imperial"), "fahrenheit");
    assert_eq!(temperature_unit("metric"), "celsius");
    assert_eq!(unit_symbol("IMPERIAL"), "F");
    assert_eq!(unit_symbol(""), "C");
    assert_eq!(
        forecast_url("41.01", "28.95", "metric"),
        "https://api.open-meteo.com/v1/forecast?latitude=41.01&longitude=28.95&current=temperature_2m,apparent_temperature,relative_humidity_2m,weather_code&temperature_unit=celsius"
    );
}

#[test]
fn gpu_vendor_guess() {
    assert_eq!(guess_gpu_vendor("NVIDIA GeForce RTX 3080"), "NVIDIA");
    assert_eq!(guess_gpu_vendor("AMD Radeon RX 6800"), "AMD");
    assert_eq!(guess_gpu_vendor("Intel(R) UHD Graphics 630"), "Intel");
    assert_eq!(guess_gpu_vendor("Microsoft Basic Display Adapter"), "");
    assert_eq!(guess_gpu_vendor("RADEON"), "AMD");
    assert_eq!(guess_gpu_vendor(""), "");
}

#[test]
fn gpu_load_counts_3d_engines() {
    let es = vec![
        GpuEngine { name: Some("pid_1_engtype_3D".into()), utilization: Some(30) },
        GpuEngine { name: Some("pid_2_engtype_Copy".into()), utilization: Some(50) },
        GpuEngine { name: Some("pid_3_engtype_3D".into()), utilization: Some(25) },
        GpuEngine { name: None, utilization: Some(99) },
        GpuEngine { name: Some("engtype_3D".into()), utilization: None },
    ];
    assert_eq!(gpu_3d_load(&es), 55);
    let many = vec![
        GpuEngine { name: Some("engtype_3D".into()), utilization: Some(70) },
        GpuEngine { name: Some("engtype_3D".into()), utilization: Some(70) },
    ];
    assert_eq!(gpu_3d_load(&many), 100);
}

#[test]
fn sensor_info_first_controller_name_sticks() {
    let mut info = SensorInfo::new("Ryzen".into(), 8, 16);
    assert_eq!(get_gpu_name(&info), "");
    let cs = vec![
        VideoController { adapter_ram: Some(4096), name: None, video_processor: None, driver_version: None },
        VideoController { adapter_ram: Some(0), name: Some("NVIDIA GeForce GTX 1060".into()), video_processor: None, driver_version: None },
        VideoController { adapter_ram: Some(2048), name: Some("Intel HD".into()), video_processor: None, driver_version: None },
        VideoController { adapter_ram: Some(0), name: None, video_processor: None, driver_version: None },
    ];
    let ram = info.note_controllers(&cs);
    assert_eq!(ram, Some(2048));
    assert_eq!(get_gpu_name(&info), "NVIDIA GeForce GTX 1060");
    assert_eq!(get_gpu_vendor(&info), "NVIDIA");
    assert_eq!(get_gpu_vendor(&info), guess_gpu_vendor(&get_gpu_name(&info)));
    assert_eq!(get_cpu_brand(&info), "Ryzen");
    assert_eq!(get_cpu_physical_cores(&info), 8);
    assert_eq!(get_cpu_logical_cores(&info), 16);
    assert_eq!(get_gpu_frequency_mhz(&info), 0);
    assert_eq!(get_gpu_cores(&info), 0);
    assert!(get_cpu_frequencies().is_empty());
}

#[test]
fn gpu_memory_first_positive() {
    assert_eq!(first_dedicated_usage(&vec![None, Some(0), Some(512), Some(9)]), Some(512));
    assert_eq!(first_dedicated_usage(&vec![Some(0), None]), None);
}

#[test]
fn cpu_static_facts() {
    let (b, p, l) = cpu_static(Some("  AMD Ryzen 7 5800X  ".into()), 16, None);
    assert_eq!((b.as_str(), p, l), ("AMD Ryzen 7 5800X", 16, 16));
    let (b, p, l) = cpu_static(None, 4, Some(2));
    assert_eq!((b.as_str(), p, l), ("", 2, 4));
    assert_eq!(cpu_brand_or("hw".into(), Some(" sys ".into())), "hw");
    assert_eq!(cpu_brand_or(String::new(), Some(" sys ".into())), "sys");
    assert_eq!(cpu_brand_or(String::new(), None), "");
}
