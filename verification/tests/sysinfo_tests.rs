use rfetch::ascii_maker::AsciiMaker;
use rfetch::sysinfo::SystemInfo;

#[test]
fn uptime_minutes_only() {
    assert_eq!(SystemInfo::get_uptime(0), "0 minutes");
    assert_eq!(SystemInfo::get_uptime(59), "0 minutes");
    assert_eq!(SystemInfo::get_uptime(1800), "30 minutes");
}

#[test]
fn uptime_with_hours() {
    assert_eq!(SystemInfo::get_uptime(3700), "1 hours, 1 minutes");
}

#[test]
fn uptime_with_days() {
    assert_eq!(SystemInfo::get_uptime(90061), "1 days, 1 hours, 1 minutes");
}

#[test]
fn memory_pair_in_tenths_of_gibibytes() {
    let eight = 8u64 << 30;
    let sixteen = 16u64 << 30;
    assert_eq!(SystemInfo::get_memory_info(eight, sixteen), "8.0 GB / 16.0 GB");
}

#[test]
fn memory_rounds_to_nearest_tenth() {
    // 7.86 GiB rounds to 7.9
    let used = (786u64 << 30) / 100;
    let total = 16u64 << 30;
    assert_eq!(SystemInfo::get_memory_info(used, total), "7.9 GB / 16.0 GB");
}

#[test]
fn storage_single_drive_has_no_count() {
    let a = 100u64 << 30;
    let b = 200u64 << 30;
    assert_eq!(
        SystemInfo::get_storage_info(a, b, 1),
        "100.0 GB / 200.0 GB"
    );
}

#[test]
fn storage_many_drives_appends_count() {
    let a = 100u64 << 30;
    let b = 200u64 << 30;
    assert_eq!(
        SystemInfo::get_storage_info(a, b, 3),
        "100.0 GB / 200.0 GB (3 drives)"
    );
}

#[test]
fn cpu_label_trims_and_counts() {
    assert_eq!(
        SystemInfo::get_cpu_info("  Intel i7  ", 8),
        "Intel i7 (8 cores)"
    );
}

#[test]
fn nvidia_name_gains_vendor_prefix() {
    assert_eq!(
        SystemInfo::parse_nvidia_gpu("GeForce RTX 3080"),
        "NVIDIA GeForce RTX 3080"
    );
}

#[test]
fn nvidia_boilerplate_dropped() {
    assert_eq!(
        SystemInfo::parse_nvidia_gpu("NVIDIA Corporation [GeForce GTX 1060]"),
        "NVIDIA GeForce GTX 1060"
    );
}

#[test]
fn amd_names_normalized() {
    assert_eq!(
        SystemInfo::parse_amd_gpu("Advanced Micro Devices [AMD/ATI] Radeon RX 580"),
        "AMD AMD Radeon RX 580"
    );
    assert_eq!(SystemInfo::parse_amd_gpu("Radeon RX 580"), "AMD Radeon RX 580");
}

#[test]
fn intel_names_normalized() {
    assert_eq!(
        SystemInfo::parse_intel_gpu("Intel Corporation UHD Graphics 620"),
        "Intel UHD Graphics 620"
    );
    assert_eq!(SystemInfo::parse_intel_gpu("UHD Graphics"), "Intel UHD Graphics");
}

#[test]
fn background_color_codes_dropped() {
    let lines = vec![
        "\u{1b}[38;2;0;0;0mX\u{1b}[0m".to_string(),
        "\u{1b}[38;2;9;8;7mY\u{1b}[0m".to_string(),
    ];
    let out = AsciiMaker::strip_background_colors(&lines);
    assert_eq!(out[0], "X\u{1b}[0m");
    assert_eq!(out[1], "\u{1b}[38;2;9;8;7mY\u{1b}[0m");
}
