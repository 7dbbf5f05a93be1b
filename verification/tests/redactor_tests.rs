use rfetch::config::Config;
use rfetch::redactor::DataRedactor;
use rfetch::security::SecurityInfo;
use rfetch::sysinfo::SystemInfo;

fn sample_security() -> SecurityInfo {
    SecurityInfo::new(
        "UFW: Active".to_string(),
        "Enforcing".to_string(),
        "Active".to_string(),
        "Up to date".to_string(),
        "Running".to_string(),
        "Active".to_string(),
        "LUKS (1 encrypted)".to_string(),
        "Enabled".to_string(),
    )
}

fn sample_info() -> SystemInfo {
    SystemInfo::new(
        "Ubuntu 22.04".to_string(),
        "6.5.0".to_string(),
        "myserver".to_string(),
        "3 hours, 10 minutes".to_string(),
        "Intel i9-12900K (16 cores) @ 3.2 GHz".to_string(),
        "7.8 GB / 15.6 GB".to_string(),
        "233.1 GB / 465.8 GB".to_string(),
        "bash".to_string(),
        "GNOME".to_string(),
        "xterm-256color".to_string(),
        sample_security(),
        "NVIDIA GeForce GTX 1060 (rev a1)".to_string(),
        "45°C".to_string(),
        "192.168.1.5 (eth0)".to_string(),
        "2143 (dpkg)".to_string(),
    )
}

#[test]
fn hostname_keeps_ends_and_length() {
    let r = DataRedactor::redact_hostname("myserver");
    assert_eq!(r, "m******r");
    assert_eq!(r.chars().count(), "myserver".chars().count());
}

#[test]
fn hostname_short_is_fully_masked() {
    assert_eq!(DataRedactor::redact_hostname("ab"), "**");
    assert_eq!(DataRedactor::redact_hostname("a"), "*");
    assert_eq!(DataRedactor::redact_hostname(""), "");
}

#[test]
fn hostname_three_chars() {
    assert_eq!(DataRedactor::redact_hostname("abc"), "a*c");
}

#[test]
fn memory_pair_becomes_percent_of_bucket() {
    assert_eq!(DataRedactor::redact_memory("7.8 GB / 15.6 GB"), "50% of 8-16");
}

#[test]
fn memory_bucket_edges() {
    assert_eq!(DataRedactor::redact_memory("1.0 GB / 3.9 GB"), "26% of < 4");
    assert_eq!(
        DataRedactor::redact_memory("100.0 GB / 200.0 GB"),
        "50% of > 128"
    );
}

#[test]
fn memory_unparseable_passes_through() {
    assert_eq!(DataRedactor::redact_memory("Unknown"), "Unknown");
    assert_eq!(DataRedactor::redact_memory("16 GB"), "16 GB");
}

#[test]
fn memory_zero_total_passes_through() {
    assert_eq!(
        DataRedactor::redact_memory("1.0 GB / 0.0 GB"),
        "1.0 GB / 0.0 GB"
    );
}

#[test]
fn storage_pair_uses_storage_buckets() {
    assert_eq!(
        DataRedactor::redact_storage("233.1 GB / 465.8 GB"),
        "50% of 256-512"
    );
    assert_eq!(
        DataRedactor::redact_storage("500.0 GB / 1000.0 GB"),
        "50% of 512GB-1TB"
    );
}

#[test]
fn cpu_model_redaction_keeps_core_count() {
    let r = DataRedactor::redact_cpu("Intel i9-12900K (16 cores) @ 3.2 GHz", true);
    assert_eq!(r, "Intel iX-XXXX @ X.X GHz (16 cores)");
    assert!(r.contains("(16 cores)"));
}

#[test]
fn cpu_without_flag_only_normalizes_core_count() {
    let r = DataRedactor::redact_cpu("Intel i9-12900K (16 cores) @ 3.2 GHz", false);
    assert_eq!(r, "Intel i9-12900K @ 3.2 GHz (16 cores)");
}

#[test]
fn cpu_ryzen_model_redacted() {
    let r = DataRedactor::redact_cpu("AMD Ryzen 7 5800X (8 cores)", true);
    assert_eq!(r, "AMD Ryzen X XXXX (8 cores)");
}

#[test]
fn cpu_singular_core_normalized() {
    let r = DataRedactor::redact_cpu("Old CPU (1 core)", false);
    assert_eq!(r, "Old CPU (1 cores)");
}

#[test]
fn gpu_model_numbers_masked_parenthetical_dropped() {
    let r = DataRedactor::redact_gpu("NVIDIA GeForce GTX 1060 (rev a1)");
    assert_eq!(r, "NVIDIA GeForce GTX XXXX");
}

#[test]
fn gpu_three_digit_code_masked() {
    assert_eq!(DataRedactor::redact_gpu("Radeon 580"), "Radeon XXX");
}

#[test]
fn gpu_unknown_passes_through() {
    assert_eq!(DataRedactor::redact_gpu("Unknown"), "Unknown");
}

#[test]
fn network_address_masked_interface_kept() {
    assert_eq!(
        DataRedactor::redact_network("192.168.1.5 (eth0)"),
        "XXX.XXX.XXX.XXX (eth0)"
    );
}

#[test]
fn network_interface_name_unchanged() {
    assert_eq!(DataRedactor::redact_network("eth0"), "eth0");
}

#[test]
fn network_bare_addresses_masked() {
    assert_eq!(
        DataRedactor::redact_network("ip 10.0.0.1 via 10.0.0.2"),
        "ip XXX.XXX.XXX.XXX via XXX.XXX.XXX.XXX"
    );
}

#[test]
fn network_unknown_passes_through() {
    assert_eq!(DataRedactor::redact_network("Unknown"), "Unknown");
}

#[test]
fn redact_system_info_touches_only_sensitive_fields() {
    let info = sample_info();
    let config = Config {
        redact_cpu_model: true,
        ..Config::default()
    };
    let r = DataRedactor::redact_system_info(&info, &config);
    assert_eq!(r.os, "Ubuntu 22.04");
    assert_eq!(r.kernel, "6.5.0");
    assert_eq!(r.hostname, "m******r");
    assert_eq!(r.uptime, "3 hours, 10 minutes");
    assert_eq!(r.cpu, "Intel iX-XXXX @ X.X GHz (16 cores)");
    assert_eq!(r.memory, "50% of 8-16");
    assert_eq!(r.storage, "50% of 256-512");
    assert_eq!(r.shell, "bash");
    assert_eq!(r.desktop, "GNOME");
    assert_eq!(r.terminal, "xterm-256color");
    assert_eq!(r.security.firewall_status, "UFW: Active");
    assert_eq!(r.gpu, "NVIDIA GeForce GTX XXXX");
    assert_eq!(r.temperature, "45°C");
    assert_eq!(r.network, "XXX.XXX.XXX.XXX (eth0)");
    assert_eq!(r.packages, "2143 (dpkg)");
}

#[test]
fn redaction_notice_names_screenshot_mode() {
    let n = DataRedactor::get_redaction_notice();
    assert!(n.contains("Screenshot mode"));
}

#[test]
fn memory_overlong_figures_pass_through() {
    // figures too long to compute with exactly are left alone
    let s = "12345678901234567.0 GB / 2.0 GB";
    assert_eq!(DataRedactor::redact_memory(s), s);
}

#[test]
fn cpu_with_only_core_count() {
    assert_eq!(DataRedactor::redact_cpu("(8 cores)", false), " (8 cores)");
}

#[test]
fn hostname_masks_interior_only() {
    let r = DataRedactor::redact_hostname("ab-cd");
    assert_eq!(r, "a***d");
}
