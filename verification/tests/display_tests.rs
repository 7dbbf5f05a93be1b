use rfetch::ansi::{strip_ansi, visual_width};
use rfetch::ascii::AsciiArt;
use rfetch::config::{ColorChoice, Config};
use rfetch::display::Display;
use rfetch::logo_config::LogoConfig;
use rfetch::security::SecurityInfo;
use rfetch::sysinfo::SystemInfo;

fn sample_security() -> SecurityInfo {
    SecurityInfo::new(
        "UFW: Active".to_string(),
        "Enforcing".to_string(),
        "Active".to_string(),
        "Up to date".to_string(),
        "Running".to_string(),
        "Active".to_string(),
        "LUKS (1 encrypted)".to_string(),
        "Enabled".to_string(),
    )
}

fn sample_info() -> SystemInfo {
    SystemInfo::new(
        "TestOS".to_string(),
        "6.5.0".to_string(),
        "testhost".to_string(),
        "5 minutes".to_string(),
        "Some CPU (4 cores)".to_string(),
        "4.0 GB / 8.0 GB".to_string(),
        "50.0 GB / 100.0 GB".to_string(),
        "bash".to_string(),
        "Unknown".to_string(),
        "xterm".to_string(),
        sample_security(),
        "Unknown".to_string(),
        "Unknown".to_string(),
        "eth0".to_string(),
        "100 (dpkg)".to_string(),
    )
}

#[test]
fn default_config_shows_everything() {
    let c = Config::default();
    assert!(c.show_os && c.show_kernel && c.show_security && c.show_colors);
    assert!(!c.redact_cpu_model);
    assert_eq!(c.logo_width, Some(30));
    assert!(matches!(c.logo_color, ColorChoice::Cyan));
}

#[test]
fn panel_starts_with_title_and_separator() {
    let display = Display::new(Config::default());
    let lines = display.format_system_info(&sample_info(), false);
    assert_eq!(strip_ansi(&lines[0]), "testhost@testhost");
    let sep = strip_ansi(&lines[1]);
    assert_eq!(sep.chars().count(), 2 * "testhost".chars().count() + 1);
    assert!(sep.chars().all(|ch| ch == '-'));
}

#[test]
fn panel_hides_unknown_optional_fields() {
    let display = Display::new(Config::default());
    let lines = display.format_system_info(&sample_info(), false);
    let stripped: Vec<String> = lines.iter().map(|l| strip_ansi(l)).collect();
    assert!(stripped.iter().any(|l| l == "OS: TestOS"));
    assert!(stripped.iter().any(|l| l == "Network: eth0"));
    // desktop, gpu and temperature are "Unknown" and stay hidden
    assert!(!stripped.iter().any(|l| l.starts_with("DE:")));
    assert!(!stripped.iter().any(|l| l.starts_with("GPU:")));
    assert!(!stripped.iter().any(|l| l.starts_with("Temperature:")));
}

#[test]
fn panel_respects_show_flags() {
    let config = Config {
        show_kernel: false,
        ..Config::default()
    };
    let display = Display::new(config);
    let lines = display.format_system_info(&sample_info(), false);
    let stripped: Vec<String> = lines.iter().map(|l| strip_ansi(l)).collect();
    assert!(!stripped.iter().any(|l| l.starts_with("Kernel:")));
    assert!(stripped.iter().any(|l| l == "OS: TestOS"));
}

#[test]
fn screenshot_panel_hides_details_and_shows_notice() {
    let display = Display::new(Config::default());
    let lines = display.format_system_info(&sample_info(), true);
    let stripped: Vec<String> = lines.iter().map(|l| strip_ansi(l)).collect();
    assert!(!stripped.iter().any(|l| l.starts_with("Firewall:")));
    assert!(!stripped.iter().any(|l| l.starts_with("SSH:")));
    assert!(stripped.iter().any(|l| l.starts_with("Updates:")));
    assert!(stripped
        .iter()
        .any(|l| l == "Additional security details hidden in screenshot mode"));
    assert!(stripped.iter().any(|l| l.contains("Screenshot mode")));
}

#[test]
fn render_aligns_info_at_one_column() {
    let display = Display::new(Config::default());
    let catalog = LogoConfig::new();
    let info = sample_info();
    let rows = display.render(&info, &catalog, false);
    let logo = AsciiArt::get_logo("TestOS", &catalog);
    let maxw = logo.iter().map(|l| visual_width(l)).max().unwrap_or(0);
    let colw = maxw + 8;
    let panel = display.format_system_info(&info, false);
    assert_eq!(rows.len(), logo.len().max(panel.len()));
    for (i, row) in rows.iter().enumerate() {
        let srow: Vec<char> = strip_ansi(row).chars().collect();
        assert!(srow.len() >= colw + 1);
        let tail: String = srow[colw + 1..].iter().collect();
        let expected = if i < panel.len() {
            strip_ansi(&panel[i])
        } else {
            String::new()
        };
        assert_eq!(tail, expected, "row {}", i);
    }
}

#[test]
fn screenshot_render_masks_hostname_in_title() {
    let display = Display::new(Config::default());
    let catalog = LogoConfig::new();
    let rows = display.render(&sample_info(), &catalog, true);
    let joined: Vec<String> = rows.iter().map(|r| strip_ansi(r)).collect();
    assert!(joined.iter().any(|r| r.contains("t******t@t******t")));
    assert!(!joined.iter().any(|r| r.contains("testhost")));
}

#[test]
fn render_without_screenshot_keeps_fields() {
    let display = Display::new(Config::default());
    let catalog = LogoConfig::new();
    let rows = display.render(&sample_info(), &catalog, false);
    let joined: Vec<String> = rows.iter().map(|r| strip_ansi(r)).collect();
    assert!(joined.iter().any(|r| r.contains("testhost@testhost")));
    assert!(joined.iter().any(|r| r.contains("Memory: 4.0 GB / 8.0 GB")));
}
