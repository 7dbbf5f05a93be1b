use rfetch::ascii::AsciiArt;
use rfetch::config::Config;
use rfetch::logo::LogoDisplay;
use rfetch::logo_config::LogoConfig;

fn strings(v: &[&str]) -> Vec<String> {
    v.iter().map(|s| s.to_string()).collect()
}

#[test]
fn custom_exact_match_beats_builtin() {
    let mut catalog = LogoConfig::new();
    catalog.add_logo("ubuntu", "my_ubuntu", strings(&["AAA", "BBB"]), false);
    let logo = AsciiArt::get_logo("Ubuntu 22.04", &catalog);
    assert_eq!(logo, strings(&["AAA", "BBB"]));
}

#[test]
fn builtin_match_without_custom_entry() {
    let catalog = LogoConfig::new();
    let logo = AsciiArt::get_logo("Arch Linux", &catalog);
    assert_eq!(logo.len(), 19);
    assert_eq!(logo[0], "                   -`");
}

#[test]
fn builtin_keywords_are_case_insensitive() {
    let catalog = LogoConfig::new();
    let upper = AsciiArt::get_logo("UBUNTU", &catalog);
    let lower = AsciiArt::get_logo("ubuntu", &catalog);
    assert_eq!(upper, lower);
    assert_eq!(upper.len(), 20);
}

#[test]
fn builtin_darwin_maps_to_macos_art() {
    let catalog = LogoConfig::new();
    let a = AsciiArt::get_logo("Darwin", &catalog);
    let b = AsciiArt::get_logo("macOS 14", &catalog);
    assert_eq!(a, b);
}

#[test]
fn builtin_list_order_decides_overlaps() {
    let catalog = LogoConfig::new();
    // "arch" comes before "mint" in the built-in list
    let logo = AsciiArt::get_logo("arch mint", &catalog);
    assert_eq!(logo, AsciiArt::get_logo("arch", &catalog));
}

#[test]
fn fallback_carries_cleaned_token_hint() {
    let catalog = LogoConfig::new();
    let logo = AsciiArt::get_logo("FooBarOS", &catalog);
    assert_eq!(logo.len(), 22);
    assert_eq!(logo[18], "");
    assert_eq!(logo[19], "# Create a custom logo with:");
    assert_eq!(logo[20], "# hxfetch --ascii-maker");
    assert_eq!(logo[21], "# Use 'foobaros' as OS name");
}

#[test]
fn fallback_for_unknown_has_no_hint() {
    let catalog = LogoConfig::new();
    let logo = AsciiArt::get_logo("unknown", &catalog);
    assert_eq!(logo.len(), 18);
}

#[test]
fn catalog_exact_beats_substring() {
    let mut catalog = LogoConfig::new();
    catalog.add_logo("ubuntu", "plain", strings(&["plain"]), false);
    catalog.add_logo("ubuntu mate", "mate", strings(&["mate"]), false);
    let hit = catalog.get_logo("Ubuntu Mate").unwrap();
    assert_eq!(hit.function_name, "mate");
}

#[test]
fn catalog_substring_uses_insertion_order() {
    let mut catalog = LogoConfig::new();
    catalog.add_logo("foo", "first", strings(&["F"]), false);
    catalog.add_logo("bar", "second", strings(&["B"]), false);
    let hit = catalog.get_logo("has foo and bar").unwrap();
    assert_eq!(hit.function_name, "first");
}

#[test]
fn catalog_add_replaces_existing_key() {
    let mut catalog = LogoConfig::new();
    catalog.add_logo("Ubuntu", "old", strings(&["O"]), false);
    catalog.add_logo("UBUNTU", "new", strings(&["N"]), true);
    let keys = catalog.list_logos();
    assert_eq!(keys.len(), 1);
    assert_eq!(*keys[0], "ubuntu");
    let hit = catalog.get_logo("ubuntu").unwrap();
    assert_eq!(hit.function_name, "new");
    assert!(hit.colored);
}

#[test]
fn catalog_remove_reports_presence() {
    let mut catalog = LogoConfig::new();
    catalog.add_logo("void", "v", strings(&["V"]), false);
    assert!(catalog.remove_logo("Void"));
    assert!(!catalog.remove_logo("Void"));
    assert!(catalog.get_logo("void").is_none());
}

#[test]
fn catalog_miss_yields_none() {
    let catalog = LogoConfig::new();
    assert!(catalog.get_logo("anything").is_none());
}

#[test]
fn show_logo_matches_resolver() {
    let catalog = LogoConfig::new();
    let config = Config::default();
    let a = LogoDisplay::show_logo("Fedora 39", &config, &catalog);
    let b = AsciiArt::get_logo("Fedora 39", &catalog);
    assert_eq!(a, b);
    assert_eq!(a.len(), 9);
}

#[test]
fn debian_logo_keeps_color_sequences() {
    let catalog = LogoConfig::new();
    let logo = AsciiArt::get_logo("Debian GNU/Linux 12", &catalog);
    assert_eq!(logo.len(), 18);
    assert!(logo[0].contains('\u{1b}'));
}
