//! Display configuration: per-field show/hide toggles, the privacy
//! toggle for CPU model redaction, and named colour choices.
//!
//! The configuration is a read-only snapshot for the duration of one
//! render; loading and saving it belong to outside collaborators.

use vstd::prelude::*;

verus! {

/// A named terminal colour.
#[derive(Clone, Copy, Debug, PartialEq, Eq, Structural)]
pub enum ColorChoice {
    Red,
    Green,
    Blue,
    Yellow,
    Magenta,
    Cyan,
    White,
    Black,
}

/// Feature toggles and colour choices for one render pass.
#[derive(Clone, Debug)]
pub struct Config {
    pub show_os: bool,
    pub show_kernel: bool,
    pub show_uptime: bool,
    pub show_cpu: bool,
    pub show_memory: bool,
    pub show_storage: bool,
    pub show_shell: bool,
    pub show_desktop: bool,
    pub show_terminal: bool,
    pub show_colors: bool,
    pub show_security: bool,
    pub show_firewall: bool,
    pub show_selinux: bool,
    pub show_apparmor: bool,
    pub show_updates: bool,
    pub show_ssh: bool,
    pub show_fail2ban: bool,
    pub show_encryption: bool,
    pub show_secure_boot: bool,
    pub show_gpu: bool,
    pub show_temperature: bool,
    pub show_network: bool,
    pub show_packages: bool,
    pub redact_cpu_model: bool,
    pub custom_logo_path: Option<String>,
    pub logo_width: Option<u32>,
    pub logo_height: Option<u32>,
    pub logo_color: ColorChoice,
    pub accent_color: ColorChoice,
    pub label_color: ColorChoice,
    pub value_color: ColorChoice,
    pub separator_color: ColorChoice,
}

/// The out-of-the-box configuration: everything shown, model redaction
/// off, cyan/blue colour scheme.
pub open spec fn default_config() -> Config {
    Config {
        show_os: true,
        show_kernel: true,
        show_uptime: true,
        show_cpu: true,
        show_memory: true,
        show_storage: true,
        show_shell: true,
        show_desktop: true,
        show_terminal: true,
        show_colors: true,
        show_security: true,
        show_firewall: true,
        show_selinux: true,
        show_apparmor: true,
        show_updates: true,
        show_ssh: true,
        show_fail2ban: true,
        show_encryption: true,
        show_secure_boot: true,
        show_gpu: true,
        show_temperature: true,
        show_network: true,
        show_packages: true,
        redact_cpu_model: false,
        custom_logo_path: None,
        logo_width: Some(30u32),
        logo_height: Some(20u32),
        logo_color: ColorChoice::Cyan,
        accent_color: ColorChoice::Blue,
        label_color: ColorChoice::Cyan,
        value_color: ColorChoice::White,
        separator_color: ColorChoice::Blue,
    }
}

impl Default for Config {
    fn default() -> (c: Config)
        ensures
            c == default_config(),
    {
        Config {
            show_os: true,
            show_kernel: true,
            show_uptime: true,
            show_cpu: true,
            show_memory: true,
            show_storage: true,
            show_shell: true,
            show_desktop: true,
            show_terminal: true,
            show_colors: true,
            show_security: true,
            show_firewall: true,
            show_selinux: true,
            show_apparmor: true,
            show_updates: true,
            show_ssh: true,
            show_fail2ban: true,
            show_encryption: true,
            show_secure_boot: true,
            show_gpu: true,
            show_temperature: true,
            show_network: true,
            show_packages: true,
            redact_cpu_model: false,
            custom_logo_path: None,
            logo_width: Some(30),
            logo_height: Some(20),
            logo_color: ColorChoice::Cyan,
            accent_color: ColorChoice::Blue,
            label_color: ColorChoice::Cyan,
            value_color: ColorChoice::White,
            separator_color: ColorChoice::Blue,
        }
    }
}

} // verus!
