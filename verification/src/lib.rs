pub mod ansi;
pub mod ascii;
pub mod ascii_maker;
pub mod config;
pub mod security;
pub mod sysinfo;
pub mod layout;
pub mod logo_config;
pub mod logo;
pub mod display;
pub mod redactor;
pub mod text;
