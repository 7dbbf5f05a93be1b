//! Rendering: the information panel derived from host facts and the
//! display configuration, colorized through the `colored` crate, and
//! composed beside the logo into aligned rows.
//!
//! Colour is cosmetic: every contract here speaks of the
//! escape-stripped text of each line, which colorization never
//! changes.

use vstd::prelude::*;

use colored::Colorize;

verus! {

broadcast use vstd::string::group_string_axioms;

use vstd::string::{StrSliceExecFns, StringExecFns};
use crate::ansi::{
    stripped,
    scans_clean,
    width_of,
    lemma_strip_append,
    lemma_esc_free_plain,
};
use crate::config::{Config, ColorChoice};
use crate::sysinfo::{SystemInfo, SystemInfoV};
use crate::logo_config::LogoConfig;
use crate::logo::LogoDisplay;
use crate::redactor::{DataRedactor, redact_view};
use crate::layout::{
    compose,
    max_width,
    max_len,
    col_width,
    row_spec,
    line_at,
    spaces,
    lemma_rows_align,
    lemma_max_width_congruent,
};
use crate::logo_config::CustomLogo;
use crate::text::{chars_of, string_of, seq_eq_exec};

pub struct Display {
    pub config: Config,
}

/// Relies on colored's `Colorize::color` and the display of
/// `ColoredString`: the output is the input text, either unchanged or
/// wrapped in complete colour escape sequences (inner resets are
/// re-styled with complete sequences too), so the escape-stripped text
/// is unchanged and a clean line stays clean.
#[verifier::external_body]
fn colorize(s: &str, c: ColorChoice) -> (r: String)
    ensures
        stripped(r@) == stripped(s@),
        scans_clean(s@, 0) ==> scans_clean(r@, 0),
{
    let col = match c {
        ColorChoice::Red => colored::Color::Red,
        ColorChoice::Green => colored::Color::Green,
        ColorChoice::Blue => colored::Color::Blue,
        ColorChoice::Yellow => colored::Color::Yellow,
        ColorChoice::Magenta => colored::Color::Magenta,
        ColorChoice::Cyan => colored::Color::Cyan,
        ColorChoice::White => colored::Color::White,
        ColorChoice::Black => colored::Color::Black,
    };
    s.color(col).to_string()
}

/// Relies on colored's `Colorize::color` and `bold`, as `colorize`
/// does: styling never changes the escape-stripped text.
#[verifier::external_body]
fn colorize_bold(s: &str, c: ColorChoice) -> (r: String)
    ensures
        stripped(r@) == stripped(s@),
        scans_clean(s@, 0) ==> scans_clean(r@, 0),
{
    let col = match c {
        ColorChoice::Red => colored::Color::Red,
        ColorChoice::Green => colored::Color::Green,
        ColorChoice::Blue => colored::Color::Blue,
        ColorChoice::Yellow => colored::Color::Yellow,
        ColorChoice::Magenta => colored::Color::Magenta,
        ColorChoice::Cyan => colored::Color::Cyan,
        ColorChoice::White => colored::Color::White,
        ColorChoice::Black => colored::Color::Black,
    };
    s.color(col).bold().to_string()
}

/// Relies on colored's `Colorize::color` and `italic`, as `colorize`
/// does: styling never changes the escape-stripped text.
#[verifier::external_body]
fn colorize_italic(s: &str, c: ColorChoice) -> (r: String)
    ensures
        stripped(r@) == stripped(s@),
        scans_clean(s@, 0) ==> scans_clean(r@, 0),
{
    let col = match c {
        ColorChoice::Red => colored::Color::Red,
        ColorChoice::Green => colored::Color::Green,
        ColorChoice::Blue => colored::Color::Blue,
        ColorChoice::Yellow => colored::Color::Yellow,
        ColorChoice::Magenta => colored::Color::Magenta,
        ColorChoice::Cyan => colored::Color::Cyan,
        ColorChoice::White => colored::Color::White,
        ColorChoice::Black => colored::Color::Black,
    };
    s.color(col).italic().to_string()
}

/// A run of `n` dashes.
pub open spec fn dashes(n: int) -> Seq<char> {
    Seq::new(
        if n < 0 {
            0
        } else {
            n as nat
        },
        |i: int| '-',
    )
}

/// The stripped text of a "Label: value" panel line.
pub open spec fn label_line(lab: Seq<char>, val: Seq<char>) -> Seq<char> {
    stripped(lab) + ": "@ + stripped(val)
}

/// The stripped text of the title line, "hostname@hostname".
pub open spec fn title_line(f: SystemInfoV) -> Seq<char> {
    stripped(f.hostname) + "@"@ + stripped(f.hostname)
}

/// The stripped colour-palette line: eight colourized blocks.
pub open spec fn palette_line() -> Seq<char> {
    stripped("███"@) + stripped("███"@) + stripped("███"@) + stripped("███"@) + stripped("███"@)
        + stripped("███"@) + stripped("███"@) + stripped("███"@)
}

/// The first quarter of the system-information lines.
pub open spec fn main_a1(f: SystemInfoV, c: Config) -> Seq<Seq<char>> {
    (if c.show_os {
        seq![label_line("OS"@, f.os)]
    } else {
        Seq::empty()
    }) + (if c.show_kernel {
        seq![label_line("Kernel"@, f.kernel)]
    } else {
        Seq::empty()
    }) + (if c.show_uptime {
        seq![label_line("Uptime"@, f.uptime)]
    } else {
        Seq::empty()
    }) + (if c.show_cpu {
        seq![label_line("CPU"@, f.cpu)]
    } else {
        Seq::empty()
    })
}

/// The second quarter of the system-information lines.
pub open spec fn main_a2(f: SystemInfoV, c: Config) -> Seq<Seq<char>> {
    (if c.show_memory {
        seq![label_line("Memory"@, f.memory)]
    } else {
        Seq::empty()
    }) + (if c.show_storage {
        seq![label_line("Storage"@, f.storage)]
    } else {
        Seq::empty()
    }) + (if c.show_shell {
        seq![label_line("Shell"@, f.shell)]
    } else {
        Seq::empty()
    })
}

/// The first half of the system-information lines.
pub open spec fn main_a(f: SystemInfoV, c: Config) -> Seq<Seq<char>> {
    main_a1(f, c) + main_a2(f, c)
}

/// The third quarter of the system-information lines.
pub open spec fn main_b1(f: SystemInfoV, c: Config) -> Seq<Seq<char>> {
    (if c.show_desktop && f.desktop != "Unknown"@ {
        seq![label_line("DE"@, f.desktop)]
    } else {
        Seq::empty()
    }) + (if c.show_terminal {
        seq![label_line("Terminal"@, f.terminal)]
    } else {
        Seq::empty()
    }) + (if c.show_gpu && f.gpu != "Unknown"@ {
        seq![label_line("GPU"@, f.gpu)]
    } else {
        Seq::empty()
    })
}

/// The last quarter of the system-information lines.
pub open spec fn main_b2(f: SystemInfoV, c: Config) -> Seq<Seq<char>> {
    (if c.show_temperature && f.temperature != "Unknown"@ {
        seq![label_line("Temperature"@, f.temperature)]
    } else {
        Seq::empty()
    }) + (if c.show_network && f.network != "Unknown"@ {
        seq![label_line("Network"@, f.network)]
    } else {
        Seq::empty()
    }) + (if c.show_packages && f.packages != "Unknown"@ {
        seq![label_line("Packages"@, f.packages)]
    } else {
        Seq::empty()
    })
}

/// The second half of the system-information lines.
pub open spec fn main_b(f: SystemInfoV, c: Config) -> Seq<Seq<char>> {
    main_b1(f, c) + main_b2(f, c)
}

/// The system-information lines the configuration selects, in order.
pub open spec fn main_lines(f: SystemInfoV, c: Config) -> Seq<Seq<char>> {
    main_a(f, c) + main_b(f, c)
}

/// The first detailed security rows.
pub open spec fn sec_d1(f: SystemInfoV, c: Config) -> Seq<Seq<char>> {
    (if c.show_firewall && f.security.firewall_status != "None detected"@ {
        seq![label_line("Firewall"@, f.security.firewall_status)]
    } else {
        Seq::empty()
    }) + (if c.show_selinux && f.security.selinux_status != "Not available"@ {
        seq![label_line("SELinux"@, f.security.selinux_status)]
    } else {
        Seq::empty()
    }) + (if c.show_ssh {
        seq![label_line("SSH"@, f.security.ssh_status)]
    } else {
        Seq::empty()
    })
}

/// The remaining detailed security rows.
pub open spec fn sec_d2(f: SystemInfoV, c: Config) -> Seq<Seq<char>> {
    (if c.show_fail2ban && f.security.fail2ban_status != "Not installed"@ {
        seq![label_line("Fail2Ban"@, f.security.fail2ban_status)]
    } else {
        Seq::empty()
    }) + (if c.show_secure_boot && f.security.secure_boot != "Unknown"@ {
        seq![label_line("Secure Boot"@, f.security.secure_boot)]
    } else {
        Seq::empty()
    })
}

/// The detailed security rows, shown only outside screenshot mode.
pub open spec fn sec_detail(f: SystemInfoV, c: Config) -> Seq<Seq<char>> {
    sec_d1(f, c) + sec_d2(f, c)
}

/// The security rows shown in every mode, plus the screenshot hint.
pub open spec fn sec_after(f: SystemInfoV, c: Config, screenshot: bool) -> Seq<Seq<char>> {
    (if c.show_apparmor && f.security.apparmor_status != "Not available"@ {
        seq![label_line("AppArmor"@, f.security.apparmor_status)]
    } else {
        Seq::empty()
    }) + (if c.show_updates {
        seq![label_line("Updates"@, f.security.package_updates)]
    } else {
        Seq::empty()
    }) + (if c.show_encryption && f.security.disk_encryption != "None detected"@ {
        seq![label_line("Encryption"@, f.security.disk_encryption)]
    } else {
        Seq::empty()
    }) + (if screenshot {
        seq![stripped("Additional security details hidden in screenshot mode"@)]
    } else {
        Seq::empty()
    })
}

/// The security section: detailed rows only outside screenshot mode,
/// the defensive rows always, and a hint line in screenshot mode.
pub open spec fn security_lines(f: SystemInfoV, c: Config, screenshot: bool) -> Seq<Seq<char>> {
    if !c.show_security {
        Seq::empty()
    } else {
        seq![Seq::<char>::empty(), stripped("Security:"@)] + (if !screenshot {
            sec_detail(f, c)
        } else {
            Seq::empty()
        }) + sec_after(f, c, screenshot)
    }
}

/// The closing lines: spacing, the redaction notice in screenshot
/// mode, and the colour palette.
pub open spec fn tail_lines(c: Config, screenshot: bool) -> Seq<Seq<char>> {
    seq![Seq::<char>::empty()] + (if screenshot {
        seq![
            stripped("\u{1f512} Screenshot mode: Sensitive information redacted"@),
            Seq::<char>::empty(),
        ]
    } else {
        Seq::empty()
    }) + (if c.show_colors {
        seq![palette_line()]
    } else {
        Seq::empty()
    })
}

/// The stripped text of every panel line, in order: title, separator,
/// the selected system lines, the security section, the tail.
pub open spec fn panel_spec(f: SystemInfoV, c: Config, screenshot: bool) -> Seq<Seq<char>> {
    seq![title_line(f), dashes(2 * f.hostname.len() as int + 1)] + main_lines(f, c) + security_lines(
        f,
        c,
        screenshot,
    ) + tail_lines(c, screenshot)
}

/// The stripped text of each line.
pub open spec fn strip_all(ls: Seq<Seq<char>>) -> Seq<Seq<char>> {
    Seq::new(ls.len(), |i: int| stripped(ls[i]))
}

proof fn lemma_add_assoc<T>(x: Seq<T>, a: Seq<T>, b: Seq<T>)
    ensures
        (x + a) + b == x + (a + b),
{
    assert((x + a) + b =~= x + (a + b));
}

/// Append a line.
fn push_line(lines: &mut Vec<String>, s: String)
    ensures
        final(lines).deep_view() == old(lines).deep_view().push(s@),
{
    let ghost prev = lines.deep_view();
    let ghost sv = s@;
    lines.push(s);
    proof {
        assert(lines.deep_view() =~= prev.push(sv));
    }
}

impl Display {
    pub fn new(config: Config) -> (r: Display)
        ensures
            r.config == config,
    {
        Display { config }
    }

    /// One "Label: value" row, label and value in their configured
    /// colours.
    fn info_row(&self, label: &str, value: &str) -> (r: String)
        requires
            scans_clean(label@, 0),
        ensures
            stripped(r@) == label_line(label@, value@),
    {
        let cl = colorize_bold(label, self.config.label_color);
        let cv = colorize(value, self.config.value_color);
        let ghost cl0 = cl@;
        let mut r = cl;
        r.append(": ");
        r.append(cv.as_str());
        proof {
            reveal_strlit(": ");
            assert(forall|k: int| 0 <= k < ": "@.len() ==> ": "@[k] != '\u{1b}');
            lemma_esc_free_plain(": "@);
            assert(r@ =~= cl0 + (": "@ + cv@));
            lemma_strip_append(cl0, ": "@ + cv@);
            lemma_strip_append(": "@, cv@);
        }
        r
    }

    /// The title row, "hostname@hostname" in the accent colour; its
    /// stripped text is pinned for hostnames that scan clean.
    fn title_row(&self, hostname: &str) -> (r: String)
        ensures
            scans_clean(hostname@, 0) ==> stripped(r@) == stripped(hostname@) + "@"@ + stripped(
                hostname@,
            ),
    {
        let c1 = colorize_bold(hostname, self.config.accent_color);
        let c2 = colorize_bold(hostname, self.config.accent_color);
        let ghost c1v = c1@;
        let mut r = c1;
        r.append("@");
        r.append(c2.as_str());
        proof {
            if scans_clean(hostname@, 0) {
                reveal_strlit("@");
                assert(forall|k: int| 0 <= k < "@"@.len() ==> "@"@[k] != '\u{1b}');
                lemma_esc_free_plain("@"@);
                assert(r@ =~= c1v + ("@"@ + c2@));
                lemma_strip_append(c1v, "@"@ + c2@);
                lemma_strip_append("@"@, c2@);
            }
        }
        r
    }

    /// The separator row: one dash per title character, coloured.
    fn separator_row(&self, n: usize) -> (r: String)
        ensures
            stripped(r@) == dashes(n as int),
    {
        let mut d: Vec<char> = Vec::new();
        let mut k: usize = 0;
        while k < n
            invariant
                k <= n,
                d@ == dashes(k as int),
            decreases n - k,
        {
            d.push('-');
            k = k + 1;
            proof {
                assert(d@ =~= dashes(k as int));
            }
        }
        let plain = string_of(&d);
        let r = colorize(plain.as_str(), self.config.separator_color);
        proof {
            assert(forall|j: int| 0 <= j < d@.len() ==> d@[j] != '\u{1b}');
            lemma_esc_free_plain(d@);
        }
        r
    }

    /// The colour palette: eight colourized blocks.
    fn format_color_palette(&self) -> (r: String)
        ensures
            stripped(r@) == palette_line(),
    {
        proof {
            reveal_strlit("███");
            assert(forall|k: int| 0 <= k < "███"@.len() ==> "███"@[k] != '\u{1b}');
            lemma_esc_free_plain("███"@);
        }
        let b1 = colorize("███", ColorChoice::Black);
        let b2 = colorize("███", ColorChoice::Red);
        let b3 = colorize("███", ColorChoice::Green);
        let b4 = colorize("███", ColorChoice::Yellow);
        let b5 = colorize("███", ColorChoice::Blue);
        let b6 = colorize("███", ColorChoice::Magenta);
        let b7 = colorize("███", ColorChoice::Cyan);
        let b8 = colorize("███", ColorChoice::White);
        let ghost v1 = b1@;
        let ghost v2 = b2@;
        let ghost v3 = b3@;
        let ghost v4 = b4@;
        let ghost v5 = b5@;
        let ghost v6 = b6@;
        let ghost v7 = b7@;
        let ghost v8 = b8@;
        let mut r = b1;
        r.append(b2.as_str());
        r.append(b3.as_str());
        r.append(b4.as_str());
        r.append(b5.as_str());
        r.append(b6.as_str());
        r.append(b7.as_str());
        r.append(b8.as_str());
        proof {
            let blk = stripped("███"@);
            assert(r@ =~= v1 + (v2 + (v3 + (v4 + (v5 + (v6 + (v7 + v8)))))));
            lemma_strip_append(v1, v2 + (v3 + (v4 + (v5 + (v6 + (v7 + v8))))));
            lemma_strip_append(v2, v3 + (v4 + (v5 + (v6 + (v7 + v8)))));
            lemma_strip_append(v3, v4 + (v5 + (v6 + (v7 + v8))));
            lemma_strip_append(v4, v5 + (v6 + (v7 + v8)));
            lemma_strip_append(v5, v6 + (v7 + v8));
            lemma_strip_append(v6, v7 + v8);
            lemma_strip_append(v7, v8);
        }
        r
    }

    /// Append the configured system-information rows.
    fn push_main(&self, info: &SystemInfo, lines: &mut Vec<String>)
        ensures
            strip_all(final(lines).deep_view()) == strip_all(old(lines).deep_view()) + main_lines(
                info@,
                self.config,
            ),
    {
        let ghost f = info@;
        let ghost c = self.config;
        let ghost base0 = strip_all(lines.deep_view());
        self.push_main_a(info, lines);
        let ghost mid = strip_all(lines.deep_view());
        self.push_main_b(info, lines);
        proof {
            assert(mid == base0 + main_a(f, c));
            assert(strip_all(lines.deep_view()) == (base0 + main_a(f, c)) + main_b(f, c));
            lemma_add_assoc(base0, main_a(f, c), main_b(f, c));
        }
    }

    /// Append the first half of the system-information rows.
    fn push_main_a(&self, info: &SystemInfo, lines: &mut Vec<String>)
        ensures
            strip_all(final(lines).deep_view()) == strip_all(old(lines).deep_view()) + main_a(
                info@,
                self.config,
            ),
    {
        let ghost f = info@;
        let ghost c = self.config;
        let ghost base0 = strip_all(lines.deep_view());
        self.push_main_a1(info, lines);
        self.push_main_a2(info, lines);
        proof {
            assert(strip_all(lines.deep_view()) == (base0 + main_a1(f, c)) + main_a2(f, c));
            lemma_add_assoc(base0, main_a1(f, c), main_a2(f, c));
        }
    }

    /// Append the first quarter of the system-information rows.
    #[verifier::rlimit(100)]
    #[verifier::spinoff_prover]
    fn push_main_a1(&self, info: &SystemInfo, lines: &mut Vec<String>)
        ensures
            strip_all(final(lines).deep_view()) == strip_all(old(lines).deep_view()) + main_a1(
                info@,
                self.config,
            ),
    {
        let ghost f = info@;
        let ghost c = self.config;
        let ghost base = strip_all(lines.deep_view());
        if self.config.show_os {
            proof {
                reveal_strlit("OS");
                assert(forall|k: int| 0 <= k < "OS"@.len() ==> "OS"@[k] != '\u{1b}');
                lemma_esc_free_plain("OS"@);
            }
            let row = self.info_row("OS", info.os.as_str());
            push_line(lines, row);
        }
        proof {
            lemma_strip_all_push_opt(lines.deep_view());
            assert(strip_all(lines.deep_view()) =~= base + (if c.show_os {
                seq![label_line("OS"@, f.os)]
            } else {
                Seq::empty()
            }));
        }
        let ghost s1 = strip_all(lines.deep_view());
        if self.config.show_kernel {
            proof {
                reveal_strlit("Kernel");
                assert(forall|k: int| 0 <= k < "Kernel"@.len() ==> "Kernel"@[k] != '\u{1b}');
                lemma_esc_free_plain("Kernel"@);
            }
            let row = self.info_row("Kernel", info.kernel.as_str());
            push_line(lines, row);
        }
        proof {
            lemma_strip_all_push_opt(lines.deep_view());
            assert(strip_all(lines.deep_view()) =~= s1 + (if c.show_kernel {
                seq![label_line("Kernel"@, f.kernel)]
            } else {
                Seq::empty()
            }));
        }
        let ghost s2 = strip_all(lines.deep_view());
        if self.config.show_uptime {
            proof {
                reveal_strlit("Uptime");
                assert(forall|k: int| 0 <= k < "Uptime"@.len() ==> "Uptime"@[k] != '\u{1b}');
                lemma_esc_free_plain("Uptime"@);
            }
            let row = self.info_row("Uptime", info.uptime.as_str());
            push_line(lines, row);
        }
        proof {
            lemma_strip_all_push_opt(lines.deep_view());
            assert(strip_all(lines.deep_view()) =~= s2 + (if c.show_uptime {
                seq![label_line("Uptime"@, f.uptime)]
            } else {
                Seq::empty()
            }));
        }
        let ghost s3 = strip_all(lines.deep_view());
        if self.config.show_cpu {
            proof {
                reveal_strlit("CPU");
                assert(forall|k: int| 0 <= k < "CPU"@.len() ==> "CPU"@[k] != '\u{1b}');
                lemma_esc_free_plain("CPU"@);
            }
            let row = self.info_row("CPU", info.cpu.as_str());
            push_line(lines, row);
        }
        proof {
            lemma_strip_all_push_opt(lines.deep_view());
            assert(strip_all(lines.deep_view()) =~= s3 + (if c.show_cpu {
                seq![label_line("CPU"@, f.cpu)]
            } else {
                Seq::empty()
            }));
        }
        proof {
            assert(strip_all(lines.deep_view()) =~= base + main_a1(f, c));
        }
    }

    /// Append the second quarter of the system-information rows.
    #[verifier::rlimit(100)]
    #[verifier::spinoff_prover]
    fn push_main_a2(&self, info: &SystemInfo, lines: &mut Vec<String>)
        ensures
            strip_all(final(lines).deep_view()) == strip_all(old(lines).deep_view()) + main_a2(
                info@,
                self.config,
            ),
    {
        let ghost f = info@;
        let ghost c = self.config;
        let ghost s4 = strip_all(lines.deep_view());
        if self.config.show_memory {
            proof {
                reveal_strlit("Memory");
                assert(forall|k: int| 0 <= k < "Memory"@.len() ==> "Memory"@[k] != '\u{1b}');
                lemma_esc_free_plain("Memory"@);
            }
            let row = self.info_row("Memory", info.memory.as_str());
            push_line(lines, row);
        }
        proof {
            lemma_strip_all_push_opt(lines.deep_view());
            assert(strip_all(lines.deep_view()) =~= s4 + (if c.show_memory {
                seq![label_line("Memory"@, f.memory)]
            } else {
                Seq::empty()
            }));
        }
        let ghost s5 = strip_all(lines.deep_view());
        if self.config.show_storage {
            proof {
                reveal_strlit("Storage");
                assert(forall|k: int| 0 <= k < "Storage"@.len() ==> "Storage"@[k] != '\u{1b}');
                lemma_esc_free_plain("Storage"@);
            }
            let row = self.info_row("Storage", info.storage.as_str());
            push_line(lines, row);
        }
        proof {
            lemma_strip_all_push_opt(lines.deep_view());
            assert(strip_all(lines.deep_view()) =~= s5 + (if c.show_storage {
                seq![label_line("Storage"@, f.storage)]
            } else {
                Seq::empty()
            }));
        }
        let ghost s6 = strip_all(lines.deep_view());
        if self.config.show_shell {
            proof {
                reveal_strlit("Shell");
                assert(forall|k: int| 0 <= k < "Shell"@.len() ==> "Shell"@[k] != '\u{1b}');
                lemma_esc_free_plain("Shell"@);
            }
            let row = self.info_row("Shell", info.shell.as_str());
            push_line(lines, row);
        }
        proof {
            lemma_strip_all_push_opt(lines.deep_view());
            assert(strip_all(lines.deep_view()) =~= s6 + (if c.show_shell {
                seq![label_line("Shell"@, f.shell)]
            } else {
                Seq::empty()
            }));
            assert(strip_all(lines.deep_view()) =~= s4 + main_a2(f, c));
        }
    }

    /// Append the second half of the system-information rows.
    fn push_main_b(&self, info: &SystemInfo, lines: &mut Vec<String>)
        ensures
            strip_all(final(lines).deep_view()) == strip_all(old(lines).deep_view()) + main_b(
                info@,
                self.config,
            ),
    {
        let ghost f = info@;
        let ghost c = self.config;
        let ghost base0 = strip_all(lines.deep_view());
        self.push_main_b1(info, lines);
        self.push_main_b2(info, lines);
        proof {
            assert(strip_all(lines.deep_view()) == (base0 + main_b1(f, c)) + main_b2(f, c));
            lemma_add_assoc(base0, main_b1(f, c), main_b2(f, c));
        }
    }

    /// Append the third quarter of the system-information rows.
    #[verifier::rlimit(100)]
    #[verifier::spinoff_prover]
    fn push_main_b1(&self, info: &SystemInfo, lines: &mut Vec<String>)
        ensures
            strip_all(final(lines).deep_view()) == strip_all(old(lines).deep_view()) + main_b1(
                info@,
                self.config,
            ),
    {
        let ghost f = info@;
        let ghost c = self.config;
        let ghost s7 = strip_all(lines.deep_view());
        let desktop_chars = chars_of(info.desktop.as_str());
        if self.config.show_desktop && !seq_eq_exec(&desktop_chars, "Unknown") {
            proof {
                reveal_strlit("DE");
                assert(forall|k: int| 0 <= k < "DE"@.len() ==> "DE"@[k] != '\u{1b}');
                lemma_esc_free_plain("DE"@);
            }
            let row = self.info_row("DE", info.desktop.as_str());
            push_line(lines, row);
        }
        proof {
            lemma_strip_all_push_opt(lines.deep_view());
            assert(strip_all(lines.deep_view()) =~= s7 + (if c.show_desktop && f.desktop
                != "Unknown"@ {
                seq![label_line("DE"@, f.desktop)]
            } else {
                Seq::empty()
            }));
        }
        let ghost s8 = strip_all(lines.deep_view());
        if self.config.show_terminal {
            proof {
                reveal_strlit("Terminal");
                assert(forall|k: int| 0 <= k < "Terminal"@.len() ==> "Terminal"@[k] != '\u{1b}');
                lemma_esc_free_plain("Terminal"@);
            }
            let row = self.info_row("Terminal", info.terminal.as_str());
            push_line(lines, row);
        }
        proof {
            lemma_strip_all_push_opt(lines.deep_view());
            assert(strip_all(lines.deep_view()) =~= s8 + (if c.show_terminal {
                seq![label_line("Terminal"@, f.terminal)]
            } else {
                Seq::empty()
            }));
        }
        let ghost s9 = strip_all(lines.deep_view());
        let gpu_chars = chars_of(info.gpu.as_str());
        if self.config.show_gpu && !seq_eq_exec(&gpu_chars, "Unknown") {
            proof {
                reveal_strlit("GPU");
                assert(forall|k: int| 0 <= k < "GPU"@.len() ==> "GPU"@[k] != '\u{1b}');
                lemma_esc_free_plain("GPU"@);
            }
            let row = self.info_row("GPU", info.gpu.as_str());
            push_line(lines, row);
        }
        proof {
            lemma_strip_all_push_opt(lines.deep_view());
            assert(strip_all(lines.deep_view()) =~= s9 + (if c.show_gpu && f.gpu != "Unknown"@ {
                seq![label_line("GPU"@, f.gpu)]
            } else {
                Seq::empty()
            }));
        }
        proof {
            assert(strip_all(lines.deep_view()) =~= s7 + main_b1(f, c));
        }
    }

    /// Append the last quarter of the system-information rows.
    #[verifier::rlimit(100)]
    #[verifier::spinoff_prover]
    fn push_main_b2(&self, info: &SystemInfo, lines: &mut Vec<String>)
        ensures
            strip_all(final(lines).deep_view()) == strip_all(old(lines).deep_view()) + main_b2(
                info@,
                self.config,
            ),
    {
        let ghost f = info@;
        let ghost c = self.config;
        let ghost s10 = strip_all(lines.deep_view());
        let temp_chars = chars_of(info.temperature.as_str());
        if self.config.show_temperature && !seq_eq_exec(&temp_chars, "Unknown") {
            proof {
                reveal_strlit("Temperature");
                assert(forall|k: int|
                    0 <= k < "Temperature"@.len() ==> "Temperature"@[k] != '\u{1b}');
                lemma_esc_free_plain("Temperature"@);
            }
            let row = self.info_row("Temperature", info.temperature.as_str());
            push_line(lines, row);
        }
        proof {
            lemma_strip_all_push_opt(lines.deep_view());
            assert(strip_all(lines.deep_view()) =~= s10 + (if c.show_temperature && f.temperature
                != "Unknown"@ {
                seq![label_line("Temperature"@, f.temperature)]
            } else {
                Seq::empty()
            }));
        }
        let ghost s11 = strip_all(lines.deep_view());
        let net_chars = chars_of(info.network.as_str());
        if self.config.show_network && !seq_eq_exec(&net_chars, "Unknown") {
            proof {
                reveal_strlit("Network");
                assert(forall|k: int| 0 <= k < "Network"@.len() ==> "Network"@[k] != '\u{1b}');
                lemma_esc_free_plain("Network"@);
            }
            let row = self.info_row("Network", info.network.as_str());
            push_line(lines, row);
        }
        proof {
            lemma_strip_all_push_opt(lines.deep_view());
            assert(strip_all(lines.deep_view()) =~= s11 + (if c.show_network && f.network
                != "Unknown"@ {
                seq![label_line("Network"@, f.network)]
            } else {
                Seq::empty()
            }));
        }
        let ghost s12 = strip_all(lines.deep_view());
        let pkg_chars = chars_of(info.packages.as_str());
        if self.config.show_packages && !seq_eq_exec(&pkg_chars, "Unknown") {
            proof {
                reveal_strlit("Packages");
                assert(forall|k: int| 0 <= k < "Packages"@.len() ==> "Packages"@[k] != '\u{1b}');
                lemma_esc_free_plain("Packages"@);
            }
            let row = self.info_row("Packages", info.packages.as_str());
            push_line(lines, row);
        }
        proof {
            lemma_strip_all_push_opt(lines.deep_view());
            assert(strip_all(lines.deep_view()) =~= s12 + (if c.show_packages && f.packages
                != "Unknown"@ {
                seq![label_line("Packages"@, f.packages)]
            } else {
                Seq::empty()
            }));
            assert(strip_all(lines.deep_view()) =~= s10 + main_b2(f, c));
        }
    }

    /// Append the security section.
    fn push_security(&self, info: &SystemInfo, screenshot_mode: bool, lines: &mut Vec<String>)
        ensures
            strip_all(final(lines).deep_view()) == strip_all(old(lines).deep_view())
                + security_lines(info@, self.config, screenshot_mode),
    {
        let ghost f = info@;
        let ghost c = self.config;
        let ghost base = strip_all(lines.deep_view());
        if !self.config.show_security {
            proof {
                assert(strip_all(lines.deep_view()) =~= base + security_lines(
                    f,
                    c,
                    screenshot_mode,
                ));
            }
            return ;
        }
        push_line(lines, String::new());
        let head = colorize_bold("Security:", self.config.accent_color);
        push_line(lines, head);
        proof {
            lemma_strip_all_push_opt(lines.deep_view());
            assert(stripped(Seq::<char>::empty()) =~= Seq::<char>::empty());
            assert(strip_all(lines.deep_view()) =~= base + seq![
                Seq::<char>::empty(),
                stripped("Security:"@),
            ]);
        }
        let ghost s0 = strip_all(lines.deep_view());
        if !screenshot_mode {
            self.push_sec_detail(info, lines);
        }
        proof {
            assert(strip_all(lines.deep_view()) =~= s0 + (if !screenshot_mode {
                sec_detail(f, c)
            } else {
                Seq::empty()
            }));
        }
        self.push_sec_after(info, screenshot_mode, lines);
        proof {
            assert(strip_all(lines.deep_view()) =~= base + security_lines(f, c, screenshot_mode));
        }
    }

    /// Append the detailed security rows.
    fn push_sec_detail(&self, info: &SystemInfo, lines: &mut Vec<String>)
        ensures
            strip_all(final(lines).deep_view()) == strip_all(old(lines).deep_view()) + sec_detail(
                info@,
                self.config,
            ),
    {
        let ghost f = info@;
        let ghost c = self.config;
        let ghost base0 = strip_all(lines.deep_view());
        self.push_sec_d1(info, lines);
        self.push_sec_d2(info, lines);
        proof {
            assert(strip_all(lines.deep_view()) == (base0 + sec_d1(f, c)) + sec_d2(f, c));
            lemma_add_assoc(base0, sec_d1(f, c), sec_d2(f, c));
        }
    }

    /// Append the first detailed security rows.
    #[verifier::rlimit(100)]
    #[verifier::spinoff_prover]
    fn push_sec_d1(&self, info: &SystemInfo, lines: &mut Vec<String>)
        ensures
            strip_all(final(lines).deep_view()) == strip_all(old(lines).deep_view()) + sec_d1(
                info@,
                self.config,
            ),
    {
        let ghost f = info@;
        let ghost c = self.config;
        let ghost s0 = strip_all(lines.deep_view());
        {
            let fw_chars = chars_of(info.security.firewall_status.as_str());
            if self.config.show_firewall && !seq_eq_exec(&fw_chars, "None detected") {
                proof {
                    reveal_strlit("Firewall");
                    assert(forall|k: int|
                        0 <= k < "Firewall"@.len() ==> "Firewall"@[k] != '\u{1b}');
                    lemma_esc_free_plain("Firewall"@);
                }
                let row = self.info_row("Firewall", info.security.firewall_status.as_str());
                push_line(lines, row);
            }
            proof {
                lemma_strip_all_push_opt(lines.deep_view());
                assert(strip_all(lines.deep_view()) =~= s0 + (if c.show_firewall
                    && f.security.firewall_status != "None detected"@ {
                    seq![label_line("Firewall"@, f.security.firewall_status)]
                } else {
                    Seq::empty()
                }));
            }
            let ghost t1 = strip_all(lines.deep_view());
            let se_chars = chars_of(info.security.selinux_status.as_str());
            if self.config.show_selinux && !seq_eq_exec(&se_chars, "Not available") {
                proof {
                    reveal_strlit("SELinux");
                    assert(forall|k: int| 0 <= k < "SELinux"@.len() ==> "SELinux"@[k] != '\u{1b}');
                    lemma_esc_free_plain("SELinux"@);
                }
                let row = self.info_row("SELinux", info.security.selinux_status.as_str());
                push_line(lines, row);
            }
            proof {
                lemma_strip_all_push_opt(lines.deep_view());
                assert(strip_all(lines.deep_view()) =~= t1 + (if c.show_selinux
                    && f.security.selinux_status != "Not available"@ {
                    seq![label_line("SELinux"@, f.security.selinux_status)]
                } else {
                    Seq::empty()
                }));
            }
            let ghost t2 = strip_all(lines.deep_view());
            if self.config.show_ssh {
                proof {
                    reveal_strlit("SSH");
                    assert(forall|k: int| 0 <= k < "SSH"@.len() ==> "SSH"@[k] != '\u{1b}');
                    lemma_esc_free_plain("SSH"@);
                }
                let row = self.info_row("SSH", info.security.ssh_status.as_str());
                push_line(lines, row);
            }
            proof {
                lemma_strip_all_push_opt(lines.deep_view());
                assert(strip_all(lines.deep_view()) =~= t2 + (if c.show_ssh {
                    seq![label_line("SSH"@, f.security.ssh_status)]
                } else {
                    Seq::empty()
                }));
            }
            proof {
                assert(strip_all(lines.deep_view()) =~= s0 + sec_d1(f, c));
            }
        }
    }

    /// Append the remaining detailed security rows.
    #[verifier::rlimit(100)]
    #[verifier::spinoff_prover]
    fn push_sec_d2(&self, info: &SystemInfo, lines: &mut Vec<String>)
        ensures
            strip_all(final(lines).deep_view()) == strip_all(old(lines).deep_view()) + sec_d2(
                info@,
                self.config,
            ),
    {
        let ghost f = info@;
        let ghost c = self.config;
        let ghost t3 = strip_all(lines.deep_view());
        {
            let fb_chars = chars_of(info.security.fail2ban_status.as_str());
            if self.config.show_fail2ban && !seq_eq_exec(&fb_chars, "Not installed") {
                proof {
                    reveal_strlit("Fail2Ban");
                    assert(forall|k: int|
                        0 <= k < "Fail2Ban"@.len() ==> "Fail2Ban"@[k] != '\u{1b}');
                    lemma_esc_free_plain("Fail2Ban"@);
                }
                let row = self.info_row("Fail2Ban", info.security.fail2ban_status.as_str());
                push_line(lines, row);
            }
            proof {
                lemma_strip_all_push_opt(lines.deep_view());
                assert(strip_all(lines.deep_view()) =~= t3 + (if c.show_fail2ban
                    && f.security.fail2ban_status != "Not installed"@ {
                    seq![label_line("Fail2Ban"@, f.security.fail2ban_status)]
                } else {
                    Seq::empty()
                }));
            }
            let ghost t4 = strip_all(lines.deep_view());
            let sb_chars = chars_of(info.security.secure_boot.as_str());
            if self.config.show_secure_boot && !seq_eq_exec(&sb_chars, "Unknown") {
                proof {
                    reveal_strlit("Secure Boot");
                    assert(forall|k: int|
                        0 <= k < "Secure Boot"@.len() ==> "Secure Boot"@[k] != '\u{1b}');
                    lemma_esc_free_plain("Secure Boot"@);
                }
                let row = self.info_row("Secure Boot", info.security.secure_boot.as_str());
                push_line(lines, row);
            }
            proof {
                lemma_strip_all_push_opt(lines.deep_view());
                assert(strip_all(lines.deep_view()) =~= t4 + (if c.show_secure_boot
                    && f.security.secure_boot != "Unknown"@ {
                    seq![label_line("Secure Boot"@, f.security.secure_boot)]
                } else {
                    Seq::empty()
                }));
                assert(strip_all(lines.deep_view()) =~= t3 + sec_d2(f, c));
            }
        }
    }

    /// Append the always-shown security rows and the screenshot hint.
    #[verifier::rlimit(100)]
    #[verifier::spinoff_prover]
    fn push_sec_after(&self, info: &SystemInfo, screenshot_mode: bool, lines: &mut Vec<String>)
        ensures
            strip_all(final(lines).deep_view()) == strip_all(old(lines).deep_view()) + sec_after(
                info@,
                self.config,
                screenshot_mode,
            ),
    {
        let ghost f = info@;
        let ghost c = self.config;
        let ghost s1 = strip_all(lines.deep_view());
        let aa_chars = chars_of(info.security.apparmor_status.as_str());
        if self.config.show_apparmor && !seq_eq_exec(&aa_chars, "Not available") {
            proof {
                reveal_strlit("AppArmor");
                assert(forall|k: int| 0 <= k < "AppArmor"@.len() ==> "AppArmor"@[k] != '\u{1b}');
                lemma_esc_free_plain("AppArmor"@);
            }
            let row = self.info_row("AppArmor", info.security.apparmor_status.as_str());
            push_line(lines, row);
        }
        proof {
            lemma_strip_all_push_opt(lines.deep_view());
            assert(strip_all(lines.deep_view()) =~= s1 + (if c.show_apparmor
                && f.security.apparmor_status != "Not available"@ {
                seq![label_line("AppArmor"@, f.security.apparmor_status)]
            } else {
                Seq::empty()
            }));
        }
        let ghost s2 = strip_all(lines.deep_view());
        if self.config.show_updates {
            proof {
                reveal_strlit("Updates");
                assert(forall|k: int| 0 <= k < "Updates"@.len() ==> "Updates"@[k] != '\u{1b}');
                lemma_esc_free_plain("Updates"@);
            }
            let row = self.info_row("Updates", info.security.package_updates.as_str());
            push_line(lines, row);
        }
        proof {
            lemma_strip_all_push_opt(lines.deep_view());
            assert(strip_all(lines.deep_view()) =~= s2 + (if c.show_updates {
                seq![label_line("Updates"@, f.security.package_updates)]
            } else {
                Seq::empty()
            }));
        }
        let ghost s3 = strip_all(lines.deep_view());
        let de_chars = chars_of(info.security.disk_encryption.as_str());
        if self.config.show_encryption && !seq_eq_exec(&de_chars, "None detected") {
            proof {
                reveal_strlit("Encryption");
                assert(forall|k: int|
                    0 <= k < "Encryption"@.len() ==> "Encryption"@[k] != '\u{1b}');
                lemma_esc_free_plain("Encryption"@);
            }
            let row = self.info_row("Encryption", info.security.disk_encryption.as_str());
            push_line(lines, row);
        }
        proof {
            lemma_strip_all_push_opt(lines.deep_view());
            assert(strip_all(lines.deep_view()) =~= s3 + (if c.show_encryption
                && f.security.disk_encryption != "None detected"@ {
                seq![label_line("Encryption"@, f.security.disk_encryption)]
            } else {
                Seq::empty()
            }));
        }
        let ghost s4 = strip_all(lines.deep_view());
        if screenshot_mode {
            let hidden = colorize_italic(
                "Additional security details hidden in screenshot mode",
                ColorChoice::Yellow,
            );
            push_line(lines, hidden);
        }
        proof {
            lemma_strip_all_push_opt(lines.deep_view());
            assert(strip_all(lines.deep_view()) =~= s4 + (if screenshot_mode {
                seq![stripped("Additional security details hidden in screenshot mode"@)]
            } else {
                Seq::empty()
            }));
            assert(strip_all(lines.deep_view()) =~= s1 + sec_after(f, c, screenshot_mode));
        }
    }

    /// Append the closing lines.
    fn push_tail(&self, screenshot_mode: bool, lines: &mut Vec<String>)
        ensures
            strip_all(final(lines).deep_view()) == strip_all(old(lines).deep_view()) + tail_lines(
                self.config,
                screenshot_mode,
            ),
    {
        let ghost c = self.config;
        let ghost base = strip_all(lines.deep_view());
        push_line(lines, String::new());
        proof {
            lemma_strip_all_push_opt(lines.deep_view());
            assert(stripped(Seq::<char>::empty()) =~= Seq::<char>::empty());
            assert(strip_all(lines.deep_view()) =~= base + seq![Seq::<char>::empty()]);
        }
        let ghost s0 = strip_all(lines.deep_view());
        if screenshot_mode {
            let notice = DataRedactor::get_redaction_notice();
            let banner = colorize_bold(notice.as_str(), ColorChoice::Yellow);
            push_line(lines, banner);
            push_line(lines, String::new());
        }
        proof {
            lemma_strip_all_push_opt(lines.deep_view());
            assert(stripped(Seq::<char>::empty()) =~= Seq::<char>::empty());
            assert(strip_all(lines.deep_view()) =~= s0 + (if screenshot_mode {
                seq![
                    stripped("\u{1f512} Screenshot mode: Sensitive information redacted"@),
                    Seq::<char>::empty(),
                ]
            } else {
                Seq::empty()
            }));
        }
        let ghost s1 = strip_all(lines.deep_view());
        if self.config.show_colors {
            let palette = self.format_color_palette();
            push_line(lines, palette);
        }
        proof {
            lemma_strip_all_push_opt(lines.deep_view());
            assert(strip_all(lines.deep_view()) =~= s1 + (if c.show_colors {
                seq![palette_line()]
            } else {
                Seq::empty()
            }));
            assert(strip_all(lines.deep_view()) =~= base + tail_lines(c, screenshot_mode));
        }
    }

    /// The whole information panel: title, separator, system rows,
    /// security section, closing lines.  The stripped text of every
    /// line follows `panel_spec`; the title line is pinned for
    /// hostnames that scan clean.
    pub fn format_system_info(&self, info: &SystemInfo, screenshot_mode: bool) -> (lines: Vec<
        String,
    >)
        requires
            info.hostname@.len() * 2 + 1 <= usize::MAX,
        ensures
            ({
                let ps = panel_spec(info@, self.config, screenshot_mode);
                &&& lines.deep_view().len() == ps.len()
                &&& forall|i: int|
                    1 <= i < ps.len() ==> stripped(#[trigger] lines.deep_view()[i]) == ps[i]
                &&& scans_clean(info.hostname@, 0) ==> stripped(lines.deep_view()[0]) == ps[0]
            }),
    {
        let ghost f = info@;
        let ghost c = self.config;
        let mut lines: Vec<String> = Vec::new();
        let title = self.title_row(info.hostname.as_str());
        push_line(&mut lines, title);
        let hn = info.hostname.as_str().unicode_len();
        let sep = self.separator_row(2 * hn + 1);
        push_line(&mut lines, sep);
        let ghost head = strip_all(lines.deep_view());
        proof {
            assert(head =~= seq![
                strip_all(lines.deep_view())[0],
                dashes(2 * f.hostname.len() as int + 1),
            ]);
        }
        self.push_main(info, &mut lines);
        self.push_security(info, screenshot_mode, &mut lines);
        self.push_tail(screenshot_mode, &mut lines);
        proof {
            let ps = panel_spec(f, c, screenshot_mode);
            let sa = strip_all(lines.deep_view());
            assert(sa == ((head + main_lines(f, c)) + security_lines(f, c, screenshot_mode))
                + tail_lines(c, screenshot_mode));
            assert(sa.len() == ps.len()) by {
                assert(head.len() == 2);
            }
            assert(lines.deep_view().len() == sa.len());
            assert forall|i: int|
                1 <= i < ps.len() implies stripped(#[trigger] lines.deep_view()[i]) == ps[i] by {
                assert(sa[i] == stripped(lines.deep_view()[i]));
                assert(sa[i] == ps[i]);
            }
            if scans_clean(f.hostname, 0) {
                assert(sa[0] == stripped(lines.deep_view()[0]));
                assert(sa[0] == ps[0]);
            }
        }
        lines
    }

    /// Compose the final printable rows for one render pass: host
    /// facts (redacted first in screenshot mode), the resolved logo in
    /// the configured colour, and the information panel beside it.
    pub fn render(
        &self,
        system_info: &SystemInfo,
        logos: &LogoConfig,
        screenshot_mode: bool,
    ) -> (rows: Vec<String>)
        requires
            system_info.hostname@.len() * 2 + 1 <= usize::MAX,
        ensures
            ({
                let f = if screenshot_mode {
                    redact_view(system_info@, self.config.redact_cpu_model)
                } else {
                    system_info@
                };
                rendered(f, logos.logos@, self.config, screenshot_mode, rows.deep_view())
            }),
    {
        let ghost f = if screenshot_mode {
            redact_view(system_info@, self.config.redact_cpu_model)
        } else {
            system_info@
        };
        let redacted;
        let shown: &SystemInfo = if screenshot_mode {
            redacted = DataRedactor::redact_system_info(system_info, &self.config);
            &redacted
        } else {
            system_info
        };
        proof {
            assert(shown@ == f);
            assert(hostname_len_kept(system_info@.hostname));
        }
        let logo = LogoDisplay::show_logo(shown.os.as_str(), &self.config, logos);
        let info_lines = self.format_system_info(shown, screenshot_mode);
        let ghost lg = logo.deep_view();
        let ghost ps = panel_spec(f, self.config, screenshot_mode);
        let mut clogo: Vec<String> = Vec::new();
        let mut i: usize = 0;
        while i < logo.len()
            invariant
                i <= logo.len(),
                lg == logo.deep_view(),
                clogo.deep_view().len() == i,
                forall|j: int|
                    0 <= j < i ==> stripped(#[trigger] clogo.deep_view()[j]) == stripped(lg[j]) && (
                    scans_clean(lg[j], 0) ==> scans_clean(clogo.deep_view()[j], 0)),
            decreases logo.len() - i,
        {
            let cl = colorize(logo[i].as_str(), self.config.logo_color);
            let ghost prev = clogo.deep_view();
            let ghost clv = cl@;
            clogo.push(cl);
            i = i + 1;
            proof {
                assert(clogo.deep_view() =~= prev.push(clv));
            }
        }
        let rows = compose(&clogo, &info_lines, 8);
        proof {
            let cdv = clogo.deep_view();
            let idv = info_lines.deep_view();
            let rdv = rows.deep_view();
            assert(rdv.len() == max_len(lg.len() as int, ps.len() as int));
            if (forall|j: int| 0 <= j < lg.len() ==> scans_clean(#[trigger] lg[j], 0))
                && scans_clean(f.hostname, 0) && max_width(lg) <= usize::MAX {
                lemma_max_width_congruent(cdv, lg);
                let colw = col_width(lg, 8);
                assert forall|i2: int| #![trigger rdv[i2]] 0 <= i2 < rdv.len() implies ({
                    let l = line_at(lg, i2);
                    &&& stripped(rdv[i2]).len() >= colw + 1
                    &&& stripped(rdv[i2]).take(colw + 1) == stripped(l) + spaces(
                        colw + 1 - width_of(l),
                    )
                    &&& stripped(rdv[i2]).skip(colw + 1) == (if 0 <= i2 < ps.len() {
                        ps[i2]
                    } else {
                        Seq::empty()
                    })
                }) by {
                    lemma_rows_align(cdv, idv, 8, i2);
                    assert(rdv[i2] == row_spec(cdv, idv, colw, i2));
                    assert(stripped(line_at(cdv, i2)) == stripped(line_at(lg, i2)));
                    assert(width_of(line_at(cdv, i2)) == width_of(line_at(lg, i2)));
                    if 0 <= i2 < ps.len() {
                        assert(stripped(line_at(idv, i2)) == ps[i2]);
                    } else {
                        assert(line_at(idv, i2) =~= Seq::<char>::empty());
                        assert(stripped(Seq::<char>::empty()) =~= Seq::<char>::empty());
                    }
                }
            }
            let m2 = logos.logos@;
            assert(({
                &&& crate::ascii::resolves(f.os, m2, lg)
                &&& rdv.len() == max_len(lg.len() as int, ps.len() as int)
                &&& ((forall|j: int| 0 <= j < lg.len() ==> scans_clean(#[trigger] lg[j], 0))
                    && scans_clean(f.hostname, 0) && max_width(lg) <= usize::MAX) ==> (forall|
                    i2: int,
                |
                    #![trigger rdv[i2]]
                    0 <= i2 < rdv.len() ==> ({
                        let colw = col_width(lg, 8);
                        let l = line_at(lg, i2);
                        &&& stripped(rdv[i2]).len() >= colw + 1
                        &&& stripped(rdv[i2]).take(colw + 1) == stripped(l) + spaces(
                            colw + 1 - width_of(l),
                        )
                        &&& stripped(rdv[i2]).skip(colw + 1) == (if 0 <= i2 < ps.len() {
                            ps[i2]
                        } else {
                            Seq::empty()
                        })
                    }))
            }));
            assert(rendered(f, logos.logos@, self.config, screenshot_mode, rows.deep_view()));
        }
        rows
    }
}

/// Redaction keeps the hostname's length.
pub open spec fn hostname_len_kept(h: Seq<char>) -> bool {
    crate::redactor::hostname_text(h).len() == h.len()
}

/// What one render pass produces, for facts `f`, custom catalog `m`
/// and configuration `c`: rows composed from some logo that resolution
/// selects and the panel; when the logo lines and the hostname scan
/// clean, every row is the padded logo line followed, from the same
/// column on, by exactly the panel line.
pub open spec fn rendered(
    f: SystemInfoV,
    m: Seq<(String, CustomLogo)>,
    c: Config,
    screenshot: bool,
    rows: Seq<Seq<char>>,
) -> bool {
    let ps = panel_spec(f, c, screenshot);
    exists|lg: Seq<Seq<char>>|
        #![auto]
        {
            &&& crate::ascii::resolves(f.os, m, lg)
            &&& rows.len() == max_len(lg.len() as int, ps.len() as int)
            &&& ((forall|j: int| 0 <= j < lg.len() ==> scans_clean(#[trigger] lg[j], 0))
                && scans_clean(f.hostname, 0) && max_width(lg) <= usize::MAX) ==> (forall|i: int|
                #![trigger rows[i]]
                0 <= i < rows.len() ==> ({
                    let colw = col_width(lg, 8);
                    let l = line_at(lg, i);
                    &&& stripped(rows[i]).len() >= colw + 1
                    &&& stripped(rows[i]).take(colw + 1) == stripped(l) + spaces(
                        colw + 1 - width_of(l),
                    )
                    &&& stripped(rows[i]).skip(colw + 1) == (if 0 <= i < ps.len() {
                        ps[i]
                    } else {
                        Seq::empty()
                    })
                }))
        }
}

/// After an optional push, the stripped lines are the old ones plus
/// the stripped new line; stated over the definition so each section
/// step can cite it.
proof fn lemma_strip_all_push_opt(ls: Seq<Seq<char>>)
    ensures
        forall|p: Seq<Seq<char>>, v: Seq<char>|
            ls == p.push(v) ==> strip_all(ls) == strip_all(p).push(stripped(v)),
{
    assert forall|p: Seq<Seq<char>>, v: Seq<char>|
        ls == p.push(v) implies strip_all(ls) == strip_all(p).push(stripped(v)) by {
        assert(strip_all(p.push(v)) =~= strip_all(p).push(stripped(v)));
    }
}

} // verus!
