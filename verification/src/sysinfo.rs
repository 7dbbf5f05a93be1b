//! The host-facts record, and the pure formatting that turns raw
//! collector values (seconds, bytes, counts, `lspci` fragments) into
//! the display strings the record holds.  Gathering the raw values is
//! an outside collaborator's job.

use vstd::prelude::*;

verus! {

use crate::security::SecurityInfo;
use crate::text::{
    dec_str,
    dec_of_u128,
    string_of,
    chars_of,
    push_all,
    push_str_chars,
    trim_spec,
    trim_exec,
    collapse_ws,
    collapse_ws_exec,
    replace_lit,
    replace_all_exec,
    starts_with_at,
    starts_with_exec,
    is_substr,
    contains_exec,
};

/// The mathematical view of a host-facts record: its fields as
/// character sequences.
pub ghost struct SystemInfoV {
    pub os: Seq<char>,
    pub kernel: Seq<char>,
    pub hostname: Seq<char>,
    pub uptime: Seq<char>,
    pub cpu: Seq<char>,
    pub memory: Seq<char>,
    pub storage: Seq<char>,
    pub shell: Seq<char>,
    pub desktop: Seq<char>,
    pub terminal: Seq<char>,
    pub security: crate::security::SecurityInfoV,
    pub gpu: Seq<char>,
    pub temperature: Seq<char>,
    pub network: Seq<char>,
    pub packages: Seq<char>,
}

/// All displayable attributes of the host for one render pass, each an
/// already-formatted string ("Unknown" when the collector found
/// nothing).
#[derive(Clone, Debug)]
pub struct SystemInfo {
    pub os: String,
    pub kernel: String,
    pub hostname: String,
    pub uptime: String,
    pub cpu: String,
    pub memory: String,
    pub storage: String,
    pub shell: String,
    pub desktop: String,
    pub terminal: String,
    pub security: SecurityInfo,
    pub gpu: String,
    pub temperature: String,
    pub network: String,
    pub packages: String,
}

/// The uptime line for a second count: days, hours and minutes, with
/// the leading zero components left off.
pub open spec fn uptime_text(s: nat) -> Seq<char> {
    let d = s / 86400;
    let h = (s % 86400) / 3600;
    let m = (s % 3600) / 60;
    if d > 0 {
        dec_str(d) + " days, "@ + dec_str(h) + " hours, "@ + dec_str(m) + " minutes"@
    } else if h > 0 {
        dec_str(h) + " hours, "@ + dec_str(m) + " minutes"@
    } else {
        dec_str(m) + " minutes"@
    }
}

/// Tenths of gibibytes, rounded to nearest (half up).
pub open spec fn gib_tenths(b: nat) -> nat {
    (b * 10 + 0x2000_0000) / 0x4000_0000
}

/// A byte count as "X.Y GB".
pub open spec fn gb_text(b: nat) -> Seq<char> {
    dec_str(gib_tenths(b) / 10) + seq!['.'] + dec_str(gib_tenths(b) % 10) + " GB"@
}

/// A used/total byte pair as "X.Y GB / Z.W GB", with a drive count
/// appended when more than one disk contributed.
pub open spec fn capacity_pair_text(used: nat, total: nat, drives: nat) -> Seq<char> {
    gb_text(used) + " / "@ + gb_text(total) + (if drives == 1 {
        Seq::<char>::empty()
    } else {
        " ("@ + dec_str(drives) + " drives)"@
    })
}

/// A CPU brand string and core count as "Brand (N cores)".
pub open spec fn cpu_label_text(brand: Seq<char>, cores: nat) -> Seq<char> {
    trim_spec(brand) + " ("@ + dec_str(cores) + " cores)"@
}

/// An NVIDIA adapter name cleaned for display: vendor boilerplate and
/// brackets dropped, whitespace collapsed, vendor prefix ensured.
pub open spec fn nvidia_text(s: Seq<char>) -> Seq<char> {
    let c = collapse_ws(
        replace_lit(
            replace_lit(replace_lit(s, 0, "NVIDIA Corporation"@, "NVIDIA"@), 0, "["@, Seq::empty()),
            0,
            "]"@,
            Seq::empty(),
        ),
    );
    if !starts_with_at(c, 0, "NVIDIA"@) && (is_substr("GeForce"@, c) || is_substr("GTX"@, c)
        || is_substr("RTX"@, c) || is_substr("Quadro"@, c) || is_substr("Tesla"@, c)) {
        "NVIDIA "@ + c
    } else {
        c
    }
}

/// An AMD adapter name cleaned the same way.
pub open spec fn amd_text(s: Seq<char>) -> Seq<char> {
    let c = collapse_ws(
        replace_lit(
            replace_lit(
                replace_lit(
                    replace_lit(
                        replace_lit(s, 0, "Advanced Micro Devices"@, "AMD"@),
                        0,
                        "ATI Technologies Inc"@,
                        "AMD"@,
                    ),
                    0,
                    "[AMD/ATI]"@,
                    "AMD"@,
                ),
                0,
                "["@,
                Seq::empty(),
            ),
            0,
            "]"@,
            Seq::empty(),
        ),
    );
    if !starts_with_at(c, 0, "AMD"@) && is_substr("Radeon"@, c) {
        "AMD "@ + c
    } else {
        c
    }
}

/// An Intel adapter name cleaned the same way.
pub open spec fn intel_text(s: Seq<char>) -> Seq<char> {
    let c = collapse_ws(
        replace_lit(
            replace_lit(
                replace_lit(s, 0, "Intel Corporation"@, "Intel"@),
                0,
                "["@,
                Seq::empty(),
            ),
            0,
            "]"@,
            Seq::empty(),
        ),
    );
    if !starts_with_at(c, 0, "Intel"@) {
        "Intel "@ + c
    } else {
        c
    }
}

impl View for SystemInfo {
    type V = SystemInfoV;

    open spec fn view(&self) -> SystemInfoV {
        SystemInfoV {
            os: self.os@,
            kernel: self.kernel@,
            hostname: self.hostname@,
            uptime: self.uptime@,
            cpu: self.cpu@,
            memory: self.memory@,
            storage: self.storage@,
            shell: self.shell@,
            desktop: self.desktop@,
            terminal: self.terminal@,
            security: self.security@,
            gpu: self.gpu@,
            temperature: self.temperature@,
            network: self.network@,
            packages: self.packages@,
        }
    }
}

impl SystemInfo {
    /// Assemble the record from already-collected field values.
    pub fn new(
        os: String,
        kernel: String,
        hostname: String,
        uptime: String,
        cpu: String,
        memory: String,
        storage: String,
        shell: String,
        desktop: String,
        terminal: String,
        security: SecurityInfo,
        gpu: String,
        temperature: String,
        network: String,
        packages: String,
    ) -> (r: SystemInfo)
        ensures
            r.os@ == os@,
            r.kernel@ == kernel@,
            r.hostname@ == hostname@,
            r.uptime@ == uptime@,
            r.cpu@ == cpu@,
            r.memory@ == memory@,
            r.storage@ == storage@,
            r.shell@ == shell@,
            r.desktop@ == desktop@,
            r.terminal@ == terminal@,
            r.security == security,
            r.gpu@ == gpu@,
            r.temperature@ == temperature@,
            r.network@ == network@,
            r.packages@ == packages@,
    {
        SystemInfo {
            os,
            kernel,
            hostname,
            uptime,
            cpu,
            memory,
            storage,
            shell,
            desktop,
            terminal,
            security,
            gpu,
            temperature,
            network,
            packages,
        }
    }

    /// The uptime display line for a second count.
    pub fn get_uptime(uptime_seconds: u64) -> (r: String)
        ensures
            r@ == uptime_text(uptime_seconds as nat),
    {
        let days: u64 = uptime_seconds / 86400;
        let hours: u64 = (uptime_seconds % 86400) / 3600;
        let minutes: u64 = (uptime_seconds % 3600) / 60;
        let mut out: Vec<char> = Vec::new();
        if days > 0 {
            let p = dec_of_u128(days as u128);
            push_all(&mut out, &p);
            push_str_chars(&mut out, " days, ");
        }
        if days > 0 || hours > 0 {
            let p = dec_of_u128(hours as u128);
            push_all(&mut out, &p);
            push_str_chars(&mut out, " hours, ");
        }
        let p = dec_of_u128(minutes as u128);
        push_all(&mut out, &p);
        push_str_chars(&mut out, " minutes");
        proof {
            assert(out@ =~= uptime_text(uptime_seconds as nat));
        }
        string_of(&out)
    }

    /// The memory display line for a used/total byte pair.
    pub fn get_memory_info(used_bytes: u64, total_bytes: u64) -> (r: String)
        ensures
            r@ == capacity_pair_text(used_bytes as nat, total_bytes as nat, 1),
    {
        let mut out: Vec<char> = Vec::new();
        push_gb(&mut out, used_bytes);
        push_str_chars(&mut out, " / ");
        push_gb(&mut out, total_bytes);
        proof {
            assert(out@ =~= capacity_pair_text(used_bytes as nat, total_bytes as nat, 1));
        }
        string_of(&out)
    }

    /// The storage display line: a capacity pair, with the drive count
    /// appended when several disks contributed.
    pub fn get_storage_info(used_bytes: u64, total_bytes: u64, drives: u64) -> (r: String)
        requires
            drives >= 1,
        ensures
            r@ == capacity_pair_text(used_bytes as nat, total_bytes as nat, drives as nat),
    {
        let mut out: Vec<char> = Vec::new();
        push_gb(&mut out, used_bytes);
        push_str_chars(&mut out, " / ");
        push_gb(&mut out, total_bytes);
        if drives != 1 {
            push_str_chars(&mut out, " (");
            let p = dec_of_u128(drives as u128);
            push_all(&mut out, &p);
            push_str_chars(&mut out, " drives)");
        }
        proof {
            assert(out@ =~= capacity_pair_text(used_bytes as nat, total_bytes as nat, drives as nat));
        }
        string_of(&out)
    }

    /// The CPU display line for a brand string and core count.
    pub fn get_cpu_info(brand: &str, cores: u64) -> (r: String)
        ensures
            r@ == cpu_label_text(brand@, cores as nat),
    {
        let v = chars_of(brand);
        let mut out = trim_exec(&v);
        push_str_chars(&mut out, " (");
        let p = dec_of_u128(cores as u128);
        push_all(&mut out, &p);
        push_str_chars(&mut out, " cores)");
        proof {
            assert(out@ =~= cpu_label_text(brand@, cores as nat));
        }
        string_of(&out)
    }

    /// Clean an NVIDIA adapter description for display.
    pub fn parse_nvidia_gpu(gpu_info: &str) -> (r: String)
        ensures
            r@ == nvidia_text(gpu_info@),
    {
        proof {
            reveal_strlit("");
            assert(""@ =~= Seq::<char>::empty());
        }
        let v = chars_of(gpu_info);
        let a = replace_all_exec(&v, "NVIDIA Corporation", "NVIDIA");
        let b = replace_all_exec(&a, "[", "");
        let c = replace_all_exec(&b, "]", "");
        let name = collapse_ws_exec(&c);
        if !starts_with_exec(&name, 0, "NVIDIA") && (contains_exec(&name, "GeForce")
            || contains_exec(&name, "GTX") || contains_exec(&name, "RTX") || contains_exec(
            &name,
            "Quadro",
        ) || contains_exec(&name, "Tesla")) {
            let mut out: Vec<char> = Vec::new();
            push_str_chars(&mut out, "NVIDIA ");
            push_all(&mut out, &name);
            string_of(&out)
        } else {
            string_of(&name)
        }
    }

    /// Clean an AMD adapter description for display.
    pub fn parse_amd_gpu(gpu_info: &str) -> (r: String)
        ensures
            r@ == amd_text(gpu_info@),
    {
        proof {
            reveal_strlit("");
            assert(""@ =~= Seq::<char>::empty());
        }
        let v = chars_of(gpu_info);
        let a = replace_all_exec(&v, "Advanced Micro Devices", "AMD");
        let b = replace_all_exec(&a, "ATI Technologies Inc", "AMD");
        let c = replace_all_exec(&b, "[AMD/ATI]", "AMD");
        let d = replace_all_exec(&c, "[", "");
        let e = replace_all_exec(&d, "]", "");
        let name = collapse_ws_exec(&e);
        if !starts_with_exec(&name, 0, "AMD") && contains_exec(&name, "Radeon") {
            let mut out: Vec<char> = Vec::new();
            push_str_chars(&mut out, "AMD ");
            push_all(&mut out, &name);
            string_of(&out)
        } else {
            string_of(&name)
        }
    }

    /// Clean an Intel adapter description for display.
    pub fn parse_intel_gpu(gpu_info: &str) -> (r: String)
        ensures
            r@ == intel_text(gpu_info@),
    {
        proof {
            reveal_strlit("");
            assert(""@ =~= Seq::<char>::empty());
        }
        let v = chars_of(gpu_info);
        let a = replace_all_exec(&v, "Intel Corporation", "Intel");
        let b = replace_all_exec(&a, "[", "");
        let c = replace_all_exec(&b, "]", "");
        let name = collapse_ws_exec(&c);
        if !starts_with_exec(&name, 0, "Intel") {
            let mut out: Vec<char> = Vec::new();
            push_str_chars(&mut out, "Intel ");
            push_all(&mut out, &name);
            string_of(&out)
        } else {
            string_of(&name)
        }
    }
}

/// Append "X.Y GB" for a byte count.
fn push_gb(out: &mut Vec<char>, bytes: u64)
    ensures
        final(out)@ == old(out)@ + gb_text(bytes as nat),
{
    let tenths: u128 = ((bytes as u128) * 10 + 0x2000_0000) / 0x4000_0000;
    proof {
        assert(tenths == gib_tenths(bytes as nat));
    }
    let whole = dec_of_u128(tenths / 10);
    push_all(out, &whole);
    out.push('.');
    let frac = dec_of_u128(tenths % 10);
    push_all(out, &frac);
    push_str_chars(out, " GB");
    proof {
        assert(out@ =~= old(out)@ + gb_text(bytes as nat));
    }
}

} // verus!
