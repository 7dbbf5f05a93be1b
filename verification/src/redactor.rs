//! The redaction pipeline: per-field, pattern-driven transforms that
//! generalize sensitive values while preserving their shape.
//!
//! Every transform is total: input that does not match a pattern
//! passes through unchanged, and sentinel values such as "Unknown" are
//! never altered.  The patterns are written out as explicit scanners
//! over characters; digit runs are maximal, and a word constituent is
//! an alphanumeric character or an underscore.

use vstd::prelude::*;

verus! {

use crate::config::Config;
use crate::security::SecurityInfo;
use crate::sysinfo::SystemInfo;
use crate::text::{
    is_digit,
    is_word,
    word_exec,
    digit_run_end,
    digit_run_exec,
    space_run_end,
    space_run_exec,
    upper_run_end,
    upper_run_exec,
    word_run_end,
    word_run_exec,
    nonparen_run_end,
    nonparen_run_exec,
    starts_with_at,
    starts_with_exec,
    seq_eq_exec,
    chars_of,
    string_of,
    push_all,
    push_str_chars,
    collapse_ws,
    collapse_ws_exec,
    dec_str,
    dec_of_u128,
    val_of_digits,
    val_of_range,
    pow10,
    pow10_u128,
    lemma_pow10_pos,
    lemma_pow10_mono,
    lemma_scaled_bound,
    lemma_pow10_small,
    lemma_run_end,
};

pub struct DataRedactor;

/// A run of `n` mask characters.
pub open spec fn stars(n: int) -> Seq<char> {
    Seq::new(
        if n < 0 {
            0
        } else {
            n as nat
        },
        |i: int| '*',
    )
}

/// The redacted hostname: short names are fully masked; longer names
/// keep their first and last character and mask the interior.
pub open spec fn hostname_text(h: Seq<char>) -> Seq<char> {
    if h.len() <= 2 {
        stars(h.len() as int)
    } else {
        seq![h[0]] + stars(h.len() - 2) + seq![h.last()]
    }
}

fn push_stars(out: &mut Vec<char>, n: usize)
    ensures
        final(out)@ == old(out)@ + stars(n as int),
{
    let mut k: usize = 0;
    proof {
        assert(out@ + stars(0) =~= out@);
    }
    while k < n
        invariant
            k <= n,
            out@ == old(out)@ + stars(k as int),
        decreases n - k,
    {
        out.push('*');
        k = k + 1;
        proof {
            assert(old(out)@ + stars(k - 1) + seq!['*'] =~= old(out)@ + stars(k as int));
        }
    }
}

// ---------------------------------------------------------------------
// GPU patterns
// ---------------------------------------------------------------------
/// A maximal digit run of exactly `n` digits, not adjoining word
/// characters on either side; yields the index just past the run.
pub open spec fn digits_exact_at(s: Seq<char>, i: int, n: int) -> Option<int> {
    let de = digit_run_end(s, i);
    if (i == 0 || !is_word(s[i - 1])) && de - i == n && (de == s.len() || !is_word(s[de])) {
        Some(de)
    } else {
        None
    }
}

/// "rev" on a word boundary, whitespace, then a word token; yields the
/// index just past the token.
pub open spec fn rev_at(s: Seq<char>, i: int) -> Option<int> {
    if (i == 0 || !is_word(s[i - 1])) && starts_with_at(s, i, "rev"@) {
        let w = space_run_end(s, i + 3);
        let we = word_run_end(s, w);
        if w > i + 3 && we > w {
            Some(we)
        } else {
            None
        }
    } else {
        None
    }
}

/// A parenthesized fragment: `(`, any non-`)` characters, `)`; yields
/// the index just past the closing parenthesis.
pub open spec fn paren_at(s: Seq<char>, i: int) -> Option<int> {
    if s[i] == '(' {
        let q = nonparen_run_end(s, i + 1);
        if q < s.len() {
            Some(q + 1)
        } else {
            None
        }
    } else {
        None
    }
}

/// Every exactly-`n`-digit model code replaced by `rep`.
pub open spec fn pass_digits(s: Seq<char>, i: int, n: int, rep: Seq<char>) -> Seq<char>
    decreases s.len() - i,
{
    if i < 0 || i >= s.len() {
        Seq::empty()
    } else {
        match digits_exact_at(s, i, n) {
            Some(e) => if i < e && e <= s.len() {
                rep + pass_digits(s, e, n, rep)
            } else {
                seq![s[i]] + pass_digits(s, i + 1, n, rep)
            },
            None => seq![s[i]] + pass_digits(s, i + 1, n, rep),
        }
    }
}

/// Every revision tag replaced by "rev XX".
pub open spec fn pass_rev(s: Seq<char>, i: int) -> Seq<char>
    decreases s.len() - i,
{
    if i < 0 || i >= s.len() {
        Seq::empty()
    } else {
        match rev_at(s, i) {
            Some(e) => if i < e && e <= s.len() {
                "rev XX"@ + pass_rev(s, e)
            } else {
                seq![s[i]] + pass_rev(s, i + 1)
            },
            None => seq![s[i]] + pass_rev(s, i + 1),
        }
    }
}

/// Every parenthesized fragment removed.
pub open spec fn pass_paren(s: Seq<char>, i: int) -> Seq<char>
    decreases s.len() - i,
{
    if i < 0 || i >= s.len() {
        Seq::empty()
    } else {
        match paren_at(s, i) {
            Some(e) => if i < e && e <= s.len() {
                pass_paren(s, e)
            } else {
                seq![s[i]] + pass_paren(s, i + 1)
            },
            None => seq![s[i]] + pass_paren(s, i + 1),
        }
    }
}

/// The redacted GPU field: four- then three-digit model codes masked,
/// revision tags generalized, parenthetical detail dropped, whitespace
/// collapsed.  "Unknown" passes through.
pub open spec fn gpu_text(s: Seq<char>) -> Seq<char> {
    if s == "Unknown"@ {
        s
    } else {
        collapse_ws(pass_paren(pass_rev(pass_digits(pass_digits(s, 0, 4, "XXXX"@), 0, 3, "XXX"@), 0), 0))
    }
}

fn digits_exact_exec(v: &Vec<char>, i: usize, n: usize) -> (r: Option<usize>)
    requires
        i < v.len(),
        n >= 1,
    ensures
        r is Some <==> digits_exact_at(v@, i as int, n as int) is Some,
        r matches Some(e) ==> digits_exact_at(v@, i as int, n as int) == Some(e as int) && i < e
            <= v.len(),
{
    if !(i == 0 || !word_exec(v[i - 1])) {
        return None;
    }
    let de = digit_run_exec(v, i);
    if de - i != n {
        return None;
    }
    if de == v.len() || !word_exec(v[de]) {
        Some(de)
    } else {
        None
    }
}

fn rev_at_exec(v: &Vec<char>, i: usize) -> (r: Option<usize>)
    requires
        i < v.len(),
    ensures
        r is Some <==> rev_at(v@, i as int) is Some,
        r matches Some(e) ==> rev_at(v@, i as int) == Some(e as int) && i < e <= v.len(),
{
    if !(i == 0 || !word_exec(v[i - 1])) {
        return None;
    }
    if !starts_with_exec(v, i, "rev") {
        return None;
    }
    proof {
        reveal_strlit("rev");
    }
    let w = space_run_exec(v, i + 3);
    if w <= i + 3 {
        return None;
    }
    let we = word_run_exec(v, w);
    if we > w {
        Some(we)
    } else {
        None
    }
}

fn paren_at_exec(v: &Vec<char>, i: usize) -> (r: Option<usize>)
    requires
        i < v.len(),
    ensures
        r is Some <==> paren_at(v@, i as int) is Some,
        r matches Some(e) ==> paren_at(v@, i as int) == Some(e as int) && i < e <= v.len(),
{
    if v[i] != '(' {
        return None;
    }
    let q = nonparen_run_exec(v, i + 1);
    if q < v.len() {
        Some(q + 1)
    } else {
        None
    }
}

fn pass_digits_exec(v: &Vec<char>, n: usize, rep: &str) -> (out: Vec<char>)
    requires
        n >= 1,
    ensures
        out@ == pass_digits(v@, 0, n as int, rep@),
{
    let rep_chars = chars_of(rep);
    let mut out: Vec<char> = Vec::new();
    let mut i: usize = 0;
    proof {
        assert(out@ + pass_digits(v@, 0, n as int, rep@) =~= pass_digits(v@, 0, n as int, rep@));
    }
    while i < v.len()
        invariant
            i <= v.len(),
            n >= 1,
            rep_chars@ == rep@,
            pass_digits(v@, 0, n as int, rep@) == out@ + pass_digits(v@, i as int, n as int, rep@),
        decreases v.len() - i,
    {
        let ghost prev = out@;
        match digits_exact_exec(v, i, n) {
            Some(e) => {
                push_all(&mut out, &rep_chars);
                proof {
                    assert(prev + (rep@ + pass_digits(v@, e as int, n as int, rep@)) =~= out@
                        + pass_digits(v@, e as int, n as int, rep@));
                }
                i = e;
            },
            None => {
                out.push(v[i]);
                proof {
                    assert(prev + (seq![v@[i as int]] + pass_digits(v@, i + 1, n as int, rep@))
                        =~= out@ + pass_digits(v@, i + 1, n as int, rep@));
                }
                i = i + 1;
            },
        }
    }
    proof {
        assert(out@ + pass_digits(v@, i as int, n as int, rep@) =~= out@);
    }
    out
}

fn pass_rev_exec(v: &Vec<char>) -> (out: Vec<char>)
    ensures
        out@ == pass_rev(v@, 0),
{
    let mut out: Vec<char> = Vec::new();
    let mut i: usize = 0;
    proof {
        assert(out@ + pass_rev(v@, 0) =~= pass_rev(v@, 0));
    }
    while i < v.len()
        invariant
            i <= v.len(),
            pass_rev(v@, 0) == out@ + pass_rev(v@, i as int),
        decreases v.len() - i,
    {
        let ghost prev = out@;
        match rev_at_exec(v, i) {
            Some(e) => {
                push_str_chars(&mut out, "rev XX");
                proof {
                    assert(prev + ("rev XX"@ + pass_rev(v@, e as int)) =~= out@ + pass_rev(
                        v@,
                        e as int,
                    ));
                }
                i = e;
            },
            None => {
                out.push(v[i]);
                proof {
                    assert(prev + (seq![v@[i as int]] + pass_rev(v@, i + 1)) =~= out@ + pass_rev(
                        v@,
                        i + 1,
                    ));
                }
                i = i + 1;
            },
        }
    }
    proof {
        assert(out@ + pass_rev(v@, i as int) =~= out@);
    }
    out
}

fn pass_paren_exec(v: &Vec<char>) -> (out: Vec<char>)
    ensures
        out@ == pass_paren(v@, 0),
{
    let mut out: Vec<char> = Vec::new();
    let mut i: usize = 0;
    proof {
        assert(out@ + pass_paren(v@, 0) =~= pass_paren(v@, 0));
    }
    while i < v.len()
        invariant
            i <= v.len(),
            pass_paren(v@, 0) == out@ + pass_paren(v@, i as int),
        decreases v.len() - i,
    {
        let ghost prev = out@;
        match paren_at_exec(v, i) {
            Some(e) => {
                i = e;
            },
            None => {
                out.push(v[i]);
                proof {
                    assert(prev + (seq![v@[i as int]] + pass_paren(v@, i + 1)) =~= out@
                        + pass_paren(v@, i + 1));
                }
                i = i + 1;
            },
        }
    }
    proof {
        assert(out@ + pass_paren(v@, i as int) =~= out@);
    }
    out
}

// ---------------------------------------------------------------------
// Network patterns
// ---------------------------------------------------------------------
/// A dotted quad of maximal digit runs; yields the index just past it.
pub open spec fn ipv4_at(s: Seq<char>, i: int) -> Option<int> {
    let d1 = digit_run_end(s, i);
    if d1 > i && d1 < s.len() && s[d1] == '.' {
        let d2 = digit_run_end(s, d1 + 1);
        if d2 > d1 + 1 && d2 < s.len() && s[d2] == '.' {
            let d3 = digit_run_end(s, d2 + 1);
            if d3 > d2 + 1 && d3 < s.len() && s[d3] == '.' {
                let d4 = digit_run_end(s, d3 + 1);
                if d4 > d3 + 1 {
                    Some(d4)
                } else {
                    None
                }
            } else {
                None
            }
        } else {
            None
        }
    } else {
        None
    }
}

/// An address followed by a parenthesized, non-empty interface name;
/// yields the interface bounds.
pub open spec fn net_iface_at(s: Seq<char>, i: int) -> Option<(int, int)> {
    match ipv4_at(s, i) {
        Some(e) => {
            let w = space_run_end(s, e);
            if w < s.len() && s[w] == '(' {
                let q = nonparen_run_end(s, w + 1);
                if q > w + 1 && q < s.len() {
                    Some((w + 1, q))
                } else {
                    None
                }
            } else {
                None
            }
        },
        None => None,
    }
}

/// The first position with an address-plus-interface match.
pub open spec fn net_first(s: Seq<char>, i: int) -> Option<(int, int)>
    decreases s.len() - i,
{
    if i < 0 || i >= s.len() {
        None
    } else {
        match net_iface_at(s, i) {
            Some(m) => Some(m),
            None => net_first(s, i + 1),
        }
    }
}

/// Every dotted quad replaced by the mask literal.
pub open spec fn pass_ipv4(s: Seq<char>, i: int) -> Seq<char>
    decreases s.len() - i,
{
    if i < 0 || i >= s.len() {
        Seq::empty()
    } else {
        match ipv4_at(s, i) {
            Some(e) => if i < e && e <= s.len() {
                "XXX.XXX.XXX.XXX"@ + pass_ipv4(s, e)
            } else {
                seq![s[i]] + pass_ipv4(s, i + 1)
            },
            None => seq![s[i]] + pass_ipv4(s, i + 1),
        }
    }
}

/// The redacted network field: an "address (interface)" shape keeps
/// only the interface; a field without a dot is an interface name and
/// passes through; otherwise any bare dotted quad is masked.
/// "Unknown" passes through.
pub open spec fn network_text(s: Seq<char>) -> Seq<char> {
    if s == "Unknown"@ {
        s
    } else {
        match net_first(s, 0) {
            Some(m) => "XXX.XXX.XXX.XXX ("@ + s.subrange(m.0, m.1) + ")"@,
            None => if !s.contains('.') {
                s
            } else {
                pass_ipv4(s, 0)
            },
        }
    }
}

fn ipv4_at_exec(v: &Vec<char>, i: usize) -> (r: Option<usize>)
    requires
        i < v.len(),
    ensures
        r is Some <==> ipv4_at(v@, i as int) is Some,
        r matches Some(e) ==> ipv4_at(v@, i as int) == Some(e as int) && i < e <= v.len(),
{
    let d1 = digit_run_exec(v, i);
    if !(d1 > i && d1 < v.len() && v[d1] == '.') {
        return None;
    }
    let d2 = digit_run_exec(v, d1 + 1);
    if !(d2 > d1 + 1 && d2 < v.len() && v[d2] == '.') {
        return None;
    }
    let d3 = digit_run_exec(v, d2 + 1);
    if !(d3 > d2 + 1 && d3 < v.len() && v[d3] == '.') {
        return None;
    }
    let d4 = digit_run_exec(v, d3 + 1);
    if d4 > d3 + 1 {
        Some(d4)
    } else {
        None
    }
}

fn net_iface_at_exec(v: &Vec<char>, i: usize) -> (r: Option<(usize, usize)>)
    requires
        i < v.len(),
    ensures
        r is Some <==> net_iface_at(v@, i as int) is Some,
        r matches Some(m) ==> net_iface_at(v@, i as int) == Some((m.0 as int, m.1 as int))
            && i < m.0 <= m.1 <= v.len(),
{
    match ipv4_at_exec(v, i) {
        Some(e) => {
            let w = space_run_exec(v, e);
            if !(w < v.len() && v[w] == '(') {
                return None;
            }
            let q = nonparen_run_exec(v, w + 1);
            if q > w + 1 && q < v.len() {
                Some((w + 1, q))
            } else {
                None
            }
        },
        None => None,
    }
}

fn net_first_exec(v: &Vec<char>) -> (r: Option<(usize, usize)>)
    ensures
        r is Some <==> net_first(v@, 0) is Some,
        r matches Some(m) ==> net_first(v@, 0) == Some((m.0 as int, m.1 as int)) && m.0 <= m.1
            <= v.len(),
{
    let mut i: usize = 0;
    while i < v.len()
        invariant
            i <= v.len(),
            net_first(v@, 0) == net_first(v@, i as int),
        decreases v.len() - i,
    {
        match net_iface_at_exec(v, i) {
            Some(m) => {
                return Some(m);
            },
            None => {
                i = i + 1;
            },
        }
    }
    None
}

fn pass_ipv4_exec(v: &Vec<char>) -> (out: Vec<char>)
    ensures
        out@ == pass_ipv4(v@, 0),
{
    let mut out: Vec<char> = Vec::new();
    let mut i: usize = 0;
    proof {
        assert(out@ + pass_ipv4(v@, 0) =~= pass_ipv4(v@, 0));
    }
    while i < v.len()
        invariant
            i <= v.len(),
            pass_ipv4(v@, 0) == out@ + pass_ipv4(v@, i as int),
        decreases v.len() - i,
    {
        let ghost prev = out@;
        match ipv4_at_exec(v, i) {
            Some(e) => {
                push_str_chars(&mut out, "XXX.XXX.XXX.XXX");
                proof {
                    assert(prev + ("XXX.XXX.XXX.XXX"@ + pass_ipv4(v@, e as int)) =~= out@
                        + pass_ipv4(v@, e as int));
                }
                i = e;
            },
            None => {
                out.push(v[i]);
                proof {
                    assert(prev + (seq![v@[i as int]] + pass_ipv4(v@, i + 1)) =~= out@ + pass_ipv4(
                        v@,
                        i + 1,
                    ));
                }
                i = i + 1;
            },
        }
    }
    proof {
        assert(out@ + pass_ipv4(v@, i as int) =~= out@);
    }
    out
}

// ---------------------------------------------------------------------
// Memory and storage patterns
// ---------------------------------------------------------------------
/// Where a "<used> GB / <total> GB" pair matched: the bounds of the
/// four digit runs (whole and fractional part of each number) and the
/// end of the whole match.
pub ghost struct CapHit {
    pub d1s: int,
    pub d1e: int,
    pub d2e: int,
    pub d3s: int,
    pub d3e: int,
    pub d4e: int,
    pub end: int,
}

/// Match "<digits>.<digits> GB / <digits>.<digits> GB" at position
/// `i`, every digit run maximal, whitespace optional around "GB" and
/// the slash.
pub open spec fn cap_hit_at(s: Seq<char>, i: int) -> Option<CapHit> {
    let d1e = digit_run_end(s, i);
    if d1e > i && d1e < s.len() && s[d1e] == '.' {
        let d2e = digit_run_end(s, d1e + 1);
        if d2e > d1e + 1 {
            let w1 = space_run_end(s, d2e);
            if starts_with_at(s, w1, "GB"@) {
                let sl = space_run_end(s, w1 + 2);
                if sl < s.len() && s[sl] == '/' {
                    let d3s = space_run_end(s, sl + 1);
                    let d3e = digit_run_end(s, d3s);
                    if d3e > d3s && d3e < s.len() && s[d3e] == '.' {
                        let d4e = digit_run_end(s, d3e + 1);
                        if d4e > d3e + 1 {
                            let w2 = space_run_end(s, d4e);
                            if starts_with_at(s, w2, "GB"@) {
                                Some(CapHit { d1s: i, d1e, d2e, d3s, d3e, d4e, end: w2 + 2 })
                            } else {
                                None
                            }
                        } else {
                            None
                        }
                    } else {
                        None
                    }
                } else {
                    None
                }
            } else {
                None
            }
        } else {
            None
        }
    } else {
        None
    }
}

/// The leftmost capacity-pair match.
pub open spec fn cap_first(s: Seq<char>, i: int) -> Option<CapHit>
    decreases s.len() - i,
{
    if i < 0 || i >= s.len() {
        None
    } else {
        match cap_hit_at(s, i) {
            Some(h) => Some(h),
            None => cap_first(s, i + 1),
        }
    }
}

/// The first hit is a hit at its own start position.
pub proof fn lemma_cap_first_hit(s: Seq<char>, i: int)
    requires
        0 <= i,
    ensures
        cap_first(s, i) matches Some(h) ==> cap_hit_at(s, h.d1s) == Some(h) && i <= h.d1s,
    decreases s.len() - i,
{
    if i < s.len() {
        if cap_hit_at(s, i) is Some {
        } else {
            lemma_cap_first_hit(s, i + 1);
        }
    }
}

/// Both numbers short enough to compute with exactly.
pub open spec fn cap_digits_ok(h: CapHit) -> bool {
    &&& (h.d1e - h.d1s) + (h.d2e - h.d1e - 1) <= 15
    &&& (h.d3e - h.d3s) + (h.d4e - h.d3e - 1) <= 15
}

/// The used value, scaled by ten to its fractional length.
pub open spec fn used_scaled(s: Seq<char>, h: CapHit) -> nat {
    val_of_digits(s.subrange(h.d1s, h.d1e)) * pow10((h.d2e - h.d1e - 1) as nat) + val_of_digits(
        s.subrange(h.d1e + 1, h.d2e),
    )
}

/// The total value, scaled by ten to its fractional length.
pub open spec fn total_scaled(s: Seq<char>, h: CapHit) -> nat {
    val_of_digits(s.subrange(h.d3s, h.d3e)) * pow10((h.d4e - h.d3e - 1) as nat) + val_of_digits(
        s.subrange(h.d3e + 1, h.d4e),
    )
}

/// round(used / total * 100), half away from zero, over the scaled
/// integer values: `uv / 10^a` used, `tv / 10^b` total.
pub open spec fn percent_of(uv: nat, a: nat, tv: nat, b: nat) -> nat {
    (200 * uv * pow10(b) + tv * pow10(a)) / (2 * (tv * pow10(a)))
}

/// The memory capacity bucket for a total of `tv / 10^b` gigabytes.
pub open spec fn mem_bucket(tv: nat, b: nat) -> Seq<char> {
    if tv < 4 * pow10(b) {
        "< 4"@
    } else if tv < 8 * pow10(b) {
        "4-8"@
    } else if tv < 16 * pow10(b) {
        "8-16"@
    } else if tv < 32 * pow10(b) {
        "16-32"@
    } else if tv < 64 * pow10(b) {
        "32-64"@
    } else if tv < 128 * pow10(b) {
        "64-128"@
    } else {
        "> 128"@
    }
}

/// The storage capacity bucket for a total of `tv / 10^b` gigabytes.
pub open spec fn sto_bucket(tv: nat, b: nat) -> Seq<char> {
    if tv < 128 * pow10(b) {
        "< 128"@
    } else if tv < 256 * pow10(b) {
        "128-256"@
    } else if tv < 512 * pow10(b) {
        "256-512"@
    } else if tv < 1024 * pow10(b) {
        "512GB-1TB"@
    } else if tv < 2048 * pow10(b) {
        "1-2TB"@
    } else if tv < 4096 * pow10(b) {
        "2-4TB"@
    } else {
        "> 4TB"@
    }
}

/// The redacted memory field: a parsed pair becomes
/// "<percent>% of <bucket>"; anything else passes through, as does a
/// pair too long to compute with or with a zero total.
pub open spec fn memory_text(s: Seq<char>) -> Seq<char> {
    match cap_first(s, 0) {
        Some(h) => if cap_digits_ok(h) && total_scaled(s, h) > 0 {
            dec_str(
                percent_of(
                    used_scaled(s, h),
                    (h.d2e - h.d1e - 1) as nat,
                    total_scaled(s, h),
                    (h.d4e - h.d3e - 1) as nat,
                ),
            ) + "% of "@ + mem_bucket(total_scaled(s, h), (h.d4e - h.d3e - 1) as nat)
        } else {
            s
        },
        None => s,
    }
}

/// The redacted storage field, bucketed on the storage scale.
pub open spec fn storage_text(s: Seq<char>) -> Seq<char> {
    match cap_first(s, 0) {
        Some(h) => if cap_digits_ok(h) && total_scaled(s, h) > 0 {
            dec_str(
                percent_of(
                    used_scaled(s, h),
                    (h.d2e - h.d1e - 1) as nat,
                    total_scaled(s, h),
                    (h.d4e - h.d3e - 1) as nat,
                ),
            ) + "% of "@ + sto_bucket(total_scaled(s, h), (h.d4e - h.d3e - 1) as nat)
        } else {
            s
        },
        None => s,
    }
}

struct CapParts {
    d1s: usize,
    d1e: usize,
    d2e: usize,
    d3s: usize,
    d3e: usize,
    d4e: usize,
    end: usize,
}

fn cap_hit_exec(v: &Vec<char>, i: usize) -> (r: Option<CapParts>)
    requires
        i < v.len(),
    ensures
        r is Some <==> cap_hit_at(v@, i as int) is Some,
        r matches Some(m) ==> cap_hit_at(v@, i as int) == Some(
            CapHit {
                d1s: m.d1s as int,
                d1e: m.d1e as int,
                d2e: m.d2e as int,
                d3s: m.d3s as int,
                d3e: m.d3e as int,
                d4e: m.d4e as int,
                end: m.end as int,
            },
        ) && m.d1s == i && i < m.d1e < m.d2e <= v.len() && m.d2e <= m.d3s < m.d3e < m.d4e
            <= v.len(),
{
    let d1e = digit_run_exec(v, i);
    if !(d1e > i && d1e < v.len() && v[d1e] == '.') {
        return None;
    }
    let d2e = digit_run_exec(v, d1e + 1);
    if !(d2e > d1e + 1) {
        return None;
    }
    let w1 = space_run_exec(v, d2e);
    if !starts_with_exec(v, w1, "GB") {
        return None;
    }
    proof {
        reveal_strlit("GB");
    }
    let sl = space_run_exec(v, w1 + 2);
    if !(sl < v.len() && v[sl] == '/') {
        return None;
    }
    let d3s = space_run_exec(v, sl + 1);
    let d3e = digit_run_exec(v, d3s);
    if !(d3e > d3s && d3e < v.len() && v[d3e] == '.') {
        return None;
    }
    let d4e = digit_run_exec(v, d3e + 1);
    if !(d4e > d3e + 1) {
        return None;
    }
    let w2 = space_run_exec(v, d4e);
    if !starts_with_exec(v, w2, "GB") {
        return None;
    }
    Some(CapParts { d1s: i, d1e, d2e, d3s, d3e, d4e, end: w2 + 2 })
}

fn cap_first_exec(v: &Vec<char>) -> (r: Option<CapParts>)
    ensures
        r is Some <==> cap_first(v@, 0) is Some,
        r matches Some(m) ==> cap_first(v@, 0) == Some(
            CapHit {
                d1s: m.d1s as int,
                d1e: m.d1e as int,
                d2e: m.d2e as int,
                d3s: m.d3s as int,
                d3e: m.d3e as int,
                d4e: m.d4e as int,
                end: m.end as int,
            },
        ) && m.d1s < m.d1e < m.d2e <= v.len() && m.d2e <= m.d3s < m.d3e < m.d4e <= v.len(),
{
    let mut i: usize = 0;
    while i < v.len()
        invariant
            i <= v.len(),
            cap_first(v@, 0) == cap_first(v@, i as int),
        decreases v.len() - i,
    {
        match cap_hit_exec(v, i) {
            Some(m) => {
                return Some(m);
            },
            None => {
                i = i + 1;
            },
        }
    }
    None
}

/// The percent figure and the scaled total, computed exactly.
fn cap_percent_exec(v: &Vec<char>, m: &CapParts) -> (r: Option<(u128, u128, usize)>)
    requires
        m.d1s < m.d1e < m.d2e <= v.len(),
        m.d2e <= m.d3s < m.d3e < m.d4e <= v.len(),
        cap_hit_at(v@, m.d1s as int) == Some(
            CapHit {
                d1s: m.d1s as int,
                d1e: m.d1e as int,
                d2e: m.d2e as int,
                d3s: m.d3s as int,
                d3e: m.d3e as int,
                d4e: m.d4e as int,
                end: m.end as int,
            },
        ),
    ensures
        ({
            let h = CapHit {
                d1s: m.d1s as int,
                d1e: m.d1e as int,
                d2e: m.d2e as int,
                d3s: m.d3s as int,
                d3e: m.d3e as int,
                d4e: m.d4e as int,
                end: m.end as int,
            };
            &&& r is Some <==> (cap_digits_ok(h) && total_scaled(v@, h) > 0)
            &&& r matches Some(t) ==> t.0 == percent_of(
                used_scaled(v@, h),
                (h.d2e - h.d1e - 1) as nat,
                total_scaled(v@, h),
                (h.d4e - h.d3e - 1) as nat,
            ) && t.1 == total_scaled(v@, h) && t.2 == h.d4e - h.d3e - 1
        }),
{
    let ghost h = CapHit {
        d1s: m.d1s as int,
        d1e: m.d1e as int,
        d2e: m.d2e as int,
        d3s: m.d3s as int,
        d3e: m.d3e as int,
        d4e: m.d4e as int,
        end: m.end as int,
    };
    let l1 = m.d1e - m.d1s;
    let a = m.d2e - m.d1e - 1;
    let l3 = m.d3e - m.d3s;
    let b = m.d4e - m.d3e - 1;
    if l1 + a > 15 || l3 + b > 15 {
        return None;
    }
    proof {
        lemma_run_end(v@, m.d1s as int, |c: char| is_digit(c));
        lemma_run_end(v@, m.d1e + 1, |c: char| is_digit(c));
        lemma_run_end(v@, m.d3s as int, |c: char| is_digit(c));
        lemma_run_end(v@, m.d3e + 1, |c: char| is_digit(c));
    }
    let u1 = val_of_range(v, m.d1s, m.d1e);
    let u2 = val_of_range(v, m.d1e + 1, m.d2e);
    let t1 = val_of_range(v, m.d3s, m.d3e);
    let t2 = val_of_range(v, m.d3e + 1, m.d4e);
    let pa = pow10_u128(a);
    let pb = pow10_u128(b);
    proof {
        lemma_scaled_bound(u1 as nat, u2 as nat, l1 as nat, a as nat);
        lemma_scaled_bound(t1 as nat, t2 as nat, l3 as nat, b as nat);
        lemma_pow10_mono((l1 + a) as nat, 15);
        lemma_pow10_mono((l3 + b) as nat, 15);
        lemma_pow10_mono(a as nat, 14);
        lemma_pow10_mono(b as nat, 14);
        lemma_pow10_pos(a as nat);
        lemma_pow10_pos(b as nat);
        lemma_pow10_small();
    }
    let uv = u1 * pa + u2;
    let tv = t1 * pb + t2;
    if tv == 0 {
        return None;
    }
    proof {
        assert(uv < 0x38d7ea4c68000 && tv < 0x38d7ea4c68000);
        assert((uv as int) * (pb as int) < 0x38d7ea4c68000 * 0x5af3107a4000) by (nonlinear_arith)
            requires
                0 <= uv < 0x38d7ea4c68000,
                0 <= pb <= 0x5af3107a4000,
        ;
        assert((tv as int) * (pa as int) < 0x38d7ea4c68000 * 0x5af3107a4000) by (nonlinear_arith)
            requires
                0 <= tv < 0x38d7ea4c68000,
                0 <= pa <= 0x5af3107a4000,
        ;
        assert((tv as int) * (pa as int) >= 1) by (nonlinear_arith)
            requires
                tv >= 1,
                pa >= 1,
        ;
    }
    let den = tv * pa;
    let num = uv * pb;
    let p = (200 * num + den) / (2 * den);
    proof {
        assert(200 * ((uv as int) * (pb as int)) == 200 * (uv as int) * (pb as int))
            by (nonlinear_arith);
        assert(p == percent_of(uv as nat, a as nat, tv as nat, b as nat));
        assert(uv == used_scaled(v@, h));
        assert(tv == total_scaled(v@, h));
    }
    Some((p, tv, b))
}

// ---------------------------------------------------------------------
// CPU patterns
// ---------------------------------------------------------------------
/// A core-count fragment "(<digits> core)" or "(<digits> cores)";
/// yields the digit bounds and the end of the whole fragment.
pub open spec fn core_at(s: Seq<char>, i: int) -> Option<(int, int, int)> {
    if s[i] == '(' {
        let de = digit_run_end(s, i + 1);
        if de > i + 1 && starts_with_at(s, de, " core"@) {
            let t = de + 5;
            if t + 1 < s.len() && s[t] == 's' && s[t + 1] == ')' {
                Some((i + 1, de, t + 2))
            } else if t < s.len() && s[t] == ')' {
                Some((i + 1, de, t + 1))
            } else {
                None
            }
        } else {
            None
        }
    } else {
        None
    }
}

/// The first core-count fragment.
pub open spec fn core_first(s: Seq<char>, i: int) -> Option<(int, int, int)>
    decreases s.len() - i,
{
    if i < 0 || i >= s.len() {
        None
    } else {
        match core_at(s, i) {
            Some(m) => Some(m),
            None => core_first(s, i + 1),
        }
    }
}

/// An Intel model code: "i" and an odd series digit, a dash, at least
/// four digits, an upper-case suffix, on word boundaries.
pub open spec fn intel_at(s: Seq<char>, i: int) -> Option<int> {
    if (i == 0 || !is_word(s[i - 1])) && i + 2 < s.len() && s[i] == 'i' && (s[i + 1] == '3' || s[i
        + 1] == '5' || s[i + 1] == '7' || s[i + 1] == '9') && s[i + 2] == '-' {
        let de = digit_run_end(s, i + 3);
        if de - (i + 3) >= 4 {
            let ue = upper_run_end(s, de);
            if ue == s.len() || !is_word(s[ue]) {
                Some(ue)
            } else {
                None
            }
        } else {
            None
        }
    } else {
        None
    }
}

/// An AMD model code: "Ryzen", an odd series digit, exactly four
/// digits, an upper-case suffix, on word boundaries.
pub open spec fn ryzen_at(s: Seq<char>, i: int) -> Option<int> {
    if (i == 0 || !is_word(s[i - 1])) && starts_with_at(s, i, "Ryzen"@) {
        let w1 = space_run_end(s, i + 5);
        if w1 > i + 5 && w1 < s.len() && (s[w1] == '3' || s[w1] == '5' || s[w1] == '7' || s[w1]
            == '9') {
            let w2 = space_run_end(s, w1 + 1);
            if w2 > w1 + 1 {
                let de = digit_run_end(s, w2);
                if de - w2 == 4 {
                    let ue = upper_run_end(s, de);
                    if ue == s.len() || !is_word(s[ue]) {
                        Some(ue)
                    } else {
                        None
                    }
                } else {
                    None
                }
            } else {
                None
            }
        } else {
            None
        }
    } else {
        None
    }
}

/// A clock frequency: "@", optional whitespace, a decimal figure,
/// optional whitespace, "GHz".
pub open spec fn freq_at(s: Seq<char>, i: int) -> Option<int> {
    if s[i] == '@' {
        let w = space_run_end(s, i + 1);
        let de = digit_run_end(s, w);
        if de > w && de < s.len() && s[de] == '.' {
            let d2e = digit_run_end(s, de + 1);
            if d2e > de + 1 {
                let w2 = space_run_end(s, d2e);
                if starts_with_at(s, w2, "GHz"@) {
                    Some(w2 + 3)
                } else {
                    None
                }
            } else {
                None
            }
        } else {
            None
        }
    } else {
        None
    }
}

/// A parenthesized fragment whose content ends in "core" or "cores";
/// yields the index just past the closing parenthesis.
pub open spec fn parcores_at(s: Seq<char>, i: int) -> Option<int> {
    if s[i] == '(' {
        let q = nonparen_run_end(s, i + 1);
        if q < s.len() && ((q >= i + 5 && starts_with_at(s, q - 4, "core"@)) || (q >= i + 6
            && starts_with_at(s, q - 5, "cores"@))) {
            Some(q + 1)
        } else {
            None
        }
    } else {
        None
    }
}

/// Every Intel model code replaced by "iX-XXXX".
pub open spec fn pass_intel(s: Seq<char>, i: int) -> Seq<char>
    decreases s.len() - i,
{
    if i < 0 || i >= s.len() {
        Seq::empty()
    } else {
        match intel_at(s, i) {
            Some(e) => if i < e && e <= s.len() {
                "iX-XXXX"@ + pass_intel(s, e)
            } else {
                seq![s[i]] + pass_intel(s, i + 1)
            },
            None => seq![s[i]] + pass_intel(s, i + 1),
        }
    }
}

/// Every AMD model code replaced by "Ryzen X XXXX".
pub open spec fn pass_ryzen(s: Seq<char>, i: int) -> Seq<char>
    decreases s.len() - i,
{
    if i < 0 || i >= s.len() {
        Seq::empty()
    } else {
        match ryzen_at(s, i) {
            Some(e) => if i < e && e <= s.len() {
                "Ryzen X XXXX"@ + pass_ryzen(s, e)
            } else {
                seq![s[i]] + pass_ryzen(s, i + 1)
            },
            None => seq![s[i]] + pass_ryzen(s, i + 1),
        }
    }
}

/// Every clock frequency replaced by "@ X.X GHz".
pub open spec fn pass_freq(s: Seq<char>, i: int) -> Seq<char>
    decreases s.len() - i,
{
    if i < 0 || i >= s.len() {
        Seq::empty()
    } else {
        match freq_at(s, i) {
            Some(e) => if i < e && e <= s.len() {
                "@ X.X GHz"@ + pass_freq(s, e)
            } else {
                seq![s[i]] + pass_freq(s, i + 1)
            },
            None => seq![s[i]] + pass_freq(s, i + 1),
        }
    }
}

/// Every core-count fragment removed (it is re-appended uniformly).
pub open spec fn pass_parcores(s: Seq<char>, i: int) -> Seq<char>
    decreases s.len() - i,
{
    if i < 0 || i >= s.len() {
        Seq::empty()
    } else {
        match parcores_at(s, i) {
            Some(e) => if i < e && e <= s.len() {
                pass_parcores(s, e)
            } else {
                seq![s[i]] + pass_parcores(s, i + 1)
            },
            None => seq![s[i]] + pass_parcores(s, i + 1),
        }
    }
}

/// The redacted CPU field: the core count is captured up front and
/// re-appended verbatim at the end; with the model-redaction flag set,
/// model codes and clock frequencies become shape-preserving
/// placeholders; whitespace is collapsed.
pub open spec fn cpu_text(s: Seq<char>, redact_model: bool) -> Seq<char> {
    let base = if redact_model {
        pass_parcores(pass_freq(pass_ryzen(pass_intel(s, 0), 0), 0), 0)
    } else {
        pass_parcores(s, 0)
    };
    let coll = collapse_ws(base);
    match core_first(s, 0) {
        Some(m) => coll + " ("@ + s.subrange(m.0, m.1) + " cores)"@,
        None => coll,
    }
}

fn core_at_exec(v: &Vec<char>, i: usize) -> (r: Option<(usize, usize, usize)>)
    requires
        i < v.len(),
    ensures
        r is Some <==> core_at(v@, i as int) is Some,
        r matches Some(m) ==> core_at(v@, i as int) == Some((m.0 as int, m.1 as int, m.2 as int))
            && i < m.0 < m.1 <= v.len() && m.1 <= m.2 <= v.len(),
{
    if v[i] != '(' {
        return None;
    }
    let de = digit_run_exec(v, i + 1);
    if !(de > i + 1 && starts_with_exec(v, de, " core")) {
        return None;
    }
    proof {
        reveal_strlit(" core");
    }
    let t = de + 5;
    if t < v.len() && v[t] == 's' && t + 1 < v.len() && v[t + 1] == ')' {
        Some((i + 1, de, t + 2))
    } else if t < v.len() && v[t] == ')' {
        Some((i + 1, de, t + 1))
    } else {
        None
    }
}

fn core_first_exec(v: &Vec<char>) -> (r: Option<(usize, usize, usize)>)
    ensures
        r is Some <==> core_first(v@, 0) is Some,
        r matches Some(m) ==> core_first(v@, 0) == Some((m.0 as int, m.1 as int, m.2 as int))
            && m.0 < m.1 <= v.len(),
{
    let mut i: usize = 0;
    while i < v.len()
        invariant
            i <= v.len(),
            core_first(v@, 0) == core_first(v@, i as int),
        decreases v.len() - i,
    {
        match core_at_exec(v, i) {
            Some(m) => {
                return Some(m);
            },
            None => {
                i = i + 1;
            },
        }
    }
    None
}

fn intel_at_exec(v: &Vec<char>, i: usize) -> (r: Option<usize>)
    requires
        i < v.len(),
    ensures
        r is Some <==> intel_at(v@, i as int) is Some,
        r matches Some(e) ==> intel_at(v@, i as int) == Some(e as int) && i < e <= v.len(),
{
    if !(i == 0 || !word_exec(v[i - 1])) {
        return None;
    }
    if !(v.len() >= 3 && i < v.len() - 2 && v[i] == 'i' && (v[i + 1] == '3' || v[i + 1] == '5'
        || v[i + 1] == '7' || v[i + 1] == '9') && v[i + 2] == '-') {
        return None;
    }
    let de = digit_run_exec(v, i + 3);
    if !(de - (i + 3) >= 4) {
        return None;
    }
    let ue = upper_run_exec(v, de);
    if ue == v.len() || !word_exec(v[ue]) {
        Some(ue)
    } else {
        None
    }
}

fn ryzen_at_exec(v: &Vec<char>, i: usize) -> (r: Option<usize>)
    requires
        i < v.len(),
    ensures
        r is Some <==> ryzen_at(v@, i as int) is Some,
        r matches Some(e) ==> ryzen_at(v@, i as int) == Some(e as int) && i < e <= v.len(),
{
    if !(i == 0 || !word_exec(v[i - 1])) {
        return None;
    }
    if !starts_with_exec(v, i, "Ryzen") {
        return None;
    }
    proof {
        reveal_strlit("Ryzen");
    }
    let w1 = space_run_exec(v, i + 5);
    if !(w1 > i + 5 && w1 < v.len() && (v[w1] == '3' || v[w1] == '5' || v[w1] == '7' || v[w1]
        == '9')) {
        return None;
    }
    let w2 = space_run_exec(v, w1 + 1);
    if !(w2 > w1 + 1) {
        return None;
    }
    let de = digit_run_exec(v, w2);
    if !(de - w2 == 4) {
        return None;
    }
    let ue = upper_run_exec(v, de);
    if ue == v.len() || !word_exec(v[ue]) {
        Some(ue)
    } else {
        None
    }
}

fn freq_at_exec(v: &Vec<char>, i: usize) -> (r: Option<usize>)
    requires
        i < v.len(),
    ensures
        r is Some <==> freq_at(v@, i as int) is Some,
        r matches Some(e) ==> freq_at(v@, i as int) == Some(e as int) && i < e <= v.len(),
{
    if v[i] != '@' {
        return None;
    }
    let w = space_run_exec(v, i + 1);
    let de = digit_run_exec(v, w);
    if !(de > w && de < v.len() && v[de] == '.') {
        return None;
    }
    let d2e = digit_run_exec(v, de + 1);
    if !(d2e > de + 1) {
        return None;
    }
    let w2 = space_run_exec(v, d2e);
    if starts_with_exec(v, w2, "GHz") {
        proof {
            reveal_strlit("GHz");
        }
        Some(w2 + 3)
    } else {
        None
    }
}

fn parcores_at_exec(v: &Vec<char>, i: usize) -> (r: Option<usize>)
    requires
        i < v.len(),
    ensures
        r is Some <==> parcores_at(v@, i as int) is Some,
        r matches Some(e) ==> parcores_at(v@, i as int) == Some(e as int) && i < e <= v.len(),
{
    if v[i] != '(' {
        return None;
    }
    let q = nonparen_run_exec(v, i + 1);
    if q >= v.len() {
        return None;
    }
    let ends_core = q >= 4 && q - 4 > i && starts_with_exec(v, q - 4, "core");
    let ends_cores = q >= 5 && q - 5 > i && starts_with_exec(v, q - 5, "cores");
    if ends_core || ends_cores {
        Some(q + 1)
    } else {
        None
    }
}

fn pass_intel_exec(v: &Vec<char>) -> (out: Vec<char>)
    ensures
        out@ == pass_intel(v@, 0),
{
    let mut out: Vec<char> = Vec::new();
    let mut i: usize = 0;
    proof {
        assert(out@ + pass_intel(v@, 0) =~= pass_intel(v@, 0));
    }
    while i < v.len()
        invariant
            i <= v.len(),
            pass_intel(v@, 0) == out@ + pass_intel(v@, i as int),
        decreases v.len() - i,
    {
        let ghost prev = out@;
        match intel_at_exec(v, i) {
            Some(e) => {
                push_str_chars(&mut out, "iX-XXXX");
                proof {
                    assert(prev + ("iX-XXXX"@ + pass_intel(v@, e as int)) =~= out@ + pass_intel(
                        v@,
                        e as int,
                    ));
                }
                i = e;
            },
            None => {
                out.push(v[i]);
                proof {
                    assert(prev + (seq![v@[i as int]] + pass_intel(v@, i + 1)) =~= out@
                        + pass_intel(v@, i + 1));
                }
                i = i + 1;
            },
        }
    }
    proof {
        assert(out@ + pass_intel(v@, i as int) =~= out@);
    }
    out
}

fn pass_ryzen_exec(v: &Vec<char>) -> (out: Vec<char>)
    ensures
        out@ == pass_ryzen(v@, 0),
{
    let mut out: Vec<char> = Vec::new();
    let mut i: usize = 0;
    proof {
        assert(out@ + pass_ryzen(v@, 0) =~= pass_ryzen(v@, 0));
    }
    while i < v.len()
        invariant
            i <= v.len(),
            pass_ryzen(v@, 0) == out@ + pass_ryzen(v@, i as int),
        decreases v.len() - i,
    {
        let ghost prev = out@;
        match ryzen_at_exec(v, i) {
            Some(e) => {
                push_str_chars(&mut out, "Ryzen X XXXX");
                proof {
                    assert(prev + ("Ryzen X XXXX"@ + pass_ryzen(v@, e as int)) =~= out@
                        + pass_ryzen(v@, e as int));
                }
                i = e;
            },
            None => {
                out.push(v[i]);
                proof {
                    assert(prev + (seq![v@[i as int]] + pass_ryzen(v@, i + 1)) =~= out@
                        + pass_ryzen(v@, i + 1));
                }
                i = i + 1;
            },
        }
    }
    proof {
        assert(out@ + pass_ryzen(v@, i as int) =~= out@);
    }
    out
}

fn pass_freq_exec(v: &Vec<char>) -> (out: Vec<char>)
    ensures
        out@ == pass_freq(v@, 0),
{
    let mut out: Vec<char> = Vec::new();
    let mut i: usize = 0;
    proof {
        assert(out@ + pass_freq(v@, 0) =~= pass_freq(v@, 0));
    }
    while i < v.len()
        invariant
            i <= v.len(),
            pass_freq(v@, 0) == out@ + pass_freq(v@, i as int),
        decreases v.len() - i,
    {
        let ghost prev = out@;
        match freq_at_exec(v, i) {
            Some(e) => {
                push_str_chars(&mut out, "@ X.X GHz");
                proof {
                    assert(prev + ("@ X.X GHz"@ + pass_freq(v@, e as int)) =~= out@ + pass_freq(
                        v@,
                        e as int,
                    ));
                }
                i = e;
            },
            None => {
                out.push(v[i]);
                proof {
                    assert(prev + (seq![v@[i as int]] + pass_freq(v@, i + 1)) =~= out@ + pass_freq(
                        v@,
                        i + 1,
                    ));
                }
                i = i + 1;
            },
        }
    }
    proof {
        assert(out@ + pass_freq(v@, i as int) =~= out@);
    }
    out
}

fn pass_parcores_exec(v: &Vec<char>) -> (out: Vec<char>)
    ensures
        out@ == pass_parcores(v@, 0),
{
    let mut out: Vec<char> = Vec::new();
    let mut i: usize = 0;
    proof {
        assert(out@ + pass_parcores(v@, 0) =~= pass_parcores(v@, 0));
    }
    while i < v.len()
        invariant
            i <= v.len(),
            pass_parcores(v@, 0) == out@ + pass_parcores(v@, i as int),
        decreases v.len() - i,
    {
        let ghost prev = out@;
        match parcores_at_exec(v, i) {
            Some(e) => {
                i = e;
            },
            None => {
                out.push(v[i]);
                proof {
                    assert(prev + (seq![v@[i as int]] + pass_parcores(v@, i + 1)) =~= out@
                        + pass_parcores(v@, i + 1));
                }
                i = i + 1;
            },
        }
    }
    proof {
        assert(out@ + pass_parcores(v@, i as int) =~= out@);
    }
    out
}

fn mem_bucket_exec(tv: u128, b: usize) -> (r: &'static str)
    requires
        b <= 14,
    ensures
        r@ == mem_bucket(tv as nat, b as nat),
{
    let pb = pow10_u128(b);
    proof {
        lemma_pow10_mono(b as nat, 14);
        lemma_pow10_small();
    }
    if tv < 4 * pb {
        "< 4"
    } else if tv < 8 * pb {
        "4-8"
    } else if tv < 16 * pb {
        "8-16"
    } else if tv < 32 * pb {
        "16-32"
    } else if tv < 64 * pb {
        "32-64"
    } else if tv < 128 * pb {
        "64-128"
    } else {
        "> 128"
    }
}

fn sto_bucket_exec(tv: u128, b: usize) -> (r: &'static str)
    requires
        b <= 14,
    ensures
        r@ == sto_bucket(tv as nat, b as nat),
{
    let pb = pow10_u128(b);
    proof {
        lemma_pow10_mono(b as nat, 14);
        lemma_pow10_small();
    }
    if tv < 128 * pb {
        "< 128"
    } else if tv < 256 * pb {
        "128-256"
    } else if tv < 512 * pb {
        "256-512"
    } else if tv < 1024 * pb {
        "512GB-1TB"
    } else if tv < 2048 * pb {
        "1-2TB"
    } else if tv < 4096 * pb {
        "2-4TB"
    } else {
        "> 4TB"
    }
}

/// The whole sanitized record, field by field.
pub open spec fn redact_view(f: crate::sysinfo::SystemInfoV, redact_model: bool) -> crate::sysinfo::SystemInfoV {
    crate::sysinfo::SystemInfoV {
        hostname: hostname_text(f.hostname),
        cpu: cpu_text(f.cpu, redact_model),
        memory: memory_text(f.memory),
        storage: storage_text(f.storage),
        gpu: gpu_text(f.gpu),
        network: network_text(f.network),
        ..f
    }
}

impl DataRedactor {
    /// The redacted hostname: length is preserved; a name longer than
    /// two characters keeps exactly its first and last character, and
    /// every other character becomes the mask; a name of at most two
    /// characters is masked entirely.
    pub fn redact_hostname(hostname: &str) -> (r: String)
        ensures
            r@ == hostname_text(hostname@),
            r@.len() == hostname@.len(),
            hostname@.len() > 2 ==> r@[0] == hostname@[0] && r@[r@.len() - 1] == hostname@[hostname@.len()
                - 1] && forall|k: int| 0 < k < r@.len() - 1 ==> r@[k] == '*',
            hostname@.len() <= 2 ==> forall|k: int| 0 <= k < r@.len() ==> r@[k] == '*',
    {
        let v = chars_of(hostname);
        let mut out: Vec<char> = Vec::new();
        if v.len() <= 2 {
            push_stars(&mut out, v.len());
            proof {
                assert(out@ =~= hostname_text(hostname@));
            }
        } else {
            out.push(v[0]);
            push_stars(&mut out, v.len() - 2);
            out.push(v[v.len() - 1]);
            proof {
                assert(out@ =~= hostname_text(hostname@));
            }
        }
        string_of(&out)
    }

    /// The redacted CPU field.
    pub fn redact_cpu(cpu: &str, redact_model: bool) -> (r: String)
        ensures
            r@ == cpu_text(cpu@, redact_model),
    {
        let v = chars_of(cpu);
        let core = core_first_exec(&v);
        let base = if redact_model {
            let a = pass_intel_exec(&v);
            let b = pass_ryzen_exec(&a);
            let c = pass_freq_exec(&b);
            pass_parcores_exec(&c)
        } else {
            pass_parcores_exec(&v)
        };
        let mut out = collapse_ws_exec(&base);
        match core {
            Some(m) => {
                push_str_chars(&mut out, " (");
                let mut k = m.0;
                let ghost mid = out@;
                while k < m.1
                    invariant
                        m.0 <= k <= m.1 <= v.len(),
                        out@ == mid + v@.subrange(m.0 as int, k as int),
                    decreases m.1 - k,
                {
                    out.push(v[k]);
                    k = k + 1;
                    proof {
                        assert(out@ =~= mid + v@.subrange(m.0 as int, k as int));
                    }
                }
                push_str_chars(&mut out, " cores)");
                proof {
                    assert(out@ =~= cpu_text(cpu@, redact_model));
                }
            },
            None => {
                proof {
                    assert(out@ =~= cpu_text(cpu@, redact_model));
                }
            },
        }
        string_of(&out)
    }

    /// The sanitized copy of a host-facts record: hostname, CPU,
    /// memory, storage, GPU and network are generalized; every other
    /// field, the security record included, passes through unchanged.
    pub fn redact_system_info(info: &SystemInfo, config: &Config) -> (r: SystemInfo)
        ensures
            r.os@ == info.os@,
            r.kernel@ == info.kernel@,
            r.hostname@ == hostname_text(info.hostname@),
            r.uptime@ == info.uptime@,
            r.cpu@ == cpu_text(info.cpu@, config.redact_cpu_model),
            r.memory@ == memory_text(info.memory@),
            r.storage@ == storage_text(info.storage@),
            r.shell@ == info.shell@,
            r.desktop@ == info.desktop@,
            r.terminal@ == info.terminal@,
            r.security == info.security,
            r.gpu@ == gpu_text(info.gpu@),
            r.temperature@ == info.temperature@,
            r.network@ == network_text(info.network@),
            r.packages@ == info.packages@,
            r@ == redact_view(info@, config.redact_cpu_model),
    {
        SystemInfo {
            os: info.os.clone(),
            kernel: info.kernel.clone(),
            hostname: Self::redact_hostname(info.hostname.as_str()),
            uptime: info.uptime.clone(),
            cpu: Self::redact_cpu(info.cpu.as_str(), config.redact_cpu_model),
            memory: Self::redact_memory(info.memory.as_str()),
            storage: Self::redact_storage(info.storage.as_str()),
            shell: info.shell.clone(),
            desktop: info.desktop.clone(),
            terminal: info.terminal.clone(),
            security: SecurityInfo {
                firewall_status: info.security.firewall_status.clone(),
                selinux_status: info.security.selinux_status.clone(),
                apparmor_status: info.security.apparmor_status.clone(),
                package_updates: info.security.package_updates.clone(),
                ssh_status: info.security.ssh_status.clone(),
                fail2ban_status: info.security.fail2ban_status.clone(),
                disk_encryption: info.security.disk_encryption.clone(),
                secure_boot: info.security.secure_boot.clone(),
            },
            gpu: Self::redact_gpu(info.gpu.as_str()),
            temperature: info.temperature.clone(),
            network: Self::redact_network(info.network.as_str()),
            packages: info.packages.clone(),
        }
    }

    /// The banner shown above redacted output.
    pub fn get_redaction_notice() -> (r: String)
        ensures
            r@ == "\u{1f512} Screenshot mode: Sensitive information redacted"@,
    {
        "\u{1f512} Screenshot mode: Sensitive information redacted".to_owned()
    }

    /// The redacted memory field.
    pub fn redact_memory(memory: &str) -> (r: String)
        ensures
            r@ == memory_text(memory@),
    {
        let v = chars_of(memory);
        match cap_first_exec(&v) {
            Some(m) => {
                proof {
                    lemma_cap_first_hit(v@, 0);
                }
                match cap_percent_exec(&v, &m) {
                    Some(t) => {
                        let mut out = dec_of_u128(t.0);
                        push_str_chars(&mut out, "% of ");
                        let bucket = mem_bucket_exec(t.1, t.2);
                        push_str_chars(&mut out, bucket);
                        proof {
                            assert(out@ =~= memory_text(memory@));
                        }
                        string_of(&out)
                    },
                    None => string_of(&v),
                }
            },
            None => string_of(&v),
        }
    }

    /// The redacted storage field.
    pub fn redact_storage(storage: &str) -> (r: String)
        ensures
            r@ == storage_text(storage@),
    {
        let v = chars_of(storage);
        match cap_first_exec(&v) {
            Some(m) => {
                proof {
                    lemma_cap_first_hit(v@, 0);
                }
                match cap_percent_exec(&v, &m) {
                    Some(t) => {
                        let mut out = dec_of_u128(t.0);
                        push_str_chars(&mut out, "% of ");
                        let bucket = sto_bucket_exec(t.1, t.2);
                        push_str_chars(&mut out, bucket);
                        proof {
                            assert(out@ =~= storage_text(storage@));
                        }
                        string_of(&out)
                    },
                    None => string_of(&v),
                }
            },
            None => string_of(&v),
        }
    }

    /// The redacted GPU field.
    pub fn redact_gpu(gpu: &str) -> (r: String)
        ensures
            r@ == gpu_text(gpu@),
    {
        let v = chars_of(gpu);
        if seq_eq_exec(&v, "Unknown") {
            return string_of(&v);
        }
        let a = pass_digits_exec(&v, 4, "XXXX");
        let b = pass_digits_exec(&a, 3, "XXX");
        let c = pass_rev_exec(&b);
        let d = pass_paren_exec(&c);
        let out = collapse_ws_exec(&d);
        string_of(&out)
    }

    /// The redacted network field.
    pub fn redact_network(network: &str) -> (r: String)
        ensures
            r@ == network_text(network@),
    {
        let v = chars_of(network);
        if seq_eq_exec(&v, "Unknown") {
            return string_of(&v);
        }
        match net_first_exec(&v) {
            Some(m) => {
                let mut out: Vec<char> = Vec::new();
                push_str_chars(&mut out, "XXX.XXX.XXX.XXX (");
                let mut k = m.0;
                while k < m.1
                    invariant
                        m.0 <= k <= m.1 <= v.len(),
                        out@ == "XXX.XXX.XXX.XXX ("@ + v@.subrange(m.0 as int, k as int),
                    decreases m.1 - k,
                {
                    out.push(v[k]);
                    k = k + 1;
                    proof {
                        assert(out@ =~= "XXX.XXX.XXX.XXX ("@ + v@.subrange(m.0 as int, k as int));
                    }
                }
                push_str_chars(&mut out, ")");
                proof {
                    assert(out@ =~= network_text(network@));
                }
                string_of(&out)
            },
            None => {
                if !crate::text::contains_char_exec(&v, '.') {
                    string_of(&v)
                } else {
                    let out = pass_ipv4_exec(&v);
                    string_of(&out)
                }
            },
        }
    }
}

} // verus!
