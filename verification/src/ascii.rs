//! Logo resolution: which glyph art represents a host.
//!
//! Resolution order over the lower-cased OS name: an exact entry in
//! the custom catalog, then the first custom entry whose key occurs
//! inside the name, then the first match in the fixed, ordered
//! built-in keyword list, and finally a generic placeholder — with a
//! hint on registering a custom logo whenever the name cleans to a
//! usable token.

use vstd::prelude::*;

verus! {

use vstd::string::StringExecFns;
use crate::logo_config::{LogoConfig, CustomLogo};
use crate::text::{
    lower_of,
    lowercase,
    is_word,
    word_exec,
    is_substr,
    chars_of,
    contains_exec,
    seq_eq_exec,
    push_str_chars,
    push_all,
    string_of,
};

pub struct AsciiArt;

/// The OS name cleaned to a token: word characters only.
pub open spec fn clean_of(s: Seq<char>, j: int) -> Seq<char>
    decreases s.len() - j,
{
    if j < 0 || j >= s.len() {
        Seq::empty()
    } else if is_word(s[j]) {
        seq![s[j]] + clean_of(s, j + 1)
    } else {
        clean_of(s, j + 1)
    }
}

fn clean_exec(v: &Vec<char>) -> (out: Vec<char>)
    ensures
        out@ == clean_of(v@, 0),
{
    let mut out: Vec<char> = Vec::new();
    let mut j: usize = 0;
    proof {
        assert(out@ + clean_of(v@, 0) =~= clean_of(v@, 0));
    }
    while j < v.len()
        invariant
            j <= v.len(),
            clean_of(v@, 0) == out@ + clean_of(v@, j as int),
        decreases v.len() - j,
    {
        let ghost prev = out@;
        if word_exec(v[j]) {
            out.push(v[j]);
            proof {
                assert(prev + (seq![v@[j as int]] + clean_of(v@, j + 1)) =~= out@ + clean_of(
                    v@,
                    j + 1,
                ));
            }
        }
        j = j + 1;
    }
    proof {
        assert(out@ + clean_of(v@, j as int) =~= out@);
    }
    out
}

/// The ordered built-in keyword list; order matters where keywords
/// could overlap.
pub open spec fn builtin_keyword(j: int) -> Seq<char> {
    if j == 0 {
        "macos"@
    } else if j == 1 {
        "mac os"@
    } else if j == 2 {
        "darwin"@
    } else if j == 3 {
        "ubuntu"@
    } else if j == 4 {
        "debian"@
    } else if j == 5 {
        "arch"@
    } else if j == 6 {
        "fedora"@
    } else if j == 7 {
        "mint"@
    } else if j == 8 {
        "manjaro"@
    } else if j == 9 {
        "opensuse"@
    } else if j == 10 {
        "centos"@
    } else if j == 11 {
        "alpine"@
    } else if j == 12 {
        "kali"@
    } else if j == 13 {
        "gentoo"@
    } else if j == 14 {
        "nixos"@
    } else if j == 15 {
        "void"@
    } else {
        "endeavour"@
    }
}

/// The art each keyword selects.
pub open spec fn builtin_art_for(j: int) -> Seq<Seq<char>> {
    if j <= 2 {
        macos_art()
    } else if j == 3 {
        ubuntu_art()
    } else if j == 4 {
        debian_art()
    } else if j == 5 {
        arch_art()
    } else if j == 6 {
        fedora_art()
    } else if j == 7 {
        mint_art()
    } else if j == 8 {
        manjaro_art()
    } else if j == 9 {
        opensuse_art()
    } else if j == 10 {
        centos_art()
    } else if j == 11 {
        alpine_art()
    } else if j == 12 {
        kali_art()
    } else if j == 13 {
        gentoo_art()
    } else if j == 14 {
        nixos_art()
    } else if j == 15 {
        void_art()
    } else {
        endeavour_art()
    }
}

/// The first built-in keyword, from `j` on, occurring in `low`.
pub open spec fn builtin_pick(low: Seq<char>, j: int) -> Option<int>
    decreases 17 - j,
{
    if j < 0 || j >= 17 {
        None
    } else if is_substr(builtin_keyword(j), low) {
        Some(j)
    } else {
        builtin_pick(low, j + 1)
    }
}

/// The hint lines appended to the generic logo when the cleaned name
/// is usable: empty and "unknown" tokens get no hint.
pub open spec fn hint_tail(t: Seq<char>) -> Seq<Seq<char>> {
    if t.len() > 0 && t != "unknown"@ {
        seq![
            ""@,
            "# Create a custom logo with:"@,
            "# hxfetch --ascii-maker"@,
            "# Use '"@ + t + "' as OS name"@,
        ]
    } else {
        Seq::empty()
    }
}

/// What logo resolution returns for OS name `os` against the custom
/// catalog `m`: the exact custom entry for the lower-cased name; else
/// the first custom entry whose key occurs inside it; else the first
/// built-in keyword match; else the generic logo with its hint.
pub open spec fn resolves(os: Seq<char>, m: Seq<(String, CustomLogo)>, r: Seq<Seq<char>>) -> bool {
    let low = lower_of(os);
    let k2 = lower_of(low);
    &&& forall|i: int|
        #![trigger m[i]]
        (0 <= i < m.len() && m[i].0@ == k2 && (forall|j: int| 0 <= j < i ==> m[j].0@ != k2)) ==> r
            == m[i].1.lines.deep_view()
    &&& (forall|i: int| #![trigger m[i]] 0 <= i < m.len() ==> m[i].0@ != k2) ==> (forall|i: int|
        #![trigger m[i]]
        (0 <= i < m.len() && is_substr(m[i].0@, k2) && (forall|j: int|
            0 <= j < i ==> !is_substr(m[j].0@, k2))) ==> r == m[i].1.lines.deep_view())
    &&& (forall|i: int|
        #![trigger m[i]]
        0 <= i < m.len() ==> m[i].0@ != k2 && !is_substr(m[i].0@, k2)) ==> (match builtin_pick(
        low,
        0,
    ) {
        Some(j) => r == builtin_art_for(j),
        None => r == generic_art() + hint_tail(clean_of(low, 0)),
    })
}

/// A custom-catalog hit (the lookup's own contract) fixes the resolved
/// lines.
proof fn lemma_resolves_custom(
    os: Seq<char>,
    m: Seq<(String, CustomLogo)>,
    r: Seq<Seq<char>>,
    cl: CustomLogo,
)
    requires
        ({
            let k2 = lower_of(lower_of(os));
            (exists|i: int|
                0 <= i < m.len() && m[i].0@ == k2 && (forall|j: int| 0 <= j < i ==> m[j].0@ != k2)
                    && cl == m[i].1) || ((forall|i: int| 0 <= i < m.len() ==> m[i].0@ != k2)
                && exists|i: int|
                0 <= i < m.len() && is_substr(m[i].0@, k2) && (forall|j: int|
                    0 <= j < i ==> !is_substr(m[j].0@, k2)) && cl == m[i].1)
        }),
        r == cl.lines.deep_view(),
    ensures
        resolves(os, m, r),
{
    let k2 = lower_of(lower_of(os));
    if exists|i: int|
        0 <= i < m.len() && m[i].0@ == k2 && (forall|j: int| 0 <= j < i ==> m[j].0@ != k2) && cl
            == m[i].1 {
        let w = choose|i: int|
            0 <= i < m.len() && m[i].0@ == k2 && (forall|j: int| 0 <= j < i ==> m[j].0@ != k2)
                && cl == m[i].1;
        assert forall|i: int|
            (0 <= i < m.len() && m[i].0@ == k2 && (forall|j: int|
                0 <= j < i ==> m[j].0@ != k2)) implies r == m[i].1.lines.deep_view() by {
            if w < i {
                assert(m[w].0@ != k2);
            } else if i < w {
                assert(m[i].0@ != k2);
            }
        }
        assert(m[w].0@ == k2);
    } else {
        assert((forall|i: int| 0 <= i < m.len() ==> m[i].0@ != k2) && exists|i: int|
            0 <= i < m.len() && is_substr(m[i].0@, k2) && (forall|j: int|
                0 <= j < i ==> !is_substr(m[j].0@, k2)) && cl == m[i].1);
        let w = choose|i: int|
            0 <= i < m.len() && is_substr(m[i].0@, k2) && (forall|j: int|
                0 <= j < i ==> !is_substr(m[j].0@, k2)) && cl == m[i].1;
        assert forall|i: int|
            (0 <= i < m.len() && is_substr(m[i].0@, k2) && (forall|j: int|
                0 <= j < i ==> !is_substr(m[j].0@, k2))) implies r == m[i].1.lines.deep_view() by {
            if w < i {
                assert(!is_substr(m[w].0@, k2));
            } else if i < w {
                assert(!is_substr(m[i].0@, k2));
            }
        }
        assert(is_substr(m[w].0@, k2));
    }
}

/// With no custom hit at all, resolution is the built-in or fallback
/// choice.
proof fn lemma_resolves_builtin(os: Seq<char>, m: Seq<(String, CustomLogo)>, r: Seq<Seq<char>>)
    requires
        forall|i: int|
            #![trigger m[i]]
            0 <= i < m.len() ==> m[i].0@ != lower_of(lower_of(os)) && !is_substr(
                m[i].0@,
                lower_of(lower_of(os)),
            ),
        match builtin_pick(lower_of(os), 0) {
            Some(j) => r == builtin_art_for(j),
            None => r == generic_art() + hint_tail(clean_of(lower_of(os), 0)),
        },
    ensures
        resolves(os, m, r),
{
}

/// A field-for-field copy of logo lines.
fn clone_lines(lines: &Vec<String>) -> (r: Vec<String>)
    ensures
        r@ == lines@,
{
    let mut out: Vec<String> = Vec::new();
    let mut i: usize = 0;
    while i < lines.len()
        invariant
            i <= lines@.len(),
            out@ == lines@.subrange(0, i as int),
        decreases lines.len() - i,
    {
        out.push(lines[i].clone());
        i = i + 1;
        proof {
            assert(out@ =~= lines@.subrange(0, i as int));
        }
    }
    proof {
        assert(out@ =~= lines@);
    }
    out
}

impl AsciiArt {
    /// Resolve an OS name to logo lines against the given custom
    /// catalog: custom exact match, custom substring match, built-in
    /// keyword match, generic fallback — in that order, never failing.
    pub fn get_logo(os_name: &str, logos: &LogoConfig) -> (r: Vec<String>)
        ensures
            resolves(os_name@, logos.logos@, r.deep_view()),
    {
        let ghost m = logos.logos@;
        let low = lowercase(os_name);
        match logos.get_logo(low.as_str()) {
            Some(cl) => {
                let lines = clone_lines(&cl.lines);
                proof {
                    lemma_resolves_custom(os_name@, m, lines.deep_view(), *cl);
                }
                return lines;
            },
            None => {
            },
        }
        let lowv = chars_of(low.as_str());
        if contains_exec(&lowv, "macos") {
            let r = macos_logo();
            proof {
                lemma_pick(low@, os_name@, m, r.deep_view(), 0);
            }
            return r;
        }
        if contains_exec(&lowv, "mac os") {
            let r = macos_logo();
            proof {
                lemma_pick(low@, os_name@, m, r.deep_view(), 1);
            }
            return r;
        }
        if contains_exec(&lowv, "darwin") {
            let r = macos_logo();
            proof {
                lemma_pick(low@, os_name@, m, r.deep_view(), 2);
            }
            return r;
        }
        if contains_exec(&lowv, "ubuntu") {
            let r = ubuntu_logo();
            proof {
                lemma_pick(low@, os_name@, m, r.deep_view(), 3);
            }
            return r;
        }
        if contains_exec(&lowv, "debian") {
            let r =
                Self::windows_subsystem_for_linux_apt_arch_linux_debian_linux_github_installation_spiral_theme_logos_logo();
            proof {
                lemma_pick(low@, os_name@, m, r.deep_view(), 4);
            }
            return r;
        }
        if contains_exec(&lowv, "arch") {
            let r = arch_logo();
            proof {
                lemma_pick(low@, os_name@, m, r.deep_view(), 5);
            }
            return r;
        }
        if contains_exec(&lowv, "fedora") {
            let r = fedora_logo();
            proof {
                lemma_pick(low@, os_name@, m, r.deep_view(), 6);
            }
            return r;
        }
        if contains_exec(&lowv, "mint") {
            let r = mint_logo();
            proof {
                lemma_pick(low@, os_name@, m, r.deep_view(), 7);
            }
            return r;
        }
        if contains_exec(&lowv, "manjaro") {
            let r = manjaro_logo();
            proof {
                lemma_pick(low@, os_name@, m, r.deep_view(), 8);
            }
            return r;
        }
        if contains_exec(&lowv, "opensuse") {
            let r = opensuse_logo();
            proof {
                lemma_pick(low@, os_name@, m, r.deep_view(), 9);
            }
            return r;
        }
        if contains_exec(&lowv, "centos") {
            let r = centos_logo();
            proof {
                lemma_pick(low@, os_name@, m, r.deep_view(), 10);
            }
            return r;
        }
        if contains_exec(&lowv, "alpine") {
            let r = alpine_logo();
            proof {
                lemma_pick(low@, os_name@, m, r.deep_view(), 11);
            }
            return r;
        }
        if contains_exec(&lowv, "kali") {
            let r = kali_logo();
            proof {
                lemma_pick(low@, os_name@, m, r.deep_view(), 12);
            }
            return r;
        }
        if contains_exec(&lowv, "gentoo") {
            let r = gentoo_logo();
            proof {
                lemma_pick(low@, os_name@, m, r.deep_view(), 13);
            }
            return r;
        }
        if contains_exec(&lowv, "nixos") {
            let r = nixos_logo();
            proof {
                lemma_pick(low@, os_name@, m, r.deep_view(), 14);
            }
            return r;
        }
        if contains_exec(&lowv, "void") {
            let r = void_logo();
            proof {
                lemma_pick(low@, os_name@, m, r.deep_view(), 15);
            }
            return r;
        }
        if contains_exec(&lowv, "endeavour") {
            let r = endeavour_logo();
            proof {
                lemma_pick(low@, os_name@, m, r.deep_view(), 16);
            }
            return r;
        }
        let clean = clean_exec(&lowv);
        let r = generic_logo_with_hint(&clean);
        proof {
            assert(builtin_pick(low@, 0) is None) by {
                reveal_with_fuel(builtin_pick, 18);
            }
            lemma_resolves_builtin(os_name@, m, r.deep_view());
        }
        r
    }

    /// The Debian art (the label records the themes the art came from).
    fn windows_subsystem_for_linux_apt_arch_linux_debian_linux_github_installation_spiral_theme_logos_logo()
        -> (r: Vec<String>)
        ensures
            r.deep_view() == debian_art(),
    {
        debian_logo()
    }
}

/// The exec keyword chain reached position `j` with keyword `j`
/// present and all earlier keywords absent; the resolved lines are
/// then keyword `j`'s art.
proof fn lemma_pick(
    low: Seq<char>,
    os: Seq<char>,
    m: Seq<(String, CustomLogo)>,
    r: Seq<Seq<char>>,
    j: int,
)
    requires
        low == lower_of(os),
        0 <= j < 17,
        is_substr(builtin_keyword(j), low),
        forall|j2: int| 0 <= j2 < j ==> !is_substr(builtin_keyword(j2), low),
        r == builtin_art_for(j),
        forall|i: int|
            #![trigger m[i]]
            0 <= i < m.len() ==> m[i].0@ != lower_of(lower_of(os)) && !is_substr(
                m[i].0@,
                lower_of(lower_of(os)),
            ),
    ensures
        resolves(os, m, r),
{
    assert(builtin_pick(low, 0) == Some(j)) by {
        reveal_with_fuel(builtin_pick, 18);
    }
    lemma_resolves_builtin(os, m, r);
}

/// The generic logo with registration hint lines when the cleaned
/// token is usable.
fn generic_logo_with_hint(clean_os_name: &Vec<char>) -> (r: Vec<String>)
    ensures
        r.deep_view() == generic_art() + hint_tail(clean_os_name@),
{
    let mut v = generic_logo();
    let ghost base = v.deep_view();
    if clean_os_name.len() > 0 && !seq_eq_exec(clean_os_name, "unknown") {
        v.push(String::new());
        v.push("# Create a custom logo with:".to_owned());
        v.push("# hxfetch --ascii-maker".to_owned());
        let mut last: Vec<char> = Vec::new();
        push_str_chars(&mut last, "# Use '");
        push_all(&mut last, clean_os_name);
        push_str_chars(&mut last, "' as OS name");
        v.push(string_of(&last));
        proof {
            reveal_strlit("");
            assert(""@ =~= Seq::<char>::empty());
            assert(v.deep_view() =~= generic_art() + hint_tail(clean_os_name@));
        }
    } else {
        proof {
            assert(v.deep_view() =~= generic_art() + hint_tail(clean_os_name@));
        }
    }
    v
}


/// The ubuntu art, line by line.
pub open spec fn ubuntu_art() -> Seq<Seq<char>> {
    seq![
        "            .-/+oossssoo+\\-."@,
        "        ´:+ssssssssssssssssss+:`"@,
        "      -+ssssssssssssssssssyyssss+-"@,
        "    .ossssssssssssssssssdMMMNysssso."@,
        "   /ssssssssssshdmmNNmmyNMMMMhssssss\\"@,
        "  +ssssssssshmydMMMMMMMNddddyssssssss+"@,
        " /sssssssshNMMMyhhhhhhmNMMMNhssssssss\\"@,
        ".ssssssssdMMMNhsssssssssshNMMMdssssssss."@,
        "+sssshhhyNMMNysssssssssssyNMMMysssssss+"@,
        "ossyNMMMNyMMhsssssssssssssshmmmhssssssso"@,
        "ossyNMMMNyMMhsssssssssssssshmmmhssssssso"@,
        "+sssshhhyNMMNysssssssssssyNMMMysssssss+"@,
        ".ssssssssdMMMNhsssssssssshNMMMdssssssss."@,
        " \\sssssssshNMMMyhhhhhhdNMMMNhssssssss/"@,
        "  +sssssssssdmydMMMMMMMMddddyssssssss+"@,
        "   \\ssssssssssshdmNNNNmyNMMMMhssssss/"@,
        "    .ossssssssssssssssssdMMMNysssso."@,
        "      -+sssssssssssssssssyyssss+-"@,
        "        ´:+ssssssssssssssssss+:`"@,
        "            .-\\+oossssoo+/-."@,
    ]
}

fn ubuntu_logo() -> (r: Vec<String>)
    ensures
        r.deep_view() == ubuntu_art(),
{
    let mut v: Vec<String> = Vec::new();
    v.push("            .-/+oossssoo+\\-.".to_owned());
    v.push("        ´:+ssssssssssssssssss+:`".to_owned());
    v.push("      -+ssssssssssssssssssyyssss+-".to_owned());
    v.push("    .ossssssssssssssssssdMMMNysssso.".to_owned());
    v.push("   /ssssssssssshdmmNNmmyNMMMMhssssss\\".to_owned());
    v.push("  +ssssssssshmydMMMMMMMNddddyssssssss+".to_owned());
    v.push(" /sssssssshNMMMyhhhhhhmNMMMNhssssssss\\".to_owned());
    v.push(".ssssssssdMMMNhsssssssssshNMMMdssssssss.".to_owned());
    v.push("+sssshhhyNMMNysssssssssssyNMMMysssssss+".to_owned());
    v.push("ossyNMMMNyMMhsssssssssssssshmmmhssssssso".to_owned());
    v.push("ossyNMMMNyMMhsssssssssssssshmmmhssssssso".to_owned());
    v.push("+sssshhhyNMMNysssssssssssyNMMMysssssss+".to_owned());
    v.push(".ssssssssdMMMNhsssssssssshNMMMdssssssss.".to_owned());
    v.push(" \\sssssssshNMMMyhhhhhhdNMMMNhssssssss/".to_owned());
    v.push("  +sssssssssdmydMMMMMMMMddddyssssssss+".to_owned());
    v.push("   \\ssssssssssshdmNNNNmyNMMMMhssssss/".to_owned());
    v.push("    .ossssssssssssssssssdMMMNysssso.".to_owned());
    v.push("      -+sssssssssssssssssyyssss+-".to_owned());
    v.push("        ´:+ssssssssssssssssss+:`".to_owned());
    v.push("            .-\\+oossssoo+/-.".to_owned());
    proof {
        assert(v.deep_view() =~= ubuntu_art());
    }
    v
}

/// The arch art, line by line.
pub open spec fn arch_art() -> Seq<Seq<char>> {
    seq![
        "                   -`"@,
        "                  .o+`"@,
        "                 `ooo/"@,
        "                `+oooo:"@,
        "               `+oooooo:"@,
        "               -+oooooo+:"@,
        "             `/:-:++oooo+:"@,
        "            `/++++/+++++++:"@,
        "           `/++++++++++++++:"@,
        "          `/+++oooooooooooo/`"@,
        "         ./ooosssso++osssssso+`"@,
        "        .oossssso-````/ossssss+`"@,
        "       -osssssso.      :ssssssso."@,
        "      :osssssss/        osssso+++."@,
        "     /ossssssss/        +ssssooo/-"@,
        "   `/ossssso+/:-        -:/+osssso+-"@,
        "  `+sso+:-`                 `.-/+oso:"@,
        " `++:.                           `-/+/"@,
        " .`                                 `/"@,
    ]
}

fn arch_logo() -> (r: Vec<String>)
    ensures
        r.deep_view() == arch_art(),
{
    let mut v: Vec<String> = Vec::new();
    v.push("                   -`".to_owned());
    v.push("                  .o+`".to_owned());
    v.push("                 `ooo/".to_owned());
    v.push("                `+oooo:".to_owned());
    v.push("               `+oooooo:".to_owned());
    v.push("               -+oooooo+:".to_owned());
    v.push("             `/:-:++oooo+:".to_owned());
    v.push("            `/++++/+++++++:".to_owned());
    v.push("           `/++++++++++++++:".to_owned());
    v.push("          `/+++oooooooooooo/`".to_owned());
    v.push("         ./ooosssso++osssssso+`".to_owned());
    v.push("        .oossssso-````/ossssss+`".to_owned());
    v.push("       -osssssso.      :ssssssso.".to_owned());
    v.push("      :osssssss/        osssso+++.".to_owned());
    v.push("     /ossssssss/        +ssssooo/-".to_owned());
    v.push("   `/ossssso+/:-        -:/+osssso+-".to_owned());
    v.push("  `+sso+:-`                 `.-/+oso:".to_owned());
    v.push(" `++:.                           `-/+/".to_owned());
    v.push(" .`                                 `/".to_owned());
    proof {
        assert(v.deep_view() =~= arch_art());
    }
    v
}

/// The fedora art, line by line.
pub open spec fn fedora_art() -> Seq<Seq<char>> {
    seq![
        "        ,'''''."@,
        "       |   ,.  |"@,
        "       |  |  '_'"@,
        "   ,...|  |.."@,
        " .'  ,_;|   ..'"@,
        "|  |   |  |"@,
        "|  ',_,'  |"@,
        " '.     .'"@,
        "   '''''"@,
    ]
}

fn fedora_logo() -> (r: Vec<String>)
    ensures
        r.deep_view() == fedora_art(),
{
    let mut v: Vec<String> = Vec::new();
    v.push("        ,'''''.".to_owned());
    v.push("       |   ,.  |".to_owned());
    v.push("       |  |  '_'".to_owned());
    v.push("   ,...|  |..".to_owned());
    v.push(" .'  ,_;|   ..'".to_owned());
    v.push("|  |   |  |".to_owned());
    v.push("|  ',_,'  |".to_owned());
    v.push(" '.     .'".to_owned());
    v.push("   '''''".to_owned());
    proof {
        assert(v.deep_view() =~= fedora_art());
    }
    v
}

/// The mint art, line by line.
pub open spec fn mint_art() -> Seq<Seq<char>> {
    seq![
        "             ...-:::::-..."@,
        "          .-MMMMMMMMMMMMMMM-."@,
        "      .-MMMM`.:-::-.`MMMM-."@,
        "    .:MMMM.:MMMMMMMMM.`MMMM:."@,
        "   -MMM-M---MMMMMMMMM---M-MMM-"@,
        "  `:MMM:MM  `MMMMMMM`  MM:MMM:`"@,
        "   :MMM:MMM  -MM  MM-  MMM:MMM:"@,
        "    .MMM.MMM-     -MMM.MMM."@,
        "     `MMM:MMMM._.MMMM:MMM`"@,
        "      .MMMM:`MMMMM`:MMMM."@,
        "       -MMM-:MMMMMMM:-MMM-"@,
        "        .`-MMMMMMMMMM-`."@,
        "           `MMMMMMM`"@,
        "            .MMMMM."@,
        "             `--`"@,
    ]
}

fn mint_logo() -> (r: Vec<String>)
    ensures
        r.deep_view() == mint_art(),
{
    let mut v: Vec<String> = Vec::new();
    v.push("             ...-:::::-...".to_owned());
    v.push("          .-MMMMMMMMMMMMMMM-.".to_owned());
    v.push("      .-MMMM`.:-::-.`MMMM-.".to_owned());
    v.push("    .:MMMM.:MMMMMMMMM.`MMMM:.".to_owned());
    v.push("   -MMM-M---MMMMMMMMM---M-MMM-".to_owned());
    v.push("  `:MMM:MM  `MMMMMMM`  MM:MMM:`".to_owned());
    v.push("   :MMM:MMM  -MM  MM-  MMM:MMM:".to_owned());
    v.push("    .MMM.MMM-     -MMM.MMM.".to_owned());
    v.push("     `MMM:MMMM._.MMMM:MMM`".to_owned());
    v.push("      .MMMM:`MMMMM`:MMMM.".to_owned());
    v.push("       -MMM-:MMMMMMM:-MMM-".to_owned());
    v.push("        .`-MMMMMMMMMM-`.".to_owned());
    v.push("           `MMMMMMM`".to_owned());
    v.push("            .MMMMM.".to_owned());
    v.push("             `--`".to_owned());
    proof {
        assert(v.deep_view() =~= mint_art());
    }
    v
}

/// The manjaro art, line by line.
pub open spec fn manjaro_art() -> Seq<Seq<char>> {
    seq![
        "██████████████████  ████████"@,
        "██████████████████  ████████"@,
        "██████████████████  ████████"@,
        "██████████████████  ████████"@,
        "████████            ████████"@,
        "████████  ████████  ████████"@,
        "████████  ████████  ████████"@,
        "████████  ████████  ████████"@,
        "████████  ████████  ████████"@,
        "████████  ████████  ████████"@,
        "████████  ████████  ████████"@,
        "████████  ████████  ████████"@,
    ]
}

fn manjaro_logo() -> (r: Vec<String>)
    ensures
        r.deep_view() == manjaro_art(),
{
    let mut v: Vec<String> = Vec::new();
    v.push("██████████████████  ████████".to_owned());
    v.push("██████████████████  ████████".to_owned());
    v.push("██████████████████  ████████".to_owned());
    v.push("██████████████████  ████████".to_owned());
    v.push("████████            ████████".to_owned());
    v.push("████████  ████████  ████████".to_owned());
    v.push("████████  ████████  ████████".to_owned());
    v.push("████████  ████████  ████████".to_owned());
    v.push("████████  ████████  ████████".to_owned());
    v.push("████████  ████████  ████████".to_owned());
    v.push("████████  ████████  ████████".to_owned());
    v.push("████████  ████████  ████████".to_owned());
    proof {
        assert(v.deep_view() =~= manjaro_art());
    }
    v
}

/// The opensuse art, line by line.
pub open spec fn opensuse_art() -> Seq<Seq<char>> {
    seq![
        "           .;ldkO0000Okdl;."@,
        "       .;d00xl:^^^^^^:ok00d;."@,
        "     .d00l                 o00d."@,
        "   .d0Kd   Okxol:;,.          :O0d."@,
        "  .OK0yc  ,l.                   d0O."@,
        "  ,0K.                           0K,"@,
        "  dKd    .,oKO.                .dKd"@,
        "  dKd    ;KOOOOkkOkd:.           .dKd"@,
        "   Ok    ;kOkk0OOOOl.            .xO"@,
        "   ;00    cdOOOOkkOkd:       .d0;"@,
        "    kOx        :ldO0NNK;     .lOk"@,
        "     ;00d;.        .:dONK: ..;d00;"@,
        "      lO00xl:;,.  .;ldko:;:ldO0l"@,
        "        .;lxO00OOOOkkxolc:oo:.."@,
        "             .;ldooollc;.."@,
    ]
}

fn opensuse_logo() -> (r: Vec<String>)
    ensures
        r.deep_view() == opensuse_art(),
{
    let mut v: Vec<String> = Vec::new();
    v.push("           .;ldkO0000Okdl;.".to_owned());
    v.push("       .;d00xl:^^^^^^:ok00d;.".to_owned());
    v.push("     .d00l                 o00d.".to_owned());
    v.push("   .d0Kd   Okxol:;,.          :O0d.".to_owned());
    v.push("  .OK0yc  ,l.                   d0O.".to_owned());
    v.push("  ,0K.                           0K,".to_owned());
    v.push("  dKd    .,oKO.                .dKd".to_owned());
    v.push("  dKd    ;KOOOOkkOkd:.           .dKd".to_owned());
    v.push("   Ok    ;kOkk0OOOOl.            .xO".to_owned());
    v.push("   ;00    cdOOOOkkOkd:       .d0;".to_owned());
    v.push("    kOx        :ldO0NNK;     .lOk".to_owned());
    v.push("     ;00d;.        .:dONK: ..;d00;".to_owned());
    v.push("      lO00xl:;,.  .;ldko:;:ldO0l".to_owned());
    v.push("        .;lxO00OOOOkkxolc:oo:..".to_owned());
    v.push("             .;ldooollc;..".to_owned());
    proof {
        assert(v.deep_view() =~= opensuse_art());
    }
    v
}

/// The centos art, line by line.
pub open spec fn centos_art() -> Seq<Seq<char>> {
    seq![
        "      .----."@,
        "    .' ,-.  '."@,
        "   /  /   \\   \\"@,
        "  |  |     |   |"@,
        "  |   \\   /   |"@,
        "   \\   '-'   /"@,
        "    '.     .'"@,
        "      '---'"@,
    ]
}

fn centos_logo() -> (r: Vec<String>)
    ensures
        r.deep_view() == centos_art(),
{
    let mut v: Vec<String> = Vec::new();
    v.push("      .----.".to_owned());
    v.push("    .' ,-.  '.".to_owned());
    v.push("   /  /   \\   \\".to_owned());
    v.push("  |  |     |   |".to_owned());
    v.push("  |   \\   /   |".to_owned());
    v.push("   \\   '-'   /".to_owned());
    v.push("    '.     .'".to_owned());
    v.push("      '---'".to_owned());
    proof {
        assert(v.deep_view() =~= centos_art());
    }
    v
}

/// The generic art, line by line.
pub open spec fn generic_art() -> Seq<Seq<char>> {
    seq![
        "        #####"@,
        "       #######"@,
        "       ##O#O##"@,
        "       #VVVVV#"@,
        "     ##  VVV  ##"@,
        "    #          ##"@,
        "   #            ##"@,
        "  #              ##"@,
        "  #               ##"@,
        "  ##             ###"@,
        "  ###           ####"@,
        "   ###         #####"@,
        "   ####      ######"@,
        "    #####  #######"@,
        "     ############"@,
        "      ##########"@,
        "        ######"@,
        "         ###"@,
    ]
}

fn generic_logo() -> (r: Vec<String>)
    ensures
        r.deep_view() == generic_art(),
{
    let mut v: Vec<String> = Vec::new();
    v.push("        #####".to_owned());
    v.push("       #######".to_owned());
    v.push("       ##O#O##".to_owned());
    v.push("       #VVVVV#".to_owned());
    v.push("     ##  VVV  ##".to_owned());
    v.push("    #          ##".to_owned());
    v.push("   #            ##".to_owned());
    v.push("  #              ##".to_owned());
    v.push("  #               ##".to_owned());
    v.push("  ##             ###".to_owned());
    v.push("  ###           ####".to_owned());
    v.push("   ###         #####".to_owned());
    v.push("   ####      ######".to_owned());
    v.push("    #####  #######".to_owned());
    v.push("     ############".to_owned());
    v.push("      ##########".to_owned());
    v.push("        ######".to_owned());
    v.push("         ###".to_owned());
    proof {
        assert(v.deep_view() =~= generic_art());
    }
    v
}

/// The macos art, line by line.
pub open spec fn macos_art() -> Seq<Seq<char>> {
    seq![
        "                    'c."@,
        "                 ,xNMM."@,
        "               .OMMMMo"@,
        "               OMMM0,"@,
        "     .;loddo:' loolloddol;."@,
        "   cKMMMMMMMMMMNWMMMMMMMMMM0:"@,
        " .KMMMMMMMMMMMMMMMMMMMMMMMWd."@,
        " XMMMMMMMMMMMMMMMMMMMMMMMX."@,
        ";MMMMMMMMMMMMMMMMMMMMMMMM:"@,
        ":MMMMMMMMMMMMMMMMMMMMMMMM:"@,
        ".MMMMMMMMMMMMMMMMMMMMMMMMX."@,
        " kMMMMMMMMMMMMMMMMMMMMMMMMWd."@,
        " .XMMMMMMMMMMMMMMMMMMMMMMMMMMk"@,
        "  .XMMMMMMMMMMMMMMMMMMMMMMMMK."@,
        "    kMMMMMMMMMMMMMMMMMMMMMMd"@,
        "     ;KMMMMMMMWXXWMMMMMMMk."@,
        "       .cooc,.    .,coo:."@,
    ]
}

fn macos_logo() -> (r: Vec<String>)
    ensures
        r.deep_view() == macos_art(),
{
    let mut v: Vec<String> = Vec::new();
    v.push("                    'c.".to_owned());
    v.push("                 ,xNMM.".to_owned());
    v.push("               .OMMMMo".to_owned());
    v.push("               OMMM0,".to_owned());
    v.push("     .;loddo:' loolloddol;.".to_owned());
    v.push("   cKMMMMMMMMMMNWMMMMMMMMMM0:".to_owned());
    v.push(" .KMMMMMMMMMMMMMMMMMMMMMMMWd.".to_owned());
    v.push(" XMMMMMMMMMMMMMMMMMMMMMMMX.".to_owned());
    v.push(";MMMMMMMMMMMMMMMMMMMMMMMM:".to_owned());
    v.push(":MMMMMMMMMMMMMMMMMMMMMMMM:".to_owned());
    v.push(".MMMMMMMMMMMMMMMMMMMMMMMMX.".to_owned());
    v.push(" kMMMMMMMMMMMMMMMMMMMMMMMMWd.".to_owned());
    v.push(" .XMMMMMMMMMMMMMMMMMMMMMMMMMMk".to_owned());
    v.push("  .XMMMMMMMMMMMMMMMMMMMMMMMMK.".to_owned());
    v.push("    kMMMMMMMMMMMMMMMMMMMMMMd".to_owned());
    v.push("     ;KMMMMMMMWXXWMMMMMMMk.".to_owned());
    v.push("       .cooc,.    .,coo:.".to_owned());
    proof {
        assert(v.deep_view() =~= macos_art());
    }
    v
}

/// The alpine art, line by line.
pub open spec fn alpine_art() -> Seq<Seq<char>> {
    seq![
        "       .hddddddddddddddddddddddh."@,
        "      :dddddddddddddddddddddddddd:"@,
        "     /dddddddddddddddddddddddddddd/"@,
        "    +dddddddddddddddddddddddddddddd+"@,
        "  `sdddddddddddddddddddddddddddddddds`"@,
        " `ydddddddddddd++hdddddddddddddddddddy`"@,
        ".hddddddddddd+`  `+ddddh:-sdddddddddddh."@,
        "hdddddddddd+`      `+y:    .sddddddddddh"@,
        "ddddddddh+`   `//`   `.`     `+dddddddddd"@,
        "ddddddh+`    `/hddh/`   `:s-    `+hddddddd"@,
        "ddddh+`      `/ddddh/`    +s`     `+hdddd"@,
        "ddd+`        `/ddddh/`     `        `+ddd"@,
        "h+`          `/ddddh/`               `+h"@,
        "`            `/ddddh/`                 `"@,
        "              /ddddh/"@,
        "               /ddh/"@,
        "                //"@,
    ]
}

fn alpine_logo() -> (r: Vec<String>)
    ensures
        r.deep_view() == alpine_art(),
{
    let mut v: Vec<String> = Vec::new();
    v.push("       .hddddddddddddddddddddddh.".to_owned());
    v.push("      :dddddddddddddddddddddddddd:".to_owned());
    v.push("     /dddddddddddddddddddddddddddd/".to_owned());
    v.push("    +dddddddddddddddddddddddddddddd+".to_owned());
    v.push("  `sdddddddddddddddddddddddddddddddds`".to_owned());
    v.push(" `ydddddddddddd++hdddddddddddddddddddy`".to_owned());
    v.push(".hddddddddddd+`  `+ddddh:-sdddddddddddh.".to_owned());
    v.push("hdddddddddd+`      `+y:    .sddddddddddh".to_owned());
    v.push("ddddddddh+`   `//`   `.`     `+dddddddddd".to_owned());
    v.push("ddddddh+`    `/hddh/`   `:s-    `+hddddddd".to_owned());
    v.push("ddddh+`      `/ddddh/`    +s`     `+hdddd".to_owned());
    v.push("ddd+`        `/ddddh/`     `        `+ddd".to_owned());
    v.push("h+`          `/ddddh/`               `+h".to_owned());
    v.push("`            `/ddddh/`                 `".to_owned());
    v.push("              /ddddh/".to_owned());
    v.push("               /ddh/".to_owned());
    v.push("                //".to_owned());
    proof {
        assert(v.deep_view() =~= alpine_art());
    }
    v
}

/// The kali art, line by line.
pub open spec fn kali_art() -> Seq<Seq<char>> {
    seq![
        ".............."@,
        "            ..,;:ccc,."@,
        "          ......''';lxO."@,
        ".....''''..........,:ld;"@,
        "           .';;;:::;,,.x,"@,
        "      ..'''.            0Xxoc:,.  ..."@,
        "  ....                ,ONkc;,;cokOdc',."@,
        " .                   OMo           ':ddo."@,
        "                    dMc               :OO;"@,
        "                    0M.                 .:o."@,
        "                    ;Wd"@,
        "                     ;XO,"@,
        "                       ,d0Odlc;,.."@,
        "                           ..',;:cdOOd::,."@,
        "                                    .:d;.':;."@,
        "                                       'd,  .'"@,
        "                                         ;l   .."@,
        "                                          .o"@,
        "                                            c"@,
        "                                            .'"@,
        "                                             ."@,
    ]
}

fn kali_logo() -> (r: Vec<String>)
    ensures
        r.deep_view() == kali_art(),
{
    let mut v: Vec<String> = Vec::new();
    v.push("..............".to_owned());
    v.push("            ..,;:ccc,.".to_owned());
    v.push("          ......''';lxO.".to_owned());
    v.push(".....''''..........,:ld;".to_owned());
    v.push("           .';;;:::;,,.x,".to_owned());
    v.push("      ..'''.            0Xxoc:,.  ...".to_owned());
    v.push("  ....                ,ONkc;,;cokOdc',.".to_owned());
    v.push(" .                   OMo           ':ddo.".to_owned());
    v.push("                    dMc               :OO;".to_owned());
    v.push("                    0M.                 .:o.".to_owned());
    v.push("                    ;Wd".to_owned());
    v.push("                     ;XO,".to_owned());
    v.push("                       ,d0Odlc;,..".to_owned());
    v.push("                           ..',;:cdOOd::,.".to_owned());
    v.push("                                    .:d;.':;.".to_owned());
    v.push("                                       'd,  .'".to_owned());
    v.push("                                         ;l   ..".to_owned());
    v.push("                                          .o".to_owned());
    v.push("                                            c".to_owned());
    v.push("                                            .'".to_owned());
    v.push("                                             .".to_owned());
    proof {
        assert(v.deep_view() =~= kali_art());
    }
    v
}

/// The gentoo art, line by line.
pub open spec fn gentoo_art() -> Seq<Seq<char>> {
    seq![
        "         -/oyddmdhs+:."@,
        "     -odNMMMMMMMMNNmhy+-`"@,
        "   -yNMMMMMMMMMMMNNNmmdhy+-"@,
        " `omMMMMMMMMMMMMNmdmmmmddhhy/`"@,
        " omMMMMMMMMMMMNhhyyyohmdddhhhdo`"@,
        ".ydMMMMMMMMMMdhs++so/smdddhhhhdm+`"@,
        " oyhdmNMMMMMMMNdyooydmddddhhhhyhNd."@,
        "  :oyhhdNNMMMMMMMNNNmmdddhhhhhyymMh"@,
        "    .:+sydNMMMMMNNNmmmdddhhhhhhmMmy"@,
        "       /mMMMMMMNNNmmmdddhhhhhmMNhs:"@,
        "    `oNMMMMMMMNNNmmmddddhhdmMNhs+`"@,
        "  `sNMMMMMMMMNNNmmmdddddmNMmhs/."@,
        " /NMMMMMMMMNNNNmmmdddmNMNdso:`"@,
        "+MMMMMMMNNNNNmmmmdmNMNdso/-"@,
        "yMMNNNNNNNmmmmmNNMmhs+/-`"@,
        "/hMMNNNNNNNNMNdhs++/-`"@,
        "`/ohdmmddhys+++/:.`"@,
        "  `-//////:--."@,
    ]
}

fn gentoo_logo() -> (r: Vec<String>)
    ensures
        r.deep_view() == gentoo_art(),
{
    let mut v: Vec<String> = Vec::new();
    v.push("         -/oyddmdhs+:.".to_owned());
    v.push("     -odNMMMMMMMMNNmhy+-`".to_owned());
    v.push("   -yNMMMMMMMMMMMNNNmmdhy+-".to_owned());
    v.push(" `omMMMMMMMMMMMMNmdmmmmddhhy/`".to_owned());
    v.push(" omMMMMMMMMMMMNhhyyyohmdddhhhdo`".to_owned());
    v.push(".ydMMMMMMMMMMdhs++so/smdddhhhhdm+`".to_owned());
    v.push(" oyhdmNMMMMMMMNdyooydmddddhhhhyhNd.".to_owned());
    v.push("  :oyhhdNNMMMMMMMNNNmmdddhhhhhyymMh".to_owned());
    v.push("    .:+sydNMMMMMNNNmmmdddhhhhhhmMmy".to_owned());
    v.push("       /mMMMMMMNNNmmmdddhhhhhmMNhs:".to_owned());
    v.push("    `oNMMMMMMMNNNmmmddddhhdmMNhs+`".to_owned());
    v.push("  `sNMMMMMMMMNNNmmmdddddmNMmhs/.".to_owned());
    v.push(" /NMMMMMMMMNNNNmmmdddmNMNdso:`".to_owned());
    v.push("+MMMMMMMNNNNNmmmmdmNMNdso/-".to_owned());
    v.push("yMMNNNNNNNmmmmmNNMmhs+/-`".to_owned());
    v.push("/hMMNNNNNNNNMNdhs++/-`".to_owned());
    v.push("`/ohdmmddhys+++/:.`".to_owned());
    v.push("  `-//////:--.".to_owned());
    proof {
        assert(v.deep_view() =~= gentoo_art());
    }
    v
}

/// The nixos art, line by line.
pub open spec fn nixos_art() -> Seq<Seq<char>> {
    seq![
        "          ▗▄▄▄       ▗▄▄▄▄    ▄▄▄▖"@,
        "          ▜███▙       ▜███▙  ▟███▛"@,
        "           ▜███▙       ▜███▙▟███▛"@,
        "            ▜███▙       ▜██████▛"@,
        "     ▟█████████████████▙ ▜████▛     ▟▙"@,
        "    ▟███████████████████▙ ▜███▙    ▟██▙"@,
        "           ▄▄▄▄▖           ▜███▙  ▟███▛"@,
        "          ▟███▛             ▜██▛ ▟███▛"@,
        "         ▟███▛               ▜▛ ▟███▛"@,
        "▟███████████▛                  ▟██████████▙"@,
        "▜██████████▛                  ▟███████████▛"@,
        "      ▟███▛ ▟▙               ▟███▛"@,
        "     ▟███▛ ▟██▙             ▟███▛"@,
        "    ▟███▛  ▜███▙           ▝▀▀▀▀"@,
        "    ▜██▛    ▜███▙ ▜██████████████████▛"@,
        "     ▜▛     ▟████▙ ▜████████████████▛"@,
        "           ▟██████▙       ▜███▙"@,
        "          ▟███▛▜███▙       ▜███▙"@,
        "         ▟███▛  ▜███▙       ▜███▙"@,
        "         ▝▀▀▀    ▀▀▀▀▘       ▀▀▀▘"@,
    ]
}

fn nixos_logo() -> (r: Vec<String>)
    ensures
        r.deep_view() == nixos_art(),
{
    let mut v: Vec<String> = Vec::new();
    v.push("          ▗▄▄▄       ▗▄▄▄▄    ▄▄▄▖".to_owned());
    v.push("          ▜███▙       ▜███▙  ▟███▛".to_owned());
    v.push("           ▜███▙       ▜███▙▟███▛".to_owned());
    v.push("            ▜███▙       ▜██████▛".to_owned());
    v.push("     ▟█████████████████▙ ▜████▛     ▟▙".to_owned());
    v.push("    ▟███████████████████▙ ▜███▙    ▟██▙".to_owned());
    v.push("           ▄▄▄▄▖           ▜███▙  ▟███▛".to_owned());
    v.push("          ▟███▛             ▜██▛ ▟███▛".to_owned());
    v.push("         ▟███▛               ▜▛ ▟███▛".to_owned());
    v.push("▟███████████▛                  ▟██████████▙".to_owned());
    v.push("▜██████████▛                  ▟███████████▛".to_owned());
    v.push("      ▟███▛ ▟▙               ▟███▛".to_owned());
    v.push("     ▟███▛ ▟██▙             ▟███▛".to_owned());
    v.push("    ▟███▛  ▜███▙           ▝▀▀▀▀".to_owned());
    v.push("    ▜██▛    ▜███▙ ▜██████████████████▛".to_owned());
    v.push("     ▜▛     ▟████▙ ▜████████████████▛".to_owned());
    v.push("           ▟██████▙       ▜███▙".to_owned());
    v.push("          ▟███▛▜███▙       ▜███▙".to_owned());
    v.push("         ▟███▛  ▜███▙       ▜███▙".to_owned());
    v.push("         ▝▀▀▀    ▀▀▀▀▘       ▀▀▀▘".to_owned());
    proof {
        assert(v.deep_view() =~= nixos_art());
    }
    v
}

/// The void art, line by line.
pub open spec fn void_art() -> Seq<Seq<char>> {
    seq![
        "                __.;=====;.__"@,
        "            _.=+==++=++=+=+===;."@,
        "             -=+++=+===+=+=+++++=_"@,
        "        .     -=:``     `--==+=++==."@,
        "       _vi,    `            --+=++++:"@,
        "      .uvnvi.       _._       -==+==+."@,
        "     .vvnvnI`    .;==|==;.     :|=||=|."@,
        "chel. iMU2\".   .;:==|==;.:    ;==+==+{"@,
        "     xMMu    .:+++=+=+=++:       .:-."@,
        "     mNM;  .:=::+====+====:       `:`"@,
        "     dM'   .:;=++++++++++:         .'"@,
        "     d\"    ':++=+==+++=."@,
        "           .'-+=+=:."@,
    ]
}

fn void_logo() -> (r: Vec<String>)
    ensures
        r.deep_view() == void_art(),
{
    let mut v: Vec<String> = Vec::new();
    v.push("                __.;=====;.__".to_owned());
    v.push("            _.=+==++=++=+=+===;.".to_owned());
    v.push("             -=+++=+===+=+=+++++=_".to_owned());
    v.push("        .     -=:``     `--==+=++==.".to_owned());
    v.push("       _vi,    `            --+=++++:".to_owned());
    v.push("      .uvnvi.       _._       -==+==+.".to_owned());
    v.push("     .vvnvnI`    .;==|==;.     :|=||=|.".to_owned());
    v.push("chel. iMU2\".   .;:==|==;.:    ;==+==+{".to_owned());
    v.push("     xMMu    .:+++=+=+=++:       .:-.".to_owned());
    v.push("     mNM;  .:=::+====+====:       `:`".to_owned());
    v.push("     dM'   .:;=++++++++++:         .'".to_owned());
    v.push("     d\"    ':++=+==+++=.".to_owned());
    v.push("           .'-+=+=:.".to_owned());
    proof {
        assert(v.deep_view() =~= void_art());
    }
    v
}

/// The endeavour art, line by line.
pub open spec fn endeavour_art() -> Seq<Seq<char>> {
    seq![
        "                     .o+`"@,
        "                    `ooo/"@,
        "                   `+oooo:"@,
        "                  `+oooooo:"@,
        "                  -+oooooo+:"@,
        "                `/:-:++oooo+:"@,
        "               `/++++/+++++++:"@,
        "              `/++++++++++++++:"@,
        "             `/+++ooooooooo+++/`"@,
        "            ./ooosssso++osssssso+`"@,
        "           .oossssso-````/ossssss+`"@,
        "          -osssssso.      :ssssssso."@,
        "         :osssssss/        osssso+++."@,
        "        /ossssssss/        +ssssooo/-"@,
        "      `/ossssso+/:-        -:/+osssso+-"@,
        "     `+sso+:-`                 `.-/+oso:"@,
        "    `++:.                           `-/+/"@,
        "    .`   ████████ ████████   ████████"@,
        "         ██                 ██      ██"@,
        "         ████████           ██      ██"@,
        "         ██                 ██      ██"@,
        "         ████████           ████████"@,
    ]
}

fn endeavour_logo() -> (r: Vec<String>)
    ensures
        r.deep_view() == endeavour_art(),
{
    let mut v: Vec<String> = Vec::new();
    v.push("                     .o+`".to_owned());
    v.push("                    `ooo/".to_owned());
    v.push("                   `+oooo:".to_owned());
    v.push("                  `+oooooo:".to_owned());
    v.push("                  -+oooooo+:".to_owned());
    v.push("                `/:-:++oooo+:".to_owned());
    v.push("               `/++++/+++++++:".to_owned());
    v.push("              `/++++++++++++++:".to_owned());
    v.push("             `/+++ooooooooo+++/`".to_owned());
    v.push("            ./ooosssso++osssssso+`".to_owned());
    v.push("           .oossssso-````/ossssss+`".to_owned());
    v.push("          -osssssso.      :ssssssso.".to_owned());
    v.push("         :osssssss/        osssso+++.".to_owned());
    v.push("        /ossssssss/        +ssssooo/-".to_owned());
    v.push("      `/ossssso+/:-        -:/+osssso+-".to_owned());
    v.push("     `+sso+:-`                 `.-/+oso:".to_owned());
    v.push("    `++:.                           `-/+/".to_owned());
    v.push("    .`   ████████ ████████   ████████".to_owned());
    v.push("         ██                 ██      ██".to_owned());
    v.push("         ████████           ██      ██".to_owned());
    v.push("         ██                 ██      ██".to_owned());
    v.push("         ████████           ████████".to_owned());
    proof {
        assert(v.deep_view() =~= endeavour_art());
    }
    v
}

/// The debian art, line by line.
pub open spec fn debian_art() -> Seq<Seq<char>> {
    seq![
        "\u{1b}[38;2;230;230;230mMMMMMM\u{1b}[38;2;230;227;228mM\u{1b}[38;2;227;171;190mw\u{1b}[38;2;222;110;150mX\u{1b}[38;2;219;64;119mf\u{1b}[38;2;217;32;98m)\u{1b}[38;2;216;13;85m}\u{1b}[38;2;215;7;82m[\u{1b}[38;2;216;14;86m}\u{1b}[38;2;217;33;99m(\u{1b}[38;2;219;66;120mj\u{1b}[38;2;223;112;151mX\u{1b}[38;2;227;174;192mq\u{1b}[38;2;230;228;228mM\u{1b}[38;2;230;230;230mMMMMMM\u{1b}[0m"@,
        "\u{1b}[38;2;230;230;230mMMMM\u{1b}[38;2;230;221;224m#\u{1b}[38;2;224;125;160mJ\u{1b}[38;2;217;29;96m)\u{1b}[38;2;215;6;81m[[[[[[[[[[[\u{1b}[38;2;217;32;98m)\u{1b}[38;2;224;130;163mC\u{1b}[38;2;230;223;225m#\u{1b}[38;2;230;230;230mMMMM\u{1b}[0m"@,
        "\u{1b}[38;2;230;230;230mMMM\u{1b}[38;2;227;170;190mw\u{1b}[38;2;217;33;98m(\u{1b}[38;2;215;6;81m[[[[[[\u{1b}[38;2;215;10;83m[\u{1b}[38;2;215;9;83m[\u{1b}[38;2;215;6;81m[[[[[[[\u{1b}[38;2;217;37;101m(\u{1b}[38;2;227;176;194mq\u{1b}[38;2;230;230;230mMMM\u{1b}[0m"@,
        "\u{1b}[38;2;230;230;230mMM\u{1b}[38;2;224;136;167mL\u{1b}[38;2;215;8;82m[\u{1b}[38;2;215;6;81m[[[[\u{1b}[38;2;216;14;87m}\u{1b}[38;2;230;104;149mX\u{1b}[38;2;245;196;213ma\u{1b}[38;2;253;252;253m@\u{1b}[38;2;250;232;238m8\u{1b}[38;2;250;228;236m&\u{1b}[38;2;245;198;214ma\u{1b}[38;2;236;139;173mQ\u{1b}[38;2;226;77;130mx\u{1b}[38;2;215;8;82m[\u{1b}[38;2;215;6;81m[[[\u{1b}[38;2;215;9;83m[\u{1b}[38;2;225;146;173m0\u{1b}[38;2;230;230;230mMM\u{1b}[0m"@,
        "\u{1b}[38;2;230;230;230mM\u{1b}[38;2;226;154;179mO\u{1b}[38;2;215;7;82m[\u{1b}[38;2;215;6;81m[[[[\u{1b}[38;2;224;66;122mj\u{1b}[38;2;249;226;234mWW\u{1b}[38;2;236;141;174m0\u{1b}[38;2;222;53;113mt\u{1b}[38;2;217;21;91m{\u{1b}[38;2;217;20;90m{\u{1b}[38;2;222;52;112m/\u{1b}[38;2;234;132;168mL\u{1b}[38;2;252;244;247mB\u{1b}[38;2;246;202;217mo\u{1b}[38;2;219;35;101m(\u{1b}[38;2;215;6;81m[[[\u{1b}[38;2;215;9;83m[\u{1b}[38;2;226;163;185mm\u{1b}[38;2;230;230;230mM\u{1b}[0m"@,
        "\u{1b}[38;2;229;210;216mo\u{1b}[38;2;216;18;89m{\u{1b}[38;2;215;6;81m[[[[\u{1b}[38;2;221;45;107m\\\u{1b}[38;2;251;237;242m%\u{1b}[38;2;233;120;160mJ\u{1b}[38;2;217;20;90m{\u{1b}[38;2;215;6;81m[[[[[[\u{1b}[38;2;223;56;115mt\u{1b}[38;2;252;244;247mB\u{1b}[38;2;241;178;200md\u{1b}[38;2;215;6;81m[[[[\u{1b}[38;2;217;23;92m1\u{1b}[38;2;229;214;219mo\u{1b}[0m"@,
        "\u{1b}[38;2;223;114;152mY\u{1b}[38;2;215;6;81m[[[[\u{1b}[38;2;215;9;83m[\u{1b}[38;2;248;216;227mM\u{1b}[38;2;227;86;136mu\u{1b}[38;2;215;6;81m[[[\u{1b}[38;2;220;37;102m|\u{1b}[38;2;227;87;136mu\u{1b}[38;2;224;65;121mj\u{1b}[38;2;220;39;103m|\u{1b}[38;2;215;8;82m[\u{1b}[38;2;215;6;81m[\u{1b}[38;2;235;136;171mQ\u{1b}[38;2;237;153;182mZ\u{1b}[38;2;215;11;84m[\u{1b}[38;2;215;6;81m[[[[\u{1b}[38;2;223;119;156mU\u{1b}[0m"@,
        "\u{1b}[38;2;218;45;107m\\\u{1b}[38;2;215;6;81m[[[[\u{1b}[38;2;223;59;117mf\u{1b}[38;2;245;200;216ma\u{1b}[38;2;215;6;81m[[[\u{1b}[38;2;217;18;89m{\u{1b}[38;2;230;102;146mz\u{1b}[38;2;215;6;81m[[[[[\u{1b}[38;2;229;93;141mc\u{1b}[38;2;243;185;205mb\u{1b}[38;2;215;6;81m[[[[[\u{1b}[38;2;218;47;108m\\\u{1b}[0m"@,
        "\u{1b}[38;2;216;12;85m}\u{1b}[38;2;215;6;81m[[[[\u{1b}[38;2;224;65;121mj\u{1b}[38;2;239;158;186mm\u{1b}[38;2;215;6;81m[[[\u{1b}[38;2;222;54;113mt\u{1b}[38;2;227;86;136mu\u{1b}[38;2;215;6;81m[[[[[\u{1b}[38;2;233;121;161mJ\u{1b}[38;2;229;99;144mz\u{1b}[38;2;215;6;81m[[[[[\u{1b}[38;2;216;13;85m}\u{1b}[0m"@,
        "\u{1b}[38;2;216;12;85m}\u{1b}[38;2;215;6;81m[[[[\u{1b}[38;2;223;57;116mt\u{1b}[38;2;241;171;196mp\u{1b}[38;2;215;6;81m[[[\u{1b}[38;2;215;9;83m[\u{1b}[38;2;236;142;174m0\u{1b}[38;2;219;30;97m)\u{1b}[38;2;215;6;81m[[\u{1b}[38;2;215;8;82m[\u{1b}[38;2;226;80;132mn\u{1b}[38;2;236;141;174m0\u{1b}[38;2;215;8;82m[\u{1b}[38;2;215;6;81m[[[[[\u{1b}[38;2;216;13;85m}\u{1b}[0m"@,
        "\u{1b}[38;2;218;47;108m\\\u{1b}[38;2;215;6;81m[[[[\u{1b}[38;2;216;13;86m}\u{1b}[38;2;248;219;229mM\u{1b}[38;2;218;27;95m)\u{1b}[38;2;215;6;81m[[[\u{1b}[38;2;218;25;93m1\u{1b}[38;2;234;131;166mL\u{1b}[38;2;232;117;157mU\u{1b}[38;2;230;106;149mX\u{1b}[38;2;232;118;158mU\u{1b}[38;2;224;62;119mf\u{1b}[38;2;215;6;81m[[[[[[[\u{1b}[38;2;219;49;109m/\u{1b}[0m"@,
        "\u{1b}[38;2;223;117;154mY\u{1b}[38;2;215;6;81m[[[[[\u{1b}[38;2;234;128;165mC\u{1b}[38;2;248;219;229mM\u{1b}[38;2;215;8;82m[\u{1b}[38;2;215;6;81m[[[[\u{1b}[38;2;215;8;82m[\u{1b}[38;2;215;10;83m[\u{1b}[38;2;215;6;81m[[[[[[[[[\u{1b}[38;2;224;123;158mU\u{1b}[0m"@,
        "\u{1b}[38;2;229;211;218mo\u{1b}[38;2;216;20;90m{\u{1b}[38;2;215;6;81m[[[[\u{1b}[38;2;216;10;83m[\u{1b}[38;2;242;180;202md\u{1b}[38;2;231;110;153mY\u{1b}[38;2;215;6;81m[[[[[[[[[[[[[[\u{1b}[38;2;217;26;94m1\u{1b}[38;2;229;216;221m*\u{1b}[0m"@,
        "\u{1b}[38;2;230;230;230mM\u{1b}[38;2;226;159;182mZ\u{1b}[38;2;215;8;82m[\u{1b}[38;2;215;6;81m[[[[\u{1b}[38;2;216;10;84m[\u{1b}[38;2;236;141;175m0\u{1b}[38;2;234;132;168mL\u{1b}[38;2;217;17;89m{\u{1b}[38;2;215;6;81m[[[[[[[[[[[\u{1b}[38;2;215;10;83m[\u{1b}[38;2;227;169;189mw\u{1b}[38;2;230;230;230mM\u{1b}[0m"@,
        "\u{1b}[38;2;230;230;230mMM\u{1b}[38;2;225;143;172mQ\u{1b}[38;2;215;9;83m[\u{1b}[38;2;215;6;81m[[[[[\u{1b}[38;2;221;45;107m\\\u{1b}[38;2;231;112;154mY\u{1b}[38;2;227;85;135mu\u{1b}[38;2;218;29;96m)\u{1b}[38;2;215;6;81m[[[[[[[[\u{1b}[38;2;215;11;84m[\u{1b}[38;2;225;152;178mO\u{1b}[38;2;230;230;230mMM\u{1b}[0m"@,
        "\u{1b}[38;2;230;230;230mMMM\u{1b}[38;2;227;176;194mq\u{1b}[38;2;217;38;102m|\u{1b}[38;2;215;6;81m[[[[[[[\u{1b}[38;2;216;11;84m}\u{1b}[38;2;215;10;83m[\u{1b}[38;2;215;6;81m[[[[[[\u{1b}[38;2;218;43;105m|\u{1b}[38;2;228;183;198md\u{1b}[38;2;230;230;230mMMM\u{1b}[0m"@,
        "\u{1b}[38;2;230;230;230mMMMM\u{1b}[38;2;230;223;225m#\u{1b}[38;2;224;132;165mC\u{1b}[38;2;217;35;100m(\u{1b}[38;2;215;6;81m[[[[[[[[[[[\u{1b}[38;2;218;38;102m|\u{1b}[38;2;224;138;169mL\u{1b}[38;2;230;225;227m#\u{1b}[38;2;230;230;230mMMMM\u{1b}[0m"@,
        "\u{1b}[38;2;230;230;230mMMMMMM\u{1b}[38;2;230;228;229mM\u{1b}[38;2;227;176;194mq\u{1b}[38;2;223;114;152mY\u{1b}[38;2;219;66;120mj\u{1b}[38;2;217;33;98m(\u{1b}[38;2;216;13;85m}\u{1b}[38;2;215;7;82m[\u{1b}[38;2;216;14;86m}\u{1b}[38;2;217;34;99m(\u{1b}[38;2;220;68;122mj\u{1b}[38;2;223;116;154mY\u{1b}[38;2;227;180;196mp\u{1b}[38;2;230;229;229mM\u{1b}[38;2;230;230;230mMMMMMM\u{1b}[0m"@,
    ]
}

fn debian_logo() -> (r: Vec<String>)
    ensures
        r.deep_view() == debian_art(),
{
    let mut v: Vec<String> = Vec::new();
    v.push("\u{1b}[38;2;230;230;230mMMMMMM\u{1b}[38;2;230;227;228mM\u{1b}[38;2;227;171;190mw\u{1b}[38;2;222;110;150mX\u{1b}[38;2;219;64;119mf\u{1b}[38;2;217;32;98m)\u{1b}[38;2;216;13;85m}\u{1b}[38;2;215;7;82m[\u{1b}[38;2;216;14;86m}\u{1b}[38;2;217;33;99m(\u{1b}[38;2;219;66;120mj\u{1b}[38;2;223;112;151mX\u{1b}[38;2;227;174;192mq\u{1b}[38;2;230;228;228mM\u{1b}[38;2;230;230;230mMMMMMM\u{1b}[0m".to_owned());
    v.push("\u{1b}[38;2;230;230;230mMMMM\u{1b}[38;2;230;221;224m#\u{1b}[38;2;224;125;160mJ\u{1b}[38;2;217;29;96m)\u{1b}[38;2;215;6;81m[[[[[[[[[[[\u{1b}[38;2;217;32;98m)\u{1b}[38;2;224;130;163mC\u{1b}[38;2;230;223;225m#\u{1b}[38;2;230;230;230mMMMM\u{1b}[0m".to_owned());
    v.push("\u{1b}[38;2;230;230;230mMMM\u{1b}[38;2;227;170;190mw\u{1b}[38;2;217;33;98m(\u{1b}[38;2;215;6;81m[[[[[[\u{1b}[38;2;215;10;83m[\u{1b}[38;2;215;9;83m[\u{1b}[38;2;215;6;81m[[[[[[[\u{1b}[38;2;217;37;101m(\u{1b}[38;2;227;176;194mq\u{1b}[38;2;230;230;230mMMM\u{1b}[0m".to_owned());
    v.push("\u{1b}[38;2;230;230;230mMM\u{1b}[38;2;224;136;167mL\u{1b}[38;2;215;8;82m[\u{1b}[38;2;215;6;81m[[[[\u{1b}[38;2;216;14;87m}\u{1b}[38;2;230;104;149mX\u{1b}[38;2;245;196;213ma\u{1b}[38;2;253;252;253m@\u{1b}[38;2;250;232;238m8\u{1b}[38;2;250;228;236m&\u{1b}[38;2;245;198;214ma\u{1b}[38;2;236;139;173mQ\u{1b}[38;2;226;77;130mx\u{1b}[38;2;215;8;82m[\u{1b}[38;2;215;6;81m[[[\u{1b}[38;2;215;9;83m[\u{1b}[38;2;225;146;173m0\u{1b}[38;2;230;230;230mMM\u{1b}[0m".to_owned());
    v.push("\u{1b}[38;2;230;230;230mM\u{1b}[38;2;226;154;179mO\u{1b}[38;2;215;7;82m[\u{1b}[38;2;215;6;81m[[[[\u{1b}[38;2;224;66;122mj\u{1b}[38;2;249;226;234mWW\u{1b}[38;2;236;141;174m0\u{1b}[38;2;222;53;113mt\u{1b}[38;2;217;21;91m{\u{1b}[38;2;217;20;90m{\u{1b}[38;2;222;52;112m/\u{1b}[38;2;234;132;168mL\u{1b}[38;2;252;244;247mB\u{1b}[38;2;246;202;217mo\u{1b}[38;2;219;35;101m(\u{1b}[38;2;215;6;81m[[[\u{1b}[38;2;215;9;83m[\u{1b}[38;2;226;163;185mm\u{1b}[38;2;230;230;230mM\u{1b}[0m".to_owned());
    v.push("\u{1b}[38;2;229;210;216mo\u{1b}[38;2;216;18;89m{\u{1b}[38;2;215;6;81m[[[[\u{1b}[38;2;221;45;107m\\\u{1b}[38;2;251;237;242m%\u{1b}[38;2;233;120;160mJ\u{1b}[38;2;217;20;90m{\u{1b}[38;2;215;6;81m[[[[[[\u{1b}[38;2;223;56;115mt\u{1b}[38;2;252;244;247mB\u{1b}[38;2;241;178;200md\u{1b}[38;2;215;6;81m[[[[\u{1b}[38;2;217;23;92m1\u{1b}[38;2;229;214;219mo\u{1b}[0m".to_owned());
    v.push("\u{1b}[38;2;223;114;152mY\u{1b}[38;2;215;6;81m[[[[\u{1b}[38;2;215;9;83m[\u{1b}[38;2;248;216;227mM\u{1b}[38;2;227;86;136mu\u{1b}[38;2;215;6;81m[[[\u{1b}[38;2;220;37;102m|\u{1b}[38;2;227;87;136mu\u{1b}[38;2;224;65;121mj\u{1b}[38;2;220;39;103m|\u{1b}[38;2;215;8;82m[\u{1b}[38;2;215;6;81m[\u{1b}[38;2;235;136;171mQ\u{1b}[38;2;237;153;182mZ\u{1b}[38;2;215;11;84m[\u{1b}[38;2;215;6;81m[[[[\u{1b}[38;2;223;119;156mU\u{1b}[0m".to_owned());
    v.push("\u{1b}[38;2;218;45;107m\\\u{1b}[38;2;215;6;81m[[[[\u{1b}[38;2;223;59;117mf\u{1b}[38;2;245;200;216ma\u{1b}[38;2;215;6;81m[[[\u{1b}[38;2;217;18;89m{\u{1b}[38;2;230;102;146mz\u{1b}[38;2;215;6;81m[[[[[\u{1b}[38;2;229;93;141mc\u{1b}[38;2;243;185;205mb\u{1b}[38;2;215;6;81m[[[[[\u{1b}[38;2;218;47;108m\\\u{1b}[0m".to_owned());
    v.push("\u{1b}[38;2;216;12;85m}\u{1b}[38;2;215;6;81m[[[[\u{1b}[38;2;224;65;121mj\u{1b}[38;2;239;158;186mm\u{1b}[38;2;215;6;81m[[[\u{1b}[38;2;222;54;113mt\u{1b}[38;2;227;86;136mu\u{1b}[38;2;215;6;81m[[[[[\u{1b}[38;2;233;121;161mJ\u{1b}[38;2;229;99;144mz\u{1b}[38;2;215;6;81m[[[[[\u{1b}[38;2;216;13;85m}\u{1b}[0m".to_owned());
    v.push("\u{1b}[38;2;216;12;85m}\u{1b}[38;2;215;6;81m[[[[\u{1b}[38;2;223;57;116mt\u{1b}[38;2;241;171;196mp\u{1b}[38;2;215;6;81m[[[\u{1b}[38;2;215;9;83m[\u{1b}[38;2;236;142;174m0\u{1b}[38;2;219;30;97m)\u{1b}[38;2;215;6;81m[[\u{1b}[38;2;215;8;82m[\u{1b}[38;2;226;80;132mn\u{1b}[38;2;236;141;174m0\u{1b}[38;2;215;8;82m[\u{1b}[38;2;215;6;81m[[[[[\u{1b}[38;2;216;13;85m}\u{1b}[0m".to_owned());
    v.push("\u{1b}[38;2;218;47;108m\\\u{1b}[38;2;215;6;81m[[[[\u{1b}[38;2;216;13;86m}\u{1b}[38;2;248;219;229mM\u{1b}[38;2;218;27;95m)\u{1b}[38;2;215;6;81m[[[\u{1b}[38;2;218;25;93m1\u{1b}[38;2;234;131;166mL\u{1b}[38;2;232;117;157mU\u{1b}[38;2;230;106;149mX\u{1b}[38;2;232;118;158mU\u{1b}[38;2;224;62;119mf\u{1b}[38;2;215;6;81m[[[[[[[\u{1b}[38;2;219;49;109m/\u{1b}[0m".to_owned());
    v.push("\u{1b}[38;2;223;117;154mY\u{1b}[38;2;215;6;81m[[[[[\u{1b}[38;2;234;128;165mC\u{1b}[38;2;248;219;229mM\u{1b}[38;2;215;8;82m[\u{1b}[38;2;215;6;81m[[[[\u{1b}[38;2;215;8;82m[\u{1b}[38;2;215;10;83m[\u{1b}[38;2;215;6;81m[[[[[[[[[\u{1b}[38;2;224;123;158mU\u{1b}[0m".to_owned());
    v.push("\u{1b}[38;2;229;211;218mo\u{1b}[38;2;216;20;90m{\u{1b}[38;2;215;6;81m[[[[\u{1b}[38;2;216;10;83m[\u{1b}[38;2;242;180;202md\u{1b}[38;2;231;110;153mY\u{1b}[38;2;215;6;81m[[[[[[[[[[[[[[\u{1b}[38;2;217;26;94m1\u{1b}[38;2;229;216;221m*\u{1b}[0m".to_owned());
    v.push("\u{1b}[38;2;230;230;230mM\u{1b}[38;2;226;159;182mZ\u{1b}[38;2;215;8;82m[\u{1b}[38;2;215;6;81m[[[[\u{1b}[38;2;216;10;84m[\u{1b}[38;2;236;141;175m0\u{1b}[38;2;234;132;168mL\u{1b}[38;2;217;17;89m{\u{1b}[38;2;215;6;81m[[[[[[[[[[[\u{1b}[38;2;215;10;83m[\u{1b}[38;2;227;169;189mw\u{1b}[38;2;230;230;230mM\u{1b}[0m".to_owned());
    v.push("\u{1b}[38;2;230;230;230mMM\u{1b}[38;2;225;143;172mQ\u{1b}[38;2;215;9;83m[\u{1b}[38;2;215;6;81m[[[[[\u{1b}[38;2;221;45;107m\\\u{1b}[38;2;231;112;154mY\u{1b}[38;2;227;85;135mu\u{1b}[38;2;218;29;96m)\u{1b}[38;2;215;6;81m[[[[[[[[\u{1b}[38;2;215;11;84m[\u{1b}[38;2;225;152;178mO\u{1b}[38;2;230;230;230mMM\u{1b}[0m".to_owned());
    v.push("\u{1b}[38;2;230;230;230mMMM\u{1b}[38;2;227;176;194mq\u{1b}[38;2;217;38;102m|\u{1b}[38;2;215;6;81m[[[[[[[\u{1b}[38;2;216;11;84m}\u{1b}[38;2;215;10;83m[\u{1b}[38;2;215;6;81m[[[[[[\u{1b}[38;2;218;43;105m|\u{1b}[38;2;228;183;198md\u{1b}[38;2;230;230;230mMMM\u{1b}[0m".to_owned());
    v.push("\u{1b}[38;2;230;230;230mMMMM\u{1b}[38;2;230;223;225m#\u{1b}[38;2;224;132;165mC\u{1b}[38;2;217;35;100m(\u{1b}[38;2;215;6;81m[[[[[[[[[[[\u{1b}[38;2;218;38;102m|\u{1b}[38;2;224;138;169mL\u{1b}[38;2;230;225;227m#\u{1b}[38;2;230;230;230mMMMM\u{1b}[0m".to_owned());
    v.push("\u{1b}[38;2;230;230;230mMMMMMM\u{1b}[38;2;230;228;229mM\u{1b}[38;2;227;176;194mq\u{1b}[38;2;223;114;152mY\u{1b}[38;2;219;66;120mj\u{1b}[38;2;217;33;98m(\u{1b}[38;2;216;13;85m}\u{1b}[38;2;215;7;82m[\u{1b}[38;2;216;14;86m}\u{1b}[38;2;217;34;99m(\u{1b}[38;2;220;68;122mj\u{1b}[38;2;223;116;154mY\u{1b}[38;2;227;180;196mp\u{1b}[38;2;230;229;229mM\u{1b}[38;2;230;230;230mMMMMMM\u{1b}[0m".to_owned());
    proof {
        assert(v.deep_view() =~= debian_art());
    }
    v
}

} // verus!
