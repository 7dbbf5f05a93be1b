//! ANSI-aware text measurement.
//!
//! A line of logo art may hold embedded colour escape sequences: an
//! escape character immediately followed by `[`, a run of parameter
//! characters, and a terminating ASCII letter.  The visual width of a
//! line is the number of characters left after those sequences are
//! removed.  A sequence that reaches the end of the line without a
//! terminator truncates measurement: the dangling remainder counts as
//! nothing, never as an error.

use vstd::prelude::*;

verus! {

use crate::text::{is_alpha, alpha_exec, chars_of, string_of};

/// The visible characters of `s` from position `i` on: escape sequences
/// (escape, `[`, through the first ASCII letter) contribute nothing; an
/// escape not followed by `[` is an ordinary character.
pub open spec fn strip_from(s: Seq<char>, i: int) -> Seq<char>
    decreases s.len() - i, 1int,
{
    if i < 0 || i >= s.len() {
        Seq::empty()
    } else if s[i] == '\u{1b}' && i + 1 < s.len() && s[i + 1] == '[' {
        skip_esc(s, i + 2)
    } else {
        seq![s[i]] + strip_from(s, i + 1)
    }
}

/// Inside an escape sequence: everything up to and including the first
/// ASCII letter is dropped; if none follows, the rest of the line is.
pub open spec fn skip_esc(s: Seq<char>, i: int) -> Seq<char>
    decreases s.len() - i, 0int,
{
    if i < 0 || i >= s.len() {
        Seq::empty()
    } else if is_alpha(s[i]) {
        strip_from(s, i + 1)
    } else {
        skip_esc(s, i + 1)
    }
}

/// The stripped view of a whole line.
pub open spec fn stripped(s: Seq<char>) -> Seq<char> {
    strip_from(s, 0)
}

/// The visual width of a line.
pub open spec fn width_of(s: Seq<char>) -> nat {
    stripped(s).len()
}

/// The scanner finishes `s` from `i` on in its ordinary state: every
/// escape sequence is terminated inside `s`, and no trailing escape
/// character waits for a `[`.  Appending further text to such a line
/// cannot change how the line itself is measured.
pub open spec fn scans_clean(s: Seq<char>, i: int) -> bool
    decreases s.len() - i, 1int,
{
    if i < 0 || i >= s.len() {
        true
    } else if s[i] == '\u{1b}' {
        if i + 1 >= s.len() {
            false
        } else if s[i + 1] == '[' {
            scans_clean_esc(s, i + 2)
        } else {
            scans_clean(s, i + 1)
        }
    } else {
        scans_clean(s, i + 1)
    }
}

pub open spec fn scans_clean_esc(s: Seq<char>, i: int) -> bool
    decreases s.len() - i, 0int,
{
    if i < 0 || i >= s.len() {
        false
    } else if is_alpha(s[i]) {
        scans_clean(s, i + 1)
    } else {
        scans_clean_esc(s, i + 1)
    }
}

/// A line free of escape characters strips to itself.
pub proof fn lemma_esc_free_strips_to_self(s: Seq<char>, i: int)
    requires
        forall|k: int| 0 <= k < s.len() ==> s[k] != '\u{1b}',
        0 <= i <= s.len(),
    ensures
        strip_from(s, i) == s.subrange(i, s.len() as int),
    decreases s.len() - i,
{
    if i == s.len() {
        assert(s.subrange(i, s.len() as int) =~= Seq::<char>::empty());
    } else {
        lemma_esc_free_strips_to_self(s, i + 1);
        assert(s.subrange(i, s.len() as int) =~= seq![s[i]] + s.subrange(i + 1, s.len() as int));
    }
}

/// A whole escape-free line is its own stripped text.
pub proof fn lemma_esc_free_plain(s: Seq<char>)
    requires
        forall|k: int| 0 <= k < s.len() ==> s[k] != '\u{1b}',
    ensures
        scans_clean(s, 0),
        stripped(s) == s,
{
    lemma_esc_free_scans_clean(s, 0);
    lemma_esc_free_strips_to_self(s, 0);
    assert(s.subrange(0, s.len() as int) =~= s);
}

/// A line free of escape characters scans clean.
pub proof fn lemma_esc_free_scans_clean(s: Seq<char>, i: int)
    requires
        forall|k: int| 0 <= k < s.len() ==> s[k] != '\u{1b}',
        0 <= i,
    ensures
        scans_clean(s, i),
    decreases s.len() - i,
{
    if i < s.len() {
        lemma_esc_free_scans_clean(s, i + 1);
    }
}

proof fn lemma_strip_shift(a: Seq<char>, b: Seq<char>, i: int)
    requires
        a.len() <= i <= a.len() + b.len(),
    ensures
        strip_from(a + b, i) == strip_from(b, i - a.len()),
        skip_esc(a + b, i) == skip_esc(b, i - a.len()),
    decreases a.len() + b.len() - i,
{
    let s = a + b;
    if i < s.len() {
        lemma_strip_shift(a, b, i + 1);
        assert(s[i] == b[i - a.len()]);
        if i + 1 < s.len() {
            assert(s[i + 1] == b[i + 1 - a.len()]);
        }
    }
}

proof fn lemma_strip_append_at(a: Seq<char>, b: Seq<char>, i: int)
    requires
        0 <= i <= a.len(),
        scans_clean(a, i),
    ensures
        strip_from(a + b, i) == strip_from(a, i) + strip_from(b, 0),
    decreases a.len() - i, 1int,
{
    let s = a + b;
    if i == a.len() {
        lemma_strip_shift(a, b, i);
        assert(strip_from(a, i) + strip_from(b, 0) =~= strip_from(b, 0));
    } else {
        assert(s[i] == a[i]);
        if a[i] == '\u{1b}' && i + 1 < a.len() && a[i + 1] == '[' {
            assert(s[i + 1] == a[i + 1]);
            lemma_skip_append_at(a, b, i + 2);
        } else {
            // scans_clean rules out an escape character at the very end,
            // so the head character is ordinary in `s` as well.
            assert(i + 1 <= a.len());
            lemma_strip_append_at(a, b, i + 1);
            if i + 1 < a.len() {
                assert(s[i + 1] == a[i + 1]);
            }
            assert(strip_from(s, i) == seq![s[i]] + strip_from(s, i + 1));
            assert(strip_from(a, i) == seq![a[i]] + strip_from(a, i + 1));
            assert((seq![a[i]] + strip_from(a, i + 1)) + strip_from(b, 0) =~= seq![a[i]] + (
            strip_from(a, i + 1) + strip_from(b, 0)));
        }
    }
}

proof fn lemma_skip_append_at(a: Seq<char>, b: Seq<char>, i: int)
    requires
        0 <= i <= a.len(),
        scans_clean_esc(a, i),
    ensures
        skip_esc(a + b, i) == skip_esc(a, i) + strip_from(b, 0),
    decreases a.len() - i, 0int,
{
    let s = a + b;
    assert(i < a.len());
    assert(s[i] == a[i]);
    if is_alpha(a[i]) {
        lemma_strip_append_at(a, b, i + 1);
    } else {
        lemma_skip_append_at(a, b, i + 1);
    }
}

/// A line that scans clean measures independently of what follows it.
pub proof fn lemma_strip_append(a: Seq<char>, b: Seq<char>)
    requires
        scans_clean(a, 0),
    ensures
        stripped(a + b) == stripped(a) + stripped(b),
{
    if a.len() == 0 {
        assert(a + b =~= b);
        assert(stripped(a) + stripped(b) =~= stripped(b));
    } else {
        lemma_strip_append_at(a, b, 0);
    }
}

/// A complete escape sequence: escape, `[`, a run of non-letter
/// parameter characters, and a terminating ASCII letter.
pub open spec fn well_formed_escape(e: Seq<char>) -> bool {
    &&& e.len() >= 3
    &&& e[0] == '\u{1b}'
    &&& e[1] == '['
    &&& is_alpha(e[e.len() - 1])
    &&& forall|k: int| 2 <= k < e.len() - 1 ==> !is_alpha(e[k])
}

proof fn lemma_escape_strips_to_rest(e: Seq<char>, b: Seq<char>, i: int)
    requires
        well_formed_escape(e),
        2 <= i <= e.len() - 1,
    ensures
        skip_esc(e + b, i) == strip_from(b, 0),
    decreases e.len() - i,
{
    let s = e + b;
    assert(s[i] == e[i]);
    if i == e.len() - 1 {
        lemma_strip_shift(e, b, e.len() as int);
    } else {
        lemma_escape_strips_to_rest(e, b, i + 1);
    }
}

/// A well-formed escape sequence contributes nothing to measurement:
/// inserting one between a clean prefix and any suffix leaves the
/// visual width unchanged.
pub proof fn lemma_width_ignores_escape(p: Seq<char>, e: Seq<char>, s: Seq<char>)
    requires
        scans_clean(p, 0),
        well_formed_escape(e),
    ensures
        width_of(p + e + s) == width_of(p + s),
{
    assert(p + e + s =~= p + (e + s));
    lemma_strip_append(p, e + s);
    lemma_strip_append(p, s);
    lemma_escape_strips_to_rest(e, s, 2);
    assert((e + s)[0] == e[0] && (e + s)[1] == e[1]);
    assert(stripped(e + s) == skip_esc(e + s, 2));
}

/// The escape-free text of a line.
pub fn strip_chars(v: &Vec<char>) -> (out: Vec<char>)
    ensures
        out@ == stripped(v@),
{
    let mut out: Vec<char> = Vec::new();
    let mut i: usize = 0;
    proof {
        assert(out@ + strip_from(v@, 0) =~= strip_from(v@, 0));
    }
    while i < v.len()
        invariant
            i <= v.len(),
            stripped(v@) == out@ + strip_from(v@, i as int),
        decreases v.len() - i,
    {
        if v[i] == '\u{1b}' && i + 1 < v.len() && v[i + 1] == '[' {
            let mut j = i + 2;
            proof {
                assert(strip_from(v@, i as int) == skip_esc(v@, j as int));
            }
            while j < v.len() && !alpha_exec(v[j])
                invariant
                    i + 2 <= j <= v.len(),
                    stripped(v@) == out@ + skip_esc(v@, j as int),
                decreases v.len() - j,
            {
                j = j + 1;
            }
            if j < v.len() {
                proof {
                    assert(skip_esc(v@, j as int) == strip_from(v@, j + 1));
                }
                i = j + 1;
            } else {
                proof {
                    assert(skip_esc(v@, j as int) =~= Seq::<char>::empty());
                    assert(out@ + Seq::<char>::empty() =~= out@);
                    assert(strip_from(v@, j as int) =~= Seq::<char>::empty());
                }
                i = j;
            }
        } else {
            let ghost prev = out@;
            out.push(v[i]);
            proof {
                assert(strip_from(v@, i as int) == seq![v@[i as int]] + strip_from(v@, i + 1));
                assert(prev + (seq![v@[i as int]] + strip_from(v@, i + 1)) =~= out@ + strip_from(
                    v@,
                    i + 1,
                ));
            }
            i = i + 1;
        }
    }
    proof {
        assert(out@ + strip_from(v@, i as int) =~= out@);
    }
    out
}

/// The visual width of a line: its character count with every escape
/// sequence removed.
pub fn visual_width(line: &str) -> (w: usize)
    ensures
        w == width_of(line@),
{
    let v = chars_of(line);
    let st = strip_chars(&v);
    st.len()
}

/// The escape-free text of a line, for consumers that persist or
/// compare plain text.
pub fn strip_ansi(line: &str) -> (r: String)
    ensures
        r@ == stripped(line@),
{
    let v = chars_of(line);
    let st = strip_chars(&v);
    string_of(&st)
}

} // verus!
