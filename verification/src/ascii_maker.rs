//! The art-maker's text transform: dropping black-background colour
//! codes from captured ASCII art so it adapts to the terminal theme.
//! The interactive tool around it (prompts, image conversion, saving)
//! is an outside collaborator.

use vstd::prelude::*;

verus! {

use crate::text::{run_end, lemma_run_end, is_alpha, alpha_exec, is_substr, contains_exec, chars_of,
    string_of, push_all};

pub struct AsciiMaker;

/// First ASCII letter at or after `i`: the escape terminator.
pub open spec fn bg_term(s: Seq<char>, i: int) -> int {
    run_end(s, i, |c: char| !is_alpha(c))
}

/// The line with every escape sequence that names the black background
/// (the "38;2;0;0;0" colour parameters) removed; other sequences and
/// plain characters stay.  A sequence without a terminator is treated
/// whole, up to the end of the line.
pub open spec fn strip_bg_from(s: Seq<char>, i: int) -> Seq<char>
    decreases s.len() - i,
{
    if i < 0 || i >= s.len() {
        Seq::empty()
    } else if s[i] == '\u{1b}' && i + 1 < s.len() && s[i + 1] == '[' {
        let t = bg_term(s, i + 2);
        let e = if 0 <= t < s.len() {
            t + 1
        } else {
            s.len() as int
        };
        if i < e && e <= s.len() {
            let esc = s.subrange(i, e);
            if is_substr("38;2;0;0;0"@, esc) {
                strip_bg_from(s, e)
            } else {
                esc + strip_bg_from(s, e)
            }
        } else {
            seq![s[i]] + strip_bg_from(s, i + 1)
        }
    } else {
        seq![s[i]] + strip_bg_from(s, i + 1)
    }
}

fn strip_bg_line(v: &Vec<char>) -> (out: Vec<char>)
    ensures
        out@ == strip_bg_from(v@, 0),
{
    let mut out: Vec<char> = Vec::new();
    let mut i: usize = 0;
    proof {
        assert(out@ + strip_bg_from(v@, 0) =~= strip_bg_from(v@, 0));
    }
    while i < v.len()
        invariant
            i <= v.len(),
            strip_bg_from(v@, 0) == out@ + strip_bg_from(v@, i as int),
        decreases v.len() - i,
    {
        let ghost prev = out@;
        if v[i] == '\u{1b}' && i + 1 < v.len() && v[i + 1] == '[' {
            let mut j = i + 2;
            while j < v.len() && !alpha_exec(v[j])
                invariant
                    i + 2 <= j <= v.len(),
                    bg_term(v@, i + 2) == bg_term(v@, j as int),
                decreases v.len() - j,
            {
                j = j + 1;
            }
            proof {
                lemma_run_end(v@, j as int, |c: char| !is_alpha(c));
            }
            let e = if j < v.len() {
                j + 1
            } else {
                v.len()
            };
            let mut seg: Vec<char> = Vec::new();
            let mut k = i;
            while k < e
                invariant
                    i <= k <= e <= v.len(),
                    seg@ == v@.subrange(i as int, k as int),
                decreases e - k,
            {
                seg.push(v[k]);
                k = k + 1;
                proof {
                    assert(seg@ =~= v@.subrange(i as int, k as int));
                }
            }
            if contains_exec(&seg, "38;2;0;0;0") {
                proof {
                    assert(prev + strip_bg_from(v@, e as int) =~= out@ + strip_bg_from(
                        v@,
                        e as int,
                    ));
                }
            } else {
                push_all(&mut out, &seg);
                proof {
                    assert(prev + (v@.subrange(i as int, e as int) + strip_bg_from(v@, e as int))
                        =~= out@ + strip_bg_from(v@, e as int));
                }
            }
            i = e;
        } else {
            out.push(v[i]);
            proof {
                assert(prev + (seq![v@[i as int]] + strip_bg_from(v@, i + 1)) =~= out@
                    + strip_bg_from(v@, i + 1));
            }
            i = i + 1;
        }
    }
    proof {
        assert(out@ + strip_bg_from(v@, i as int) =~= out@);
    }
    out
}

impl AsciiMaker {
    /// Each line with its black-background colour codes removed.
    pub fn strip_background_colors(lines: &Vec<String>) -> (r: Vec<String>)
        ensures
            r.deep_view().len() == lines.deep_view().len(),
            forall|i: int|
                0 <= i < r.deep_view().len() ==> r.deep_view()[i] == strip_bg_from(
                    #[trigger] lines.deep_view()[i],
                    0,
                ),
    {
        let mut r: Vec<String> = Vec::new();
        let mut i: usize = 0;
        while i < lines.len()
            invariant
                i <= lines.len(),
                r.deep_view().len() == i,
                forall|j: int|
                    0 <= j < i ==> r.deep_view()[j] == strip_bg_from(
                        #[trigger] lines.deep_view()[j],
                        0,
                    ),
            decreases lines.len() - i,
        {
            let v = chars_of(lines[i].as_str());
            let outv = strip_bg_line(&v);
            let line = string_of(&outv);
            let ghost prev = r.deep_view();
            let ghost lv = line@;
            r.push(line);
            i = i + 1;
            proof {
                assert(r.deep_view() =~= prev.push(lv));
            }
        }
        r
    }
}

} // verus!
