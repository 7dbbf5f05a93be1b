//! The layout compositor: logo lines on the left, the information
//! panel on the right, in two aligned columns.
//!
//! Padding is computed from visual width, not raw length, so rows line
//! up no matter how many colour escape sequences each logo line holds.

use vstd::prelude::*;

verus! {

use vstd::string::{StrSliceExecFns, StringExecFns};
use crate::ansi::{
    width_of,
    stripped,
    scans_clean,
    visual_width,
    lemma_strip_append,
    lemma_esc_free_scans_clean,
};

/// The line at `i`, or the empty line past the end.
pub open spec fn line_at(lines: Seq<Seq<char>>, i: int) -> Seq<char> {
    if 0 <= i < lines.len() {
        lines[i]
    } else {
        Seq::empty()
    }
}

/// A run of `n` spaces (none for negative `n`).
pub open spec fn spaces(n: int) -> Seq<char> {
    Seq::new(
        if n < 0 {
            0
        } else {
            n as nat
        },
        |i: int| ' ',
    )
}

/// The widest visual width among the lines.
pub open spec fn max_width(lines: Seq<Seq<char>>) -> nat
    decreases lines.len(),
{
    if lines.len() == 0 {
        0
    } else {
        let m = max_width(lines.drop_last());
        let w = width_of(lines.last());
        if w > m {
            w
        } else {
            m
        }
    }
}

pub proof fn lemma_max_width_ge(lines: Seq<Seq<char>>, j: int)
    requires
        0 <= j < lines.len(),
    ensures
        width_of(lines[j]) <= max_width(lines),
    decreases lines.len(),
{
    if j == lines.len() - 1 {
    } else {
        lemma_max_width_ge(lines.drop_last(), j);
    }
}

/// Row `i` of the composition: the logo line, padding out to the
/// column width, one separating space, then the info line.
pub open spec fn row_spec(logo: Seq<Seq<char>>, info: Seq<Seq<char>>, colw: int, i: int) -> Seq<
    char,
> {
    let l = line_at(logo, i);
    l + spaces(colw - width_of(l)) + seq![' '] + line_at(info, i)
}

/// The column width the compositor uses: the widest logo line plus
/// the gap, held to the machine's limit.
pub open spec fn col_width(lines: Seq<Seq<char>>, gap: int) -> int {
    if max_width(lines) + gap <= usize::MAX {
        max_width(lines) + gap
    } else {
        usize::MAX as int
    }
}

pub open spec fn max_len(a: int, b: int) -> int {
    if a > b {
        a
    } else {
        b
    }
}

fn spaces_push(r: &mut String, n: usize)
    ensures
        final(r)@ == old(r)@ + spaces(n as int),
{
    let mut k: usize = 0;
    proof {
        assert(r@ + spaces(0) =~= r@);
    }
    while k < n
        invariant
            k <= n,
            r@ == old(r)@ + spaces(k as int),
        decreases n - k,
    {
        r.push(' ');
        k = k + 1;
        proof {
            assert(old(r)@ + spaces(k - 1) + seq![' '] =~= old(r)@ + spaces(k as int));
        }
    }
}

/// Combine logo lines and info lines into printable rows, with `gap`
/// extra spaces between the columns.
pub fn compose(logo: &Vec<String>, info: &Vec<String>, gap: usize) -> (rows: Vec<String>)
    ensures
        rows.len() == max_len(logo.len() as int, info.len() as int),
        forall|i: int|
            0 <= i < rows.len() ==> rows.deep_view()[i] == row_spec(
                logo.deep_view(),
                info.deep_view(),
                col_width(logo.deep_view(), gap as int),
                i,
            ),
{
    let ghost lv = logo.deep_view();
    let ghost iv = info.deep_view();
    // widest logo line
    let mut maxw: usize = 0;
    let mut j: usize = 0;
    while j < logo.len()
        invariant
            j <= logo.len(),
            lv == logo.deep_view(),
            maxw == max_width(lv.subrange(0, j as int)),
        decreases logo.len() - j,
    {
        let w = visual_width(logo[j].as_str());
        proof {
            assert(lv.subrange(0, j + 1).drop_last() =~= lv.subrange(0, j as int));
            assert(lv.subrange(0, j + 1).last() == lv[j as int]);
            lemma_max_width_ge(lv, j as int);
            assert(lv.subrange(0, j + 1) =~= lv.subrange(0, j as int).push(lv[j as int]));
        }
        if w > maxw {
            maxw = w;
        }
        j = j + 1;
    }
    proof {
        assert(lv.subrange(0, logo.len() as int) =~= lv);
    }
    let colw = if gap <= usize::MAX - maxw {
        maxw + gap
    } else {
        usize::MAX
    };
    let count = if logo.len() > info.len() {
        logo.len()
    } else {
        info.len()
    };
    let mut rows: Vec<String> = Vec::new();
    let mut i: usize = 0;
    while i < count
        invariant
            i <= count,
            lv == logo.deep_view(),
            iv == info.deep_view(),
            colw == col_width(lv, gap as int),
            colw >= max_width(lv),
            count == max_len(logo.len() as int, info.len() as int),
            rows.len() == i,
            forall|k: int|
                0 <= k < i ==> rows.deep_view()[k] == row_spec(lv, iv, colw as int, k),
        decreases count - i,
    {
        let mut row = String::new();
        let mut lw: usize = 0;
        if i < logo.len() {
            row.append(logo[i].as_str());
            lw = visual_width(logo[i].as_str());
            proof {
                lemma_max_width_ge(lv, i as int);
            }
        }
        let pad = colw - lw;
        spaces_push(&mut row, pad);
        row.push(' ');
        if i < info.len() {
            row.append(info[i].as_str());
        }
        proof {
            assert(row@ =~= row_spec(lv, iv, colw as int, i as int));
        }
        let ghost prev_dv = rows.deep_view();
        let ghost row_v = row@;
        rows.push(row);
        i = i + 1;
        proof {
            assert(rows.deep_view() =~= prev_dv.push(row_v));
        }
    }
    rows
}

/// Spaces are escape-free, so they strip to themselves and scan clean.
proof fn lemma_spaces_plain(n: int)
    ensures
        scans_clean(spaces(n), 0),
        stripped(spaces(n)) == spaces(n),
{
    lemma_esc_free_scans_clean(spaces(n), 0);
    crate::ansi::lemma_esc_free_strips_to_self(spaces(n), 0);
    assert(stripped(spaces(n)) =~= spaces(n));
}

/// Every composed row places the info panel at the same visual column:
/// stripped of escape sequences, row `i` is the stripped logo line
/// padded with spaces out to column `colw + 1`, followed by exactly the
/// stripped info line.
pub proof fn lemma_rows_align(logo: Seq<Seq<char>>, info: Seq<Seq<char>>, gap: int, i: int)
    requires
        forall|j: int| 0 <= j < logo.len() ==> scans_clean(#[trigger] logo[j], 0),
        gap >= 0,
        max_width(logo) <= usize::MAX,
    ensures
        ({
            let colw = col_width(logo, gap);
            let row = row_spec(logo, info, colw, i);
            let l = line_at(logo, i);
            &&& stripped(row).len() >= colw + 1
            &&& stripped(row).take(colw + 1) == stripped(l) + spaces(colw + 1 - width_of(l))
            &&& stripped(row).skip(colw + 1) == stripped(line_at(info, i))
        }),
{
    let colw = col_width(logo, gap);
    let l = line_at(logo, i);
    let inf = line_at(info, i);
    let pad = colw - width_of(l);
    if 0 <= i < logo.len() {
        lemma_max_width_ge(logo, i);
    }
    assert(scans_clean(l, 0)) by {
        if !(0 <= i < logo.len()) {
            lemma_esc_free_scans_clean(l, 0);
        }
    }
    let row = row_spec(logo, info, colw, i);
    let mid = spaces(pad) + seq![' '];
    assert(mid =~= spaces(pad + 1));
    assert(row =~= l + (spaces(pad + 1) + inf));
    lemma_strip_append(l, spaces(pad + 1) + inf);
    lemma_spaces_plain(pad + 1);
    lemma_strip_append(spaces(pad + 1), inf);
    assert(stripped(row) == stripped(l) + (spaces(pad + 1) + stripped(inf)));
    assert(stripped(l).len() + pad + 1 == colw + 1);
    assert(stripped(row).take(colw + 1) =~= stripped(l) + spaces(pad + 1));
    assert(stripped(row).skip(colw + 1) =~= stripped(inf));
}

/// Lines with the same stripped text measure the same, so colourizing
/// a logo never moves the column.
pub proof fn lemma_max_width_congruent(a: Seq<Seq<char>>, b: Seq<Seq<char>>)
    requires
        a.len() == b.len(),
        forall|i: int| 0 <= i < a.len() ==> stripped(#[trigger] a[i]) == stripped(b[i]),
    ensures
        max_width(a) == max_width(b),
    decreases a.len(),
{
    if a.len() > 0 {
        assert(a.drop_last().len() == b.drop_last().len());
        assert(forall|i: int|
            0 <= i < a.drop_last().len() ==> stripped(#[trigger] a.drop_last()[i]) == stripped(
                b.drop_last()[i],
            ));
        lemma_max_width_congruent(a.drop_last(), b.drop_last());
        assert(stripped(a.last()) == stripped(b.last()));
    }
}

} // verus!
