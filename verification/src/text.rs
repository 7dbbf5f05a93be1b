//! Character-level helpers shared by the measurer, the resolver and the
//! redaction passes: classification predicates, run scanning, substring
//! search, whitespace collapsing and decimal formatting.

use vstd::prelude::*;

verus! {

use vstd::string::StrSliceExecFns;

/// Decimal digit, as the redaction grammar understands it.
pub open spec fn is_digit(c: char) -> bool {
    '0' <= c && c <= '9'
}

/// ASCII whitespace: the whitespace class of the redaction grammar.
pub open spec fn is_space(c: char) -> bool {
    c == ' ' || c == '\t' || c == '\n' || c == '\r' || c == '\u{b}' || c == '\u{c}'
}

/// ASCII alphabetic: the terminator class of an ANSI escape sequence.
pub open spec fn is_alpha(c: char) -> bool {
    ('a' <= c && c <= 'z') || ('A' <= c && c <= 'Z')
}

/// ASCII upper-case letter.
pub open spec fn is_upper(c: char) -> bool {
    'A' <= c && c <= 'Z'
}

/// What `char::is_alphanumeric` returns: a function of the character alone.
pub uninterp spec fn is_alnum(c: char) -> bool;

/// Word constituent of the redaction grammar: alphanumeric or underscore.
pub open spec fn is_word(c: char) -> bool {
    is_alnum(c) || c == '_'
}

/// Relies on `char::is_alphanumeric`: whether the character is in one of
/// the Unicode letter or number categories, a property of the character alone.
#[verifier::external_body]
pub fn alnum_exec(c: char) -> (r: bool)
    ensures
        r == is_alnum(c),
{
    c.is_alphanumeric()
}

pub fn digit_exec(c: char) -> (r: bool)
    ensures
        r == is_digit(c),
{
    '0' <= c && c <= '9'
}

pub fn space_exec(c: char) -> (r: bool)
    ensures
        r == is_space(c),
{
    c == ' ' || c == '\t' || c == '\n' || c == '\r' || c == '\u{b}' || c == '\u{c}'
}

pub fn alpha_exec(c: char) -> (r: bool)
    ensures
        r == is_alpha(c),
{
    ('a' <= c && c <= 'z') || ('A' <= c && c <= 'Z')
}

pub fn upper_exec(c: char) -> (r: bool)
    ensures
        r == is_upper(c),
{
    'A' <= c && c <= 'Z'
}

pub fn word_exec(c: char) -> (r: bool)
    ensures
        r == is_word(c),
{
    alnum_exec(c) || c == '_'
}

/// What `str::to_lowercase` returns: a function of the characters alone.
pub uninterp spec fn lower_of(s: Seq<char>) -> Seq<char>;

/// Relies on `str::to_lowercase`: the lower-case form of the string,
/// a function of its characters alone.
#[verifier::external_body]
pub fn lowercase(s: &str) -> (r: String)
    ensures
        r@ == lower_of(s@),
{
    s.to_lowercase()
}

/// Relies on `String::push`: appends the given character to the end
/// of the string.
pub assume_specification[ String::push ](s: &mut String, ch: char)
    ensures
        final(s)@ == old(s)@.push(ch),
;

/// The characters of a string, in order, as a vector.
pub fn chars_of(s: &str) -> (v: Vec<char>)
    ensures
        v@ == s@,
{
    let n = s.unicode_len();
    let mut v: Vec<char> = Vec::new();
    let mut i: usize = 0;
    while i < n
        invariant
            n == s@.len(),
            i <= n,
            v@ == s@.subrange(0, i as int),
        decreases n - i,
    {
        v.push(s.get_char(i));
        i = i + 1;
        proof {
            assert(v@ =~= s@.subrange(0, i as int));
        }
    }
    proof {
        assert(v@ =~= s@);
    }
    v
}

/// The characters, back as a `String`.
pub fn string_of(v: &Vec<char>) -> (s: String)
    ensures
        s@ == v@,
{
    let mut s = String::new();
    let mut i: usize = 0;
    while i < v.len()
        invariant
            i <= v.len(),
            s@ == v@.subrange(0, i as int),
        decreases v.len() - i,
    {
        s.push(v[i]);
        i = i + 1;
        proof {
            assert(s@ =~= v@.subrange(0, i as int));
        }
    }
    proof {
        assert(s@ =~= v@);
    }
    s
}

/// End of the run of characters satisfying `p` that starts at `i`.
pub open spec fn run_end(s: Seq<char>, i: int, p: spec_fn(char) -> bool) -> int
    decreases s.len() - i,
{
    if i < 0 || i >= s.len() || !p(s[i]) {
        i
    } else {
        run_end(s, i + 1, p)
    }
}

pub proof fn lemma_run_end(s: Seq<char>, i: int, p: spec_fn(char) -> bool)
    requires
        0 <= i <= s.len(),
    ensures
        i <= run_end(s, i, p) <= s.len(),
        forall|k: int| i <= k < run_end(s, i, p) ==> p(s[k]),
        run_end(s, i, p) < s.len() ==> !p(s[run_end(s, i, p)]),
    decreases s.len() - i,
{
    if i < s.len() && p(s[i]) {
        lemma_run_end(s, i + 1, p);
    }
}

pub open spec fn digit_run_end(s: Seq<char>, i: int) -> int {
    run_end(s, i, |c: char| is_digit(c))
}

pub open spec fn space_run_end(s: Seq<char>, i: int) -> int {
    run_end(s, i, |c: char| is_space(c))
}

pub open spec fn upper_run_end(s: Seq<char>, i: int) -> int {
    run_end(s, i, |c: char| is_upper(c))
}

pub open spec fn word_run_end(s: Seq<char>, i: int) -> int {
    run_end(s, i, |c: char| is_word(c))
}

pub open spec fn nonparen_run_end(s: Seq<char>, i: int) -> int {
    run_end(s, i, |c: char| c != ')')
}

pub fn digit_run_exec(v: &Vec<char>, i: usize) -> (e: usize)
    requires
        i <= v.len(),
    ensures
        e == digit_run_end(v@, i as int),
        i <= e <= v.len(),
{
    let mut j = i;
    while j < v.len() && digit_exec(v[j])
        invariant
            i <= j <= v.len(),
            digit_run_end(v@, i as int) == digit_run_end(v@, j as int),
        decreases v.len() - j,
    {
        j = j + 1;
    }
    proof {
        lemma_run_end(v@, j as int, |c: char| is_digit(c));
    }
    j
}

pub fn space_run_exec(v: &Vec<char>, i: usize) -> (e: usize)
    requires
        i <= v.len(),
    ensures
        e == space_run_end(v@, i as int),
        i <= e <= v.len(),
{
    let mut j = i;
    while j < v.len() && space_exec(v[j])
        invariant
            i <= j <= v.len(),
            space_run_end(v@, i as int) == space_run_end(v@, j as int),
        decreases v.len() - j,
    {
        j = j + 1;
    }
    proof {
        lemma_run_end(v@, j as int, |c: char| is_space(c));
    }
    j
}

pub fn upper_run_exec(v: &Vec<char>, i: usize) -> (e: usize)
    requires
        i <= v.len(),
    ensures
        e == upper_run_end(v@, i as int),
        i <= e <= v.len(),
{
    let mut j = i;
    while j < v.len() && upper_exec(v[j])
        invariant
            i <= j <= v.len(),
            upper_run_end(v@, i as int) == upper_run_end(v@, j as int),
        decreases v.len() - j,
    {
        j = j + 1;
    }
    proof {
        lemma_run_end(v@, j as int, |c: char| is_upper(c));
    }
    j
}

pub fn word_run_exec(v: &Vec<char>, i: usize) -> (e: usize)
    requires
        i <= v.len(),
    ensures
        e == word_run_end(v@, i as int),
        i <= e <= v.len(),
{
    let mut j = i;
    while j < v.len() && word_exec(v[j])
        invariant
            i <= j <= v.len(),
            word_run_end(v@, i as int) == word_run_end(v@, j as int),
        decreases v.len() - j,
    {
        j = j + 1;
    }
    proof {
        lemma_run_end(v@, j as int, |c: char| is_word(c));
    }
    j
}

pub fn nonparen_run_exec(v: &Vec<char>, i: usize) -> (e: usize)
    requires
        i <= v.len(),
    ensures
        e == nonparen_run_end(v@, i as int),
        i <= e <= v.len(),
{
    let mut j = i;
    while j < v.len() && v[j] != ')'
        invariant
            i <= j <= v.len(),
            nonparen_run_end(v@, i as int) == nonparen_run_end(v@, j as int),
        decreases v.len() - j,
    {
        j = j + 1;
    }
    proof {
        lemma_run_end(v@, j as int, |c: char| c != ')');
    }
    j
}

/// Whether `lit` occurs in `s` starting exactly at index `i`.
pub open spec fn starts_with_at(s: Seq<char>, i: int, lit: Seq<char>) -> bool {
    0 <= i && i + lit.len() <= s.len() && s.subrange(i, i + lit.len()) == lit
}

pub fn starts_with_exec(v: &Vec<char>, i: usize, lit: &str) -> (r: bool)
    requires
        i <= v.len(),
    ensures
        r == starts_with_at(v@, i as int, lit@),
{
    let lc = chars_of(lit);
    if v.len() - i < lc.len() {
        return false;
    }
    let mut k: usize = 0;
    while k < lc.len()
        invariant
            i + lc.len() <= v.len(),
            k <= lc.len(),
            lc@ == lit@,
            forall|m: int| 0 <= m < k ==> v@[i + m] == lc@[m],
        decreases lc.len() - k,
    {
        if v[i + k] != lc[k] {
            proof {
                assert(v@.subrange(i as int, i + lit@.len())[k as int] != lit@[k as int]);
            }
            return false;
        }
        k = k + 1;
    }
    proof {
        assert(v@.subrange(i as int, i + lit@.len()) =~= lit@);
    }
    true
}

/// Whether `needle` occurs somewhere in `hay`.
pub open spec fn is_substr(needle: Seq<char>, hay: Seq<char>) -> bool {
    exists|k: int| starts_with_at(hay, k, needle)
}

pub fn contains_exec(hay: &Vec<char>, needle: &str) -> (r: bool)
    ensures
        r == is_substr(needle@, hay@),
{
    let mut k: usize = 0;
    while k < hay.len()
        invariant
            k <= hay.len(),
            forall|m: int| 0 <= m < k ==> !starts_with_at(hay@, m, needle@),
        decreases hay.len() - k,
    {
        if starts_with_exec(hay, k, needle) {
            return true;
        }
        k = k + 1;
    }
    if starts_with_exec(hay, hay.len(), needle) {
        return true;
    }
    proof {
        assert forall|m: int| !starts_with_at(hay@, m, needle@) by {
            if 0 <= m && m + needle@.len() <= hay@.len() {
                assert(m <= hay@.len());
            }
        }
    }
    false
}

/// Whether the character occurs in the sequence.
pub fn contains_char_exec(v: &Vec<char>, c: char) -> (r: bool)
    ensures
        r == v@.contains(c),
{
    let mut k: usize = 0;
    while k < v.len()
        invariant
            k <= v.len(),
            forall|m: int| 0 <= m < k ==> v@[m] != c,
        decreases v.len() - k,
    {
        if v[k] == c {
            return true;
        }
        k = k + 1;
    }
    false
}

pub fn seq_eq_exec(v: &Vec<char>, lit: &str) -> (r: bool)
    ensures
        r == (v@ == lit@),
{
    let n = lit.unicode_len();
    if v.len() != n {
        proof {
            assert(v@.len() != lit@.len());
        }
        return false;
    }
    if starts_with_exec(v, 0, lit) {
        proof {
            assert(v@.subrange(0, lit@.len() as int) =~= v@);
        }
        true
    } else {
        proof {
            assert(v@.subrange(0, lit@.len() as int) =~= v@);
        }
        false
    }
}

/// Leading and trailing whitespace removed, inner whitespace runs collapsed
/// to a single space: the normal form the redaction passes emit.
pub open spec fn collapse_rec(s: Seq<char>, i: int, started: bool) -> Seq<char>
    decreases s.len() - i,
{
    if i < 0 || i >= s.len() {
        Seq::empty()
    } else if is_space(s[i]) {
        collapse_rec(s, i + 1, started)
    } else if started && i > 0 && is_space(s[i - 1]) {
        seq![' ', s[i]] + collapse_rec(s, i + 1, true)
    } else {
        seq![s[i]] + collapse_rec(s, i + 1, true)
    }
}

pub open spec fn collapse_ws(s: Seq<char>) -> Seq<char> {
    collapse_rec(s, 0, false)
}

pub fn collapse_ws_exec(v: &Vec<char>) -> (out: Vec<char>)
    ensures
        out@ == collapse_ws(v@),
{
    let mut out: Vec<char> = Vec::new();
    let mut i: usize = 0;
    let mut started = false;
    while i < v.len()
        invariant
            i <= v.len(),
            started == (out@.len() > 0),
            collapse_ws(v@) == out@ + collapse_rec(v@, i as int, started),
        decreases v.len() - i,
    {
        if space_exec(v[i]) {
            // contributes nothing yet
        } else {
            if started && i > 0 && space_exec(v[i - 1]) {
                out.push(' ');
                out.push(v[i]);
            } else {
                out.push(v[i]);
            }
            started = true;
        }
        i = i + 1;
    }
    out
}

/// Append every character of `piece`.
pub fn push_all(out: &mut Vec<char>, piece: &Vec<char>)
    ensures
        final(out)@ == old(out)@ + piece@,
{
    let mut k: usize = 0;
    while k < piece.len()
        invariant
            k <= piece.len(),
            out@ == old(out)@ + piece@.subrange(0, k as int),
        decreases piece.len() - k,
    {
        out.push(piece[k]);
        k = k + 1;
        proof {
            assert(out@ =~= old(out)@ + piece@.subrange(0, k as int));
        }
    }
    proof {
        assert(out@ =~= old(out)@ + piece@);
    }
}

/// Append every character of the string.
pub fn push_str_chars(out: &mut Vec<char>, s: &str)
    ensures
        final(out)@ == old(out)@ + s@,
{
    let piece = chars_of(s);
    push_all(out, &piece);
}

/// Every occurrence of `pat` replaced by `rep`, scanning left to right
/// over non-overlapping matches.
pub open spec fn replace_lit(s: Seq<char>, i: int, pat: Seq<char>, rep: Seq<char>) -> Seq<char>
    decreases s.len() - i,
{
    if i < 0 || i >= s.len() {
        Seq::empty()
    } else if pat.len() > 0 && starts_with_at(s, i, pat) {
        rep + replace_lit(s, i + pat.len(), pat, rep)
    } else {
        seq![s[i]] + replace_lit(s, i + 1, pat, rep)
    }
}

pub fn replace_all_exec(v: &Vec<char>, pat: &str, rep: &str) -> (out: Vec<char>)
    ensures
        out@ == replace_lit(v@, 0, pat@, rep@),
{
    let rep_chars = chars_of(rep);
    let pat_len = pat.unicode_len();
    let mut out: Vec<char> = Vec::new();
    let mut i: usize = 0;
    proof {
        assert(out@ + replace_lit(v@, 0, pat@, rep@) =~= replace_lit(v@, 0, pat@, rep@));
    }
    while i < v.len()
        invariant
            i <= v.len(),
            pat_len == pat@.len(),
            rep_chars@ == rep@,
            replace_lit(v@, 0, pat@, rep@) == out@ + replace_lit(v@, i as int, pat@, rep@),
        decreases v.len() - i,
    {
        let ghost prev = out@;
        if pat_len > 0 && starts_with_exec(v, i, pat) {
            push_all(&mut out, &rep_chars);
            proof {
                assert(prev + (rep@ + replace_lit(v@, i + pat@.len(), pat@, rep@)) =~= out@
                    + replace_lit(v@, i + pat@.len(), pat@, rep@));
            }
            i = i + pat_len;
        } else {
            out.push(v[i]);
            proof {
                assert(prev + (seq![v@[i as int]] + replace_lit(v@, i + 1, pat@, rep@)) =~= out@
                    + replace_lit(v@, i + 1, pat@, rep@));
            }
            i = i + 1;
        }
    }
    proof {
        assert(out@ + replace_lit(v@, i as int, pat@, rep@) =~= out@);
    }
    out
}

/// Index one past the last non-space character.
pub open spec fn rstrip_end(s: Seq<char>) -> int
    decreases s.len(),
{
    if s.len() == 0 {
        0
    } else if is_space(s.last()) {
        rstrip_end(s.drop_last())
    } else {
        s.len() as int
    }
}

/// Leading and trailing whitespace removed.
pub open spec fn trim_spec(s: Seq<char>) -> Seq<char> {
    let a = space_run_end(s, 0);
    let t = s.subrange(a, s.len() as int);
    t.subrange(0, rstrip_end(t))
}

pub proof fn lemma_rstrip_bounds(s: Seq<char>)
    ensures
        0 <= rstrip_end(s) <= s.len(),
    decreases s.len(),
{
    if s.len() > 0 && is_space(s.last()) {
        lemma_rstrip_bounds(s.drop_last());
    }
}

pub fn trim_exec(v: &Vec<char>) -> (out: Vec<char>)
    ensures
        out@ == trim_spec(v@),
{
    let a = space_run_exec(v, 0);
    let ghost t = v@.subrange(a as int, v@.len() as int);
    proof {
        lemma_rstrip_bounds(t);
    }
    let mut b = v.len();
    while b > a && space_exec(v[b - 1])
        invariant
            a <= b <= v.len(),
            t == v@.subrange(a as int, v@.len() as int),
            rstrip_end(t) == rstrip_end(v@.subrange(a as int, b as int)),
        decreases b,
    {
        proof {
            assert(v@.subrange(a as int, b as int).drop_last() =~= v@.subrange(a as int, b - 1));
            lemma_rstrip_bounds(v@.subrange(a as int, b - 1));
        }
        b = b - 1;
    }
    proof {
        let u = v@.subrange(a as int, b as int);
        if b > a {
            assert(!is_space(u.last()));
            assert(rstrip_end(u) == u.len());
        }
        lemma_rstrip_bounds(u);
    }
    let mut out: Vec<char> = Vec::new();
    let mut k = a;
    while k < b
        invariant
            a <= k <= b <= v.len(),
            out@ == v@.subrange(a as int, k as int),
        decreases b - k,
    {
        out.push(v[k]);
        k = k + 1;
        proof {
            assert(out@ =~= v@.subrange(a as int, k as int));
        }
    }
    proof {
        let u = v@.subrange(a as int, b as int);
        assert(out@ =~= u);
        assert(t.subrange(0, rstrip_end(t)) =~= u);
    }
    out
}

/// The digit character for a value below ten.
pub open spec fn digit_char(d: int) -> char {
    if d == 0 {
        '0'
    } else if d == 1 {
        '1'
    } else if d == 2 {
        '2'
    } else if d == 3 {
        '3'
    } else if d == 4 {
        '4'
    } else if d == 5 {
        '5'
    } else if d == 6 {
        '6'
    } else if d == 7 {
        '7'
    } else if d == 8 {
        '8'
    } else {
        '9'
    }
}

/// The usual decimal rendering of a natural number.
pub open spec fn dec_str(n: nat) -> Seq<char>
    decreases n,
{
    if n < 10 {
        seq![digit_char(n as int)]
    } else {
        dec_str(n / 10).push(digit_char((n % 10) as int))
    }
}

fn digit_char_exec(d: u128) -> (c: char)
    requires
        d < 10,
    ensures
        c == digit_char(d as int),
{
    if d == 0 {
        '0'
    } else if d == 1 {
        '1'
    } else if d == 2 {
        '2'
    } else if d == 3 {
        '3'
    } else if d == 4 {
        '4'
    } else if d == 5 {
        '5'
    } else if d == 6 {
        '6'
    } else if d == 7 {
        '7'
    } else if d == 8 {
        '8'
    } else {
        '9'
    }
}

/// Decimal rendering of `n`, as characters.
pub fn dec_of_u128(n0: u128) -> (out: Vec<char>)
    ensures
        out@ == dec_str(n0 as nat),
{
    let mut rev: Vec<char> = Vec::new();
    let mut n = n0;
    proof {
        assert(dec_str(n0 as nat) =~= dec_str(n as nat) + rev@.reverse());
    }
    loop
        invariant_except_break
            n > 0 || n0 == 0,
            dec_str(n0 as nat) == dec_str(n as nat) + rev@.reverse(),
        ensures
            dec_str(n0 as nat) == rev@.reverse(),
        decreases n,
    {
        let d = n % 10;
        let c = digit_char_exec(d);
        let ghost prev_rev = rev@;
        let ghost prev_n = n as nat;
        rev.push(c);
        n = n / 10;
        proof {
            assert(rev@.reverse() =~= seq![c] + prev_rev.reverse());
            if prev_n >= 10 {
                assert(dec_str(prev_n) == dec_str(prev_n / 10).push(c));
                assert(dec_str(prev_n / 10).push(c) + prev_rev.reverse() =~= dec_str(
                    prev_n / 10,
                ) + (seq![c] + prev_rev.reverse()));
            } else {
                assert(dec_str(prev_n) =~= seq![c]);
                assert(dec_str(prev_n) + prev_rev.reverse() =~= seq![c] + prev_rev.reverse());
            }
        }
        if n == 0 {
            break ;
        }
    }
    // reverse
    let mut out: Vec<char> = Vec::new();
    let mut i: usize = rev.len();
    while i > 0
        invariant
            i <= rev.len(),
            out@ == rev@.reverse().subrange(0, (rev@.len() - i) as int),
        decreases i,
    {
        i = i - 1;
        out.push(rev[i]);
        proof {
            assert(out@ =~= rev@.reverse().subrange(0, (rev@.len() - i) as int));
        }
    }
    proof {
        assert(out@ =~= rev@.reverse());
    }
    out
}

/// Ten to the `k`.
pub open spec fn pow10(k: nat) -> nat
    decreases k,
{
    if k == 0 {
        1
    } else {
        10 * pow10((k - 1) as nat)
    }
}

pub proof fn lemma_pow10_bound(k: nat)
    requires
        k <= 33,
    ensures
        pow10(k) <= pow10(33),
        pow10(33) < 0x1_0000_0000_0000_0000_0000_0000_0000_0000,
    decreases 33 - k,
{
    assert(pow10(33) < 0x1_0000_0000_0000_0000_0000_0000_0000_0000) by {
        reveal_with_fuel(pow10, 34);
    }
    if k < 33 {
        lemma_pow10_bound(k + 1);
    }
}

pub proof fn lemma_pow10_pos(k: nat)
    ensures
        pow10(k) >= 1,
    decreases k,
{
    if k > 0 {
        lemma_pow10_pos((k - 1) as nat);
    }
}

pub proof fn lemma_pow10_mono(x: nat, y: nat)
    requires
        x <= y,
    ensures
        pow10(x) <= pow10(y),
    decreases y,
{
    if x < y {
        lemma_pow10_mono(x, (y - 1) as nat);
        lemma_pow10_pos((y - 1) as nat);
    }
}

pub proof fn lemma_pow10_add(x: nat, y: nat)
    ensures
        pow10(x) * pow10(y) == pow10(x + y),
    decreases x,
{
    if x == 0 {
        assert(pow10(0) == 1);
    } else {
        lemma_pow10_add((x - 1) as nat, y);
        let a = pow10((x - 1) as nat);
        let b = pow10(y);
        assert(pow10(x) == 10 * a);
        assert(pow10(x + y) == 10 * pow10((x + y - 1) as nat));
        assert((x + y - 1) as nat == (x - 1) as nat + y);
        assert((10 * a) * b == 10 * (a * b)) by (nonlinear_arith);
    }
}

/// Concrete values of the powers of ten the capacity arithmetic uses.
pub proof fn lemma_pow10_small()
    ensures
        pow10(14) == 0x5af3107a4000,
        pow10(15) == 0x38d7ea4c68000,
{
    assert(pow10(14) == 0x5af3107a4000 && pow10(15) == 0x38d7ea4c68000) by {
        reveal_with_fuel(pow10, 16);
    }
}

/// A value with `l1` whole digits and `l2` appended digits stays below
/// `pow10(l1 + l2)`.
pub proof fn lemma_scaled_bound(u1: nat, u2: nat, l1: nat, l2: nat)
    requires
        u1 < pow10(l1),
        u2 < pow10(l2),
    ensures
        u1 * pow10(l2) + u2 < pow10(l1 + l2),
{
    lemma_pow10_add(l1, l2);
    assert(u1 * pow10(l2) <= (pow10(l1) - 1) * pow10(l2)) by (nonlinear_arith)
        requires
            u1 < pow10(l1),
            pow10(l2) >= 0,
    ;
    assert((pow10(l1) - 1) * pow10(l2) == pow10(l1) * pow10(l2) - pow10(l2)) by (nonlinear_arith);
}

pub fn pow10_u128(k: usize) -> (r: u128)
    requires
        k <= 33,
    ensures
        r == pow10(k as nat),
{
    let mut r: u128 = 1;
    let mut j: usize = 0;
    while j < k
        invariant
            j <= k <= 33,
            r == pow10(j as nat),
        decreases k - j,
    {
        proof {
            lemma_pow10_bound(k as nat);
            lemma_pow10_bound((j + 1) as nat);
        }
        r = r * 10;
        j = j + 1;
    }
    r
}

/// The numeric value of a digit string, most significant first.
pub open spec fn val_of_digits(ds: Seq<char>) -> nat
    decreases ds.len(),
{
    if ds.len() == 0 {
        0
    } else {
        val_of_digits(ds.drop_last()) * 10 + (if is_digit(ds.last()) {
            ds.last() as u32 - 48
        } else {
            0
        }) as nat
    }
}

pub proof fn lemma_val_of_digits_bound(ds: Seq<char>)
    ensures
        val_of_digits(ds) < pow10(ds.len()),
    decreases ds.len(),
{
    if ds.len() > 0 {
        lemma_val_of_digits_bound(ds.drop_last());
    }
}

/// The value of the digit run `v[from..to]`.
pub fn val_of_range(v: &Vec<char>, from: usize, to: usize) -> (r: u128)
    requires
        from <= to <= v.len(),
        to - from <= 15,
        forall|k: int| from <= k < to ==> is_digit(v@[k]),
    ensures
        r == val_of_digits(v@.subrange(from as int, to as int)),
        r < pow10((to - from) as nat),
{
    let mut r: u128 = 0;
    let mut i = from;
    proof {
        lemma_pow10_bound(15);
    }
    while i < to
        invariant
            from <= i <= to <= v.len(),
            to - from <= 15,
            forall|k: int| from <= k < to ==> is_digit(v@[k]),
            r == val_of_digits(v@.subrange(from as int, i as int)),
            r < pow10((i - from) as nat),
        decreases to - i,
    {
        proof {
            lemma_pow10_bound((i - from) as nat);
            lemma_pow10_bound((i + 1 - from) as nat);
            assert(v@.subrange(from as int, i + 1).drop_last() =~= v@.subrange(
                from as int,
                i as int,
            ));
        }
        let c = v[i];
        let d: u128 = (c as u32 - 48) as u128;
        r = r * 10 + d;
        i = i + 1;
    }
    proof {
        lemma_val_of_digits_bound(v@.subrange(from as int, to as int));
    }
    r
}

} // verus!
