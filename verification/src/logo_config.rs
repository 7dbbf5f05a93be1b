//! The custom logo catalog: user-supplied logos keyed by lower-cased
//! OS name.
//!
//! Entries are held in insertion order and keys are unique, so lookup
//! is deterministic: an exact key match wins, and failing that the
//! first stored entry whose key occurs inside the queried name.
//! Loading and saving the catalog belong to outside collaborators; an
//! art-maker collaborator appends entries through `add_logo`.

use vstd::prelude::*;

verus! {

use vstd::string::StringExecFns;
use crate::text::{lower_of, lowercase, is_substr, chars_of, contains_exec};

/// A user-supplied logo: a label, its art lines, and whether the art
/// holds colour escape sequences.
#[derive(Clone, Debug)]
pub struct CustomLogo {
    pub function_name: String,
    pub lines: Vec<String>,
    pub colored: bool,
}

/// The catalog of custom logos, keyed by lower-cased OS name.
#[derive(Clone, Debug)]
pub struct LogoConfig {
    pub logos: Vec<(String, CustomLogo)>,
}

/// The entries from position `j` on whose key differs from `k`, in
/// stored order.
pub open spec fn sans_key(m: Seq<(String, CustomLogo)>, k: Seq<char>, j: int) -> Seq<
    (String, CustomLogo),
>
    decreases m.len() - j,
{
    if j < 0 || j >= m.len() {
        Seq::empty()
    } else if m[j].0@ == k {
        sans_key(m, k, j + 1)
    } else {
        seq![m[j]] + sans_key(m, k, j + 1)
    }
}

/// With pairwise-distinct keys from `j` on, dropping key `k` keeps the
/// keys pairwise distinct and none of them `k`.
proof fn lemma_sans_key(m: Seq<(String, CustomLogo)>, k: Seq<char>, j: int)
    requires
        0 <= j,
        forall|i1: int, i2: int| j <= i1 < i2 < m.len() ==> m[i1].0@ != m[i2].0@,
    ensures
        ({
            let r = sans_key(m, k, j);
            &&& forall|a: int, b: int|
                #![trigger r[a], r[b]]
                0 <= a < b < r.len() ==> r[a].0@ != r[b].0@
            &&& forall|a: int| #![trigger r[a]] 0 <= a < r.len() ==> r[a].0@ != k
            &&& forall|a: int|
                #![trigger r[a]]
                0 <= a < r.len() ==> exists|i: int| j <= i < m.len() && r[a] == m[i]
        }),
    decreases m.len() - j,
{
    if j >= m.len() {
    } else {
        lemma_sans_key(m, k, j + 1);
        let rest = sans_key(m, k, j + 1);
        let r = sans_key(m, k, j);
        if m[j].0@ == k {
        } else {
            assert(r == seq![m[j]] + rest);
            assert forall|a: int| #![trigger r[a]] 0 <= a < r.len() implies exists|i: int|
                j <= i < m.len() && r[a] == m[i] by {
                if a == 0 {
                    assert(r[0] == m[j]);
                } else {
                    assert(r[a] == rest[a - 1]);
                }
            }
            assert forall|a: int, b: int|
                #![trigger r[a], r[b]]
                0 <= a < b < r.len() implies r[a].0@ != r[b].0@ by {
                if a == 0 {
                    assert(r[b] == rest[b - 1]);
                    let i = choose|i: int| j + 1 <= i < m.len() && rest[b - 1] == m[i];
                    assert(m[j].0@ != m[i].0@);
                } else {
                    assert(r[a] == rest[a - 1] && r[b] == rest[b - 1]);
                }
            }
        }
    }
}

/// When no key from `j` on equals `k`, nothing is dropped.
proof fn lemma_sans_key_none(m: Seq<(String, CustomLogo)>, k: Seq<char>, j: int)
    requires
        0 <= j <= m.len(),
        forall|a: int| j <= a < m.len() ==> m[a].0@ != k,
    ensures
        sans_key(m, k, j) == m.subrange(j, m.len() as int),
    decreases m.len() - j,
{
    if j == m.len() {
        assert(m.subrange(j, m.len() as int) =~= Seq::<(String, CustomLogo)>::empty());
    } else {
        lemma_sans_key_none(m, k, j + 1);
        assert(m.subrange(j, m.len() as int) =~= seq![m[j]] + m.subrange(j + 1, m.len() as int));
    }
}

/// When exactly position `i` holds key `k`, dropping the key removes
/// exactly that entry.
proof fn lemma_sans_key_single(m: Seq<(String, CustomLogo)>, k: Seq<char>, j: int, i: int)
    requires
        0 <= j <= i < m.len(),
        m[i].0@ == k,
        forall|a: int| j <= a < m.len() && a != i ==> m[a].0@ != k,
    ensures
        sans_key(m, k, j) == m.subrange(j, i) + m.subrange(i + 1, m.len() as int),
    decreases m.len() - j,
{
    if j == i {
        lemma_sans_key_none(m, k, j + 1);
        assert(m.subrange(j, i) =~= Seq::<(String, CustomLogo)>::empty());
        assert(m.subrange(j, i) + m.subrange(i + 1, m.len() as int) =~= m.subrange(
            i + 1,
            m.len() as int,
        ));
    } else {
        lemma_sans_key_single(m, k, j + 1, i);
        assert(m.subrange(j, i) =~= seq![m[j]] + m.subrange(j + 1, i));
        assert((seq![m[j]] + m.subrange(j + 1, i)) + m.subrange(i + 1, m.len() as int) =~= seq![
            m[j],
        ] + (m.subrange(j + 1, i) + m.subrange(i + 1, m.len() as int)));
    }
}

impl LogoConfig {
    /// Keys are pairwise distinct.
    pub open spec fn wf(self) -> bool {
        forall|i: int, j: int|
            0 <= i < j < self.logos@.len() ==> self.logos@[i].0@ != self.logos@[j].0@
    }

    /// An empty catalog.
    pub fn new() -> (r: LogoConfig)
        ensures
            r.logos@.len() == 0,
            r.wf(),
    {
        LogoConfig { logos: Vec::new() }
    }

    /// The position of the entry keyed `k`, if any.
    fn find_key(&self, low: &String) -> (r: Option<usize>)
        ensures
            ({
                let m = self.logos@;
                match r {
                    Some(i) => i < m.len() && m[i as int].0@ == low@,
                    None => forall|a: int| 0 <= a < m.len() ==> m[a].0@ != low@,
                }
            }),
    {
        let n = self.logos.len();
        let mut j: usize = 0;
        while j < n
            invariant
                j <= n == self.logos@.len(),
                forall|a: int| 0 <= a < j ==> self.logos@[a].0@ != low@,
            decreases n - j,
        {
            let e = &self.logos[j];
            if e.0 == *low {
                return Some(j);
            }
            j = j + 1;
        }
        None
    }

    /// Insert a logo under the lower-cased OS name, replacing any
    /// entry with that key: afterwards the catalog holds every entry
    /// with a different key, in order, and the new entry last.
    pub fn add_logo(&mut self, os_name: &str, function_name: &str, lines: Vec<String>, colored: bool)
        requires
            old(self).wf(),
        ensures
            final(self).wf(),
            ({
                let k = lower_of(os_name@);
                let m0 = old(self).logos@;
                let m1 = final(self).logos@;
                &&& m1.len() >= 1
                &&& m1.last().0@ == k
                &&& m1.last().1.function_name@ == function_name@
                &&& m1.last().1.lines == lines
                &&& m1.last().1.colored == colored
                &&& m1.drop_last() == sans_key(m0, k, 0)
            }),
    {
        let ghost m0 = self.logos@;
        let ghost k = lower_of(os_name@);
        let low = lowercase(os_name);
        match self.find_key(&low) {
            Some(i) => {
                self.logos.remove(i);
                proof {
                    lemma_sans_key_single(m0, k, 0, i as int);
                    assert(m0.remove(i as int) =~= m0.subrange(0, i as int) + m0.subrange(
                        i + 1,
                        m0.len() as int,
                    ));
                }
            },
            None => {
                proof {
                    lemma_sans_key_none(m0, k, 0);
                    assert(m0.subrange(0, m0.len() as int) =~= m0);
                }
            },
        }
        let entry = CustomLogo { function_name: String::from_str(function_name), lines, colored };
        let ghost kept_v = self.logos@;
        self.logos.push((low, entry));
        proof {
            assert(self.logos@.drop_last() =~= kept_v);
            lemma_sans_key(m0, k, 0);
        }
    }

    /// Look a logo up: the entry whose key is exactly the lower-cased
    /// name, else the first stored entry whose key occurs inside the
    /// name, else nothing.
    pub fn get_logo(&self, os_name: &str) -> (r: Option<&CustomLogo>)
        ensures
            ({
                let k = lower_of(os_name@);
                let m = self.logos@;
                match r {
                    Some(l) => (exists|i: int|
                        0 <= i < m.len() && m[i].0@ == k && (forall|j: int|
                            0 <= j < i ==> m[j].0@ != k) && *l == m[i].1) || ((forall|i: int|
                        0 <= i < m.len() ==> m[i].0@ != k) && exists|i: int|
                        0 <= i < m.len() && is_substr(m[i].0@, k) && (forall|j: int|
                            0 <= j < i ==> !is_substr(m[j].0@, k)) && *l == m[i].1),
                    None => forall|i: int|
                        0 <= i < m.len() ==> m[i].0@ != k && !is_substr(m[i].0@, k),
                }
            }),
    {
        let ghost k = lower_of(os_name@);
        let ghost m = self.logos@;
        let low = lowercase(os_name);
        let n = self.logos.len();
        let mut i: usize = 0;
        while i < n
            invariant
                i <= n == m.len(),
                self.logos@ == m,
                low@ == k,
                k == lower_of(os_name@),
                forall|j: int| 0 <= j < i ==> m[j].0@ != k,
            decreases n - i,
        {
            let e = &self.logos[i];
            if e.0 == low {
                proof {
                    let ii = i as int;
                    assert(0 <= ii < m.len() && m[ii].0@ == k && (forall|j: int|
                        0 <= j < ii ==> m[j].0@ != k) && e.1 == m[ii].1);
                    assert(exists|i2: int|
                        0 <= i2 < m.len() && m[i2].0@ == k && (forall|j: int|
                            0 <= j < i2 ==> m[j].0@ != k) && e.1 == m[i2].1);
                }
                return Some(&e.1);
            }
            i = i + 1;
        }
        let low_chars = chars_of(low.as_str());
        let mut i: usize = 0;
        while i < n
            invariant
                i <= n == m.len(),
                self.logos@ == m,
                low@ == k,
                low_chars@ == k,
                k == lower_of(os_name@),
                forall|j: int| 0 <= j < m.len() ==> m[j].0@ != k,
                forall|j: int| 0 <= j < i ==> !is_substr(m[j].0@, k),
            decreases n - i,
        {
            let e = &self.logos[i];
            if contains_exec(&low_chars, e.0.as_str()) {
                proof {
                    let ii = i as int;
                    assert(0 <= ii < m.len() && is_substr(m[ii].0@, k) && (forall|j: int|
                        0 <= j < ii ==> !is_substr(m[j].0@, k)) && e.1 == m[ii].1);
                    assert(exists|i2: int|
                        0 <= i2 < m.len() && is_substr(m[i2].0@, k) && (forall|j: int|
                            0 <= j < i2 ==> !is_substr(m[j].0@, k)) && e.1 == m[i2].1);
                }
                return Some(&e.1);
            }
            i = i + 1;
        }
        None
    }

    /// The stored keys, in order.
    pub fn list_logos(&self) -> (r: Vec<&String>)
        ensures
            r@.len() == self.logos@.len(),
            forall|i: int| 0 <= i < r@.len() ==> r@[i]@ == self.logos@[i].0@,
    {
        let mut out: Vec<&String> = Vec::new();
        let mut i: usize = 0;
        while i < self.logos.len()
            invariant
                i <= self.logos@.len(),
                out@.len() == i,
                forall|j: int| 0 <= j < i ==> out@[j]@ == self.logos@[j].0@,
            decreases self.logos.len() - i,
        {
            let e = &self.logos[i];
            out.push(&e.0);
            i = i + 1;
        }
        out
    }

    /// Remove the entry stored under the lower-cased name; say whether
    /// one was there.
    pub fn remove_logo(&mut self, os_name: &str) -> (r: bool)
        requires
            old(self).wf(),
        ensures
            final(self).wf(),
            ({
                let k = lower_of(os_name@);
                let m0 = old(self).logos@;
                &&& final(self).logos@ == sans_key(m0, k, 0)
                &&& r == exists|i: int| 0 <= i < m0.len() && m0[i].0@ == k
            }),
    {
        let ghost m0 = self.logos@;
        let ghost k = lower_of(os_name@);
        let low = lowercase(os_name);
        match self.find_key(&low) {
            Some(i) => {
                self.logos.remove(i);
                proof {
                    lemma_sans_key_single(m0, k, 0, i as int);
                    assert(m0.remove(i as int) =~= m0.subrange(0, i as int) + m0.subrange(
                        i + 1,
                        m0.len() as int,
                    ));
                    lemma_sans_key(m0, k, 0);
                }
                true
            },
            None => {
                proof {
                    lemma_sans_key_none(m0, k, 0);
                    assert(m0.subrange(0, m0.len() as int) =~= m0);
                    lemma_sans_key(m0, k, 0);
                }
                false
            },
        }
    }
}

} // verus!
