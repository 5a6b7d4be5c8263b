//! Character-level string operations used to build paths and expand
//! configuration variables.

use vstd::prelude::*;

verus! {

/// `p` occurs in `s` starting at position `i`.
pub open spec fn occurs_at(s: Seq<char>, p: Seq<char>, i: int) -> bool {
    0 <= i && i + p.len() <= s.len() && s.subrange(i, i + p.len()) == p
}

/// `p` occurs somewhere in `s`.
pub open spec fn contains_seq(s: Seq<char>, p: Seq<char>) -> bool {
    exists|i: int| occurs_at(s, p, i)
}

/// `s` with every occurrence of the non-empty pattern `p` replaced by `r`,
/// occurrences being taken left to right without overlap.
pub open spec fn replaced(s: Seq<char>, p: Seq<char>, r: Seq<char>) -> Seq<char>
    decreases s.len(),
{
    if p.len() == 0 || s.len() == 0 {
        s
    } else if occurs_at(s, p, 0) {
        r + replaced(s.skip(p.len() as int), p, r)
    } else {
        seq![s[0]] + replaced(s.skip(1), p, r)
    }
}

/// A string in which the pattern does not occur is left as it is.
pub proof fn lemma_replaced_without_occurrence(s: Seq<char>, p: Seq<char>, r: Seq<char>)
    requires
        !contains_seq(s, p),
    ensures
        replaced(s, p, r) == s,
    decreases s.len(),
{
    if p.len() > 0 && s.len() > 0 {
        assert(!occurs_at(s, p, 0));
        let t = s.skip(1);
        assert forall|j: int| !occurs_at(t, p, j) by {
            if occurs_at(t, p, j) {
                assert(s.subrange(j + 1, j + 1 + p.len()) =~= t.subrange(j, j + p.len()));
                assert(occurs_at(s, p, j + 1));
            }
        }
        lemma_replaced_without_occurrence(t, p, r);
        assert(seq![s[0]] + t =~= s);
    }
}

/// The characters of `s`, collected into a vector.
pub fn chars_of(s: &str) -> (v: Vec<char>)
    ensures
        v@ == s@,
{
    let mut v: Vec<char> = Vec::new();
    for c in it: s.chars()
        invariant
            v@ == it.seq().take(it.index()),
    {
        v.push(c);
    }
    v
}

/// Whether `p` occurs in `s` at position `i`.
fn occurs_at_exec(s: &Vec<char>, p: &Vec<char>, i: usize) -> (b: bool)
    ensures
        b == occurs_at(s@, p@, i as int),
{
    if p.len() > s.len() || i > s.len() - p.len() {
        return false;
    }
    let mut k: usize = 0;
    while k < p.len()
        invariant
            i + p.len() <= s.len(),
            k <= p.len(),
            forall|j: int| 0 <= j < k ==> s@[i + j] == p@[j],
        decreases p.len() - k,
    {
        if s[i + k] != p[k] {
            assert(s@.subrange(i as int, i + p.len())[k as int] != p@[k as int]);
            return false;
        }
        k = k + 1;
    }
    assert(s@.subrange(i as int, i + p.len()) =~= p@);
    true
}

/// Whether `p` occurs anywhere in `s`.
pub fn contains(s: &str, p: &str) -> (b: bool)
    ensures
        b == contains_seq(s@, p@),
{
    let sv = chars_of(s);
    let pv = chars_of(p);
    let n = sv.len();
    let mut i: usize = 0;
    while i < n
        invariant
            sv@ == s@,
            pv@ == p@,
            n == s@.len(),
            i <= n,
            forall|j: int| 0 <= j < i ==> !occurs_at(s@, p@, j),
        decreases n - i,
    {
        if occurs_at_exec(&sv, &pv, i) {
            return true;
        }
        i = i + 1;
    }
    if occurs_at_exec(&sv, &pv, n) {
        return true;
    }
    assert forall|j: int| !occurs_at(s@, p@, j) by {
        if 0 <= j < n {
        }
    }
    false
}

proof fn lemma_replaced_step(s: Seq<char>, p: Seq<char>, r: Seq<char>, i: int)
    requires
        p.len() > 0,
        0 <= i < s.len(),
    ensures
        occurs_at(s, p, i) ==> replaced(s.skip(i), p, r) == r + replaced(
            s.skip(i + p.len()),
            p,
            r,
        ),
        !occurs_at(s, p, i) ==> replaced(s.skip(i), p, r) == seq![s[i]] + replaced(
            s.skip(i + 1),
            p,
            r,
        ),
{
    let t = s.skip(i);
    assert(occurs_at(s, p, i) == occurs_at(t, p, 0)) by {
        if i + p.len() <= s.len() {
            assert(t.subrange(0, p.len() as int) =~= s.subrange(i, i + p.len()));
        }
    }
    if i + p.len() <= s.len() {
        assert(t.skip(p.len() as int) =~= s.skip(i + p.len()));
    }
    assert(t.skip(1) =~= s.skip(i + 1));
}

/// Rust's `str::replace` for a non-empty pattern.
pub fn replace_all(s: &str, p: &str, r: &str) -> (out: String)
    requires
        p@.len() > 0,
    ensures
        out@ == replaced(s@, p@, r@),
{
    let sv = chars_of(s);
    let pv = chars_of(p);
    let n = sv.len();
    let mut out = String::new();
    let mut last: usize = 0;
    let mut i: usize = 0;
    assert(s@.skip(0) =~= s@);
    assert(s@.subrange(0, 0) =~= Seq::<char>::empty());
    assert(out@ + s@.subrange(0, 0) =~= Seq::<char>::empty());
    while i < n
        invariant
            sv@ == s@,
            pv@ == p@,
            n == s@.len(),
            p@.len() > 0,
            last <= i <= n,
            replaced(s@, p@, r@) == out@ + s@.subrange(last as int, i as int) + replaced(
                s@.skip(i as int),
                p@,
                r@,
            ),
        decreases n - i,
    {
        proof {
            lemma_replaced_step(s@, p@, r@, i as int);
        }
        if occurs_at_exec(&sv, &pv, i) {
            let run = s.substring_char(last, i);
            out.append(run);
            out.append(r);
            i = i + pv.len();
            last = i;
            assert(s@.subrange(i as int, i as int) =~= Seq::<char>::empty());
        } else {
            i = i + 1;
            assert(s@.subrange(last as int, i as int) =~= s@.subrange(last as int, i - 1)
                + seq![s@[i - 1]]);
        }
    }
    assert(replaced(s@.skip(n as int), p@, r@) == Seq::<char>::empty()) by {
        assert(s@.skip(n as int).len() == 0);
    }
    let run = s.substring_char(last, n);
    out.append(run);
    assert(out@ =~= replaced(s@, p@, r@));
    out
}

/// Whether the two strings hold the same characters.
pub fn str_eq(a: &str, b: &str) -> (eq: bool)
    ensures
        eq == (a@ == b@),
{
    let av = chars_of(a);
    let bv = chars_of(b);
    if av.len() != bv.len() {
        return false;
    }
    let mut i: usize = 0;
    while i < av.len()
        invariant
            av@ == a@,
            bv@ == b@,
            av.len() == bv.len(),
            i <= av.len(),
            forall|j: int| 0 <= j < i ==> av@[j] == bv@[j],
        decreases av.len() - i,
    {
        if av[i] != bv[i] {
            return false;
        }
        i = i + 1;
    }
    assert(av@ =~= bv@);
    true
}

/// The string `s` followed by `.tmp`: where a file is written before it
/// takes its final name.
pub fn with_tmp_suffix(s: &str) -> (t: String)
    ensures
        t@ == s@ + ".tmp"@,
{
    let mut t = String::from_str(s);
    t.append(".tmp");
    t
}

} // verus!
