//! Character-level string operations with exact specifications.
use vstd::prelude::*;

verus! {

/// `p` occurs in `s` starting at position `i`.
pub open spec fn occurs_at(s: Seq<char>, p: Seq<char>, i: int) -> bool {
    0 <= i && i + p.len() <= s.len() && s.subrange(i, i + p.len()) == p
}

/// `p` occurs somewhere in `s`.
pub open spec fn has_substring(s: Seq<char>, p: Seq<char>) -> bool {
    exists|i: int| occurs_at(s, p, i)
}

pub open spec fn has_prefix(s: Seq<char>, p: Seq<char>) -> bool {
    occurs_at(s, p, 0)
}

pub open spec fn has_suffix(s: Seq<char>, p: Seq<char>) -> bool {
    occurs_at(s, p, s.len() - p.len())
}

/// `s` with every leading `c` removed.
pub open spec fn strip_leading(s: Seq<char>, c: char) -> Seq<char>
    decreases s.len(),
{
    if s.len() > 0 && s[0] == c {
        strip_leading(s.drop_first(), c)
    } else {
        s
    }
}

/// `s` with each occurrence of a non-empty `p`, taken from the left without
/// overlap, replaced by `r`.
pub open spec fn replace_all(s: Seq<char>, p: Seq<char>, r: Seq<char>) -> Seq<char>
    decreases s.len(),
{
    if p.len() == 0 || s.len() < p.len() {
        s
    } else if s.take(p.len() as int) == p {
        r + replace_all(s.skip(p.len() as int), p, r)
    } else {
        seq![s[0]] + replace_all(s.drop_first(), p, r)
    }
}

/// Every character of `s`, in order.
pub fn chars_of(s: &str) -> (r: Vec<char>)
    ensures
        r@ == s@,
{
    let mut out: Vec<char> = Vec::new();
    for c in it: s.chars()
        invariant
            it.seq() == s@,
            out@ == s@.take(it.index() as int),
    {
        proof {
            assert(s@.take(it.index() as int).push(c) =~= s@.take(it.index() + 1));
        }
        out.push(c);
    }
    proof {
        assert(s@.take(s@.len() as int) =~= s@);
    }
    out
}

/// Whether `p` occurs in `s` at position `i`.
fn occurs_at_exec(s: &Vec<char>, p: &Vec<char>, i: usize) -> (r: bool)
    ensures
        r == occurs_at(s@, p@, i as int),
{
    if i > s.len() || p.len() > s.len() - i {
        return false;
    }
    let mut j: usize = 0;
    while j < p.len()
        invariant
            i + p.len() <= s.len(),
            j <= p.len(),
            forall|k: int| 0 <= k < j ==> s@[i + k] == p@[k],
        decreases p.len() - j,
    {
        if s[i + j] != p[j] {
            proof {
                assert(s@.subrange(i as int, i + p.len())[j as int] != p@[j as int]);
            }
            return false;
        }
        j += 1;
    }
    proof {
        assert(s@.subrange(i as int, i + p.len()) =~= p@);
    }
    true
}

/// Whether `p` occurs anywhere in `s`.
pub fn contains(s: &str, p: &str) -> (r: bool)
    ensures
        r == has_substring(s@, p@),
{
    let sc = chars_of(s);
    let pc = chars_of(p);
    if pc.len() == 0 {
        proof {
            assert(s@.subrange(0, 0) =~= p@);
            assert(occurs_at(s@, p@, 0));
        }
        return true;
    }
    let mut i: usize = 0;
    while pc.len() <= sc.len() - i
        invariant
            sc@ == s@,
            pc@ == p@,
            0 < pc.len(),
            i <= sc.len(),
            forall|k: int| 0 <= k < i ==> !occurs_at(s@, p@, k),
        decreases sc.len() - i,
    {
        if occurs_at_exec(&sc, &pc, i) {
            proof {
                assert(occurs_at(s@, p@, i as int));
            }
            return true;
        }
        i += 1;
    }
    false
}

/// Whether `s` begins with `p`.
pub fn starts_with(s: &str, p: &str) -> (r: bool)
    ensures
        r == has_prefix(s@, p@),
{
    let sc = chars_of(s);
    let pc = chars_of(p);
    occurs_at_exec(&sc, &pc, 0)
}

/// Whether `s` ends with `p`.
pub fn ends_with(s: &str, p: &str) -> (r: bool)
    ensures
        r == has_suffix(s@, p@),
{
    let sc = chars_of(s);
    let pc = chars_of(p);
    if pc.len() > sc.len() {
        return false;
    }
    occurs_at_exec(&sc, &pc, sc.len() - pc.len())
}

/// Whether `s` and `t` hold the same characters.
pub fn str_eq(s: &str, t: &str) -> (r: bool)
    ensures
        r == (s@ == t@),
{
    let sc = chars_of(s);
    let tc = chars_of(t);
    if sc.len() != tc.len() {
        return false;
    }
    let b = occurs_at_exec(&sc, &tc, 0);
    proof {
        assert(s@ =~= s@.subrange(0, t@.len() as int));
    }
    b
}

proof fn lemma_strip_leading_skip(s: Seq<char>, c: char, i: int)
    requires
        0 <= i <= s.len(),
        forall|k: int| 0 <= k < i ==> s[k] == c,
    ensures
        strip_leading(s, c) == strip_leading(s.skip(i), c),
    decreases i,
{
    if i > 0 {
        assert(s.skip(1) =~= s.drop_first());
        assert(s.drop_first().skip(i - 1) =~= s.skip(i));
        lemma_strip_leading_skip(s.drop_first(), c, i - 1);
    } else {
        assert(s.skip(0) =~= s);
    }
}

/// `s` without its leading `c` characters.
pub fn trim_start_char(s: &str, c: char) -> (r: &str)
    ensures
        r@ == strip_leading(s@, c),
{
    let sc = chars_of(s);
    let mut i: usize = 0;
    while i < sc.len() && sc[i] == c
        invariant
            sc@ == s@,
            i <= sc.len(),
            forall|k: int| 0 <= k < i ==> s@[k] == c,
        decreases sc.len() - i,
    {
        i += 1;
    }
    proof {
        lemma_strip_leading_skip(s@, c, i as int);
        assert(s@.subrange(i as int, s@.len() as int) =~= s@.skip(i as int));
    }
    s.substring_char(i, sc.len())
}

proof fn lemma_replace_step_match(s: Seq<char>, p: Seq<char>, r: Seq<char>, i: int)
    requires
        0 <= i,
        occurs_at(s, p, i),
        p.len() > 0,
    ensures
        replace_all(s.skip(i), p, r) == r + replace_all(s.skip(i + p.len()), p, r),
{
    assert(s.skip(i).take(p.len() as int) =~= s.subrange(i, i + p.len()));
    assert(s.skip(i).skip(p.len() as int) =~= s.skip(i + p.len()));
}

proof fn lemma_replace_step_other(s: Seq<char>, p: Seq<char>, r: Seq<char>, i: int)
    requires
        0 <= i < s.len(),
        !occurs_at(s, p, i),
        p.len() > 0,
    ensures
        replace_all(s.skip(i), p, r) == seq![s[i]] + replace_all(s.skip(i + 1), p, r),
{
    assert(s.skip(i).drop_first() =~= s.skip(i + 1));
    if s.skip(i).len() < p.len() {
        assert(s.skip(i + 1).len() < p.len());
        assert(s.skip(i) =~= seq![s[i]] + s.skip(i + 1));
    } else {
        assert(s.skip(i).take(p.len() as int) =~= s.subrange(i, i + p.len()));
    }
}

/// `s` with each occurrence of `p`, taken from the left without overlap,
/// replaced by `rep`; `s` itself when `p` is empty.
pub fn replace(s: &str, p: &str, rep: &str) -> (r: String)
    ensures
        r@ == replace_all(s@, p@, rep@),
{
    let sc = chars_of(s);
    let pc = chars_of(p);
    if pc.len() == 0 {
        return String::from_str(s);
    }
    let mut out = String::new();
    let mut start: usize = 0;
    let mut i: usize = 0;
    proof {
        assert(s@.skip(0) =~= s@);
        assert(out@ + s@.subrange(0, 0) + s@.skip(0) =~= s@.skip(0));
    }
    while i < sc.len()
        invariant
            sc@ == s@,
            pc@ == p@,
            pc.len() > 0,
            start <= i <= sc.len(),
            out@ + s@.subrange(start as int, i as int) + replace_all(s@.skip(i as int), p@, rep@)
                == replace_all(s@, p@, rep@),
        decreases sc.len() - i,
    {
        if pc.len() <= sc.len() - i && occurs_at_exec(&sc, &pc, i) {
            proof {
                lemma_replace_step_match(s@, p@, rep@, i as int);
            }
            let ghost before = out@;
            out.append(s.substring_char(start, i));
            out.append(rep);
            proof {
                assert(out@ + s@.subrange(i + p@.len(), i + p@.len()) + replace_all(
                    s@.skip(i + p@.len()),
                    p@,
                    rep@,
                ) =~= before + s@.subrange(start as int, i as int) + (rep@ + replace_all(
                    s@.skip(i + p@.len()),
                    p@,
                    rep@,
                )));
            }
            i = i + pc.len();
            start = i;
        } else {
            proof {
                lemma_replace_step_other(s@, p@, rep@, i as int);
                assert(out@ + s@.subrange(start as int, i + 1) + replace_all(
                    s@.skip(i + 1),
                    p@,
                    rep@,
                ) =~= out@ + s@.subrange(start as int, i as int) + (seq![s@[i as int]]
                    + replace_all(s@.skip(i + 1), p@, rep@)));
            }
            i = i + 1;
        }
    }
    proof {
        assert(s@.skip(i as int) =~= Seq::<char>::empty());
        assert(replace_all(s@.skip(i as int), p@, rep@) == s@.skip(i as int));
        assert(s@.subrange(start as int, i as int) + Seq::<char>::empty() =~= s@.subrange(
            start as int,
            i as int,
        ));
    }
    out.append(s.substring_char(start, sc.len()));
    out
}

} // verus!
