//! Character-level helpers on strings: equality, prefix tests, and
//! replacement of every occurrence of a pattern.

use vstd::prelude::*;

verus! {

/// `s` with every occurrence of `pat` replaced by `rep`, scanning from the
/// left and never re-examining replaced text; the empty pattern replaces
/// nothing.
pub open spec fn replace_all_spec(s: Seq<char>, pat: Seq<char>, rep: Seq<char>) -> Seq<char>
    decreases s.len(),
{
    if pat.len() == 0 {
        s
    } else if s.len() < pat.len() {
        s
    } else if s.subrange(0, pat.len() as int) == pat {
        rep + replace_all_spec(s.skip(pat.len() as int), pat, rep)
    } else {
        seq![s[0]] + replace_all_spec(s.skip(1), pat, rep)
    }
}

/// Exact character-for-character equality of two string slices.
pub fn str_eq(a: &str, b: &str) -> (r: bool)
    ensures
        r == (a@ == b@),
{
    let a_len = a.unicode_len();
    let b_len = b.unicode_len();
    if a_len != b_len {
        return false;
    }
    let mut i: usize = 0;
    while i < a_len
        invariant
            i <= a_len,
            a_len == a@.len(),
            a_len == b@.len(),
            forall|k: int| 0 <= k < i ==> a@[k] == b@[k],
        decreases a_len - i,
    {
        if a.get_char(i) != b.get_char(i) {
            return false;
        }
        i = i + 1;
    }
    proof {
        assert(a@ =~= b@);
    }
    true
}

/// Whether `prefix@` is a prefix of `s@`.
pub fn str_starts_with(s: &str, prefix: &str) -> (r: bool)
    ensures
        r == prefix@.is_prefix_of(s@),
{
    let s_len = s.unicode_len();
    let p_len = prefix.unicode_len();
    if p_len > s_len {
        return false;
    }
    let mut i: usize = 0;
    while i < p_len
        invariant
            i <= p_len,
            p_len == prefix@.len(),
            s_len == s@.len(),
            p_len <= s_len,
            forall|k: int| 0 <= k < i ==> s@[k] == prefix@[k],
        decreases p_len - i,
    {
        if s.get_char(i) != prefix.get_char(i) {
            return false;
        }
        i = i + 1;
    }
    proof {
        assert(s@.subrange(0, p_len as int) =~= prefix@);
    }
    true
}

/// A string in which the pattern's first character never occurs is left
/// unchanged by replacement.
pub proof fn lemma_replace_all_spec_absent(s: Seq<char>, pat: Seq<char>, rep: Seq<char>)
    requires
        pat.len() > 0,
        forall|k: int| 0 <= k < s.len() ==> s[k] != pat[0],
    ensures
        replace_all_spec(s, pat, rep) == s,
    decreases s.len(),
{
    if s.len() >= pat.len() {
        assert(s.subrange(0, pat.len() as int)[0] == s[0]);
        assert(s.subrange(0, pat.len() as int) != pat);
        assert(forall|k: int| 0 <= k < s.skip(1).len() ==> s.skip(1)[k] != pat[0]);
        lemma_replace_all_spec_absent(s.skip(1), pat, rep);
        assert(seq![s[0]] + s.skip(1) =~= s);
    }
}

/// Whether `pat@` occurs in `s@` starting at character position `at`.
fn match_at(s: &str, at: usize, pat: &str) -> (r: bool)
    requires
        at + pat@.len() <= s@.len(),
    ensures
        r == (s@.subrange(at as int, at + pat@.len()) == pat@),
{
    let s_len = s.unicode_len();
    let p_len = pat.unicode_len();
    let mut i: usize = 0;
    while i < p_len
        invariant
            i <= p_len,
            p_len == pat@.len(),
            s_len == s@.len(),
            at + p_len <= s_len,
            forall|k: int| 0 <= k < i ==> s@[at + k] == pat@[k],
        decreases p_len - i,
    {
        if s.get_char(at + i) != pat.get_char(i) {
            proof {
                assert(s@.subrange(at as int, at + pat@.len())[i as int] != pat@[i as int]);
            }
            return false;
        }
        i = i + 1;
    }
    proof {
        assert(s@.subrange(at as int, at + pat@.len()) =~= pat@);
    }
    true
}

/// Replaces every occurrence of `pat` in `s` by `rep`, scanning from the left.
pub fn replace_all(s: &str, pat: &str, rep: &str) -> (r: String)
    ensures
        r@ == replace_all_spec(s@, pat@, rep@),
{
    let n: usize = s.unicode_len();
    let m: usize = pat.unicode_len();
    let mut out = String::new();
    let mut i: usize = 0;
    proof {
        assert(s@.skip(0) =~= s@);
    }
    while i < n
        invariant
            i <= n,
            n == s@.len(),
            m == pat@.len(),
            replace_all_spec(s@, pat@, rep@) == out@ + replace_all_spec(
                s@.skip(i as int),
                pat@,
                rep@,
            ),
        decreases n - i,
    {
        let ghost suffix = s@.skip(i as int);
        if m > 0 && m <= n - i && match_at(s, i, pat) {
            out.append(rep);
            i = i + m;
            proof {
                assert(suffix.subrange(0, m as int) =~= s@.subrange(i - m, i as int));
                assert(suffix.skip(m as int) =~= s@.skip(i as int));
                assert(out@ + replace_all_spec(s@.skip(i as int), pat@, rep@) =~= replace_all_spec(
                    s@,
                    pat@,
                    rep@,
                ));
            }
        } else {
            let piece = s.substring_char(i, i + 1);
            out.append(piece);
            i = i + 1;
            proof {
                assert(suffix.skip(1) =~= s@.skip(i as int));
                if m > 0 && suffix.len() >= m {
                    assert(suffix.subrange(0, m as int) =~= s@.subrange(i - 1, i - 1 + m));
                    assert(replace_all_spec(suffix, pat@, rep@) == seq![suffix[0]]
                        + replace_all_spec(suffix.skip(1), pat@, rep@));
                } else {
                    assert(replace_all_spec(suffix, pat@, rep@) == suffix);
                    assert(replace_all_spec(suffix.skip(1), pat@, rep@) == suffix.skip(1));
                    assert(suffix =~= seq![suffix[0]] + suffix.skip(1));
                }
                assert(out@ + replace_all_spec(s@.skip(i as int), pat@, rep@) =~= replace_all_spec(
                    s@,
                    pat@,
                    rep@,
                ));
            }
        }
    }
    proof {
        assert(s@.skip(n as int) =~= Seq::<char>::empty());
        assert(out@ =~= replace_all_spec(s@, pat@, rep@));
    }
    out
}

} // verus!
