//! Verified character-level string operations: equality, prefix and suffix
//! tests, first/last occurrence of a character, and splitting on a separator.

use vstd::prelude::*;
use vstd::string::StrSliceExecFns;

verus! {

/// `s` ends with `suffix`, character for character.
pub open spec fn spec_ends_with(s: Seq<char>, suffix: Seq<char>) -> bool {
    suffix.len() <= s.len() && (forall|j: int|
        0 <= j < suffix.len() ==> s[s.len() - suffix.len() + j] == suffix[j])
}

/// `s` starts with `prefix`, character for character.
pub open spec fn spec_has_prefix(s: Seq<char>, prefix: Seq<char>) -> bool {
    prefix.len() <= s.len() && (forall|j: int| 0 <= j < prefix.len() ==> s[j] == prefix[j])
}

/// Index of the first occurrence of `x` in `s`, or -1 when `s` has none.
pub open spec fn index_of_first<T>(s: Seq<T>, x: T) -> int
    decreases s.len(),
{
    if s.len() == 0 {
        -1
    } else if s[0] == x {
        0
    } else {
        let r = index_of_first(s.skip(1), x);
        if r < 0 {
            -1
        } else {
            r + 1
        }
    }
}

/// What `index_of_first` returns: -1 exactly when `x` is absent, otherwise
/// the position of the first occurrence.
pub proof fn lemma_index_of_first<T>(s: Seq<T>, x: T)
    ensures
        index_of_first(s, x) == -1 ==> (forall|i: int| 0 <= i < s.len() ==> s[i] != x),
        index_of_first(s, x) != -1 ==> {
            &&& 0 <= index_of_first(s, x) < s.len()
            &&& s[index_of_first(s, x)] == x
            &&& (forall|i: int| 0 <= i < index_of_first(s, x) ==> s[i] != x)
        },
    decreases s.len(),
{
    if s.len() > 0 && s[0] != x {
        let t = s.skip(1);
        lemma_index_of_first(t, x);
        assert(forall|i: int| 0 <= i < t.len() ==> t[i] == s[i + 1]);
        if index_of_first(t, x) == -1 {
            assert forall|i: int| 0 <= i < s.len() implies s[i] != x by {
                if i > 0 {
                    assert(t[i - 1] != x);
                }
            }
        } else {
            let r = index_of_first(t, x);
            assert(s[r + 1] == t[r]);
            assert forall|i: int| 0 <= i < r + 1 implies s[i] != x by {
                if i > 0 {
                    assert(t[i - 1] != x);
                }
            }
        }
    }
}

/// Index of the last occurrence of `x` in `s`, or -1 when `s` has none.
pub open spec fn index_of_last<T>(s: Seq<T>, x: T) -> int
    decreases s.len(),
{
    if s.len() == 0 {
        -1
    } else if s[s.len() - 1] == x {
        s.len() - 1
    } else {
        index_of_last(s.drop_last(), x)
    }
}

/// What `index_of_last` returns: -1 exactly when `x` is absent, otherwise
/// the position of the last occurrence.
pub proof fn lemma_index_of_last<T>(s: Seq<T>, x: T)
    ensures
        index_of_last(s, x) == -1 ==> (forall|i: int| 0 <= i < s.len() ==> s[i] != x),
        index_of_last(s, x) != -1 ==> {
            &&& 0 <= index_of_last(s, x) < s.len()
            &&& s[index_of_last(s, x)] == x
            &&& (forall|i: int| index_of_last(s, x) < i < s.len() ==> s[i] != x)
        },
    decreases s.len(),
{
    if s.len() > 0 && s[s.len() - 1] != x {
        let t = s.drop_last();
        lemma_index_of_last(t, x);
        assert(forall|i: int| 0 <= i < t.len() ==> t[i] == s[i]);
        if index_of_last(t, x) == -1 {
            assert forall|i: int| 0 <= i < s.len() implies s[i] != x by {
                if i < s.len() - 1 {
                    assert(t[i] != x);
                }
            }
        } else {
            let r = index_of_last(t, x);
            assert(s[r] == t[r]);
            assert forall|i: int| r < i < s.len() implies s[i] != x by {
                if i < s.len() - 1 {
                    assert(t[i] != x);
                }
            }
        }
    }
}

/// The pieces of `s` between occurrences of the separator `c`, in order.
/// A string without the separator is one piece; every separator closes the
/// piece before it, so `n` separators always give `n + 1` pieces.
pub open spec fn split_on(s: Seq<char>, c: char) -> Seq<Seq<char>>
    decreases s.len(),
    via split_on_decreases
{
    let idx = index_of_first(s, c);
    if idx < 0 {
        seq![s]
    } else {
        seq![s.take(idx)] + split_on(s.skip(idx + 1), c)
    }
}

#[via_fn]
proof fn split_on_decreases(s: Seq<char>, c: char) {
    lemma_index_of_first(s, c);
}

/// Character-for-character equality of two string slices.
pub fn str_eq(a: &str, b: &str) -> (r: bool)
    ensures
        r == (a@ == b@),
{
    let na: usize = a.unicode_len();
    let nb: usize = b.unicode_len();
    if na != nb {
        return false;
    }
    let mut i: usize = 0;
    while i < na
        invariant
            na == a@.len(),
            na == b@.len(),
            0 <= i <= na,
            forall|j: int| 0 <= j < i ==> a@[j] == b@[j],
        decreases na - i,
    {
        if a.get_char(i) != b.get_char(i) {
            return false;
        }
        i = i + 1;
    }
    proof {
        assert(a@ =~= b@);
    }
    true
}

/// Suffix test on string slices, against `spec_ends_with`.
pub fn str_ends_with(s: &str, suffix: &str) -> (r: bool)
    ensures
        r == spec_ends_with(s@, suffix@),
{
    let n: usize = s.unicode_len();
    let m: usize = suffix.unicode_len();
    if m > n {
        return false;
    }
    let mut j: usize = 0;
    while j < m
        invariant
            n == s@.len(),
            m == suffix@.len(),
            m <= n,
            0 <= j <= m,
            forall|k: int| 0 <= k < j ==> s@[n - m + k] == suffix@[k],
        decreases m - j,
    {
        if s.get_char(n - m + j) != suffix.get_char(j) {
            return false;
        }
        j = j + 1;
    }
    true
}

/// Prefix test on string slices, against `spec_has_prefix`.
pub fn str_has_prefix(s: &str, prefix: &str) -> (r: bool)
    ensures
        r == spec_has_prefix(s@, prefix@),
{
    let n: usize = s.unicode_len();
    let m: usize = prefix.unicode_len();
    if m > n {
        return false;
    }
    let mut j: usize = 0;
    while j < m
        invariant
            n == s@.len(),
            m == prefix@.len(),
            m <= n,
            0 <= j <= m,
            forall|k: int| 0 <= k < j ==> s@[k] == prefix@[k],
        decreases m - j,
    {
        if s.get_char(j) != prefix.get_char(j) {
            return false;
        }
        j = j + 1;
    }
    true
}

/// Splits `s` on every occurrence of `c`, against `split_on`.
pub fn split_str(s: &str, c: char) -> (r: Vec<String>)
    ensures
        r.deep_view() == split_on(s@, c),
{
    let n: usize = s.unicode_len();
    let mut parts: Vec<String> = Vec::new();
    let mut start: usize = 0;
    let mut i: usize = 0;
    proof {
        assert(s@.skip(0) =~= s@);
        assert(parts.deep_view() + split_on(s@, c) =~= split_on(s@, c));
    }
    while i < n
        invariant
            n == s@.len(),
            0 <= start <= i <= n,
            forall|k: int| start <= k < i ==> s@[k] != c,
            parts.deep_view() + split_on(s@.skip(start as int), c) == split_on(s@, c),
        decreases n - i,
    {
        if s.get_char(i) == c {
            let ghost t = s@.skip(start as int);
            proof {
                lemma_index_of_first(t, c);
                assert(forall|k: int| 0 <= k < t.len() ==> t[k] == s@[k + start]);
                assert(t[i - start] == c);
                assert(index_of_first(t, c) == i - start);
                assert(t.take(i - start) =~= s@.subrange(start as int, i as int));
                assert(t.skip(i - start + 1) =~= s@.skip(i + 1));
            }
            let piece_slice = s.substring_char(start, i);
            let piece = piece_slice.to_owned();
            let ghost before = parts.deep_view();
            parts.push(piece);
            proof {
                assert(parts.deep_view() =~= before.push(piece@));
                assert(before.push(piece@) + split_on(s@.skip(i + 1), c)
                    =~= before + split_on(t, c));
            }
            start = i + 1;
        }
        i = i + 1;
    }
    let ghost t = s@.skip(start as int);
    proof {
        lemma_index_of_first(t, c);
        assert(forall|k: int| 0 <= k < t.len() ==> t[k] == s@[k + start]);
        assert(index_of_first(t, c) == -1);
        assert(t =~= s@.subrange(start as int, n as int));
    }
    let last_slice = s.substring_char(start, n);
    let last = last_slice.to_owned();
    let ghost before = parts.deep_view();
    parts.push(last);
    proof {
        assert(parts.deep_view() =~= before.push(last@));
        assert(before.push(last@) + Seq::<Seq<char>>::empty() =~= before + seq![t]);
        assert(split_on(t, c) == seq![t]);
        assert(parts.deep_view() =~= split_on(s@, c));
    }
    parts
}

/// The part of `s` after its last colon; `s` itself when it has no colon.
/// A namespace-qualified class reference keeps only its short name.
pub open spec fn spec_strip_qualifier(s: Seq<char>) -> Seq<char> {
    let i = index_of_last(s, ':');
    if i < 0 {
        s
    } else {
        s.skip(i + 1)
    }
}

/// Strips a namespace qualifier, against `spec_strip_qualifier`.
pub fn strip_qualifier(s: &str) -> (r: String)
    ensures
        r@ == spec_strip_qualifier(s@),
{
    let n: usize = s.unicode_len();
    let mut i: usize = n;
    while i > 0
        invariant
            n == s@.len(),
            0 <= i <= n,
            forall|k: int| i <= k < n ==> s@[k] != ':',
        decreases i,
    {
        if s.get_char(i - 1) == ':' {
            proof {
                lemma_index_of_last(s@, ':');
                assert(index_of_last(s@, ':') == i - 1);
                assert(s@.skip(i as int) =~= s@.subrange(i as int, n as int));
            }
            let tail = s.substring_char(i, n);
            return tail.to_owned();
        }
        i = i - 1;
    }
    proof {
        lemma_index_of_last(s@, ':');
        assert(index_of_last(s@, ':') == -1);
    }
    s.to_owned()
}

} // verus!
