//! Character-level helpers on strings: containment, first/last occurrence
//! of a character, and string equality, each with an exact specification
//! over the `Seq<char>` view.

use vstd::prelude::*;
use vstd::string::StrSliceExecFns;

verus! {

/// True when `c` occurs somewhere in `s`.
pub open spec fn seq_contains_char(s: Seq<char>, c: char) -> bool {
    exists|i: int| 0 <= i < s.len() && s[i] == c
}

/// Index of the last occurrence of `c` in `s`, or -1 when absent.
pub open spec fn find_last(s: Seq<char>, c: char) -> int
    decreases s.len(),
{
    if s.len() == 0 {
        -1
    } else if s[s.len() - 1] == c {
        s.len() - 1
    } else {
        find_last(s.drop_last(), c)
    }
}

/// Index of the first occurrence of `c` in `s`, or -1 when absent.
pub open spec fn find_first(s: Seq<char>, c: char) -> int
    decreases s.len(),
{
    if s.len() == 0 {
        -1
    } else if s[0] == c {
        0
    } else if find_first(s.subrange(1, s.len() as int), c) == -1 {
        -1
    } else {
        1 + find_first(s.subrange(1, s.len() as int), c)
    }
}

/// `find_last` returns -1 exactly when `c` is absent; otherwise it returns
/// the greatest index holding `c`.
pub proof fn lemma_find_last_props(s: Seq<char>, c: char)
    ensures
        find_last(s, c) == -1 <==> !seq_contains_char(s, c),
        find_last(s, c) != -1 ==> 0 <= find_last(s, c) < s.len() && s[find_last(s, c)] == c
            && (forall|i: int| find_last(s, c) < i < s.len() ==> s[i] != c),
    decreases s.len(),
{
    if s.len() > 0 && s[s.len() - 1] != c {
        let t = s.drop_last();
        lemma_find_last_props(t, c);
        assert(forall|i: int| 0 <= i < s.len() - 1 ==> t[i] == s[i]);
        if find_last(s, c) == -1 {
            assert forall|i: int| 0 <= i < s.len() implies s[i] != c by {
                if i < s.len() - 1 {
                    assert(t[i] != c);
                }
            }
        } else {
            let k = find_last(s, c);
            assert(find_last(t, c) == k);
            assert(t[k] == c);
            assert forall|i: int| k < i < s.len() implies s[i] != c by {
                if i < s.len() - 1 {
                    assert(t[i] != c);
                }
            }
            assert(seq_contains_char(s, c)) by {
                assert(s[k] == c);
            }
        }
        if seq_contains_char(s, c) {
            let w = choose|i: int| 0 <= i < s.len() && s[i] == c;
            assert(t[w] == c);
            assert(seq_contains_char(t, c));
        }
    }
}

/// `find_last` is determined by any witness index that holds `c` with no
/// later occurrence.
pub proof fn lemma_find_last_is(s: Seq<char>, c: char, k: int)
    requires
        0 <= k < s.len(),
        s[k] == c,
        forall|i: int| k < i < s.len() ==> s[i] != c,
    ensures
        find_last(s, c) == k,
    decreases s.len(),
{
    if s.len() - 1 != k {
        lemma_find_last_is(s.drop_last(), c, k);
    }
}

/// `find_first` returns -1 exactly when `c` is absent; otherwise it returns
/// the least index holding `c`.
pub proof fn lemma_find_first_props(s: Seq<char>, c: char)
    ensures
        find_first(s, c) == -1 <==> !seq_contains_char(s, c),
        find_first(s, c) != -1 ==> 0 <= find_first(s, c) < s.len() && s[find_first(s, c)] == c
            && (forall|i: int| 0 <= i < find_first(s, c) ==> s[i] != c),
    decreases s.len(),
{
    if s.len() > 0 && s[0] != c {
        let t = s.subrange(1, s.len() as int);
        lemma_find_first_props(t, c);
        if find_first(t, c) == -1 {
            assert forall|i: int| 0 <= i < s.len() implies s[i] != c by {
                if i > 0 {
                    assert(t[i - 1] == s[i]);
                }
            }
        } else {
            assert forall|i: int| 0 <= i < find_first(s, c) implies s[i] != c by {
                if i > 0 {
                    assert(t[i - 1] == s[i]);
                }
            }
        }
    }
}

/// `find_first` is determined by any witness index that holds `c` with no
/// earlier occurrence.
pub proof fn lemma_find_first_is(s: Seq<char>, c: char, k: int)
    requires
        0 <= k < s.len(),
        s[k] == c,
        forall|i: int| 0 <= i < k ==> s[i] != c,
    ensures
        find_first(s, c) == k,
    decreases s.len(),
{
    if k != 0 {
        let t = s.subrange(1, s.len() as int);
        assert(t[k - 1] == c);
        assert forall|i: int| 0 <= i < k - 1 implies t[i] != c by {
            assert(t[i] == s[i + 1]);
        }
        lemma_find_first_is(t, c, k - 1);
    }
}

/// Whether `c` occurs in `s`.
pub fn str_contains_char(s: &str, c: char) -> (r: bool)
    ensures
        r == seq_contains_char(s@, c),
{
    let n = s.unicode_len();
    let mut i: usize = 0;
    while i < n
        invariant
            0 <= i <= n,
            n == s@.len(),
            forall|j: int| 0 <= j < i ==> s@[j] != c,
        decreases n - i,
    {
        if s.get_char(i) == c {
            return true;
        }
        i = i + 1;
    }
    false
}

/// Index of the last occurrence of `c` in `s`, if any.
pub fn str_find_last(s: &str, c: char) -> (r: Option<usize>)
    ensures
        match r {
            Some(i) => find_last(s@, c) == i as int,
            None => find_last(s@, c) == -1,
        },
{
    let n = s.unicode_len();
    let mut i: usize = n;
    while i > 0
        invariant
            0 <= i <= n,
            n == s@.len(),
            forall|j: int| i <= j < n ==> s@[j] != c,
        decreases i,
    {
        i = i - 1;
        if s.get_char(i) == c {
            proof {
                lemma_find_last_is(s@, c, i as int);
            }
            return Some(i);
        }
    }
    proof {
        lemma_find_last_props(s@, c);
    }
    None
}

/// Index of the first occurrence of `c` in `s`, if any.
pub fn str_find_first(s: &str, c: char) -> (r: Option<usize>)
    ensures
        match r {
            Some(i) => find_first(s@, c) == i as int,
            None => find_first(s@, c) == -1,
        },
{
    let n = s.unicode_len();
    let mut i: usize = 0;
    while i < n
        invariant
            0 <= i <= n,
            n == s@.len(),
            forall|j: int| 0 <= j < i ==> s@[j] != c,
        decreases n - i,
    {
        if s.get_char(i) == c {
            proof {
                lemma_find_first_is(s@, c, i as int);
            }
            return Some(i);
        }
        i = i + 1;
    }
    proof {
        lemma_find_first_props(s@, c);
    }
    None
}

/// Whether two string slices hold the same characters.
pub fn str_eq(a: &str, b: &str) -> (r: bool)
    ensures
        r == (a@ == b@),
{
    let x = a.to_owned();
    let y = b.to_owned();
    x == y
}

} // verus!
