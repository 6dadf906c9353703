//! Searching and splitting of texts.

use vstd::prelude::*;
use vstd::string::*;

verus! {

/// Whether `needle` stands in `hay` at the position `i`.
pub open spec fn occurs_at(hay: Seq<char>, needle: Seq<char>, i: int) -> bool {
    0 <= i && i + needle.len() <= hay.len() && hay.subrange(i, i + needle.len()) == needle
}

/// The first position at which `needle` stands in `hay`.
pub open spec fn first_occurrence(hay: Seq<char>, needle: Seq<char>) -> Option<int>
    decreases hay.len(),
{
    if hay.len() < needle.len() {
        None
    } else if hay.subrange(0, needle.len() as int) == needle {
        Some(0)
    } else if hay.len() == 0 {
        None
    } else {
        match first_occurrence(hay.drop_first(), needle) {
            Some(i) => Some(i + 1),
            None => None,
        }
    }
}

/// The first occurrence is an occurrence, and there is none before it; where
/// there is no first one, there is none at all.
pub proof fn lemma_first_occurrence(hay: Seq<char>, needle: Seq<char>)
    requires
        needle.len() > 0,
    ensures
        match first_occurrence(hay, needle) {
            Some(i) => occurs_at(hay, needle, i) && forall|j: int|
                0 <= j < i ==> !occurs_at(hay, needle, j),
            None => forall|j: int| !occurs_at(hay, needle, j),
        },
    decreases hay.len(),
{
    if hay.len() < needle.len() {
    } else if hay.subrange(0, needle.len() as int) == needle {
    } else {
        let rest = hay.drop_first();
        lemma_first_occurrence(rest, needle);
        assert forall|j: int| occurs_at(hay, needle, j) implies j >= 1 && occurs_at(
            rest,
            needle,
            j - 1,
        ) by {
            assert(rest.subrange(j - 1, j - 1 + needle.len()) =~= hay.subrange(
                j,
                j + needle.len(),
            ));
        }
        match first_occurrence(rest, needle) {
            Some(i) => {
                assert(hay.subrange(i + 1, i + 1 + needle.len()) =~= rest.subrange(
                    i,
                    i + needle.len(),
                ));
                assert forall|j: int| 0 <= j < i + 1 implies !occurs_at(hay, needle, j) by {
                    if occurs_at(hay, needle, j) {
                        assert(occurs_at(rest, needle, j - 1));
                    }
                }
            },
            None => {
                assert forall|j: int| !occurs_at(hay, needle, j) by {
                    if occurs_at(hay, needle, j) {
                        assert(occurs_at(rest, needle, j - 1));
                    }
                }
            },
        }
    }
}

/// Tells whether `needle` stands in `hay` at the position `i`.
pub fn stands_at(hay: &str, needle: &str, i: usize) -> (r: bool)
    ensures
        r == occurs_at(hay@, needle@, i as int),
{
    let n: usize = hay.unicode_len();
    let m: usize = needle.unicode_len();
    if m > n || i > n - m {
        return false;
    }
    let mut k: usize = 0;
    while k < m
        invariant
            0 <= k <= m,
            m == needle@.len(),
            n == hay@.len(),
            i + m <= hay@.len(),
            forall|q: int| 0 <= q < k ==> hay@[i + q] == needle@[q],
        decreases m - k,
    {
        if hay.get_char(i + k) != needle.get_char(k) {
            assert(hay@.subrange(i as int, i + m)[k as int] != needle@[k as int]);
            return false;
        }
        k = k + 1;
    }
    assert(hay@.subrange(i as int, i + m) =~= needle@);
    true
}

/// Finds the first position at which `needle` stands in `hay`.
pub fn find_text(hay: &str, needle: &str) -> (r: Option<usize>)
    ensures
        match r {
            Some(i) => first_occurrence(hay@, needle@) == Some(i as int) && i + needle@.len()
                <= hay@.len(),
            None => first_occurrence(hay@, needle@).is_none(),
        },
{
    let n: usize = hay.unicode_len();
    let m: usize = needle.unicode_len();
    if n < m {
        return None;
    }
    if m == 0 {
        assert(hay@.subrange(0, 0) =~= needle@);
        return Some(0);
    }
    let mut i: usize = 0;
    while i <= n - m
        invariant
            0 <= i <= n - m + 1,
            1 <= m <= n,
            n == hay@.len(),
            m == needle@.len(),
            forall|j: int| 0 <= j < i ==> !occurs_at(hay@, needle@, j),
        decreases n - m + 1 - i,
    {
        if stands_at(hay, needle, i) {
            proof {
                lemma_first_occurrence(hay@, needle@);
            }
            return Some(i);
        }
        i = i + 1;
    }
    proof {
        lemma_first_occurrence(hay@, needle@);
        if first_occurrence(hay@, needle@).is_some() {
            let f = first_occurrence(hay@, needle@).unwrap();
            assert(occurs_at(hay@, needle@, f));
            assert(f < i);
        }
    }
    None
}

/// The two parts of `hay` around the first occurrence of `needle`.
pub open spec fn split_at_first(hay: Seq<char>, needle: Seq<char>) -> Option<
    (Seq<char>, Seq<char>),
> {
    match first_occurrence(hay, needle) {
        Some(i) => Some((hay.subrange(0, i), hay.subrange(i + needle.len(), hay.len() as int))),
        None => None,
    }
}

/// Splits `hay` around the first occurrence of `needle`.
pub fn split_once<'a>(hay: &'a str, needle: &str) -> (r: Option<(&'a str, &'a str)>)
    ensures
        match r {
            Some((before, after)) => split_at_first(hay@, needle@) == Some((before@, after@)),
            None => split_at_first(hay@, needle@).is_none(),
        },
{
    match find_text(hay, needle) {
        None => None,
        Some(i) => {
            let n: usize = hay.unicode_len();
            let m: usize = needle.unicode_len();
            proof {
                if m > 0 {
                    lemma_first_occurrence(hay@, needle@);
                }
            }
            let before = hay.substring_char(0, i);
            let after = hay.substring_char(i + m, n);
            Some((before, after))
        },
    }
}

} // verus!
