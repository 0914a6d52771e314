//! Comparisons of text by chars.
use vstd::prelude::*;

verus! {

/// Whether two texts hold the same chars.
pub fn same_text(a: &str, b: &str) -> (r: bool)
    ensures
        r == (a@ == b@),
{
    let n = a.unicode_len();
    if n != b.unicode_len() {
        return false;
    }
    let mut i: usize = 0;
    while i < n
        invariant
            n == a@.len(),
            n == b@.len(),
            i <= n,
            forall|j: int| 0 <= j < i ==> a@[j] == b@[j],
        decreases n - i,
    {
        if a.get_char(i) != b.get_char(i) {
            return false;
        }
        i = i + 1;
    }
    assert(a@ =~= b@);
    true
}

/// Whether `needle` occurs in `hay` starting at index `at`.
pub open spec fn occurs_at(hay: Seq<char>, needle: Seq<char>, at: int) -> bool {
    0 <= at && at + needle.len() <= hay.len() && hay.subrange(at, at + needle.len()) == needle
}

/// Whether `needle` occurs anywhere in `hay` (the empty text occurs in every text).
pub open spec fn contains(hay: Seq<char>, needle: Seq<char>) -> bool {
    exists|at: int| occurs_at(hay, needle, at)
}

/// The empty text occurs in every text.
pub proof fn lemma_empty_occurs(hay: Seq<char>)
    ensures
        contains(hay, Seq::empty()),
{
    assert(hay.subrange(0, 0) =~= Seq::<char>::empty());
    assert(occurs_at(hay, Seq::empty(), 0));
}

/// Whether `needle` occurs in `hay`.
pub fn contains_text(hay: &str, needle: &str) -> (r: bool)
    ensures
        r == contains(hay@, needle@),
{
    let n = hay.unicode_len();
    let m = needle.unicode_len();
    if m > n {
        assert forall|at: int| !occurs_at(hay@, needle@, at) by {}
        return false;
    }
    if m == 0 {
        assert(hay@.subrange(0, 0) =~= needle@);
        assert(occurs_at(hay@, needle@, 0));
        return true;
    }
    let mut at: usize = 0;
    while at <= n - m
        invariant
            n == hay@.len(),
            m == needle@.len(),
            0 < m <= n,
            at <= n - m + 1,
            forall|a: int| 0 <= a < at ==> !occurs_at(hay@, needle@, a),
        decreases n - m + 1 - at,
    {
        let mut j: usize = 0;
        let mut matched = true;
        while j < m
            invariant
                n == hay@.len(),
                m == needle@.len(),
                at + m <= n,
                j <= m,
                matched ==> forall|k: int| 0 <= k < j ==> hay@[at + k] == needle@[k],
                !matched ==> !occurs_at(hay@, needle@, at as int),
            decreases m - j,
        {
            if matched && hay.get_char(at + j) != needle.get_char(j) {
                matched = false;
                assert(hay@.subrange(at as int, at + m)[j as int] != needle@[j as int]);
            }
            j = j + 1;
        }
        if matched {
            assert(hay@.subrange(at as int, at + m) =~= needle@);
            assert(occurs_at(hay@, needle@, at as int));
            return true;
        }
        at = at + 1;
    }
    assert forall|a: int| !occurs_at(hay@, needle@, a) by {
        if 0 <= a && a + m <= n {
            assert(a < at);
        }
    }
    false
}

/// The lower-case form of a text, as `str::to_lowercase` gives it.
pub uninterp spec fn lower_of(s: Seq<char>) -> Seq<char>;

/// Relies on str::to_lowercase: the lower-case form depends on the chars alone, and
/// the empty text stays empty.
#[verifier::external_body]
pub(crate) fn lowercase(s: &str) -> (r: String)
    ensures
        r@ == lower_of(s@),
        s@.len() == 0 ==> r@.len() == 0,
{
    s.to_lowercase()
}

/// Whether a filter, already in lower case, occurs in one of three lower-case texts.
pub open spec fn matches_lowered(name: Seq<char>, code2: Seq<char>, code3: Seq<char>, filter: Seq<
    char,
>) -> bool {
    contains(name, filter) || contains(code2, filter) || contains(code3, filter)
}

/// Whether `filter` occurs in `name`, `code2` or `code3`, all given in lower case.
pub fn matches_lowercase(name: &str, code2: &str, code3: &str, filter: &str) -> (r: bool)
    ensures
        r == matches_lowered(name@, code2@, code3@, filter@),
{
    contains_text(name, filter) || contains_text(code2, filter) || contains_text(code3, filter)
}

/// Whether `filter` occurs, case aside, in a name or one of two codes.
pub open spec fn matches_any_case(name: Seq<char>, code2: Seq<char>, code3: Seq<char>, filter: Seq<
    char,
>) -> bool {
    matches_lowered(lower_of(name), lower_of(code2), lower_of(code3), lower_of(filter))
}

/// Whether `filter` occurs, case aside, in `name`, `code2` or `code3`.
pub fn matches_ignoring_case(name: &str, code2: &str, code3: &str, filter: &str) -> (r: bool)
    ensures
        r == matches_any_case(name@, code2@, code3@, filter@),
        filter@.len() == 0 ==> r,
{
    let ghost original = filter@;
    let filter = lowercase(filter);
    proof {
        if original.len() == 0 {
            assert(filter@ =~= Seq::<char>::empty());
            lemma_empty_occurs(lower_of(name@));
        }
    }
    let name = lowercase(name);
    let code2 = lowercase(code2);
    let code3 = lowercase(code3);
    matches_lowercase(name.as_str(), code2.as_str(), code3.as_str(), filter.as_str())
}

} // verus!
