//! Delimiter search over buffered bytes: what a match is, and which match is the first.

use std::collections::VecDeque;
use vstd::prelude::*;

verus! {

/// `term` stands in `hay` starting at index `at`.
pub open spec fn occurs_at(hay: Seq<u8>, term: Seq<u8>, at: int) -> bool {
    &&& 0 <= at
    &&& at + term.len() <= hay.len()
    &&& hay.subrange(at, at + term.len()) == term
}

/// `term` stands in `hay` at `at` and nowhere before it.
pub open spec fn is_first_match(hay: Seq<u8>, term: Seq<u8>, at: int) -> bool {
    &&& occurs_at(hay, term, at)
    &&& forall|earlier: int| 0 <= earlier < at ==> !occurs_at(hay, term, earlier)
}

/// `term` stands nowhere in `hay`.
pub open spec fn no_match(hay: Seq<u8>, term: Seq<u8>) -> bool {
    forall|at: int| !occurs_at(hay, term, at)
}

/// The index of the first occurrence of `term` in `hay`, if there is one.
pub open spec fn first_match(hay: Seq<u8>, term: Seq<u8>) -> Option<int> {
    if exists|at: int| is_first_match(hay, term, at) {
        Some(choose|at: int| is_first_match(hay, term, at))
    } else {
        None
    }
}

/// Two first matches of one term in one sequence are the same index.
pub proof fn lemma_first_match_unique(hay: Seq<u8>, term: Seq<u8>, a: int, b: int)
    requires
        is_first_match(hay, term, a),
        is_first_match(hay, term, b),
    ensures
        a == b,
{
    if a < b {
        assert(!occurs_at(hay, term, a));
    } else if b < a {
        assert(!occurs_at(hay, term, b));
    }
}

/// An index that satisfies `is_first_match` is what `first_match` names.
pub proof fn lemma_first_match_is(hay: Seq<u8>, term: Seq<u8>, at: int)
    requires
        is_first_match(hay, term, at),
    ensures
        first_match(hay, term) == Some(at),
{
    let chosen = choose|i: int| is_first_match(hay, term, i);
    lemma_first_match_unique(hay, term, at, chosen);
}

/// Where no index matches, `first_match` names none.
pub proof fn lemma_first_match_none(hay: Seq<u8>, term: Seq<u8>)
    requires
        no_match(hay, term),
    ensures
        first_match(hay, term) is None,
{
    assert forall|at: int| !is_first_match(hay, term, at) by {
        assert(!occurs_at(hay, term, at));
    }
}

/// `first_match` is `Some` exactly of a first match and `None` exactly when nothing matches.
pub proof fn lemma_first_match_sound(hay: Seq<u8>, term: Seq<u8>)
    ensures
        match first_match(hay, term) {
            Some(at) => is_first_match(hay, term, at),
            None => no_match(hay, term),
        },
{
    if first_match(hay, term) is None {
        assert forall|at: int| !occurs_at(hay, term, at) by {
            if occurs_at(hay, term, at) {
                lemma_least_match(hay, term, at);
            }
        }
    }
}

/// Below any match there is a first one.
proof fn lemma_least_match(hay: Seq<u8>, term: Seq<u8>, at: int)
    requires
        occurs_at(hay, term, at),
    ensures
        exists|first: int| is_first_match(hay, term, first),
    decreases at,
{
    if exists|earlier: int| 0 <= earlier < at && occurs_at(hay, term, earlier) {
        let earlier = choose|earlier: int| 0 <= earlier < at && occurs_at(hay, term, earlier);
        lemma_least_match(hay, term, earlier);
    } else {
        assert(is_first_match(hay, term, at));
    }
}

/// Whether `term` stands in `hay` at `at`, compared byte by byte.
pub fn window_matches(hay: &VecDeque<u8>, term: &[u8], at: usize) -> (same: bool)
    requires
        at + term@.len() <= hay@.len(),
    ensures
        same == occurs_at(hay@, term@, at as int),
{
    let len: usize = hay.len();
    let mut k: usize = 0;
    while k < term.len()
        invariant
            k <= term@.len(),
            len == hay@.len(),
            at + term@.len() <= hay@.len(),
            forall|j: int| 0 <= j < k ==> hay@[at + j] == term@[j],
        decreases term@.len() - k,
    {
        if hay[at + k] != term[k] {
            proof {
                let window = hay@.subrange(at as int, at + term@.len());
                assert(window[k as int] == hay@[at + k]);
            }
            return false;
        }
        k += 1;
    }
    assert(hay@.subrange(at as int, at + term@.len()) =~= term@);
    true
}

/// The first index at which `byte` stands in `hay`: one pass over the bytes.
pub fn find_byte(hay: &VecDeque<u8>, byte: u8) -> (found: Option<usize>)
    ensures
        found matches Some(at) ==> is_first_match(hay@, seq![byte], at as int),
        found is None ==> no_match(hay@, seq![byte]),
{
    let ghost term = seq![byte];
    let mut at: usize = 0;
    while at < hay.len()
        invariant
            at <= hay@.len(),
            term == seq![byte],
            forall|earlier: int| 0 <= earlier < at ==> !occurs_at(hay@, term, earlier),
        decreases hay@.len() - at,
    {
        if hay[at] == byte {
            assert(hay@.subrange(at as int, at + 1) =~= term);
            return Some(at);
        }
        proof {
            assert(hay@.subrange(at as int, at + 1)[0] == hay@[at as int]);
            assert(term[0] == byte);
        }
        at += 1;
    }
    assert forall|i: int| !occurs_at(hay@, term, i) by {
        if 0 <= i && i + 1 <= hay@.len() {
            assert(i < at);
        }
    }
    None
}

/// The first index at which `term` stands in `hay`: a window as long as `term`
/// moves over the bytes from the left and is compared at each position.
pub fn find_window(hay: &VecDeque<u8>, term: &[u8]) -> (found: Option<usize>)
    ensures
        found matches Some(at) ==> is_first_match(hay@, term@, at as int),
        found is None ==> no_match(hay@, term@),
{
    if term.len() > hay.len() {
        return None;
    }
    let last: usize = hay.len() - term.len();
    let mut at: usize = 0;
    loop
        invariant
            last == hay@.len() - term@.len(),
            at <= last,
            forall|earlier: int| 0 <= earlier < at ==> !occurs_at(hay@, term@, earlier),
        decreases last - at,
    {
        if window_matches(hay, term, at) {
            return Some(at);
        }
        if at == last {
            return None;
        }
        at += 1;
    }
}

/// The first index at which `term` stands in `hay`. A term of one byte is
/// looked for directly, a longer one with the moving window.
pub fn find_first(hay: &VecDeque<u8>, term: &[u8]) -> (found: Option<usize>)
    ensures
        match found {
            Some(at) => first_match(hay@, term@) == Some(at as int),
            None => first_match(hay@, term@) is None,
        },
{
    let found = if term.len() == 1 {
        assert(term@ =~= seq![term@[0]]);
        find_byte(hay, term[0])
    } else {
        find_window(hay, term)
    };
    proof {
        match found {
            Some(at) => lemma_first_match_is(hay@, term@, at as int),
            None => lemma_first_match_none(hay@, term@),
        }
    }
    found
}

} // verus!
