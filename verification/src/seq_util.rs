//! Facts about sequences without repeated elements.

use vstd::prelude::*;

verus! {

/// Inserting an element that is not yet there keeps a sequence free of
/// repetitions and adds that element alone.
pub proof fn lemma_insert_fresh<T>(s: Seq<T>, at: int, x: T)
    requires
        s.no_duplicates(),
        !s.contains(x),
        0 <= at <= s.len(),
    ensures
        s.insert(at, x).no_duplicates(),
        forall|y: T| #[trigger] s.insert(at, x).contains(y) <==> (y == x || s.contains(y)),
{
    let n = s.insert(at, x);
    assert forall|y: T| #[trigger] n.contains(y) <==> (y == x || s.contains(y)) by {
        if n.contains(y) {
            let i = choose|i: int| 0 <= i < n.len() && n[i] == y;
            if i < at {
                assert(s[i] == y);
            } else if i > at {
                assert(s[i - 1] == y);
            }
        }
        if s.contains(y) {
            let i = choose|i: int| 0 <= i < s.len() && s[i] == y;
            if i < at {
                assert(n[i] == y);
            } else {
                assert(n[i + 1] == y);
            }
        }
        if y == x {
            assert(n[at] == y);
        }
    }
    assert forall|i: int, j: int| 0 <= i < n.len() && 0 <= j < n.len() && i != j implies n[i]
        != n[j] by {
        let a = if i < at {
            i
        } else {
            i - 1
        };
        let b = if j < at {
            j
        } else {
            j - 1
        };
        if i == at {
            assert(s.contains(s[b]));
        } else if j == at {
            assert(s.contains(s[a]));
        } else {
            assert(n[i] == s[a]);
            assert(n[j] == s[b]);
        }
    }
}

/// Taking one element out of a sequence without repetitions removes that
/// element alone.
pub proof fn lemma_remove_at<T>(s: Seq<T>, at: int)
    requires
        s.no_duplicates(),
        0 <= at < s.len(),
    ensures
        s.remove(at).no_duplicates(),
        !s.remove(at).contains(s[at]),
        forall|y: T| #[trigger] s.remove(at).contains(y) <==> (y != s[at] && s.contains(y)),
{
    let n = s.remove(at);
    assert forall|y: T| #[trigger] n.contains(y) <==> (y != s[at] && s.contains(y)) by {
        if n.contains(y) {
            let i = choose|i: int| 0 <= i < n.len() && n[i] == y;
            if i < at {
                assert(s[i] == y);
            } else {
                assert(s[i + 1] == y);
            }
        }
        if y != s[at] && s.contains(y) {
            let i = choose|i: int| 0 <= i < s.len() && s[i] == y;
            if i < at {
                assert(n[i] == y);
            } else {
                assert(n[i - 1] == y);
            }
        }
    }
    assert forall|i: int, j: int| 0 <= i < n.len() && 0 <= j < n.len() && i != j implies n[i]
        != n[j] by {
        let a = if i < at {
            i
        } else {
            i + 1
        };
        let b = if j < at {
            j
        } else {
            j + 1
        };
        assert(n[i] == s[a]);
        assert(n[j] == s[b]);
    }
}

/// The sequence without its element `x`; a sequence that lacks `x` stays.
pub open spec fn without<T>(s: Seq<T>, x: T) -> Seq<T> {
    if s.contains(x) {
        s.remove(s.index_of(x))
    } else {
        s
    }
}

/// `without` removes the given element alone from a sequence without
/// repetitions, and keeps the order of the others.
pub proof fn lemma_without<T>(s: Seq<T>, x: T)
    requires
        s.no_duplicates(),
    ensures
        without(s, x).no_duplicates(),
        !without(s, x).contains(x),
        forall|y: T| #[trigger] without(s, x).contains(y) <==> (y != x && s.contains(y)),
        forall|i: int| 0 <= i < s.len() && s[i] == x ==> without(s, x) == s.remove(i),
        without(s, x).len() <= s.len(),
{
    if s.contains(x) {
        let at = s.index_of(x);
        lemma_remove_at(s, at);
    }
}

/// Dropping a prefix of a sequence without repetitions keeps what is left
/// free of them, and what is left was there before.
pub proof fn lemma_skip<T>(s: Seq<T>, k: int)
    requires
        s.no_duplicates(),
        0 <= k <= s.len(),
    ensures
        s.skip(k).no_duplicates(),
        forall|y: T| #[trigger] s.skip(k).contains(y) ==> s.contains(y),
        forall|i: int| 0 <= i < k ==> !s.skip(k).contains(#[trigger] s[i]),
{
    let n = s.skip(k);
    assert forall|y: T| #[trigger] n.contains(y) implies s.contains(y) by {
        let i = choose|i: int| 0 <= i < n.len() && n[i] == y;
        assert(s[i + k] == y);
    }
    assert forall|i: int| 0 <= i < k implies !n.contains(#[trigger] s[i]) by {
        if n.contains(s[i]) {
            let j = choose|j: int| 0 <= j < n.len() && n[j] == s[i];
            assert(s[j + k] == s[i]);
        }
    }
}

} // verus!
