//! Strictly sorted text keys: search, insertion and removal that keep the order.

use vstd::prelude::*;

use crate::text::{
    chars_of, eq_chars, lemma_str_lt_irreflexive, lemma_str_lt_total,
    lemma_str_lt_transitive, str_less, str_lt, strictly_sorted,
};

verus! {

/// The texts of a list of strings.
pub open spec fn views(u: Seq<String>) -> Seq<Seq<char>> {
    u.map_values(|s: String| s@)
}

/// In a strictly sorted sequence equal texts sit at equal positions.
pub proof fn lemma_sorted_unique(s: Seq<Seq<char>>, i: int, j: int)
    requires
        strictly_sorted(s),
        0 <= i < s.len(),
        0 <= j < s.len(),
        s[i] == s[j],
    ensures
        i == j,
{
    if i < j {
        lemma_str_lt_irreflexive(s[i]);
    } else if j < i {
        lemma_str_lt_irreflexive(s[i]);
    }
}

/// Inserting between the smaller and the greater keys keeps the order.
pub proof fn lemma_sorted_insert(s: Seq<Seq<char>>, pos: int, x: Seq<char>)
    requires
        strictly_sorted(s),
        0 <= pos <= s.len(),
        forall|k: int| 0 <= k < pos ==> str_lt(#[trigger] s[k], x),
        forall|k: int| pos <= k < s.len() ==> str_lt(x, #[trigger] s[k]),
    ensures
        strictly_sorted(s.insert(pos, x)),
{
    let t = s.insert(pos, x);
    assert forall|i: int, j: int| 0 <= i < j < t.len() implies str_lt(#[trigger] t[i], #[trigger] t[j]) by {
        if j < pos {
            assert(t[i] == s[i] && t[j] == s[j]);
        } else if j == pos {
            assert(t[i] == s[i]);
        } else if i < pos {
            assert(t[i] == s[i] && t[j] == s[j - 1]);
        } else if i == pos {
            assert(t[j] == s[j - 1]);
        } else {
            assert(t[i] == s[i - 1] && t[j] == s[j - 1]);
        }
    }
}

/// Removing a key keeps the order.
pub proof fn lemma_sorted_remove(s: Seq<Seq<char>>, pos: int)
    requires
        strictly_sorted(s),
        0 <= pos < s.len(),
    ensures
        strictly_sorted(s.remove(pos)),
{
    let t = s.remove(pos);
    assert forall|i: int, j: int| 0 <= i < j < t.len() implies str_lt(#[trigger] t[i], #[trigger] t[j]) by {
        let si = if i < pos { i } else { i + 1 };
        let sj = if j < pos { j } else { j + 1 };
        assert(t[i] == s[si] && t[j] == s[sj]);
    }
}

/// Where `x` is or belongs in the strictly sorted `keys`: `(true, i)` when `keys[i]` is
/// `x`; `(false, i)` when the keys before `i` are smaller and the others greater.
pub fn locate(keys: &Vec<String>, x: &str) -> (r: (bool, usize))
    requires
        strictly_sorted(views(keys@)),
    ensures
        r.1 <= keys@.len(),
        r.0 ==> r.1 < keys@.len() && keys@[r.1 as int]@ == x@,
        !r.0 ==> forall|k: int| 0 <= k < r.1 ==> str_lt(#[trigger] keys@[k]@, x@),
        !r.0 ==> forall|k: int| r.1 <= k < keys@.len() ==> str_lt(x@, #[trigger] keys@[k]@),
        r.0 <==> exists|k: int| 0 <= k < keys@.len() && #[trigger] keys@[k]@ == x@,
{
    let xc = chars_of(x);
    let ghost ks = views(keys@);
    let mut i: usize = 0;
    while i < keys.len()
        invariant
            i <= keys@.len(),
            ks == views(keys@),
            strictly_sorted(ks),
            xc@ == x@,
            forall|k: int| 0 <= k < i ==> str_lt(#[trigger] keys@[k]@, x@),
        decreases keys@.len() - i,
    {
        let kc = chars_of(keys[i].as_str());
        if !str_less(&kc, &xc) {
            assert(ks[i as int] == keys@[i as int]@);
            proof {
                lemma_str_lt_total(keys@[i as int]@, x@);
            }
            if eq_chars(&kc, &xc) {
                return (true, i);
            }
            proof {
                assert forall|k: int| i <= k < keys@.len() implies str_lt(x@, #[trigger] keys@[k]@) by {
                    if k > i {
                        assert(ks[k] == keys@[k]@);
                        assert(str_lt(ks[i as int], ks[k]));
                        lemma_str_lt_transitive(x@, keys@[i as int]@, keys@[k]@);
                    }
                }
                assert forall|k: int| 0 <= k < keys@.len() implies #[trigger] keys@[k]@ != x@ by {
                    if k < i {
                        lemma_str_lt_irreflexive(x@);
                    } else {
                        lemma_str_lt_irreflexive(x@);
                    }
                }
            }
            return (false, i);
        }
        i = i + 1;
    }
    proof {
        assert forall|k: int| 0 <= k < keys@.len() implies #[trigger] keys@[k]@ != x@ by {
            lemma_str_lt_irreflexive(x@);
        }
    }
    (false, i)
}

/// Inserts `x` into the strictly sorted `list` unless it is there; says whether it
/// was inserted.
pub fn insert_sorted(list: &mut Vec<String>, x: String) -> (r: bool)
    requires
        strictly_sorted(views(old(list)@)),
    ensures
        strictly_sorted(views(final(list)@)),
        r == !views(old(list)@).contains(x@),
        views(final(list)@).to_set() == views(old(list)@).to_set().insert(x@),
        final(list)@.len() == old(list)@.len() + if r { 1int } else { 0int },
{
    let (found, pos) = locate(list, x.as_str());
    let ghost old_v = views(list@);
    if found {
        assert(old_v[pos as int] == x@);
        assert(old_v.to_set().insert(x@) =~= old_v.to_set());
        return false;
    }
    assert(!old_v.contains(x@)) by {
        if old_v.contains(x@) {
            let k = choose|k: int| 0 <= k < old_v.len() && old_v[k] == x@;
            assert(list@[k]@ == x@);
        }
    }
    let ghost xv = x@;
    list.insert(pos, x);
    proof {
        assert(views(list@) =~= old_v.insert(pos as int, xv));
        assert forall|k: int| 0 <= k < pos implies str_lt(#[trigger] old_v[k], xv) by {
            assert(old_v[k] == old(list)@[k]@);
        }
        assert forall|k: int| pos <= k < old_v.len() implies str_lt(xv, #[trigger] old_v[k]) by {
            assert(old_v[k] == old(list)@[k]@);
        }
        lemma_sorted_insert(old_v, pos as int, xv);
        let nv = views(list@);
        assert forall|y: Seq<char>| nv.to_set().contains(y) == old_v.to_set().insert(xv).contains(y) by {
            if nv.contains(y) {
                let k = choose|k: int| 0 <= k < nv.len() && nv[k] == y;
                if k < pos {
                    assert(old_v[k] == y);
                } else if k > pos {
                    assert(old_v[k - 1] == y);
                }
            }
            if old_v.contains(y) {
                let k = choose|k: int| 0 <= k < old_v.len() && old_v[k] == y;
                if k < pos {
                    assert(nv[k] == y);
                } else {
                    assert(nv[k + 1] == y);
                }
            }
            if y == xv {
                assert(nv[pos as int] == y);
            }
        }
        assert(nv.to_set() =~= old_v.to_set().insert(xv));
    }
    true
}

} // verus!
