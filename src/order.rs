//! Lexicographic order on texts, and sorting a list of names into a list
//! without repeats.

use vstd::prelude::*;

use crate::parser::strings_view;
use crate::text::chars_of;

verus! {

/// `a` comes before `b`, and they first differ at position `k` (or `a` ends
/// there while `b` goes on).
pub open spec fn lt_at(a: Seq<char>, b: Seq<char>, k: int) -> bool {
    &&& 0 <= k <= a.len()
    &&& k < b.len()
    &&& forall|i: int| 0 <= i < k ==> #[trigger] a[i] == b[i]
    &&& (k == a.len() || a[k] < b[k])
}

/// Lexicographic order by code point, the order of `str`'s comparison.
pub open spec fn seq_lt(a: Seq<char>, b: Seq<char>) -> bool {
    exists|k: int| lt_at(a, b, k)
}

pub proof fn lemma_seq_lt_transitive(a: Seq<char>, b: Seq<char>, c: Seq<char>)
    requires
        seq_lt(a, b),
        seq_lt(b, c),
    ensures
        seq_lt(a, c),
{
    let k1 = choose|k: int| lt_at(a, b, k);
    let k2 = choose|k: int| lt_at(b, c, k);
    let k = if k1 < k2 {
        k1
    } else {
        k2
    };
    assert(lt_at(a, c, k));
}

pub proof fn lemma_push_contains(s: Seq<Seq<char>>, e: Seq<char>, y: Seq<char>)
    ensures
        s.push(e).contains(y) <==> s.contains(y) || y == e,
{
    if s.push(e).contains(y) {
        let k = choose|k: int| 0 <= k < s.len() + 1 && s.push(e)[k] == y;
        if k < s.len() {
            assert(s[k] == y);
        }
    }
    if s.contains(y) {
        let k = choose|k: int| 0 <= k < s.len() && s[k] == y;
        assert(s.push(e)[k] == y);
    }
    if y == e {
        assert(s.push(e)[s.len() as int] == y);
    }
}

pub proof fn lemma_concat_contains(a: Seq<Seq<char>>, b: Seq<Seq<char>>, y: Seq<char>)
    ensures
        (a + b).contains(y) <==> a.contains(y) || b.contains(y),
{
    if (a + b).contains(y) {
        let k = choose|k: int| 0 <= k < (a + b).len() && (a + b)[k] == y;
        if k < a.len() {
            assert(a[k] == y);
        } else {
            assert(b[k - a.len()] == y);
        }
    }
    if a.contains(y) {
        let k = choose|k: int| 0 <= k < a.len() && a[k] == y;
        assert((a + b)[k] == y);
    }
    if b.contains(y) {
        let k = choose|k: int| 0 <= k < b.len() && b[k] == y;
        assert((a + b)[a.len() + k] == y);
    }
}

/// How two texts compare.
#[derive(Debug, Clone, Copy, PartialEq, Eq, Structural)]
pub enum Order {
    Less,
    Equal,
    Greater,
}

/// Compares two character vectors lexicographically.
pub fn compare_chars(a: &Vec<char>, b: &Vec<char>) -> (r: Order)
    ensures
        r == Order::Less <==> seq_lt(a@, b@),
        r == Order::Equal <==> a@ == b@,
        r == Order::Greater <==> seq_lt(b@, a@),
{
    let mut i: usize = 0;
    while i < a.len() && i < b.len()
        invariant
            i <= a@.len(),
            i <= b@.len(),
            forall|k: int| 0 <= k < i ==> #[trigger] a@[k] == b@[k],
        decreases a@.len() - i,
    {
        if a[i] != b[i] {
            if a[i] < b[i] {
                assert(lt_at(a@, b@, i as int));
                assert(!seq_lt(b@, a@)) by {
                    if seq_lt(b@, a@) {
                        let k = choose|k: int| lt_at(b@, a@, k);
                        assert(k <= i);
                        if k < i {
                            assert(a@[k] == b@[k]);
                        }
                    }
                }
                return Order::Less;
            } else {
                assert(lt_at(b@, a@, i as int));
                assert(!seq_lt(a@, b@)) by {
                    if seq_lt(a@, b@) {
                        let k = choose|k: int| lt_at(a@, b@, k);
                        assert(k <= i);
                        if k < i {
                            assert(a@[k] == b@[k]);
                        }
                    }
                }
                return Order::Greater;
            }
        }
        i = i + 1;
    }
    if a.len() < b.len() {
        assert(lt_at(a@, b@, i as int));
        assert(!seq_lt(b@, a@)) by {
            if seq_lt(b@, a@) {
                let k = choose|k: int| lt_at(b@, a@, k);
                assert(a@[k] == b@[k]);
            }
        }
        Order::Less
    } else if a.len() > b.len() {
        assert(lt_at(b@, a@, i as int));
        assert(!seq_lt(a@, b@)) by {
            if seq_lt(a@, b@) {
                let k = choose|k: int| lt_at(a@, b@, k);
                assert(a@[k] == b@[k]);
            }
        }
        Order::Greater
    } else {
        assert(a@ =~= b@);
        Order::Equal
    }
}

/// Whether the texts are in strictly increasing order, hence without repeats.
pub open spec fn strictly_sorted(s: Seq<Seq<char>>) -> bool {
    forall|i: int, j: int| 0 <= i < j < s.len() ==> seq_lt(#[trigger] s[i], #[trigger] s[j])
}

/// The names of `v`, sorted lexicographically, each once.
pub fn sorted_unique(v: &Vec<String>) -> (r: Vec<String>)
    ensures
        strictly_sorted(strings_view(r@)),
        forall|x: Seq<char>| strings_view(r@).contains(x) <==> strings_view(v@).contains(x),
{
    let mut r: Vec<String> = Vec::new();
    let mut rc: Vec<Vec<char>> = Vec::new();
    let mut n: usize = 0;
    while n < v.len()
        invariant
            n <= v@.len(),
            r@.len() == rc@.len(),
            forall|i: int| 0 <= i < r@.len() ==> (#[trigger] r@[i])@ == rc@[i]@,
            strictly_sorted(strings_view(r@)),
            forall|x: Seq<char>|
                strings_view(r@).contains(x) <==> strings_view(v@.take(n as int)).contains(x),
        decreases v@.len() - n,
    {
        let x = chars_of(v[n].as_str());
        let ghost old_r = r@;
        let mut pos: usize = 0;
        let mut dup = false;
        while pos < rc.len()
            invariant
                r@ == old_r,
                r@.len() == rc@.len(),
                forall|i: int| 0 <= i < r@.len() ==> (#[trigger] r@[i])@ == rc@[i]@,
                pos <= rc@.len(),
                forall|i: int| 0 <= i < pos ==> seq_lt((#[trigger] rc@[i])@, x@),
                dup ==> strings_view(r@).contains(x@),
            ensures
                dup ==> strings_view(r@).contains(x@),
                !dup ==> pos == rc@.len() || seq_lt(x@, rc@[pos as int]@),
            decreases rc@.len() - pos,
        {
            match compare_chars(&rc[pos], &x) {
                Order::Less => {
                    pos = pos + 1;
                },
                Order::Equal => {
                    assert(strings_view(r@)[pos as int] == x@);
                    dup = true;
                    break;
                },
                Order::Greater => {
                    break;
                },
            }
        }
        proof {
            assert(v@.take(n + 1) =~= v@.take(n as int).push(v@[n as int]));
            assert(strings_view(v@.take(n + 1)) =~= strings_view(v@.take(n as int)).push(x@));
        }
        if !dup {
            let ghost sv = strings_view(r@);
            assert(pos < rc@.len() ==> seq_lt(x@, sv[pos as int])) by {
                if pos < rc@.len() {
                    assert(sv[pos as int] == rc@[pos as int]@);
                }
            }
            let s = v[n].clone();
            r.insert(pos, s);
            rc.insert(pos, x);
            proof {
                let nv = strings_view(r@);
                assert(nv =~= sv.insert(pos as int, x@));
                assert forall|i: int, j: int| 0 <= i < j < nv.len() implies seq_lt(
                    #[trigger] nv[i],
                    #[trigger] nv[j],
                ) by {
                    if j < pos {
                        assert(nv[i] == sv[i] && nv[j] == sv[j]);
                    } else if j == pos {
                        assert(nv[i] == rc@[i]@);
                    } else if i == pos {
                        assert(nv[j] == sv[j - 1]);
                        if j - 1 > pos {
                            lemma_seq_lt_transitive(x@, sv[pos as int], sv[j - 1]);
                        }
                    } else if i < pos {
                        assert(nv[i] == sv[i] && nv[j] == sv[j - 1]);
                    } else {
                        assert(nv[i] == sv[i - 1] && nv[j] == sv[j - 1]);
                    }
                }
                assert forall|x2: Seq<char>| nv.contains(x2) <==> sv.push(x@).contains(x2) by {
                    if nv.contains(x2) {
                        let k = choose|k: int| 0 <= k < nv.len() && nv[k] == x2;
                        if k < pos {
                            assert(sv[k] == x2);
                            assert(sv.push(x@)[k] == x2);
                        } else if k > pos {
                            assert(sv[k - 1] == x2);
                            assert(sv.push(x@)[k - 1] == x2);
                        } else {
                            assert(sv.push(x@)[sv.len() as int] == x2);
                        }
                    }
                    if sv.push(x@).contains(x2) {
                        let k = choose|k: int| 0 <= k < sv.len() + 1 && sv.push(x@)[k] == x2;
                        if k == sv.len() {
                            assert(nv[pos as int] == x2);
                        } else if k < pos {
                            assert(nv[k] == x2);
                        } else {
                            assert(nv[k + 1] == x2);
                        }
                    }
                }
            }
        } else {
            proof {
                let sv = strings_view(r@);
                assert forall|x2: Seq<char>| sv.contains(x2) <==> sv.push(x@).contains(x2) by {
                    if sv.push(x@).contains(x2) {
                        let k = choose|k: int| 0 <= k < sv.len() + 1 && sv.push(x@)[k] == x2;
                        if k < sv.len() {
                            assert(sv[k] == x2);
                        }
                    }
                    if sv.contains(x2) {
                        let k = choose|k: int| 0 <= k < sv.len() && sv[k] == x2;
                        assert(sv.push(x@)[k] == x2);
                    }
                }
            }
        }
        proof {
            let sv = strings_view(r@);
            let tv = strings_view(v@.take(n as int));
            assert forall|x2: Seq<char>| sv.contains(x2) <==> tv.push(x@).contains(x2) by {
                lemma_push_contains(tv, x@, x2);
                lemma_push_contains(strings_view(old_r), x@, x2);
            }
        }
        n = n + 1;
    }
    assert(v@.take(n as int) =~= v@);
    r
}

} // verus!
