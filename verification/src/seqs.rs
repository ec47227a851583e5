//! Facts about sequences.

use vstd::prelude::*;

verus! {

/// A filtered sequence holds the members that pass.
pub proof fn lemma_filter_members<A>(s: Seq<A>, p: spec_fn(A) -> bool, x: A)
    ensures
        s.filter(p).contains(x) <==> s.contains(x) && p(x),
    decreases s.len(),
{
    reveal(Seq::filter);
    if s.len() > 0 {
        let t = s.drop_last();
        lemma_filter_members(t, p, x);
        assert(s =~= t.push(s.last()));
        assert(s.contains(x) <==> t.contains(x) || x == s.last()) by {
            if t.contains(x) {
                let i = choose|i: int| 0 <= i < t.len() && t[i] == x;
                assert(s[i] == x);
            }
            if s.contains(x) && x != s.last() {
                let i = choose|i: int| 0 <= i < s.len() && s[i] == x;
                assert(t[i] == x);
            }
            if x == s.last() {
                assert(s[s.len() - 1] == x);
            }
        }
        let f = t.filter(p);
        if p(s.last()) {
            assert(s.filter(p) =~= f.push(s.last()));
            assert(f.push(s.last()).contains(x) <==> f.contains(x) || x == s.last()) by {
                if f.contains(x) {
                    let i = choose|i: int| 0 <= i < f.len() && f[i] == x;
                    assert(f.push(s.last())[i] == x);
                }
                assert(f.push(s.last())[f.len() as int] == s.last());
            }
        }
    } else {
        assert(s.filter(p) =~= s);
    }
}

/// Filtering one more element.
pub proof fn lemma_filter_step<A>(s: Seq<A>, p: spec_fn(A) -> bool, i: int)
    requires
        0 <= i < s.len(),
    ensures
        s.take(i + 1).filter(p) == (if p(s[i]) {
            s.take(i).filter(p).push(s[i])
        } else {
            s.take(i).filter(p)
        }),
{
    reveal(Seq::filter);
    assert(s.take(i + 1).drop_last() =~= s.take(i));
    assert(s.take(i + 1).last() == s[i]);
}

/// The members of a prefix that is one longer.
pub proof fn lemma_take_members<A>(s: Seq<A>, i: int)
    requires
        0 <= i < s.len(),
    ensures
        forall|x: A| #[trigger]
            s.take(i + 1).contains(x) <==> s.take(i).contains(x) || x == s[i],
{
    assert forall|x: A| #[trigger]
        s.take(i + 1).contains(x) <==> s.take(i).contains(x) || x == s[i] by {
        if s.take(i).contains(x) {
            let j = choose|j: int| 0 <= j < i && s.take(i)[j] == x;
            assert(s.take(i + 1)[j] == x);
        }
        if x == s[i] {
            assert(s.take(i + 1)[i] == x);
        }
        if s.take(i + 1).contains(x) && x != s[i] {
            let p = s.take(i + 1);
            let j = choose|j: int| 0 <= j < p.len() && p[j] == x;
            assert(s.take(i)[j] == x);
        }
    }
}

/// What is picked from a list without duplicates has none.
pub proof fn lemma_filter_no_duplicates<A>(v: Seq<A>, pred: spec_fn(A) -> bool)
    requires
        v.no_duplicates(),
    ensures
        v.filter(pred).no_duplicates(),
    decreases v.len(),
{
    reveal(Seq::filter);
    if v.len() > 0 {
        let rest = v.drop_last();
        lemma_filter_no_duplicates(rest, pred);
        lemma_filter_members(rest, pred, v.last());
        let f = v.filter(pred);
        let g = rest.filter(pred);
        assert forall|i: int, j: int| 0 <= i < f.len() && 0 <= j < f.len() && i != j implies f[i]
            != f[j] by {
            if i < g.len() && j < g.len() {
                assert(g[i] != g[j]);
            } else if i < g.len() {
                assert(g.contains(g[i]));
                if g[i] == v.last() {
                    assert(rest.contains(v.last()));
                }
            } else if j < g.len() {
                assert(g.contains(g[j]));
                if g[j] == v.last() {
                    assert(rest.contains(v.last()));
                }
            }
        }
    }
}

} // verus!
