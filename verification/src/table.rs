//! Tables from text to values, ordered by key.

use vstd::prelude::*;
use crate::text::chars_of;

verus! {

// ---- the order of texts -------------------------------------------------------

/// `a` comes before `b` in the order of texts: character by character, a prefix
/// first. It is the order of `String`.
pub open spec fn before(a: Seq<char>, b: Seq<char>) -> bool
    decreases a.len(),
{
    if b.len() == 0 {
        false
    } else if a.len() == 0 {
        true
    } else if a[0] != b[0] {
        a[0] < b[0]
    } else {
        before(a.drop_first(), b.drop_first())
    }
}

pub proof fn lemma_before_irreflexive(a: Seq<char>)
    ensures
        !before(a, a),
    decreases a.len(),
{
    if a.len() > 0 {
        lemma_before_irreflexive(a.drop_first());
    }
}

pub proof fn lemma_before_transitive(a: Seq<char>, b: Seq<char>, c: Seq<char>)
    requires
        before(a, b),
        before(b, c),
    ensures
        before(a, c),
    decreases a.len(),
{
    if a.len() > 0 && a[0] == b[0] && b[0] == c[0] {
        lemma_before_transitive(a.drop_first(), b.drop_first(), c.drop_first());
    }
}

pub proof fn lemma_before_total(a: Seq<char>, b: Seq<char>)
    ensures
        before(a, b) || before(b, a) || a == b,
    decreases a.len(),
{
    if a.len() == 0 && b.len() == 0 {
        assert(a =~= b);
    } else if a.len() > 0 && b.len() > 0 && a[0] == b[0] {
        lemma_before_total(a.drop_first(), b.drop_first());
        if a.drop_first() == b.drop_first() {
            assert(a =~= seq![a[0]] + a.drop_first());
            assert(b =~= seq![b[0]] + b.drop_first());
        }
    }
}

/// Whether `a` comes before `b`.
pub fn text_before(a: &str, b: &str) -> (r: bool)
    ensures
        r == before(a@, b@),
{
    let x: Vec<char> = chars_of(a);
    let y: Vec<char> = chars_of(b);
    let mut i: usize = 0;
    assert(x@.skip(0) =~= x@);
    assert(y@.skip(0) =~= y@);
    while i < x.len() && i < y.len() && x[i] == y[i]
        invariant
            i <= x@.len(),
            i <= y@.len(),
            before(x@.skip(i as int), y@.skip(i as int)) == before(x@, y@),
        ensures
            i <= x@.len(),
            i <= y@.len(),
            before(x@.skip(i as int), y@.skip(i as int)) == before(x@, y@),
            i == x@.len() || i == y@.len() || x@[i as int] != y@[i as int],
        decreases x@.len() - i,
    {
        assert(x@.skip(i as int).drop_first() =~= x@.skip(i + 1));
        assert(y@.skip(i as int).drop_first() =~= y@.skip(i + 1));
        i = i + 1;
    }
    if i == y.len() {
        false
    } else if i == x.len() {
        true
    } else {
        x[i] < y[i]
    }
}

/// Every text comes before the texts after it.
pub open spec fn ascending(v: Seq<Seq<char>>) -> bool {
    forall|i: int, j: int| 0 <= i < j < v.len() ==> before(#[trigger] v[i], #[trigger] v[j])
}

/// `v` lists the members of a set in ascending order.
pub open spec fn lists(v: Seq<Seq<char>>, set: Set<Seq<char>>) -> bool {
    ascending(v) && forall|k: Seq<char>| set.contains(k) <==> #[trigger] v.contains(k)
}

/// The members of a finite set of texts in ascending order.
pub open spec fn sorted(set: Set<Seq<char>>) -> Seq<Seq<char>> {
    choose|v: Seq<Seq<char>>| lists(v, set)
}

/// There is one ascending listing of a set.
pub proof fn lemma_lists_unique(a: Seq<Seq<char>>, b: Seq<Seq<char>>, set: Set<Seq<char>>)
    requires
        lists(a, set),
        lists(b, set),
    ensures
        a == b,
    decreases a.len(),
{
    if a.len() == 0 {
        if b.len() > 0 {
            assert(b.contains(b[0]));
            assert(a.contains(b[0]));
        }
        assert(a =~= b);
    } else {
        assert(a.contains(a[0]));
        assert(b.contains(a[0]));
        let i = choose|i: int| 0 <= i < b.len() && b[i] == a[0];
        assert(b.contains(b[0]));
        assert(a.contains(b[0]));
        let j = choose|j: int| 0 <= j < a.len() && a[j] == b[0];
        if i > 0 {
            assert(before(b[0], b[i]));
            if j > 0 {
                assert(before(a[0], a[j]));
                lemma_before_transitive(a[0], b[0], a[0]);
            }
            lemma_before_irreflexive(a[0]);
        }
        assert(a[0] == b[0]);
        let x = a[0];
        let a1 = a.drop_first();
        let b1 = b.drop_first();
        let s1 = set.remove(x);
        assert(lists(a1, s1)) by {
            lemma_drop_first_lists(a, set);
        }
        assert(lists(b1, s1)) by {
            lemma_drop_first_lists(b, set);
        }
        lemma_lists_unique(a1, b1, s1);
        assert(a =~= seq![x] + a1);
        assert(b =~= seq![x] + b1);
    }
}

proof fn lemma_drop_first_lists(a: Seq<Seq<char>>, set: Set<Seq<char>>)
    requires
        lists(a, set),
        a.len() > 0,
    ensures
        lists(a.drop_first(), set.remove(a[0])),
{
    let t = a.drop_first();
    assert forall|i: int, j: int| 0 <= i < j < t.len() implies before(
        #[trigger] t[i],
        #[trigger] t[j],
    ) by {
        assert(t[i] == a[i + 1]);
        assert(t[j] == a[j + 1]);
    }
    assert forall|k: Seq<char>| set.remove(a[0]).contains(k) <==> #[trigger] t.contains(k) by {
        if t.contains(k) {
            let i = choose|i: int| 0 <= i < t.len() && t[i] == k;
            assert(a[i + 1] == k);
            assert(a.contains(k));
            assert(before(a[0], a[i + 1]));
            lemma_before_irreflexive(k);
        }
        if set.contains(k) && k != a[0] {
            assert(a.contains(k));
            let i = choose|i: int| 0 <= i < a.len() && a[i] == k;
            assert(t[i - 1] == k);
        }
    }
}

// ---- tables -----------------------------------------------------------------------

/// A table from text to values, kept in the order of its keys.
pub struct Table<V> {
    entries: Vec<(String, V)>,
}

impl<V> Table<V> {
    /// The keys in order.
    pub closed spec fn keys(&self) -> Seq<Seq<char>> {
        self.entries@.map_values(|p: (String, V)| p.0@)
    }

    /// The values in the order of their keys.
    pub closed spec fn values(&self) -> Seq<V> {
        self.entries@.map_values(|p: (String, V)| p.1)
    }

    /// The keys ascend.
    pub closed spec fn wf(&self) -> bool {
        ascending(self.keys())
    }

    /// The index of a key.
    spec fn at(&self, key: Seq<char>) -> int {
        choose|i: int| 0 <= i < self.entries@.len() && self.entries@[i].0@ == key
    }

    /// What each key maps to.
    pub closed spec fn map(&self) -> Map<Seq<char>, V> {
        Map::new(
            |k: Seq<char>| self.keys().contains(k),
            |k: Seq<char>| self.entries@[self.at(k)].1,
        )
    }

    proof fn lemma_at(&self, i: int)
        requires
            self.wf(),
            0 <= i < self.entries@.len(),
        ensures
            self.keys().contains(self.entries@[i].0@),
            self.at(self.entries@[i].0@) == i,
            self.map()[self.entries@[i].0@] == self.entries@[i].1,
    {
        let k = self.entries@[i].0@;
        assert(self.keys()[i] == k);
        let j = self.at(k);
        assert(0 <= j < self.entries@.len() && self.entries@[j].0@ == k);
        assert(self.keys()[j] == k);
        if i != j {
            lemma_before_irreflexive(k);
            if i < j {
                assert(before(self.keys()[i], self.keys()[j]));
            } else {
                assert(before(self.keys()[j], self.keys()[i]));
            }
        }
    }

    /// The keys list the domain of the map, and the values are what it maps them
    /// to.
    pub proof fn lemma_keys(&self)
        requires
            self.wf(),
        ensures
            lists(self.keys(), self.map().dom()),
            self.keys() == sorted(self.map().dom()),
            self.keys().len() == self.values().len(),
            forall|i: int|
                0 <= i < self.keys().len() ==> #[trigger] self.values()[i]
                    == self.map()[self.keys()[i]],
    {
        assert(lists(self.keys(), self.map().dom()));
        lemma_lists_unique(self.keys(), sorted(self.map().dom()), self.map().dom());
        assert forall|i: int| 0 <= i < self.keys().len() implies #[trigger] self.values()[i]
            == self.map()[self.keys()[i]] by {
            self.lemma_at(i);
        }
    }

    /// An empty table.
    pub fn new() -> (r: Self)
        ensures
            r.wf(),
            r.map() == Map::<Seq<char>, V>::empty(),
            r.keys().len() == 0,
    {
        let r: Table<V> = Table { entries: Vec::new() };
        assert(r.map() =~= Map::<Seq<char>, V>::empty());
        r
    }

    /// The number of keys.
    pub fn len(&self) -> (r: usize)
        ensures
            r == self.keys().len(),
            r == self.values().len(),
    {
        self.entries.len()
    }

    /// The key at a position.
    pub fn key_at(&self, i: usize) -> (r: &String)
        requires
            i < self.keys().len(),
        ensures
            r@ == self.keys()[i as int],
    {
        &self.entries[i].0
    }

    /// The value at a position.
    pub fn value_at(&self, i: usize) -> (r: &V)
        requires
            i < self.keys().len(),
        ensures
            *r == self.values()[i as int],
    {
        &self.entries[i].1
    }

    /// The position of the first key that does not come before `key`.
    fn position(&self, key: &str) -> (r: usize)
        requires
            self.wf(),
        ensures
            r <= self.entries@.len(),
            forall|i: int| 0 <= i < r ==> before(#[trigger] self.keys()[i], key@),
            r < self.entries@.len() ==> !before(self.keys()[r as int], key@),
    {
        let mut i: usize = 0;
        while i < self.entries.len() && text_before(&self.entries[i].0, key)
            invariant
                i <= self.entries@.len(),
                forall|j: int| 0 <= j < i ==> before(#[trigger] self.keys()[j], key@),
            ensures
                i <= self.entries@.len(),
                forall|j: int| 0 <= j < i ==> before(#[trigger] self.keys()[j], key@),
                i < self.entries@.len() ==> !before(self.keys()[i as int], key@),
            decreases self.entries@.len() - i,
        {
            i = i + 1;
        }
        i
    }

    /// Whether the key at the position of `key` is `key`, which says whether the
    /// table has it.
    proof fn lemma_position(&self, key: Seq<char>, r: int)
        requires
            self.wf(),
            0 <= r <= self.entries@.len(),
            forall|i: int| 0 <= i < r ==> before(#[trigger] self.keys()[i], key),
            r < self.entries@.len() ==> !before(self.keys()[r], key),
        ensures
            self.keys().contains(key) <==> r < self.entries@.len() && self.keys()[r] == key,
            forall|i: int|
                r <= i < self.keys().len() && #[trigger] self.keys()[i] != key ==> before(
                    key,
                    self.keys()[i],
                ),
    {
        if self.keys().contains(key) {
            let i = choose|i: int| 0 <= i < self.keys().len() && self.keys()[i] == key;
            if i < r {
                assert(before(self.keys()[i], key));
                lemma_before_irreflexive(key);
            }
            if r < i {
                assert(before(self.keys()[r], self.keys()[i]));
            }
        }
        assert forall|i: int|
            r <= i < self.keys().len() && #[trigger] self.keys()[i] != key implies before(
            key,
            self.keys()[i],
        ) by {
            lemma_before_total(self.keys()[i], key);
            if before(self.keys()[i], key) && r < i {
                assert(before(self.keys()[r], self.keys()[i]));
                lemma_before_transitive(self.keys()[r], self.keys()[i], key);
            }
        }
    }

    /// The value of a key.
    pub fn get(&self, key: &str) -> (r: Option<&V>)
        requires
            self.wf(),
        ensures
            r is Some == self.map().dom().contains(key@),
            r matches Some(v) ==> *v == self.map()[key@],
    {
        let i: usize = self.position(key);
        proof {
            self.lemma_position(key@, i as int);
        }
        if i < self.entries.len() && crate::text::same(&self.entries[i].0, key) {
            proof {
                self.lemma_at(i as int);
            }
            Some(&self.entries[i].1)
        } else {
            None
        }
    }

    /// Whether the table has a key.
    pub fn contains(&self, key: &str) -> (r: bool)
        requires
            self.wf(),
        ensures
            r == self.map().dom().contains(key@),
    {
        self.get(key).is_some()
    }

    /// Maps a key to a value, in place of the value it had.
    pub fn insert(&mut self, key: String, value: V)
        requires
            old(self).wf(),
        ensures
            final(self).wf(),
            final(self).map() == old(self).map().insert(key@, value),
    {
        let i: usize = self.position(&key);
        let ghost k = key@;
        proof {
            self.lemma_position(k, i as int);
        }
        let ghost before_keys = self.keys();
        if i < self.entries.len() && crate::text::same(&self.entries[i].0, &key) {
            self.entries[i] = (key, value);
            assert(self.keys() =~= before_keys);
        } else {
            self.entries.insert(i, (key, value));
            assert(self.keys() =~= before_keys.insert(i as int, k));
            assert(ascending(self.keys()));
        }
        proof {
            assert(self.wf());
            self.lemma_at(i as int);
            let m = old(self).map().insert(k, value);
            assert(self.map().dom() =~= m.dom()) by {
                assert forall|x: Seq<char>| self.keys().contains(x) <==> (before_keys.contains(x)
                    || x == k) by {
                    if before_keys.contains(x) {
                        let j = choose|j: int| 0 <= j < before_keys.len() && before_keys[j] == x;
                        if self.keys().len() == before_keys.len() || j < i {
                            assert(self.keys()[j] == x);
                        } else {
                            assert(self.keys()[j + 1] == x);
                        }
                    }
                    if x == k {
                        assert(self.keys()[i as int] == k);
                    }
                    if self.keys().contains(x) && x != k {
                        let j = choose|j: int| 0 <= j < self.keys().len() && self.keys()[j] == x;
                        if self.keys().len() == before_keys.len() || j < i {
                            assert(before_keys[j] == x);
                        } else {
                            assert(before_keys[j - 1] == x);
                        }
                    }
                }
            }
            assert forall|x: Seq<char>| self.map().dom().contains(x) && x != k implies #[trigger] self.map()[x]
                == old(self).map()[x] by {
                let j = choose|j: int| 0 <= j < self.keys().len() && self.keys()[j] == x;
                self.lemma_at(j);
                if self.keys().len() == before_keys.len() || j < i {
                    assert(before_keys[j] == x);
                    old(self).lemma_at(j);
                } else {
                    assert(before_keys[j - 1] == x);
                    old(self).lemma_at(j - 1);
                }
            }
            assert(self.map() =~= m);
        }
    }

    /// Takes a key out and hands back its value.
    pub fn remove(&mut self, key: &str) -> (r: Option<V>)
        requires
            old(self).wf(),
        ensures
            final(self).wf(),
            final(self).map() == old(self).map().remove(key@),
            r is Some == old(self).map().dom().contains(key@),
            r matches Some(v) ==> v == old(self).map()[key@],
    {
        let i: usize = self.position(key);
        let ghost k = key@;
        proof {
            self.lemma_position(k, i as int);
        }
        let ghost before_keys = self.keys();
        if i < self.entries.len() && crate::text::same(&self.entries[i].0, key) {
            proof {
                self.lemma_at(i as int);
            }
            let p: (String, V) = self.entries.remove(i);
            proof {
                assert(self.keys() =~= before_keys.remove(i as int));
                assert(ascending(self.keys()));
                let m = old(self).map().remove(k);
                assert forall|x: Seq<char>| self.keys().contains(x) <==> (before_keys.contains(x)
                    && x != k) by {
                    if before_keys.contains(x) && x != k {
                        let j = choose|j: int| 0 <= j < before_keys.len() && before_keys[j] == x;
                        if j < i {
                            assert(self.keys()[j] == x);
                        } else {
                            assert(self.keys()[j - 1] == x);
                        }
                    }
                    if self.keys().contains(x) {
                        let j = choose|j: int| 0 <= j < self.keys().len() && self.keys()[j] == x;
                        lemma_before_irreflexive(k);
                        if j < i {
                            assert(before_keys[j] == x);
                            assert(before(before_keys[j], before_keys[i as int]));
                        } else {
                            assert(before_keys[j + 1] == x);
                            assert(before(before_keys[i as int], before_keys[j + 1]));
                        }
                    }
                }
                assert(self.map().dom() =~= m.dom());
                assert forall|x: Seq<char>| self.map().dom().contains(x) implies #[trigger] self.map()[x]
                    == old(self).map()[x] by {
                    let j = choose|j: int| 0 <= j < self.keys().len() && self.keys()[j] == x;
                    self.lemma_at(j);
                    if j < i {
                        assert(before_keys[j] == x);
                        old(self).lemma_at(j);
                    } else {
                        assert(before_keys[j + 1] == x);
                        old(self).lemma_at(j + 1);
                    }
                }
                assert(self.map() =~= m);
            }
            Some(p.1)
        } else {
            assert(self.map() =~= old(self).map().remove(k));
            None
        }
    }
}

/// The order of texts is that of a dictionary: one that another goes on from comes before it,
/// and else the first characters in which two differ decide.
pub proof fn texts_are_ordered_as_in_a_dictionary(p: Seq<char>, a: Seq<char>, b: Seq<char>)
    ensures
        b.len() > 0 ==> before(p, p + b),
        !before(p + b, p),
        a.len() > 0 && b.len() > 0 && a[0] != b[0] ==> (before(p + a, p + b) <==> (a[0] as u32) < (
        b[0] as u32)),
    decreases p.len(),
{
    if p.len() == 0 {
        assert(p + a =~= a);
        assert(p + b =~= b);
        lemma_before_irreflexive(p);
        if a.len() > 0 && b.len() > 0 {
            lemma_chars_in_order(a[0], b[0]);
        }
    } else {
        let q = p.drop_first();
        assert((p + a).drop_first() =~= q + a);
        assert((p + b).drop_first() =~= q + b);
        texts_are_ordered_as_in_a_dictionary(q, a, b);
    }
}

proof fn lemma_chars_in_order(x: char, y: char)
    ensures
        x < y <==> (x as u32) < (y as u32),
{
}

/// A listing of a set holds its members and nothing else, each before those after it.
pub proof fn listings_are_in_order(v: Seq<Seq<char>>, set: Set<Seq<char>>, k: Seq<char>)
    requires
        lists(v, set),
    ensures
        set.contains(k) <==> exists|i: int| 0 <= i < v.len() && #[trigger] v[i] == k,
        forall|i: int, j: int|
            0 <= i < j < v.len() ==> before(#[trigger] v[i], #[trigger] v[j]) && v[i] != v[j],
        sorted(set) == v,
{
    assert(set.contains(k) <==> v.contains(k));
    assert forall|i: int, j: int| 0 <= i < j < v.len() implies before(
        #[trigger] v[i],
        #[trigger] v[j],
    ) && v[i] != v[j] by {
        lemma_before_irreflexive(v[i]);
    }
    lemma_lists_unique(v, sorted(set), set);
}

/// A table gives back what was put in under a key, and what is taken out is gone; the other keys
/// stay.
pub proof fn tables_give_back_what_was_put_in<V>(
    a: &mut Table<V>,
    key: String,
    value: V,
    b: &mut Table<V>,
    r: Option<V>,
    c: &Table<V>,
    v: Option<&V>,
    k: &str,
    other: Seq<char>,
)
    requires
        old(a).wf() && old(b).wf() && c.wf(),
        call_ensures(Table::insert, (a, key, value), ()),
        call_ensures(Table::remove, (b, k), r),
        call_ensures(Table::get, (c, k), v),
    ensures
        final(a).map().dom().contains(key@) && final(a).map()[key@] == value,
        other != key@ ==> final(a).map().dom().contains(other) == old(a).map().dom().contains(other)
            && final(a).map()[other] == old(a).map()[other],
        !final(b).map().dom().contains(k@),
        r is Some <==> old(b).map().dom().contains(k@),
        r matches Some(x) ==> x == old(b).map()[k@],
        other != k@ ==> final(b).map().dom().contains(other) == old(b).map().dom().contains(other)
            && final(b).map()[other] == old(b).map()[other],
        v is Some <==> c.map().dom().contains(k@),
        v matches Some(x) ==> *x == c.map()[k@],
{
}

} // verus!
