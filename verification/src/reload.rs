//! Registries of remote endpoints that follow a desired list: what is dropped,
//! what is connected, and what is reported.

use vstd::prelude::*;
use crate::table::Table;
use crate::text::same;

verus! {

/// A remote endpoint: a name and where to reach it.
#[derive(Debug)]
pub struct Endpoint {
    pub name: String,
    pub url: String,
}

/// A connected endpoint: where it was reached and what it offers.
pub struct Live<P> {
    pub url: String,
    pub data: P,
}

/// What a reload did.
#[derive(Debug)]
pub struct ReloadReport {
    /// Endpoints that were connected.
    pub added: Vec<String>,
    /// Endpoints that were dropped.
    pub removed: Vec<String>,
    /// Endpoints that could not be connected, each with the reason.
    pub failed: Vec<(String, String)>,
}

impl Default for ReloadReport {
    fn default() -> (r: Self)
        ensures
            r.added@.len() == 0,
            r.removed@.len() == 0,
            r.failed@.len() == 0,
    {
        ReloadReport { added: Vec::new(), removed: Vec::new(), failed: Vec::new() }
    }
}

/// A reload in progress: the desired list, how far it got, and the report so far.
pub struct Reload {
    pub desired: Vec<Endpoint>,
    pub at: usize,
    pub report: ReloadReport,
}

/// Whether the desired list has an endpoint with a name.
pub open spec fn names(desired: Seq<Endpoint>, name: Seq<char>) -> bool {
    exists|i: int| 0 <= i < desired.len() && (#[trigger] desired[i]).name@ == name
}

/// Whether the desired list has an endpoint with a name and a URL.
pub open spec fn wants(desired: Seq<Endpoint>, name: Seq<char>, url: Seq<char>) -> bool {
    exists|i: int|
        0 <= i < desired.len() && (#[trigger] desired[i]).name@ == name && desired[i].url@ == url
}

/// The connected endpoints that a reload keeps: those that are desired under the
/// URL that they were reached at.
pub open spec fn kept<P>(
    live: Map<Seq<char>, Live<P>>,
    desired: Seq<Endpoint>,
) -> Map<Seq<char>, Live<P>> {
    Map::new(
        |k: Seq<char>| live.dom().contains(k) && wants(desired, k, live[k].url@),
        |k: Seq<char>| live[k],
    )
}

/// The names of the connected endpoints that a reload drops, in order.
pub open spec fn dropped<P>(
    live: Map<Seq<char>, Live<P>>,
    desired: Seq<Endpoint>,
) -> Seq<Seq<char>> {
    crate::table::sorted(live.dom()).filter(
        |k: Seq<char>| !wants(desired, k, live[k].url@),
    )
}

/// The first desired endpoint from `i` on that is not connected; the length of
/// the list when all are.
pub open spec fn missing<P>(
    live: Map<Seq<char>, Live<P>>,
    desired: Seq<Endpoint>,
    i: int,
) -> int
    decreases desired.len() - i,
{
    if 0 <= i < desired.len() && live.dom().contains(desired[i].name@) {
        missing(live, desired, i + 1)
    } else {
        i
    }
}

/// The texts of the failures of a report.
pub open spec fn failures(v: Seq<(String, String)>) -> Seq<(Seq<char>, Seq<char>)> {
    v.map_values(|p: (String, String)| (p.0@, p.1@))
}

/// Whether a report lists a name as failed.
pub open spec fn has_failed(v: Seq<(String, String)>, name: Seq<char>) -> bool {
    exists|i: int| 0 <= i < v.len() && (#[trigger] v[i]).0@ == name
}

/// What holds of a reload all along: every connected endpoint is desired, and
/// every endpoint that was passed is connected or reported as failed.
pub open spec fn reload_ok<P>(r: Reload, live: Map<Seq<char>, Live<P>>) -> bool {
    &&& r.at <= r.desired@.len()
    &&& forall|k: Seq<char>| #[trigger] live.dom().contains(k) ==> names(r.desired@, k)
    &&& forall|i: int|
        0 <= i < r.at ==> live.dom().contains((#[trigger] r.desired@[i]).name@) || has_failed(
            r.report.failed@,
            r.desired@[i].name@,
        )
}

/// Whether a list holds a name.
pub open spec fn listed(v: Seq<String>, name: Seq<char>) -> bool {
    exists|i: int| 0 <= i < v.len() && (#[trigger] v[i])@ == name
}

/// What going on to the endpoint that is next does to a reload.
pub open spec fn passes<P>(r: Reload, post: Reload, live: Map<Seq<char>, Live<P>>) -> bool {
    &&& post.desired@ == r.desired@
    &&& post.report == r.report
    &&& post.at == missing(live, r.desired@, r.at as int)
}

/// What the outcome of connecting the endpoint that is next does to a reload and to the
/// connected endpoints.
pub open spec fn settles<P>(
    r: Reload,
    live: Map<Seq<char>, Live<P>>,
    outcome: Result<P, String>,
    post: Reload,
    now: Map<Seq<char>, Live<P>>,
) -> bool {
    let d = r.desired@[r.at as int];
    &&& post.desired@ == r.desired@
    &&& post.at == r.at + 1
    &&& post.report.removed == r.report.removed
    &&& match outcome {
        Ok(data) => {
            &&& now == live.insert(d.name@, (Live { url: d.url, data }))
            &&& post.report.added@ == r.report.added@.push(d.name)
            &&& post.report.failed == r.report.failed
        },
        Err(e) => {
            &&& now == live
            &&& post.report.added == r.report.added
            &&& post.report.failed@ == r.report.failed@.push((d.name, e))
        },
    }
}

/// The connected endpoints, by name.
pub struct Registry<P> {
    live: Table<Live<P>>,
}

fn is_wanted(desired: &Vec<Endpoint>, name: &str, url: &str) -> (r: bool)
    ensures
        r == wants(desired@, name@, url@),
{
    let mut i: usize = 0;
    while i < desired.len()
        invariant
            i <= desired@.len(),
            forall|k: int|
                0 <= k < i ==> !((#[trigger] desired@[k]).name@ == name@ && desired@[k].url@
                    == url@),
        decreases desired@.len() - i,
    {
        if same(&desired[i].name, name) && same(&desired[i].url, url) {
            return true;
        }
        i = i + 1;
    }
    false
}

impl<P> View for Registry<P> {
    type V = Map<Seq<char>, Live<P>>;

    closed spec fn view(&self) -> Map<Seq<char>, Live<P>> {
        self.live.map()
    }
}

impl<P> Registry<P> {
    /// The table is in order.
    pub closed spec fn wf(&self) -> bool {
        self.live.wf()
    }

    /// The ordered names list the connected endpoints.
    pub proof fn lemma_names(&self)
        requires
            self.wf(),
        ensures
            crate::table::lists(crate::table::sorted(self@.dom()), self@.dom()),
    {
        self.live.lemma_keys();
    }

    /// A registry without endpoints.
    pub fn new() -> (r: Self)
        ensures
            r.wf(),
            r@ == Map::<Seq<char>, Live<P>>::empty(),
    {
        Registry { live: Table::new() }
    }

    /// Adds a connected endpoint, in place of one with the same name.
    pub fn insert(&mut self, name: String, url: String, data: P)
        requires
            old(self).wf(),
        ensures
            final(self).wf(),
            final(self)@ == old(self)@.insert(name@, (Live { url, data })),
    {
        self.live.insert(name, Live { url, data });
    }

    /// What a connected endpoint offers.
    pub fn get(&self, name: &str) -> (r: Option<&Live<P>>)
        requires
            self.wf(),
        ensures
            r is Some == self@.dom().contains(name@),
            r matches Some(l) ==> *l == self@[name@],
    {
        self.live.get(name)
    }

    /// The names of the connected endpoints, in order.
    pub fn names(&self) -> (r: Vec<String>)
        requires
            self.wf(),
        ensures
            crate::text::views(r@) == crate::table::sorted(self@.dom()),
    {
        let ghost keys = self.live.keys();
        proof {
            self.live.lemma_keys();
        }
        let mut out: Vec<String> = Vec::new();
        let mut i: usize = 0;
        assert(crate::text::views(out@) =~= keys.take(0));
        while i < self.live.len()
            invariant
                self.wf(),
                keys == self.live.keys(),
                i <= keys.len(),
                crate::text::views(out@) == keys.take(i as int),
            decreases keys.len() - i,
        {
            let ghost before = out@;
            let name: String = self.live.key_at(i).clone();
            out.push(name);
            assert(crate::text::views(out@) =~= crate::text::views(before).push(name@));
            assert(keys.take(i + 1) =~= keys.take(i as int).push(keys[i as int]));
            i = i + 1;
        }
        assert(keys.take(keys.len() as int) =~= keys);
        out
    }

    /// The number of connected endpoints.
    pub fn count(&self) -> (r: usize)
        requires
            self.wf(),
        ensures
            r == crate::table::sorted(self@.dom()).len(),
    {
        proof {
            self.live.lemma_keys();
        }
        self.live.len()
    }

    /// Starts a reload: drops the endpoints that are not desired under their URL.
    pub fn begin_reload(&mut self, desired: Vec<Endpoint>) -> (r: Reload)
        requires
            old(self).wf(),
        ensures
            final(self).wf(),
            final(self)@ == kept(old(self)@, desired@),
            r.desired@ == desired@,
            r.at == 0,
            crate::text::views(r.report.removed@) == dropped(old(self)@, desired@),
            r.report.added@.len() == 0,
            r.report.failed@.len() == 0,
            reload_ok(r, final(self)@),
    {
        let ghost live = self@;
        let ghost pred = |k: Seq<char>| !wants(desired@, k, live[k].url@);
        let all: Vec<String> = self.names();
        let ghost keys = crate::text::views(all@);
        proof {
            self.live.lemma_keys();
        }
        let mut removed: Vec<String> = Vec::new();
        let mut i: usize = 0;
        proof {
            reveal(Seq::filter);
            assert(keys.take(0).filter(pred) =~= Seq::<Seq<char>>::empty());
            assert(crate::text::views(removed@) =~= Seq::<Seq<char>>::empty());
        }
        while i < all.len()
            invariant
                self.wf(),
                keys == crate::text::views(all@),
                crate::table::lists(keys, live.dom()),
                pred == (|k: Seq<char>| !wants(desired@, k, live[k].url@)),
                i <= all@.len(),
                crate::text::views(removed@) == keys.take(i as int).filter(pred),
                forall|k: Seq<char>|
                    #[trigger] self@.dom().contains(k) <==> live.dom().contains(k) && !(keys.take(
                        i as int,
                    ).contains(k) && pred(k)),
                forall|k: Seq<char>| #[trigger] self@.dom().contains(k) ==> self@[k] == live[k],
            decreases all@.len() - i,
        {
            let ghost k = keys[i as int];
            let ghost before = removed@;
            let ghost was = self@;
            assert(k == all@[i as int]@);
            assert(keys.contains(k));
            proof {
                crate::seqs::lemma_filter_step(keys, pred, i as int);
                crate::seqs::lemma_take_members(keys, i as int);
                lemma_fresh(keys, i as int);
            }
            let stale: bool = match self.live.get(&all[i]) {
                None => false,
                Some(l) => !is_wanted(&desired, &all[i], &l.url),
            };
            if stale {
                let name: String = all[i].clone();
                self.live.remove(&name);
                removed.push(name);
                assert(crate::text::views(removed@) =~= crate::text::views(before).push(k));
            }
            proof {
                assert(was.dom().contains(k));
                assert(stale == pred(k));
                assert forall|x: Seq<char>|
                    #[trigger] self@.dom().contains(x) <==> live.dom().contains(x) && !(keys.take(
                        i + 1,
                    ).contains(x) && pred(x)) by {
                    assert(keys.take(i + 1).contains(x) <==> keys.take(i as int).contains(x) || x
                        == k);
                    assert(was.dom().contains(x) <==> live.dom().contains(x) && !(keys.take(
                        i as int,
                    ).contains(x) && pred(x)));
                }
            }
            i = i + 1;
        }
        proof {
            assert(keys.take(all@.len() as int) =~= keys);
            assert forall|k: Seq<char>| self@.dom().contains(k) <==> live.dom().contains(k) && wants(
                desired@,
                k,
                live[k].url@,
            ) by {
                assert(keys.take(i as int).contains(k) <==> keys.contains(k));
            }
            assert(self@ =~= kept(live, desired@));
            assert forall|k: Seq<char>| #[trigger] self@.dom().contains(k) implies names(
                desired@,
                k,
            ) by {
                assert(wants(desired@, k, live[k].url@));
            }
        }
        Reload {
            desired,
            at: 0,
            report: ReloadReport { added: Vec::new(), removed, failed: Vec::new() },
        }
    }

    /// The next endpoint that has to be connected; none when the reload is done.
    pub fn next(&self, r: &mut Reload) -> (e: Option<Endpoint>)
        requires
            self.wf(),
            reload_ok(*old(r), self@),
        ensures
            reload_ok(*final(r), self@),
            passes(*old(r), *final(r), self@),
            e is Some == (final(r).at < final(r).desired@.len()),
            e matches Some(x) ==> x == final(r).desired@[final(r).at as int],
            e matches Some(x) ==> !self@.dom().contains(x.name@),
    {
        let ghost start = r.at as int;
        let ghost desired = r.desired@;
        while r.at < r.desired.len() && self.live.contains(&r.desired[r.at].name)
            invariant
                self.wf(),
                r.desired@ == desired,
                r.report == old(r).report,
                reload_ok(*r, self@),
                missing(self@, desired, r.at as int) == missing(self@, desired, start),
            ensures
                r.desired@ == desired,
                r.report == old(r).report,
                reload_ok(*r, self@),
                missing(self@, desired, r.at as int) == missing(self@, desired, start),
                r.at == desired.len() || !self@.dom().contains(desired[r.at as int].name@),
            decreases r.desired@.len() - r.at,
        {
            r.at = r.at + 1;
        }
        if r.at < r.desired.len() {
            let d: &Endpoint = &r.desired[r.at];
            Some(Endpoint { name: d.name.clone(), url: d.url.clone() })
        } else {
            None
        }
    }

    /// Takes the outcome of connecting the endpoint that was next.
    pub fn settle(&mut self, r: &mut Reload, outcome: Result<P, String>)
        requires
            old(self).wf(),
            reload_ok(*old(r), old(self)@),
            old(r).at < old(r).desired@.len(),
            !old(self)@.dom().contains(old(r).desired@[old(r).at as int].name@),
        ensures
            final(self).wf(),
            reload_ok(*final(r), final(self)@),
            settles(*old(r), old(self)@, outcome, *final(r), final(self)@),
    {
        let total: usize = r.desired.len();
        assert(r.at < total);
        let name: String = r.desired[r.at].name.clone();
        let url: String = r.desired[r.at].url.clone();
        let ghost n = name@;
        let ghost before = r.report.failed@;
        assert(names(r.desired@, n)) by {
            assert(r.desired@[r.at as int].name@ == n);
        }
        match outcome {
            Ok(data) => {
                self.live.insert(name.clone(), Live { url, data });
                r.report.added.push(name);
            },
            Err(e) => {
                r.report.failed.push((name, e));
                assert(r.report.failed@[before.len() as int].0@ == n);
                assert forall|k: Seq<char>| has_failed(before, k) implies has_failed(
                    r.report.failed@,
                    k,
                ) by {
                    let i = choose|i: int| 0 <= i < before.len() && (#[trigger] before[i]).0@ == k;
                    assert(r.report.failed@[i].0@ == k);
                }
            },
        }
        r.at = r.at + 1;
    }
}

proof fn lemma_fresh(keys: Seq<Seq<char>>, i: int)
    requires
        crate::table::ascending(keys),
        0 <= i < keys.len(),
    ensures
        !keys.take(i).contains(keys[i]),
{
    if keys.take(i).contains(keys[i]) {
        let t = keys.take(i);
        let j = choose|j: int| 0 <= j < t.len() && t[j] == keys[i];
        assert(crate::table::before(keys[j], keys[i]));
        crate::table::lemma_before_irreflexive(keys[i]);
    }
}

// ---- laws --------------------------------------------------------------------------

/// No two desired endpoints have one name.
pub open spec fn distinct(desired: Seq<Endpoint>) -> bool {
    forall|i: int, j: int|
        0 <= i < j < desired.len() ==> (#[trigger] desired[i]).name@ != (#[trigger] desired[j]).name@
}

/// Whether one of the first `n` desired endpoints has a name.
pub open spec fn names_within(desired: Seq<Endpoint>, n: int, name: Seq<char>) -> bool {
    exists|i: int| 0 <= i < n && i < desired.len() && (#[trigger] desired[i]).name@ == name
}

/// Where a reload stands that kept the endpoints `start`: connected are these and the
/// added ones; the added and the failed ones were none of them, and every endpoint that
/// was passed is one of the three.
pub open spec fn stands<P>(start: Set<Seq<char>>, r: Reload, live: Map<Seq<char>, Live<P>>) -> bool {
    &&& r.at <= r.desired@.len()
    &&& forall|k: Seq<char>| #[trigger]
        live.dom().contains(k) <==> start.contains(k) || listed(r.report.added@, k)
    &&& forall|k: Seq<char>| #[trigger]
        listed(r.report.added@, k) ==> !start.contains(k) && names_within(
            r.desired@,
            r.at as int,
            k,
        )
    &&& forall|k: Seq<char>| #[trigger]
        has_failed(r.report.failed@, k) ==> !start.contains(k) && names_within(
            r.desired@,
            r.at as int,
            k,
        )
    &&& forall|k: Seq<char>| #[trigger]
        names_within(r.desired@, r.at as int, k) ==> start.contains(k) || listed(
            r.report.added@,
            k,
        ) || has_failed(r.report.failed@, k)
    &&& distinct(r.desired@) ==> forall|k: Seq<char>|
        !(#[trigger] listed(r.report.added@, k) && has_failed(r.report.failed@, k))
}

/// A reload stands so when it begins.
pub proof fn reloads_stand_at_the_start<P>(r: Reload, live: Map<Seq<char>, Live<P>>)
    requires
        r.at == 0,
        r.report.added@.len() == 0,
        r.report.failed@.len() == 0,
    ensures
        stands(live.dom(), r, live),
{
}

proof fn lemma_missing<P>(live: Map<Seq<char>, Live<P>>, desired: Seq<Endpoint>, i: int)
    requires
        0 <= i <= desired.len(),
    ensures
        i <= missing(live, desired, i) <= desired.len(),
        forall|j: int|
            i <= j < missing(live, desired, i) ==> live.dom().contains(
                (#[trigger] desired[j]).name@,
            ),
    decreases desired.len() - i,
{
    if i < desired.len() && live.dom().contains(desired[i].name@) {
        lemma_missing(live, desired, i + 1);
    }
}

/// And stands so after going on to the next endpoint,
pub proof fn reloads_stand_after_passing<P>(
    start: Set<Seq<char>>,
    r: Reload,
    post: Reload,
    live: Map<Seq<char>, Live<P>>,
)
    requires
        stands(start, r, live),
        passes(r, post, live),
    ensures
        stands(start, post, live),
{
    let d = r.desired@;
    lemma_missing(live, d, r.at as int);
    assert forall|k: Seq<char>| #[trigger] names_within(d, r.at as int, k) implies names_within(
        d,
        post.at as int,
        k,
    ) by {
        let i = choose|i: int| 0 <= i < r.at && i < d.len() && (#[trigger] d[i]).name@ == k;
        assert(d[i].name@ == k);
    }
    assert forall|k: Seq<char>| #[trigger] names_within(d, post.at as int, k) implies start.contains(
        k,
    ) || listed(r.report.added@, k) || has_failed(r.report.failed@, k) by {
        let i = choose|i: int| 0 <= i < post.at && i < d.len() && (#[trigger] d[i]).name@ == k;
        if i < r.at {
            assert(names_within(d, r.at as int, k));
        } else {
            assert(live.dom().contains(d[i].name@));
        }
    }
}

/// and after the outcome of connecting it.
pub proof fn reloads_stand_after_settling<P>(
    start: Set<Seq<char>>,
    r: Reload,
    live: Map<Seq<char>, Live<P>>,
    outcome: Result<P, String>,
    post: Reload,
    now: Map<Seq<char>, Live<P>>,
)
    requires
        stands(start, r, live),
        r.at < r.desired@.len(),
        !live.dom().contains(r.desired@[r.at as int].name@),
        settles(r, live, outcome, post, now),
    ensures
        stands(start, post, now),
{
    let d = r.desired@;
    let n = d[r.at as int].name@;
    assert forall|k: Seq<char>| #[trigger] names_within(d, post.at as int, k) <==> names_within(
        d,
        r.at as int,
        k,
    ) || k == n by {
        if names_within(d, r.at as int, k) {
            let i = choose|i: int| 0 <= i < r.at && i < d.len() && (#[trigger] d[i]).name@ == k;
            assert(d[i].name@ == k);
        }
        if k == n {
            assert(d[r.at as int].name@ == k);
        }
        if names_within(d, post.at as int, k) {
            let i = choose|i: int| 0 <= i < post.at && i < d.len() && (#[trigger] d[i]).name@ == k;
            assert(d[i].name@ == k);
        }
    }
    assert(distinct(d) ==> !names_within(d, r.at as int, n)) by {
        if distinct(d) && names_within(d, r.at as int, n) {
            let i = choose|i: int| 0 <= i < r.at && i < d.len() && (#[trigger] d[i]).name@ == n;
            assert(d[i].name@ != d[r.at as int].name@);
        }
    }
    assert(!start.contains(n) && !listed(r.report.added@, n)) by {
        assert(!live.dom().contains(n));
    }
    match outcome {
        Ok(_) => {
            let a = r.report.added@;
            let b = post.report.added@;
            assert forall|k: Seq<char>| #[trigger] listed(b, k) <==> listed(a, k) || k == n by {
                if listed(a, k) {
                    let i = choose|i: int| 0 <= i < a.len() && (#[trigger] a[i])@ == k;
                    assert(b[i]@ == k);
                }
                if k == n {
                    assert(b[a.len() as int]@ == k);
                }
                if listed(b, k) {
                    let i = choose|i: int| 0 <= i < b.len() && (#[trigger] b[i])@ == k;
                    if i < a.len() {
                        assert(a[i]@ == k);
                    }
                }
            }
        },
        Err(_) => {
            let a = r.report.failed@;
            let b = post.report.failed@;
            assert forall|k: Seq<char>| #[trigger] has_failed(b, k) <==> has_failed(a, k) || k
                == n by {
                if has_failed(a, k) {
                    let i = choose|i: int| 0 <= i < a.len() && (#[trigger] a[i]).0@ == k;
                    assert(b[i].0@ == k);
                }
                if k == n {
                    assert(b[a.len() as int].0@ == k);
                }
                if has_failed(b, k) {
                    let i = choose|i: int| 0 <= i < b.len() && (#[trigger] b[i]).0@ == k;
                    if i < a.len() {
                        assert(a[i].0@ == k);
                    }
                }
            }
        },
    }
}

/// The whole of a reload of desired endpoints with names of their own, from the connected
/// ones `before`. An endpoint that is connected is reported as removed exactly when it is
/// not desired under its URL. A desired endpoint that was not kept is reported as added or
/// as failed, one of the two, and no other endpoint is. In the end the kept and the added
/// ones are connected. So one whose URL changed is removed and then added, or failed.
pub proof fn finished_reloads_report_all<P>(
    before: Map<Seq<char>, Live<P>>,
    r: Reload,
    live: Map<Seq<char>, Live<P>>,
    k: Seq<char>,
)
    requires
        crate::table::lists(crate::table::sorted(before.dom()), before.dom()),
        crate::text::views(r.report.removed@) == dropped(before, r.desired@),
        stands(kept(before, r.desired@).dom(), r, live),
        r.at == r.desired@.len(),
        distinct(r.desired@),
    ensures
        crate::text::views(r.report.removed@).contains(k) <==> before.dom().contains(k) && !wants(
            r.desired@,
            k,
            before[k].url@,
        ),
        (listed(r.report.added@, k) || has_failed(r.report.failed@, k)) <==> names(r.desired@, k)
            && !(before.dom().contains(k) && wants(r.desired@, k, before[k].url@)),
        !(listed(r.report.added@, k) && has_failed(r.report.failed@, k)),
        live.dom().contains(k) <==> listed(r.report.added@, k) || (before.dom().contains(k)
            && wants(r.desired@, k, before[k].url@)),
        r.desired@.len() == 0 ==> !live.dom().contains(k),
{
    let d = r.desired@;
    let keys = crate::table::sorted(before.dom());
    crate::seqs::lemma_filter_members(keys, |k: Seq<char>| !wants(d, k, before[k].url@), k);
    assert(keys.contains(k) <==> before.dom().contains(k));
    assert(names(d, k) <==> names_within(d, r.at as int, k)) by {
        if names(d, k) {
            let i = choose|i: int| 0 <= i < d.len() && (#[trigger] d[i]).name@ == k;
            assert(d[i].name@ == k);
        }
        if names_within(d, r.at as int, k) {
            let i = choose|i: int| 0 <= i < r.at && i < d.len() && (#[trigger] d[i]).name@ == k;
            assert(d[i].name@ == k);
        }
    }
    assert(live.dom().contains(k) <==> kept(before, d).dom().contains(k) || listed(
        r.report.added@,
        k,
    ));
}

/// When a reload is done, the connected endpoints are desired ones, and every
/// desired one is connected or reported as failed.
pub proof fn done_reload_matches_desired<P>(r: Reload, live: Map<Seq<char>, Live<P>>, i: int, k: Seq<char>)
    requires
        reload_ok(r, live),
        r.at == r.desired@.len(),
        0 <= i < r.desired@.len(),
    ensures
        live.dom().contains(r.desired@[i].name@) || has_failed(
            r.report.failed@,
            r.desired@[i].name@,
        ),
        live.dom().contains(k) ==> names(r.desired@, k),
{
}

/// An endpoint that is no longer desired is dropped, and so is one whose URL has
/// changed; one that is desired as it is stays untouched.
pub proof fn reload_keeps_what_is_wanted<P>(
    live: Map<Seq<char>, Live<P>>,
    desired: Seq<Endpoint>,
    k: Seq<char>,
)
    requires
        live.dom().contains(k),
    ensures
        kept(live, desired).dom().contains(k) <==> wants(desired, k, live[k].url@),
        kept(live, desired).dom().contains(k) ==> kept(live, desired)[k] == live[k],
        !names(desired, k) ==> !kept(live, desired).dom().contains(k),
{
}

/// What a reload keeps and what it removes: a connected endpoint stays as it is where one with
/// its name and its URL is desired, and is removed where none is.
pub proof fn reloads_keep_by_name_and_url<P>(
    live: Map<Seq<char>, Live<P>>,
    desired: Seq<Endpoint>,
    k: Seq<char>,
)
    requires
        crate::table::lists(crate::table::sorted(live.dom()), live.dom()),
    ensures
        ({
            let stays = live.dom().contains(k) && exists|i: int|
                0 <= i < desired.len() && (#[trigger] desired[i]).name@ == k && desired[i].url@
                    == live[k].url@;
            &&& kept(live, desired).dom().contains(k) <==> stays
            &&& stays ==> kept(live, desired)[k] == live[k]
            &&& dropped(live, desired).contains(k) <==> live.dom().contains(k) && !stays
        }),
{
    let keys = crate::table::sorted(live.dom());
    crate::seqs::lemma_filter_members(keys, |k: Seq<char>| !wants(desired, k, live[k].url@), k);
    assert(keys.contains(k) <==> live.dom().contains(k));
}

/// A reload goes on to the next desired endpoint that is not connected, past those that are.
pub proof fn reloads_go_on_to_the_next<P>(
    r: Reload,
    post: Reload,
    live: Map<Seq<char>, Live<P>>,
    i: int,
)
    requires
        passes(r, post, live),
        r.at <= r.desired@.len(),
    ensures
        post.desired@ == r.desired@,
        post.report == r.report,
        r.at <= post.at <= r.desired@.len(),
        r.at <= i < post.at ==> live.dom().contains(r.desired@[i].name@),
        post.at < r.desired@.len() ==> !live.dom().contains(r.desired@[post.at as int].name@),
{
    lemma_first_missing(live, r.desired@, r.at as int, i);
}

proof fn lemma_first_missing<P>(
    live: Map<Seq<char>, Live<P>>,
    desired: Seq<Endpoint>,
    from: int,
    i: int,
)
    requires
        0 <= from <= desired.len(),
    ensures
        from <= missing(live, desired, from) <= desired.len(),
        from <= i < missing(live, desired, from) ==> live.dom().contains(desired[i].name@),
        missing(live, desired, from) < desired.len() ==> !live.dom().contains(
            desired[missing(live, desired, from)].name@,
        ),
    decreases desired.len() - from,
{
    if from < desired.len() && live.dom().contains(desired[from].name@) {
        lemma_first_missing(live, desired, from + 1, i);
    }
}

/// An endpoint that was connected is live under its name with its URL and what it offers, and is
/// reported as added; one that was not is reported as failed with why, and changes nothing.
pub proof fn outcomes_are_reported<P>(
    r: Reload,
    live: Map<Seq<char>, Live<P>>,
    outcome: Result<P, String>,
    post: Reload,
    now: Map<Seq<char>, Live<P>>,
    k: Seq<char>,
)
    requires
        settles(r, live, outcome, post, now),
    ensures
        ({
            let d = r.desired@[r.at as int];
            match outcome {
                Ok(data) => {
                    &&& now.dom().contains(d.name@)
                    &&& now[d.name@].url == d.url
                    &&& now[d.name@].data == data
                    &&& k != d.name@ ==> now.dom().contains(k) == live.dom().contains(k) && now[k]
                        == live[k]
                    &&& post.report.added@ == r.report.added@.push(d.name)
                    &&& post.report.failed@ == r.report.failed@
                },
                Err(e) => {
                    &&& now == live
                    &&& post.report.added@ == r.report.added@
                    &&& post.report.failed@ == r.report.failed@.push((d.name, e))
                },
            }
        }),
        post.at == r.at + 1,
        post.report.removed == r.report.removed,
{
}

/// A reload keeps what is wanted and drops the rest, connects the missing in their order, and
/// reports each: its steps are those that the laws of reloads speak of.
pub proof fn reloads_take_their_steps<P>(
    a: &mut Registry<P>,
    desired: Vec<Endpoint>,
    x: Reload,
    b: &Registry<P>,
    y: &mut Reload,
    e: Option<Endpoint>,
    c: &mut Registry<P>,
    z: &mut Reload,
    outcome: Result<P, String>,
    k: Seq<char>,
)
    requires
        old(a).wf(),
        call_ensures(Registry::begin_reload, (a, desired), x),
        b.wf() && reload_ok(*old(y), b@),
        call_ensures(Registry::next, (b, y), e),
        old(c).wf() && reload_ok(*old(z), old(c)@) && old(z).at < old(z).desired@.len(),
        !old(c)@.dom().contains(old(z).desired@[old(z).at as int].name@),
        call_ensures(Registry::settle, (c, z, outcome), ()),
    ensures
        final(a)@.dom().contains(k) <==> old(a)@.dom().contains(k) && exists|i: int|
            0 <= i < desired@.len() && (#[trigger] desired@[i]).name@ == k && desired@[i].url@
                == old(a)@[k].url@,
        final(a)@.dom().contains(k) ==> final(a)@[k] == old(a)@[k],
        x.desired@ == desired@ && x.at == 0 && x.report.added@.len() == 0 && x.report.failed@.len()
            == 0,
        crate::text::views(x.report.removed@) == dropped(old(a)@, desired@),
        passes(*old(y), *final(y), b@),
        e is Some <==> final(y).at < final(y).desired@.len(),
        e matches Some(d) ==> d == final(y).desired@[final(y).at as int],
        settles(*old(z), old(c)@, outcome, *final(z), final(c)@),
{
    if old(a)@.dom().contains(k) {
        reload_keeps_what_is_wanted(old(a)@, desired@, k);
    }
}

} // verus!
