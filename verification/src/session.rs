//! Sessions: named conversation contexts, each with an optional workspace, and
//! the active one of each sender.

use vstd::prelude::*;
use crate::ids::fresh_id;
use crate::scheduler::wall_secs;
use crate::table::Table;
use crate::text::{cat, dup_opt, same};

verus! {

/// A session.
#[derive(Debug)]
pub struct Session {
    pub id: String,
    /// Human-readable label.
    pub label: String,
    /// Working directory.
    pub workspace: Option<String>,
    /// When it was created, in epoch seconds.
    pub created_at: i64,
}

impl Session {
    /// A copy.
    pub fn dup(&self) -> (r: Self)
        ensures
            r == *self,
    {
        Session {
            id: self.id.clone(),
            label: self.label.clone(),
            workspace: dup_opt(&self.workspace),
            created_at: self.created_at,
        }
    }
}

/// The text of a missing session.
pub open spec fn not_found(id: Seq<char>) -> Seq<char> {
    "session "@ + id + " not found"@
}

/// `a` was created before `b`, or at the same time and has the lesser id.
pub open spec fn older(a: Session, b: Session) -> bool {
    a.created_at < b.created_at || (a.created_at == b.created_at && crate::table::before(
        a.id@,
        b.id@,
    ))
}

/// A list of all sessions, from the oldest on.
pub open spec fn lists_sessions(v: Seq<Session>, sessions: Map<Seq<char>, Session>) -> bool {
    &&& forall|i: int, j: int|
        0 <= i < j < v.len() ==> older(#[trigger] v[i], #[trigger] v[j])
    &&& forall|i: int|
        0 <= i < v.len() ==> sessions.dom().contains((#[trigger] v[i]).id@) && sessions[v[i].id@]
            == v[i]
    &&& forall|k: Seq<char>| #[trigger]
        sessions.dom().contains(k) ==> exists|i: int| 0 <= i < v.len() && (#[trigger] v[i]).id@ == k
}

/// The active sessions once those of `id` have moved to `to`.
pub open spec fn repointed(
    active: Map<Seq<char>, Seq<char>>,
    id: Seq<char>,
    to: Seq<char>,
) -> Map<Seq<char>, Seq<char>> {
    active.map_values(|s: Seq<char>| if s == id { to } else { s })
}

/// The sessions and the active session of each sender.
pub struct SessionManager {
    sessions: Table<Session>,
    active: Table<String>,
    first: String,
    store_dir: String,
}

/// Why a session was not created: the name that was asked for, or the one that was made up, is
/// that of a session that is there.
pub open spec fn is_taken(
    sessions: Map<Seq<char>, Session>,
    id: Option<String>,
    error: Seq<char>,
) -> bool {
    exists|i: Seq<char>| #[trigger]
        sessions.dom().contains(i) && error == "session "@ + i + " already exists"@ && match id {
            Some(g) if g@.len() > 0 => i == g@,
            _ => crate::ids::is_fresh_id(i, "sess-"@),
        }
}

impl SessionManager {
    /// The tables are in order, and each session is stored under its id.
    pub closed spec fn wf(&self) -> bool {
        &&& self.sessions.wf()
        &&& self.active.wf()
        &&& forall|k: Seq<char>| #[trigger]
            self.sessions.map().dom().contains(k) ==> self.sessions.map()[k].id@ == k
    }

    /// The sessions, by id.
    pub closed spec fn sessions(&self) -> Map<Seq<char>, Session> {
        self.sessions.map()
    }

    /// The active session of each sender that switched to one.
    pub closed spec fn active_map(&self) -> Map<Seq<char>, Seq<char>> {
        self.active.map().map_values(|s: String| s@)
    }

    /// The session that exists from the start.
    pub closed spec fn initial(&self) -> Seq<char> {
        self.first@
    }

    /// The ordered ids list the sessions.
    pub proof fn lemma_ids(&self)
        requires
            self.wf(),
        ensures
            crate::table::lists(
                crate::table::sorted(self.sessions().dom()),
                self.sessions().dom(),
            ),
    {
        self.sessions.lemma_keys();
    }

    /// The session of senders that switched to none: the initial one, or the first
    /// in order once that is gone.
    pub open spec fn fallback(&self) -> Seq<char> {
        let ids = crate::table::sorted(self.sessions().dom());
        if self.sessions().dom().contains(self.initial()) {
            self.initial()
        } else if ids.len() > 0 {
            ids[0]
        } else {
            Seq::empty()
        }
    }

    /// The active session of a sender.
    pub open spec fn active_of(&self, sender: Seq<char>) -> Seq<char> {
        if self.active_map().dom().contains(sender) {
            self.active_map()[sender]
        } else {
            self.fallback()
        }
    }

    /// What deleting the session `id` does: it is gone, who was active in it is active in
    /// `to`, and so are those that switched to none if it was theirs.
    pub open spec fn deletes_to(&self, post: &SessionManager, id: Seq<char>, to: Seq<char>) -> bool {
        &&& post.sessions() == self.sessions().remove(id)
        &&& post.active_map() == repointed(self.active_map(), id, to)
        &&& post.initial() == (if self.fallback() == id {
            to
        } else {
            self.initial()
        })
    }

    /// A manager with one session, created at `now`.
    pub fn new_at(default_session: &str, store_dir: &str, now: i64) -> (r: Self)
        ensures
            r.wf(),
            r.initial() == default_session@,
            r.active_map() == Map::<Seq<char>, Seq<char>>::empty(),
            r.sessions().dom() == set![default_session@],
            r.sessions()[default_session@].id@ == default_session@,
            r.sessions()[default_session@].label@ == "Default"@,
            r.sessions()[default_session@].workspace is None,
            r.sessions()[default_session@].created_at == now,
            r.settled(),
    {
        let mut sessions: Table<Session> = Table::new();
        sessions.insert(
            default_session.to_string(),
            Session {
                id: default_session.to_string(),
                label: "Default".to_string(),
                workspace: None,
                created_at: now,
            },
        );
        let r: SessionManager = SessionManager {
            sessions,
            active: Table::new(),
            first: default_session.to_string(),
            store_dir: store_dir.to_string(),
        };
        assert(r.active_map() =~= Map::<Seq<char>, Seq<char>>::empty());
        assert(r.sessions().dom() =~= set![default_session@]);
        assert(r.sessions().dom().contains(default_session@));
        r
    }

    /// A manager with one session, created now.
    pub fn new(default_session: &str, store_dir: &str) -> (r: Self)
        ensures
            r.wf(),
            r.initial() == default_session@,
            r.active_map() == Map::<Seq<char>, Seq<char>>::empty(),
            r.sessions().dom() == set![default_session@],
            r.sessions()[default_session@].id@ == default_session@,
            r.sessions()[default_session@].label@ == "Default"@,
            r.sessions()[default_session@].workspace is None,
            r.settled(),
    {
        SessionManager::new_at(default_session, store_dir, wall_secs())
    }

    /// Creates a session at `now`. Without an id it gets a fresh one.
    pub fn create_at(&mut self, id: Option<String>, label: String, now: i64) -> (r: Result<
        Session,
        String,
    >)
        requires
            old(self).wf(),
        ensures
            final(self).wf(),
            final(self).initial() == old(self).initial(),
            final(self).active_map() == old(self).active_map(),
            match r {
                Ok(s) => {
                    &&& !old(self).sessions().dom().contains(s.id@)
                    &&& match id {
                        Some(i) if i@.len() > 0 => s.id == i,
                        _ => crate::ids::is_fresh_id(s.id@, "sess-"@),
                    }
                    &&& s.label == label
                    &&& s.workspace is None
                    &&& s.created_at == now
                    &&& final(self).sessions() == old(self).sessions().insert(s.id@, s)
                },
                Err(e) => {
                    &&& final(self).sessions() == old(self).sessions()
                    &&& is_taken(old(self).sessions(), id, e@)
                },
            },
            id matches Some(i) ==> i@.len() > 0 ==> (r is Ok
                <==> !old(self).sessions().dom().contains(i@)),
    {
        let name: String = match id {
            Some(s) => if s.as_str().is_empty() {
                fresh_id("sess-")
            } else {
                s
            },
            None => fresh_id("sess-"),
        };
        if self.sessions.contains(&name) {
            let e: String = cat(&cat("session ", &name), " already exists");
            assert(old(self).sessions().dom().contains(name@));
            return Err(e);
        }
        let session: Session = Session { id: name, label, workspace: None, created_at: now };
        let copy: Session = session.dup();
        self.sessions.insert(session.id.clone(), copy);
        Ok(session)
    }

    /// Creates a session now.
    pub fn create(&mut self, id: Option<String>, label: String) -> (r: Result<Session, String>)
        requires
            old(self).wf(),
        ensures
            final(self).wf(),
            final(self).initial() == old(self).initial(),
            final(self).active_map() == old(self).active_map(),
            match r {
                Ok(s) => {
                    &&& !old(self).sessions().dom().contains(s.id@)
                    &&& match id {
                        Some(i) if i@.len() > 0 => s.id == i,
                        _ => crate::ids::is_fresh_id(s.id@, "sess-"@),
                    }
                    &&& s.label == label
                    &&& s.workspace is None
                    &&& final(self).sessions() == old(self).sessions().insert(s.id@, s)
                },
                Err(e) => {
                    &&& final(self).sessions() == old(self).sessions()
                    &&& is_taken(old(self).sessions(), id, e@)
                },
            },
            id matches Some(i) ==> i@.len() > 0 ==> (r is Ok
                <==> !old(self).sessions().dom().contains(i@)),
    {
        self.create_at(id, label, wall_secs())
    }

    /// Whether there is a session.
    pub fn contains(&self, id: &str) -> (r: bool)
        requires
            self.wf(),
        ensures
            r == self.sessions().dom().contains(id@),
    {
        self.sessions.contains(id)
    }

    /// Sets the workspace of a session.
    pub fn set_workspace(&mut self, id: &str, workspace: &str) -> (r: Result<Session, String>)
        requires
            old(self).wf(),
        ensures
            final(self).wf(),
            final(self).initial() == old(self).initial(),
            final(self).active_map() == old(self).active_map(),
            if old(self).sessions().dom().contains(id@) {
                &&& r matches Ok(s)
                &&& s.id == old(self).sessions()[id@].id
                &&& s.label == old(self).sessions()[id@].label
                &&& s.created_at == old(self).sessions()[id@].created_at
                &&& crate::text::opt_view(s.workspace) == Some(workspace@)
                &&& final(self).sessions() == old(self).sessions().insert(id@, s)
            } else {
                &&& r matches Err(e)
                &&& e@ == not_found(id@)
                &&& final(self).sessions() == old(self).sessions()
            },
    {
        match self.sessions.get(id) {
            None => Err(cat(&cat("session ", id), " not found")),
            Some(s) => {
                let mut session: Session = s.dup();
                session.workspace = Some(workspace.to_string());
                let copy: Session = session.dup();
                self.sessions.insert(id.to_string(), copy);
                Ok(session)
            },
        }
    }

    /// Makes a session the active one of a sender.
    pub fn switch(&mut self, sender: &str, id: &str) -> (r: Result<Session, String>)
        requires
            old(self).wf(),
        ensures
            final(self).wf(),
            final(self).initial() == old(self).initial(),
            final(self).sessions() == old(self).sessions(),
            if old(self).sessions().dom().contains(id@) {
                &&& r == Ok::<Session, String>(old(self).sessions()[id@])
                &&& final(self).active_map() == old(self).active_map().insert(sender@, id@)
            } else {
                &&& r matches Err(e)
                &&& e@ == not_found(id@)
                &&& final(self).active_map() == old(self).active_map()
            },
    {
        match self.sessions.get(id) {
            None => Err(cat(&cat("session ", id), " not found")),
            Some(s) => {
                let session: Session = s.dup();
                let ghost before = self.active.map();
                let k: String = sender.to_string();
                let v: String = id.to_string();
                self.active.insert(k, v);
                assert(before.insert(k@, v).map_values(|s: String| s@) =~= before.map_values(
                    |s: String| s@,
                ).insert(sender@, id@));
                Ok(session)
            },
        }
    }

    /// The id of the session of senders that switched to none.
    fn fallback_id(&self) -> (r: String)
        requires
            self.wf(),
        ensures
            r@ == self.fallback(),
    {
        proof {
            self.sessions.lemma_keys();
        }
        if self.sessions.contains(&self.first) {
            self.first.clone()
        } else if self.sessions.len() > 0 {
            self.sessions.key_at(0).clone()
        } else {
            let none: String = String::new();
            assert(none@ =~= Seq::<char>::empty());
            none
        }
    }

    /// The id of the active session of a sender.
    pub fn active_id(&self, sender: &str) -> (r: String)
        requires
            self.wf(),
        ensures
            r@ == self.active_of(sender@),
    {
        match self.active.get(sender) {
            Some(id) => id.clone(),
            None => self.fallback_id(),
        }
    }

    /// The active session of a sender.
    pub fn active(&self, sender: &str) -> (r: Option<Session>)
        requires
            self.wf(),
        ensures
            r is Some == self.sessions().dom().contains(self.active_of(sender@)),
            r matches Some(s) ==> s == self.sessions()[self.active_of(sender@)],
    {
        let id: String = self.active_id(sender);
        match self.sessions.get(&id) {
            None => None,
            Some(s) => Some(s.dup()),
        }
    }

    /// All sessions, from the oldest on.
    pub fn list(&self) -> (r: Vec<Session>)
        requires
            self.wf(),
        ensures
            lists_sessions(r@, self.sessions()),
    {
        let ghost keys = self.sessions.keys();
        let ghost all = self.sessions();
        proof {
            self.sessions.lemma_keys();
        }
        let mut out: Vec<Session> = Vec::new();
        let mut i: usize = 0;
        while i < self.sessions.len()
            invariant
                self.wf(),
                all == self.sessions.map(),
                keys == self.sessions.keys(),
                crate::table::lists(keys, all.dom()),
                keys.len() == self.sessions.values().len(),
                forall|j: int|
                    0 <= j < keys.len() ==> #[trigger] self.sessions.values()[j] == all[keys[j]],
                i <= keys.len(),
                forall|a: int, b: int|
                    0 <= a < b < out@.len() ==> older(#[trigger] out@[a], #[trigger] out@[b]),
                forall|a: int|
                    0 <= a < out@.len() ==> all.dom().contains((#[trigger] out@[a]).id@)
                        && all[out@[a].id@] == out@[a],
                forall|a: int|
                    0 <= a < out@.len() ==> keys.take(i as int).contains(
                        (#[trigger] out@[a]).id@,
                    ),
                forall|k: Seq<char>| #[trigger]
                    keys.take(i as int).contains(k) ==> exists|a: int|
                        0 <= a < out@.len() && (#[trigger] out@[a]).id@ == k,
            decreases keys.len() - i,
        {
            let ghost key = keys[i as int];
            assert(keys.contains(key));
            let s: Session = self.sessions.value_at(i).dup();
            assert(s == all[key]);
            let ghost before = out@;
            let mut p: usize = out.len();
            while p > 0 && out[p - 1].created_at > s.created_at
                invariant
                    p <= out@.len(),
                    out@ == before,
                    forall|a: int| p <= a < out@.len() ==> (#[trigger] out@[a]).created_at
                        > s.created_at,
                ensures
                    p <= out@.len(),
                    out@ == before,
                    forall|a: int| p <= a < out@.len() ==> (#[trigger] out@[a]).created_at
                        > s.created_at,
                    p == 0 || out@[p - 1].created_at <= s.created_at,
                decreases p,
            {
                p = p - 1;
            }
            proof {
                assert forall|a: int| 0 <= a < p implies older(#[trigger] before[a], s) by {
                    if a < p - 1 {
                        assert(older(before[a], before[p - 1]));
                    }
                    let t = keys.take(i as int);
                    assert(t.contains(before[a].id@));
                    let j = choose|j: int| 0 <= j < t.len() && t[j] == before[a].id@;
                    assert(crate::table::before(keys[j], keys[i as int]));
                }
                crate::seqs::lemma_take_members(keys, i as int);
            }
            out.insert(p, s);
            proof {
                assert(out@ =~= before.insert(p as int, s));
                assert forall|a: int, b: int| 0 <= a < b < out@.len() implies older(
                    #[trigger] out@[a],
                    #[trigger] out@[b],
                ) by {
                    if a < p && b < p {
                        assert(older(before[a], before[b]));
                    } else if a < p && b == p {
                        assert(older(before[a], s));
                    } else if a < p {
                        assert(older(before[a], before[b - 1]));
                    } else if a == p {
                        assert(before[b - 1].created_at > s.created_at);
                    } else {
                        assert(older(before[a - 1], before[b - 1]));
                    }
                }
                assert forall|k: Seq<char>| #[trigger] keys.take(i + 1).contains(k) implies exists|
                    a: int,
                |
                    0 <= a < out@.len() && (#[trigger] out@[a]).id@ == k by {
                    if k == key {
                        assert(out@[p as int].id@ == k);
                    } else {
                        let a = choose|a: int|
                            0 <= a < before.len() && (#[trigger] before[a]).id@ == k;
                        if a < p {
                            assert(out@[a].id@ == k);
                        } else {
                            assert(out@[a + 1].id@ == k);
                        }
                    }
                }
                assert forall|a: int| 0 <= a < out@.len() implies keys.take(i + 1).contains(
                    (#[trigger] out@[a]).id@,
                ) && all.dom().contains(out@[a].id@) && all[out@[a].id@] == out@[a] by {
                    if a < p {
                        assert(keys.take(i as int).contains(before[a].id@));
                    } else if a > p {
                        assert(keys.take(i as int).contains(before[a - 1].id@));
                    }
                }
            }
            i = i + 1;
        }
        proof {
            assert(keys.take(keys.len() as int) =~= keys);
            assert forall|k: Seq<char>| #[trigger] all.dom().contains(k) implies exists|a: int|
                0 <= a < out@.len() && (#[trigger] out@[a]).id@ == k by {
                assert(keys.contains(k));
                assert(keys.take(i as int).contains(k));
            }
        }
        out
    }

    /// Deletes a session other than the default one, and moves the senders that were
    /// active in it to the default one, those that switched to none among them.
    pub fn delete(&mut self, id: &str, default_session: &str) -> (r: Result<(), String>)
        requires
            old(self).wf(),
        ensures
            final(self).wf(),
            if id@ == default_session@ {
                &&& r matches Err(e)
                &&& e@ == "cannot delete the default session"@
                &&& final(self).initial() == old(self).initial()
                &&& final(self).sessions() == old(self).sessions()
                &&& final(self).active_map() == old(self).active_map()
            } else if !old(self).sessions().dom().contains(id@) {
                &&& r matches Err(e)
                &&& e@ == not_found(id@)
                &&& final(self).initial() == old(self).initial()
                &&& final(self).sessions() == old(self).sessions()
                &&& final(self).active_map() == old(self).active_map()
            } else {
                &&& r is Ok
                &&& old(self).deletes_to(final(self), id@, default_session@)
            },
    {
        if same(id, default_session) {
            return Err("cannot delete the default session".to_string());
        }
        let common: bool = same(&self.fallback_id(), id);
        if self.sessions.remove(id).is_none() {
            assert(self.sessions.map() =~= old(self).sessions.map());
            return Err(cat(&cat("session ", id), " not found"));
        }
        self.repoint(id, default_session);
        if common {
            self.first = default_session.to_string();
        }
        Ok(())
    }

    fn repoint(&mut self, id: &str, to: &str)
        requires
            old(self).active.wf(),
        ensures
            final(self).active.wf(),
            final(self).sessions == old(self).sessions,
            final(self).first == old(self).first,
            final(self).active_map() == repointed(old(self).active_map(), id@, to@),
    {
        let ghost start = self.active.map();
        let ghost keys = self.active.keys();
        proof {
            self.active.lemma_keys();
        }
        let n: usize = self.active.len();
        let mut i: usize = 0;
        while i < n
            invariant
                n == keys.len(),
                keys == crate::table::sorted(start.dom()),
                self.sessions == old(self).sessions,
                self.first == old(self).first,
                self.active.wf(),
                crate::table::lists(keys, start.dom()),
                self.active.map().dom() == start.dom(),
                i <= n,
                forall|j: int|
                    0 <= j < i ==> self.active.map()[#[trigger] keys[j]]@ == (if start[keys[j]]@
                        == id@ {
                        to@
                    } else {
                        start[keys[j]]@
                    }),
                forall|j: int|
                    i <= j < n ==> self.active.map()[#[trigger] keys[j]] == start[keys[j]],
            decreases n - i,
        {
            proof {
                self.active.lemma_keys();
                assert(keys.contains(keys[i as int]));
                assert forall|j: int| 0 <= j < n && j != i implies keys[j] != keys[i as int] by {
                    crate::table::lemma_before_irreflexive(keys[i as int]);
                    if j < i {
                        assert(crate::table::before(keys[j], keys[i as int]));
                    } else {
                        assert(crate::table::before(keys[i as int], keys[j]));
                    }
                }
            }
            let stale: bool = same(self.active.value_at(i), id);
            if stale {
                let sender: String = self.active.key_at(i).clone();
                self.active.insert(sender, to.to_string());
                assert(self.active.map().dom() =~= start.dom());
            }
            i = i + 1;
        }
        proof {
            let m = start.map_values(|s: String| s@);
            assert forall|k: Seq<char>| start.dom().contains(k) implies self.active.map()[k]@ == (
            if start[k]@ == id@ {
                to@
            } else {
                start[k]@
            }) by {
                assert(keys.contains(k));
                let j = choose|j: int| 0 <= j < keys.len() && keys[j] == k;
                assert(self.active.map()[keys[j]]@ == (if start[keys[j]]@ == id@ {
                    to@
                } else {
                    start[keys[j]]@
                }));
            }
            assert(self.active_map() =~= repointed(m, id@, to@));
        }
    }
}

// ---- laws --------------------------------------------------------------------------

/// A sender that switches to a session is active in it, and no other sender is
/// moved.
pub proof fn switching_moves_one_sender(
    pre: SessionManager,
    post: SessionManager,
    sender: Seq<char>,
    id: Seq<char>,
    other: Seq<char>,
)
    requires
        post.sessions() == pre.sessions(),
        post.initial() == pre.initial(),
        post.active_map() == pre.active_map().insert(sender, id),
    ensures
        post.active_of(sender) == id,
        other != sender ==> post.active_of(other) == pre.active_of(other),
{
}

/// Once a session is deleted no sender is active in it: those who were, whether they had
/// switched to it or to none, are in the default one, and all others stay where they were.
pub proof fn nobody_stays_in_a_deleted_session(
    pre: SessionManager,
    post: SessionManager,
    id: Seq<char>,
    to: Seq<char>,
    sender: Seq<char>,
)
    requires
        pre.wf(),
        post.wf(),
        id != to,
        pre.sessions().dom().contains(to),
        pre.deletes_to(&post, id, to),
    ensures
        post.active_of(sender) == (if pre.active_of(sender) == id {
            to
        } else {
            pre.active_of(sender)
        }),
        post.active_of(sender) != id,
        !post.sessions().dom().contains(id),
        forall|other: Seq<char>|
            #![trigger post.sessions().dom().contains(other)]
            other != id ==> (post.sessions().dom().contains(other)
                <==> pre.sessions().dom().contains(other)) && post.sessions()[other]
                == pre.sessions()[other],
{
    let a = crate::table::sorted(pre.sessions().dom());
    let b = crate::table::sorted(post.sessions().dom());
    pre.sessions.lemma_keys();
    post.sessions.lemma_keys();
    if !pre.sessions().dom().contains(pre.initial()) && pre.fallback() != id {
        assert(a.contains(to));
        assert(post.sessions().dom().contains(to));
        assert(b.contains(to));
        assert(a.contains(a[0]));
        assert(b.contains(b[0]));
        let x = a[0];
        let y = b[0];
        assert(post.sessions().dom().contains(x));
        assert(b.contains(x));
        assert(pre.sessions().dom().contains(y));
        assert(a.contains(y));
        if x != y {
            let i = choose|i: int| 0 <= i < b.len() && b[i] == x;
            let j = choose|j: int| 0 <= j < a.len() && a[j] == y;
            assert(crate::table::before(b[0], b[i]));
            assert(crate::table::before(a[0], a[j]));
            crate::table::lemma_before_transitive(x, y, x);
            crate::table::lemma_before_irreflexive(x);
        }
    }
}

impl SessionManager {
    /// There is a session, and every sender that switched is in one that exists.
    pub open spec fn settled(&self) -> bool {
        &&& exists|k: Seq<char>| #[trigger] self.sessions().dom().contains(k)
        &&& forall|k: Seq<char>| #[trigger]
            self.active_map().dom().contains(k) ==> self.sessions().dom().contains(
                self.active_map()[k],
            )
    }

    /// What creating, switching and deleting do; a deletion moves senders to a
    /// session that exists.
    pub open spec fn steps_to(&self, post: &SessionManager) -> bool {
        ||| exists|s: Session|
            post.sessions() == #[trigger] self.sessions().insert(s.id@, s) && post.active_map()
                == self.active_map()
        ||| exists|sender: Seq<char>, id: Seq<char>|
            self.sessions().dom().contains(id) && post.sessions() == self.sessions()
                && post.active_map() == #[trigger] self.active_map().insert(sender, id)
        ||| exists|id: Seq<char>, to: Seq<char>|
            id != to && self.sessions().dom().contains(to) && post.sessions()
                == self.sessions().remove(id) && post.active_map() == #[trigger] repointed(
                self.active_map(),
                id,
                to,
            )
    }
}

/// A manager is settled from the start, and stays so whatever is done with it.
pub proof fn managers_stay_settled(pre: SessionManager, post: SessionManager)
    requires
        pre.settled(),
        pre.steps_to(&post),
    ensures
        post.settled(),
{
    let k = choose|k: Seq<char>| #[trigger] pre.sessions().dom().contains(k);
    if exists|s: Session|
        post.sessions() == #[trigger] pre.sessions().insert(s.id@, s) && post.active_map()
            == pre.active_map() {
        assert(post.sessions().dom().contains(k));
    } else if exists|sender: Seq<char>, id: Seq<char>|
        pre.sessions().dom().contains(id) && post.sessions() == pre.sessions()
            && post.active_map() == #[trigger] pre.active_map().insert(sender, id) {
        assert(post.sessions().dom().contains(k));
    } else {
        let (id, to) = choose|id: Seq<char>, to: Seq<char>|
            id != to && pre.sessions().dom().contains(to) && post.sessions()
                == pre.sessions().remove(id) && post.active_map() == #[trigger] repointed(
                pre.active_map(),
                id,
                to,
            );
        assert(post.sessions().dom().contains(to));
        assert forall|s: Seq<char>| #[trigger]
            post.active_map().dom().contains(s) implies post.sessions().dom().contains(
            post.active_map()[s],
        ) by {
            assert(pre.active_map().dom().contains(s));
        }
    }
}

/// In a settled manager the active session of every sender exists.
pub proof fn active_sessions_exist(m: SessionManager, sender: Seq<char>)
    requires
        m.wf(),
        m.settled(),
    ensures
        m.sessions().dom().contains(m.active_of(sender)),
{
    m.lemma_ids();
    let ids = crate::table::sorted(m.sessions().dom());
    let k = choose|k: Seq<char>| #[trigger] m.sessions().dom().contains(k);
    assert(ids.contains(k));
    assert(ids.contains(ids[0]));
}

/// The active session of a sender is the one that they switched to, and of one that switched
/// to none the one that exists from the start, while it exists.
pub proof fn senders_are_where_they_switched(m: &SessionManager, sender: &str, r: String)
    requires
        m.wf(),
        call_ensures(SessionManager::active_id, (m, sender), r),
    ensures
        m.active_map().dom().contains(sender@) ==> r@ == m.active_map()[sender@],
        !m.active_map().dom().contains(sender@) && m.sessions().dom().contains(m.initial()) ==> r@
            == m.initial(),
        !m.active_map().dom().contains(sender@) && (exists|k: Seq<char>| #[trigger]
            m.sessions().dom().contains(k)) ==> m.sessions().dom().contains(r@),
{
    m.lemma_ids();
    let ids = crate::table::sorted(m.sessions().dom());
    if exists|k: Seq<char>| #[trigger] m.sessions().dom().contains(k) {
        let k = choose|k: Seq<char>| #[trigger] m.sessions().dom().contains(k);
        assert(ids.contains(k));
        assert(ids.contains(ids[0]));
    }
}

/// Sessions are listed from the oldest on, every one of them once.
pub proof fn sessions_are_listed_by_age(m: &SessionManager, r: Vec<Session>, k: Seq<char>)
    requires
        m.wf(),
        call_ensures(SessionManager::list, (m,), r),
    ensures
        forall|i: int, j: int|
            0 <= i < j < r@.len() ==> (#[trigger] r@[i]).created_at <= (#[trigger] r@[j]).created_at
                && r@[i].id@ != r@[j].id@,
        m.sessions().dom().contains(k) <==> exists|i: int|
            0 <= i < r@.len() && (#[trigger] r@[i]).id@ == k,
        forall|i: int|
            0 <= i < r@.len() ==> m.sessions()[(#[trigger] r@[i]).id@] == r@[i],
{
    assert forall|i: int, j: int| 0 <= i < j < r@.len() implies (#[trigger] r@[i]).created_at <= (
    #[trigger] r@[j]).created_at && r@[i].id@ != r@[j].id@ by {
        assert(older(r@[i], r@[j]));
        if r@[i].id@ == r@[j].id@ {
            assert(r@[i] == r@[j]);
            crate::table::lemma_before_irreflexive(r@[i].id@);
        }
    }
}

/// Switching moves the sender to a session that exists and nobody else; to one that does not, it
/// moves nobody.
pub proof fn switches_move_their_sender(
    m: &mut SessionManager,
    sender: &str,
    id: &str,
    r: Result<Session, String>,
    other: Seq<char>,
)
    requires
        old(m).wf(),
        call_ensures(SessionManager::switch, (m, sender, id), r),
    ensures
        r is Ok <==> old(m).sessions().dom().contains(id@),
        r matches Ok(s) ==> s == old(m).sessions()[id@] && final(m).active_of(sender@) == id@,
        r matches Err(e) ==> e@ == "session "@ + id@ + " not found"@ && final(m).active_of(sender@)
            == old(m).active_of(sender@),
        other != sender@ ==> final(m).active_of(other) == old(m).active_of(other),
        final(m).sessions() == old(m).sessions(),
{
}

/// A workspace is set for its session alone, and nothing else of the session changes.
pub proof fn workspaces_are_of_their_session(
    m: &mut SessionManager,
    id: &str,
    workspace: &str,
    r: Result<Session, String>,
    other: Seq<char>,
)
    requires
        old(m).wf(),
        call_ensures(SessionManager::set_workspace, (m, id, workspace), r),
    ensures
        r is Ok <==> old(m).sessions().dom().contains(id@),
        r matches Ok(s) ==> {
            &&& final(m).sessions()[id@] == s
            &&& s.workspace matches Some(w)
            &&& w@ == workspace@
            &&& s.id == old(m).sessions()[id@].id
            &&& s.label == old(m).sessions()[id@].label
            &&& s.created_at == old(m).sessions()[id@].created_at
        },
        r matches Err(e) ==> e@ == "session "@ + id@ + " not found"@ && final(m).sessions() == old(m).sessions(),
        other != id@ ==> final(m).sessions().dom().contains(other) == old(m).sessions().dom().contains(other) && final(m).sessions()[other] == old(m).sessions()[other],
        final(m).active_map() == old(m).active_map(),
{
}

/// A session is created as asked, unless one of its name is there already; a session without a
/// name gets a fresh one.
pub proof fn sessions_are_created_as_asked(
    m: &mut SessionManager,
    id: Option<String>,
    label: String,
    now: i64,
    r: Result<Session, String>,
    other: Seq<char>,
)
    requires
        old(m).wf(),
        call_ensures(SessionManager::create_at, (m, id, label, now), r),
    ensures
        r matches Ok(s) ==> {
            &&& s.label@ == label@ && s.workspace is None && s.created_at == now
            &&& !old(m).sessions().dom().contains(s.id@)
            &&& final(m).sessions().dom().contains(s.id@) && final(m).sessions()[s.id@] == s
            &&& other != s.id@ ==> final(m).sessions().dom().contains(other) == old(m).sessions().dom().contains(other) && final(m).sessions()[other] == old(m).sessions()[other]
            &&& id matches Some(i) ==> i@.len() > 0 ==> s.id@ == i@
            &&& !(id matches Some(i) && i@.len() > 0) ==> s.id@.len() == 37 && crate::text::begins(
                s.id@,
                "sess-"@,
            )
        },
        r matches Err(e) ==> final(m).sessions() == old(m).sessions() && (id matches Some(i)
            ==> i@.len() > 0 ==> e@ == "session "@ + i@ + " already exists"@),
        id matches Some(i) ==> i@.len() > 0 ==> (r is Err <==> old(m).sessions().dom().contains(
            i@,
        )),
        final(m).active_map() == old(m).active_map(),
{
    reveal_strlit("sess-");
}

/// A session is deleted with everyone in it moved to the default; the default stays, and so does
/// everything when there is no such session.
pub proof fn deletions_take_one_session(
    m: &mut SessionManager,
    id: &str,
    default_session: &str,
    r: Result<(), String>,
    other: Seq<char>,
    sender: Seq<char>,
)
    requires
        old(m).wf(),
        call_ensures(SessionManager::delete, (m, id, default_session), r),
    ensures
        r is Ok <==> id@ != default_session@ && old(m).sessions().dom().contains(id@),
        id@ == default_session@ ==> (r matches Err(e) && e@ == "cannot delete the default session"@),
        id@ != default_session@ && !old(m).sessions().dom().contains(id@) ==> (r matches Err(e)
            && e@ == "session "@ + id@ + " not found"@),
        r is Err ==> final(m).sessions() == old(m).sessions() && final(m).active_map() == old(m).active_map(),
        r is Ok ==> {
            &&& !final(m).sessions().dom().contains(id@)
            &&& other != id@ ==> final(m).sessions().dom().contains(other) == old(m).sessions().dom().contains(other) && final(m).sessions()[other] == old(m).sessions()[other]
            &&& old(m).active_map().dom().contains(sender) ==> final(m).active_map().dom().contains(sender) && final(m).active_map()[sender] == (if old(m).active_map()[sender] == id@ {
                default_session@
            } else {
                old(m).active_map()[sender]
            })
        },
{
}

/// Whoever has not switched is in the first session of all; once that is gone, in the session of
/// the least id.
pub proof fn others_are_in_the_least(m: &SessionManager, sender: &str, r: String, k: Seq<char>)
    requires
        m.wf(),
        call_ensures(SessionManager::active_id, (m, sender), r),
        !m.active_map().dom().contains(sender@),
        !m.sessions().dom().contains(m.initial()),
        m.sessions().dom().contains(k),
    ensures
        m.sessions().dom().contains(r@),
        r@ == k || crate::table::before(r@, k),
{
    m.sessions.lemma_keys();
    let ids = crate::table::sorted(m.sessions().dom());
    assert(ids.contains(k));
    let j = choose|j: int| 0 <= j < ids.len() && ids[j] == k;
    if j > 0 {
        assert(crate::table::before(ids[0], ids[j]));
    }
    assert(ids.contains(ids[0]));
}

} // verus!
