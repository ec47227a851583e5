//! Human confirmation of tool calls: which tools need it, what is pending, and
//! what an answer or its absence means.

use vstd::prelude::*;
use crate::config::HitlConfig;
use crate::ids::fresh_id;
use crate::table::Table;
use crate::text::chars_of;

verus! {

// ---- globs -----------------------------------------------------------------------

/// Whether a text matches a glob: `*` stands for any run of characters, `?` for
/// one, and every other character for itself.
pub open spec fn glob(p: Seq<char>, s: Seq<char>) -> bool
    decreases p.len() + s.len(),
{
    if p.len() == 0 {
        s.len() == 0
    } else if p[0] == '*' {
        glob(p.drop_first(), s) || (s.len() > 0 && glob(p, s.drop_first()))
    } else {
        s.len() > 0 && (p[0] == '?' || p[0] == s[0]) && glob(p.drop_first(), s.drop_first())
    }
}

/// What a glob that starts with a star matches, it matches behind anything.
proof fn lemma_star_absorbs(p: Seq<char>, s: Seq<char>, k: int)
    requires
        p.len() > 0,
        p[0] == '*',
        0 <= k <= s.len(),
        glob(p, s.skip(k)),
    ensures
        glob(p, s),
    decreases k,
{
    if k == 0 {
        assert(s.skip(0) =~= s);
    } else {
        let t = s.skip(k - 1);
        assert(t.drop_first() =~= s.skip(k));
        assert(glob(p, t));
        lemma_star_absorbs(p, s, k - 1);
    }
}

/// What a glob that starts with a star matches, its rest matches somewhere in.
proof fn lemma_star_splits(p: Seq<char>, s: Seq<char>) -> (k: int)
    requires
        p.len() > 0,
        p[0] == '*',
        glob(p, s),
    ensures
        0 <= k <= s.len(),
        glob(p.drop_first(), s.skip(k)),
    decreases s.len(),
{
    if glob(p.drop_first(), s) {
        assert(s.skip(0) =~= s);
        0
    } else {
        let k = lemma_star_splits(p, s.drop_first());
        assert(s.drop_first().skip(k) =~= s.skip(k + 1));
        k + 1
    }
}

/// A glob whose first `n` characters are no stars consumes `n` characters with
/// them.
proof fn lemma_plain_prefix(p: Seq<char>, s: Seq<char>, n: int)
    requires
        0 <= n <= p.len(),
        forall|i: int| 0 <= i < n ==> p[i] != '*',
        glob(p, s),
    ensures
        n <= s.len(),
        glob(p.skip(n), s.skip(n)),
    decreases n,
{
    if n == 0 {
        assert(p.skip(0) =~= p);
        assert(s.skip(0) =~= s);
    } else {
        let p1 = p.drop_first();
        let s1 = s.drop_first();
        assert forall|i: int| 0 <= i < n - 1 implies p1[i] != '*' by {
            assert(p1[i] == p[i + 1]);
        }
        lemma_plain_prefix(p1, s1, n - 1);
        assert(p1.skip(n - 1) =~= p.skip(n));
        assert(s1.skip(n - 1) =~= s.skip(n));
    }
}

/// A glob of stars alone matches the empty text, and no other glob does.
proof fn lemma_glob_empty(p: Seq<char>)
    ensures
        glob(p, Seq::<char>::empty()) <==> forall|i: int| 0 <= i < p.len() ==> p[i] == '*',
    decreases p.len(),
{
    let e = Seq::<char>::empty();
    if p.len() > 0 {
        let t = p.drop_first();
        lemma_glob_empty(t);
        if p[0] == '*' {
            if glob(p, e) {
                assert forall|i: int| 0 <= i < p.len() implies p[i] == '*' by {
                    if i > 0 {
                        assert(t[i - 1] == p[i]);
                    }
                }
            }
            if forall|i: int| 0 <= i < p.len() ==> p[i] == '*' {
                assert forall|i: int| 0 <= i < t.len() implies t[i] == '*' by {
                    assert(t[i] == p[i + 1]);
                }
            }
        }
    }
}

/// Where the search for a match stands: with no star seen yet, the rest of the
/// pattern has to match the rest of the text; with one, the pattern from the star
/// on has to match the text from where the star began, and what follows the star
/// has matched so far without another star.
spec fn searching(
    p: Seq<char>,
    s: Seq<char>,
    pi: int,
    si: int,
    star: Option<usize>,
    from: int,
) -> bool {
    &&& 0 <= pi <= p.len()
    &&& 0 <= si <= s.len()
    &&& match star {
        None => glob(p, s) == glob(p.skip(pi), s.skip(si)),
        Some(sp) => {
            &&& sp < pi
            &&& p[sp as int] == '*'
            &&& 0 <= from <= si
            &&& pi - (sp + 1) == si - from
            &&& forall|i: int| sp < i < pi ==> p[i] != '*'
            &&& glob(p, s) == glob(p.skip(sp as int), s.skip(from))
            &&& glob(p.skip(sp + 1), s.skip(from)) == glob(p.skip(pi), s.skip(si))
        },
    }
}

/// With another star reached, the star before it no longer matters.
proof fn lemma_last_star(p: Seq<char>, s: Seq<char>, pi: int, si: int, star: Option<usize>, from: int)
    requires
        searching(p, s, pi, si, star, from),
        pi < p.len(),
        p[pi] == '*',
    ensures
        glob(p, s) == glob(p.skip(pi), s.skip(si)),
{
    if let Some(sp) = star {
        let a = p.skip(sp as int);
        let t = s.skip(from);
        assert(a.drop_first() =~= p.skip(sp + 1));
        if glob(p.skip(pi), s.skip(si)) {
            assert(glob(a, t));
        }
        if glob(a, t) {
            let k = lemma_star_splits(a, t);
            let n = pi - (sp + 1);
            let b = p.skip(sp + 1);
            let u = t.skip(k);
            assert forall|i: int| 0 <= i < n implies b[i] != '*' by {
                assert(b[i] == p[sp + 1 + i]);
            }
            lemma_plain_prefix(b, u, n);
            assert(b.skip(n) =~= p.skip(pi));
            assert(u.skip(n) =~= s.skip(si).skip(k));
            lemma_star_absorbs(p.skip(pi), s.skip(si), k);
        }
    }
}

/// At the end of the text, what is left of the pattern decides.
proof fn lemma_end(p: Seq<char>, s: Seq<char>, pi: int, star: Option<usize>, from: int)
    requires
        searching(p, s, pi, s.len() as int, star, from),
    ensures
        glob(p, s) == glob(p.skip(pi), Seq::<char>::empty()),
{
    assert(s.skip(s.len() as int) =~= Seq::<char>::empty());
    if let Some(sp) = star {
        let a = p.skip(sp as int);
        let t = s.skip(from);
        assert(a.drop_first() =~= p.skip(sp + 1));
        if glob(a, t) {
            let k = lemma_star_splits(a, t);
            let n = pi - (sp + 1);
            let b = p.skip(sp + 1);
            assert forall|i: int| 0 <= i < n implies b[i] != '*' by {
                assert(b[i] == p[sp + 1 + i]);
            }
            lemma_plain_prefix(b, t.skip(k), n);
            assert(k == 0);
            assert(t.skip(0) =~= t);
        }
    }
}

/// Whether a text matches a glob. The search keeps the last star and widens its
/// run when what follows it does not match.
pub fn glob_inner(pat: &[char], s: &[char]) -> (r: bool)
    ensures
        r == glob(pat@, s@),
{
    let mut pi: usize = 0;
    let mut si: usize = 0;
    let mut star: Option<usize> = None;
    let mut from: usize = 0;
    let ghost p = pat@;
    let ghost t = s@;
    let n: usize = s.len();
    assert(p.skip(0) =~= p);
    assert(t.skip(0) =~= t);
    while si < n
        invariant
            p == pat@,
            t == s@,
            n == t.len(),
            searching(p, t, pi as int, si as int, star, from as int),
        decreases
            p.len() - (match star {
                None => -1int,
                Some(sp) => sp as int,
            }),
            n - from,
            n - si,
    {
        assert(p.skip(pi as int).len() == p.len() - pi);
        assert(t.skip(si as int)[0] == t[si as int]);
        assert(t.skip(si as int).drop_first() =~= t.skip(si + 1));
        if pi < pat.len() && pat[pi] == '*' {
            proof {
                lemma_last_star(p, t, pi as int, si as int, star, from as int);
            }
            star = Some(pi);
            from = si;
            pi = pi + 1;
        } else if pi < pat.len() && (pat[pi] == '?' || pat[pi] == s[si]) {
            assert(p.skip(pi as int)[0] == p[pi as int]);
            assert(p.skip(pi as int).drop_first() =~= p.skip(pi + 1));
            pi = pi + 1;
            si = si + 1;
        } else {
            assert(!glob(p.skip(pi as int), t.skip(si as int))) by {
                if pi < p.len() {
                    assert(p.skip(pi as int)[0] == p[pi as int]);
                }
            }
            match star {
                Some(sp) => {
                    assert(p.skip(sp as int).drop_first() =~= p.skip(sp + 1));
                    assert(t.skip(from as int).drop_first() =~= t.skip(from + 1));
                    pi = sp + 1;
                    from = from + 1;
                    si = from;
                },
                None => {
                    return false;
                },
            }
        }
    }
    proof {
        lemma_end(p, t, pi as int, star, from as int);
        lemma_glob_empty(p.skip(pi as int));
    }
    let ghost start = pi as int;
    while pi < pat.len() && pat[pi] == '*'
        invariant
            p == pat@,
            start <= pi <= p.len(),
            forall|i: int| start <= i < pi ==> p[i] == '*',
        ensures
            start <= pi <= p.len(),
            forall|i: int| start <= i < pi ==> p[i] == '*',
            pi == p.len() || p[pi as int] != '*',
        decreases p.len() - pi,
    {
        pi = pi + 1;
    }
    proof {
        let rest = p.skip(start);
        assert forall|i: int| 0 <= i < rest.len() implies rest[i] == p[start + i] by {}
        if pi < p.len() {
            assert(rest[pi - start] != '*');
        }
    }
    pi == pat.len()
}

/// Whether a text matches a glob.
pub fn glob_match(pat: &str, s: &str) -> (r: bool)
    ensures
        r == glob(pat@, s@),
{
    let p: Vec<char> = chars_of(pat);
    let t: Vec<char> = chars_of(s);
    glob_inner(p.as_slice(), t.as_slice())
}

// ---- confirmations ---------------------------------------------------------------

/// A tool call that waits for a human.
#[derive(Debug)]
pub struct PendingConfirmation {
    pub id: String,
    /// Name of the tool.
    pub tool: String,
    /// What the call will do.
    pub summary: String,
    pub session_id: String,
    pub sender_id: String,
}

impl PendingConfirmation {
    /// A copy.
    pub fn dup(&self) -> (r: Self)
        ensures
            r == *self,
    {
        PendingConfirmation {
            id: self.id.clone(),
            tool: self.tool.clone(),
            summary: self.summary.clone(),
            session_id: self.session_id.clone(),
            sender_id: self.sender_id.clone(),
        }
    }
}

/// What a human decides.
#[derive(Debug, Clone, Copy, PartialEq, Eq, Structural)]
pub enum Decision {
    Approve,
    Deny,
}

/// What comes of a confirmation.
#[derive(Debug, Clone, Copy, PartialEq, Eq, Structural)]
pub enum Outcome {
    Approved,
    Denied,
    /// Nobody answered in time.
    TimedOut,
}

/// How the wait for a confirmation ended.
#[derive(Debug, Clone, Copy, PartialEq, Eq, Structural)]
pub enum Wait {
    /// An answer came.
    Answered(Outcome),
    /// Whoever would have answered is gone.
    Dropped,
    /// The time ran out.
    Elapsed,
}

/// What the end of a wait means: the answer, or a refusal.
pub open spec fn decided(w: Wait) -> Outcome {
    match w {
        Wait::Answered(o) => o,
        Wait::Dropped => Outcome::Denied,
        Wait::Elapsed => Outcome::TimedOut,
    }
}

/// Whether a tool needs confirmation.
pub open spec fn gated(enabled: bool, patterns: Seq<Seq<char>>, tool: Seq<char>) -> bool {
    enabled && (patterns.len() == 0 || exists|i: int|
        0 <= i < patterns.len() && glob(#[trigger] patterns[i], tool))
}

/// The confirmations that are pending, and the rules for which tools need one.
pub struct HitlBroker {
    cfg: HitlConfig,
    pending: Table<PendingConfirmation>,
}

impl HitlBroker {
    /// The table is in order.
    pub closed spec fn wf(&self) -> bool {
        self.pending.wf()
    }

    /// The rules.
    pub closed spec fn config(&self) -> HitlConfig {
        self.cfg
    }

    /// The pending confirmations, by id.
    pub closed spec fn waiting(&self) -> Map<Seq<char>, PendingConfirmation> {
        self.pending.map()
    }

    /// A broker without pending confirmations.
    pub fn new(cfg: HitlConfig) -> (r: Self)
        ensures
            r.wf(),
            r.config() == cfg,
            r.waiting() == Map::<Seq<char>, PendingConfirmation>::empty(),
    {
        HitlBroker { cfg, pending: Table::new() }
    }

    /// Whether confirmation is on at all.
    pub fn enabled(&self) -> (r: bool)
        ensures
            r == self.config().enabled,
    {
        self.cfg.enabled
    }

    /// Whether a tool needs confirmation. With no patterns every tool does.
    pub fn requires_confirmation(&self, tool: &str) -> (r: bool)
        ensures
            r == gated(
                self.config().enabled,
                crate::text::views(self.config().confirm_tools@),
                tool@,
            ),
    {
        if !self.cfg.enabled {
            return false;
        }
        let n: usize = self.cfg.confirm_tools.len();
        if n == 0 {
            return true;
        }
        let ghost patterns = crate::text::views(self.cfg.confirm_tools@);
        let mut i: usize = 0;
        while i < n
            invariant
                self.cfg.enabled,
                n == self.cfg.confirm_tools@.len(),
                patterns == crate::text::views(self.cfg.confirm_tools@),
                i <= n,
                forall|k: int| 0 <= k < i ==> !glob(#[trigger] patterns[k], tool@),
            decreases n - i,
        {
            assert(patterns[i as int] == self.cfg.confirm_tools@[i as int]@);
            if glob_match(&self.cfg.confirm_tools[i], tool) {
                return true;
            }
            i = i + 1;
        }
        false
    }

    /// How long to wait for a decision, in seconds; at least one.
    pub fn timeout_secs(&self) -> (r: u64)
        ensures
            r == (if self.config().timeout_secs < 1 { 1 } else { self.config().timeout_secs }),
    {
        if self.cfg.timeout_secs < 1 {
            1
        } else {
            self.cfg.timeout_secs
        }
    }

    /// Adds a pending confirmation.
    pub fn register(&mut self, p: &PendingConfirmation)
        requires
            old(self).wf(),
        ensures
            final(self).wf(),
            final(self).config() == old(self).config(),
            final(self).waiting() == old(self).waiting().insert(p.id@, *p),
    {
        self.pending.insert(p.id.clone(), p.dup());
    }

    /// What the end of a wait means. A lost answer denies, and so does a late one.
    pub fn await_decision(&self, w: Wait) -> (r: Outcome)
        ensures
            r == decided(w),
    {
        match w {
            Wait::Answered(o) => o,
            Wait::Dropped => Outcome::Denied,
            Wait::Elapsed => Outcome::TimedOut,
        }
    }

    /// Decides a pending confirmation: how its wait ends. Nothing when no such
    /// confirmation is pending.
    pub fn resolve(&mut self, id: &str, decision: Outcome) -> (r: Option<Wait>)
        requires
            old(self).wf(),
        ensures
            final(self).wf(),
            final(self).config() == old(self).config(),
            r == (if old(self).waiting().dom().contains(id@) {
                Some(Wait::Answered(decision))
            } else {
                None
            }),
            final(self).waiting() == old(self).waiting().remove(id@),
    {
        if self.pending.remove(id).is_some() {
            Some(Wait::Answered(decision))
        } else {
            None
        }
    }

    /// A confirmation with a fresh id.
    pub fn new_pending(
        &self,
        tool: &str,
        summary: &str,
        session_id: &str,
        sender_id: &str,
    ) -> (r: PendingConfirmation)
        ensures
            crate::ids::is_fresh_id(r.id@, "hitl-"@),
            r.tool@ == tool@,
            r.summary@ == summary@,
            r.session_id@ == session_id@,
            r.sender_id@ == sender_id@,
    {
        PendingConfirmation {
            id: fresh_id("hitl-"),
            tool: tool.to_string(),
            summary: summary.to_string(),
            session_id: session_id.to_string(),
            sender_id: sender_id.to_string(),
        }
    }
}

// ---- laws ------------------------------------------------------------------------

/// Only an approval lets a call through: a lost or late answer does not.
pub proof fn waiting_fails_closed(w: Wait)
    ensures
        decided(w) == Outcome::Approved <==> w == Wait::Answered(Outcome::Approved),
{
}

/// A decision reaches whoever waits for it.
pub proof fn decisions_arrive(o: Outcome)
    ensures
        decided(Wait::Answered(o)) == o,
{
}

/// A star matches every text.
pub proof fn star_matches_all(s: Seq<char>)
    ensures
        glob(seq!['*'], s),
{
    let p = seq!['*'];
    let e = Seq::<char>::empty();
    assert(p.drop_first() =~= e);
    assert(s.skip(s.len() as int) =~= e);
    assert(glob(p.drop_first(), e));
    assert(glob(p, e));
    lemma_star_absorbs(p, s, s.len() as int);
}

/// A pattern without `*` and `?` matches itself and nothing else.
pub proof fn plain_globs_match_themselves(p: Seq<char>, s: Seq<char>)
    requires
        forall|i: int| 0 <= i < p.len() ==> p[i] != '*' && p[i] != '?',
    ensures
        glob(p, s) <==> p == s,
    decreases p.len(),
{
    if p.len() == 0 {
        assert(p == s <==> s.len() == 0) by {
            if s.len() == 0 {
                assert(p =~= s);
            }
        }
    } else if s.len() > 0 {
        let p1 = p.drop_first();
        let s1 = s.drop_first();
        assert forall|i: int| 0 <= i < p1.len() implies p1[i] != '*' && p1[i] != '?' by {
            assert(p1[i] == p[i + 1]);
        }
        plain_globs_match_themselves(p1, s1);
        if p[0] == s[0] && p1 == s1 {
            assert(p =~= seq![p[0]] + p1);
            assert(s =~= seq![s[0]] + s1);
        }
    }
}

/// A question mark matches exactly one character.
pub proof fn question_matches_one(s: Seq<char>)
    ensures
        glob(seq!['?'], s) <==> s.len() == 1,
{
    let p = seq!['?'];
    reveal_with_fuel(glob, 2);
    assert(p.drop_first() =~= Seq::<char>::empty());
}

/// With confirmation off no tool waits; with it on and no patterns every tool
/// does.
pub proof fn gating_extremes(patterns: Seq<Seq<char>>, tool: Seq<char>)
    ensures
        !gated(false, patterns, tool),
        gated(true, Seq::empty(), tool),
{
}

/// A pattern matches part by part: one pattern behind another matches a text exactly when the
/// text can be parted so that the first matches the front and the second the rest. With the
/// laws of a star, a question mark and a plain pattern this says what every pattern matches.
pub proof fn patterns_match_part_by_part(p: Seq<char>, q: Seq<char>, s: Seq<char>)
    ensures
        glob(p + q, s) <==> exists|i: int|
            0 <= i <= s.len() && glob(p, #[trigger] s.take(i)) && glob(q, s.skip(i)),
    decreases p.len() + s.len(),
{
    let pq = p + q;
    let e = Seq::<char>::empty();
    if p.len() == 0 {
        assert(pq =~= q);
        assert(s.skip(0) =~= s);
        assert(s.take(0).len() == 0);
        if glob(q, s) {
            assert(glob(p, s.take(0)) && glob(q, s.skip(0)));
        }
        assert forall|i: int| 0 <= i <= s.len() && glob(p, #[trigger] s.take(i)) implies i == 0 by {}
    } else {
        let p1 = p.drop_first();
        assert(pq.drop_first() =~= p1 + q);
        assert(pq[0] == p[0]);
        if p[0] == '*' {
            patterns_match_part_by_part(p1, q, s);
            if s.len() > 0 {
                patterns_match_part_by_part(p, q, s.drop_first());
            }
            if glob(pq, s) {
                if glob(p1 + q, s) {
                    let i = choose|i: int|
                        0 <= i <= s.len() && glob(p1, #[trigger] s.take(i)) && glob(q, s.skip(i));
                    assert(glob(p, s.take(i)));
                } else {
                    let t = s.drop_first();
                    let i = choose|i: int|
                        0 <= i <= t.len() && glob(p, #[trigger] t.take(i)) && glob(q, t.skip(i));
                    assert(s.take(i + 1).drop_first() =~= t.take(i));
                    assert(glob(p, s.take(i + 1)));
                    assert(s.skip(i + 1) =~= t.skip(i));
                }
            }
            if exists|i: int|
                0 <= i <= s.len() && glob(p, #[trigger] s.take(i)) && glob(q, s.skip(i)) {
                let i = choose|i: int|
                    0 <= i <= s.len() && glob(p, #[trigger] s.take(i)) && glob(q, s.skip(i));
                if glob(p1, s.take(i)) {
                    assert(glob(p1 + q, s));
                } else {
                    let t = s.drop_first();
                    assert(i > 0);
                    assert(s.take(i).drop_first() =~= t.take(i - 1));
                    assert(s.skip(i) =~= t.skip(i - 1));
                    assert(glob(p, t.take(i - 1)) && glob(q, t.skip(i - 1)));
                    assert(glob(pq, t));
                }
            }
        } else if s.len() > 0 {
            let t = s.drop_first();
            patterns_match_part_by_part(p1, q, t);
            if glob(pq, s) {
                let i = choose|i: int|
                    0 <= i <= t.len() && glob(p1, #[trigger] t.take(i)) && glob(q, t.skip(i));
                assert(s.take(i + 1).drop_first() =~= t.take(i));
                assert(s.take(i + 1)[0] == s[0]);
                assert(s.skip(i + 1) =~= t.skip(i));
                assert(glob(p, s.take(i + 1)));
            }
            if exists|i: int|
                0 <= i <= s.len() && glob(p, #[trigger] s.take(i)) && glob(q, s.skip(i)) {
                let i = choose|i: int|
                    0 <= i <= s.len() && glob(p, #[trigger] s.take(i)) && glob(q, s.skip(i));
                assert(i > 0);
                assert(s.take(i)[0] == s[0]);
                assert(s.take(i).drop_first() =~= t.take(i - 1));
                assert(s.skip(i) =~= t.skip(i - 1));
                assert(glob(p1, t.take(i - 1)) && glob(q, t.skip(i - 1)));
            }
        }
    }
}

/// A tool waits for a human exactly where confirmation is on and a pattern matches its name, or
/// there are no patterns.
pub proof fn tools_wait_by_their_patterns(b: &HitlBroker, tool: &str, r: bool)
    requires
        call_ensures(HitlBroker::requires_confirmation, (b, tool), r),
    ensures
        r <==> b.config().enabled && (b.config().confirm_tools@.len() == 0 || exists|i: int|
            0 <= i < b.config().confirm_tools@.len() && glob(
                (#[trigger] b.config().confirm_tools@[i])@,
                tool@,
            )),
{
    let v = b.config().confirm_tools@;
    let w = crate::text::views(v);
    assert(w.len() == v.len());
    if exists|i: int| 0 <= i < w.len() && glob(#[trigger] w[i], tool@) {
        let i = choose|i: int| 0 <= i < w.len() && glob(#[trigger] w[i], tool@);
        assert(w[i] == v[i]@);
    }
    if exists|i: int| 0 <= i < v.len() && glob((#[trigger] v[i])@, tool@) {
        let i = choose|i: int| 0 <= i < v.len() && glob((#[trigger] v[i])@, tool@);
        assert(w[i] == v[i]@);
    }
}

/// What a wait comes to: what was answered, a denial where nobody can answer any more, and a
/// timeout where the time ran out.
pub proof fn waits_come_to_what_happened(b: &HitlBroker, w: Wait, r: Outcome)
    requires
        call_ensures(HitlBroker::await_decision, (b, w), r),
    ensures
        w matches Wait::Answered(o) ==> r == o,
        w is Dropped ==> r == Outcome::Denied,
        w is Elapsed ==> r == Outcome::TimedOut,
{
}

/// A confirmation that is registered waits under its id, beside those that wait already.
pub proof fn registered_calls_wait(b: &mut HitlBroker, p: &PendingConfirmation, other: Seq<char>)
    requires
        old(b).wf(),
        call_ensures(HitlBroker::register, (b, p), ()),
    ensures
        final(b).waiting().dom().contains(p.id@) && final(b).waiting()[p.id@] == *p,
        other != p.id@ ==> final(b).waiting().dom().contains(other) == old(b).waiting().dom().contains(other) && final(b).waiting()[other] == old(b).waiting()[other],
{
}

/// A decision reaches the confirmation that waits under its id, once; no other one is touched.
pub proof fn decisions_reach_the_call(
    b: &mut HitlBroker,
    id: &str,
    decision: Outcome,
    r: Option<Wait>,
    other: Seq<char>,
)
    requires
        old(b).wf(),
        call_ensures(HitlBroker::resolve, (b, id, decision), r),
    ensures
        r is Some <==> old(b).waiting().dom().contains(id@),
        r matches Some(w) ==> w == Wait::Answered(decision),
        !final(b).waiting().dom().contains(id@),
        other != id@ ==> final(b).waiting().dom().contains(other) == old(b).waiting().dom().contains(other) && final(b).waiting()[other] == old(b).waiting()[other],
{
}

} // verus!
