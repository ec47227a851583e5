//! Persistent memory: facts per sender, where they are kept, and what of them is
//! in hand.

use vstd::prelude::*;
use crate::table::Table;
use crate::text::{cat, chars_of, escape};

verus! {

/// One fact.
#[derive(Debug)]
pub struct Fact {
    pub key: String,
    pub value: String,
}

/// The facts about one sender.
pub struct SenderMemory {
    facts: Table<String>,
}

impl View for SenderMemory {
    type V = Map<Seq<char>, Seq<char>>;

    closed spec fn view(&self) -> Map<Seq<char>, Seq<char>> {
        self.facts.map().map_values(|s: String| s@)
    }
}

/// The lines of the facts `keys`.
pub open spec fn fact_lines(m: Map<Seq<char>, Seq<char>>, keys: Seq<Seq<char>>) -> Seq<char>
    decreases keys.len(),
{
    if keys.len() == 0 {
        Seq::empty()
    } else {
        fact_lines(m, keys.drop_last()) + "- "@ + keys.last() + ": "@ + m[keys.last()] + "\n"@
    }
}

/// The facts as a part of the system prompt, in the order of their keys; nothing
/// when there are none.
pub open spec fn snippet_of(m: Map<Seq<char>, Seq<char>>) -> Option<Seq<char>> {
    let keys = crate::table::sorted(m.dom());
    if keys.len() == 0 {
        None
    } else {
        Some("Known facts about this user:\n"@ + fact_lines(m, keys))
    }
}

/// What lists no member is the listing of the empty set alone.
proof fn lemma_no_keys(set: Set<Seq<char>>)
    requires
        crate::table::lists(crate::table::sorted(set), set),
    ensures
        crate::table::sorted(set).len() == 0 <==> set == Set::<Seq<char>>::empty(),
{
    let keys = crate::table::sorted(set);
    if keys.len() == 0 {
        assert forall|k: Seq<char>| !set.contains(k) by {
            assert(!keys.contains(k));
        }
        assert(set =~= Set::<Seq<char>>::empty());
    } else {
        assert(keys.contains(keys[0]));
        assert(set.contains(keys[0]));
    }
}

impl SenderMemory {
    /// The table is in order.
    pub closed spec fn wf(&self) -> bool {
        self.facts.wf()
    }

    /// The ordered keys list the facts.
    pub proof fn lemma_keys(&self)
        requires
            self.wf(),
        ensures
            crate::table::lists(crate::table::sorted(self@.dom()), self@.dom()),
    {
        self.facts.lemma_keys();
        assert(self@.dom() =~= self.facts.map().dom());
    }

    /// A memory without facts.
    pub fn new() -> (r: Self)
        ensures
            r.wf(),
            r@ == Map::<Seq<char>, Seq<char>>::empty(),
    {
        let r: SenderMemory = SenderMemory { facts: Table::new() };
        assert(r@ =~= Map::<Seq<char>, Seq<char>>::empty());
        r
    }

    /// The value of a fact.
    pub fn get(&self, key: &str) -> (r: Option<String>)
        requires
            self.wf(),
        ensures
            r is Some == self@.dom().contains(key@),
            r matches Some(v) ==> v@ == self@[key@],
    {
        match self.facts.get(key) {
            None => None,
            Some(v) => Some(v.clone()),
        }
    }

    /// Sets a fact, in place of the value it had.
    pub fn insert(&mut self, key: &str, value: &str)
        requires
            old(self).wf(),
        ensures
            final(self).wf(),
            final(self)@ == old(self)@.insert(key@, value@),
    {
        let ghost before = self.facts.map();
        let v: String = value.to_string();
        let k: String = key.to_string();
        self.facts.insert(k, v);
        assert(before.insert(k@, v).map_values(|s: String| s@) =~= before.map_values(
            |s: String| s@,
        ).insert(key@, value@));
    }

    /// Forgets a fact. Whether it was there.
    pub fn remove(&mut self, key: &str) -> (r: bool)
        requires
            old(self).wf(),
        ensures
            final(self).wf(),
            r == old(self)@.dom().contains(key@),
            final(self)@ == old(self)@.remove(key@),
    {
        let ghost before = self.facts.map();
        let r: bool = self.facts.remove(key).is_some();
        assert(before.remove(key@).map_values(|s: String| s@) =~= before.map_values(
            |s: String| s@,
        ).remove(key@));
        r
    }

    /// The facts, in the order of their keys.
    pub fn facts(&self) -> (r: Vec<Fact>)
        requires
            self.wf(),
        ensures
            crate::table::lists(crate::table::sorted(self@.dom()), self@.dom()),
            r@.len() == crate::table::sorted(self@.dom()).len(),
            forall|i: int|
                0 <= i < r@.len() ==> (#[trigger] r@[i]).key@ == crate::table::sorted(
                    self@.dom(),
                )[i] && r@[i].value@ == self@[r@[i].key@],
    {
        let ghost keys = self.facts.keys();
        proof {
            self.facts.lemma_keys();
            assert(self@.dom() =~= self.facts.map().dom());
        }
        let mut out: Vec<Fact> = Vec::new();
        let mut i: usize = 0;
        while i < self.facts.len()
            invariant
                self.facts.wf(),
                keys == self.facts.keys(),
                crate::table::lists(keys, self.facts.map().dom()),
                keys.len() == self.facts.values().len(),
                forall|j: int|
                    0 <= j < keys.len() ==> #[trigger] self.facts.values()[j]
                        == self.facts.map()[keys[j]],
                i <= keys.len(),
                out@.len() == i,
                forall|j: int|
                    0 <= j < i ==> (#[trigger] out@[j]).key@ == keys[j] && out@[j].value@
                        == self@[keys[j]],
            decreases keys.len() - i,
        {
            assert(keys.contains(keys[i as int]));
            out.push(
                Fact { key: self.facts.key_at(i).clone(), value: self.facts.value_at(i).clone() },
            );
            i = i + 1;
        }
        out
    }

    /// The facts as a part of the system prompt; nothing when there are none.
    pub fn to_prompt_snippet(&self) -> (r: Option<String>)
        requires
            self.wf(),
        ensures
            crate::text::opt_view(r) == snippet_of(self@),
            crate::table::lists(crate::table::sorted(self@.dom()), self@.dom()),
            r is None <==> self@.dom() == Set::<Seq<char>>::empty(),
    {
        proof {
            self.lemma_keys();
            lemma_no_keys(self@.dom());
        }
        let facts: Vec<Fact> = self.facts();
        let ghost keys = crate::table::sorted(self@.dom());
        if facts.len() == 0 {
            return None;
        }
        let mut out: String = "Known facts about this user:\n".to_string();
        let ghost head = out@;
        let mut i: usize = 0;
        assert(head + fact_lines(self@, keys.take(0)) =~= head);
        while i < facts.len()
            invariant
                i <= facts@.len(),
                facts@.len() == keys.len(),
                forall|j: int|
                    0 <= j < facts@.len() ==> (#[trigger] facts@[j]).key@ == keys[j]
                        && facts@[j].value@ == self@[facts@[j].key@],
                out@ == head + fact_lines(self@, keys.take(i as int)),
            decreases facts@.len() - i,
        {
            let ghost before = out@;
            let f: &Fact = &facts[i];
            out.append("- ");
            out.append(f.key.as_str());
            out.append(": ");
            out.append(f.value.as_str());
            out.append("\n");
            proof {
                let t = keys.take(i + 1);
                assert(t.drop_last() =~= keys.take(i as int));
                assert(t.last() == keys[i as int]);
                assert(out@ =~= head + fact_lines(self@, t));
            }
            i = i + 1;
        }
        assert(keys.take(keys.len() as int) =~= keys);
        Some(out)
    }

    /// A copy.
    pub fn dup(&self) -> (r: Self)
        requires
            self.wf(),
        ensures
            r.wf(),
            r@ == self@,
    {
        let facts: Vec<Fact> = self.facts();
        let ghost keys = crate::table::sorted(self@.dom());
        proof {
            self.facts.lemma_keys();
            assert(self@.dom() =~= self.facts.map().dom());
        }
        let mut out: SenderMemory = SenderMemory::new();
        let mut i: usize = 0;
        while i < facts.len()
            invariant
                out.wf(),
                i <= facts@.len(),
                facts@.len() == keys.len(),
                crate::table::lists(keys, self@.dom()),
                forall|j: int|
                    0 <= j < facts@.len() ==> (#[trigger] facts@[j]).key@ == keys[j]
                        && facts@[j].value@ == self@[facts@[j].key@],
                forall|k: Seq<char>| #[trigger]
                    out@.dom().contains(k) <==> keys.take(i as int).contains(k),
                forall|k: Seq<char>| #[trigger] out@.dom().contains(k) ==> out@[k] == self@[k],
            decreases facts@.len() - i,
        {
            out.insert(&facts[i].key, &facts[i].value);
            proof {
                crate::seqs::lemma_take_members(keys, i as int);
            }
            i = i + 1;
        }
        proof {
            assert(keys.take(keys.len() as int) =~= keys);
            assert forall|k: Seq<char>| out@.dom().contains(k) <==> self@.dom().contains(k) by {
                assert(keys.take(i as int).contains(k) <==> keys.contains(k));
            }
            assert(out@ =~= self@);
        }
        out
    }
}

impl Default for SenderMemory {
    fn default() -> (r: Self)
        ensures
            r.wf(),
            r@ == Map::<Seq<char>, Seq<char>>::empty(),
    {
        SenderMemory::new()
    }
}

// ---- files -------------------------------------------------------------------------

/// The name of a sender's file: the sender id escaped to ASCII letters, digits, `-`, `_` and
/// `.`, from which the id can be read back; `anon` for an empty id.
pub open spec fn file_name(sender: Seq<char>) -> Seq<char> {
    let safe = if sender.len() == 0 {
        "anon"@
    } else {
        crate::text::escaped(sender)
    };
    safe + ".toml"@
}

/// A file in a directory.
pub open spec fn joined_path(dir: Seq<char>, name: Seq<char>) -> Seq<char> {
    if dir.len() == 0 || dir.last() == '/' {
        dir + name
    } else {
        dir + seq!['/'] + name
    }
}

/// The path of a sender's file in a directory.
pub fn sender_path(dir: &str, sender: &str) -> (r: String)
    ensures
        r@ == joined_path(dir@, file_name(sender@)),
{
    let mut name: String = if sender.is_empty() {
        "anon".to_string()
    } else {
        escape(sender)
    };
    name.append(".toml");
    let d: Vec<char> = chars_of(dir);
    let n: usize = d.len();
    let mut out: String = dir.to_string();
    if n > 0 && d[n - 1] != '/' {
        out.push('/');
    }
    assert(out@ =~= (if dir@.len() == 0 || dir@.last() == '/' { dir@ } else { dir@ + seq!['/'] }));
    cat(&out, &name)
}

// ---- the store ---------------------------------------------------------------------

/// What is in hand of a sender.
pub open spec fn facts_of(
    known: Map<Seq<char>, Map<Seq<char>, Seq<char>>>,
    sender: Seq<char>,
) -> Map<Seq<char>, Seq<char>> {
    if known.dom().contains(sender) {
        known[sender]
    } else {
        Map::empty()
    }
}

/// One fact in hand about a sender.
pub open spec fn fact_of(
    known: Map<Seq<char>, Map<Seq<char>, Seq<char>>>,
    sender: Seq<char>,
    key: Seq<char>,
) -> Option<Seq<char>> {
    let facts = facts_of(known, sender);
    if facts.dom().contains(key) {
        Some(facts[key])
    } else {
        None
    }
}

/// Where the memory of a sender is to be had.
pub enum Recall {
    /// It is in hand.
    Known(SenderMemory),
    /// It is to be read from a file, if there is one.
    Read(String),
    /// There is nowhere to read it from.
    Nowhere,
}

/// The memories in hand, and the directory that they are kept in.
pub struct MemoryStore {
    dir: Option<String>,
    cache: Table<SenderMemory>,
}

impl MemoryStore {
    /// The tables are in order.
    pub closed spec fn wf(&self) -> bool {
        &&& self.cache.wf()
        &&& forall|k: Seq<char>| #[trigger]
            self.cache.map().dom().contains(k) ==> self.cache.map()[k].wf()
    }

    /// The memories in hand, by sender.
    pub closed spec fn known(&self) -> Map<Seq<char>, Map<Seq<char>, Seq<char>>> {
        self.cache.map().map_values(|m: SenderMemory| m@)
    }

    /// The directory.
    pub closed spec fn folder(&self) -> Option<Seq<char>> {
        crate::text::opt_view(self.dir)
    }

    /// A store without memories and without a directory.
    pub fn new() -> (r: Self)
        ensures
            r.wf(),
            r.known() == Map::<Seq<char>, Map<Seq<char>, Seq<char>>>::empty(),
            r.folder() is None,
    {
        let r: MemoryStore = MemoryStore { dir: None, cache: Table::new() };
        assert(r.known() =~= Map::<Seq<char>, Map<Seq<char>, Seq<char>>>::empty());
        r
    }

    /// Sets the directory.
    pub fn set_dir(&mut self, dir: &str)
        requires
            old(self).wf(),
        ensures
            final(self).wf(),
            final(self).known() == old(self).known(),
            final(self).folder() == Some(dir@),
    {
        self.dir = Some(dir.to_string());
    }

    /// The directory and the path of a sender's file; nothing without a directory.
    pub fn file_of(&self, sender: &str) -> (r: Option<(String, String)>)
        ensures
            match self.folder() {
                None => r is None,
                Some(d) => {
                    &&& r matches Some(p)
                    &&& p.0@ == d
                    &&& p.1@ == joined_path(d, file_name(sender@))
                },
            },
    {
        match &self.dir {
            None => None,
            Some(d) => Some((d.clone(), sender_path(d, sender))),
        }
    }

    /// Where the memory of a sender is to be had.
    pub fn recall(&self, sender: &str) -> (r: Recall)
        requires
            self.wf(),
        ensures
            match r {
                Recall::Known(m) => {
                    &&& self.known().dom().contains(sender@)
                    &&& m.wf()
                    &&& m@ == self.known()[sender@]
                },
                Recall::Read(path) => {
                    &&& !self.known().dom().contains(sender@)
                    &&& self.folder() matches Some(d)
                    &&& path@ == joined_path(d, file_name(sender@))
                },
                Recall::Nowhere => {
                    &&& !self.known().dom().contains(sender@)
                    &&& self.folder() is None
                },
            },
    {
        match self.cache.get(sender) {
            Some(m) => Recall::Known(m.dup()),
            None => match &self.dir {
                Some(d) => Recall::Read(sender_path(d, sender)),
                None => Recall::Nowhere,
            },
        }
    }

    /// A fact about a sender, as far as their memory is in hand.
    pub fn get(&self, sender: &str, key: &str) -> (r: Option<String>)
        requires
            self.wf(),
        ensures
            crate::text::opt_view(r) == fact_of(self.known(), sender@, key@),
    {
        match self.cache.get(sender) {
            Some(m) => m.get(key),
            None => None,
        }
    }

    /// Takes a sender's memory in hand, as it was read or as it was written.
    pub fn keep(&mut self, sender: &str, m: &SenderMemory)
        requires
            old(self).wf(),
            m.wf(),
        ensures
            final(self).wf(),
            final(self).folder() == old(self).folder(),
            final(self).known() == old(self).known().insert(sender@, m@),
    {
        let ghost before = self.cache.map();
        let copy: SenderMemory = m.dup();
        let k: String = sender.to_string();
        self.cache.insert(k, copy);
        assert(self.known() =~= before.map_values(|m: SenderMemory| m@).insert(sender@, m@));
        assert forall|k: Seq<char>| #[trigger] self.cache.map().dom().contains(k) implies
            self.cache.map()[k].wf() by {
            if k != sender@ {
                assert(before.dom().contains(k));
            }
        }
    }

    /// The memory of a sender with a fact set, to be written and then kept. It has to be
    /// in hand, unless there is nowhere to read it from.
    pub fn set(&self, sender: &str, key: &str, value: &str) -> (r: SenderMemory)
        requires
            self.wf(),
            self.known().dom().contains(sender@) || self.folder() is None,
        ensures
            r.wf(),
            r@ == facts_of(self.known(), sender@).insert(key@, value@),
    {
        let mut m: SenderMemory = match self.cache.get(sender) {
            Some(m) => m.dup(),
            None => SenderMemory::new(),
        };
        m.insert(key, value);
        m
    }

    /// The memory of a sender without a fact, to be written and then kept; nothing when
    /// there is no such fact. It has to be in hand, unless there is nowhere to read it
    /// from.
    pub fn delete(&self, sender: &str, key: &str) -> (r: Option<SenderMemory>)
        requires
            self.wf(),
            self.known().dom().contains(sender@) || self.folder() is None,
        ensures
            r is Some <==> fact_of(self.known(), sender@, key@) is Some,
            r matches Some(n) ==> n.wf() && n@ == facts_of(self.known(), sender@).remove(key@),
    {
        match self.cache.get(sender) {
            None => None,
            Some(m) => {
                let mut m: SenderMemory = m.dup();
                if m.remove(key) {
                    Some(m)
                } else {
                    None
                }
            },
        }
    }
}

impl Default for MemoryStore {
    fn default() -> (r: Self)
        ensures
            r.wf(),
            r.known() == Map::<Seq<char>, Map<Seq<char>, Seq<char>>>::empty(),
            r.folder() is None,
    {
        MemoryStore::new()
    }
}

// ---- laws --------------------------------------------------------------------------

/// A memory tells the model of each of its facts: there is a text exactly where there are
/// facts, and it has one line for each of them, in the order of their keys.
pub proof fn snippets_tell_every_fact(memory: SenderMemory)
    requires
        memory.wf(),
    ensures
        snippet_of(memory@) is None <==> memory@.dom() == Set::<Seq<char>>::empty(),
        snippet_of(memory@) matches Some(t) ==> exists|keys: Seq<Seq<char>>|
            crate::table::lists(keys, memory@.dom()) && t == "Known facts about this user:\n"@
                + #[trigger] fact_lines(memory@, keys),
{
    memory.lemma_keys();
    lemma_no_keys(memory@.dom());
    let keys = crate::table::sorted(memory@.dom());
    assert(fact_lines(memory@, keys) == fact_lines(memory@, keys));
}

/// The file of a sender lies in the directory itself: its name has no separator.
pub proof fn files_stay_in_directory(sender: Seq<char>)
    ensures
        !file_name(sender).contains('/'),
        file_name(sender).len() > ".toml"@.len(),
        forall|i: int|
            0 <= i < file_name(sender).len() ==> crate::text::in_file_names(
                #[trigger] file_name(sender)[i],
            ),
{
    reveal_strlit("anon");
    reveal_strlit(".toml");
    let n = file_name(sender);
    let safe = n.take(n.len() - 5);
    crate::text::lemma_escaped_kept(sender);
    if sender.len() > 0 && crate::text::escaped(sender).len() == 0 {
        crate::text::lemma_escaped_injective(sender, Seq::empty());
    }
    assert forall|i: int| 0 <= i < n.len() implies crate::text::in_file_names(
        #[trigger] n[i],
    ) by {
        if sender.len() > 0 && i < n.len() - 5 {
            assert(n[i] == crate::text::escaped(sender)[i]);
        }
    }
    assert forall|i: int| 0 <= i < n.len() implies n[i] != '/' by {
        assert(crate::text::in_file_names(n[i]));
    }
}

/// Senders have files of their own: no two ids share one, but for the empty id, which has
/// that of `anon`.
pub proof fn senders_have_their_own_files(a: Seq<char>, b: Seq<char>)
    requires
        a.len() > 0,
        b.len() > 0,
        a != b,
    ensures
        file_name(a) != file_name(b),
{
    let x = crate::text::escaped(a);
    let y = crate::text::escaped(b);
    if file_name(a) == file_name(b) {
        let n = file_name(a);
        let e = ".toml"@.len();
        assert(x =~= n.take(n.len() - e));
        assert(y =~= n.take(n.len() - e));
        crate::text::lemma_escaped_injective(a, b);
    }
}

/// Principals never share a memory: another tenant or another sender has another file.
pub proof fn principals_have_their_own_files(
    t1: Seq<char>,
    s1: Seq<char>,
    t2: Seq<char>,
    s2: Seq<char>,
)
    requires
        t1 != t2 || s1 != s2,
    ensures
        file_name(crate::tenant::scope(t1, s1)) != file_name(crate::tenant::scope(t2, s2)),
{
    crate::tenant::scopes_are_disjoint(t1, s1, t2, s2);
    senders_have_their_own_files(crate::tenant::scope(t1, s1), crate::tenant::scope(t2, s2));
}

/// What a `set` between a `recall` and a `keep` does: the facts of the sender are those
/// that were recalled with the new one, and the other senders in hand are as they were.
pub proof fn a_set_adds_one_fact(
    before: MemoryStore,
    recalled: SenderMemory,
    set: SenderMemory,
    after: MemoryStore,
    sender: Seq<char>,
    key: Seq<char>,
    value: Seq<char>,
)
    requires
        before.known().dom().contains(sender),
        recalled@ == before.known()[sender],
        set@ == facts_of(before.known(), sender).insert(key, value),
        after.known() == before.known().insert(sender, set@),
    ensures
        after.known().dom().contains(sender),
        after.known()[sender] == recalled@.insert(key, value),
        forall|other: Seq<char>| #[trigger]
            before.known().dom().contains(other) && other != sender
                ==> after.known().dom().contains(other) && after.known()[other]
                == before.known()[other],
{
}

/// A fact that was set and kept is read back, and every other fact, about this
/// sender or another, reads as it did.
pub proof fn written_facts_are_read_back(
    known: Map<Seq<char>, Map<Seq<char>, Seq<char>>>,
    sender: Seq<char>,
    key: Seq<char>,
    value: Seq<char>,
    reader: Seq<char>,
    wanted: Seq<char>,
)
    ensures
        fact_of(known.insert(sender, facts_of(known, sender).insert(key, value)), reader, wanted)
            == (if reader == sender && wanted == key {
            Some(value)
        } else {
            fact_of(known, reader, wanted)
        }),
{
}

/// A fact that was deleted is gone, and every other fact reads as it did.
pub proof fn deleted_facts_are_gone(
    known: Map<Seq<char>, Map<Seq<char>, Seq<char>>>,
    sender: Seq<char>,
    key: Seq<char>,
    reader: Seq<char>,
    wanted: Seq<char>,
)
    ensures
        fact_of(known.insert(sender, facts_of(known, sender).remove(key)), reader, wanted) == (
        if reader == sender && wanted == key {
            None
        } else {
            fact_of(known, reader, wanted)
        }),
{
}

/// The lines of facts follow one another, each with the key and the value of one.
pub proof fn facts_are_told_line_by_line(
    m: Map<Seq<char>, Seq<char>>,
    keys: Seq<Seq<char>>,
    k: Seq<char>,
)
    ensures
        fact_lines(m, Seq::empty()) == Seq::<char>::empty(),
        fact_lines(m, keys.push(k)) == fact_lines(m, keys) + ("- "@ + k + ": "@ + m[k] + "\n"@),
{
    assert(keys.push(k).drop_last() =~= keys);
    assert(fact_lines(m, keys.push(k)) =~= fact_lines(m, keys) + ("- "@ + k + ": "@ + m[k]
        + "\n"@));
}

proof fn lemma_line_is_told(m: Map<Seq<char>, Seq<char>>, keys: Seq<Seq<char>>, i: int)
    requires
        0 <= i < keys.len(),
    ensures
        exists|a: Seq<char>, b: Seq<char>|
            fact_lines(m, keys) == #[trigger] (a + ("- "@ + keys[i] + ": "@ + m[keys[i]] + "\n"@)
                + b),
    decreases keys.len(),
{
    let rest = keys.drop_last();
    assert(keys =~= rest.push(keys.last()));
    facts_are_told_line_by_line(m, rest, keys.last());
    let last = "- "@ + keys.last() + ": "@ + m[keys.last()] + "\n"@;
    let line = "- "@ + keys[i] + ": "@ + m[keys[i]] + "\n"@;
    if i == keys.len() - 1 {
        let a = fact_lines(m, rest);
        assert(fact_lines(m, keys) =~= a + line + Seq::empty());
    } else {
        lemma_line_is_told(m, rest, i);
        assert(rest[i] == keys[i]);
        let (a, b) = choose|a: Seq<char>, b: Seq<char>|
            fact_lines(m, rest) == #[trigger] (a + line + b);
        assert(fact_lines(m, keys) =~= a + line + (b + last));
    }
}

/// What the model is told of a sender names every fact with its value, on a line of its own
/// behind the heading; without facts it is told nothing.
pub proof fn every_fact_is_told(memory: &SenderMemory, r: Option<String>, key: Seq<char>)
    requires
        memory.wf(),
        call_ensures(SenderMemory::to_prompt_snippet, (memory,), r),
    ensures
        r is None <==> forall|k: Seq<char>| !#[trigger] memory@.dom().contains(k),
        memory@.dom().contains(key) ==> {
            &&& r matches Some(t)
            &&& exists|a: Seq<char>, b: Seq<char>|
                t@ == #[trigger] ("Known facts about this user:\n"@ + a + ("- "@ + key + ": "@
                    + memory@[key] + "\n"@) + b)
        },
{
    memory.lemma_keys();
    let d = memory@.dom();
    let keys = crate::table::sorted(d);
    lemma_no_keys(d);
    assert((forall|k: Seq<char>| !#[trigger] d.contains(k)) ==> d =~= Set::empty());
    if d.contains(key) {
        assert(keys.contains(key));
        let i = choose|i: int| 0 <= i < keys.len() && keys[i] == key;
        lemma_line_is_told(memory@, keys, i);
        let line = "- "@ + key + ": "@ + memory@[key] + "\n"@;
        let (a, b) = choose|a: Seq<char>, b: Seq<char>|
            fact_lines(memory@, keys) == #[trigger] (a + line + b);
        let head = "Known facts about this user:\n"@;
        assert(head + (a + line + b) =~= head + a + line + b);
    }
}

/// A fact that is asked for is the one that is known about that sender under that key, and
/// nothing where none is.
pub proof fn known_facts_are_found(store: &MemoryStore, sender: &str, key: &str, r: Option<String>)
    requires
        store.wf(),
        call_ensures(MemoryStore::get, (store, sender, key), r),
    ensures
        r is Some <==> store.known().dom().contains(sender@)
            && store.known()[sender@].dom().contains(key@),
        r matches Some(v) ==> v@ == store.known()[sender@][key@],
{
}

/// Setting a fact changes that fact alone: every other fact of the sender is as it was.
pub proof fn setting_keeps_the_other_facts(
    store: &MemoryStore,
    sender: &str,
    key: &str,
    value: &str,
    r: SenderMemory,
    other: Seq<char>,
)
    requires
        store.wf(),
        call_ensures(MemoryStore::set, (store, sender, key, value), r),
    ensures
        r@.dom().contains(key@) && r@[key@] == value@,
        other != key@ ==> (r@.dom().contains(other) <==> store.known().dom().contains(sender@)
            && store.known()[sender@].dom().contains(other)),
        other != key@ && r@.dom().contains(other) ==> r@[other] == store.known()[sender@][other],
{
}

/// Deleting a fact that is known takes that fact away alone; one that is not known cannot be
/// deleted.
pub proof fn deleting_keeps_the_other_facts(
    store: &MemoryStore,
    sender: &str,
    key: &str,
    r: Option<SenderMemory>,
    other: Seq<char>,
)
    requires
        store.wf(),
        call_ensures(MemoryStore::delete, (store, sender, key), r),
    ensures
        r is Some <==> store.known().dom().contains(sender@)
            && store.known()[sender@].dom().contains(key@),
        r matches Some(m) ==> !m@.dom().contains(key@) && (other != key@ ==> (
        m@.dom().contains(other) <==> store.known()[sender@].dom().contains(other))) && (
        other != key@ && m@.dom().contains(other) ==> m@[other] == store.known()[sender@][other]),
{
}

/// The file of a sender whose id is fit for a file name is named after the id, and lies in
/// the directory.
pub proof fn plain_senders_name_their_files(dir: &str, sender: &str, r: String)
    requires
        call_ensures(sender_path, (dir, sender), r),
        sender@.len() > 0,
        forall|i: int|
            0 <= i < sender@.len() ==> {
                ||| '0' <= #[trigger] sender@[i] && sender@[i] <= '9'
                ||| 'a' <= sender@[i] && sender@[i] <= 'z'
                ||| 'A' <= sender@[i] && sender@[i] <= 'Z'
                ||| sender@[i] == '-' || sender@[i] == '.' || sender@[i] == '_'
            },
        forall|i: int| 0 < i < sender@.len() ==> !(sender@[i - 1] == '_' && #[trigger] sender@[i]
            == '_'),
    ensures
        dir@.len() > 0 && dir@.last() != '/' ==> r@ == dir@ + seq!['/'] + sender@ + ".toml"@,
        dir@.len() == 0 || dir@.last() == '/' ==> r@ == dir@ + sender@ + ".toml"@,
{
    assert forall|i: int| 0 <= i < sender@.len() implies crate::text::in_file_names(
        #[trigger] sender@[i],
    ) by {}
    crate::text::lemma_escaped_same(sender@);
    assert(dir@ + seq!['/'] + (sender@ + ".toml"@) =~= dir@ + seq!['/'] + sender@ + ".toml"@);
    assert(dir@ + (sender@ + ".toml"@) =~= dir@ + sender@ + ".toml"@);
}

/// A fact that is written is there with its value, one that is taken away is gone, and the other
/// facts stay.
pub proof fn facts_are_written_and_taken_away(
    m: &mut SenderMemory,
    n: &mut SenderMemory,
    key: &str,
    value: &str,
    r: bool,
    other: Seq<char>,
)
    requires
        old(m).wf(),
        old(n).wf(),
        call_ensures(SenderMemory::insert, (m, key, value), ()),
        call_ensures(SenderMemory::remove, (n, key), r),
    ensures
        final(m)@.dom().contains(key@) && final(m)@[key@] == value@,
        other != key@ ==> final(m)@.dom().contains(other) == old(m)@.dom().contains(other) && final(m)@[other] == old(m)@[other],
        r <==> old(n)@.dom().contains(key@),
        !final(n)@.dom().contains(key@),
        other != key@ ==> final(n)@.dom().contains(other) == old(n)@.dom().contains(other) && final(n)@[other] == old(n)@[other],
{
}

/// What is kept of a sender is what was handed in, and nothing kept of the others changes.
pub proof fn memories_are_kept_by_sender(
    store: &mut MemoryStore,
    sender: &str,
    m: &SenderMemory,
    other: Seq<char>,
)
    requires
        old(store).wf(),
        m.wf(),
        call_ensures(MemoryStore::keep, (store, sender, m), ()),
    ensures
        final(store).known().dom().contains(sender@) && final(store).known()[sender@] == m@,
        other != sender@ ==> final(store).known().dom().contains(other) == old(store).known().dom().contains(other) && final(store).known()[other] == old(store).known()[other],
        final(store).folder() == old(store).folder(),
{
}

/// The file of a sender lies in the folder of the store, under the sender's own name; without a
/// folder there is none.
pub proof fn files_lie_in_the_folder(store: &MemoryStore, sender: &str, r: Option<(String, String)>)
    requires
        call_ensures(MemoryStore::file_of, (store, sender), r),
    ensures
        r is Some <==> store.folder() is Some,
        r matches Some(p) ==> {
            let d = store.folder()->Some_0;
            &&& p.0@ == d
            &&& d.len() > 0 && d.last() != '/' ==> p.1@ == d + seq!['/'] + file_name(sender@)
            &&& d.len() == 0 || d.last() == '/' ==> p.1@ == d + file_name(sender@)
        },
{
}

/// What is known of a sender is recalled; else their file is to be read, if there is a folder.
pub proof fn senders_are_recalled(store: &MemoryStore, sender: &str, r: Recall)
    requires
        store.wf(),
        call_ensures(MemoryStore::recall, (store, sender), r),
    ensures
        store.known().dom().contains(sender@) <==> r is Known,
        r matches Recall::Known(m) ==> m@ == store.known()[sender@],
        !store.known().dom().contains(sender@) ==> (store.folder() is Some <==> r is Read),
        r matches Recall::Read(path) ==> {
            let d = store.folder()->Some_0;
            &&& d.len() > 0 && d.last() != '/' ==> path@ == d + seq!['/'] + file_name(sender@)
            &&& d.len() == 0 || d.last() == '/' ==> path@ == d + file_name(sender@)
        },
{
}

/// A sender without an id has the file of the anonymous.
pub proof fn nameless_senders_are_anonymous(dir: &str, sender: &str, r: String)
    requires
        call_ensures(sender_path, (dir, sender), r),
        sender@.len() == 0,
        dir@.len() > 0,
        dir@.last() != '/',
    ensures
        r@ == dir@ + seq!['/'] + "anon"@ + ".toml"@,
{
    assert(dir@ + seq!['/'] + ("anon"@ + ".toml"@) =~= dir@ + seq!['/'] + "anon"@ + ".toml"@);
}

} // verus!
