use std::collections::BTreeMap;

use sloth_agent::memory::{sender_path, MemoryStore, Recall, SenderMemory};
use sloth_agent::session::SessionManager;

fn encode(m: &SenderMemory) -> String {
    let facts: BTreeMap<String, String> =
        m.facts().into_iter().map(|f| (f.key, f.value)).collect();
    let mut file: BTreeMap<String, BTreeMap<String, String>> = BTreeMap::new();
    file.insert("facts".to_string(), facts);
    toml::to_string(&file).unwrap()
}

fn decode(text: &str) -> SenderMemory {
    let file: BTreeMap<String, BTreeMap<String, String>> = toml::from_str(text).unwrap();
    let mut m = SenderMemory::new();
    for (k, v) in &file["facts"] {
        m.insert(k, v);
    }
    m
}

#[test]
fn set_recall_persist_across_instances() {
    let mut store = MemoryStore::new();
    store.set_dir("/tmp/mem");
    assert!(matches!(store.recall("alice"), Recall::Read(_)));
    store.keep("alice", &SenderMemory::new());
    let m = store.set("alice", "name", "Alice Lee");
    store.keep("alice", &m);
    let m = store.set("alice", "lang", "rust");
    store.keep("alice", &m);
    let file = encode(&m);
    match store.recall("alice") {
        Recall::Known(m) => assert_eq!(m.get("name").as_deref(), Some("Alice Lee")),
        _ => panic!("not in hand"),
    }
    assert_eq!(store.get("alice", "name").as_deref(), Some("Alice Lee"));
    assert!(store.get("alice", "none").is_none());
    assert!(store.get("bob", "name").is_none());
    // A store without the memory asks for the file, and takes what it holds.
    let mut store2 = MemoryStore::new();
    store2.set_dir("/tmp/mem");
    assert!(matches!(store2.recall("alice"), Recall::Read(p) if p == "/tmp/mem/alice.toml"));
    store2.keep("alice", &decode(&file));
    match store2.recall("alice") {
        Recall::Known(m) => {
            assert_eq!(m.get("name").as_deref(), Some("Alice Lee"));
            assert_eq!(m.get("lang").as_deref(), Some("rust"));
        }
        _ => panic!("not in hand"),
    }
    // A deletion is written too.
    let m = store2.delete("alice", "lang").unwrap();
    let file = encode(&m);
    store2.keep("alice", &m);
    assert!(store2.delete("alice", "lang").is_none());
    let mut store3 = MemoryStore::new();
    store3.set_dir("/tmp/mem");
    store3.keep("alice", &decode(&file));
    assert!(store3.get("alice", "lang").is_none());
    assert_eq!(store3.get("alice", "name").as_deref(), Some("Alice Lee"));
    assert!(matches!(MemoryStore::new().recall("alice"), Recall::Nowhere));
}

#[test]
fn sender_path_sanitizes() {
    let p = sender_path("/tmp/mem", "../etc/passwd");
    assert!(p.starts_with("/tmp/mem"));
    assert!(p.contains("___etc_passwd") || p.contains("passwd"));
}

#[test]
fn sender_paths_are_flat() {
    assert_eq!(sender_path("/tmp/mem", "a/b_c"), "/tmp/mem/a__47_b_c.toml");
    assert_ne!(sender_path("/tmp/mem", "wx:a/b_c"), sender_path("/tmp/mem", "wx:a_b/c"));
    assert_eq!(sender_path("/tmp/mem", ""), "/tmp/mem/anon.toml");
    assert_eq!(sender_path("/tmp/mem/", "x"), "/tmp/mem/x.toml");
    assert_eq!(sender_path("/tmp/mem", "é"), "/tmp/mem/__233_.toml");
    let store = {
        let mut s = MemoryStore::new();
        s.set_dir("/d");
        s
    };
    assert_eq!(store.file_of("u"), Some(("/d".to_string(), "/d/u.toml".to_string())));
    assert!(MemoryStore::new().file_of("u").is_none());
}

#[test]
fn memory_prompt_snippet_renders() {
    let mut m = SenderMemory::default();
    assert!(m.to_prompt_snippet().is_none());
    m.insert("timezone", "UTC");
    let s = m.to_prompt_snippet().unwrap();
    assert!(s.contains("Known facts about this user"));
    assert!(s.contains("timezone: UTC"));
}

#[test]
fn facts_are_sorted_and_replaced() {
    let mut m = SenderMemory::new();
    m.insert("b", "1");
    m.insert("a", "2");
    m.insert("b", "3");
    let f = m.facts();
    assert_eq!(f.len(), 2);
    assert_eq!((f[0].key.as_str(), f[0].value.as_str()), ("a", "2"));
    assert_eq!((f[1].key.as_str(), f[1].value.as_str()), ("b", "3"));
    assert!(m.remove("a"));
    assert!(!m.remove("a"));
}

#[test]
fn senders_do_not_share_memories() {
    let mut store = MemoryStore::new();
    let m = store.set("alice", "k", "v");
    store.keep("alice", &m);
    assert!(matches!(store.recall("bob"), Recall::Nowhere));
    assert!(matches!(store.recall("alice"), Recall::Known(_)));
}

#[test]
fn create_switch_workspace_delete() {
    let mut sm = SessionManager::new("default", "/tmp/sloth-sess");
    let s = sm.create(Some("work".to_string()), "Work".to_string()).unwrap();
    assert_eq!(s.id, "work");
    let active = sm.switch("alice", "work").unwrap();
    assert_eq!(active.id, "work");
    assert_eq!(sm.active_id("alice"), "work");
    let s = sm.set_workspace("work", "/tmp/sloth-ws").unwrap();
    assert_eq!(s.workspace.as_deref(), Some("/tmp/sloth-ws"));
    sm.delete("default", "default").unwrap_err();
    sm.delete("work", "default").unwrap();
    assert!(sm.list().iter().all(|s| s.id != "work"));
    assert_eq!(sm.active_id("alice"), "default");
}

#[test]
fn sessions_create_switch_workspace_list() {
    let mut sm = SessionManager::new("default", "/tmp/sloth-sess");
    assert_eq!(sm.list().len(), 1);
    let s = sm.create(Some("work".to_string()), "Work".to_string()).unwrap();
    assert_eq!(s.id, "work");
    sm.switch("alice", "work").unwrap();
    assert_eq!(sm.active_id("alice"), "work");
    let with_ws = sm.set_workspace("work", "/tmp/sloth-ws").unwrap();
    assert_eq!(with_ws.workspace.as_deref(), Some("/tmp/sloth-ws"));
    assert!(sm.list().iter().any(|s| s.id == "work"));
    sm.delete("default", "default").unwrap_err();
    sm.delete("work", "default").unwrap();
}

#[test]
fn session_errors_and_defaults() {
    let mut sm = SessionManager::new_at("main", "/tmp", 5);
    assert_eq!(sm.active_id("anyone"), "main");
    assert_eq!(sm.active("anyone").unwrap().created_at, 5);
    assert_eq!(sm.switch("a", "nope").unwrap_err(), "session nope not found");
    assert_eq!(sm.set_workspace("nope", "/w").unwrap_err(), "session nope not found");
    assert!(sm.create(Some("main".to_string()), "x".to_string()).is_err());
    let s = sm.create_at(None, "x".to_string(), 6).unwrap();
    assert!(s.id.len() >= 32);
    assert!(sm.contains(&s.id));
    assert!(sm.delete("nope", "main").is_err());
}

#[test]
fn active_sessions_always_exist() {
    let mut sm = SessionManager::new("default", "/tmp/s");
    sm.create(Some("work".to_string()), "Work".to_string()).unwrap();
    sm.switch("alice", "work").unwrap();
    assert_eq!(sm.active_id("alice"), "work");
    assert_eq!(sm.active_id("bob"), "default");
    sm.delete("work", "default").unwrap();
    assert_eq!(sm.active_id("alice"), "default");
    assert_eq!(sm.active_id("bob"), "default");
    assert_eq!(sm.active("alice").unwrap().id, "default");
    assert_eq!(sm.active("nobody").unwrap().id, "default");
    // Those who never switched follow the default that a deletion names.
    sm.create(Some("aaa".to_string()), "A".to_string()).unwrap();
    sm.create(Some("main".to_string()), "M".to_string()).unwrap();
    sm.switch("alice", "aaa").unwrap();
    sm.delete("default", "main").unwrap();
    assert_eq!(sm.active_id("nobody"), "main");
    assert_eq!(sm.active_id("alice"), "aaa");
    sm.delete("aaa", "main").unwrap();
    assert_eq!(sm.active_id("alice"), "main");
}

#[test]
fn facts_are_written_read_and_deleted_one_by_one() {
    let mut store = MemoryStore::new();
    for (sender, key, value) in [("a", "k", "1"), ("a", "l", "2"), ("b", "k", "3"), ("a", "k", "4")] {
        let m = store.set(sender, key, value);
        store.keep(sender, &m);
    }
    assert_eq!(store.get("a", "k").as_deref(), Some("4"));
    assert_eq!(store.get("a", "l").as_deref(), Some("2"));
    assert_eq!(store.get("b", "k").as_deref(), Some("3"));
    let m = store.delete("a", "k").unwrap();
    store.keep("a", &m);
    assert!(store.get("a", "k").is_none());
    assert_eq!(store.get("a", "l").as_deref(), Some("2"));
    assert_eq!(store.get("b", "k").as_deref(), Some("3"));
}
