use sloth_agent::json::Json;
use sloth_agent::model_catalog::{
    explain_pick, is_catalog_extension, Catalog, ModelInfo, PickOptions, PickedText, Strategy,
};
use sloth_agent::skill::{is_skill_extension, parse_skill_str, SkillFile, SkillRegistry};
use sloth_agent::table::Table;

fn text(s: &str) -> Json {
    Json::Str(s.to_string())
}

fn object(members: Vec<(&str, Json)>) -> Json {
    Json::Object(members.into_iter().map(|(k, v)| (k.to_string(), v)).collect())
}

fn files(list: &[(&str, &str)]) -> Table<SkillFile> {
    let mut t = Table::new();
    for (path, text) in list {
        let extension = path.rsplit_once('.').map(|p| p.1.to_string());
        t.insert(path.to_string(), SkillFile { extension, text: text.to_string() });
    }
    t
}

fn model(id: &str, window: u32, score: i64, cost: i64, value: i64) -> ModelInfo {
    ModelInfo {
        id: id.to_string(),
        provider: None,
        context_window: window,
        max_output: None,
        score: Some(score),
        cost: Some(cost),
        value: Some(value),
    }
}

fn catalog(models: Vec<ModelInfo>) -> Catalog {
    let mut c = Catalog::new();
    c.reload(models);
    c
}

#[test]
fn parse_skill_with_args() {
    let md = "---\nname: summarizer\ndescription: Summarize text\narguments:\n  - name: text\n    description: text to summarize\n    required: true\n  - name: length\n    required: false\n---\nSummarize the following in {{length}} words:\n{{text}}\n";
    let s = parse_skill_str(md).unwrap();
    assert_eq!(s.name, "summarizer");
    assert_eq!(s.description.as_deref(), Some("Summarize text"));
    assert_eq!(s.arguments.len(), 2);
    assert!(s.arguments[0].required.unwrap_or(false));
    let out = s.instantiate(&object(vec![("text", text("hello world")), ("length", text("10"))]));
    assert!(out.contains("in 10 words:"));
    assert!(out.contains("hello world"));
}

#[test]
fn parse_skill_missing_name_fails() {
    let md = "---\ndescription: no name\n---\nbody\n";
    assert!(parse_skill_str(md).is_err());
}

#[test]
fn malformed_skills_say_why() {
    assert!(parse_skill_str("no frontmatter").unwrap_err().contains("missing frontmatter"));
    assert!(parse_skill_str("---\nname: x\n").unwrap_err().contains("closing"));
    assert!(parse_skill_str("---\nname: ' '\n---\n").unwrap_err().contains("name"));
}

#[test]
fn quoted_values_and_byte_order_marks() {
    let s = parse_skill_str("\u{feff}---\nname: \"my skill\"\ndescription: 'd'\n---\nbody").unwrap();
    assert_eq!(s.name, "my skill");
    assert_eq!(s.description.as_deref(), Some("d"));
    assert_eq!(s.body, "body");
}

#[test]
fn schemas_list_required_arguments() {
    let s = parse_skill_str("---\nname: s\narguments:\n  - name: b\n    required: true\n  - name: a\n---\nx").unwrap();
    let schema = s.input_schema();
    assert_eq!(schema.get("required"), Some(&Json::Array(vec![text("b")])));
    assert!(schema.get("properties").unwrap().get("a").is_some());
}

#[test]
fn registry_reload_from_dir() {
    let mut reg = SkillRegistry::new();
    reg.set_dir("/skills");
    let a = ("/skills/a.md", "---\nname: alpha\ndescription: a\n---\nbody-a\n");
    let b = ("/skills/b.md", "---\nname: beta\ndescription: b\n---\nbody-b\n");
    let c = ("/skills/c.md", "---\nname: gamma\ndescription: g\n---\nbody-c\n");
    assert_eq!(reg.reload(Ok(&files(&[a, b]))), Ok(2));
    assert!(reg.get("alpha").is_some());
    assert!(reg.get("beta").is_some());
    assert_eq!(reg.reload(Ok(&files(&[b, c]))), Ok(2));
    assert!(reg.get("alpha").is_none());
    assert!(reg.get("gamma").is_some());
    assert_eq!(reg.get("gamma").unwrap().source.as_deref(), Some("/skills/c.md"));
    assert_eq!(reg.dir(), Some("/skills"));
}

#[test]
fn skills_load_parse_and_invoke_through_router() {
    let mut reg = SkillRegistry::new();
    reg.set_dir("/skills");
    let greet = ("greet.md", "---\nname: greet\ndescription: Greet someone\narguments:\n  - name: who\n    description: person to greet\n    required: true\n---\nHello, {{who}}!\n");
    assert_eq!(reg.reload(Ok(&files(&[greet]))), Ok(1));
    let skills = reg.list();
    assert_eq!(skills.len(), 1);
    assert_eq!(skills[0].name, "greet");
    assert_eq!(skills[0].arguments.len(), 1);
    let out = reg.invoke("greet", &object(vec![("who", text("world"))])).unwrap();
    assert_eq!(out, "Hello, world!\n");
    let bye = ("bye.md", "---\nname: bye\ndescription: Say bye\n---\nGoodbye!\n");
    assert_eq!(reg.reload(Ok(&files(&[greet, bye]))), Ok(2));
    assert!(reg.get("bye").is_some());
    assert_eq!(reg.invoke("nope", &Json::Null).unwrap_err(), "unknown skill: nope");
}

#[test]
fn broken_skill_files_are_left_out() {
    let mut reg = SkillRegistry::new();
    let ok = ("b.md", "---\nname: ok\n---\n");
    assert_eq!(reg.reload(Ok(&files(&[ok]))), Ok(0));
    reg.set_dir("/skills");
    assert_eq!(reg.reload(Ok(&files(&[("a.md", "junk"), ("b.md", "---\nname: ok\n---\n")]))), Ok(1));
    assert_eq!(reg.list()[0].name, "ok");
    assert_eq!(reg.reload(Err("unreadable".to_string())), Err("unreadable".to_string()));
    assert_eq!(reg.list().len(), 1);
    let text = ("c.txt", "---\nname: text\n---\n");
    assert_eq!(reg.reload(Ok(&files(&[text]))), Ok(0));
    assert!(reg.list().is_empty());
}

#[test]
fn file_extensions() {
    assert!(is_skill_extension(Some("md")));
    assert!(!is_skill_extension(Some("txt")));
    assert!(!is_skill_extension(None));
    assert!(is_catalog_extension(Some("yaml")));
    assert!(is_catalog_extension(Some("yml")));
    assert!(!is_catalog_extension(Some("json")));
}

#[test]
fn reload_picks_best_score() {
    let mut cat = Catalog::new();
    let n = cat.reload(vec![model("cheap", 8000, 70, 1, 10), model("smart", 128_000, 90, 20, 5)]);
    assert_eq!(n, 2);
    let pick = cat.pick(&PickOptions::default()).unwrap();
    assert_eq!(pick.id, "smart");
}

#[test]
fn pick_cheapest_above_floor() {
    let cat = catalog(vec![model("cheap", 8000, 75, 1, 10), model("smart", 128_000, 90, 20, 5)]);
    let opts = PickOptions {
        strategy: Strategy::CheapestAboveFloor,
        min_score: Some(70),
        ..Default::default()
    };
    assert_eq!(cat.pick(&opts).unwrap().id, "cheap");
    let opts = PickOptions {
        strategy: Strategy::CheapestAboveFloor,
        min_score: Some(80),
        ..Default::default()
    };
    assert_eq!(cat.pick(&opts).unwrap().id, "smart");
}

#[test]
fn pick_respects_context_requirement() {
    let cat = catalog(vec![model("small", 8000, 90, 0, 0), model("big", 128_000, 85, 0, 0)]);
    let opts = PickOptions { min_context_window: Some(50_000), ..Default::default() };
    assert_eq!(cat.pick(&opts).unwrap().id, "big");
    let opts = PickOptions { min_context_window: Some(1_000_000), ..Default::default() };
    assert!(cat.pick(&opts).is_none());
}

#[test]
fn ties_and_other_strategies() {
    let cat = catalog(vec![model("a", 1, 9, 3, 3), model("b", 1, 9, 3, 4), model("c", 1, 1, 3, 4)]);
    // Of equal maxima the last counts, of equal minima the first.
    assert_eq!(cat.pick(&PickOptions::default()).unwrap().id, "b");
    let opts = PickOptions { strategy: Strategy::BestValue, ..Default::default() };
    assert_eq!(cat.pick(&opts).unwrap().id, "c");
    let opts = PickOptions { strategy: Strategy::CheapestAboveFloor, ..Default::default() };
    assert_eq!(cat.pick(&opts).unwrap().id, "a");
    let opts = PickOptions {
        strategy: Strategy::BestScoreUnderBudget,
        max_cost_per_token: Some(2),
        ..Default::default()
    };
    assert!(cat.pick(&opts).is_none());
}

#[test]
fn models_without_an_id_are_dropped() {
    let cat = catalog(vec![model("  ", 1, 1, 1, 1), model("x", 1, 1, 1, 1)]);
    assert_eq!(cat.list().len(), 1);
    assert!(cat.get("x").is_some());
    assert!(cat.get("  ").is_none());
}

#[test]
fn picks_are_explained() {
    let p = PickedText {
        id: "m".to_string(),
        score: "90.0".to_string(),
        cost: "0.0001".to_string(),
        context_window: 8000,
    };
    assert_eq!(
        explain_pick(&Some(p), Strategy::BestValue, 3),
        "picked 'm' (score 90.0, ~$0.0001/tok, ctx 8000) via BestValue from 3 candidates"
    );
    assert_eq!(
        explain_pick(&None, Strategy::BestScore, 0),
        "no model satisfied BestScore among 0 candidates"
    );
}

#[test]
fn strategies_are_parsed_in_any_case() {
    assert_eq!(Strategy::parse(" Best_Value "), Strategy::BestValue);
    assert_eq!(Strategy::parse("cheapest_above_floor"), Strategy::CheapestAboveFloor);
    assert_eq!(Strategy::parse("BEST_SCORE_UNDER_BUDGET"), Strategy::BestScoreUnderBudget);
    assert_eq!(Strategy::parse("whatever"), Strategy::BestScore);
}
