//! Tests for the agent-settings rule: checking and repairing the hook
//! configuration of git repositories.

use repolint::{
    AgentSettingsRule, FsEntry, FsNode, Json, JsonField, Snapshot,
};

fn path(s: &str) -> Vec<String> {
    if s.is_empty() {
        Vec::new()
    } else {
        s.split('/').map(|x| x.to_string()).collect()
    }
}

fn dir(s: &str) -> FsEntry {
    FsEntry { path: path(s), node: FsNode::Dir }
}

fn file(s: &str, content: &str) -> FsEntry {
    FsEntry { path: path(s), node: FsNode::Text(content.to_string()) }
}

fn obj(fields: Vec<(&str, Json)>) -> Json {
    Json::Obj(
        fields
            .into_iter()
            .map(|(k, v)| JsonField { key: k.to_string(), val: v })
            .collect(),
    )
}

fn s(v: &str) -> Json {
    Json::Str(v.to_string())
}

fn get<'a>(j: &'a Json, k: &str) -> &'a Json {
    j.obj_get(k).expect("missing field")
}

fn arr(j: &Json) -> &Vec<Json> {
    match j {
        Json::Arr(a) => a,
        _ => panic!("not an array"),
    }
}

fn has_matcher(items: &Vec<Json>, name: &str) -> bool {
    items.iter().any(|it| match it.obj_get_str("matcher") {
        Some(m) => m == name,
        None => false,
    })
}

fn git_repo_snapshot() -> Snapshot {
    Snapshot { entries: vec![dir(""), dir(".git")] }
}

#[test]
fn test_fix_creates_new_file_when_missing() {
    let mut snap = git_repo_snapshot();
    let rule = AgentSettingsRule::new();

    let (acts, fixed) = rule.fix(&snap).unwrap();
    assert_eq!(fixed, 1);
    snap.apply(&acts);

    let settings = snap.lookup(&path(".agent/settings.json")).expect("settings missing");
    let content = match settings {
        FsNode::Text(c) => c.clone(),
        _ => panic!("settings is not a text file"),
    };
    let doc = repolint::parse_json(&content).unwrap();
    let hooks = get(&doc, "hooks");
    let pre = arr(get(hooks, "PreToolUse"));
    assert!(has_matcher(pre, "Bash"));
}

#[test]
fn test_fix_deep_merges_existing_file_without_hooks() {
    let existing = obj(vec![
        ("apiKey", s("test-key")),
        ("model", s("agent-3")),
        ("customSetting", obj(vec![("nested", s("value"))])),
    ]);
    let mut snap = Snapshot {
        entries: vec![
            dir(""),
            dir(".git"),
            dir(".agent"),
            file(".agent/settings.json", &repolint::render_json(&existing)),
        ],
    };
    let rule = AgentSettingsRule::new();

    let (acts, fixed) = rule.fix(&snap).unwrap();
    assert_eq!(fixed, 1);
    snap.apply(&acts);

    let content = match snap.lookup(&path(".agent/settings.json")).unwrap() {
        FsNode::Text(c) => c.clone(),
        _ => panic!("not text"),
    };
    let doc = repolint::parse_json(&content).unwrap();
    assert_eq!(doc.obj_get_str("apiKey").unwrap(), "test-key");
    assert_eq!(doc.obj_get_str("model").unwrap(), "agent-3");
    assert_eq!(get(get(&doc, "customSetting"), "nested").obj_get("x").is_none(), true);
    assert_eq!(
        match get(&doc, "customSetting").obj_get_str("nested") {
            Some(v) => v.clone(),
            None => panic!("nested missing"),
        },
        "value"
    );
    let pre = arr(get(get(&doc, "hooks"), "PreToolUse"));
    assert!(has_matcher(pre, "Bash"));
}

#[test]
fn test_fix_deep_merges_existing_file_with_other_hooks() {
    let existing = obj(vec![(
        "hooks",
        obj(vec![
            (
                "PreToolUse",
                Json::Arr(vec![obj(vec![
                    ("matcher", s("Write")),
                    ("hooks", Json::Arr(vec![obj(vec![("type", s("command")), ("command", s("echo 'write hook'"))])])),
                ])]),
            ),
            (
                "PostToolUse",
                Json::Arr(vec![obj(vec![
                    ("matcher", s("Read")),
                    ("hooks", Json::Arr(vec![obj(vec![("type", s("command")), ("command", s("echo 'read hook'"))])])),
                ])]),
            ),
        ]),
    )]);
    let mut snap = Snapshot {
        entries: vec![
            dir(""),
            dir(".git"),
            dir(".agent"),
            file(".agent/settings.json", &repolint::render_json(&existing)),
        ],
    };
    let rule = AgentSettingsRule::new();

    let (acts, fixed) = rule.fix(&snap).unwrap();
    assert_eq!(fixed, 1);
    snap.apply(&acts);

    let content = match snap.lookup(&path(".agent/settings.json")).unwrap() {
        FsNode::Text(c) => c.clone(),
        _ => panic!("not text"),
    };
    let doc = repolint::parse_json(&content).unwrap();
    let hooks = get(&doc, "hooks");
    let pre = arr(get(hooks, "PreToolUse"));
    assert!(has_matcher(pre, "Write"));
    assert!(has_matcher(pre, "Bash"));
    let post = arr(get(hooks, "PostToolUse"));
    assert!(has_matcher(post, "Read"));
}

#[test]
fn test_fix_does_not_duplicate_existing_bash_hook() {
    let existing = obj(vec![(
        "hooks",
        obj(vec![(
            "PreToolUse",
            Json::Arr(vec![obj(vec![
                ("matcher", s("Bash")),
                ("hooks", Json::Arr(vec![obj(vec![("type", s("command")), ("command", s("existing bash command"))])])),
            ])]),
        )]),
    )]);
    let mut snap = Snapshot {
        entries: vec![
            dir(""),
            dir(".git"),
            dir(".agent"),
            file(".agent/settings.json", &repolint::render_json(&existing)),
        ],
    };
    let rule = AgentSettingsRule::new();

    let (acts, fixed) = rule.fix(&snap).unwrap();
    assert_eq!(fixed, 0);
    snap.apply(&acts);

    let content = match snap.lookup(&path(".agent/settings.json")).unwrap() {
        FsNode::Text(c) => c.clone(),
        _ => panic!("not text"),
    };
    let doc = repolint::parse_json(&content).unwrap();
    let pre = arr(get(get(&doc, "hooks"), "PreToolUse"));
    let bash: Vec<&Json> = pre
        .iter()
        .filter(|h| matches!(h.obj_get_str("matcher"), Some(m) if m == "Bash"))
        .collect();
    assert_eq!(bash.len(), 1);
    let inner = arr(get(bash[0], "hooks"));
    assert_eq!(inner[0].obj_get_str("command").unwrap(), "existing bash command");
}

#[test]
fn test_fix_preserves_complex_nested_structure() {
    let existing = obj(vec![
        ("apiKey", s("secret-key")),
        (
            "permissions",
            obj(vec![
                ("allow", Json::Arr(vec![s("read"), s("write")])),
                ("deny", Json::Arr(vec![s("execute")])),
                (
                    "advanced",
                    obj(vec![("level1", obj(vec![("level2", obj(vec![("deepValue", Json::Bool(true))]))]))]),
                ),
            ]),
        ),
        (
            "hooks",
            obj(vec![(
                "PreToolUse",
                Json::Arr(vec![obj(vec![
                    ("matcher", s("Edit")),
                    ("hooks", Json::Arr(vec![obj(vec![("type", s("command")), ("command", s("lint check"))])])),
                ])]),
            )]),
        ),
    ]);
    let mut snap = Snapshot {
        entries: vec![
            dir(""),
            dir(".git"),
            dir(".agent"),
            file(".agent/settings.json", &repolint::render_json(&existing)),
        ],
    };
    let rule = AgentSettingsRule::new();

    let (acts, fixed) = rule.fix(&snap).unwrap();
    assert_eq!(fixed, 1);
    snap.apply(&acts);

    let content = match snap.lookup(&path(".agent/settings.json")).unwrap() {
        FsNode::Text(c) => c.clone(),
        _ => panic!("not text"),
    };
    let doc = repolint::parse_json(&content).unwrap();
    assert_eq!(doc.obj_get_str("apiKey").unwrap(), "secret-key");
    let perms = get(&doc, "permissions");
    assert_eq!(arr(get(perms, "allow"))[0].obj_get("x").is_none(), true);
    assert!(matches!(&arr(get(perms, "allow"))[0], Json::Str(v) if v == "read"));
    assert!(matches!(&arr(get(perms, "deny"))[0], Json::Str(v) if v == "execute"));
    let deep = get(get(get(get(perms, "advanced"), "level1"), "level2"), "deepValue");
    assert!(matches!(deep, Json::Bool(true)));
    let pre = arr(get(get(&doc, "hooks"), "PreToolUse"));
    assert!(has_matcher(pre, "Edit"));
    assert!(has_matcher(pre, "Bash"));
}

#[test]
fn test_deep_merge_adds_hooks_to_empty_object() {
    let rule = AgentSettingsRule::new();
    let mut existing = obj(vec![]);

    let changed = rule.deep_merge_hooks(&mut existing);

    assert!(changed);
    let hooks = get(&existing, "hooks");
    let pre = arr(get(hooks, "PreToolUse"));
    assert!(has_matcher(pre, "Bash"));
}

#[test]
fn test_deep_merge_adds_pre_tool_use_to_existing_hooks() {
    let rule = AgentSettingsRule::new();
    let mut existing = obj(vec![("hooks", obj(vec![("PostToolUse", Json::Arr(vec![]))]))]);

    let changed = rule.deep_merge_hooks(&mut existing);

    assert!(changed);
    let hooks = get(&existing, "hooks");
    assert!(hooks.obj_get("PreToolUse").is_some());
    assert!(hooks.obj_get("PostToolUse").is_some());
}

#[test]
fn test_deep_merge_returns_false_when_bash_hook_exists() {
    let rule = AgentSettingsRule::new();
    let mut existing = obj(vec![(
        "hooks",
        obj(vec![(
            "PreToolUse",
            Json::Arr(vec![obj(vec![("matcher", s("Bash")), ("hooks", Json::Arr(vec![]))])]),
        )]),
    )]);

    let changed = rule.deep_merge_hooks(&mut existing);

    assert!(!changed);
}

#[test]
fn check_reports_missing_agent_dir_with_creation_fix() {
    let snap = git_repo_snapshot();
    let rule = AgentSettingsRule::new();
    let results = rule.check(&snap, rule.default_severity());
    assert_eq!(results.len(), 1);
    assert_eq!(results[0].check_id, "agent-dir-exists");
    assert_eq!(results[0].severity, "error");
    assert_eq!(results[0].message, "Missing .agent directory in git repository");
    assert_eq!(results[0].fixable_by, vec!["create-settings".to_string()]);
}

#[test]
fn fix_then_check_passes_on_empty_repository() {
    // An empty root with only a version-control marker and no configuration:
    // the check reports one repairable error, the fix creates the canonical
    // document, and a second check is clean.
    let mut snap = git_repo_snapshot();
    let rule = AgentSettingsRule::new();

    let before = rule.check(&snap, rule.default_severity());
    assert_eq!(before.len(), 1);
    assert_eq!(before[0].severity, "error");
    assert!(!before[0].fixable_by.is_empty());

    let (acts, fixed) = rule.fix(&snap).unwrap();
    assert_eq!(fixed, 1);
    snap.apply(&acts);

    let after = rule.check(&snap, rule.default_severity());
    assert!(after.is_empty());

    // Running the fix again with no external change repairs nothing.
    let (acts2, fixed2) = rule.fix(&snap).unwrap();
    assert_eq!(fixed2, 0);
    assert!(acts2.is_empty());
}

#[test]
fn check_reports_invalid_json_without_fix() {
    let snap = Snapshot {
        entries: vec![
            dir(""),
            dir(".git"),
            dir(".agent"),
            file(".agent/settings.json", "{ not valid json"),
        ],
    };
    let rule = AgentSettingsRule::new();
    let results = rule.check(&snap, rule.default_severity());
    assert_eq!(results.len(), 1);
    assert_eq!(results[0].severity, "error");
    assert!(results[0].message.starts_with("Invalid JSON: "));
    assert!(results[0].fixable_by.is_empty());

    // The fix aborts on the malformed document instead of skipping it.
    assert!(rule.fix(&snap).is_err());
}

#[test]
fn metadata_lists_checks_and_fixes() {
    let rule = AgentSettingsRule::new();
    assert_eq!(rule.id(), "agent-settings-hooks");
    assert!(rule.can_fix());
    assert_eq!(rule.checks().len(), 5);
    let fixes = rule.fixes();
    assert_eq!(fixes.len(), 2);
    assert_eq!(fixes[0].id, "create-settings");
    assert_eq!(fixes[0].addresses, vec!["agent-dir-exists".to_string(), "settings-file-exists".to_string()]);
}

#[test]
fn repositories_inside_dependency_caches_are_excluded() {
    // A version-control marker under node_modules is not a candidate: no
    // rule reports or repairs inside the cache.
    let snap = Snapshot {
        entries: vec![
            dir(""),
            dir("node_modules"),
            dir("node_modules/proj"),
            dir("node_modules/proj/.git"),
        ],
    };
    let rule = AgentSettingsRule::new();
    assert!(rule.check(&snap, rule.default_severity()).is_empty());
    let (acts, fixed) = rule.fix(&snap).unwrap();
    assert!(acts.is_empty());
    assert_eq!(fixed, 0);
    let husky = repolint::HuskyInitRule::new();
    assert!(husky.check(&snap, husky.default_severity()).is_empty());
    assert!(husky.fix(&snap).is_empty());
}
