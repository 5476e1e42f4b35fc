//! Tests for the spell-check, lint-configuration and hook-initialization
//! rules.

use repolint::{
    CspellConfigRule, EslintConfigAgentRule, FsEntry, FsNode, HuskyInitRule, Snapshot,
};

fn path(s: &str) -> Vec<String> {
    if s.is_empty() {
        Vec::new()
    } else {
        s.split('/').map(|x| x.to_string()).collect()
    }
}

fn dir(s: &str) -> FsEntry {
    FsEntry { path: path(s), node: FsNode::Dir }
}

fn file(s: &str, content: &str) -> FsEntry {
    FsEntry { path: path(s), node: FsNode::Text(content.to_string()) }
}

fn text_at(snap: &Snapshot, p: &str) -> String {
    match snap.lookup(&path(p)).expect("missing entry") {
        FsNode::Text(c) => c.clone(),
        _ => panic!("not a text file"),
    }
}

#[test]
fn test_detects_missing_cspell_json() {
    let snap = Snapshot {
        entries: vec![dir(""), file("package.json", r#"{"name": "test", "version": "1.0.0"}"#)],
    };
    let rule = CspellConfigRule::new();
    let results = rule.check(&snap, rule.default_severity());
    assert!(results.iter().any(|r| r.check_id == "cspell-json-exists"));
}

#[test]
fn test_detects_missing_cspell_dependency() {
    let snap = Snapshot {
        entries: vec![
            dir(""),
            file("package.json", r#"{"name": "test", "devDependencies": {"typescript": "^5.0.0"}}"#),
            file("cspell.json", r#"{"version": "0.2"}"#),
        ],
    };
    let rule = CspellConfigRule::new();
    let results = rule.check(&snap, rule.default_severity());
    assert!(results.iter().any(|r| r.check_id == "cspell-dependency"));
}

#[test]
fn test_detects_missing_cspell_in_precommit() {
    let snap = Snapshot {
        entries: vec![
            dir(""),
            file("package.json", r#"{"name": "test", "devDependencies": {"cspell": "^8.0.0"}}"#),
            file("cspell.json", r#"{"version": "0.2"}"#),
            dir(".husky"),
            file(".husky/pre-commit", "#!/usr/bin/env sh\npnpm lint\n"),
        ],
    };
    let rule = CspellConfigRule::new();
    let results = rule.check(&snap, rule.default_severity());
    assert!(results.iter().any(|r| r.check_id == "cspell-pre-commit-hook"));
}

#[test]
fn test_passes_when_all_configured() {
    let snap = Snapshot {
        entries: vec![
            dir(""),
            file("package.json", r#"{"name": "test", "devDependencies": {"cspell": "^8.0.0"}}"#),
            file("cspell.json", r#"{"version": "0.2"}"#),
            dir(".husky"),
            file(".husky/pre-commit", "#!/usr/bin/env sh\npnpm exec cspell\n"),
        ],
    };
    let rule = CspellConfigRule::new();
    let results = rule.check(&snap, rule.default_severity());
    assert!(results.is_empty());
}

#[test]
fn test_accepts_cspell_yaml() {
    let snap = Snapshot {
        entries: vec![
            dir(""),
            file("package.json", r#"{"name": "test", "devDependencies": {"cspell": "^8.0.0"}}"#),
            file("cspell.yaml", "version: '0.2'\n"),
        ],
    };
    let rule = CspellConfigRule::new();
    let results = rule.check(&snap, rule.default_severity());
    assert!(!results.iter().any(|r| r.check_id == "cspell-json-exists"));
}

#[test]
fn test_fix_creates_cspell_json() {
    let mut snap = Snapshot {
        entries: vec![dir(""), file("package.json", r#"{"name": "test", "devDependencies": {}}"#)],
    };
    let rule = CspellConfigRule::new();
    let (acts, fixed) = rule.fix(&snap).unwrap();
    assert!(fixed >= 1);
    snap.apply(&acts);
    let content = text_at(&snap, "cspell.json");
    let doc = repolint::parse_json(&content).unwrap();
    assert!(doc.obj_get("version").is_some());
    assert!(doc.obj_get("ignorePaths").is_some());
}

#[test]
fn test_fix_adds_cspell_dependency() {
    let mut snap = Snapshot {
        entries: vec![
            dir(""),
            file("package.json", r#"{"name": "test", "devDependencies": {"typescript": "^5.0.0"}}"#),
        ],
    };
    let rule = CspellConfigRule::new();
    let (acts, fixed) = rule.fix(&snap).unwrap();
    assert!(fixed >= 1);
    snap.apply(&acts);
    let doc = repolint::parse_json(&text_at(&snap, "package.json")).unwrap();
    let deps = doc.obj_get("devDependencies").unwrap();
    assert!(matches!(deps.obj_get("cspell"), Some(repolint::Json::Str(_))));
    assert!(deps.obj_get("typescript").is_some());
}

#[test]
fn test_fix_adds_cspell_to_precommit() {
    let mut snap = Snapshot {
        entries: vec![
            dir(""),
            file("package.json", r#"{"name": "test", "devDependencies": {"cspell": "^8.0.0"}}"#),
            file("cspell.json", r#"{"version": "0.2"}"#),
            dir(".husky"),
            file(".husky/pre-commit", "#!/usr/bin/env sh\npnpm lint\n"),
        ],
    };
    let rule = CspellConfigRule::new();
    let (acts, fixed) = rule.fix(&snap).unwrap();
    assert!(fixed >= 1);
    snap.apply(&acts);
    let content = text_at(&snap, ".husky/pre-commit");
    assert!(content.contains("cspell"));
    assert!(content.contains("pnpm lint"));
}

#[test]
fn cspell_config_test_skips_node_modules() {
    let snap = Snapshot {
        entries: vec![
            dir(""),
            file("package.json", r#"{"name": "test", "devDependencies": {"cspell": "^8.0.0"}}"#),
            file("cspell.json", r#"{"version": "0.2"}"#),
            dir("node_modules"),
            dir("node_modules/some-package"),
            file("node_modules/some-package/package.json", r#"{"name": "some-package", "devDependencies": {}}"#),
        ],
    };
    let rule = CspellConfigRule::new();
    let results = rule.check(&snap, rule.default_severity());
    assert!(!results.iter().any(|r| r.path.iter().any(|c| c == "node_modules")));
}

#[test]
fn cspell_fix_twice_repairs_nothing_the_second_time() {
    let mut snap = Snapshot {
        entries: vec![
            dir(""),
            file("package.json", r#"{"name": "test"}"#),
            dir(".husky"),
        ],
    };
    let rule = CspellConfigRule::new();
    let (acts, fixed) = rule.fix(&snap).unwrap();
    assert_eq!(fixed, 3);
    snap.apply(&acts);
    let (acts2, fixed2) = rule.fix(&snap).unwrap();
    assert_eq!(fixed2, 0);
    assert!(acts2.is_empty());
}

#[test]
fn test_detects_missing_eslint_config_agent() {
    let snap = Snapshot {
        entries: vec![
            dir(""),
            file("package.json", r#"{"name": "test", "devDependencies": {"eslint": "^8.0.0"}}"#),
        ],
    };
    let rule = EslintConfigAgentRule::new();
    let results = rule.check(&snap, rule.default_severity());
    assert!(results.iter().any(|r| r.message.contains("Missing eslint-config-agent")));
}

#[test]
fn test_detects_missing_eslint_config_mjs() {
    let snap = Snapshot {
        entries: vec![
            dir(""),
            file("package.json", r#"{"name": "test", "devDependencies": {"eslint-config-agent": "^1.0.0"}}"#),
        ],
    };
    let rule = EslintConfigAgentRule::new();
    let results = rule.check(&snap, rule.default_severity());
    assert!(results.iter().any(|r| r.message.contains("Missing eslint.config.mjs")));
}

#[test]
fn test_detects_eslint_config_not_using_agent() {
    let snap = Snapshot {
        entries: vec![
            dir(""),
            file("package.json", r#"{"name": "test", "devDependencies": {"eslint-config-agent": "^1.0.0"}}"#),
            file("eslint.config.mjs", r#"export default [];"#),
        ],
    };
    let rule = EslintConfigAgentRule::new();
    let results = rule.check(&snap, rule.default_severity());
    assert!(results.iter().any(|r| r.message.contains("does not use eslint-config-agent")));
}

#[test]
fn test_detects_custom_overrides() {
    let config = "\nimport config from \"eslint-config-agent\";\n\nexport default [\n    ...config,\n    {\n        rules: {\n            \"no-console\": \"off\"\n        }\n    }\n];\n";
    let snap = Snapshot {
        entries: vec![
            dir(""),
            file("package.json", r#"{"name": "test", "devDependencies": {"eslint-config-agent": "^1.0.0"}}"#),
            file("eslint.config.mjs", config),
        ],
    };
    let rule = EslintConfigAgentRule::new();
    let results = rule.check(&snap, rule.default_severity());
    assert!(results.iter().any(|r| r.message.contains("custom overrides")));
}

#[test]
fn test_detects_legacy_eslint_configs() {
    let snap = Snapshot {
        entries: vec![
            dir(""),
            file("package.json", r#"{"name": "test", "devDependencies": {"eslint-config-agent": "^1.0.0"}}"#),
            file("eslint.config.mjs", "import config from \"eslint-config-agent\";\nexport default config;\n"),
            file(".eslintrc.json", r#"{"extends": ["eslint:recommended"]}"#),
        ],
    };
    let rule = EslintConfigAgentRule::new();
    let results = rule.check(&snap, rule.default_severity());
    assert!(results.iter().any(|r| r.message.contains("legacy ESLint config")));
}

#[test]
fn test_accepts_correct_configuration() {
    let snap = Snapshot {
        entries: vec![
            dir(""),
            file("package.json", r#"{"name": "test", "devDependencies": {"eslint-config-agent": "^1.0.0"}}"#),
            file("eslint.config.mjs", "import config from \"eslint-config-agent\";\n\nexport default config;\n"),
        ],
    };
    let rule = EslintConfigAgentRule::new();
    let results = rule.check(&snap, rule.default_severity());
    assert!(results.is_empty());
}

#[test]
fn test_skips_non_js_projects() {
    let snap = Snapshot {
        entries: vec![dir(""), file("package.json", r#"{"name": "test"}"#)],
    };
    let rule = EslintConfigAgentRule::new();
    let results = rule.check(&snap, rule.default_severity());
    assert!(results.is_empty());
}

#[test]
fn eslint_config_agent_test_skips_node_modules() {
    let snap = Snapshot {
        entries: vec![
            dir(""),
            file("package.json", r#"{"name": "test", "devDependencies": {"eslint-config-agent": "^1.0.0"}}"#),
            file("eslint.config.mjs", "import config from \"eslint-config-agent\";\n\nexport default config;\n"),
            dir("node_modules"),
            dir("node_modules/some-package"),
            file("node_modules/some-package/package.json", r#"{"name": "some-package", "devDependencies": {"eslint": "^8.0.0"}}"#),
        ],
    };
    let rule = EslintConfigAgentRule::new();
    let results = rule.check(&snap, rule.default_severity());
    assert!(results.is_empty());
}

#[test]
fn test_fix_creates_eslint_config_mjs() {
    let mut snap = Snapshot {
        entries: vec![
            dir(""),
            file("package.json", r#"{"name": "test", "devDependencies": {"eslint-config-agent": "^1.0.0"}}"#),
        ],
    };
    let rule = EslintConfigAgentRule::new();
    let (cmds, acts, fixed) = rule.fix(&snap).unwrap();
    assert!(cmds.is_empty());
    assert!(fixed >= 1);
    snap.apply(&acts);
    let content = text_at(&snap, "eslint.config.mjs");
    assert!(content.contains("eslint-config-agent"));
    assert!(content.contains("export default config"));
}

#[test]
fn test_fix_removes_legacy_configs() {
    let mut snap = Snapshot {
        entries: vec![
            dir(""),
            file("package.json", r#"{"name": "test", "devDependencies": {"eslint-config-agent": "^1.0.0"}}"#),
            file(".eslintrc.json", r#"{}"#),
            file(".eslintrc.js", "module.exports = {}"),
        ],
    };
    let rule = EslintConfigAgentRule::new();
    let (_cmds, acts, fixed) = rule.fix(&snap).unwrap();
    assert!(fixed >= 2);
    snap.apply(&acts);
    assert!(snap.lookup(&path(".eslintrc.json")).is_none());
    assert!(snap.lookup(&path(".eslintrc.js")).is_none());
    assert!(snap.lookup(&path("eslint.config.mjs")).is_some());
}

#[test]
fn test_fix_updates_incorrect_eslint_config() {
    let mut snap = Snapshot {
        entries: vec![
            dir(""),
            file("package.json", r#"{"name": "test", "devDependencies": {"eslint-config-agent": "^1.0.0"}}"#),
            file("eslint.config.mjs", r#"export default [];"#),
        ],
    };
    let rule = EslintConfigAgentRule::new();
    let (_cmds, acts, fixed) = rule.fix(&snap).unwrap();
    assert!(fixed >= 1);
    snap.apply(&acts);
    let content = text_at(&snap, "eslint.config.mjs");
    assert!(content.contains("eslint-config-agent"));
    assert!(content.contains("export default config"));
}

#[test]
fn eslint_fix_requests_install_command_when_dependency_is_missing() {
    let snap = Snapshot {
        entries: vec![
            dir(""),
            dir("web"),
            file("web/package.json", r#"{"name": "web", "devDependencies": {"eslint": "^8.0.0"}}"#),
        ],
    };
    let rule = EslintConfigAgentRule::new();
    let (cmds, _acts, _fixed) = rule.fix(&snap).unwrap();
    assert_eq!(cmds.len(), 1);
    assert_eq!(cmds[0].program, "pnpm");
    assert_eq!(
        cmds[0].args,
        vec!["add".to_string(), "-D".to_string(), "eslint-config-agent@latest".to_string()]
    );
    assert_eq!(cmds[0].dir, path("web"));
}

#[test]
fn husky_check_reports_missing_hook_directory() {
    let snap = Snapshot {
        entries: vec![dir(""), dir(".git"), file("package.json", r#"{"name": "t"}"#)],
    };
    let rule = HuskyInitRule::new();
    let results = rule.check(&snap, rule.default_severity());
    assert_eq!(results.len(), 1);
    assert_eq!(results[0].check_id, "husky-dir-exists");
    assert_eq!(results[0].fixable_by, vec!["init-husky".to_string()]);
}

#[test]
fn husky_fix_requests_the_right_installer() {
    let js = Snapshot {
        entries: vec![dir(""), dir(".git"), file("package.json", r#"{"name": "t"}"#)],
    };
    let rust = Snapshot {
        entries: vec![dir(""), dir(".git"), file("Cargo.toml", "[package]\nname = \"t\"\n")],
    };
    let rule = HuskyInitRule::new();
    let js_cmds = rule.fix(&js);
    assert_eq!(js_cmds.len(), 1);
    assert_eq!(js_cmds[0].program, "npx");
    let rust_cmds = rule.fix(&rust);
    assert_eq!(rust_cmds.len(), 1);
    assert_eq!(rust_cmds[0].program, "cargo");
}

#[test]
fn husky_check_reports_missing_prepare_script_and_hooks() {
    let snap = Snapshot {
        entries: vec![
            dir(""),
            dir(".git"),
            file("package.json", r#"{"name": "t", "scripts": {"build": "tsc"}}"#),
            dir(".husky"),
        ],
    };
    let rule = HuskyInitRule::new();
    let results = rule.check(&snap, rule.default_severity());
    assert!(results.iter().any(|r| r.check_id == "prepare-script" && r.severity == "warning"));
    assert!(results.iter().any(|r| r.check_id == "hooks-present" && r.severity == "info"));
}

#[test]
fn husky_check_passes_on_a_wired_repository() {
    let snap = Snapshot {
        entries: vec![
            dir(""),
            dir(".git"),
            file("package.json", r#"{"name": "t", "scripts": {"prepare": "husky"}}"#),
            dir(".husky"),
            file(".husky/pre-commit", "pnpm test\n"),
        ],
    };
    let rule = HuskyInitRule::new();
    let results = rule.check(&snap, rule.default_severity());
    assert!(results.is_empty());
    // Nothing to initialize either.
    assert!(rule.fix(&snap).is_empty());
}

#[test]
fn husky_prepare_update_adds_the_script_once() {
    let rule = HuskyInitRule::new();
    let updated = rule
        .prepare_update(r#"{"name": "t", "scripts": {"build": "tsc"}}"#)
        .expect("an update was due");
    let doc = repolint::parse_json(&updated).unwrap();
    let scripts = doc.obj_get("scripts").unwrap();
    assert_eq!(scripts.obj_get_str("prepare").unwrap(), "husky");
    assert_eq!(scripts.obj_get_str("build").unwrap(), "tsc");
    // A manifest that already has one is left alone.
    assert!(rule.prepare_update(&updated).is_none());
}

#[test]
fn fix_does_not_duplicate_an_existing_config_variant() {
    // A project already compliant through another accepted configuration
    // variant gains no second copy and reports no repair for it.
    let mut snap = Snapshot {
        entries: vec![
            dir(""),
            file("package.json", r#"{"name": "test", "devDependencies": {"cspell": "^8.0.0"}}"#),
            file("cspell.yaml", "version: '0.2'\n"),
        ],
    };
    let rule = CspellConfigRule::new();
    let (acts, fixed) = rule.fix(&snap).unwrap();
    assert_eq!(fixed, 0);
    assert!(acts.is_empty());
    snap.apply(&acts);
    assert!(snap.lookup(&path("cspell.json")).is_none());
}

#[test]
fn unreadable_files_surface_their_error_text() {
    let snap = Snapshot {
        entries: vec![
            dir(""),
            FsEntry {
                path: path("package.json"),
                node: FsNode::Unreadable("permission denied".to_string()),
            },
        ],
    };
    let cspell = CspellConfigRule::new();
    let results = cspell.check(&snap, cspell.default_severity());
    assert!(results
        .iter()
        .any(|r| r.message == "Cannot read package.json: permission denied"));
    let eslint = EslintConfigAgentRule::new();
    let results = eslint.check(&snap, eslint.default_severity());
    assert!(results
        .iter()
        .any(|r| r.message == "Cannot read package.json: permission denied"));
}

#[test]
fn missing_hook_directory_message_names_the_installer() {
    let js = Snapshot {
        entries: vec![dir(""), dir(".git"), file("package.json", r#"{"name": "t"}"#)],
    };
    let rust = Snapshot {
        entries: vec![dir(""), dir(".git"), file("Cargo.toml", "[package]\nname = \"t\"\n")],
    };
    let rule = HuskyInitRule::new();
    let js_results = rule.check(&js, rule.default_severity());
    assert_eq!(js_results[0].message, "Missing .husky directory - Husky is not initialized");
    let rust_results = rule.check(&rust, rule.default_severity());
    assert_eq!(
        rust_results[0].message,
        "Missing .husky directory - husky-rs is not initialized"
    );
}
