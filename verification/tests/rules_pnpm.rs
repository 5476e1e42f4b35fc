//! Tests for the package-manager rule.

use repolint::{FsEntry, FsNode, PnpmUsageRule, Snapshot};

fn path(s: &str) -> Vec<String> {
    if s.is_empty() {
        Vec::new()
    } else {
        s.split('/').map(|x| x.to_string()).collect()
    }
}

fn dir(s: &str) -> FsEntry {
    FsEntry { path: path(s), node: FsNode::Dir }
}

fn file(s: &str, content: &str) -> FsEntry {
    FsEntry { path: path(s), node: FsNode::Text(content.to_string()) }
}

#[test]
fn test_detects_yarn_lock() {
    let snap = Snapshot {
        entries: vec![
            dir(""),
            file("package.json", r#"{"name": "test", "version": "1.0.0"}"#),
            file("yarn.lock", "# yarn lockfile v1"),
        ],
    };
    let rule = PnpmUsageRule::new();
    let results = rule.check(&snap, rule.default_severity());
    assert!(results.iter().any(|r| r.message.contains("yarn.lock")));
}

#[test]
fn test_detects_package_lock_json() {
    let snap = Snapshot {
        entries: vec![
            dir(""),
            file("package.json", r#"{"name": "test", "version": "1.0.0"}"#),
            file("package-lock.json", r#"{"lockfileVersion": 2}"#),
        ],
    };
    let rule = PnpmUsageRule::new();
    let results = rule.check(&snap, rule.default_severity());
    assert!(results.iter().any(|r| r.message.contains("package-lock.json")));
}

#[test]
fn test_detects_wrong_package_manager_field() {
    let snap = Snapshot {
        entries: vec![
            dir(""),
            file("package.json", r#"{"name": "test", "packageManager": "npm@10.0.0"}"#),
        ],
    };
    let rule = PnpmUsageRule::new();
    let results = rule.check(&snap, rule.default_severity());
    assert!(results.iter().any(|r| r.message.contains("packageManager is set to")));
    assert!(results.iter().any(|r| r.message.contains("npm")));
    assert!(results.iter().any(|r| r.check_id == "package-manager-field"));
}

#[test]
fn test_accepts_pnpm_package_manager() {
    let snap = Snapshot {
        entries: vec![
            dir(""),
            file("package.json", r#"{"name": "test", "packageManager": "pnpm@9.0.0"}"#),
            file("pnpm-lock.yaml", "lockfileVersion: 9"),
        ],
    };
    let rule = PnpmUsageRule::new();
    let results = rule.check(&snap, rule.default_severity());
    assert!(results.is_empty());
}

#[test]
fn test_detects_npm_in_scripts() {
    let snap = Snapshot {
        entries: vec![
            dir(""),
            file(
                "package.json",
                r#"{"name": "test", "packageManager": "pnpm@9.0.0", "scripts": {"publish": "npm publish"}}"#,
            ),
            file("pnpm-lock.yaml", "lockfileVersion: 9"),
        ],
    };
    let rule = PnpmUsageRule::new();
    let results = rule.check(&snap, rule.default_severity());
    assert!(results.iter().any(|r| r.message.contains("uses npm command")));
}

#[test]
fn test_detects_engines_npm() {
    let snap = Snapshot {
        entries: vec![
            dir(""),
            file(
                "package.json",
                r#"{"name": "test", "packageManager": "pnpm@9.0.0", "engines": {"npm": ">=8.0.0"}}"#,
            ),
            file("pnpm-lock.yaml", "lockfileVersion: 9"),
        ],
    };
    let rule = PnpmUsageRule::new();
    let results = rule.check(&snap, rule.default_severity());
    assert!(results.iter().any(|r| r.message.contains("engines.npm")));
}

#[test]
fn test_fix_removes_yarn_lock() {
    let mut snap = Snapshot {
        entries: vec![
            dir(""),
            file("package.json", r#"{"name": "test", "packageManager": "pnpm@9.0.0"}"#),
            file("yarn.lock", "# yarn lockfile v1"),
        ],
    };
    let rule = PnpmUsageRule::new();
    let (acts, fixed) = rule.fix(&snap).unwrap();
    assert!(fixed >= 1);
    snap.apply(&acts);
    assert!(snap.lookup(&path("yarn.lock")).is_none());
}

#[test]
fn test_fix_removes_package_lock_json() {
    let mut snap = Snapshot {
        entries: vec![
            dir(""),
            file("package.json", r#"{"name": "test", "packageManager": "pnpm@9.0.0"}"#),
            file("package-lock.json", r#"{"lockfileVersion": 2}"#),
        ],
    };
    let rule = PnpmUsageRule::new();
    let (acts, fixed) = rule.fix(&snap).unwrap();
    assert!(fixed >= 1);
    snap.apply(&acts);
    assert!(snap.lookup(&path("package-lock.json")).is_none());
}

#[test]
fn test_fix_updates_package_manager_field() {
    let mut snap = Snapshot {
        entries: vec![
            dir(""),
            file("package.json", r#"{"name": "test", "packageManager": "npm@10.0.0"}"#),
        ],
    };
    let rule = PnpmUsageRule::new();
    let (acts, fixed) = rule.fix(&snap).unwrap();
    assert!(fixed >= 1);
    snap.apply(&acts);
    let content = match snap.lookup(&path("package.json")).unwrap() {
        FsNode::Text(c) => c.clone(),
        _ => panic!("not text"),
    };
    let doc = repolint::parse_json(&content).unwrap();
    assert!(doc.obj_get_str("packageManager").unwrap().starts_with("pnpm@"));
    assert_eq!(doc.obj_get_str("name").unwrap(), "test");
}

#[test]
fn pnpm_usage_test_skips_node_modules() {
    let snap = Snapshot {
        entries: vec![
            dir(""),
            file("package.json", r#"{"name": "test", "packageManager": "pnpm@9.0.0"}"#),
            file("pnpm-lock.yaml", "lockfileVersion: 9"),
            dir("node_modules"),
            dir("node_modules/some-package"),
            file(
                "node_modules/some-package/package.json",
                r#"{"name": "some-package", "packageManager": "npm@10.0.0"}"#,
            ),
        ],
    };
    let rule = PnpmUsageRule::new();
    let results = rule.check(&snap, rule.default_severity());
    assert!(results.is_empty());
}

#[test]
fn test_warns_when_no_pnpm_setup() {
    let snap = Snapshot {
        entries: vec![
            dir(""),
            file("package.json", r#"{"name": "test", "version": "1.0.0"}"#),
        ],
    };
    let rule = PnpmUsageRule::new();
    let results = rule.check(&snap, rule.default_severity());
    assert!(results.iter().any(|r| r.message.contains("No packageManager field")));
    assert!(results.iter().any(|r| r.severity == "warning"));
}

#[test]
fn fix_twice_repairs_nothing_the_second_time() {
    // Idempotence on a project with every repairable violation.
    let mut snap = Snapshot {
        entries: vec![
            dir(""),
            file("package.json", r#"{"name": "test", "packageManager": "yarn@1.22.0"}"#),
            file("yarn.lock", "# yarn lockfile v1"),
            file("package-lock.json", r#"{"lockfileVersion": 2}"#),
        ],
    };
    let rule = PnpmUsageRule::new();
    let (acts, fixed) = rule.fix(&snap).unwrap();
    assert_eq!(fixed, 3);
    snap.apply(&acts);
    let (acts2, fixed2) = rule.fix(&snap).unwrap();
    assert_eq!(fixed2, 0);
    assert!(acts2.is_empty());
}

#[test]
fn unreadable_manifest_is_an_error_finding_and_fails_the_fix() {
    let snap = Snapshot {
        entries: vec![
            dir(""),
            FsEntry {
                path: path("package.json"),
                node: FsNode::Unreadable("permission denied".to_string()),
            },
        ],
    };
    let rule = PnpmUsageRule::new();
    let results = rule.check(&snap, rule.default_severity());
    assert_eq!(results.len(), 1);
    assert_eq!(results[0].severity, "error");
    assert!(results[0].fixable_by.is_empty());
    let err = rule.fix(&snap).unwrap_err();
    assert!(matches!(err, repolint::RuleError::Io(_)));
}

#[test]
fn malformed_manifest_fails_the_fix_with_a_document_error() {
    let snap = Snapshot {
        entries: vec![dir(""), file("package.json", "{ oops")],
    };
    let rule = PnpmUsageRule::new();
    let err = rule.fix(&snap).unwrap_err();
    assert!(matches!(err, repolint::RuleError::Json(_)));
    assert!(err.message().starts_with("JSON error: "));
}
