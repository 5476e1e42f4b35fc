//! Tests for the engine: configuration, aggregation, fix-mode runs and their
//! ordering.

use repolint::{
    parse_config, Config, EngineError, FsEntry, FsNode, LintReport, LintResult, Runner, Severity,
    Snapshot,
};

fn path(s: &str) -> Vec<String> {
    if s.is_empty() {
        Vec::new()
    } else {
        s.split('/').map(|x| x.to_string()).collect()
    }
}

fn dir(s: &str) -> FsEntry {
    FsEntry { path: path(s), node: FsNode::Dir }
}

fn file(s: &str, content: &str) -> FsEntry {
    FsEntry { path: path(s), node: FsNode::Text(content.to_string()) }
}

#[test]
fn empty_configuration_enables_all_rules() {
    let c = parse_config("{}").unwrap();
    assert!(c.rules.is_empty());
    let runner = Runner::new(c);
    let infos = runner.list_rules();
    assert_eq!(infos.len(), 5);
    assert_eq!(infos[0].id, "agent-settings-hooks");
    assert_eq!(infos[1].id, "eslint-config-agent");
    assert_eq!(infos[2].id, "husky-init");
    assert_eq!(infos[3].id, "cspell-config");
    assert_eq!(infos[4].id, "pnpm-usage");
    assert!(infos.iter().all(|i| i.can_fix));
}

#[test]
fn configuration_reads_enabled_and_severity() {
    let c = parse_config(
        r#"{"rules": {"pnpm-usage": {"enabled": false}, "cspell-config": {"severity": "Error", "options": {"anything": [1, 2]}}}}"#,
    )
    .unwrap();
    assert_eq!(c.rules.len(), 2);
    assert_eq!(c.rules[0].rule_id, "pnpm-usage");
    assert!(!c.rules[0].config.enabled);
    assert_eq!(c.rules[1].config.severity, Some(Severity::Error));
}

#[test]
fn malformed_configuration_is_refused() {
    assert!(parse_config("not json").is_err());
    assert!(parse_config("[1, 2]").is_err());
    assert!(parse_config(r#"{"rules": 5}"#).is_err());
    assert!(parse_config(r#"{"rules": {"pnpm-usage": {"enabled": "yes"}}}"#).is_err());
    assert!(parse_config(r#"{"rules": {"pnpm-usage": {"severity": "loud"}}}"#).is_err());
}

#[test]
fn disabled_rules_are_skipped_entirely() {
    let snap = Snapshot {
        entries: vec![dir(""), file("package.json", r#"{"name": "t", "version": "1"}"#)],
    };
    let all = Runner::new(Config::default()).run(&snap);
    assert!(!all.results.is_empty());
    let none = Runner::new(
        parse_config(
            r#"{"rules": {"pnpm-usage": {"enabled": false}, "cspell-config": {"enabled": false}, "eslint-config-agent": {"enabled": false}}}"#,
        )
        .unwrap(),
    )
    .run(&snap);
    assert!(none.results.is_empty());
}

#[test]
fn severity_override_replaces_the_default() {
    let snap = Snapshot {
        entries: vec![dir(""), file("package.json", r#"{"name": "t", "version": "1"}"#), file("yarn.lock", "x")],
    };
    let report = Runner::new(
        parse_config(r#"{"rules": {"pnpm-usage": {"severity": "Info"}}}"#).unwrap(),
    )
    .run(&snap);
    let yarn: Vec<&LintResult> = report
        .results
        .iter()
        .filter(|r| r.check_id == "yarn-lock-exists")
        .collect();
    assert_eq!(yarn.len(), 1);
    assert_eq!(yarn[0].severity, "info");
}

#[test]
fn report_counts_by_severity() {
    let snap = Snapshot {
        entries: vec![
            dir(""),
            dir(".git"),
            file("package.json", r#"{"name": "t", "version": "1"}"#),
            file("yarn.lock", "x"),
        ],
    };
    let report: LintReport = Runner::new(Config::default()).run(&snap);
    let errors = report.results.iter().filter(|r| r.severity == "error").count() as u32;
    let warnings = report.results.iter().filter(|r| r.severity == "warning").count() as u32;
    let infos = report.results.iter().filter(|r| r.severity == "info").count() as u32;
    assert_eq!(report.error_count, errors);
    assert_eq!(report.warning_count, warnings);
    assert_eq!(report.info_count, infos);
    assert_eq!(report.fixed_count, 0);
    assert!(errors >= 1);
}

#[test]
fn engine_error_messages() {
    let e = EngineError::PathNotFound("/missing".to_string());
    assert_eq!(e.message(), "Path does not exist: /missing");
    let io = EngineError::Io("broken pipe".to_string());
    assert_eq!(io.message(), "IO error: broken pipe");
}

#[test]
fn fix_mode_runs_rules_in_order_so_earlier_repairs_satisfy_later_checks() {
    // The hook directory already exists (as the initialization rule's repair
    // leaves it); the spell-check rule's repair then creates the pre-commit
    // hook, and its check passes on a subsequent check-only run.
    let mut snap = Snapshot {
        entries: vec![
            dir(""),
            dir(".git"),
            file("package.json", r#"{"name": "t", "scripts": {"prepare": "husky"}}"#),
            dir(".husky"),
            file("cspell.json", r#"{"version": "0.2"}"#),
            file("pnpm-lock.yaml", "lockfileVersion: 9"),
        ],
    };
    let runner = Runner::new(
        parse_config(
            r#"{"rules": {"eslint-config-agent": {"enabled": false}, "agent-settings-hooks": {"enabled": false}}}"#,
        )
        .unwrap(),
    );
    let (report, cmds) = runner.run_with_fix(&mut snap).unwrap();
    assert!(cmds.is_empty());
    assert!(report.fixed_count >= 1);
    // The hook now exists and runs the spell check.
    match snap.lookup(&path(".husky/pre-commit")).unwrap() {
        FsNode::Text(c) => assert!(c.contains("cspell")),
        _ => panic!("hook missing"),
    }
    // A subsequent check-only run reports nothing for the spell-check rule.
    let after = runner.run(&snap);
    assert!(!after.results.iter().any(|r| r.rule_id == "cspell-config"));
}

#[test]
fn fix_mode_is_idempotent_across_the_whole_engine() {
    let mut snap = Snapshot {
        entries: vec![
            dir(""),
            dir(".git"),
            file(
                "package.json",
                r#"{"name": "t", "packageManager": "npm@10.0.0", "scripts": {"prepare": "husky"}, "devDependencies": {"eslint-config-agent": "^1.0.0"}}"#,
            ),
            file("yarn.lock", "x"),
            dir(".husky"),
            file(".husky/pre-commit", "pnpm test\n"),
        ],
    };
    let runner = Runner::new(Config::default());
    let (first, cmds) = runner.run_with_fix(&mut snap).unwrap();
    assert!(cmds.is_empty());
    assert!(first.fixed_count > 0);
    let (second, cmds2) = runner.run_with_fix(&mut snap).unwrap();
    assert!(cmds2.is_empty());
    assert_eq!(second.fixed_count, 0);
}

#[test]
fn fix_mode_aborts_on_a_malformed_document() {
    let mut snap = Snapshot {
        entries: vec![dir(""), dir(".git"), dir(".agent"), file(".agent/settings.json", "{ nope")],
    };
    let runner = Runner::new(Config::default());
    let check_only = runner.run(&snap);
    let bad: Vec<&LintResult> = check_only
        .results
        .iter()
        .filter(|r| r.rule_id == "agent-settings-hooks")
        .collect();
    assert_eq!(bad.len(), 1);
    assert_eq!(bad[0].severity, "error");
    assert!(bad[0].fixable_by.is_empty());
    let err = runner.run_with_fix(&mut snap).unwrap_err();
    assert!(matches!(err, repolint::RuleError::Json(_)));
}

#[test]
fn rendered_documents_reparse_to_the_same_value() {
    // The rendering wrapper must hand back a faithful textual form, not its
    // input: parse and render must compose to the identity on documents.
    let text = r#"{"b": [1, 2, {"c": null}], "a": "x"}"#;
    let doc = repolint::parse_json(text).unwrap();
    let rendered = repolint::render_json(&doc);
    assert_ne!(rendered, text);
    assert!(rendered.contains("\"a\": \"x\""));
    let doc2 = repolint::parse_json(&rendered).unwrap();
    let rendered2 = repolint::render_json(&doc2);
    assert_eq!(rendered, rendered2);
    assert!(repolint::parse_json("{ nope").is_err());
}

#[test]
fn empty_root_yields_no_findings_at_all() {
    // A root with no repositories and no manifests gives every rule nothing
    // to check.
    let snap = Snapshot { entries: vec![dir(""), dir("docs"), file("docs/readme.txt", "hello")] };
    let report = Runner::new(Config::default()).run(&snap);
    assert!(report.results.is_empty());
    assert_eq!(report.error_count, 0);
    assert_eq!(report.warning_count, 0);
    assert_eq!(report.info_count, 0);
}

#[test]
fn unsupported_fix_error_message() {
    let e = repolint::RuleError::FixNotSupported;
    assert_eq!(e.message(), "Fix not supported for this rule");
}

#[test]
fn rule_listing_carries_the_full_metadata() {
    let runner = Runner::new(Config::default());
    let infos = runner.list_rules();
    assert_eq!(infos[0].name, "Agent Settings Hooks");
    assert_eq!(infos[0].default_severity, "error");
    assert_eq!(infos[2].default_severity, "warning");
    assert_eq!(infos[3].checks.len(), 3);
    let pnpm_fixes = &infos[4].fixes;
    assert_eq!(pnpm_fixes.len(), 3);
    assert_eq!(pnpm_fixes[2].id, "update-package-manager");
    assert_eq!(pnpm_fixes[2].addresses, vec!["package-manager-field".to_string()]);
    // Every finding's fixable_by names only fixes the same rule declares.
    let snap = Snapshot {
        entries: vec![dir(""), file("package.json", r#"{"name": "t", "packageManager": "npm@1"}"#)],
    };
    let report = runner.run(&snap);
    for r in &report.results {
        let info = infos.iter().find(|i| i.id == r.rule_id).unwrap();
        for f in &r.fixable_by {
            assert!(info.fixes.iter().any(|fx| &fx.id == f));
        }
    }
}
