//! A repository convention linter.
//!
//! The library inspects an in-memory snapshot of a directory tree, applies a
//! fixed, ordered set of rules that check for the presence and correctness of
//! configuration files, and computes the filesystem edits that would repair
//! the violations it can repair.  All decision logic is verified; reading the
//! tree into a snapshot and applying the computed edits is left to the caller.

use vstd::prelude::*;

mod agent_settings;
mod cspell_config;
mod eslint_config_agent;
mod engine;
mod fsmodel;
mod husky_init;
mod json;
mod jsonio;
mod laws;
mod pnpm_usage;
mod text;
mod types;

pub use agent_settings::{
    spec_agent_checks, spec_agent_fixes, spec_agent_info,
    agent_rule_id, has_bash_hook, is_bash_hook_entry, mergeable, settings_path_of,
    spec_bash_hook, spec_check_doc, spec_check_repo, spec_check_repos, spec_agent_check,
    spec_agent_fix, spec_default_settings, spec_fix_repo, spec_fix_repos, spec_hook_command,
    spec_hooks_payload, spec_merge_hooks, AgentSettingsRule,
};
pub use cspell_config::{
    spec_cspell_checks, spec_cspell_fixes, spec_cspell_info,
    cspell_rule_id, has_cspell_config, has_cspell_dep, hook_runs_spellcheck,
    lemma_cspell_default_wf, spec_appended_hook, spec_check_project, spec_check_projects,
    spec_cspell_check, spec_cspell_command, spec_cspell_default, spec_cspell_fix, spec_dep_added,
    spec_dep_findings, spec_config_findings, spec_fix_create, spec_fix_dep, spec_fix_precommit,
    spec_fix_project, spec_fix_projects, spec_new_hook, spec_precommit_findings, CspellConfigRule,
};
pub use eslint_config_agent::{
    spec_eslint_checks, spec_eslint_fixes, spec_eslint_info,
    config_needs_update, eslint_rule_id, has_eslint_config_agent, is_js_project,
    legacy_config_names, spec_check_pkg, spec_check_pkgs, spec_config_file_findings,
    spec_eslint_check, spec_eslint_config_content, spec_eslint_fix, spec_fix_pkg, spec_fix_pkgs,
    spec_legacy_deletes, spec_legacy_findings, EslintConfigAgentRule,
};
pub use engine::{
    parse_config, rule_count, rule_default_severity, rule_id_at, spec_config_entries,
    spec_effective_severity, spec_enabled, spec_engine_check, spec_fix_step, spec_parse_config,
    spec_rule_check, spec_rule_config_of, spec_rule_fix, spec_run_checks, spec_run_fix,
    EngineError, FixPlan, Runner,
};
pub use fsmodel::{
    acts_view, cmds_view, has_git_origin, has_manifest_origin, has_path, is_git_marker, is_manifest_file, path_child, path_clone,
    path_eq, path_has_component, path_parent, path_take, path_view, paths_unique, paths_view,
    snapshot_wf, spec_apply, spec_apply_act, spec_delete, spec_ensure_ancestors, spec_ensure_dir,
    spec_git_repos, spec_lookup, spec_manifest_files, spec_write, set_node, ancestors_present,
    lemma_apply_concat, lemma_delete_push, lemma_lookup_some,
    lemma_git_repos_characterization, lemma_git_repos_clean,
    lemma_manifest_files_characterization, lemma_manifest_nonempty, lemma_manifest_paths_clean,
    lemma_lookup_set_node, lemma_lookup_push, lemma_lookup_ensure_dir,
    lemma_lookup_ensure_ancestors, lemma_lookup_write, lemma_lookup_delete, is_strict_prefix,
    Act, Cmd, CommandRequest, FsAction,
    FsEntry, FsNode, SEntry, SNode, Snapshot,
};
pub use husky_init::{
    spec_husky_checks, spec_husky_fixes, spec_husky_info,
    has_any_hook, hook_names, husky_rule_id, spec_cargo_findings, spec_fix_repo_cmd,
    spec_fix_repos_cmds, spec_hooks_findings, spec_husky_check, spec_husky_check_repo,
    spec_husky_check_repos, spec_husky_fix, spec_prepare_findings, spec_prepare_update,
    spec_project_type, HuskyInitRule, ProjectType,
};
pub use json::{
    json_view, json_within_depth, keys_unique, lemma_depth_monotone, spec_get, spec_get_fields,
    wf_json, JField, Json, JsonData, JsonField,
};
pub use jsonio::{parse_json, render_json, spec_parse_err, spec_parse_json, spec_render_json};
pub use laws::{
    lemma_bash_hook_is_bash, lemma_merge_idempotent, lemma_merge_no_duplicate,
    lemma_merge_safety, lemma_no_manifests_no_findings, lemma_no_repos_no_findings,
    lemma_fix_ordering, lemma_appended_hook_runs_spellcheck, lemma_new_hook_runs_spellcheck,
    lemma_cspell_command_names_cspell, lemma_exclusion, lemma_exclusion_cspell,
    lemma_exclusion_eslint, lemma_exclusion_pnpm, lemma_fix_repo_idempotent,
    lemma_merge_preserves_depth, lemma_merge_preserves_wf, lemma_fix_manifest_idempotent,
    lemma_set_pm_preserves_wf, lemma_set_pm_settles, lemma_dep_added_settles,
    lemma_fix_project_idempotent, lemma_fix_pkg_idempotent, lemma_agent_rule_fix_idempotent,
    agent_post,
};
pub use pnpm_usage::{
    spec_pnpm_checks, spec_pnpm_fixes, spec_pnpm_info,
    pm_needs_update, pnpm_rule_id, spec_check_manifest, spec_check_manifests, spec_doc_findings,
    spec_engine_findings, spec_fix_manifest, spec_fix_manifests, spec_lock_findings,
    spec_manifest_error, spec_pm_findings, spec_pnpm_check, spec_pnpm_fix, spec_script_findings,
    spec_scripts_findings_doc, spec_set_pm, uses_npm, uses_yarn, PnpmUsageRule,
};
pub use text::{contains_seq, contains_str, matches_at, starts_with_seq, starts_with_str, str_concat, str_eq};
pub use types::{
    count_severity, ids_view, sat32, own_ids, results_view, spec_config_of,
    CEntry, CheckEntry, Config, ConfigEntry, Finding, FixEntry, LintReport, LintResult,
    CheckV, FixErr, FixV, RInfo, RuleConfig, RuleError, RuleInfo, Severity, checks_view,
    fixes_view,
};

verus! {

} // verus!
