//! The laws the library guarantees, stated and proved over the rules'
//! mathematical models.

use vstd::prelude::*;

use crate::agent_settings::{
    has_bash_hook, is_bash_hook_entry, mergeable, settings_path_of, spec_agent_check,
    spec_agent_fix, spec_bash_hook, spec_default_settings, spec_fix_repo, spec_fix_repos,
    spec_hooks_payload, spec_merge_hooks,
};
use crate::cspell_config::{
    has_cspell_config, has_cspell_dep, hook_runs_spellcheck, spec_appended_hook,
    spec_cspell_check, spec_cspell_command, spec_dep_added, spec_fix_precommit, spec_new_hook,
    spec_precommit_findings,
};
use crate::eslint_config_agent::spec_eslint_check;
use crate::fsmodel::{
    has_path, lemma_lookup_write, snapshot_wf, spec_apply, spec_delete, spec_git_repos,
    spec_lookup, spec_manifest_files, spec_write, Act, SEntry, SNode,
};
use crate::husky_init::spec_husky_check;
use crate::jsonio::{spec_parse_json, spec_render_json};
use crate::json::{
    json_within_depth, lemma_find_field, lemma_get_fields_push, lemma_get_fields_update,
    spec_find_field, spec_get, spec_get_fields, wf_json, JField, JsonData,
};
use crate::pnpm_usage::{pm_needs_update, spec_fix_manifest, spec_pnpm_check, spec_set_pm};
use crate::text::{
    contains_seq, lemma_matches_at_prefix, lemma_matches_at_suffix, matches_at, spec_trim_end,
};
use crate::types::{FixErr, Severity};

verus! {

/// A root without version-control marker directories gets no findings from
/// the rules that check repositories.
pub proof fn lemma_no_repos_no_findings(es: Seq<SEntry>, sev: Severity)
    requires
        spec_git_repos(es) == Seq::<Seq<Seq<char>>>::empty(),
    ensures
        spec_agent_check(es, sev) == Seq::<crate::types::Finding>::empty(),
        spec_husky_check(es, sev) == Seq::<crate::types::Finding>::empty(),
{
}

/// A root without manifest documents gets no findings from the rules that
/// check projects.
pub proof fn lemma_no_manifests_no_findings(es: Seq<SEntry>, sev: Severity)
    requires
        spec_manifest_files(es) == Seq::<Seq<Seq<char>>>::empty(),
    ensures
        spec_pnpm_check(es, sev) == Seq::<crate::types::Finding>::empty(),
        spec_cspell_check(es, sev) == Seq::<crate::types::Finding>::empty(),
        spec_eslint_check(es, sev) == Seq::<crate::types::Finding>::empty(),
{
}

/// Merge safety: merging the required hook into a settings document keeps
/// every top-level field but "hooks" exactly as it was; inside "hooks" every
/// field but "PreToolUse" keeps its value; and an existing "PreToolUse" list
/// is either kept or extended by the one required entry at the end.
pub proof fn lemma_merge_safety(j: JsonData)
    requires
        mergeable(j),
    ensures
        ({
            let (j2, changed) = spec_merge_hooks(j);
            &&& j2 is Obj
            &&& forall|k: Seq<char>| k != "hooks"@ ==> spec_get(j2, k) == spec_get(j, k)
            &&& match spec_get(j, "hooks"@) {
                Some(h) => spec_get(j2, "hooks"@) matches Some(h2) && h2 is Obj && (forall|
                    k: Seq<char>,
                |
                    k != "PreToolUse"@ ==> spec_get(h2, k) == spec_get(h, k)) && (match spec_get(
                    h,
                    "PreToolUse"@,
                ) {
                    Some(JsonData::Arr(a)) => spec_get(h2, "PreToolUse"@) matches Some(
                        JsonData::Arr(a2),
                    ) && (a2 == a || a2 == a.push(spec_bash_hook())),
                    _ => true,
                }),
                None => spec_get(j2, "hooks"@) == Some(spec_hooks_payload()),
            }
        }),
{
    let fs = j->Obj_0;
    let (j2, changed) = spec_merge_hooks(j);
    lemma_find_field(fs, "hooks"@);
    match spec_find_field(fs, "hooks"@) {
        None => {
            let f = JField { key: "hooks"@, val: spec_hooks_payload() };
            assert forall|k: Seq<char>| k != "hooks"@ implies spec_get(j2, k) == spec_get(
                j,
                k,
            ) by {
                lemma_get_fields_push(fs, f, k);
            }
            lemma_get_fields_push(fs, f, "hooks"@);
        },
        Some(i) => {
            let h = fs[i].val;
            let hf = h->Obj_0;
            lemma_find_field(hf, "PreToolUse"@);
            match spec_find_field(hf, "PreToolUse"@) {
                None => {
                    let pf = JField {
                        key: "PreToolUse"@,
                        val: JsonData::Arr(seq![spec_bash_hook()]),
                    };
                    let h2 = JsonData::Obj(hf.push(pf));
                    assert forall|k: Seq<char>| k != "hooks"@ implies spec_get(j2, k) == spec_get(
                        j,
                        k,
                    ) by {
                        lemma_get_fields_update(fs, i, h2, k);
                        if spec_find_field(fs, k) == Some(i) {
                            lemma_find_field(fs, k);
                            assert(fs[i].key == k);
                        }
                    }
                    lemma_get_fields_update(fs, i, h2, "hooks"@);
                    assert forall|k: Seq<char>| k != "PreToolUse"@ implies spec_get(h2, k)
                        == spec_get(h, k) by {
                        lemma_get_fields_push(hf, pf, k);
                    }
                    lemma_get_fields_push(hf, pf, "PreToolUse"@);
                },
                Some(t) => {
                    match hf[t].val {
                        JsonData::Arr(a) => {
                            if has_bash_hook(a) {
                            } else {
                                let pf = JField {
                                    key: hf[t].key,
                                    val: JsonData::Arr(a.push(spec_bash_hook())),
                                };
                                let h2 = JsonData::Obj(hf.update(t, pf));
                                assert forall|k: Seq<char>| k != "hooks"@ implies spec_get(j2, k)
                                    == spec_get(j, k) by {
                                    lemma_get_fields_update(fs, i, h2, k);
                                    if spec_find_field(fs, k) == Some(i) {
                                        lemma_find_field(fs, k);
                                        assert(fs[i].key == k);
                                    }
                                }
                                lemma_get_fields_update(fs, i, h2, "hooks"@);
                                assert forall|k: Seq<char>| k != "PreToolUse"@ implies spec_get(
                                    h2,
                                    k,
                                ) == spec_get(h, k) by {
                                    lemma_get_fields_update(
                                        hf,
                                        t,
                                        JsonData::Arr(a.push(spec_bash_hook())),
                                        k,
                                    );
                                    if spec_find_field(hf, k) == Some(t) {
                                        lemma_find_field(hf, k);
                                        assert(hf[t].key == k);
                                    }
                                }
                                lemma_get_fields_update(
                                    hf,
                                    t,
                                    JsonData::Arr(a.push(spec_bash_hook())),
                                    "PreToolUse"@,
                                );
                            }
                        },
                        _ => {},
                    }
                },
            }
        },
    }
}

/// No duplication: when the required entry already exists — an entry whose
/// "matcher" field is "Bash" — the merge adds nothing and reports no change.
pub proof fn lemma_merge_no_duplicate(j: JsonData)
    requires
        mergeable(j),
        spec_get(j, "hooks"@) matches Some(h) && spec_get(h, "PreToolUse"@) matches Some(
            JsonData::Arr(a),
        ) && has_bash_hook(a),
    ensures
        spec_merge_hooks(j) == (j, false),
{
    let fs = j->Obj_0;
    lemma_find_field(fs, "hooks"@);
    let i = spec_find_field(fs, "hooks"@)->Some_0;
    let hf = fs[i].val->Obj_0;
    lemma_find_field(hf, "PreToolUse"@);
}

/// The required entry bears the "Bash" matcher.
pub proof fn lemma_bash_hook_is_bash()
    ensures
        is_bash_hook_entry(spec_bash_hook()),
{
    let fs = spec_bash_hook()->Obj_0;
    assert(spec_get_fields(fs, "matcher"@) == Some(JsonData::Str("Bash"@)));
}

/// Idempotence of the merge: merging into an already-merged document changes
/// nothing and reports no change.
pub proof fn lemma_merge_idempotent(j: JsonData)
    requires
        mergeable(j),
    ensures
        ({
            let (j2, _changed) = spec_merge_hooks(j);
            mergeable(j2) && spec_merge_hooks(j2) == (j2, false)
        }),
{
    let fs = j->Obj_0;
    let (j2, changed) = spec_merge_hooks(j);
    lemma_merge_safety(j);
    lemma_bash_hook_is_bash();
    lemma_find_field(fs, "hooks"@);
    match spec_find_field(fs, "hooks"@) {
        None => {
            // The payload's one field is the hook list holding the entry.
            let pl = spec_hooks_payload();
            assert(spec_get(pl, "PreToolUse"@) == Some(JsonData::Arr(seq![spec_bash_hook()])));
            let a2 = seq![spec_bash_hook()];
            assert(has_bash_hook(a2)) by {
                assert(is_bash_hook_entry(a2[0]));
            }
            assert(spec_get(j2, "hooks"@) == Some(pl));
            assert(mergeable(j2));
            lemma_merge_no_duplicate(j2);
        },
        Some(i) => {
            let h = fs[i].val;
            let hf = h->Obj_0;
            lemma_find_field(hf, "PreToolUse"@);
            match spec_find_field(hf, "PreToolUse"@) {
                None => {
                    let a2 = seq![spec_bash_hook()];
                    assert(has_bash_hook(a2)) by {
                        assert(is_bash_hook_entry(a2[0]));
                    }
                    let pf = JField { key: "PreToolUse"@, val: JsonData::Arr(a2) };
                    let h2 = JsonData::Obj(hf.push(pf));
                    lemma_get_fields_update(fs, i, h2, "hooks"@);
                    assert(spec_get(j2, "hooks"@) == Some(h2));
                    lemma_get_fields_push(hf, pf, "PreToolUse"@);
                    assert(spec_get(h2, "PreToolUse"@) == Some(JsonData::Arr(a2)));
                    assert(mergeable(j2));
                    lemma_merge_no_duplicate(j2);
                },
                Some(t) => {
                    match hf[t].val {
                        JsonData::Arr(a) => {
                            if has_bash_hook(a) {
                                assert(j2 == j && spec_merge_hooks(j) == (j, false));
                            } else {
                                let a2 = a.push(spec_bash_hook());
                                assert(has_bash_hook(a2)) by {
                                    assert(is_bash_hook_entry(a2[a.len() as int]));
                                }
                                let pf = JField { key: hf[t].key, val: JsonData::Arr(a2) };
                                let h2 = JsonData::Obj(hf.update(t, pf));
                                lemma_get_fields_update(fs, i, h2, "hooks"@);
                                assert(spec_get(j2, "hooks"@) == Some(h2));
                                lemma_get_fields_update(hf, t, JsonData::Arr(a2), "PreToolUse"@);
                                assert(spec_get(h2, "PreToolUse"@) == Some(JsonData::Arr(a2)));
                                assert(mergeable(j2));
                                lemma_merge_no_duplicate(j2);
                            }
                        },
                        _ => {
                            assert(j2 == j && spec_merge_hooks(j) == (j, false));
                        },
                    }
                },
            }
        },
    }
}

/// The spell-check command itself names cspell.
pub proof fn lemma_cspell_command_names_cspell()
    ensures
        matches_at(spec_cspell_command(), "cspell"@, 10),
{
    reveal_strlit("pnpm exec cspell --no-progress \"**/*.{ts,tsx,js,jsx,md,json}\"");
    reveal_strlit("cspell");
    assert(spec_cspell_command().subrange(10, 16) =~= "cspell"@);
}

/// A hook with the spell-check command appended runs a spell check.
pub proof fn lemma_appended_hook_runs_spellcheck(c: Seq<char>)
    ensures
        hook_runs_spellcheck(spec_appended_hook(c)),
        contains_seq(spec_appended_hook(c), "cspell"@),
{
    lemma_cspell_command_names_cspell();
    let head = spec_trim_end(c) + "\n\n# Spell check\n"@;
    lemma_matches_at_suffix(head, spec_cspell_command(), "cspell"@, 10);
    lemma_matches_at_prefix(head + spec_cspell_command(), "\n"@, "cspell"@, head.len() as int + 10);
    assert(spec_appended_hook(c) == head + spec_cspell_command() + "\n"@);
}

/// A freshly created hook runs a spell check.
pub proof fn lemma_new_hook_runs_spellcheck()
    ensures
        hook_runs_spellcheck(spec_new_hook()),
        contains_seq(spec_new_hook(), "cspell"@),
{
    lemma_cspell_command_names_cspell();
    let head = "#!/usr/bin/env sh\n. \"$(dirname -- \"$0\")/_/husky.sh\"\n\n# Spell check\n"@;
    lemma_matches_at_suffix(head, spec_cspell_command(), "cspell"@, 10);
    lemma_matches_at_prefix(head + spec_cspell_command(), "\n"@, "cspell"@, head.len() as int + 10);
    assert(spec_new_hook() == head + spec_cspell_command() + "\n"@);
}

/// Ordering: once an earlier repair — the hook-initialization rule's — has
/// established the hook directory that the spell-check rule depends on,
/// running the spell-check rule's pre-commit repair and applying its edits
/// leaves its pre-commit check passing.
pub proof fn lemma_fix_ordering(es: Seq<SEntry>, dir: Seq<Seq<char>>)
    requires
        spec_lookup(es, dir.push(".husky"@)) is Some,
        spec_fix_precommit(es, dir) is Ok,
    ensures
        ({
            let acts = spec_fix_precommit(es, dir)->Ok_0;
            spec_precommit_findings(spec_apply(es, acts), dir) == Seq::<
                crate::types::Finding,
            >::empty()
        }),
{
    let husky = dir.push(".husky"@);
    let hp = husky.push("pre-commit"@);
    let acts = spec_fix_precommit(es, dir)->Ok_0;
    match spec_lookup(es, hp) {
        Some(SNode::Text(c)) => {
            if contains_seq(c, "cspell"@) {
                assert(acts =~= Seq::<Act>::empty());
                assert(spec_apply(es, acts) == es);
            } else {
                let body = spec_appended_hook(c);
                assert(acts =~= seq![Act::WriteFile { path: hp, content: body }]);
                assert(acts.drop_last() =~= Seq::<Act>::empty());
                assert(spec_apply(es, acts.drop_last()) == es);
                assert(acts.last() == (Act::WriteFile { path: hp, content: body }));
                assert(spec_apply(es, acts) == spec_write(es, hp, body));
                lemma_lookup_write(es, hp, body, hp);
                lemma_appended_hook_runs_spellcheck(c);
            }
        },
        Some(_) => {},
        None => {
            let body = spec_new_hook();
            assert(acts =~= seq![
                Act::WriteFile { path: hp, content: body },
                Act::SetExecutable { path: hp },
            ]);
            assert(acts.drop_last() =~= seq![Act::WriteFile { path: hp, content: body }]);
            assert(acts.drop_last().drop_last() =~= Seq::<Act>::empty());
            assert(spec_apply(es, acts.drop_last().drop_last()) == es);
            assert(acts.drop_last().last() == (Act::WriteFile { path: hp, content: body }));
            assert(spec_apply(es, acts.drop_last()) == spec_write(es, hp, body));
            assert(acts.last() == (Act::SetExecutable { path: hp }));
            assert(spec_apply(es, acts) == spec_write(es, hp, body));
            lemma_lookup_write(es, hp, body, hp);
            lemma_new_hook_runs_spellcheck();
        },
    }
}

/// A clean path stays clean when its last component is dropped.
proof fn lemma_clean_parent(p: Seq<Seq<char>>)
    requires
        !p.contains("node_modules"@),
        p.len() > 0,
    ensures
        !p.drop_last().contains("node_modules"@),
{
    assert forall|t: int| 0 <= t < p.drop_last().len() implies #[trigger] p.drop_last()[t]
        != "node_modules"@ by {
        assert(p.drop_last()[t] == p[t]);
    }
}

/// A clean path stays clean when a component other than the dependency-cache
/// name is appended.
proof fn lemma_clean_push(q: Seq<Seq<char>>, x: Seq<char>)
    requires
        !q.contains("node_modules"@),
        x != "node_modules"@,
    ensures
        !q.push(x).contains("node_modules"@),
{
    assert forall|t: int| 0 <= t < q.push(x).len() implies #[trigger] q.push(x)[t]
        != "node_modules"@ by {
        if t < q.len() {
            assert(q.push(x)[t] == q[t]);
        } else {
            assert(q.push(x)[t] == x);
        }
    }
}

/// Every script finding points at the manifest itself.
proof fn lemma_script_findings_at_manifest(sfs: Seq<JField>, p: Seq<Seq<char>>)
    ensures
        forall|i: int|
            0 <= i < crate::pnpm_usage::spec_script_findings(sfs, p).len()
                ==> #[trigger] crate::pnpm_usage::spec_script_findings(sfs, p)[i].path == p,
    decreases sfs.len(),
{
    if sfs.len() > 0 {
        lemma_script_findings_at_manifest(sfs.drop_last(), p);
        let whole = crate::pnpm_usage::spec_script_findings(sfs, p);
        let before = crate::pnpm_usage::spec_script_findings(sfs.drop_last(), p);
        let ent = crate::pnpm_usage::spec_script_entry_findings(sfs.last(), p);
        assert forall|i: int| 0 <= i < whole.len() implies #[trigger] whole[i].path == p by {
            if i < before.len() {
                assert(whole[i] == before[i]);
            } else {
                assert(whole[i] == ent[i - before.len()]);
            }
        }
    }
}

/// Exclusion for the package-manager rule: no finding's path ever falls
/// under a dependency-cache subtree.
pub proof fn lemma_exclusion_pnpm(es: Seq<SEntry>, ps: Seq<Seq<Seq<char>>>, sev: Severity)
    requires
        forall|i: int|
            0 <= i < ps.len() ==> !(#[trigger] ps[i]).contains("node_modules"@) && ps[i].len() > 0,
    ensures
        forall|i: int|
            0 <= i < crate::pnpm_usage::spec_check_manifests(es, ps, sev).len()
                ==> !#[trigger] crate::pnpm_usage::spec_check_manifests(
                es,
                ps,
                sev,
            )[i].path.contains("node_modules"@),
    decreases ps.len(),
{
    reveal_strlit("node_modules");
    reveal_strlit("yarn.lock");
    reveal_strlit("package-lock.json");
    assert("node_modules"@.len() == 12 && "yarn.lock"@.len() == 9 && "package-lock.json"@.len()
        == 17);
    if ps.len() > 0 {
        lemma_exclusion_pnpm(es, ps.drop_last(), sev);
        let p = ps.last();
        let whole = crate::pnpm_usage::spec_check_manifests(es, ps, sev);
        let before = crate::pnpm_usage::spec_check_manifests(es, ps.drop_last(), sev);
        let one = crate::pnpm_usage::spec_check_manifest(es, p, sev);
        lemma_clean_parent(p);
        lemma_clean_push(p.drop_last(), "yarn.lock"@);
        lemma_clean_push(p.drop_last(), "package-lock.json"@);
        assert forall|i: int| 0 <= i < one.len() implies !#[trigger] one[i].path.contains(
            "node_modules"@,
        ) by {
            let locks = crate::pnpm_usage::spec_lock_findings(es, p, sev);
            if i < locks.len() {
                assert(one[i] == locks[i]);
            } else {
                let tail = one[i];
                match spec_lookup(es, p) {
                    Some(SNode::Text(c)) => {
                        match crate::jsonio::spec_parse_json(c) {
                            Some(j) => {
                                let pm = crate::pnpm_usage::spec_pm_findings(es, j, p, sev);
                                let sc = crate::pnpm_usage::spec_scripts_findings_doc(j, p);
                                let en = crate::pnpm_usage::spec_engine_findings(j, p);
                                let rest = one.skip(locks.len() as int);
                                assert(rest =~= pm + sc + en);
                                assert(tail == rest[i - locks.len()]);
                                match spec_get(j, "scripts"@) {
                                    Some(JsonData::Obj(sfs)) => {
                                        lemma_script_findings_at_manifest(sfs, p);
                                    },
                                    _ => {},
                                }
                            },
                            None => {},
                        }
                    },
                    _ => {},
                }
            }
        }
        assert forall|i: int| 0 <= i < whole.len() implies !#[trigger] whole[i].path.contains(
            "node_modules"@,
        ) by {
            if i < before.len() {
                assert(whole[i] == before[i]);
            } else {
                assert(whole[i] == one[i - before.len()]);
            }
        }
    }
}

/// Exclusion for the spell-check rule: no finding's path ever falls under a
/// dependency-cache subtree.
pub proof fn lemma_exclusion_cspell(es: Seq<SEntry>, ps: Seq<Seq<Seq<char>>>, sev: Severity)
    requires
        forall|i: int|
            0 <= i < ps.len() ==> !(#[trigger] ps[i]).contains("node_modules"@) && ps[i].len() > 0,
    ensures
        forall|i: int|
            0 <= i < crate::cspell_config::spec_check_projects(es, ps, sev).len()
                ==> !#[trigger] crate::cspell_config::spec_check_projects(
                es,
                ps,
                sev,
            )[i].path.contains("node_modules"@),
    decreases ps.len(),
{
    reveal_strlit("node_modules");
    reveal_strlit(".husky");
    reveal_strlit("pre-commit");
    assert("node_modules"@.len() == 12 && ".husky"@.len() == 6 && "pre-commit"@.len() == 10);
    if ps.len() > 0 {
        lemma_exclusion_cspell(es, ps.drop_last(), sev);
        let p = ps.last();
        let whole = crate::cspell_config::spec_check_projects(es, ps, sev);
        let before = crate::cspell_config::spec_check_projects(es, ps.drop_last(), sev);
        let one = crate::cspell_config::spec_check_project(es, p, sev);
        lemma_clean_parent(p);
        lemma_clean_push(p.drop_last(), ".husky"@);
        lemma_clean_push(p.drop_last().push(".husky"@), "pre-commit"@);
        assert forall|i: int| 0 <= i < one.len() implies !#[trigger] one[i].path.contains(
            "node_modules"@,
        ) by {
            let cfg = crate::cspell_config::spec_config_findings(es, p, sev);
            let dep = crate::cspell_config::spec_dep_findings(es, p, sev);
            let pc = crate::cspell_config::spec_precommit_findings(es, p.drop_last());
            assert(one =~= cfg + dep + pc);
            if i < cfg.len() {
                assert(one[i] == cfg[i]);
            } else if i < cfg.len() + dep.len() {
                assert(one[i] == dep[i - cfg.len()]);
            } else {
                assert(one[i] == pc[i - cfg.len() - dep.len()]);
            }
        }
        assert forall|i: int| 0 <= i < whole.len() implies !#[trigger] whole[i].path.contains(
            "node_modules"@,
        ) by {
            if i < before.len() {
                assert(whole[i] == before[i]);
            } else {
                assert(whole[i] == one[i - before.len()]);
            }
        }
    }
}

/// Every legacy-configuration finding points below the project directory at
/// a file bearing one of the legacy names.
proof fn lemma_legacy_findings_clean(es: Seq<SEntry>, dir: Seq<Seq<char>>, names: Seq<Seq<char>>)
    requires
        !dir.contains("node_modules"@),
        forall|t: int| 0 <= t < names.len() ==> #[trigger] names[t] != "node_modules"@,
    ensures
        forall|i: int|
            0 <= i < crate::eslint_config_agent::spec_legacy_findings(es, dir, names).len()
                ==> !#[trigger] crate::eslint_config_agent::spec_legacy_findings(
                es,
                dir,
                names,
            )[i].path.contains("node_modules"@),
    decreases names.len(),
{
    if names.len() > 0 {
        lemma_legacy_findings_clean(es, dir, names.drop_last());
        lemma_clean_push(dir, names.last());
        let whole = crate::eslint_config_agent::spec_legacy_findings(es, dir, names);
        let before = crate::eslint_config_agent::spec_legacy_findings(es, dir, names.drop_last());
        assert forall|i: int| 0 <= i < whole.len() implies !#[trigger] whole[i].path.contains(
            "node_modules"@,
        ) by {
            if i < before.len() {
                assert(whole[i] == before[i]);
            }
        }
    }
}

/// Exclusion for the lint-configuration rule: no finding's path ever falls
/// under a dependency-cache subtree.
pub proof fn lemma_exclusion_eslint(es: Seq<SEntry>, ps: Seq<Seq<Seq<char>>>, sev: Severity)
    requires
        forall|i: int|
            0 <= i < ps.len() ==> !(#[trigger] ps[i]).contains("node_modules"@) && ps[i].len() > 0,
    ensures
        forall|i: int|
            0 <= i < crate::eslint_config_agent::spec_check_pkgs(es, ps, sev).len()
                ==> !#[trigger] crate::eslint_config_agent::spec_check_pkgs(
                es,
                ps,
                sev,
            )[i].path.contains("node_modules"@),
    decreases ps.len(),
{
    reveal_strlit("node_modules");
    reveal_strlit(".eslintrc");
    reveal_strlit(".eslintrc.js");
    reveal_strlit(".eslintrc.json");
    reveal_strlit(".eslintrc.yml");
    reveal_strlit(".eslintrc.yaml");
    reveal_strlit("eslint.config.js");
    reveal_strlit("eslint.config.mjs");
    assert("node_modules"@.len() == 12 && ".eslintrc"@.len() == 9 && ".eslintrc.js"@.len() == 12
        && ".eslintrc.json"@.len() == 14 && ".eslintrc.yml"@.len() == 13
        && ".eslintrc.yaml"@.len() == 14 && "eslint.config.js"@.len() == 16
        && "eslint.config.mjs"@.len() == 17);
    assert("node_modules"@[0] == 'n' && ".eslintrc.js"@[0] == '.');
    if ps.len() > 0 {
        lemma_exclusion_eslint(es, ps.drop_last(), sev);
        let p = ps.last();
        let whole = crate::eslint_config_agent::spec_check_pkgs(es, ps, sev);
        let before = crate::eslint_config_agent::spec_check_pkgs(es, ps.drop_last(), sev);
        let one = crate::eslint_config_agent::spec_check_pkg(es, p, sev);
        let dir = p.drop_last();
        lemma_clean_parent(p);
        lemma_clean_push(dir, "eslint.config.mjs"@);
        let names = crate::eslint_config_agent::legacy_config_names();
        assert forall|t: int| 0 <= t < names.len() implies #[trigger] names[t]
            != "node_modules"@ by {
            if t == 1 {
                assert(names[1] == ".eslintrc.js"@);
            }
        }
        assert forall|i: int| 0 <= i < one.len() implies !#[trigger] one[i].path.contains(
            "node_modules"@,
        ) by {
            match spec_lookup(es, p) {
                Some(SNode::Text(c)) => {
                    match crate::jsonio::spec_parse_json(c) {
                        Some(j) => {
                            if crate::eslint_config_agent::is_js_project(j) {
                                let dep = if !crate::eslint_config_agent::has_eslint_config_agent(
                                    j,
                                ) {
                                    seq![
                                        crate::types::Finding {
                                            rule_id: crate::eslint_config_agent::eslint_rule_id(),
                                            check_id: "eslint-config-agent-dependency"@,
                                            severity: sev.label(),
                                            message: "Missing eslint-config-agent in devDependencies"@,
                                            path: p,
                                            line: None,
                                            fixable_by: seq!["install-eslint-config-agent"@],
                                        },
                                    ]
                                } else {
                                    Seq::<crate::types::Finding>::empty()
                                };
                                let leg = crate::eslint_config_agent::spec_legacy_findings(
                                    es,
                                    dir,
                                    names,
                                );
                                let cfg = crate::eslint_config_agent::spec_config_file_findings(
                                    es,
                                    dir,
                                    sev,
                                );
                                lemma_legacy_findings_clean(es, dir, names);
                                assert(one =~= dep + leg + cfg);
                                if i < dep.len() {
                                    assert(one[i] == dep[i]);
                                } else if i < dep.len() + leg.len() {
                                    assert(one[i] == leg[i - dep.len()]);
                                } else {
                                    assert(one[i] == cfg[i - dep.len() - leg.len()]);
                                }
                            }
                        },
                        None => {},
                    }
                },
                _ => {},
            }
        }
        assert forall|i: int| 0 <= i < whole.len() implies !#[trigger] whole[i].path.contains(
            "node_modules"@,
        ) by {
            if i < before.len() {
                assert(whole[i] == before[i]);
            } else {
                assert(whole[i] == one[i - before.len()]);
            }
        }
    }
}

/// The merge keeps a settings document well formed.
pub proof fn lemma_merge_preserves_wf(j: JsonData)
    requires
        mergeable(j),
        wf_json(j),
    ensures
        wf_json(spec_merge_hooks(j).0),
{
    crate::agent_settings::lemma_canonical_docs_wf();
    let fs = j->Obj_0;
    let (j2, changed) = spec_merge_hooks(j);
    lemma_find_field(fs, "hooks"@);
    match spec_find_field(fs, "hooks"@) {
        None => {
            let f = JField { key: "hooks"@, val: spec_hooks_payload() };
            let fs2 = fs.push(f);
            assert(crate::json::keys_unique(fs2)) by {
                assert forall|a: int, b: int| 0 <= a < b < fs2.len() implies fs2[a].key
                    != fs2[b].key by {
                    if b < fs.len() {
                        assert(fs2[a] == fs[a] && fs2[b] == fs[b]);
                    } else {
                        assert(fs2[a] == fs[a] && fs2[b] == f);
                    }
                }
            }
            assert forall|i: int| 0 <= i < fs2.len() implies wf_json(#[trigger] fs2[i].val) by {
                if i < fs.len() {
                    assert(fs2[i] == fs[i]);
                } else {
                    assert(fs2[i] == f);
                }
            }
        },
        Some(i) => {
            let h = fs[i].val;
            let hf = h->Obj_0;
            assert(wf_json(h));
            lemma_find_field(hf, "PreToolUse"@);
            match spec_find_field(hf, "PreToolUse"@) {
                None => {
                    let pf = JField {
                        key: "PreToolUse"@,
                        val: JsonData::Arr(seq![spec_bash_hook()]),
                    };
                    let hf2 = hf.push(pf);
                    assert(wf_json(pf.val)) by {
                        assert(forall|t: int|
                            0 <= t < pf.val->Arr_0.len() ==> wf_json(#[trigger] pf.val->Arr_0[t]));
                    }
                    assert(crate::json::keys_unique(hf2)) by {
                        assert forall|a: int, b: int| 0 <= a < b < hf2.len() implies hf2[a].key
                            != hf2[b].key by {
                            if b < hf.len() {
                                assert(hf2[a] == hf[a] && hf2[b] == hf[b]);
                            } else {
                                assert(hf2[a] == hf[a] && hf2[b] == pf);
                            }
                        }
                    }
                    assert forall|t: int| 0 <= t < hf2.len() implies wf_json(
                        #[trigger] hf2[t].val,
                    ) by {
                        if t < hf.len() {
                            assert(hf2[t] == hf[t]);
                        } else {
                            assert(hf2[t] == pf);
                        }
                    }
                    let h2 = JsonData::Obj(hf2);
                    assert(wf_json(h2));
                    let fs2 = fs.update(i, JField { key: fs[i].key, val: h2 });
                    assert(crate::json::keys_unique(fs2)) by {
                        assert(forall|t: int| 0 <= t < fs2.len() ==> fs2[t].key == #[trigger] fs[t].key);
                    }
                    assert forall|t: int| 0 <= t < fs2.len() implies wf_json(
                        #[trigger] fs2[t].val,
                    ) by {
                        if t != i {
                            assert(fs2[t] == fs[t]);
                        }
                    }
                },
                Some(t) => {
                    match hf[t].val {
                        JsonData::Arr(a) => {
                            if !has_bash_hook(a) {
                                let a2 = a.push(spec_bash_hook());
                                assert(wf_json(hf[t].val));
                                assert forall|u: int| 0 <= u < a2.len() implies wf_json(
                                    #[trigger] a2[u],
                                ) by {
                                    if u < a.len() {
                                        assert(a2[u] == a[u]);
                                    } else {
                                        assert(a2[u] == spec_bash_hook());
                                    }
                                }
                                let pf = JField { key: hf[t].key, val: JsonData::Arr(a2) };
                                let hf2 = hf.update(t, pf);
                                assert(crate::json::keys_unique(hf2)) by {
                                    assert(forall|u: int|
                                        0 <= u < hf2.len() ==> hf2[u].key == #[trigger] hf[u].key);
                                }
                                assert forall|u: int| 0 <= u < hf2.len() implies wf_json(
                                    #[trigger] hf2[u].val,
                                ) by {
                                    if u != t {
                                        assert(hf2[u] == hf[u]);
                                    }
                                }
                                let h2 = JsonData::Obj(hf2);
                                assert(wf_json(h2));
                                let fs2 = fs.update(i, JField { key: fs[i].key, val: h2 });
                                assert(crate::json::keys_unique(fs2)) by {
                                    assert(forall|u: int|
                                        0 <= u < fs2.len() ==> fs2[u].key == #[trigger] fs[u].key);
                                }
                                assert forall|u: int| 0 <= u < fs2.len() implies wf_json(
                                    #[trigger] fs2[u].val,
                                ) by {
                                    if u != i {
                                        assert(fs2[u] == fs[u]);
                                    }
                                }
                            }
                        },
                        _ => {},
                    }
                },
            }
        },
    }
}

/// The merge keeps a settings document within the parser's nesting bound.
pub proof fn lemma_merge_preserves_depth(j: JsonData)
    requires
        mergeable(j),
        json_within_depth(j, 127),
    ensures
        json_within_depth(spec_merge_hooks(j).0, 127),
{
    crate::agent_settings::lemma_canonical_docs_wf();
    let fs = j->Obj_0;
    let (j2, changed) = spec_merge_hooks(j);
    lemma_find_field(fs, "hooks"@);
    match spec_find_field(fs, "hooks"@) {
        None => {
            let f = JField { key: "hooks"@, val: spec_hooks_payload() };
            let fs2 = fs.push(f);
            crate::json::lemma_depth_monotone(spec_hooks_payload(), 5, 126);
            assert forall|t: int| 0 <= t < fs2.len() implies json_within_depth(
                #[trigger] fs2[t].val,
                126,
            ) by {
                if t < fs.len() {
                    assert(fs2[t] == fs[t]);
                } else {
                    assert(fs2[t] == f);
                }
            }
        },
        Some(i) => {
            let h = fs[i].val;
            let hf = h->Obj_0;
            assert(json_within_depth(h, 126));
            lemma_find_field(hf, "PreToolUse"@);
            match spec_find_field(hf, "PreToolUse"@) {
                None => {
                    let pf = JField {
                        key: "PreToolUse"@,
                        val: JsonData::Arr(seq![spec_bash_hook()]),
                    };
                    crate::json::lemma_depth_monotone(spec_bash_hook(), 3, 124);
                    assert(json_within_depth(pf.val, 125)) by {
                        assert(forall|u: int|
                            0 <= u < pf.val->Arr_0.len() ==> json_within_depth(
                                #[trigger] pf.val->Arr_0[u],
                                124,
                            ));
                    }
                    let hf2 = hf.push(pf);
                    assert forall|u: int| 0 <= u < hf2.len() implies json_within_depth(
                        #[trigger] hf2[u].val,
                        125,
                    ) by {
                        if u < hf.len() {
                            assert(hf2[u] == hf[u]);
                        } else {
                            assert(hf2[u] == pf);
                        }
                    }
                    let h2 = JsonData::Obj(hf2);
                    assert(json_within_depth(h2, 126));
                    let fs2 = fs.update(i, JField { key: fs[i].key, val: h2 });
                    assert forall|u: int| 0 <= u < fs2.len() implies json_within_depth(
                        #[trigger] fs2[u].val,
                        126,
                    ) by {
                        if u != i {
                            assert(fs2[u] == fs[u]);
                        }
                    }
                },
                Some(t) => {
                    match hf[t].val {
                        JsonData::Arr(a) => {
                            if !has_bash_hook(a) {
                                assert(json_within_depth(hf[t].val, 125));
                                let a2 = a.push(spec_bash_hook());
                                crate::json::lemma_depth_monotone(spec_bash_hook(), 3, 124);
                                assert forall|u: int| 0 <= u < a2.len() implies json_within_depth(
                                    #[trigger] a2[u],
                                    124,
                                ) by {
                                    if u < a.len() {
                                        assert(a2[u] == a[u]);
                                    } else {
                                        assert(a2[u] == spec_bash_hook());
                                    }
                                }
                                let pf = JField { key: hf[t].key, val: JsonData::Arr(a2) };
                                let hf2 = hf.update(t, pf);
                                assert forall|u: int| 0 <= u < hf2.len() implies json_within_depth(
                                    #[trigger] hf2[u].val,
                                    125,
                                ) by {
                                    if u != t {
                                        assert(hf2[u] == hf[u]);
                                    }
                                }
                                let h2 = JsonData::Obj(hf2);
                                assert(json_within_depth(h2, 126));
                                let fs2 = fs.update(i, JField { key: fs[i].key, val: h2 });
                                assert forall|u: int| 0 <= u < fs2.len() implies json_within_depth(
                                    #[trigger] fs2[u].val,
                                    126,
                                ) by {
                                    if u != i {
                                        assert(fs2[u] == fs[u]);
                                    }
                                }
                            }
                        },
                        _ => {},
                    }
                },
            }
        },
    }
}

/// Idempotence of the hook-settings repair at the snapshot level, one
/// repository at a time: when the repair for a repository succeeds, applying
/// its edits leaves a snapshot on which the same repair does nothing.  The
/// two premises restate what the document bridge's trusted items guarantee
/// of parsing and rendering: a parsed document is well formed and within the
/// parser's nesting bound, and rendering such a document reparses to itself.
pub proof fn lemma_fix_repo_idempotent(es: Seq<SEntry>, repo: Seq<Seq<char>>)
    requires
        spec_fix_repo(es, repo) is Ok,
        forall|c: Seq<char>|
            (#[trigger] spec_parse_json(c)) matches Some(x) ==> wf_json(x) && json_within_depth(
                x,
                127,
            ),
        forall|x: JsonData|
            wf_json(x) && json_within_depth(x, 127) ==> #[trigger] spec_parse_json(
                spec_render_json(x),
            ) == Some(x),
    ensures
        ({
            let (acts, n) = spec_fix_repo(es, repo)->Ok_0;
            spec_fix_repo(spec_apply(es, acts), repo) == Ok::<(Seq<Act>, nat), FixErr>(
                (Seq::empty(), 0nat),
            )
        }),
{
    let s = settings_path_of(repo);
    let acts = spec_fix_repo(es, repo)->Ok_0.0;
    match spec_lookup(es, s) {
        None => {
            crate::agent_settings::lemma_canonical_docs_wf();
            crate::json::lemma_depth_monotone(spec_default_settings(), 6, 127);
            let body = spec_render_json(spec_default_settings());
            assert(acts =~= seq![Act::WriteFile { path: s, content: body }]);
            assert(acts.drop_last() =~= Seq::<Act>::empty());
            assert(spec_apply(es, acts.drop_last()) == es);
            assert(acts.last() == (Act::WriteFile { path: s, content: body }));
            let es2 = spec_write(es, s, body);
            assert(spec_apply(es, acts) == es2);
            lemma_lookup_write(es, s, body, s);
            assert(spec_parse_json(body) == Some(spec_default_settings()));
            let dfs = spec_default_settings()->Obj_0;
            assert(spec_get_fields(dfs, "hooks"@) == Some(spec_hooks_payload()));
            assert(mergeable(spec_default_settings()));
            assert(spec_find_field(dfs, "hooks"@) == Some(0int));
            let hf = spec_hooks_payload()->Obj_0;
            assert(spec_find_field(hf, "PreToolUse"@) == Some(0int));
            lemma_bash_hook_is_bash();
            assert(has_bash_hook(hf[0].val->Arr_0)) by {
                assert(is_bash_hook_entry(hf[0].val->Arr_0[0]));
            }
            assert(spec_merge_hooks(spec_default_settings()) == (spec_default_settings(), false));
        },
        Some(SNode::Text(c)) => {
            let j = spec_parse_json(c)->Some_0;
            assert(spec_parse_json(c) == Some(j));
            assert(mergeable(j));
            let j2 = spec_merge_hooks(j).0;
            let changed = spec_merge_hooks(j).1;
            if changed {
                lemma_merge_preserves_wf(j);
                lemma_merge_preserves_depth(j);
                lemma_merge_idempotent(j);
                let body = spec_render_json(j2);
                assert(acts =~= seq![Act::WriteFile { path: s, content: body }]);
                assert(acts.drop_last() =~= Seq::<Act>::empty());
                assert(spec_apply(es, acts.drop_last()) == es);
                assert(acts.last() == (Act::WriteFile { path: s, content: body }));
                let es2 = spec_write(es, s, body);
                assert(spec_apply(es, acts) == es2);
                lemma_lookup_write(es, s, body, s);
                assert(spec_parse_json(body) == Some(j2));
            } else {
                assert(acts =~= Seq::<Act>::empty());
                assert(spec_apply(es, acts) == es);
            }
        },
        Some(_) => {},
    }
}

/// Setting the package manager keeps a manifest well formed and within the
/// parser's nesting bound.
pub proof fn lemma_set_pm_preserves_wf(j: JsonData)
    requires
        pm_needs_update(j),
        wf_json(j),
        json_within_depth(j, 127),
    ensures
        wf_json(spec_set_pm(j)),
        json_within_depth(spec_set_pm(j), 127),
{
    let fs = j->Obj_0;
    lemma_find_field(fs, "packageManager"@);
    match spec_find_field(fs, "packageManager"@) {
        Some(i) => {
            let fs2 = fs.update(i, JField { key: fs[i].key, val: JsonData::Str("pnpm@9.0.0"@) });
            assert(crate::json::keys_unique(fs2)) by {
                assert(forall|u: int| 0 <= u < fs2.len() ==> fs2[u].key == #[trigger] fs[u].key);
            }
            assert forall|u: int| 0 <= u < fs2.len() implies wf_json(#[trigger] fs2[u].val) by {
                if u != i {
                    assert(fs2[u] == fs[u]);
                }
            }
            assert forall|u: int| 0 <= u < fs2.len() implies json_within_depth(
                #[trigger] fs2[u].val,
                126,
            ) by {
                if u != i {
                    assert(fs2[u] == fs[u]);
                }
            }
        },
        None => {},
    }
}

/// The rewritten package manager names pnpm, so a second repair finds nothing
/// to rewrite.
pub proof fn lemma_set_pm_settles(j: JsonData)
    requires
        pm_needs_update(j),
    ensures
        !pm_needs_update(spec_set_pm(j)),
{
    reveal_strlit("pnpm@9.0.0");
    reveal_strlit("npm@");
    reveal_strlit("yarn@");
    assert("pnpm@9.0.0"@.len() == 10 && "npm@"@.len() == 4 && "yarn@"@.len() == 5);
    let fs = j->Obj_0;
    lemma_find_field(fs, "packageManager"@);
    let i = spec_find_field(fs, "packageManager"@)->Some_0;
    lemma_get_fields_update(fs, i, JsonData::Str("pnpm@9.0.0"@), "packageManager"@);
    assert(spec_get(spec_set_pm(j), "packageManager"@) == Some(JsonData::Str("pnpm@9.0.0"@)));
    let s = "pnpm@9.0.0"@;
    if crate::text::starts_with_seq(s, "npm@"@) {
        assert(s.subrange(0, 4)[0] == s[0]);
        assert(false);
    }
    if crate::text::starts_with_seq(s, "yarn@"@) {
        assert(s.subrange(0, 5)[0] == s[0]);
        assert(false);
    }
}

/// Idempotence of the package-manager repair at the snapshot level, one
/// manifest at a time: when the repair for a manifest succeeds, applying its
/// edits leaves a snapshot on which the same repair does nothing.  The
/// premises restate what the document bridge's trusted items guarantee.
pub proof fn lemma_fix_manifest_idempotent(es: Seq<SEntry>, p: Seq<Seq<char>>)
    requires
        p.len() > 0,
        p.last() == "package.json"@,
        spec_fix_manifest(es, p) is Ok,
        forall|c: Seq<char>|
            (#[trigger] spec_parse_json(c)) matches Some(x) ==> wf_json(x) && json_within_depth(
                x,
                127,
            ),
        forall|x: JsonData|
            wf_json(x) && json_within_depth(x, 127) ==> #[trigger] spec_parse_json(
                spec_render_json(x),
            ) == Some(x),
    ensures
        ({
            let (acts, n) = spec_fix_manifest(es, p)->Ok_0;
            spec_fix_manifest(spec_apply(es, acts), p) == Ok::<(Seq<Act>, nat), FixErr>(
                (Seq::empty(), 0nat),
            )
        }),
{
    reveal_strlit("package.json");
    reveal_strlit("yarn.lock");
    reveal_strlit("package-lock.json");
    assert("package.json"@.len() == 12 && "yarn.lock"@.len() == 9 && "package-lock.json"@.len()
        == 17);
    let parent = p.drop_last();
    let yl = parent.push("yarn.lock"@);
    let pl = parent.push("package-lock.json"@);
    let acts = spec_fix_manifest(es, p)->Ok_0.0;
    assert(p =~= parent.push(p.last()));
    assert(p != yl && p != pl && yl != pl) by {
        assert(yl.last() == "yarn.lock"@ && pl.last() == "package-lock.json"@);
        if p == yl {
            assert(p.last() == "yarn.lock"@);
        }
        if p == pl {
            assert(p.last() == "package-lock.json"@);
        }
        if yl == pl {
            assert(yl.last() == pl.last());
        }
    }
    let c = spec_lookup(es, p)->Some_0->Text_0;
    let j = spec_parse_json(c)->Some_0;
    let needs = pm_needs_update(j);
    let body = spec_render_json(spec_set_pm(j));
    let del1: Seq<Act> = if spec_lookup(es, yl) is Some {
        seq![Act::DeleteFile { path: yl }]
    } else {
        Seq::empty()
    };
    let del2: Seq<Act> = if spec_lookup(es, pl) is Some {
        seq![Act::DeleteFile { path: pl }]
    } else {
        Seq::empty()
    };
    let w: Seq<Act> = if needs {
        seq![Act::WriteFile { path: p, content: body }]
    } else {
        Seq::empty()
    };
    assert(acts =~= del1 + del2 + w);
    crate::fsmodel::lemma_apply_concat(es, del1 + del2, w);
    crate::fsmodel::lemma_apply_concat(es, del1, del2);
    let es1 = spec_apply(es, del1);
    let es2 = spec_apply(es1, del2);
    let es3 = spec_apply(es2, w);
    assert(spec_apply(es, acts) == es3);
    if spec_lookup(es, yl) is Some {
        assert(del1.drop_last() =~= Seq::<Act>::empty());
        assert(spec_apply(es, del1.drop_last()) == es);
        assert(es1 == spec_delete(es, yl));
        crate::fsmodel::lemma_lookup_delete(es, yl, p);
        crate::fsmodel::lemma_lookup_delete(es, yl, pl);
    } else {
        assert(es1 == es);
    }
    assert(spec_lookup(es1, yl) is None);
    assert(spec_lookup(es1, p) == spec_lookup(es, p));
    assert(spec_lookup(es1, pl) == spec_lookup(es, pl));
    if spec_lookup(es, pl) is Some {
        assert(del2.drop_last() =~= Seq::<Act>::empty());
        assert(spec_apply(es1, del2.drop_last()) == es1);
        assert(es2 == spec_delete(es1, pl));
        crate::fsmodel::lemma_lookup_delete(es1, pl, p);
        crate::fsmodel::lemma_lookup_delete(es1, pl, yl);
    } else {
        assert(es2 == es1);
    }
    assert(spec_lookup(es2, yl) is None);
    assert(spec_lookup(es2, pl) is None);
    assert(spec_lookup(es2, p) == spec_lookup(es, p));
    if needs {
        assert(w.drop_last() =~= Seq::<Act>::empty());
        assert(spec_apply(es2, w.drop_last()) == es2);
        assert(es3 == spec_write(es2, p, body));
        lemma_lookup_write(es2, p, body, p);
        lemma_lookup_write(es2, p, body, yl);
        lemma_lookup_write(es2, p, body, pl);
        assert(!crate::fsmodel::is_strict_prefix(yl, p)) by {
            if crate::fsmodel::is_strict_prefix(yl, p) {
                let k = choose|k: int| 1 <= k < p.len() && yl == p.take(k);
                assert(yl.len() == p.len());
            }
        }
        assert(!crate::fsmodel::is_strict_prefix(pl, p)) by {
            if crate::fsmodel::is_strict_prefix(pl, p) {
                let k = choose|k: int| 1 <= k < p.len() && pl == p.take(k);
                assert(pl.len() == p.len());
            }
        }
        assert(spec_lookup(es3, yl) is None);
        assert(spec_lookup(es3, pl) is None);
        assert(spec_lookup(es3, p) == Some(SNode::Text(body)));
        lemma_set_pm_preserves_wf(j);
        lemma_set_pm_settles(j);
        assert(spec_parse_json(body) == Some(spec_set_pm(j)));
    } else {
        assert(es3 == es2);
        assert(spec_lookup(es3, p) == Some(SNode::Text(c)));
    }
    let fin = spec_fix_manifest(es3, p);
    assert(fin == Ok::<(Seq<Act>, nat), FixErr>((Seq::<Act>::empty() + Seq::<Act>::empty(), 0nat)));
    assert(Seq::<Act>::empty() + Seq::<Act>::empty() =~= Seq::<Act>::empty());
}

/// An accepted spell-check configuration file, once present, stays present
/// through any file write.
proof fn lemma_config_presence_write(
    es: Seq<SEntry>,
    wp: Seq<Seq<char>>,
    c: Seq<char>,
    dir: Seq<Seq<char>>,
)
    requires
        has_cspell_config(es, dir),
    ensures
        has_cspell_config(spec_write(es, wp, c), dir),
{
    lemma_lookup_write(es, wp, c, dir.push("cspell.json"@));
    lemma_lookup_write(es, wp, c, dir.push("cspell.yaml"@));
    lemma_lookup_write(es, wp, c, dir.push("cspell.yml"@));
    lemma_lookup_write(es, wp, c, dir.push("cspell.config.js"@));
    lemma_lookup_write(es, wp, c, dir.push("cspell.config.cjs"@));
}

/// Adding the cspell dependency keeps a manifest well formed and within the
/// parser's nesting bound, and the dependency is present afterwards.
pub proof fn lemma_dep_added_settles(j: JsonData)
    requires
        j is Obj,
        !has_cspell_dep(j),
        wf_json(j),
        json_within_depth(j, 127),
        spec_dep_added(j) is Some,
    ensures
        ({
            let j2 = spec_dep_added(j)->Some_0;
            wf_json(j2) && json_within_depth(j2, 127) && has_cspell_dep(j2)
        }),
{
    let fs = j->Obj_0;
    let cs = JField { key: "cspell"@, val: JsonData::Str("^8.0.0"@) };
    let j2 = spec_dep_added(j)->Some_0;
    lemma_find_field(fs, "devDependencies"@);
    match spec_find_field(fs, "devDependencies"@) {
        None => {
            let section = JsonData::Obj(seq![cs]);
            let f = JField { key: "devDependencies"@, val: section };
            let fs2 = fs.push(f);
            assert(wf_json(section)) by {
                assert(forall|u: int|
                    0 <= u < section->Obj_0.len() ==> wf_json(#[trigger] section->Obj_0[u].val));
            }
            assert(json_within_depth(section, 126)) by {
                assert(forall|u: int|
                    0 <= u < section->Obj_0.len() ==> json_within_depth(
                        #[trigger] section->Obj_0[u].val,
                        125,
                    ));
            }
            assert(crate::json::keys_unique(fs2)) by {
                assert forall|a: int, b: int| 0 <= a < b < fs2.len() implies fs2[a].key
                    != fs2[b].key by {
                    if b < fs.len() {
                        assert(fs2[a] == fs[a] && fs2[b] == fs[b]);
                    } else {
                        assert(fs2[a] == fs[a] && fs2[b] == f);
                    }
                }
            }
            assert forall|u: int| 0 <= u < fs2.len() implies wf_json(#[trigger] fs2[u].val) by {
                if u < fs.len() {
                    assert(fs2[u] == fs[u]);
                } else {
                    assert(fs2[u] == f);
                }
            }
            assert forall|u: int| 0 <= u < fs2.len() implies json_within_depth(
                #[trigger] fs2[u].val,
                126,
            ) by {
                if u < fs.len() {
                    assert(fs2[u] == fs[u]);
                } else {
                    assert(fs2[u] == f);
                }
            }
            lemma_get_fields_push(fs, f, "devDependencies"@);
            assert(spec_get(j2, "devDependencies"@) == Some(section));
            assert(spec_get_fields(section->Obj_0, "cspell"@) == Some(cs.val));
        },
        Some(i) => {
            match fs[i].val {
                JsonData::Obj(dfs) => {
                    // The dependency is not yet among the development
                    // dependencies, so the new field's name is fresh there.
                    assert(spec_get_fields(fs, "devDependencies"@) == Some(fs[i].val));
                    lemma_find_field(dfs, "cspell"@);
                    assert(spec_find_field(dfs, "cspell"@) is None);
                    let dfs2 = dfs.push(cs);
                    assert(wf_json(fs[i].val));
                    assert(crate::json::keys_unique(dfs2)) by {
                        assert forall|a: int, b: int| 0 <= a < b < dfs2.len() implies dfs2[a].key
                            != dfs2[b].key by {
                            if b < dfs.len() {
                                assert(dfs2[a] == dfs[a] && dfs2[b] == dfs[b]);
                            } else {
                                assert(dfs2[a] == dfs[a] && dfs2[b] == cs);
                            }
                        }
                    }
                    assert forall|u: int| 0 <= u < dfs2.len() implies wf_json(
                        #[trigger] dfs2[u].val,
                    ) by {
                        if u < dfs.len() {
                            assert(dfs2[u] == dfs[u]);
                        } else {
                            assert(dfs2[u] == cs);
                        }
                    }
                    assert(json_within_depth(fs[i].val, 126));
                    assert forall|u: int| 0 <= u < dfs2.len() implies json_within_depth(
                        #[trigger] dfs2[u].val,
                        125,
                    ) by {
                        if u < dfs.len() {
                            assert(dfs2[u] == dfs[u]);
                        } else {
                            assert(dfs2[u] == cs);
                        }
                    }
                    let h2 = JsonData::Obj(dfs2);
                    assert(wf_json(h2));
                    assert(json_within_depth(h2, 126));
                    let fs2 = fs.update(i, JField { key: fs[i].key, val: h2 });
                    assert(crate::json::keys_unique(fs2)) by {
                        assert(forall|u: int|
                            0 <= u < fs2.len() ==> fs2[u].key == #[trigger] fs[u].key);
                    }
                    assert forall|u: int| 0 <= u < fs2.len() implies wf_json(
                        #[trigger] fs2[u].val,
                    ) by {
                        if u != i {
                            assert(fs2[u] == fs[u]);
                        }
                    }
                    assert forall|u: int| 0 <= u < fs2.len() implies json_within_depth(
                        #[trigger] fs2[u].val,
                        126,
                    ) by {
                        if u != i {
                            assert(fs2[u] == fs[u]);
                        }
                    }
                    lemma_get_fields_update(fs, i, h2, "devDependencies"@);
                    assert(spec_get(j2, "devDependencies"@) == Some(h2));
                    lemma_get_fields_push(dfs, cs, "cspell"@);
                    assert(spec_get_fields(dfs2, "cspell"@) == Some(cs.val));
                },
                _ => {},
            }
        },
    }
}

/// Idempotence of the spell-check repair at the snapshot level, one project
/// at a time: when the repair for a project succeeds, applying its edits
/// leaves a snapshot on which the same repair does nothing.  The premises
/// restate what the document bridge's trusted items guarantee.
#[verifier::rlimit(60)]
pub proof fn lemma_fix_project_idempotent(es: Seq<SEntry>, p: Seq<Seq<char>>)
    requires
        p.len() > 0,
        p.last() == "package.json"@,
        crate::cspell_config::spec_fix_project(es, p) is Ok,
        forall|c: Seq<char>|
            (#[trigger] spec_parse_json(c)) matches Some(x) ==> wf_json(x) && json_within_depth(
                x,
                127,
            ),
        forall|x: JsonData|
            wf_json(x) && json_within_depth(x, 127) ==> #[trigger] spec_parse_json(
                spec_render_json(x),
            ) == Some(x),
    ensures
        ({
            let (acts, n) = crate::cspell_config::spec_fix_project(es, p)->Ok_0;
            crate::cspell_config::spec_fix_project(spec_apply(es, acts), p) == Ok::<
                (Seq<Act>, nat),
                FixErr,
            >((Seq::empty(), 0nat))
        }),
{
    reveal_strlit("package.json");
    reveal_strlit("cspell.json");
    reveal_strlit(".husky");
    reveal_strlit("pre-commit");
    assert("package.json"@.len() == 12 && "cspell.json"@.len() == 11 && ".husky"@.len() == 6
        && "pre-commit"@.len() == 10);
    let dir = p.drop_last();
    let cj = dir.push("cspell.json"@);
    let husky = dir.push(".husky"@);
    let hp = husky.push("pre-commit"@);
    assert(p =~= dir.push(p.last()));
    assert(p != cj && p != hp && cj != hp && husky != p && husky != cj && husky != hp) by {
        if p == cj {
            assert(p.last() == "cspell.json"@);
        }
        assert(hp.len() == dir.len() + 2 && p.len() == dir.len() + 1);
        assert(husky.len() == dir.len() + 1);
        if husky == p {
            assert(husky.last() == "package.json"@);
        }
        if husky == cj {
            assert(husky.last() == "cspell.json"@);
        }
    }
    let acts = crate::cspell_config::spec_fix_project(es, p)->Ok_0.0;
    let created = crate::cspell_config::spec_fix_create(es, dir);
    let dep = crate::cspell_config::spec_fix_dep(es, p)->Ok_0;
    let hook = spec_fix_precommit(es, dir)->Ok_0;
    assert(acts == created + dep + hook);
    crate::fsmodel::lemma_apply_concat(es, created + dep, hook);
    crate::fsmodel::lemma_apply_concat(es, created, dep);
    let es1 = spec_apply(es, created);
    let es2 = spec_apply(es1, dep);
    let es3 = spec_apply(es2, hook);
    assert(spec_apply(es, acts) == es3);
    // Step one: the configuration file is created when no variant exists.
    if has_cspell_config(es, dir) {
        assert(created =~= Seq::<Act>::empty());
        assert(es1 == es);
    } else {
        let body0 = spec_render_json(crate::cspell_config::spec_cspell_default());
        assert(created =~= seq![Act::WriteFile { path: cj, content: body0 }]);
        assert(created.drop_last() =~= Seq::<Act>::empty());
        assert(spec_apply(es, created.drop_last()) == es);
        assert(es1 == spec_write(es, cj, body0));
        lemma_lookup_write(es, cj, body0, cj);
        lemma_lookup_write(es, cj, body0, p);
        lemma_lookup_write(es, cj, body0, husky);
        lemma_lookup_write(es, cj, body0, hp);
        assert(!crate::fsmodel::is_strict_prefix(p, cj)) by {
            if crate::fsmodel::is_strict_prefix(p, cj) {
                let k = choose|k: int| 1 <= k < cj.len() && p == cj.take(k);
                assert(p.len() == cj.len());
            }
        }
        assert(!crate::fsmodel::is_strict_prefix(husky, cj)) by {
            if crate::fsmodel::is_strict_prefix(husky, cj) {
                let k = choose|k: int| 1 <= k < cj.len() && husky == cj.take(k);
                assert(husky.len() == cj.len());
            }
        }
        assert(!crate::fsmodel::is_strict_prefix(hp, cj)) by {
            if crate::fsmodel::is_strict_prefix(hp, cj) {
                let k = choose|k: int| 1 <= k < cj.len() && hp == cj.take(k);
                assert(hp.len() < cj.len());
            }
        }
    }
    assert(has_cspell_config(es1, dir));
    assert(spec_lookup(es1, p) == spec_lookup(es, p));
    assert(spec_lookup(es1, husky) == spec_lookup(es, husky) || spec_lookup(es1, husky) == Some(
        SNode::Dir,
    ));
    assert((spec_lookup(es1, husky) is Some) == (spec_lookup(es, husky) is Some) || (spec_lookup(
        es,
        husky,
    ) is None)) by {}
    assert(spec_lookup(es1, hp) == spec_lookup(es, hp) || spec_lookup(es1, hp) == Some(
        SNode::Dir,
    ));
    // A missing hook directory cannot appear: it is not the configuration
    // file's parent.
    if spec_lookup(es, husky) is None && !(spec_lookup(es1, husky) is None) {
        assert(crate::fsmodel::is_strict_prefix(husky, cj));
        let k = choose|k: int| 1 <= k < cj.len() && husky == cj.take(k);
        assert(husky.len() == cj.len());
    }
    if spec_lookup(es, hp) is None && !(spec_lookup(es1, hp) is None) {
        assert(crate::fsmodel::is_strict_prefix(hp, cj));
        let k = choose|k: int| 1 <= k < cj.len() && hp == cj.take(k);
        assert(hp.len() < cj.len());
    }
    assert(spec_lookup(es1, husky) == spec_lookup(es, husky));
    assert(spec_lookup(es1, hp) == spec_lookup(es, hp));
    // Step two: the dependency is added to the manifest.
    let c = spec_lookup(es, p)->Some_0->Text_0;
    let j = spec_parse_json(c)->Some_0;
    let ghost mut final_doc: JsonData = j;
    if dep.len() > 0 {
        let j2 = spec_dep_added(j)->Some_0;
        let body1 = spec_render_json(j2);
        assert(dep =~= seq![Act::WriteFile { path: p, content: body1 }]);
        assert(dep.drop_last() =~= Seq::<Act>::empty());
        assert(spec_apply(es1, dep.drop_last()) == es1);
        assert(es2 == spec_write(es1, p, body1));
        lemma_lookup_write(es1, p, body1, cj);
        lemma_lookup_write(es1, p, body1, p);
        lemma_lookup_write(es1, p, body1, husky);
        lemma_lookup_write(es1, p, body1, hp);
        lemma_dep_added_settles(j);
        assert(spec_parse_json(body1) == Some(j2));
        final_doc = j2;
        assert(!crate::fsmodel::is_strict_prefix(hp, p)) by {
            if crate::fsmodel::is_strict_prefix(hp, p) {
                let k = choose|k: int| 1 <= k < p.len() && hp == p.take(k);
                assert(hp.len() < p.len());
            }
        }
        assert(spec_lookup(es2, hp) == spec_lookup(es1, hp));
        if spec_lookup(es1, husky) is None && !(spec_lookup(es2, husky) is None) {
            assert(crate::fsmodel::is_strict_prefix(husky, p));
            let k = choose|k: int| 1 <= k < p.len() && husky == p.take(k);
            assert(husky.len() == p.len());
        }
        assert(spec_lookup(es2, husky) == spec_lookup(es1, husky));
        lemma_config_presence_write(es1, p, body1, dir);
    } else {
        assert(dep =~= Seq::<Act>::empty());
        assert(es2 == es1);
    }
    assert(has_cspell_config(es2, dir));
    assert(spec_lookup(es2, husky) == spec_lookup(es, husky));
    assert(spec_lookup(es2, hp) == spec_lookup(es, hp));
    assert(spec_lookup(es2, p) matches Some(n) && n matches SNode::Text(cc) && spec_parse_json(
        cc,
    ) == Some(final_doc));
    assert(has_cspell_dep(final_doc) || spec_dep_added(final_doc) is None) by {
        if dep.len() > 0 {
            lemma_dep_added_settles(j);
        } else {
            match spec_lookup(es, p) {
                Some(SNode::Text(_)) => {},
                _ => {},
            }
        }
    }
    // Step three: the pre-commit hook gains the spell check.
    lemma_fix_ordering_state(es2, es, dir, hook);
    let fin = crate::cspell_config::spec_fix_project(es3, p);
    assert(crate::cspell_config::spec_fix_create(es3, dir) =~= Seq::<Act>::empty());
    assert(crate::cspell_config::spec_fix_dep(es3, p) == Ok::<Seq<Act>, FixErr>(Seq::empty()));
    assert(spec_fix_precommit(es3, dir) == Ok::<Seq<Act>, FixErr>(Seq::empty()));
    assert(fin == Ok::<(Seq<Act>, nat), FixErr>(
        (Seq::<Act>::empty() + Seq::<Act>::empty() + Seq::<Act>::empty(), 0nat),
    ));
    assert(Seq::<Act>::empty() + Seq::<Act>::empty() + Seq::<Act>::empty() =~= Seq::<Act>::empty());
}

/// After the pre-commit repair's edits land on a snapshot where the hook
/// directory's state is as the repair saw it, a second pre-commit repair does
/// nothing.
proof fn lemma_fix_ordering_state(
    es2: Seq<SEntry>,
    es: Seq<SEntry>,
    dir: Seq<Seq<char>>,
    hook: Seq<Act>,
)
    requires
        spec_fix_precommit(es, dir) == Ok::<Seq<Act>, FixErr>(hook),
        spec_lookup(es2, dir.push(".husky"@)) == spec_lookup(es, dir.push(".husky"@)),
        spec_lookup(es2, dir.push(".husky"@).push("pre-commit"@)) == spec_lookup(
            es,
            dir.push(".husky"@).push("pre-commit"@),
        ),
    ensures
        spec_fix_precommit(spec_apply(es2, hook), dir) == Ok::<Seq<Act>, FixErr>(Seq::empty()),
        spec_lookup(spec_apply(es2, hook), dir.push("cspell.json"@)) == spec_lookup(
            es2,
            dir.push("cspell.json"@),
        ),
        spec_lookup(spec_apply(es2, hook), dir.push("package.json"@)) == spec_lookup(
            es2,
            dir.push("package.json"@),
        ),
        has_cspell_config(es2, dir) ==> has_cspell_config(spec_apply(es2, hook), dir),
{
    reveal_strlit("package.json");
    reveal_strlit("cspell.json");
    reveal_strlit(".husky");
    reveal_strlit("pre-commit");
    assert("package.json"@.len() == 12 && "cspell.json"@.len() == 11 && ".husky"@.len() == 6
        && "pre-commit"@.len() == 10);
    let husky = dir.push(".husky"@);
    let hp = husky.push("pre-commit"@);
    let cj = dir.push("cspell.json"@);
    let pj = dir.push("package.json"@);
    let es3 = spec_apply(es2, hook);
    if spec_lookup(es, husky) is None {
        assert(hook =~= Seq::<Act>::empty());
        assert(es3 == es2);
    } else {
        match spec_lookup(es, hp) {
            Some(SNode::Text(c)) => {
                if contains_seq(c, "cspell"@) {
                    assert(hook =~= Seq::<Act>::empty());
                    assert(es3 == es2);
                } else {
                    let body = spec_appended_hook(c);
                    assert(hook =~= seq![Act::WriteFile { path: hp, content: body }]);
                    assert(hook.drop_last() =~= Seq::<Act>::empty());
                    assert(spec_apply(es2, hook.drop_last()) == es2);
                    assert(es3 == spec_write(es2, hp, body));
                    lemma_lookup_write(es2, hp, body, hp);
                    lemma_lookup_write(es2, hp, body, husky);
                    lemma_lookup_write(es2, hp, body, cj);
                    lemma_lookup_write(es2, hp, body, pj);
                    if has_cspell_config(es2, dir) {
                        lemma_config_presence_write(es2, hp, body, dir);
                    }
                    lemma_appended_hook_runs_spellcheck(c);
                    assert(hp != cj && hp != pj && hp != husky) by {
                        assert(hp.len() == dir.len() + 2);
                    }
                    assert(!crate::fsmodel::is_strict_prefix(cj, hp)) by {
                        if crate::fsmodel::is_strict_prefix(cj, hp) {
                            let k = choose|k: int| 1 <= k < hp.len() && cj == hp.take(k);
                            if k == dir.len() + 1 {
                                assert(cj.last() == husky.last());
                            } else {
                                assert(cj.len() != k);
                            }
                        }
                    }
                    assert(!crate::fsmodel::is_strict_prefix(pj, hp)) by {
                        if crate::fsmodel::is_strict_prefix(pj, hp) {
                            let k = choose|k: int| 1 <= k < hp.len() && pj == hp.take(k);
                            if k == dir.len() + 1 {
                                assert(pj.last() == husky.last());
                            } else {
                                assert(pj.len() != k);
                            }
                        }
                    }
                    assert(spec_lookup(es3, husky) is Some);
                    assert(contains_seq(body, "cspell"@));
                }
            },
            Some(_) => {},
            None => {
                let body = spec_new_hook();
                assert(hook =~= seq![
                    Act::WriteFile { path: hp, content: body },
                    Act::SetExecutable { path: hp },
                ]);
                assert(hook.drop_last() =~= seq![Act::WriteFile { path: hp, content: body }]);
                assert(hook.drop_last().drop_last() =~= Seq::<Act>::empty());
                assert(spec_apply(es2, hook.drop_last().drop_last()) == es2);
                assert(spec_apply(es2, hook.drop_last()) == spec_write(es2, hp, body));
                assert(es3 == spec_write(es2, hp, body));
                lemma_lookup_write(es2, hp, body, hp);
                lemma_lookup_write(es2, hp, body, husky);
                lemma_lookup_write(es2, hp, body, cj);
                lemma_lookup_write(es2, hp, body, pj);
                if has_cspell_config(es2, dir) {
                    lemma_config_presence_write(es2, hp, body, dir);
                }
                lemma_new_hook_runs_spellcheck();
                assert(hp != cj && hp != pj && hp != husky) by {
                    assert(hp.len() == dir.len() + 2);
                }
                assert(!crate::fsmodel::is_strict_prefix(cj, hp)) by {
                    if crate::fsmodel::is_strict_prefix(cj, hp) {
                        let k = choose|k: int| 1 <= k < hp.len() && cj == hp.take(k);
                        if k == dir.len() + 1 {
                            assert(cj.last() == husky.last());
                        } else {
                            assert(cj.len() != k);
                        }
                    }
                }
                assert(!crate::fsmodel::is_strict_prefix(pj, hp)) by {
                    if crate::fsmodel::is_strict_prefix(pj, hp) {
                        let k = choose|k: int| 1 <= k < hp.len() && pj == hp.take(k);
                        if k == dir.len() + 1 {
                            assert(pj.last() == husky.last());
                        } else {
                            assert(pj.len() != k);
                        }
                    }
                }
                assert(spec_lookup(es3, husky) is Some);
                assert(contains_seq(body, "cspell"@));
            },
        }
    }
}

/// After applying the legacy-configuration deletions, no legacy file remains
/// and nothing else changed.
proof fn lemma_legacy_deletes_effect(
    es: Seq<SEntry>,
    dir: Seq<Seq<char>>,
    names: Seq<Seq<char>>,
)
    ensures
        forall|t: int|
            0 <= t < names.len() ==> spec_lookup(
                spec_apply(es, crate::eslint_config_agent::spec_legacy_deletes(es, dir, names)),
                dir.push(#[trigger] names[t]),
            ) is None,
        forall|q: Seq<Seq<char>>|
            (forall|t: int| 0 <= t < names.len() ==> q != dir.push(#[trigger] names[t]))
                ==> spec_lookup(
                spec_apply(es, crate::eslint_config_agent::spec_legacy_deletes(es, dir, names)),
                q,
            ) == spec_lookup(es, q),
    decreases names.len(),
{
    let dels = crate::eslint_config_agent::spec_legacy_deletes(es, dir, names);
    if names.len() == 0 {
        assert(dels =~= Seq::<Act>::empty());
    } else {
        let before = crate::eslint_config_agent::spec_legacy_deletes(es, dir, names.drop_last());
        let target = dir.push(names.last());
        let seg: Seq<Act> = if spec_lookup(es, target) is Some {
            seq![Act::DeleteFile { path: target }]
        } else {
            Seq::empty()
        };
        assert(dels =~= before + seg);
        crate::fsmodel::lemma_apply_concat(es, before, seg);
        lemma_legacy_deletes_effect(es, dir, names.drop_last());
        let mid = spec_apply(es, before);
        let fin = spec_apply(mid, seg);
        assert(spec_apply(es, dels) == fin);
        if spec_lookup(es, target) is Some {
            assert(seg.drop_last() =~= Seq::<Act>::empty());
            assert(spec_apply(mid, seg.drop_last()) == mid);
            assert(fin == spec_delete(mid, target));
        } else {
            assert(fin == mid);
        }
        assert forall|t: int| 0 <= t < names.len() implies spec_lookup(
            fin,
            dir.push(#[trigger] names[t]),
        ) is None by {
            let q = dir.push(names[t]);
            if t < names.len() - 1 {
                assert(names.drop_last()[t] == names[t]);
                assert(spec_lookup(mid, q) is None);
                if spec_lookup(es, target) is Some {
                    if q != target {
                        crate::fsmodel::lemma_lookup_delete(mid, target, q);
                    } else {
                        crate::fsmodel::lemma_lookup_delete(mid, target, dir);
                    }
                }
            } else {
                assert(q == target);
                if spec_lookup(es, target) is Some {
                    crate::fsmodel::lemma_lookup_delete(mid, target, dir);
                } else {
                    if forall|u: int|
                        0 <= u < names.drop_last().len() ==> target != dir.push(
                            #[trigger] names.drop_last()[u],
                        ) {
                        assert(spec_lookup(mid, target) == spec_lookup(es, target));
                    } else {
                        let u = choose|u: int|
                            0 <= u < names.drop_last().len() && target == dir.push(
                                names.drop_last()[u],
                            );
                        assert(spec_lookup(mid, dir.push(names.drop_last()[u])) is None);
                    }
                }
            }
        }
        assert forall|q: Seq<Seq<char>>|
            (forall|t: int| 0 <= t < names.len() ==> q != dir.push(#[trigger] names[t]))
                implies spec_lookup(fin, q) == spec_lookup(es, q) by {
            assert forall|t: int|
                0 <= t < names.drop_last().len() implies q != dir.push(
                #[trigger] names.drop_last()[t],
            ) by {
                assert(names.drop_last()[t] == names[t]);
            }
            assert(spec_lookup(mid, q) == spec_lookup(es, q));
            if spec_lookup(es, target) is Some {
                assert(q != target) by {
                    assert(target == dir.push(names[names.len() - 1]));
                }
                crate::fsmodel::lemma_lookup_delete(mid, target, q);
            }
        }
    }
}

/// Where no legacy configuration file remains, there is nothing to delete.
proof fn lemma_legacy_deletes_empty(es: Seq<SEntry>, dir: Seq<Seq<char>>, names: Seq<Seq<char>>)
    requires
        forall|t: int|
            0 <= t < names.len() ==> spec_lookup(es, dir.push(#[trigger] names[t])) is None,
    ensures
        crate::eslint_config_agent::spec_legacy_deletes(es, dir, names) == Seq::<Act>::empty(),
    decreases names.len(),
{
    if names.len() > 0 {
        assert forall|t: int|
            0 <= t < names.drop_last().len() implies spec_lookup(
            es,
            dir.push(#[trigger] names.drop_last()[t]),
        ) is None by {
            assert(names.drop_last()[t] == names[t]);
        }
        lemma_legacy_deletes_empty(es, dir, names.drop_last());
        assert(spec_lookup(es, dir.push(names[names.len() - 1])) is None);
        assert(crate::eslint_config_agent::spec_legacy_deletes(es, dir, names) =~= Seq::<
            Act,
        >::empty());
    }
}

/// Idempotence of the lint-configuration repair's edits at the snapshot
/// level, one manifest at a time: when the repair for a manifest succeeds,
/// applying its edits leaves a snapshot on which the same repair edits
/// nothing.  Its installation command is addressed to an external installer
/// and is outside this law.  The premises restate what the document bridge's
/// trusted items guarantee.
#[verifier::rlimit(60)]
pub proof fn lemma_fix_pkg_idempotent(es: Seq<SEntry>, p: Seq<Seq<char>>)
    requires
        p.len() > 0,
        p.last() == "package.json"@,
        crate::eslint_config_agent::spec_fix_pkg(es, p) is Ok,
        forall|c: Seq<char>|
            (#[trigger] spec_parse_json(c)) matches Some(x) ==> wf_json(x) && json_within_depth(
                x,
                127,
            ),
        forall|x: JsonData|
            wf_json(x) && json_within_depth(x, 127) ==> #[trigger] spec_parse_json(
                spec_render_json(x),
            ) == Some(x),
    ensures
        ({
            let (cmds, acts, n) = crate::eslint_config_agent::spec_fix_pkg(es, p)->Ok_0;
            crate::eslint_config_agent::spec_fix_pkg(spec_apply(es, acts), p) matches Ok(
                (cmds2, acts2, n2),
            ) && cmds2 == cmds && acts2 == Seq::<Act>::empty() && n2 == 0
        }),
{
    reveal_strlit("package.json");
    reveal_strlit("node_modules");
    reveal_strlit(".eslintrc");
    reveal_strlit(".eslintrc.js");
    reveal_strlit(".eslintrc.json");
    reveal_strlit(".eslintrc.yml");
    reveal_strlit(".eslintrc.yaml");
    reveal_strlit("eslint.config.js");
    reveal_strlit("eslint.config.mjs");
    assert("package.json"@.len() == 12 && ".eslintrc"@.len() == 9 && ".eslintrc.js"@.len() == 12
        && ".eslintrc.json"@.len() == 14 && ".eslintrc.yml"@.len() == 13
        && ".eslintrc.yaml"@.len() == 14 && "eslint.config.js"@.len() == 16
        && "eslint.config.mjs"@.len() == 17);
    assert("package.json"@[0] == 'p' && ".eslintrc.js"@[0] == '.');
    let dir = p.drop_last();
    let cfg = dir.push("eslint.config.mjs"@);
    let names = crate::eslint_config_agent::legacy_config_names();
    assert(p =~= dir.push(p.last()));
    assert forall|t: int| 0 <= t < names.len() implies p != dir.push(#[trigger] names[t]) && cfg
        != dir.push(#[trigger] names[t]) by {
        if t == 0 {
            assert(names[0] == ".eslintrc"@);
        } else if t == 1 {
            assert(names[1] == ".eslintrc.js"@);
        } else if t == 2 {
            assert(names[2] == ".eslintrc.json"@);
        } else if t == 3 {
            assert(names[3] == ".eslintrc.yml"@);
        } else if t == 4 {
            assert(names[4] == ".eslintrc.yaml"@);
        } else {
            assert(names[5] == "eslint.config.js"@);
        }
        if p == dir.push(names[t]) {
            assert(p.last() == names[t]);
        }
        if cfg == dir.push(names[t]) {
            assert(cfg.last() == names[t]);
        }
    }
    assert(p != cfg) by {
        if p == cfg {
            assert(p.last() == "eslint.config.mjs"@);
        }
    }
    let c = spec_lookup(es, p)->Some_0->Text_0;
    let j = spec_parse_json(c)->Some_0;
    let acts = crate::eslint_config_agent::spec_fix_pkg(es, p)->Ok_0.1;
    if !crate::eslint_config_agent::is_js_project(j) {
        assert(acts =~= Seq::<Act>::empty());
        assert(spec_apply(es, acts) == es);
    } else {
        let dels = crate::eslint_config_agent::spec_legacy_deletes(es, dir, names);
        let w: Seq<Act> = if crate::eslint_config_agent::config_needs_update(es, dir) {
            seq![
                Act::WriteFile {
                    path: cfg,
                    content: crate::eslint_config_agent::spec_eslint_config_content(),
                },
            ]
        } else {
            Seq::empty()
        };
        assert(acts =~= dels + w);
        crate::fsmodel::lemma_apply_concat(es, dels, w);
        lemma_legacy_deletes_effect(es, dir, names);
        let mid = spec_apply(es, dels);
        let fin = spec_apply(mid, w);
        assert(spec_apply(es, acts) == fin);
        assert(spec_lookup(mid, p) == spec_lookup(es, p));
        assert(spec_lookup(mid, cfg) == spec_lookup(es, cfg));
        if crate::eslint_config_agent::config_needs_update(es, dir) {
            let body = crate::eslint_config_agent::spec_eslint_config_content();
            assert(w.drop_last() =~= Seq::<Act>::empty());
            assert(spec_apply(mid, w.drop_last()) == mid);
            assert(fin == spec_write(mid, cfg, body));
            lemma_lookup_write(mid, cfg, body, cfg);
            lemma_lookup_write(mid, cfg, body, p);
            assert(!crate::fsmodel::is_strict_prefix(p, cfg)) by {
                if crate::fsmodel::is_strict_prefix(p, cfg) {
                    let k = choose|k: int| 1 <= k < cfg.len() && p == cfg.take(k);
                    assert(p.len() == cfg.len());
                }
            }
            assert forall|t: int| 0 <= t < names.len() implies spec_lookup(
                fin,
                dir.push(#[trigger] names[t]),
            ) is None by {
                let q = dir.push(names[t]);
                lemma_lookup_write(mid, cfg, body, q);
                assert(!crate::fsmodel::is_strict_prefix(q, cfg)) by {
                    if crate::fsmodel::is_strict_prefix(q, cfg) {
                        let k = choose|k: int| 1 <= k < cfg.len() && q == cfg.take(k);
                        assert(q.len() == cfg.len());
                    }
                }
            }
            assert(spec_lookup(fin, p) == spec_lookup(es, p));
            assert(spec_lookup(fin, cfg) == Some(SNode::Text(body)));
        } else {
            assert(fin == mid);
        }
        assert(!crate::eslint_config_agent::config_needs_update(fin, dir));
        assert forall|t: int| 0 <= t < names.len() implies spec_lookup(
            fin,
            dir.push(#[trigger] names[t]),
        ) is None by {
            if !crate::eslint_config_agent::config_needs_update(es, dir) {
                assert(spec_lookup(mid, dir.push(names[t])) is None);
            }
        }
        lemma_legacy_deletes_empty(fin, dir, names);
        assert(Seq::<Act>::empty() + Seq::<Act>::empty() =~= Seq::<Act>::empty());
        assert(spec_lookup(fin, p) == spec_lookup(es, p));
    }
}

/// Exclusion: across the rules that exclude dependency caches, no finding's
/// path ever falls under an excluded subtree.
/// The settings node a repository's repair leaves behind: the canonical
/// document for a missing file, the merged document when the merge changed
/// anything, and the file as it was otherwise.
pub open spec fn agent_post(es: Seq<SEntry>, repo: Seq<Seq<char>>) -> Option<SNode> {
    let s = settings_path_of(repo);
    match spec_lookup(es, s) {
        None => Some(SNode::Text(spec_render_json(spec_default_settings()))),
        Some(SNode::Text(c)) => match spec_parse_json(c) {
            Some(j) => if mergeable(j) && spec_merge_hooks(j).1 {
                Some(SNode::Text(spec_render_json(spec_merge_hooks(j).0)))
            } else {
                Some(SNode::Text(c))
            },
            None => Some(SNode::Text(c)),
        },
        Some(n) => Some(n),
    }
}

/// A successful run over a repository list succeeds on each repository.
proof fn lemma_fix_repos_ok_each(es: Seq<SEntry>, repos: Seq<Seq<Seq<char>>>, j: int)
    requires
        spec_fix_repos(es, repos) is Ok,
        0 <= j < repos.len(),
    ensures
        spec_fix_repo(es, repos[j]) is Ok,
    decreases repos.len(),
{
    if j < repos.len() - 1 {
        assert(repos.drop_last()[j] == repos[j]);
        lemma_fix_repos_ok_each(es, repos.drop_last(), j);
    }
}

/// A repository whose settings node is as its repair left it needs no
/// further repair.
proof fn lemma_agent_post_settles(es0: Seq<SEntry>, es2: Seq<SEntry>, repo: Seq<Seq<char>>)
    requires
        spec_fix_repo(es0, repo) is Ok,
        spec_lookup(es2, settings_path_of(repo)) == agent_post(es0, repo),
        forall|c: Seq<char>|
            (#[trigger] spec_parse_json(c)) matches Some(x) ==> wf_json(x) && json_within_depth(
                x,
                127,
            ),
        forall|x: JsonData|
            wf_json(x) && json_within_depth(x, 127) ==> #[trigger] spec_parse_json(
                spec_render_json(x),
            ) == Some(x),
    ensures
        spec_fix_repo(es2, repo) == Ok::<(Seq<Act>, nat), FixErr>((Seq::empty(), 0nat)),
{
    let s = settings_path_of(repo);
    match spec_lookup(es0, s) {
        None => {
            crate::agent_settings::lemma_canonical_docs_wf();
            crate::json::lemma_depth_monotone(spec_default_settings(), 6, 127);
            assert(spec_parse_json(spec_render_json(spec_default_settings())) == Some(
                spec_default_settings(),
            ));
            let dfs = spec_default_settings()->Obj_0;
            assert(spec_get_fields(dfs, "hooks"@) == Some(spec_hooks_payload()));
            assert(mergeable(spec_default_settings()));
            assert(spec_find_field(dfs, "hooks"@) == Some(0int));
            let hf = spec_hooks_payload()->Obj_0;
            assert(spec_find_field(hf, "PreToolUse"@) == Some(0int));
            lemma_bash_hook_is_bash();
            assert(has_bash_hook(hf[0].val->Arr_0)) by {
                assert(is_bash_hook_entry(hf[0].val->Arr_0[0]));
            }
            assert(spec_merge_hooks(spec_default_settings()) == (spec_default_settings(), false));
        },
        Some(SNode::Text(c)) => {
            let j = spec_parse_json(c)->Some_0;
            assert(spec_parse_json(c) == Some(j));
            assert(mergeable(j));
            if spec_merge_hooks(j).1 {
                lemma_merge_preserves_wf(j);
                lemma_merge_preserves_depth(j);
                lemma_merge_idempotent(j);
                assert(spec_parse_json(spec_render_json(spec_merge_hooks(j).0)) == Some(
                    spec_merge_hooks(j).0,
                ));
            }
        },
        Some(_) => {},
    }
}

/// Applying a successful run's edits leaves the repository list unchanged,
/// keeps every present path present, puts each repository's settings node in
/// its repaired state, and touches no other settings file.
#[verifier::rlimit(100)]
proof fn lemma_agent_fix_apply(es0: Seq<SEntry>, repos: Seq<Seq<Seq<char>>>, es2: Seq<SEntry>)
    requires
        spec_fix_repos(es0, repos) is Ok,
        es2 == spec_apply(es0, spec_fix_repos(es0, repos)->Ok_0.0),
        forall|j: int, k: int|
            0 <= j < repos.len() && 0 <= k <= repos[j].len() ==> has_path(
                es0,
                #[trigger] repos[j].take(k),
            ),
    ensures
        spec_git_repos(es2) == spec_git_repos(es0),
        forall|q: Seq<Seq<char>>|
            spec_lookup(es0, q) is Some ==> #[trigger] spec_lookup(es2, q) is Some,
        forall|j: int|
            0 <= j < repos.len() ==> spec_lookup(es2, settings_path_of(#[trigger] repos[j]))
                == agent_post(es0, repos[j]),
        forall|q: Seq<Seq<char>>|
            #![trigger spec_lookup(es2, q)]
            q.len() > 0 && q.last() == "settings.json"@ && (forall|j: int|
                0 <= j < repos.len() ==> q != settings_path_of(#[trigger] repos[j]))
                ==> spec_lookup(es2, q) == spec_lookup(es0, q),
    decreases repos.len(),
{
    reveal_strlit(".git");
    reveal_strlit(".agent");
    reveal_strlit("settings.json");
    assert(".git"@.len() == 4 && ".agent"@.len() == 6 && "settings.json"@.len() == 13);
    let acts = spec_fix_repos(es0, repos)->Ok_0.0;
    if repos.len() == 0 {
        assert(acts =~= Seq::<Act>::empty());
        assert(es2 == es0);
    } else {
        let front = repos.drop_last();
        let r = repos.last();
        let s = settings_path_of(r);
        let a1 = spec_fix_repos(es0, front)->Ok_0.0;
        let a2 = spec_fix_repo(es0, r)->Ok_0.0;
        assert(acts == a1 + a2);
        crate::fsmodel::lemma_apply_concat(es0, a1, a2);
        let es1 = spec_apply(es0, a1);
        assert(es2 == spec_apply(es1, a2));
        assert forall|j: int, k: int|
            0 <= j < front.len() && 0 <= k <= front[j].len() implies has_path(
            es0,
            #[trigger] front[j].take(k),
        ) by {
            assert(front[j] == repos[j]);
        }
        lemma_agent_fix_apply(es0, front, es1);
        // The settings path determines its repository.
        assert(s.drop_last().drop_last() =~= r);
        assert(s.len() == r.len() + 2 && s.last() == "settings.json"@);
        if a2.len() > 0 {
            let c = a2[0]->WriteFile_content;
            assert(a2 =~= seq![Act::WriteFile { path: s, content: c }]);
            assert(a2.drop_last() =~= Seq::<Act>::empty());
            assert(spec_apply(es1, a2.drop_last()) == es1);
            assert(es2 == spec_write(es1, s, c));
            assert(Some(SNode::Text(c)) == agent_post(es0, r));
            // The repository list survives the write.
            assert forall|k: int|
                1 <= k < s.len() implies has_path(es1, #[trigger] s.take(k)) || s.take(k).last()
                != ".git"@ by {
                if k <= r.len() {
                    assert(s.take(k) =~= r.take(k));
                    assert(has_path(es0, repos[repos.len() - 1].take(k)));
                    crate::fsmodel::lemma_lookup_some(es0, r.take(k));
                    crate::fsmodel::lemma_lookup_some(es1, r.take(k));
                } else {
                    assert(s.take(k) =~= r.push(".agent"@));
                    assert(s.take(k).last() == ".agent"@);
                }
            }
            crate::fsmodel::lemma_git_repos_write(es1, s, c);
            // Lookups after the write.
            assert forall|q: Seq<Seq<char>>|
                spec_lookup(es0, q) is Some implies #[trigger] spec_lookup(es2, q) is Some by {
                lemma_lookup_write(es1, s, c, q);
            }
            assert forall|j: int|
                0 <= j < repos.len() implies spec_lookup(
                es2,
                settings_path_of(#[trigger] repos[j]),
            ) == agent_post(es0, repos[j]) by {
                let sj = settings_path_of(repos[j]);
                lemma_lookup_write(es1, s, c, sj);
                if j < repos.len() - 1 {
                    assert(front[j] == repos[j]);
                    assert(settings_path_of(front[j]) == sj);
                    if sj == s {
                        assert(sj.drop_last().drop_last() =~= repos[j]);
                        assert(repos[j] == r);
                    } else {
                        assert(spec_lookup(es1, sj) == agent_post(es0, repos[j]));
                        assert(spec_lookup(es1, sj) is Some);
                    }
                }
            }
            assert forall|q: Seq<Seq<char>>|
                #![trigger spec_lookup(es2, q)]
                q.len() > 0 && q.last() == "settings.json"@ && (forall|j: int|
                    0 <= j < repos.len() ==> q != settings_path_of(#[trigger] repos[j]))
                    implies spec_lookup(es2, q) == spec_lookup(es0, q) by {
                assert(q != settings_path_of(repos[repos.len() - 1]));
                assert forall|j: int| 0 <= j < front.len() implies q != settings_path_of(
                    #[trigger] front[j],
                ) by {
                    assert(front[j] == repos[j]);
                }
                assert(spec_lookup(es1, q) == spec_lookup(es0, q));
                lemma_lookup_write(es1, s, c, q);
                if spec_lookup(es1, q) is None && crate::fsmodel::is_strict_prefix(q, s) {
                    let k = choose|k: int| 1 <= k < s.len() && q == s.take(k);
                    if k <= r.len() {
                        assert(q =~= r.take(k));
                        assert(has_path(es0, repos[repos.len() - 1].take(k)));
                        crate::fsmodel::lemma_lookup_some(es0, q);
                        crate::fsmodel::lemma_lookup_some(es1, q);
                    } else {
                        assert(q =~= r.push(".agent"@));
                        assert(q.last() == ".agent"@);
                    }
                }
            }
        } else {
            assert(a2 =~= Seq::<Act>::empty());
            assert(es2 == es1);
            // The untouched repository's settings node is its repaired state:
            // the repair reported no change.
            assert(spec_fix_repo(es0, r) is Ok);
            assert(agent_post(es0, r) == spec_lookup(es0, s)) by {
                match spec_lookup(es0, s) {
                    Some(SNode::Text(c)) => {
                        assert(spec_parse_json(c) is Some);
                    },
                    _ => {},
                }
            }
            assert forall|j: int|
                0 <= j < repos.len() implies spec_lookup(
                es2,
                settings_path_of(#[trigger] repos[j]),
            ) == agent_post(es0, repos[j]) by {
                if j < repos.len() - 1 {
                    assert(front[j] == repos[j]);
                    assert(spec_lookup(es1, settings_path_of(front[j])) == agent_post(
                        es0,
                        front[j],
                    ));
                } else {
                    if forall|t: int|
                        0 <= t < front.len() ==> s != settings_path_of(#[trigger] front[t]) {
                        assert(spec_lookup(es1, s) == spec_lookup(es0, s));
                    } else {
                        let t = choose|t: int|
                            0 <= t < front.len() && s == settings_path_of(front[t]);
                        assert(settings_path_of(front[t]).drop_last().drop_last() =~= front[t]);
                        assert(s.drop_last().drop_last() =~= r);
                        assert(front[t] == r);
                        assert(spec_lookup(es1, settings_path_of(front[t])) == agent_post(
                            es0,
                            front[t],
                        ));
                    }
                }
            }
        }
    }
}

/// Idempotence of the hook-settings rule across a whole run: applying a
/// successful run's edits leaves a snapshot on which the rule's whole run
/// repairs nothing.  The premises restate what the document bridge's trusted
/// items guarantee.
pub proof fn lemma_agent_rule_fix_idempotent(es: Seq<SEntry>)
    requires
        snapshot_wf(es),
        spec_agent_fix(es) is Ok,
        forall|c: Seq<char>|
            (#[trigger] spec_parse_json(c)) matches Some(x) ==> wf_json(x) && json_within_depth(
                x,
                127,
            ),
        forall|x: JsonData|
            wf_json(x) && json_within_depth(x, 127) ==> #[trigger] spec_parse_json(
                spec_render_json(x),
            ) == Some(x),
    ensures
        spec_agent_fix(spec_apply(es, spec_agent_fix(es)->Ok_0.0)) == Ok::<
            (Seq<Act>, nat),
            FixErr,
        >((Seq::empty(), 0nat)),
{
    let repos = spec_git_repos(es);
    crate::fsmodel::lemma_git_repos_characterization(es);
    assert forall|j: int, k: int|
        0 <= j < repos.len() && 0 <= k <= repos[j].len() implies has_path(
        es,
        #[trigger] repos[j].take(k),
    ) by {
        assert(crate::fsmodel::has_git_origin(es, repos[j]));
        let i = choose|i: int|
            0 <= i < es.len() && crate::fsmodel::is_git_marker(#[trigger] es[i])
                && es[i].path.drop_last() == repos[j];
        assert(es[i].path.take(k) =~= repos[j].take(k));
        assert(0 <= k < es[i].path.len());
        assert(spec_lookup(es, es[i].path.take(k)) == Some(SNode::Dir));
        crate::fsmodel::lemma_lookup_some(es, es[i].path.take(k));
    }
    let es2 = spec_apply(es, spec_agent_fix(es)->Ok_0.0);
    lemma_agent_fix_apply(es, repos, es2);
    assert forall|j: int| 0 <= j < repos.len() implies spec_fix_repo(es2, #[trigger] repos[j])
        == Ok::<(Seq<Act>, nat), FixErr>((Seq::empty(), 0nat)) by {
        lemma_fix_repos_ok_each(es, repos, j);
        lemma_agent_post_settles(es, es2, repos[j]);
    }
    lemma_fix_repos_all_zero(es2, repos);
    assert(spec_git_repos(es2) == repos);
}

/// A run over repositories that each need nothing repairs nothing.
proof fn lemma_fix_repos_all_zero(es: Seq<SEntry>, repos: Seq<Seq<Seq<char>>>)
    requires
        forall|j: int|
            0 <= j < repos.len() ==> spec_fix_repo(es, #[trigger] repos[j]) == Ok::<
                (Seq<Act>, nat),
                FixErr,
            >((Seq::empty(), 0nat)),
    ensures
        spec_fix_repos(es, repos) == Ok::<(Seq<Act>, nat), FixErr>((Seq::empty(), 0nat)),
    decreases repos.len(),
{
    if repos.len() > 0 {
        assert forall|j: int|
            0 <= j < repos.drop_last().len() implies spec_fix_repo(
            es,
            #[trigger] repos.drop_last()[j],
        ) == Ok::<(Seq<Act>, nat), FixErr>((Seq::empty(), 0nat)) by {
            assert(repos.drop_last()[j] == repos[j]);
        }
        lemma_fix_repos_all_zero(es, repos.drop_last());
        assert(spec_fix_repo(es, repos.last()) == Ok::<(Seq<Act>, nat), FixErr>(
            (Seq::empty(), 0nat),
        ));
        assert(Seq::<Act>::empty() + Seq::<Act>::empty() =~= Seq::<Act>::empty());
    }
}

/// Exclusion for the hook-settings rule: no finding's path ever falls under
/// a dependency-cache subtree.
pub proof fn lemma_exclusion_agent(es: Seq<SEntry>, repos: Seq<Seq<Seq<char>>>, sev: Severity)
    requires
        forall|i: int| 0 <= i < repos.len() ==> !(#[trigger] repos[i]).contains("node_modules"@),
    ensures
        forall|i: int|
            0 <= i < crate::agent_settings::spec_check_repos(es, repos, sev).len()
                ==> !#[trigger] crate::agent_settings::spec_check_repos(
                es,
                repos,
                sev,
            )[i].path.contains("node_modules"@),
    decreases repos.len(),
{
    reveal_strlit("node_modules");
    reveal_strlit(".agent");
    reveal_strlit("settings.json");
    assert("node_modules"@.len() == 12 && ".agent"@.len() == 6 && "settings.json"@.len() == 13);
    if repos.len() > 0 {
        lemma_exclusion_agent(es, repos.drop_last(), sev);
        let repo = repos.last();
        let whole = crate::agent_settings::spec_check_repos(es, repos, sev);
        let before = crate::agent_settings::spec_check_repos(es, repos.drop_last(), sev);
        let one = crate::agent_settings::spec_check_repo(es, repo, sev);
        lemma_clean_push(repo, ".agent"@);
        lemma_clean_push(repo.push(".agent"@), "settings.json"@);
        assert forall|i: int| 0 <= i < one.len() implies !#[trigger] one[i].path.contains(
            "node_modules"@,
        ) by {}
        assert forall|i: int| 0 <= i < whole.len() implies !#[trigger] whole[i].path.contains(
            "node_modules"@,
        ) by {
            if i < before.len() {
                assert(whole[i] == before[i]);
            } else {
                assert(whole[i] == one[i - before.len()]);
            }
        }
    }
}

/// Exclusion for the hook-initialization rule: no finding's path ever falls
/// under a dependency-cache subtree.
pub proof fn lemma_exclusion_husky(es: Seq<SEntry>, repos: Seq<Seq<Seq<char>>>, sev: Severity)
    requires
        forall|i: int| 0 <= i < repos.len() ==> !(#[trigger] repos[i]).contains("node_modules"@),
    ensures
        forall|i: int|
            0 <= i < crate::husky_init::spec_husky_check_repos(es, repos, sev).len()
                ==> !#[trigger] crate::husky_init::spec_husky_check_repos(
                es,
                repos,
                sev,
            )[i].path.contains("node_modules"@),
    decreases repos.len(),
{
    reveal_strlit("node_modules");
    reveal_strlit("package.json");
    reveal_strlit("Cargo.toml");
    reveal_strlit(".husky");
    assert("node_modules"@.len() == 12 && "package.json"@.len() == 12 && "Cargo.toml"@.len()
        == 10 && ".husky"@.len() == 6);
    assert("node_modules"@[0] == 'n' && "package.json"@[0] == 'p');
    if repos.len() > 0 {
        lemma_exclusion_husky(es, repos.drop_last(), sev);
        let repo = repos.last();
        let whole = crate::husky_init::spec_husky_check_repos(es, repos, sev);
        let before = crate::husky_init::spec_husky_check_repos(es, repos.drop_last(), sev);
        let one = crate::husky_init::spec_husky_check_repo(es, repo, sev);
        lemma_clean_push(repo, "package.json"@);
        lemma_clean_push(repo, "Cargo.toml"@);
        lemma_clean_push(repo, ".husky"@);
        assert forall|i: int| 0 <= i < one.len() implies !#[trigger] one[i].path.contains(
            "node_modules"@,
        ) by {
            match crate::husky_init::spec_project_type(es, repo) {
                Some(t) => {
                    if !(spec_lookup(es, repo.push(".husky"@)) is None) {
                        let manifest = match t {
                            crate::husky_init::ProjectType::JavaScript => crate::husky_init::spec_prepare_findings(
                                es,
                                repo,
                                sev,
                            ),
                            crate::husky_init::ProjectType::Rust => crate::husky_init::spec_cargo_findings(
                                es,
                                repo,
                                sev,
                            ),
                        };
                        let hooks = crate::husky_init::spec_hooks_findings(es, repo);
                        assert(one =~= manifest + hooks);
                        if i < manifest.len() {
                            assert(one[i] == manifest[i]);
                        } else {
                            assert(one[i] == hooks[i - manifest.len()]);
                        }
                    }
                },
                None => {},
            }
        }
        assert forall|i: int| 0 <= i < whole.len() implies !#[trigger] whole[i].path.contains(
            "node_modules"@,
        ) by {
            if i < before.len() {
                assert(whole[i] == before[i]);
            } else {
                assert(whole[i] == one[i - before.len()]);
            }
        }
    }
}

/// Exclusion: no finding of any rule ever bears a path under an excluded
/// dependency-cache subtree.
pub proof fn lemma_exclusion(es: Seq<SEntry>, sev: Severity)
    ensures
        forall|i: int|
            0 <= i < spec_pnpm_check(es, sev).len() ==> !#[trigger] spec_pnpm_check(
                es,
                sev,
            )[i].path.contains("node_modules"@),
        forall|i: int|
            0 <= i < spec_cspell_check(es, sev).len() ==> !#[trigger] spec_cspell_check(
                es,
                sev,
            )[i].path.contains("node_modules"@),
        forall|i: int|
            0 <= i < spec_eslint_check(es, sev).len() ==> !#[trigger] spec_eslint_check(
                es,
                sev,
            )[i].path.contains("node_modules"@),
        forall|i: int|
            0 <= i < spec_agent_check(es, sev).len() ==> !#[trigger] spec_agent_check(
                es,
                sev,
            )[i].path.contains("node_modules"@),
        forall|i: int|
            0 <= i < spec_husky_check(es, sev).len() ==> !#[trigger] spec_husky_check(
                es,
                sev,
            )[i].path.contains("node_modules"@),
{
    crate::fsmodel::lemma_manifest_paths_clean(es);
    crate::fsmodel::lemma_manifest_nonempty(es);
    crate::fsmodel::lemma_git_repos_clean(es);
    lemma_exclusion_pnpm(es, spec_manifest_files(es), sev);
    lemma_exclusion_cspell(es, spec_manifest_files(es), sev);
    lemma_exclusion_eslint(es, spec_manifest_files(es), sev);
    lemma_exclusion_agent(es, spec_git_repos(es), sev);
    lemma_exclusion_husky(es, spec_git_repos(es), sev);
}

} // verus!
