//! Rule: projects use pnpm for package management; other package managers'
//! lockfiles, manifest fields, scripts and engine requirements are reported.

use vstd::prelude::*;

use crate::fsmodel::{
    path_child, path_clone, path_parent, path_view, spec_lookup, spec_manifest_files, Act,
    FsAction, FsNode, SEntry, SNode, Snapshot,
};
use crate::json::{
    fields_view, find_field, lemma_find_field, spec_find_field, spec_get, spec_get_fields,
    JField, Json, JsonData, JsonField,
};
use crate::jsonio::{parse_json, render_json, spec_parse_json, spec_render_json};
use crate::text::{contains_seq, contains_str, starts_with_seq, starts_with_str, str_concat};
use crate::types::{
    checks_view, fixes_view, results_view, CheckEntry, CheckV, Finding, FixEntry, FixErr, FixV,
    LintResult, RInfo, RuleError, Severity,
};

verus! {

broadcast use vstd::std_specs::vec::group_vec_axioms;

/// Rule: ensure projects use pnpm instead of npm or yarn.
pub struct PnpmUsageRule;

/// The rule's identifier.
pub open spec fn pnpm_rule_id() -> Seq<char> {
    "pnpm-usage"@
}

/// The checks this rule declares.
pub open spec fn spec_pnpm_checks() -> Seq<CheckV> {
    seq![
        CheckV { id: "yarn-lock-exists"@, description: "Detect yarn.lock files indicating yarn usage"@ },
        CheckV {
            id: "package-lock-exists"@,
            description: "Detect package-lock.json files indicating npm usage"@,
        },
        CheckV { id: "package-manager-field"@, description: "Verify packageManager field uses pnpm"@ },
        CheckV {
            id: "pnpm-setup"@,
            description: "Verify pnpm is set up (packageManager or pnpm-lock.yaml)"@,
        },
        CheckV { id: "scripts-use-npm"@, description: "Detect scripts that use npm commands"@ },
        CheckV { id: "scripts-use-yarn"@, description: "Detect scripts that use yarn commands"@ },
        CheckV { id: "engines-npm"@, description: "Detect engines.npm field in package.json"@ },
        CheckV { id: "engines-yarn"@, description: "Detect engines.yarn field in package.json"@ },
    ]
}

/// The fixes this rule declares, each with the checks it addresses.
pub open spec fn spec_pnpm_fixes() -> Seq<FixV> {
    seq![
        FixV {
            id: "remove-yarn-lock"@,
            description: "Remove yarn.lock file"@,
            addresses: seq!["yarn-lock-exists"@],
        },
        FixV {
            id: "remove-package-lock"@,
            description: "Remove package-lock.json file"@,
            addresses: seq!["package-lock-exists"@],
        },
        FixV {
            id: "update-package-manager"@,
            description: "Update packageManager field to use pnpm"@,
            addresses: seq!["package-manager-field"@],
        },
    ]
}

/// The rule's descriptive snapshot.
pub open spec fn spec_pnpm_info() -> RInfo {
    RInfo {
        id: pnpm_rule_id(),
        name: "Pnpm Usage Validation"@,
        description: "Ensures projects use pnpm instead of npm or yarn for package management"@,
        default_severity: Severity::Error.label(),
        can_fix: true,
        checks: spec_pnpm_checks(),
        fixes: spec_pnpm_fixes(),
    }
}

/// Whether a script command invokes npm.
pub open spec fn uses_npm(cmd: Seq<char>) -> bool {
    contains_seq(cmd, "npm "@) || starts_with_seq(cmd, "npm "@) || contains_seq(cmd, " npm"@)
}

/// Whether a script command invokes yarn.
pub open spec fn uses_yarn(cmd: Seq<char>) -> bool {
    contains_seq(cmd, "yarn "@) || starts_with_seq(cmd, "yarn "@) || contains_seq(cmd, " yarn"@)
}

/// The findings for foreign lockfiles beside a manifest.
pub open spec fn spec_lock_findings(es: Seq<SEntry>, p: Seq<Seq<char>>, sev: Severity) -> Seq<
    Finding,
> {
    let parent = p.drop_last();
    let yl = parent.push("yarn.lock"@);
    let pl = parent.push("package-lock.json"@);
    (if spec_lookup(es, yl) is Some {
        seq![
            Finding {
                rule_id: pnpm_rule_id(),
                check_id: "yarn-lock-exists"@,
                severity: sev.label(),
                message: "Found yarn.lock - project appears to use yarn instead of pnpm"@,
                path: yl,
                line: None,
                fixable_by: seq!["remove-yarn-lock"@],
            },
        ]
    } else {
        Seq::empty()
    }) + (if spec_lookup(es, pl) is Some {
        seq![
            Finding {
                rule_id: pnpm_rule_id(),
                check_id: "package-lock-exists"@,
                severity: sev.label(),
                message: "Found package-lock.json - project appears to use npm instead of pnpm"@,
                path: pl,
                line: None,
                fixable_by: seq!["remove-package-lock"@],
            },
        ]
    } else {
        Seq::empty()
    })
}

/// The findings about the manifest's packageManager field: a non-pnpm value
/// is reported with the rule's effective severity; a missing (or non-text)
/// value is reported only when no pnpm lockfile marks the project as set up.
pub open spec fn spec_pm_findings(
    es: Seq<SEntry>,
    j: JsonData,
    p: Seq<Seq<char>>,
    sev: Severity,
) -> Seq<Finding> {
    let has_pnpm_lock = spec_lookup(es, p.drop_last().push("pnpm-lock.yaml"@)) is Some;
    match spec_get(j, "packageManager"@) {
        Some(JsonData::Str(s)) => if !starts_with_seq(s, "pnpm@"@) {
            seq![
                Finding {
                    rule_id: pnpm_rule_id(),
                    check_id: "package-manager-field"@,
                    severity: sev.label(),
                    message: "packageManager is set to '"@ + s + "' instead of pnpm"@,
                    path: p,
                    line: None,
                    fixable_by: seq!["update-package-manager"@],
                },
            ]
        } else {
            Seq::empty()
        },
        _ => if !has_pnpm_lock {
            seq![
                Finding {
                    rule_id: pnpm_rule_id(),
                    check_id: "pnpm-setup"@,
                    severity: Severity::Warning.label(),
                    message: "No packageManager field and no pnpm-lock.yaml found"@,
                    path: p,
                    line: None,
                    fixable_by: Seq::empty(),
                },
            ]
        } else {
            Seq::empty()
        },
    }
}

/// The findings for one script entry: npm use, then yarn use.
pub open spec fn spec_script_entry_findings(f: JField, p: Seq<Seq<char>>) -> Seq<Finding> {
    match f.val {
        JsonData::Str(cmd) => (if uses_npm(cmd) {
            seq![
                Finding {
                    rule_id: pnpm_rule_id(),
                    check_id: "scripts-use-npm"@,
                    severity: Severity::Warning.label(),
                    message: "Script '"@ + f.key + "' uses npm command - consider using pnpm"@,
                    path: p,
                    line: None,
                    fixable_by: Seq::empty(),
                },
            ]
        } else {
            Seq::empty()
        }) + (if uses_yarn(cmd) {
            seq![
                Finding {
                    rule_id: pnpm_rule_id(),
                    check_id: "scripts-use-yarn"@,
                    severity: Severity::Warning.label(),
                    message: "Script '"@ + f.key + "' uses yarn command - consider using pnpm"@,
                    path: p,
                    line: None,
                    fixable_by: Seq::empty(),
                },
            ]
        } else {
            Seq::empty()
        }),
        _ => Seq::empty(),
    }
}

/// The findings for a list of script entries, in order.
pub open spec fn spec_script_findings(sfs: Seq<JField>, p: Seq<Seq<char>>) -> Seq<Finding>
    decreases sfs.len(),
{
    if sfs.len() == 0 {
        Seq::empty()
    } else {
        spec_script_findings(sfs.drop_last(), p) + spec_script_entry_findings(sfs.last(), p)
    }
}

/// The script findings of a manifest document.
pub open spec fn spec_scripts_findings_doc(j: JsonData, p: Seq<Seq<char>>) -> Seq<Finding> {
    match spec_get(j, "scripts"@) {
        Some(JsonData::Obj(sfs)) => spec_script_findings(sfs, p),
        _ => Seq::empty(),
    }
}

/// The findings about the manifest's engines field: npm, then yarn.
pub open spec fn spec_engine_findings(j: JsonData, p: Seq<Seq<char>>) -> Seq<Finding> {
    match spec_get(j, "engines"@) {
        Some(JsonData::Obj(efs)) => (if spec_get_fields(efs, "npm"@) is Some {
            seq![
                Finding {
                    rule_id: pnpm_rule_id(),
                    check_id: "engines-npm"@,
                    severity: Severity::Warning.label(),
                    message: "engines.npm field found - suggests npm dependency"@,
                    path: p,
                    line: None,
                    fixable_by: Seq::empty(),
                },
            ]
        } else {
            Seq::empty()
        }) + (if spec_get_fields(efs, "yarn"@) is Some {
            seq![
                Finding {
                    rule_id: pnpm_rule_id(),
                    check_id: "engines-yarn"@,
                    severity: Severity::Warning.label(),
                    message: "engines.yarn field found - suggests yarn dependency"@,
                    path: p,
                    line: None,
                    fixable_by: Seq::empty(),
                },
            ]
        } else {
            Seq::empty()
        }),
        _ => Seq::empty(),
    }
}

/// The findings for one parsed manifest document.
pub open spec fn spec_doc_findings(
    es: Seq<SEntry>,
    j: JsonData,
    p: Seq<Seq<char>>,
    sev: Severity,
) -> Seq<Finding> {
    spec_pm_findings(es, j, p, sev) + spec_scripts_findings_doc(j, p) + spec_engine_findings(j, p)
}

/// The finding for a manifest that cannot be read or parsed, with its
/// message.
pub open spec fn spec_manifest_error(p: Seq<Seq<char>>, msg: Seq<char>) -> Seq<Finding> {
    seq![
        Finding {
            rule_id: pnpm_rule_id(),
            check_id: "package-manager-field"@,
            severity: Severity::Error.label(),
            message: msg,
            path: p,
            line: None,
            fixable_by: Seq::empty(),
        },
    ]
}

/// The findings for one manifest: foreign lockfiles first, then the
/// document's fields; an unreadable or unparseable manifest is an error that
/// no fix addresses.
pub open spec fn spec_check_manifest(es: Seq<SEntry>, p: Seq<Seq<char>>, sev: Severity) -> Seq<
    Finding,
> {
    spec_lock_findings(es, p, sev) + match spec_lookup(es, p) {
        Some(SNode::Text(c)) => match spec_parse_json(c) {
            Some(j) => spec_doc_findings(es, j, p, sev),
            None => spec_manifest_error(
                p,
                "Invalid JSON in package.json: "@ + crate::jsonio::spec_parse_err(c),
            ),
        },
        Some(SNode::Unreadable(e)) => spec_manifest_error(p, "Cannot read package.json: "@ + e),
        Some(_) => spec_manifest_error(p, "Cannot read package.json: the path is a directory"@),
        None => spec_manifest_error(p, "Cannot read package.json: no such file"@),
    }
}

/// The findings for a list of manifests, in order.
pub open spec fn spec_check_manifests(
    es: Seq<SEntry>,
    ps: Seq<Seq<Seq<char>>>,
    sev: Severity,
) -> Seq<Finding>
    decreases ps.len(),
{
    if ps.len() == 0 {
        Seq::empty()
    } else {
        spec_check_manifests(es, ps.drop_last(), sev) + spec_check_manifest(es, ps.last(), sev)
    }
}

/// Everything the rule's check reports on a snapshot.
pub open spec fn spec_pnpm_check(es: Seq<SEntry>, sev: Severity) -> Seq<Finding> {
    spec_check_manifests(es, spec_manifest_files(es), sev)
}

/// Whether the manifest's packageManager names npm or yarn, so that the fix
/// rewrites it.
pub open spec fn pm_needs_update(j: JsonData) -> bool {
    match spec_get(j, "packageManager"@) {
        Some(JsonData::Str(s)) => starts_with_seq(s, "npm@"@) || starts_with_seq(s, "yarn@"@),
        _ => false,
    }
}

/// The manifest with its packageManager field set to the pnpm default.
pub open spec fn spec_set_pm(j: JsonData) -> JsonData
    recommends
        pm_needs_update(j),
{
    let fs = j->Obj_0;
    match spec_find_field(fs, "packageManager"@) {
        Some(i) => JsonData::Obj(
            fs.update(i, JField { key: fs[i].key, val: JsonData::Str("pnpm@9.0.0"@) }),
        ),
        None => j,
    }
}

/// The repairs for one manifest: foreign lockfiles are removed, and a
/// packageManager field naming npm or yarn is rewritten to the pnpm default.
/// An unreadable manifest is an I/O failure; an unparseable one is a document
/// failure.
pub open spec fn spec_fix_manifest(es: Seq<SEntry>, p: Seq<Seq<char>>) -> Result<
    (Seq<Act>, nat),
    FixErr,
> {
    let parent = p.drop_last();
    let yl = parent.push("yarn.lock"@);
    let pl = parent.push("package-lock.json"@);
    let dels = (if spec_lookup(es, yl) is Some {
        seq![Act::DeleteFile { path: yl }]
    } else {
        Seq::empty()
    }) + (if spec_lookup(es, pl) is Some {
        seq![Act::DeleteFile { path: pl }]
    } else {
        Seq::empty()
    });
    match spec_lookup(es, p) {
        Some(SNode::Text(c)) => match spec_parse_json(c) {
            None => Err(FixErr::Json),
            Some(j) => if pm_needs_update(j) {
                Ok(
                    (
                        dels + seq![
                            Act::WriteFile { path: p, content: spec_render_json(spec_set_pm(j)) },
                        ],
                        (dels.len() + 1) as nat,
                    ),
                )
            } else {
                Ok((dels, dels.len() as nat))
            },
        },
        _ => Err(FixErr::Io),
    }
}

/// The repairs for a list of manifests, in order; the first failure ends the
/// run.
pub open spec fn spec_fix_manifests(es: Seq<SEntry>, ps: Seq<Seq<Seq<char>>>) -> Result<
    (Seq<Act>, nat),
    FixErr,
>
    decreases ps.len(),
{
    if ps.len() == 0 {
        Ok((Seq::empty(), 0nat))
    } else {
        match spec_fix_manifests(es, ps.drop_last()) {
            Err(e) => Err(e),
            Ok((acts, n)) => match spec_fix_manifest(es, ps.last()) {
                Err(e) => Err(e),
                Ok((acts2, m)) => Ok((acts + acts2, (n + m) as nat)),
            },
        }
    }
}

/// Everything the rule's fix does on a snapshot.
pub open spec fn spec_pnpm_fix(es: Seq<SEntry>) -> Result<(Seq<Act>, nat), FixErr> {
    spec_fix_manifests(es, spec_manifest_files(es))
}

/// A failure among the first `k` manifests fails the whole run.
pub proof fn lemma_fix_manifests_err_prefix(es: Seq<SEntry>, ps: Seq<Seq<Seq<char>>>, k: int)
    requires
        0 <= k <= ps.len(),
        spec_fix_manifests(es, ps.take(k)) is Err,
    ensures
        spec_fix_manifests(es, ps) == spec_fix_manifests(es, ps.take(k)),
    decreases ps.len(),
{
    if k < ps.len() {
        assert(ps.drop_last() =~= ps.take(ps.len() - 1));
        assert(ps.take(ps.len() - 1).take(k) =~= ps.take(k));
        lemma_fix_manifests_err_prefix(es, ps.take(ps.len() - 1), k);
    } else {
        assert(ps.take(k) =~= ps);
    }
}

impl PnpmUsageRule {
    pub fn new() -> (r: Self) {
        Self
    }

    pub fn id(&self) -> (r: &'static str)
        ensures
            r@ == pnpm_rule_id(),
    {
        "pnpm-usage"
    }

    pub fn name(&self) -> (r: &'static str)
        ensures
            r@ == "Pnpm Usage Validation"@,
    {
        "Pnpm Usage Validation"
    }

    pub fn description(&self) -> (r: &'static str)
        ensures
            r@ == spec_pnpm_info().description,
    {
        "Ensures projects use pnpm instead of npm or yarn for package management"
    }

    pub fn default_severity(&self) -> (r: Severity)
        ensures
            r == Severity::Error,
    {
        Severity::Error
    }

    /// The checks this rule performs.
    pub fn checks(&self) -> (r: Vec<CheckEntry>)
        ensures
            checks_view(r) == spec_pnpm_checks(),
    {
        let mut r: Vec<CheckEntry> = Vec::new();
        r.push(CheckEntry::new("yarn-lock-exists", "Detect yarn.lock files indicating yarn usage"));
        r.push(CheckEntry::new("package-lock-exists", "Detect package-lock.json files indicating npm usage"));
        r.push(CheckEntry::new("package-manager-field", "Verify packageManager field uses pnpm"));
        r.push(CheckEntry::new("pnpm-setup", "Verify pnpm is set up (packageManager or pnpm-lock.yaml)"));
        r.push(CheckEntry::new("scripts-use-npm", "Detect scripts that use npm commands"));
        r.push(CheckEntry::new("scripts-use-yarn", "Detect scripts that use yarn commands"));
        r.push(CheckEntry::new("engines-npm", "Detect engines.npm field in package.json"));
        r.push(CheckEntry::new("engines-yarn", "Detect engines.yarn field in package.json"));
        assert(checks_view(r) =~~= spec_pnpm_checks());
        r
    }

    /// The fixes this rule can apply, each addressing declared checks.
    pub fn fixes(&self) -> (r: Vec<FixEntry>)
        ensures
            fixes_view(r) == spec_pnpm_fixes(),
    {
        let mut r: Vec<FixEntry> = Vec::new();
        r.push(FixEntry::new("remove-yarn-lock", "Remove yarn.lock file", vec!["yarn-lock-exists"]));
        r.push(FixEntry::new("remove-package-lock", "Remove package-lock.json file", vec!["package-lock-exists"]));
        r.push(FixEntry::new(
            "update-package-manager",
            "Update packageManager field to use pnpm",
            vec!["package-manager-field"],
        ));
        assert(fixes_view(r) =~~= spec_pnpm_fixes());
        r
    }

    pub fn can_fix(&self) -> (r: bool)
        ensures
            r == true,
    {
        true
    }

    /// The findings for the script entries of a manifest.
    #[verifier::loop_isolation(false)]
    fn check_scripts(sfs: &Vec<JsonField>, p: &Vec<String>) -> (r: Vec<LintResult>)
        ensures
            results_view(r) == spec_script_findings(fields_view(*sfs), path_view(*p)),
    {
        let ghost gfs = fields_view(*sfs);
        let ghost pv = path_view(*p);
        let mut out: Vec<LintResult> = Vec::new();
        let n = sfs.len();
        let mut i: usize = 0;
        assert(gfs.take(0) =~= Seq::<JField>::empty());
        assert(results_view(out) =~= spec_script_findings(gfs.take(0), pv));
        while i < n
            invariant
                0 <= i <= n,
                results_view(out) == spec_script_findings(gfs.take(i as int), pv),
            decreases n - i,
        {
            proof {
                assert(gfs.take(i + 1).drop_last() =~= gfs.take(i as int));
                assert(gfs.take(i + 1).last() == gfs[i as int]);
            }
            let ghost pre = results_view(out);
            match &sfs[i].val {
                Json::Str(cmd) => {
                    if contains_str(cmd.as_str(), "npm ") || starts_with_str(cmd.as_str(), "npm ")
                        || contains_str(cmd.as_str(), " npm") {
                        out.push(
                            LintResult::new(
                                "pnpm-usage",
                                "scripts-use-npm",
                                Severity::Warning,
                                str_concat(
                                    str_concat("Script '", sfs[i].key.as_str()).as_str(),
                                    "' uses npm command - consider using pnpm",
                                ),
                                path_clone(p),
                                None,
                                Some("Replace 'npm' with 'pnpm' in script commands".to_owned()),
                                vec![],
                            ),
                        );
                    }
                    if contains_str(cmd.as_str(), "yarn ") || starts_with_str(
                        cmd.as_str(),
                        "yarn ",
                    ) || contains_str(cmd.as_str(), " yarn") {
                        out.push(
                            LintResult::new(
                                "pnpm-usage",
                                "scripts-use-yarn",
                                Severity::Warning,
                                str_concat(
                                    str_concat("Script '", sfs[i].key.as_str()).as_str(),
                                    "' uses yarn command - consider using pnpm",
                                ),
                                path_clone(p),
                                None,
                                Some("Replace 'yarn' with 'pnpm' in script commands".to_owned()),
                                vec![],
                            ),
                        );
                    }
                    assert(results_view(out) =~~= pre + spec_script_entry_findings(
                        gfs[i as int],
                        pv,
                    ));
                },
                _ => {
                    assert(results_view(out) =~~= pre + spec_script_entry_findings(
                        gfs[i as int],
                        pv,
                    ));
                },
            }
            i += 1;
        }
        assert(gfs.take(n as int) =~= gfs);
        out
    }

    /// The findings for one parsed manifest document.
    #[verifier::rlimit(60)]
    fn check_doc(&self, snap: &Snapshot, doc: &Json, p: &Vec<String>, sev: Severity) -> (r: Vec<
        LintResult,
    >)
        requires
            path_view(*p).len() > 0,
        ensures
            results_view(r) == spec_doc_findings(snap@, doc@, path_view(*p), sev),
    {
        let ghost pv = path_view(*p);
        let parent = path_parent(p);
        let pnpm_lock = path_child(&parent, "pnpm-lock.yaml");
        let mut out: Vec<LintResult> = Vec::new();
        // The packageManager field.
        let has_pnpm_lock = snap.exists_at(&pnpm_lock);
        match doc.obj_get_str("packageManager") {
            Some(pm) => {
                if !starts_with_str(pm.as_str(), "pnpm@") {
                    out.push(
                        LintResult::new(
                            "pnpm-usage",
                            "package-manager-field",
                            sev,
                            str_concat(
                                str_concat("packageManager is set to '", pm.as_str()).as_str(),
                                "' instead of pnpm",
                            ),
                            path_clone(p),
                            None,
                            Some(
                                "Change packageManager to 'pnpm@<version>' (e.g., 'pnpm@9.0.0')".to_owned(),
                            ),
                            vec!["update-package-manager"],
                        ),
                    );
                }
            },
            None => {
                if !has_pnpm_lock {
                    out.push(
                        LintResult::new(
                            "pnpm-usage",
                            "pnpm-setup",
                            Severity::Warning,
                            "No packageManager field and no pnpm-lock.yaml found".to_owned(),
                            path_clone(p),
                            None,
                            Some(
                                "Add 'packageManager' field with pnpm version or run 'pnpm install'".to_owned(),
                            ),
                            vec![],
                        ),
                    );
                }
            },
        }
        assert(results_view(out) =~~= spec_pm_findings(snap@, doc@, pv, sev));
        let ghost upto_pm = results_view(out);
        // Scripts that invoke npm or yarn.
        match doc.obj_get("scripts") {
            Some(Json::Obj(sfs)) => {
                proof {
                    crate::json::lemma_obj_view(*sfs);
                }
                let mut more = Self::check_scripts(sfs, p);
                let ghost mv = results_view(more);
                out.append(&mut more);
                assert(results_view(out) =~= upto_pm + mv);
            },
            Some(other) => {
                proof {
                    let got = spec_get(doc@, "scripts"@)->Some_0;
                    assert(got == other@);
                    assert(!(got is Obj));
                }
                assert(results_view(out) =~= upto_pm + spec_scripts_findings_doc(doc@, pv));
            },
            None => {
                assert(results_view(out) =~= upto_pm + spec_scripts_findings_doc(doc@, pv));
            },
        }
        assert(results_view(out) =~= upto_pm + spec_scripts_findings_doc(doc@, pv));
        let ghost upto_scripts = results_view(out);
        // Engine requirements on npm or yarn.
        match doc.obj_get("engines") {
            Some(engines) => {
                match engines {
                    Json::Obj(_) => {
                        if engines.obj_get("npm").is_some() {
                            out.push(
                                LintResult::new(
                                    "pnpm-usage",
                                    "engines-npm",
                                    Severity::Warning,
                                    "engines.npm field found - suggests npm dependency".to_owned(),
                                    path_clone(p),
                                    None,
                                    Some(
                                        "Consider removing engines.npm and adding engines.pnpm instead".to_owned(),
                                    ),
                                    vec![],
                                ),
                            );
                        }
                        if engines.obj_get("yarn").is_some() {
                            out.push(
                                LintResult::new(
                                    "pnpm-usage",
                                    "engines-yarn",
                                    Severity::Warning,
                                    "engines.yarn field found - suggests yarn dependency".to_owned(),
                                    path_clone(p),
                                    None,
                                    Some(
                                        "Consider removing engines.yarn and adding engines.pnpm instead".to_owned(),
                                    ),
                                    vec![],
                                ),
                            );
                        }
                        assert(results_view(out) =~~= upto_scripts + spec_engine_findings(
                            doc@,
                            pv,
                        ));
                    },
                    _ => {
                        proof {
                            let got = spec_get(doc@, "engines"@)->Some_0;
                            assert(got == engines@);
                            assert(!(got is Obj));
                        }
                        assert(results_view(out) =~= upto_scripts + spec_engine_findings(
                            doc@,
                            pv,
                        ));
                    },
                }
            },
            None => {
                assert(results_view(out) =~= upto_scripts + spec_engine_findings(doc@, pv));
            },
        }
        assert(results_view(out) =~= spec_doc_findings(snap@, doc@, pv, sev));
        out
    }

    /// The findings for one manifest.
    fn check_manifest(&self, snap: &Snapshot, p: &Vec<String>, sev: Severity) -> (r: Vec<
        LintResult,
    >)
        requires
            path_view(*p).len() > 0,
        ensures
            results_view(r) == spec_check_manifest(snap@, path_view(*p), sev),
    {
        let ghost pv = path_view(*p);
        let parent = path_parent(p);
        let yarn_lock = path_child(&parent, "yarn.lock");
        let package_lock = path_child(&parent, "package-lock.json");
        let mut out: Vec<LintResult> = Vec::new();
        if snap.exists_at(&yarn_lock) {
            out.push(
                LintResult::new(
                    "pnpm-usage",
                    "yarn-lock-exists",
                    sev,
                    "Found yarn.lock - project appears to use yarn instead of pnpm".to_owned(),
                    yarn_lock,
                    None,
                    Some(
                        "Remove yarn.lock and use 'pnpm install' to generate pnpm-lock.yaml".to_owned(),
                    ),
                    vec!["remove-yarn-lock"],
                ),
            );
        }
        if snap.exists_at(&package_lock) {
            out.push(
                LintResult::new(
                    "pnpm-usage",
                    "package-lock-exists",
                    sev,
                    "Found package-lock.json - project appears to use npm instead of pnpm".to_owned(),
                    package_lock,
                    None,
                    Some(
                        "Remove package-lock.json and use 'pnpm install' to generate pnpm-lock.yaml".to_owned(),
                    ),
                    vec!["remove-package-lock"],
                ),
            );
        }
        assert(results_view(out) =~~= spec_lock_findings(snap@, pv, sev));
        let ghost locks = results_view(out);
        match snap.lookup(p) {
            Some(FsNode::Text(c)) => {
                match parse_json(c.as_str()) {
                    Ok(doc) => {
                        let mut more = self.check_doc(snap, &doc, p, sev);
                        let ghost mv = results_view(more);
                        out.append(&mut more);
                        assert(results_view(out) =~= locks + mv);
                    },
                    Err(e) => {
                        out.push(
                            LintResult::new(
                                "pnpm-usage",
                                "package-manager-field",
                                Severity::Error,
                                str_concat("Invalid JSON in package.json: ", e.as_str()),
                                path_clone(p),
                                None,
                                Some("Fix JSON syntax errors".to_owned()),
                                vec![],
                            ),
                        );
                        assert(results_view(out) =~~= locks + spec_manifest_error(
                            pv,
                            "Invalid JSON in package.json: "@ + crate::jsonio::spec_parse_err(
                                c@,
                            ),
                        ));
                    },
                }
            },
            Some(FsNode::Unreadable(e)) => {
                out.push(
                    LintResult::new(
                        "pnpm-usage",
                        "package-manager-field",
                        Severity::Error,
                        str_concat("Cannot read package.json: ", e.as_str()),
                        path_clone(p),
                        None,
                        None,
                        vec![],
                    ),
                );
                assert(results_view(out) =~~= locks + spec_manifest_error(
                    pv,
                    "Cannot read package.json: "@ + e@,
                ));
            },
            Some(_) => {
                out.push(
                    LintResult::new(
                        "pnpm-usage",
                        "package-manager-field",
                        Severity::Error,
                        "Cannot read package.json: the path is a directory".to_owned(),
                        path_clone(p),
                        None,
                        None,
                        vec![],
                    ),
                );
                assert(results_view(out) =~~= locks + spec_manifest_error(
                    pv,
                    "Cannot read package.json: the path is a directory"@,
                ));
            },
            None => {
                out.push(
                    LintResult::new(
                        "pnpm-usage",
                        "package-manager-field",
                        Severity::Error,
                        "Cannot read package.json: no such file".to_owned(),
                        path_clone(p),
                        None,
                        None,
                        vec![],
                    ),
                );
                assert(results_view(out) =~~= locks + spec_manifest_error(
                    pv,
                    "Cannot read package.json: no such file"@,
                ));
            },
        }
        assert(results_view(out) =~= spec_check_manifest(snap@, pv, sev));
        out
    }

    /// Execute all checks and return results: every manifest of the snapshot
    /// outside dependency caches is checked, in snapshot order.
    #[verifier::loop_isolation(false)]
    pub fn check(&self, snap: &Snapshot, severity: Severity) -> (r: Vec<LintResult>)
        ensures
            results_view(r) == spec_pnpm_check(snap@, severity),
    {
        let files = snap.find_manifest_files();
        let ghost fv = crate::fsmodel::paths_view(files);
        proof {
            crate::fsmodel::lemma_manifest_nonempty(snap@);
        }
        let mut out: Vec<LintResult> = Vec::new();
        let n = files.len();
        let mut i: usize = 0;
        assert(fv.take(0) =~= Seq::<Seq<Seq<char>>>::empty());
        assert(results_view(out) =~= spec_check_manifests(snap@, fv.take(0), severity));
        while i < n
            invariant
                0 <= i <= n,
                results_view(out) == spec_check_manifests(snap@, fv.take(i as int), severity),
            decreases n - i,
        {
            proof {
                assert(fv.take(i + 1).drop_last() =~= fv.take(i as int));
                assert(fv.take(i + 1).last() == fv[i as int]);
            }
            let ghost pre = results_view(out);
            let mut one = self.check_manifest(snap, &files[i], severity);
            let ghost onev = results_view(one);
            out.append(&mut one);
            assert(results_view(out) =~= pre + onev);
            i += 1;
        }
        assert(fv.take(n as int) =~= fv);
        out
    }

    /// The repairs for one manifest.
    fn fix_manifest(&self, snap: &Snapshot, p: &Vec<String>) -> (r: Result<
        Vec<FsAction>,
        RuleError,
    >)
        requires
            path_view(*p).len() > 0,
        ensures
            match r {
                Ok(acts) => spec_fix_manifest(snap@, path_view(*p)) == Ok::<_, FixErr>(
                    (crate::fsmodel::acts_view(acts), acts@.len() as nat),
                ) && acts@.len() <= 3,
                Err(e) => spec_fix_manifest(snap@, path_view(*p)) == Err::<(Seq<Act>, nat), _>(
                    e@,
                ),
            },
    {
        let ghost pv = path_view(*p);
        let parent = path_parent(p);
        let yarn_lock = path_child(&parent, "yarn.lock");
        let package_lock = path_child(&parent, "package-lock.json");
        let mut acts: Vec<FsAction> = Vec::new();
        if snap.exists_at(&yarn_lock) {
            acts.push(FsAction::DeleteFile { path: yarn_lock });
        }
        if snap.exists_at(&package_lock) {
            acts.push(FsAction::DeleteFile { path: package_lock });
        }
        let ghost dels = crate::fsmodel::acts_view(acts);
        assert(dels =~~= (if spec_lookup(snap@, pv.drop_last().push("yarn.lock"@)) is Some {
            seq![Act::DeleteFile { path: pv.drop_last().push("yarn.lock"@) }]
        } else {
            Seq::empty()
        }) + (if spec_lookup(snap@, pv.drop_last().push("package-lock.json"@)) is Some {
            seq![Act::DeleteFile { path: pv.drop_last().push("package-lock.json"@) }]
        } else {
            Seq::empty()
        }));
        match snap.lookup(p) {
            Some(FsNode::Text(c)) => {
                match parse_json(c.as_str()) {
                    Err(e) => Err(RuleError::Json(e)),
                    Ok(doc) => {
                        let needs = match doc.obj_get_str("packageManager") {
                            Some(pm) => starts_with_str(pm.as_str(), "npm@") || starts_with_str(
                                pm.as_str(),
                                "yarn@",
                            ),
                            None => false,
                        };
                        assert(needs == pm_needs_update(doc@));
                        if needs {
                            let updated = Self::set_pm_field(doc);
                            let content = render_json(&updated);
                            acts.push(FsAction::WriteFile { path: path_clone(p), content });
                            assert(crate::fsmodel::acts_view(acts) =~~= spec_fix_manifest(
                                snap@,
                                pv,
                            )->Ok_0.0);
                            Ok(acts)
                        } else {
                            assert(crate::fsmodel::acts_view(acts) =~~= spec_fix_manifest(
                                snap@,
                                pv,
                            )->Ok_0.0);
                            Ok(acts)
                        }
                    },
                }
            },
            Some(_) => Err(
                RuleError::Io("cannot read package.json: not a readable text file".to_owned()),
            ),
            None => Err(RuleError::Io("cannot read package.json: no such file".to_owned())),
        }
    }

    /// The manifest with its packageManager field set to the pnpm default.
    fn set_pm_field(doc: Json) -> (r: Json)
        requires
            pm_needs_update(doc@),
        ensures
            r@ == spec_set_pm(doc@),
    {
        match doc {
            Json::Obj(mut fields) => {
                proof {
                    crate::json::lemma_obj_view(Json::Obj(fields)->Obj_0);
                }
                let ghost fs0 = fields_view(fields);
                match find_field(&fields, "packageManager") {
                    Some(i) => {
                        proof {
                            lemma_find_field(fs0, "packageManager"@);
                        }
                        let mut taken = JsonField { key: String::new(), val: Json::Null };
                        fields.set_and_swap(i, &mut taken);
                        let JsonField { key: pkey, val: _old } = taken;
                        let back = JsonField { key: pkey, val: Json::Str("pnpm@9.0.0".to_owned()) };
                        fields.set(i, back);
                        proof {
                            crate::json::lemma_obj_view(fields);
                            assert(fields_view(fields) =~~= fs0.update(
                                i as int,
                                JField { key: fs0[i as int].key, val: JsonData::Str("pnpm@9.0.0"@) },
                            ));
                        }
                        Json::Obj(fields)
                    },
                    None => {
                        proof {
                            lemma_find_field(fs0, "packageManager"@);
                            assert(false);
                        }
                        Json::Obj(fields)
                    },
                }
            },
            other => {
                proof {
                    assert(false);
                }
                other
            },
        }
    }

    /// Apply all applicable fixes, returning the count of repairs and the
    /// edits to make; the first failure ends the run.
    #[verifier::loop_isolation(false)]
    pub fn fix(&self, snap: &Snapshot) -> (r: Result<(Vec<FsAction>, u32), RuleError>)
        ensures
            match r {
                Ok((acts, n)) => spec_pnpm_fix(snap@) matches Ok((sacts, cnt))
                    && crate::fsmodel::acts_view(acts) == sacts && n == crate::types::sat32(cnt),
                Err(e) => spec_pnpm_fix(snap@) == Err::<(Seq<Act>, nat), _>(e@),
            },
    {
        let files = snap.find_manifest_files();
        let ghost fv = crate::fsmodel::paths_view(files);
        proof {
            crate::fsmodel::lemma_manifest_nonempty(snap@);
        }
        let mut out: Vec<FsAction> = Vec::new();
        let mut fixed: u32 = 0;
        let n = files.len();
        let mut i: usize = 0;
        assert(fv.take(0) =~= Seq::<Seq<Seq<char>>>::empty());
        assert(crate::fsmodel::acts_view(out) =~= Seq::<Act>::empty());
        while i < n
            invariant
                0 <= i <= n,
                spec_fix_manifests(snap@, fv.take(i as int)) matches Ok((sacts, cnt))
                    && crate::fsmodel::acts_view(out) == sacts && fixed == crate::types::sat32(
                    cnt,
                ),
            decreases n - i,
        {
            proof {
                assert(fv.take(i + 1).drop_last() =~= fv.take(i as int));
                assert(fv.take(i + 1).last() == fv[i as int]);
            }
            let ghost pre = crate::fsmodel::acts_view(out);
            match self.fix_manifest(snap, &files[i]) {
                Ok(mut acts) => {
                    let m = acts.len();
                    let ghost av = crate::fsmodel::acts_view(acts);
                    out.append(&mut acts);
                    assert(crate::fsmodel::acts_view(out) =~= pre + av);
                    fixed = crate::types::sat_add_u32(fixed, m as u32);
                },
                Err(e) => {
                    proof {
                        assert(spec_fix_manifests(snap@, fv.take(i + 1)) == Err::<
                            (Seq<Act>, nat),
                            _,
                        >(e@));
                        lemma_fix_manifests_err_prefix(snap@, fv, i + 1);
                        assert(fv.take(fv.len() as int) =~= fv);
                    }
                    return Err(e);
                },
            }
            i += 1;
        }
        assert(fv.take(n as int) =~= fv);
        Ok((out, fixed))
    }
}

} // verus!
