//! Rule: JavaScript projects use the shared eslint-config-agent package as
//! their only ESLint configuration, with no legacy config files and no
//! custom overrides.

use vstd::prelude::*;

use crate::fsmodel::{
    path_child, path_clone, path_parent, path_view, spec_lookup, spec_manifest_files, Act, Cmd,
    CommandRequest, FsAction, FsNode, SEntry, SNode, Snapshot,
};
use crate::json::{spec_get, spec_get_fields, Json, JsonData};
use crate::jsonio::{parse_json, spec_parse_json};
use crate::text::{contains_seq, contains_str, spec_trim, str_concat, str_eq, trim};
use crate::types::{
    checks_view, fixes_view, results_view, CheckEntry, CheckV, Finding, FixEntry, FixErr, FixV,
    LintResult, RInfo, RuleError, Severity,
};

verus! {

broadcast use vstd::std_specs::vec::group_vec_axioms;

/// Rule: ensure projects use eslint-config-agent as the only ESLint
/// configuration.
pub struct EslintConfigAgentRule;

/// The rule's identifier.
pub open spec fn eslint_rule_id() -> Seq<char> {
    "eslint-config-agent"@
}

/// The checks this rule declares.
pub open spec fn spec_eslint_checks() -> Seq<CheckV> {
    seq![
        CheckV {
            id: "eslint-config-agent-dependency"@,
            description: "Verify eslint-config-agent is in devDependencies"@,
        },
        CheckV {
            id: "eslint-config-mjs-exists"@,
            description: "Verify eslint.config.mjs file exists"@,
        },
        CheckV {
            id: "eslint-config-uses-agent"@,
            description: "Verify eslint.config.mjs imports from eslint-config-agent"@,
        },
        CheckV {
            id: "no-custom-overrides"@,
            description: "Verify eslint.config.mjs has no custom overrides or rules"@,
        },
        CheckV {
            id: "no-legacy-eslint-config"@,
            description: "Verify no legacy ESLint config files exist (.eslintrc, etc.)"@,
        },
    ]
}

/// The fixes this rule declares, each with the checks it addresses.
pub open spec fn spec_eslint_fixes() -> Seq<FixV> {
    seq![
        FixV {
            id: "install-eslint-config-agent"@,
            description: "Install eslint-config-agent@latest via pnpm"@,
            addresses: seq!["eslint-config-agent-dependency"@],
        },
        FixV {
            id: "create-eslint-config-mjs"@,
            description: "Create or update eslint.config.mjs to use eslint-config-agent as the only config"@,
            addresses: seq![
                "eslint-config-mjs-exists"@,
                "eslint-config-uses-agent"@,
                "no-custom-overrides"@,
            ],
        },
        FixV {
            id: "remove-legacy-eslint-configs"@,
            description: "Remove legacy ESLint config files (.eslintrc, .eslintrc.js, etc.)"@,
            addresses: seq!["no-legacy-eslint-config"@],
        },
    ]
}

/// The rule's descriptive snapshot.
pub open spec fn spec_eslint_info() -> RInfo {
    RInfo {
        id: eslint_rule_id(),
        name: "ESLint Config Agent"@,
        description: "Ensures projects use eslint-config-agent as the only ESLint configuration without any overrides"@,
        default_severity: Severity::Error.label(),
        can_fix: true,
        checks: spec_eslint_checks(),
        fixes: spec_eslint_fixes(),
    }
}

/// The expected content of eslint.config.mjs.
pub open spec fn spec_eslint_config_content() -> Seq<char> {
    "import config from \"eslint-config-agent\";\n\nexport default config;\n"@
}

/// Whether a manifest document marks a JavaScript project: it declares
/// dependencies or scripts.
pub open spec fn is_js_project(j: JsonData) -> bool {
    ||| spec_get(j, "dependencies"@) is Some
    ||| spec_get(j, "devDependencies"@) is Some
    ||| spec_get(j, "scripts"@) is Some
}

/// Whether a manifest document declares the eslint-config-agent dependency.
pub open spec fn has_eslint_config_agent(j: JsonData) -> bool {
    ||| (spec_get(j, "dependencies"@) matches Some(JsonData::Obj(d)) && spec_get_fields(
        d,
        "eslint-config-agent"@,
    ) is Some)
    ||| (spec_get(j, "devDependencies"@) matches Some(JsonData::Obj(d)) && spec_get_fields(
        d,
        "eslint-config-agent"@,
    ) is Some)
}

/// The names of legacy ESLint configuration files.
pub open spec fn legacy_config_names() -> Seq<Seq<char>> {
    seq![
        ".eslintrc"@,
        ".eslintrc.js"@,
        ".eslintrc.json"@,
        ".eslintrc.yml"@,
        ".eslintrc.yaml"@,
        "eslint.config.js"@,
    ]
}

/// The findings for legacy configuration files present in a directory, in
/// the declared order.
pub open spec fn spec_legacy_findings(
    es: Seq<SEntry>,
    dir: Seq<Seq<char>>,
    names: Seq<Seq<char>>,
) -> Seq<Finding>
    decreases names.len(),
{
    if names.len() == 0 {
        Seq::empty()
    } else {
        spec_legacy_findings(es, dir, names.drop_last()) + (if spec_lookup(
            es,
            dir.push(names.last()),
        ) is Some {
            seq![
                Finding {
                    rule_id: eslint_rule_id(),
                    check_id: "no-legacy-eslint-config"@,
                    severity: Severity::Warning.label(),
                    message: "Found legacy ESLint config file: "@ + names.last(),
                    path: dir.push(names.last()),
                    line: None,
                    fixable_by: seq!["remove-legacy-eslint-configs"@],
                },
            ]
        } else {
            Seq::empty()
        })
    }
}

/// The findings about eslint.config.mjs: a missing file, one that does not
/// use the shared configuration, and one that carries overrides; an
/// unreadable file is an error that no fix addresses.
pub open spec fn spec_config_file_findings(
    es: Seq<SEntry>,
    dir: Seq<Seq<char>>,
    sev: Severity,
) -> Seq<Finding> {
    let file = dir.push("eslint.config.mjs"@);
    match spec_lookup(es, file) {
        None => seq![
            Finding {
                rule_id: eslint_rule_id(),
                check_id: "eslint-config-mjs-exists"@,
                severity: sev.label(),
                message: "Missing eslint.config.mjs file"@,
                path: dir,
                line: None,
                fixable_by: seq!["create-eslint-config-mjs"@],
            },
        ],
        Some(SNode::Text(c)) => (if !contains_seq(c, "eslint-config-agent"@) {
            seq![
                Finding {
                    rule_id: eslint_rule_id(),
                    check_id: "eslint-config-uses-agent"@,
                    severity: sev.label(),
                    message: "eslint.config.mjs does not use eslint-config-agent"@,
                    path: file,
                    line: None,
                    fixable_by: seq!["create-eslint-config-mjs"@],
                },
            ]
        } else {
            Seq::empty()
        }) + (if contains_seq(c, "..."@) || contains_seq(c, "rules:"@) {
            seq![
                Finding {
                    rule_id: eslint_rule_id(),
                    check_id: "no-custom-overrides"@,
                    severity: Severity::Warning.label(),
                    message: "eslint.config.mjs contains custom overrides or rules"@,
                    path: file,
                    line: None,
                    fixable_by: seq!["create-eslint-config-mjs"@],
                },
            ]
        } else {
            Seq::empty()
        }),
        Some(SNode::Unreadable(e)) => seq![
            Finding {
                rule_id: eslint_rule_id(),
                check_id: "eslint-config-mjs-exists"@,
                severity: Severity::Error.label(),
                message: "Cannot read eslint.config.mjs: "@ + e,
                path: file,
                line: None,
                fixable_by: Seq::empty(),
            },
        ],
        Some(_) => seq![
            Finding {
                rule_id: eslint_rule_id(),
                check_id: "eslint-config-mjs-exists"@,
                severity: Severity::Error.label(),
                message: "Cannot read eslint.config.mjs: the path is a directory"@,
                path: file,
                line: None,
                fixable_by: Seq::empty(),
            },
        ],
    }
}

/// The findings for one manifest: an unreadable or unparseable manifest is
/// an error; a manifest without dependencies or scripts is not a JavaScript
/// project and is skipped; otherwise the dependency, the legacy files and
/// the configuration file are checked.
pub open spec fn spec_check_pkg(es: Seq<SEntry>, p: Seq<Seq<char>>, sev: Severity) -> Seq<
    Finding,
> {
    let dir = p.drop_last();
    match spec_lookup(es, p) {
        Some(SNode::Text(c)) => match spec_parse_json(c) {
            Some(j) => if !is_js_project(j) {
                Seq::empty()
            } else {
                (if !has_eslint_config_agent(j) {
                    seq![
                        Finding {
                            rule_id: eslint_rule_id(),
                            check_id: "eslint-config-agent-dependency"@,
                            severity: sev.label(),
                            message: "Missing eslint-config-agent in devDependencies"@,
                            path: p,
                            line: None,
                            fixable_by: seq!["install-eslint-config-agent"@],
                        },
                    ]
                } else {
                    Seq::empty()
                }) + spec_legacy_findings(es, dir, legacy_config_names())
                    + spec_config_file_findings(es, dir, sev)
            },
            None => seq![
                Finding {
                    rule_id: eslint_rule_id(),
                    check_id: "eslint-config-agent-dependency"@,
                    severity: Severity::Error.label(),
                    message: "Invalid JSON in package.json: "@ + crate::jsonio::spec_parse_err(c),
                    path: p,
                    line: None,
                    fixable_by: Seq::empty(),
                },
            ],
        },
        Some(SNode::Unreadable(e)) => seq![
            Finding {
                rule_id: eslint_rule_id(),
                check_id: "eslint-config-agent-dependency"@,
                severity: Severity::Error.label(),
                message: "Cannot read package.json: "@ + e,
                path: p,
                line: None,
                fixable_by: Seq::empty(),
            },
        ],
        Some(_) => seq![
            Finding {
                rule_id: eslint_rule_id(),
                check_id: "eslint-config-agent-dependency"@,
                severity: Severity::Error.label(),
                message: "Cannot read package.json: the path is a directory"@,
                path: p,
                line: None,
                fixable_by: Seq::empty(),
            },
        ],
        None => seq![
            Finding {
                rule_id: eslint_rule_id(),
                check_id: "eslint-config-agent-dependency"@,
                severity: Severity::Error.label(),
                message: "Cannot read package.json: no such file"@,
                path: p,
                line: None,
                fixable_by: Seq::empty(),
            },
        ],
    }
}

/// The findings for a list of manifests, in order.
pub open spec fn spec_check_pkgs(es: Seq<SEntry>, ps: Seq<Seq<Seq<char>>>, sev: Severity) -> Seq<
    Finding,
>
    decreases ps.len(),
{
    if ps.len() == 0 {
        Seq::empty()
    } else {
        spec_check_pkgs(es, ps.drop_last(), sev) + spec_check_pkg(es, ps.last(), sev)
    }
}

/// Everything the rule's check reports on a snapshot.
pub open spec fn spec_eslint_check(es: Seq<SEntry>, sev: Severity) -> Seq<Finding> {
    spec_check_pkgs(es, spec_manifest_files(es), sev)
}

/// The deletions of legacy configuration files present in a directory.
pub open spec fn spec_legacy_deletes(
    es: Seq<SEntry>,
    dir: Seq<Seq<char>>,
    names: Seq<Seq<char>>,
) -> Seq<Act>
    decreases names.len(),
{
    if names.len() == 0 {
        Seq::empty()
    } else {
        spec_legacy_deletes(es, dir, names.drop_last()) + (if spec_lookup(
            es,
            dir.push(names.last()),
        ) is Some {
            seq![Act::DeleteFile { path: dir.push(names.last()) }]
        } else {
            Seq::empty()
        })
    }
}

/// Whether eslint.config.mjs must be rewritten: it is missing, or its
/// trimmed content differs from the trimmed expected content.
pub open spec fn config_needs_update(es: Seq<SEntry>, dir: Seq<Seq<char>>) -> bool {
    match spec_lookup(es, dir.push("eslint.config.mjs"@)) {
        Some(SNode::Text(c)) => spec_trim(c) != spec_trim(spec_eslint_config_content()),
        _ => true,
    }
}

/// The repairs for one manifest: the installation command when the shared
/// configuration is not yet a dependency, the deletion of legacy files, and
/// the rewrite of eslint.config.mjs where it differs from the expected
/// content.  An unreadable manifest or configuration file is an I/O failure;
/// an unparseable manifest is a document failure; a manifest that is not a
/// JavaScript project is skipped.
pub open spec fn spec_fix_pkg(es: Seq<SEntry>, p: Seq<Seq<char>>) -> Result<
    (Seq<Cmd>, Seq<Act>, nat),
    FixErr,
> {
    let dir = p.drop_last();
    match spec_lookup(es, p) {
        Some(SNode::Text(c)) => match spec_parse_json(c) {
            None => Err(FixErr::Json),
            Some(j) => if !is_js_project(j) {
                Ok((Seq::empty(), Seq::empty(), 0nat))
            } else {
                let cmds: Seq<Cmd> = if !has_eslint_config_agent(j) {
                    seq![
                        Cmd {
                            program: "pnpm"@,
                            args: seq!["add"@, "-D"@, "eslint-config-agent@latest"@],
                            dir: dir,
                        },
                    ]
                } else {
                    Seq::empty()
                };
                let dels = spec_legacy_deletes(es, dir, legacy_config_names());
                match spec_lookup(es, dir.push("eslint.config.mjs"@)) {
                    Some(SNode::Text(cc)) => if spec_trim(cc) != spec_trim(
                        spec_eslint_config_content(),
                    ) {
                        Ok(
                            (
                                cmds,
                                dels + seq![
                                    Act::WriteFile {
                                        path: dir.push("eslint.config.mjs"@),
                                        content: spec_eslint_config_content(),
                                    },
                                ],
                                (dels.len() + 1) as nat,
                            ),
                        )
                    } else {
                        Ok((cmds, dels, dels.len() as nat))
                    },
                    None => Ok(
                        (
                            cmds,
                            dels + seq![
                                Act::WriteFile {
                                    path: dir.push("eslint.config.mjs"@),
                                    content: spec_eslint_config_content(),
                                },
                            ],
                            (dels.len() + 1) as nat,
                        ),
                    ),
                    Some(_) => Err(FixErr::Io),
                }
            },
        },
        _ => Err(FixErr::Io),
    }
}

/// The repairs for a list of manifests, in order; the first failure ends
/// the run.
pub open spec fn spec_fix_pkgs(es: Seq<SEntry>, ps: Seq<Seq<Seq<char>>>) -> Result<
    (Seq<Cmd>, Seq<Act>, nat),
    FixErr,
>
    decreases ps.len(),
{
    if ps.len() == 0 {
        Ok((Seq::empty(), Seq::empty(), 0nat))
    } else {
        match spec_fix_pkgs(es, ps.drop_last()) {
            Err(e) => Err(e),
            Ok((cmds, acts, n)) => match spec_fix_pkg(es, ps.last()) {
                Err(e) => Err(e),
                Ok((cmds2, acts2, m)) => Ok((cmds + cmds2, acts + acts2, (n + m) as nat)),
            },
        }
    }
}

/// Everything the rule's fix does on a snapshot.  The count covers the file
/// edits; each command that the caller runs successfully counts as one more
/// repair.
pub open spec fn spec_eslint_fix(es: Seq<SEntry>) -> Result<(Seq<Cmd>, Seq<Act>, nat), FixErr> {
    spec_fix_pkgs(es, spec_manifest_files(es))
}

/// A failure among the first `k` manifests fails the whole run.
pub proof fn lemma_fix_pkgs_err_prefix(es: Seq<SEntry>, ps: Seq<Seq<Seq<char>>>, k: int)
    requires
        0 <= k <= ps.len(),
        spec_fix_pkgs(es, ps.take(k)) is Err,
    ensures
        spec_fix_pkgs(es, ps) == spec_fix_pkgs(es, ps.take(k)),
    decreases ps.len(),
{
    if k < ps.len() {
        assert(ps.drop_last() =~= ps.take(ps.len() - 1));
        assert(ps.take(ps.len() - 1).take(k) =~= ps.take(k));
        lemma_fix_pkgs_err_prefix(es, ps.take(ps.len() - 1), k);
    } else {
        assert(ps.take(k) =~= ps);
    }
}

impl EslintConfigAgentRule {
    pub fn new() -> (r: Self) {
        Self
    }

    pub fn id(&self) -> (r: &'static str)
        ensures
            r@ == eslint_rule_id(),
    {
        "eslint-config-agent"
    }

    pub fn name(&self) -> (r: &'static str)
        ensures
            r@ == "ESLint Config Agent"@,
    {
        "ESLint Config Agent"
    }

    pub fn description(&self) -> (r: &'static str)
        ensures
            r@ == spec_eslint_info().description,
    {
        "Ensures projects use eslint-config-agent as the only ESLint configuration without any overrides"
    }

    pub fn default_severity(&self) -> (r: Severity)
        ensures
            r == Severity::Error,
    {
        Severity::Error
    }

    /// The checks this rule performs.
    pub fn checks(&self) -> (r: Vec<CheckEntry>)
        ensures
            checks_view(r) == spec_eslint_checks(),
    {
        let mut r: Vec<CheckEntry> = Vec::new();
        r.push(CheckEntry::new(
            "eslint-config-agent-dependency",
            "Verify eslint-config-agent is in devDependencies",
        ));
        r.push(CheckEntry::new("eslint-config-mjs-exists", "Verify eslint.config.mjs file exists"));
        r.push(CheckEntry::new(
            "eslint-config-uses-agent",
            "Verify eslint.config.mjs imports from eslint-config-agent",
        ));
        r.push(CheckEntry::new(
            "no-custom-overrides",
            "Verify eslint.config.mjs has no custom overrides or rules",
        ));
        r.push(CheckEntry::new(
            "no-legacy-eslint-config",
            "Verify no legacy ESLint config files exist (.eslintrc, etc.)",
        ));
        assert(checks_view(r) =~~= spec_eslint_checks());
        r
    }

    /// The fixes this rule can apply, each addressing declared checks.
    pub fn fixes(&self) -> (r: Vec<FixEntry>)
        ensures
            fixes_view(r) == spec_eslint_fixes(),
    {
        let mut r: Vec<FixEntry> = Vec::new();
        r.push(FixEntry::new(
            "install-eslint-config-agent",
            "Install eslint-config-agent@latest via pnpm",
            vec!["eslint-config-agent-dependency"],
        ));
        r.push(FixEntry::new(
            "create-eslint-config-mjs",
            "Create or update eslint.config.mjs to use eslint-config-agent as the only config",
            vec!["eslint-config-mjs-exists", "eslint-config-uses-agent", "no-custom-overrides"],
        ));
        r.push(FixEntry::new(
            "remove-legacy-eslint-configs",
            "Remove legacy ESLint config files (.eslintrc, .eslintrc.js, etc.)",
            vec!["no-legacy-eslint-config"],
        ));
        assert(fixes_view(r) =~~= spec_eslint_fixes());
        r
    }

    pub fn can_fix(&self) -> (r: bool)
        ensures
            r == true,
    {
        true
    }

    /// Whether the manifest declares dependencies or scripts.
    fn doc_is_js(doc: &Json) -> (r: bool)
        ensures
            r == is_js_project(doc@),
    {
        doc.obj_get("dependencies").is_some() || doc.obj_get("devDependencies").is_some()
            || doc.obj_get("scripts").is_some()
    }

    /// Whether the manifest declares the eslint-config-agent dependency.
    fn doc_has_agent(doc: &Json) -> (r: bool)
        ensures
            r == has_eslint_config_agent(doc@),
    {
        let a = match doc.obj_get("dependencies") {
            Some(d) => d.obj_get("eslint-config-agent").is_some(),
            None => false,
        };
        if a {
            return true;
        }
        match doc.obj_get("devDependencies") {
            Some(d) => d.obj_get("eslint-config-agent").is_some(),
            None => false,
        }
    }

    /// The names of legacy ESLint configuration files.
    fn legacy_names() -> (r: Vec<&'static str>)
        ensures
            crate::types::ids_view(r@) == legacy_config_names(),
    {
        let r = vec![
            ".eslintrc",
            ".eslintrc.js",
            ".eslintrc.json",
            ".eslintrc.yml",
            ".eslintrc.yaml",
            "eslint.config.js",
        ];
        assert(crate::types::ids_view(r@) =~= legacy_config_names());
        r
    }

    /// The findings for legacy configuration files present in a directory.
    #[verifier::loop_isolation(false)]
    fn check_legacy(snap: &Snapshot, dir: &Vec<String>) -> (r: Vec<LintResult>)
        ensures
            results_view(r) == spec_legacy_findings(snap@, path_view(*dir), legacy_config_names()),
    {
        let ghost dv = path_view(*dir);
        let names = Self::legacy_names();
        let ghost nv = legacy_config_names();
        let mut out: Vec<LintResult> = Vec::new();
        let n = names.len();
        let mut i: usize = 0;
        assert(nv.take(0) =~= Seq::<Seq<char>>::empty());
        assert(results_view(out) =~= spec_legacy_findings(snap@, dv, nv.take(0)));
        while i < n
            invariant
                0 <= i <= n,
                results_view(out) == spec_legacy_findings(snap@, dv, nv.take(i as int)),
            decreases n - i,
        {
            proof {
                assert(nv.take(i + 1).drop_last() =~= nv.take(i as int));
                assert(nv.take(i + 1).last() == nv[i as int]);
            }
            let ghost pre = results_view(out);
            let target = path_child(dir, names[i]);
            if snap.exists_at(&target) {
                out.push(
                    LintResult::new(
                        "eslint-config-agent",
                        "no-legacy-eslint-config",
                        Severity::Warning,
                        str_concat("Found legacy ESLint config file: ", names[i]),
                        target,
                        None,
                        Some(
                            str_concat(
                                str_concat("Remove ", names[i]).as_str(),
                                " and use eslint.config.mjs with eslint-config-agent",
                            ),
                        ),
                        vec!["remove-legacy-eslint-configs"],
                    ),
                );
            }
            assert(results_view(out) =~~= pre + (if spec_lookup(snap@, dv.push(nv[i as int]))
                is Some {
                seq![
                    Finding {
                        rule_id: eslint_rule_id(),
                        check_id: "no-legacy-eslint-config"@,
                        severity: Severity::Warning.label(),
                        message: "Found legacy ESLint config file: "@ + nv[i as int],
                        path: dv.push(nv[i as int]),
                        line: None,
                        fixable_by: seq!["remove-legacy-eslint-configs"@],
                    },
                ]
            } else {
                Seq::empty()
            }));
            i += 1;
        }
        assert(nv.take(n as int) =~= nv);
        out
    }

    /// The findings about eslint.config.mjs in a directory.
    fn check_config_file(snap: &Snapshot, dir: &Vec<String>, sev: Severity) -> (r: Vec<
        LintResult,
    >)
        ensures
            results_view(r) == spec_config_file_findings(snap@, path_view(*dir), sev),
    {
        let ghost dv = path_view(*dir);
        let file = path_child(dir, "eslint.config.mjs");
        let mut out: Vec<LintResult> = Vec::new();
        match snap.lookup(&file) {
            None => {
                out.push(
                    LintResult::new(
                        "eslint-config-agent",
                        "eslint-config-mjs-exists",
                        sev,
                        "Missing eslint.config.mjs file".to_owned(),
                        path_clone(dir),
                        None,
                        Some(
                            "Create eslint.config.mjs that exports eslint-config-agent as the only config".to_owned(),
                        ),
                        vec!["create-eslint-config-mjs"],
                    ),
                );
                assert(results_view(out) =~~= spec_config_file_findings(snap@, dv, sev));
            },
            Some(FsNode::Text(c)) => {
                if !contains_str(c.as_str(), "eslint-config-agent") {
                    out.push(
                        LintResult::new(
                            "eslint-config-agent",
                            "eslint-config-uses-agent",
                            sev,
                            "eslint.config.mjs does not use eslint-config-agent".to_owned(),
                            path_clone(&file),
                            None,
                            Some(
                                "Update eslint.config.mjs to use eslint-config-agent as the only config".to_owned(),
                            ),
                            vec!["create-eslint-config-mjs"],
                        ),
                    );
                }
                if contains_str(c.as_str(), "...") || contains_str(c.as_str(), "rules:") {
                    out.push(
                        LintResult::new(
                            "eslint-config-agent",
                            "no-custom-overrides",
                            Severity::Warning,
                            "eslint.config.mjs contains custom overrides or rules".to_owned(),
                            file,
                            None,
                            Some(
                                "Remove all custom overrides - eslint-config-agent should be the only config".to_owned(),
                            ),
                            vec!["create-eslint-config-mjs"],
                        ),
                    );
                }
                assert(results_view(out) =~~= spec_config_file_findings(snap@, dv, sev));
            },
            Some(FsNode::Unreadable(e)) => {
                out.push(
                    LintResult::new(
                        "eslint-config-agent",
                        "eslint-config-mjs-exists",
                        Severity::Error,
                        str_concat("Cannot read eslint.config.mjs: ", e.as_str()),
                        file,
                        None,
                        None,
                        vec![],
                    ),
                );
                assert(results_view(out) =~~= spec_config_file_findings(snap@, dv, sev));
            },
            Some(_) => {
                out.push(
                    LintResult::new(
                        "eslint-config-agent",
                        "eslint-config-mjs-exists",
                        Severity::Error,
                        "Cannot read eslint.config.mjs: the path is a directory".to_owned(),
                        file,
                        None,
                        None,
                        vec![],
                    ),
                );
                assert(results_view(out) =~~= spec_config_file_findings(snap@, dv, sev));
            },
        }
        out
    }

    /// The findings for one manifest.
    #[verifier::rlimit(60)]
    fn check_pkg(&self, snap: &Snapshot, p: &Vec<String>, sev: Severity) -> (r: Vec<LintResult>)
        requires
            path_view(*p).len() > 0,
        ensures
            results_view(r) == spec_check_pkg(snap@, path_view(*p), sev),
    {
        let ghost pv = path_view(*p);
        let dir = path_parent(p);
        let mut out: Vec<LintResult> = Vec::new();
        match snap.lookup(p) {
            Some(FsNode::Text(c)) => {
                match parse_json(c.as_str()) {
                    Ok(doc) => {
                        if !Self::doc_is_js(&doc) {
                            assert(results_view(out) =~= spec_check_pkg(snap@, pv, sev));
                            return out;
                        }
                        if !Self::doc_has_agent(&doc) {
                            out.push(
                                LintResult::new(
                                    "eslint-config-agent",
                                    "eslint-config-agent-dependency",
                                    sev,
                                    "Missing eslint-config-agent in devDependencies".to_owned(),
                                    path_clone(p),
                                    None,
                                    Some(
                                        "Install eslint-config-agent using 'pnpm add -D eslint-config-agent@latest'".to_owned(),
                                    ),
                                    vec!["install-eslint-config-agent"],
                                ),
                            );
                        }
                        let ghost dep = results_view(out);
                        assert(dep =~~= (if !has_eslint_config_agent(doc@) {
                            seq![
                                Finding {
                                    rule_id: eslint_rule_id(),
                                    check_id: "eslint-config-agent-dependency"@,
                                    severity: sev.label(),
                                    message: "Missing eslint-config-agent in devDependencies"@,
                                    path: pv,
                                    line: None,
                                    fixable_by: seq!["install-eslint-config-agent"@],
                                },
                            ]
                        } else {
                            Seq::empty()
                        }));
                        let mut legacy = Self::check_legacy(snap, &dir);
                        let ghost lv = results_view(legacy);
                        out.append(&mut legacy);
                        assert(results_view(out) =~= dep + lv);
                        let ghost upto_legacy = results_view(out);
                        let mut cfg = Self::check_config_file(snap, &dir, sev);
                        let ghost cv = results_view(cfg);
                        out.append(&mut cfg);
                        assert(results_view(out) =~= upto_legacy + cv);
                        assert(results_view(out) =~= spec_check_pkg(snap@, pv, sev));
                    },
                    Err(e) => {
                        out.push(
                            LintResult::new(
                                "eslint-config-agent",
                                "eslint-config-agent-dependency",
                                Severity::Error,
                                str_concat("Invalid JSON in package.json: ", e.as_str()),
                                path_clone(p),
                                None,
                                Some("Fix JSON syntax errors".to_owned()),
                                vec![],
                            ),
                        );
                        assert(results_view(out) =~~= spec_check_pkg(snap@, pv, sev));
                    },
                }
            },
            Some(FsNode::Unreadable(e)) => {
                out.push(
                    LintResult::new(
                        "eslint-config-agent",
                        "eslint-config-agent-dependency",
                        Severity::Error,
                        str_concat("Cannot read package.json: ", e.as_str()),
                        path_clone(p),
                        None,
                        None,
                        vec![],
                    ),
                );
                assert(results_view(out) =~~= spec_check_pkg(snap@, pv, sev));
            },
            Some(_) => {
                out.push(
                    LintResult::new(
                        "eslint-config-agent",
                        "eslint-config-agent-dependency",
                        Severity::Error,
                        "Cannot read package.json: the path is a directory".to_owned(),
                        path_clone(p),
                        None,
                        None,
                        vec![],
                    ),
                );
                assert(results_view(out) =~~= spec_check_pkg(snap@, pv, sev));
            },
            None => {
                out.push(
                    LintResult::new(
                        "eslint-config-agent",
                        "eslint-config-agent-dependency",
                        Severity::Error,
                        "Cannot read package.json: no such file".to_owned(),
                        path_clone(p),
                        None,
                        None,
                        vec![],
                    ),
                );
                assert(results_view(out) =~~= spec_check_pkg(snap@, pv, sev));
            },
        }
        out
    }

    /// Execute all checks and return results: every manifest of the snapshot
    /// outside dependency caches is checked, in snapshot order.
    #[verifier::loop_isolation(false)]
    pub fn check(&self, snap: &Snapshot, severity: Severity) -> (r: Vec<LintResult>)
        ensures
            results_view(r) == spec_eslint_check(snap@, severity),
    {
        let files = snap.find_manifest_files();
        let ghost fv = crate::fsmodel::paths_view(files);
        proof {
            crate::fsmodel::lemma_manifest_nonempty(snap@);
        }
        let mut out: Vec<LintResult> = Vec::new();
        let n = files.len();
        let mut i: usize = 0;
        assert(fv.take(0) =~= Seq::<Seq<Seq<char>>>::empty());
        assert(results_view(out) =~= spec_check_pkgs(snap@, fv.take(0), severity));
        while i < n
            invariant
                0 <= i <= n,
                results_view(out) == spec_check_pkgs(snap@, fv.take(i as int), severity),
            decreases n - i,
        {
            proof {
                assert(fv.take(i + 1).drop_last() =~= fv.take(i as int));
                assert(fv.take(i + 1).last() == fv[i as int]);
            }
            let ghost pre = results_view(out);
            let mut one = self.check_pkg(snap, &files[i], severity);
            let ghost onev = results_view(one);
            out.append(&mut one);
            assert(results_view(out) =~= pre + onev);
            i += 1;
        }
        assert(fv.take(n as int) =~= fv);
        out
    }

    /// The deletions of legacy configuration files present in a directory.
    #[verifier::loop_isolation(false)]
    fn legacy_deletes(snap: &Snapshot, dir: &Vec<String>) -> (r: Vec<FsAction>)
        ensures
            crate::fsmodel::acts_view(r) == spec_legacy_deletes(
                snap@,
                path_view(*dir),
                legacy_config_names(),
            ),
            r@.len() <= legacy_config_names().len(),
    {
        let ghost dv = path_view(*dir);
        let names = Self::legacy_names();
        let ghost nv = legacy_config_names();
        let mut out: Vec<FsAction> = Vec::new();
        let n = names.len();
        let mut i: usize = 0;
        assert(nv.take(0) =~= Seq::<Seq<char>>::empty());
        assert(crate::fsmodel::acts_view(out) =~= spec_legacy_deletes(snap@, dv, nv.take(0)));
        while i < n
            invariant
                0 <= i <= n,
                out@.len() <= i,
                crate::fsmodel::acts_view(out) == spec_legacy_deletes(snap@, dv, nv.take(i as int)),
            decreases n - i,
        {
            proof {
                assert(nv.take(i + 1).drop_last() =~= nv.take(i as int));
                assert(nv.take(i + 1).last() == nv[i as int]);
            }
            let ghost pre = crate::fsmodel::acts_view(out);
            let target = path_child(dir, names[i]);
            if snap.exists_at(&target) {
                out.push(FsAction::DeleteFile { path: target });
            }
            assert(crate::fsmodel::acts_view(out) =~~= pre + (if spec_lookup(
                snap@,
                dv.push(nv[i as int]),
            ) is Some {
                seq![Act::DeleteFile { path: dv.push(nv[i as int]) }]
            } else {
                Seq::empty()
            }));
            i += 1;
        }
        assert(nv.take(n as int) =~= nv);
        out
    }

    /// The repairs for one manifest.
    #[verifier::rlimit(60)]
    fn fix_pkg(&self, snap: &Snapshot, p: &Vec<String>) -> (r: Result<
        (Vec<CommandRequest>, Vec<FsAction>, u32),
        RuleError,
    >)
        requires
            path_view(*p).len() > 0,
        ensures
            match r {
                Ok((cmds, acts, n)) => spec_fix_pkg(snap@, path_view(*p)) == Ok::<_, FixErr>(
                    (
                        crate::fsmodel::cmds_view(cmds),
                        crate::fsmodel::acts_view(acts),
                        n as nat,
                    ),
                ) && n <= 7,
                Err(e) => spec_fix_pkg(snap@, path_view(*p)) == Err::<
                    (Seq<Cmd>, Seq<Act>, nat),
                    _,
                >(e@),
            },
    {
        let ghost pv = path_view(*p);
        let dir = path_parent(p);
        match snap.lookup(p) {
            Some(FsNode::Text(c)) => {
                match parse_json(c.as_str()) {
                    Err(e) => Err(RuleError::Json(e)),
                    Ok(doc) => {
                        if !Self::doc_is_js(&doc) {
                            let cmds: Vec<CommandRequest> = Vec::new();
                            let acts: Vec<FsAction> = Vec::new();
                            assert(crate::fsmodel::cmds_view(cmds) =~= Seq::<Cmd>::empty());
                            assert(crate::fsmodel::acts_view(acts) =~= Seq::<Act>::empty());
                            return Ok((cmds, acts, 0));
                        }
                        let mut cmds: Vec<CommandRequest> = Vec::new();
                        if !Self::doc_has_agent(&doc) {
                            let args = vec![
                                "add".to_owned(),
                                "-D".to_owned(),
                                "eslint-config-agent@latest".to_owned(),
                            ];
                            cmds.push(
                                CommandRequest {
                                    program: "pnpm".to_owned(),
                                    args,
                                    dir: path_clone(&dir),
                                },
                            );
                        }
                        assert(crate::fsmodel::cmds_view(cmds) =~~= (
                        if !has_eslint_config_agent(doc@) {
                            seq![
                                Cmd {
                                    program: "pnpm"@,
                                    args: seq!["add"@, "-D"@, "eslint-config-agent@latest"@],
                                    dir: pv.drop_last(),
                                },
                            ]
                        } else {
                            Seq::empty()
                        }));
                        let mut acts = Self::legacy_deletes(snap, &dir);
                        let dels_n = acts.len() as u32;
                        let ghost delsv = crate::fsmodel::acts_view(acts);
                        let cfg = path_child(&dir, "eslint.config.mjs");
                        match snap.lookup(&cfg) {
                            Some(FsNode::Text(cc)) => {
                                let expected =
                                    "import config from \"eslint-config-agent\";\n\nexport default config;\n";
                                if !str_eq(trim(cc.as_str()), trim(expected)) {
                                    acts.push(
                                        FsAction::WriteFile {
                                            path: cfg,
                                            content: expected.to_owned(),
                                        },
                                    );
                                    assert(crate::fsmodel::acts_view(acts) =~~= spec_fix_pkg(
                                        snap@,
                                        pv,
                                    )->Ok_0.1);
                                    Ok((cmds, acts, dels_n + 1))
                                } else {
                                    assert(crate::fsmodel::acts_view(acts) =~~= spec_fix_pkg(
                                        snap@,
                                        pv,
                                    )->Ok_0.1);
                                    Ok((cmds, acts, dels_n))
                                }
                            },
                            None => {
                                let expected =
                                    "import config from \"eslint-config-agent\";\n\nexport default config;\n";
                                acts.push(
                                    FsAction::WriteFile { path: cfg, content: expected.to_owned() },
                                );
                                assert(crate::fsmodel::acts_view(acts) =~~= spec_fix_pkg(
                                    snap@,
                                    pv,
                                )->Ok_0.1);
                                Ok((cmds, acts, dels_n + 1))
                            },
                            Some(_) => Err(
                                RuleError::Io(
                                    "cannot read eslint.config.mjs: not a readable text file".to_owned(),
                                ),
                            ),
                        }
                    },
                }
            },
            Some(_) => Err(
                RuleError::Io("cannot read package.json: not a readable text file".to_owned()),
            ),
            None => Err(RuleError::Io("cannot read package.json: no such file".to_owned())),
        }
    }

    /// Apply all applicable fixes: the file edits to make, the installation
    /// commands for the caller to run (each successful one is a further
    /// repair), and the count of file repairs.  The first failure ends the
    /// run.
    #[verifier::loop_isolation(false)]
    pub fn fix(&self, snap: &Snapshot) -> (r: Result<
        (Vec<CommandRequest>, Vec<FsAction>, u32),
        RuleError,
    >)
        ensures
            match r {
                Ok((cmds, acts, n)) => spec_eslint_fix(snap@) matches Ok((scmds, sacts, cnt))
                    && crate::fsmodel::cmds_view(cmds) == scmds && crate::fsmodel::acts_view(acts)
                    == sacts && n == crate::types::sat32(cnt),
                Err(e) => spec_eslint_fix(snap@) == Err::<(Seq<Cmd>, Seq<Act>, nat), _>(e@),
            },
    {
        let files = snap.find_manifest_files();
        let ghost fv = crate::fsmodel::paths_view(files);
        proof {
            crate::fsmodel::lemma_manifest_nonempty(snap@);
        }
        let mut out_cmds: Vec<CommandRequest> = Vec::new();
        let mut out: Vec<FsAction> = Vec::new();
        let mut fixed: u32 = 0;
        let n = files.len();
        let mut i: usize = 0;
        assert(fv.take(0) =~= Seq::<Seq<Seq<char>>>::empty());
        assert(crate::fsmodel::cmds_view(out_cmds) =~= Seq::<Cmd>::empty());
        assert(crate::fsmodel::acts_view(out) =~= Seq::<Act>::empty());
        while i < n
            invariant
                0 <= i <= n,
                spec_fix_pkgs(snap@, fv.take(i as int)) matches Ok((scmds, sacts, cnt))
                    && crate::fsmodel::cmds_view(out_cmds) == scmds && crate::fsmodel::acts_view(
                    out,
                ) == sacts && fixed == crate::types::sat32(cnt),
            decreases n - i,
        {
            proof {
                assert(fv.take(i + 1).drop_last() =~= fv.take(i as int));
                assert(fv.take(i + 1).last() == fv[i as int]);
            }
            let ghost pre_cmds = crate::fsmodel::cmds_view(out_cmds);
            let ghost pre = crate::fsmodel::acts_view(out);
            match self.fix_pkg(snap, &files[i]) {
                Ok((mut cmds, mut acts, m)) => {
                    let ghost cv = crate::fsmodel::cmds_view(cmds);
                    let ghost av = crate::fsmodel::acts_view(acts);
                    out_cmds.append(&mut cmds);
                    out.append(&mut acts);
                    assert(crate::fsmodel::cmds_view(out_cmds) =~= pre_cmds + cv);
                    assert(crate::fsmodel::acts_view(out) =~= pre + av);
                    fixed = crate::types::sat_add_u32(fixed, m);
                },
                Err(e) => {
                    proof {
                        assert(spec_fix_pkgs(snap@, fv.take(i + 1)) == Err::<
                            (Seq<Cmd>, Seq<Act>, nat),
                            _,
                        >(e@));
                        lemma_fix_pkgs_err_prefix(snap@, fv, i + 1);
                        assert(fv.take(fv.len() as int) =~= fv);
                    }
                    return Err(e);
                },
            }
            i += 1;
        }
        assert(fv.take(n as int) =~= fv);
        Ok((out_cmds, out, fixed))
    }
}

} // verus!
