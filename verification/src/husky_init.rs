//! Rule: git repositories have their hook infrastructure initialized — husky
//! for JavaScript projects, husky-rs for Rust projects.  When manifests for
//! both are present, the JavaScript strategy wins.

use vstd::prelude::*;

use crate::fsmodel::{
    path_child, path_clone, path_view, spec_git_repos, spec_lookup, Cmd, CommandRequest, FsNode,
    SEntry, SNode, Snapshot,
};
use crate::json::{
    fields_view, find_field, lemma_find_field, spec_find_field, spec_get, spec_get_fields,
    JField, Json, JsonData, JsonField,
};
use crate::jsonio::{parse_json, render_json, spec_parse_json, spec_render_json};
use crate::text::{contains_seq, contains_str, str_concat};
use crate::types::{
    checks_view, fixes_view, results_view, CheckEntry, CheckV, Finding, FixEntry, FixV,
    LintResult, RInfo, Severity,
};

verus! {

broadcast use vstd::std_specs::vec::group_vec_axioms;

/// Project type detection for the initialization strategy.
#[derive(Debug, Clone, Copy, PartialEq, Eq, Structural)]
pub enum ProjectType {
    JavaScript,
    Rust,
}

/// Rule: ensure git repositories have their hook infrastructure initialized.
pub struct HuskyInitRule;

/// The rule's identifier.
pub open spec fn husky_rule_id() -> Seq<char> {
    "husky-init"@
}

/// The checks this rule declares.
pub open spec fn spec_husky_checks() -> Seq<CheckV> {
    seq![
        CheckV {
            id: "husky-dir-exists"@,
            description: "Verify the .husky directory exists in recognized projects"@,
        },
        CheckV {
            id: "prepare-script"@,
            description: "Verify package.json has a 'prepare' script that runs husky"@,
        },
        CheckV {
            id: "husky-rs-dependency"@,
            description: "Verify Cargo.toml declares husky-rs as a dependency"@,
        },
        CheckV { id: "hooks-present"@, description: "Verify at least one common git hook exists"@ },
    ]
}

/// The fixes this rule declares, each with the checks it addresses.
pub open spec fn spec_husky_fixes() -> Seq<FixV> {
    seq![
        FixV {
            id: "init-husky"@,
            description: "Initialize hook infrastructure with the project's installer"@,
            addresses: seq!["husky-dir-exists"@],
        },
    ]
}

/// The rule's descriptive snapshot.
pub open spec fn spec_husky_info() -> RInfo {
    RInfo {
        id: husky_rule_id(),
        name: "Husky Initialization"@,
        description: "Ensures git repositories have Husky (JS) or husky-rs (Rust) initialized for git hooks"@,
        default_severity: Severity::Warning.label(),
        can_fix: true,
        checks: spec_husky_checks(),
        fixes: spec_husky_fixes(),
    }
}

/// The project type of a repository: a Cargo manifest alone means Rust; a
/// package manifest means JavaScript, whatever else is present.
pub open spec fn spec_project_type(es: Seq<SEntry>, repo: Seq<Seq<char>>) -> Option<ProjectType> {
    let has_pkg = spec_lookup(es, repo.push("package.json"@)) is Some;
    let has_cargo = spec_lookup(es, repo.push("Cargo.toml"@)) is Some;
    if has_pkg {
        Some(ProjectType::JavaScript)
    } else if has_cargo {
        Some(ProjectType::Rust)
    } else {
        None
    }
}

/// The common git hook names looked for under the hook directory.
pub open spec fn hook_names() -> Seq<Seq<char>> {
    seq!["pre-commit"@, "commit-msg"@, "pre-push"@, "post-merge"@, "post-checkout"@]
}

/// Whether the hook directory holds at least one common git hook.
pub open spec fn has_any_hook(es: Seq<SEntry>, husky: Seq<Seq<char>>) -> bool {
    exists|i: int|
        0 <= i < hook_names().len() && spec_lookup(es, husky.push(#[trigger] hook_names()[i]))
            is Some
}

/// The finding about the package manifest's prepare script: a manifest whose
/// prepare script does not run husky is reported; one that cannot be read or
/// parsed is an error.
pub open spec fn spec_prepare_findings(es: Seq<SEntry>, repo: Seq<Seq<char>>, sev: Severity) -> Seq<
    Finding,
> {
    let pkg = repo.push("package.json"@);
    match spec_lookup(es, pkg) {
        Some(SNode::Text(c)) => match spec_parse_json(c) {
            Some(j) => {
                let ok = spec_get(j, "scripts"@) matches Some(s) && spec_get(s, "prepare"@)
                    matches Some(JsonData::Str(v)) && contains_seq(v, "husky"@);
                if !ok {
                    seq![
                        Finding {
                            rule_id: husky_rule_id(),
                            check_id: "prepare-script"@,
                            severity: sev.label(),
                            message: "Missing 'prepare' script with Husky in package.json"@,
                            path: pkg,
                            line: None,
                            fixable_by: Seq::empty(),
                        },
                    ]
                } else {
                    Seq::empty()
                }
            },
            None => seq![
                Finding {
                    rule_id: husky_rule_id(),
                    check_id: "prepare-script"@,
                    severity: Severity::Error.label(),
                    message: "Invalid JSON in package.json: "@ + crate::jsonio::spec_parse_err(c),
                    path: pkg,
                    line: None,
                    fixable_by: Seq::empty(),
                },
            ],
        },
        Some(SNode::Unreadable(e)) => seq![
            Finding {
                rule_id: husky_rule_id(),
                check_id: "prepare-script"@,
                severity: Severity::Error.label(),
                message: "Cannot read package.json: "@ + e,
                path: pkg,
                line: None,
                fixable_by: Seq::empty(),
            },
        ],
        Some(_) => seq![
            Finding {
                rule_id: husky_rule_id(),
                check_id: "prepare-script"@,
                severity: Severity::Error.label(),
                message: "Cannot read package.json: the path is a directory"@,
                path: pkg,
                line: None,
                fixable_by: Seq::empty(),
            },
        ],
        None => Seq::empty(),
    }
}

/// The finding about the Cargo manifest's husky-rs dependency.
pub open spec fn spec_cargo_findings(es: Seq<SEntry>, repo: Seq<Seq<char>>, sev: Severity) -> Seq<
    Finding,
> {
    let cargo = repo.push("Cargo.toml"@);
    match spec_lookup(es, cargo) {
        Some(SNode::Text(c)) => if !contains_seq(c, "husky-rs"@) {
            seq![
                Finding {
                    rule_id: husky_rule_id(),
                    check_id: "husky-rs-dependency"@,
                    severity: sev.label(),
                    message: "Missing husky-rs in dev-dependencies"@,
                    path: cargo,
                    line: None,
                    fixable_by: Seq::empty(),
                },
            ]
        } else {
            Seq::empty()
        },
        Some(SNode::Unreadable(e)) => seq![
            Finding {
                rule_id: husky_rule_id(),
                check_id: "husky-rs-dependency"@,
                severity: Severity::Error.label(),
                message: "Cannot read Cargo.toml: "@ + e,
                path: cargo,
                line: None,
                fixable_by: Seq::empty(),
            },
        ],
        Some(_) => seq![
            Finding {
                rule_id: husky_rule_id(),
                check_id: "husky-rs-dependency"@,
                severity: Severity::Error.label(),
                message: "Cannot read Cargo.toml: the path is a directory"@,
                path: cargo,
                line: None,
                fixable_by: Seq::empty(),
            },
        ],
        None => Seq::empty(),
    }
}

/// The informational finding when no common git hook exists.
pub open spec fn spec_hooks_findings(es: Seq<SEntry>, repo: Seq<Seq<char>>) -> Seq<Finding> {
    let husky = repo.push(".husky"@);
    if !has_any_hook(es, husky) {
        seq![
            Finding {
                rule_id: husky_rule_id(),
                check_id: "hooks-present"@,
                severity: Severity::Info.label(),
                message: "No git hooks found in .husky directory"@,
                path: husky,
                line: None,
                fixable_by: Seq::empty(),
            },
        ]
    } else {
        Seq::empty()
    }
}

/// The findings for one repository: repositories without a recognized
/// project type are skipped; a missing hook directory is the one repairable
/// finding; otherwise the manifest wiring and the hooks are checked.
pub open spec fn spec_husky_check_repo(es: Seq<SEntry>, repo: Seq<Seq<char>>, sev: Severity) -> Seq<
    Finding,
> {
    match spec_project_type(es, repo) {
        None => Seq::empty(),
        Some(t) => if spec_lookup(es, repo.push(".husky"@)) is None {
            seq![
                Finding {
                    rule_id: husky_rule_id(),
                    check_id: "husky-dir-exists"@,
                    severity: sev.label(),
                    message: match t {
                        ProjectType::JavaScript => "Missing .husky directory - Husky is not initialized"@,
                        ProjectType::Rust => "Missing .husky directory - husky-rs is not initialized"@,
                    },
                    path: repo,
                    line: None,
                    fixable_by: seq!["init-husky"@],
                },
            ]
        } else {
            (match t {
                ProjectType::JavaScript => spec_prepare_findings(es, repo, sev),
                ProjectType::Rust => spec_cargo_findings(es, repo, sev),
            }) + spec_hooks_findings(es, repo)
        },
    }
}

/// The findings for a list of repositories, in order.
pub open spec fn spec_husky_check_repos(
    es: Seq<SEntry>,
    repos: Seq<Seq<Seq<char>>>,
    sev: Severity,
) -> Seq<Finding>
    decreases repos.len(),
{
    if repos.len() == 0 {
        Seq::empty()
    } else {
        spec_husky_check_repos(es, repos.drop_last(), sev) + spec_husky_check_repo(es, repos.last(), sev)
    }
}

/// Everything the rule's check reports on a snapshot.
pub open spec fn spec_husky_check(es: Seq<SEntry>, sev: Severity) -> Seq<Finding> {
    spec_husky_check_repos(es, spec_git_repos(es), sev)
}

/// The initialization command for one repository, if its hook directory is
/// missing and its project type is recognized.
pub open spec fn spec_fix_repo_cmd(es: Seq<SEntry>, repo: Seq<Seq<char>>) -> Seq<Cmd> {
    if spec_lookup(es, repo.push(".husky"@)) is Some {
        Seq::empty()
    } else {
        match spec_project_type(es, repo) {
            Some(ProjectType::JavaScript) => seq![
                Cmd { program: "npx"@, args: seq!["husky"@, "init"@], dir: repo },
            ],
            Some(ProjectType::Rust) => seq![
                Cmd { program: "cargo"@, args: seq!["husky-rs"@, "init"@], dir: repo },
            ],
            None => Seq::empty(),
        }
    }
}

/// The initialization commands for a list of repositories, in order.
pub open spec fn spec_fix_repos_cmds(es: Seq<SEntry>, repos: Seq<Seq<Seq<char>>>) -> Seq<Cmd>
    decreases repos.len(),
{
    if repos.len() == 0 {
        Seq::empty()
    } else {
        spec_fix_repos_cmds(es, repos.drop_last()) + spec_fix_repo_cmd(es, repos.last())
    }
}

/// Everything the rule's fix does on a snapshot: it only requests commands;
/// each one the caller runs successfully counts as one repair.
pub open spec fn spec_husky_fix(es: Seq<SEntry>) -> Seq<Cmd> {
    spec_fix_repos_cmds(es, spec_git_repos(es))
}

/// The package manifest content with a "prepare": "husky" script added, when
/// the document parses to an object whose scripts object lacks one; `None`
/// when nothing is to be written.
pub open spec fn spec_prepare_update(c: Seq<char>) -> Option<Seq<char>> {
    match spec_parse_json(c) {
        None => None,
        Some(j) => match j {
            JsonData::Obj(fs) => match spec_find_field(fs, "scripts"@) {
                Some(i) => match fs[i].val {
                    JsonData::Obj(sfs) => if spec_get_fields(sfs, "prepare"@) is Some {
                        None
                    } else {
                        Some(
                            spec_render_json(
                                JsonData::Obj(
                                    fs.update(
                                        i,
                                        JField {
                                            key: fs[i].key,
                                            val: JsonData::Obj(
                                                sfs.push(
                                                    JField {
                                                        key: "prepare"@,
                                                        val: JsonData::Str("husky"@),
                                                    },
                                                ),
                                            ),
                                        },
                                    ),
                                ),
                            ),
                        )
                    },
                    _ => None,
                },
                None => None,
            },
            _ => None,
        },
    }
}

impl HuskyInitRule {
    pub fn new() -> (r: Self) {
        Self
    }

    pub fn id(&self) -> (r: &'static str)
        ensures
            r@ == husky_rule_id(),
    {
        "husky-init"
    }

    pub fn name(&self) -> (r: &'static str)
        ensures
            r@ == "Husky Initialization"@,
    {
        "Husky Initialization"
    }

    pub fn description(&self) -> (r: &'static str)
        ensures
            r@ == spec_husky_info().description,
    {
        "Ensures git repositories have Husky (JS) or husky-rs (Rust) initialized for git hooks"
    }

    pub fn default_severity(&self) -> (r: Severity)
        ensures
            r == Severity::Warning,
    {
        Severity::Warning
    }

    /// The checks this rule performs.
    pub fn checks(&self) -> (r: Vec<CheckEntry>)
        ensures
            checks_view(r) == spec_husky_checks(),
    {
        let mut r: Vec<CheckEntry> = Vec::new();
        r.push(CheckEntry::new(
            "husky-dir-exists",
            "Verify the .husky directory exists in recognized projects",
        ));
        r.push(CheckEntry::new(
            "prepare-script",
            "Verify package.json has a 'prepare' script that runs husky",
        ));
        r.push(CheckEntry::new(
            "husky-rs-dependency",
            "Verify Cargo.toml declares husky-rs as a dependency",
        ));
        r.push(CheckEntry::new("hooks-present", "Verify at least one common git hook exists"));
        assert(checks_view(r) =~~= spec_husky_checks());
        r
    }

    /// The fixes this rule can apply, each addressing declared checks.
    pub fn fixes(&self) -> (r: Vec<FixEntry>)
        ensures
            fixes_view(r) == spec_husky_fixes(),
    {
        let mut r: Vec<FixEntry> = Vec::new();
        r.push(FixEntry::new(
            "init-husky",
            "Initialize hook infrastructure with the project's installer",
            vec!["husky-dir-exists"],
        ));
        assert(fixes_view(r) =~~= spec_husky_fixes());
        r
    }

    pub fn can_fix(&self) -> (r: bool)
        ensures
            r == true,
    {
        true
    }

    /// The project type of a repository.
    fn detect_project_type(snap: &Snapshot, repo: &Vec<String>) -> (r: Option<ProjectType>)
        ensures
            r == spec_project_type(snap@, path_view(*repo)),
    {
        let has_pkg = snap.exists_at(&path_child(repo, "package.json"));
        let has_cargo = snap.exists_at(&path_child(repo, "Cargo.toml"));
        if has_pkg {
            Some(ProjectType::JavaScript)
        } else if has_cargo {
            Some(ProjectType::Rust)
        } else {
            None
        }
    }

    /// Whether the hook directory holds at least one common git hook.
    fn any_hook(snap: &Snapshot, husky: &Vec<String>) -> (r: bool)
        ensures
            r == has_any_hook(snap@, path_view(*husky)),
    {
        let ghost hv = path_view(*husky);
        let r = snap.exists_at(&path_child(husky, "pre-commit")) || snap.exists_at(
            &path_child(husky, "commit-msg"),
        ) || snap.exists_at(&path_child(husky, "pre-push")) || snap.exists_at(
            &path_child(husky, "post-merge"),
        ) || snap.exists_at(&path_child(husky, "post-checkout"));
        proof {
            if r {
                assert(has_any_hook(snap@, hv)) by {
                    if spec_lookup(snap@, hv.push("pre-commit"@)) is Some {
                        assert(spec_lookup(snap@, hv.push(hook_names()[0])) is Some);
                    } else if spec_lookup(snap@, hv.push("commit-msg"@)) is Some {
                        assert(spec_lookup(snap@, hv.push(hook_names()[1])) is Some);
                    } else if spec_lookup(snap@, hv.push("pre-push"@)) is Some {
                        assert(spec_lookup(snap@, hv.push(hook_names()[2])) is Some);
                    } else if spec_lookup(snap@, hv.push("post-merge"@)) is Some {
                        assert(spec_lookup(snap@, hv.push(hook_names()[3])) is Some);
                    } else {
                        assert(spec_lookup(snap@, hv.push(hook_names()[4])) is Some);
                    }
                }
            } else {
                assert forall|i: int|
                    0 <= i < hook_names().len() implies !(spec_lookup(
                    snap@,
                    hv.push(#[trigger] hook_names()[i]),
                ) is Some) by {
                    if i == 0 {
                        assert(hook_names()[0] == "pre-commit"@);
                    } else if i == 1 {
                        assert(hook_names()[1] == "commit-msg"@);
                    } else if i == 2 {
                        assert(hook_names()[2] == "pre-push"@);
                    } else if i == 3 {
                        assert(hook_names()[3] == "post-merge"@);
                    } else {
                        assert(hook_names()[4] == "post-checkout"@);
                    }
                }
            }
        }
        r
    }

    /// The findings for one repository.
    #[verifier::rlimit(60)]
    fn check_repo(&self, snap: &Snapshot, repo: &Vec<String>, sev: Severity) -> (r: Vec<
        LintResult,
    >)
        ensures
            results_view(r) == spec_husky_check_repo(snap@, path_view(*repo), sev),
    {
        let ghost rp = path_view(*repo);
        let mut out: Vec<LintResult> = Vec::new();
        let ptype = Self::detect_project_type(snap, repo);
        match ptype {
            None => {
                assert(results_view(out) =~= spec_husky_check_repo(snap@, rp, sev));
                out
            },
            Some(t) => {
                let husky = path_child(repo, ".husky");
                if !snap.exists_at(&husky) {
                    let suggestion = match t {
                        ProjectType::JavaScript => "Run 'npx husky init' or 'pnpm exec husky init' to initialize Husky",
                        ProjectType::Rust => "Run 'cargo husky-rs init' to initialize husky-rs",
                    };
                    let message = match t {
                        ProjectType::JavaScript => "Missing .husky directory - Husky is not initialized",
                        ProjectType::Rust => "Missing .husky directory - husky-rs is not initialized",
                    };
                    out.push(
                        LintResult::new(
                            "husky-init",
                            "husky-dir-exists",
                            sev,
                            message.to_owned(),
                            path_clone(repo),
                            None,
                            Some(suggestion.to_owned()),
                            vec!["init-husky"],
                        ),
                    );
                    assert(results_view(out) =~~= spec_husky_check_repo(snap@, rp, sev));
                    return out;
                }
                match t {
                    ProjectType::JavaScript => {
                        let pkg = path_child(repo, "package.json");
                        match snap.lookup(&pkg) {
                            Some(FsNode::Text(c)) => {
                                match parse_json(c.as_str()) {
                                    Ok(doc) => {
                                        let ok = match doc.obj_get("scripts") {
                                            Some(scripts) => match scripts.obj_get_str(
                                                "prepare",
                                            ) {
                                                Some(v) => contains_str(v.as_str(), "husky"),
                                                None => false,
                                            },
                                            None => false,
                                        };
                                        if !ok {
                                            out.push(
                                                LintResult::new(
                                                    "husky-init",
                                                    "prepare-script",
                                                    sev,
                                                    "Missing 'prepare' script with Husky in package.json".to_owned(),
                                                    pkg,
                                                    None,
                                                    Some(
                                                        "Add '\"prepare\": \"husky\"' to scripts in package.json".to_owned(),
                                                    ),
                                                    vec![],
                                                ),
                                            );
                                        }
                                        assert(results_view(out) =~~= spec_prepare_findings(
                                            snap@,
                                            rp,
                                            sev,
                                        ));
                                    },
                                    Err(e) => {
                                        out.push(
                                            LintResult::new(
                                                "husky-init",
                                                "prepare-script",
                                                Severity::Error,
                                                str_concat(
                                                    "Invalid JSON in package.json: ",
                                                    e.as_str(),
                                                ),
                                                pkg,
                                                None,
                                                None,
                                                vec![],
                                            ),
                                        );
                                        assert(results_view(out) =~~= spec_prepare_findings(
                                            snap@,
                                            rp,
                                            sev,
                                        ));
                                    },
                                }
                            },
                            Some(FsNode::Unreadable(e)) => {
                                out.push(
                                    LintResult::new(
                                        "husky-init",
                                        "prepare-script",
                                        Severity::Error,
                                        str_concat("Cannot read package.json: ", e.as_str()),
                                        pkg,
                                        None,
                                        None,
                                        vec![],
                                    ),
                                );
                                assert(results_view(out) =~~= spec_prepare_findings(
                                    snap@,
                                    rp,
                                    sev,
                                ));
                            },
                            Some(_) => {
                                out.push(
                                    LintResult::new(
                                        "husky-init",
                                        "prepare-script",
                                        Severity::Error,
                                        "Cannot read package.json: the path is a directory".to_owned(),
                                        pkg,
                                        None,
                                        None,
                                        vec![],
                                    ),
                                );
                                assert(results_view(out) =~~= spec_prepare_findings(
                                    snap@,
                                    rp,
                                    sev,
                                ));
                            },
                            None => {
                                assert(results_view(out) =~= spec_prepare_findings(
                                    snap@,
                                    rp,
                                    sev,
                                ));
                            },
                        }
                    },
                    ProjectType::Rust => {
                        let cargo = path_child(repo, "Cargo.toml");
                        match snap.lookup(&cargo) {
                            Some(FsNode::Text(c)) => {
                                if !contains_str(c.as_str(), "husky-rs") {
                                    out.push(
                                        LintResult::new(
                                            "husky-init",
                                            "husky-rs-dependency",
                                            sev,
                                            "Missing husky-rs in dev-dependencies".to_owned(),
                                            cargo,
                                            None,
                                            Some(
                                                "Add 'husky-rs = \"<version>\"' to [dev-dependencies] in Cargo.toml".to_owned(),
                                            ),
                                            vec![],
                                        ),
                                    );
                                }
                                assert(results_view(out) =~~= spec_cargo_findings(
                                    snap@,
                                    rp,
                                    sev,
                                ));
                            },
                            Some(FsNode::Unreadable(e)) => {
                                out.push(
                                    LintResult::new(
                                        "husky-init",
                                        "husky-rs-dependency",
                                        Severity::Error,
                                        str_concat("Cannot read Cargo.toml: ", e.as_str()),
                                        cargo,
                                        None,
                                        None,
                                        vec![],
                                    ),
                                );
                                assert(results_view(out) =~~= spec_cargo_findings(
                                    snap@,
                                    rp,
                                    sev,
                                ));
                            },
                            Some(_) => {
                                out.push(
                                    LintResult::new(
                                        "husky-init",
                                        "husky-rs-dependency",
                                        Severity::Error,
                                        "Cannot read Cargo.toml: the path is a directory".to_owned(),
                                        cargo,
                                        None,
                                        None,
                                        vec![],
                                    ),
                                );
                                assert(results_view(out) =~~= spec_cargo_findings(
                                    snap@,
                                    rp,
                                    sev,
                                ));
                            },
                            None => {
                                assert(results_view(out) =~= spec_cargo_findings(snap@, rp, sev));
                            },
                        }
                    },
                }
                let ghost manifest_findings = results_view(out);
                if !Self::any_hook(snap, &husky) {
                    let suggestion = match t {
                        ProjectType::JavaScript => "Add hooks like 'npx husky add .husky/pre-commit \"npm test\"'",
                        ProjectType::Rust => "Add hooks using 'cargo husky-rs add pre-commit \"cargo test\"'",
                    };
                    out.push(
                        LintResult::new(
                            "husky-init",
                            "hooks-present",
                            Severity::Info,
                            "No git hooks found in .husky directory".to_owned(),
                            husky,
                            None,
                            Some(suggestion.to_owned()),
                            vec![],
                        ),
                    );
                }
                assert(results_view(out) =~~= manifest_findings + spec_hooks_findings(snap@, rp));
                assert(results_view(out) =~= spec_husky_check_repo(snap@, rp, sev));
                out
            },
        }
    }

    /// Execute all checks and return results: every git repository of the
    /// snapshot is checked, in snapshot order.
    #[verifier::loop_isolation(false)]
    pub fn check(&self, snap: &Snapshot, severity: Severity) -> (r: Vec<LintResult>)
        ensures
            results_view(r) == spec_husky_check(snap@, severity),
    {
        let repos = snap.find_git_repos();
        let ghost rv = crate::fsmodel::paths_view(repos);
        let mut out: Vec<LintResult> = Vec::new();
        let n = repos.len();
        let mut i: usize = 0;
        assert(rv.take(0) =~= Seq::<Seq<Seq<char>>>::empty());
        assert(results_view(out) =~= spec_husky_check_repos(snap@, rv.take(0), severity));
        while i < n
            invariant
                0 <= i <= n,
                results_view(out) == spec_husky_check_repos(snap@, rv.take(i as int), severity),
            decreases n - i,
        {
            proof {
                assert(rv.take(i + 1).drop_last() =~= rv.take(i as int));
                assert(rv.take(i + 1).last() == rv[i as int]);
            }
            let ghost pre = results_view(out);
            let mut one = self.check_repo(snap, &repos[i], severity);
            let ghost onev = results_view(one);
            out.append(&mut one);
            assert(results_view(out) =~= pre + onev);
            i += 1;
        }
        assert(rv.take(n as int) =~= rv);
        out
    }

    /// Apply all applicable fixes: the initialization commands for the caller
    /// to run, one per repository whose hook directory is missing.  Each one
    /// run successfully counts as one repair; this rule makes no file edits
    /// of its own.
    #[verifier::loop_isolation(false)]
    pub fn fix(&self, snap: &Snapshot) -> (r: Vec<CommandRequest>)
        ensures
            crate::fsmodel::cmds_view(r) == spec_husky_fix(snap@),
    {
        let repos = snap.find_git_repos();
        let ghost rv = crate::fsmodel::paths_view(repos);
        let mut out: Vec<CommandRequest> = Vec::new();
        let n = repos.len();
        let mut i: usize = 0;
        assert(rv.take(0) =~= Seq::<Seq<Seq<char>>>::empty());
        assert(crate::fsmodel::cmds_view(out) =~= spec_fix_repos_cmds(snap@, rv.take(0)));
        while i < n
            invariant
                0 <= i <= n,
                crate::fsmodel::cmds_view(out) == spec_fix_repos_cmds(snap@, rv.take(i as int)),
            decreases n - i,
        {
            proof {
                assert(rv.take(i + 1).drop_last() =~= rv.take(i as int));
                assert(rv.take(i + 1).last() == rv[i as int]);
            }
            let ghost pre = crate::fsmodel::cmds_view(out);
            let husky = path_child(&repos[i], ".husky");
            if !snap.exists_at(&husky) {
                match Self::detect_project_type(snap, &repos[i]) {
                    Some(ProjectType::JavaScript) => {
                        out.push(
                            CommandRequest {
                                program: "npx".to_owned(),
                                args: vec!["husky".to_owned(), "init".to_owned()],
                                dir: path_clone(&repos[i]),
                            },
                        );
                    },
                    Some(ProjectType::Rust) => {
                        out.push(
                            CommandRequest {
                                program: "cargo".to_owned(),
                                args: vec!["husky-rs".to_owned(), "init".to_owned()],
                                dir: path_clone(&repos[i]),
                            },
                        );
                    },
                    None => {},
                }
            }
            assert(crate::fsmodel::cmds_view(out) =~~= pre + spec_fix_repo_cmd(
                snap@,
                rv[i as int],
            ));
            i += 1;
        }
        assert(rv.take(n as int) =~= rv);
        out
    }

    /// The package manifest content with a "prepare": "husky" script added
    /// after the hook infrastructure was initialized, when the manifest
    /// parses to an object whose scripts object lacks one.
    pub fn prepare_update(&self, content: &str) -> (r: Option<String>)
        ensures
            match r {
                Some(s) => spec_prepare_update(content@) == Some(s@),
                None => spec_prepare_update(content@) is None,
            },
    {
        match parse_json(content) {
            Err(_) => None,
            Ok(doc) => {
                let ghost j0 = doc@;
                match doc {
                    Json::Obj(mut fields) => {
                        proof {
                            crate::json::lemma_obj_view(Json::Obj(fields)->Obj_0);
                        }
                        let ghost fs0 = fields_view(fields);
                        match find_field(&fields, "scripts") {
                            None => None,
                            Some(i) => {
                                proof {
                                    lemma_find_field(fs0, "scripts"@);
                                }
                                let mut taken = JsonField { key: String::new(), val: Json::Null };
                                fields.set_and_swap(i, &mut taken);
                                let ghost sv = fs0[i as int].val;
                                let JsonField { key: skey, val: sval } = taken;
                                assert(crate::json::json_view(sval) == sv);
                                match sval {
                                    Json::Obj(mut sfs) => {
                                        proof {
                                            crate::json::lemma_obj_view(Json::Obj(sfs)->Obj_0);
                                        }
                                        let ghost sfs0 = fields_view(sfs);
                                        assert(sv == JsonData::Obj(sfs0));
                                        if find_field(&sfs, "prepare").is_some() {
                                            proof {
                                                lemma_find_field(sfs0, "prepare"@);
                                            }
                                            return None;
                                        }
                                        proof {
                                            lemma_find_field(sfs0, "prepare"@);
                                        }
                                        let dep = JsonField {
                                            key: "prepare".to_owned(),
                                            val: Json::Str("husky".to_owned()),
                                        };
                                        assert(dep@ == (JField {
                                            key: "prepare"@,
                                            val: JsonData::Str("husky"@),
                                        }));
                                        sfs.push(dep);
                                        proof {
                                            crate::json::lemma_obj_view(sfs);
                                            assert(fields_view(sfs) =~~= sfs0.push(
                                                JField {
                                                    key: "prepare"@,
                                                    val: JsonData::Str("husky"@),
                                                },
                                            ));
                                        }
                                        let back = JsonField { key: skey, val: Json::Obj(sfs) };
                                        fields.set(i, back);
                                        let updated = Json::Obj(fields);
                                        proof {
                                            crate::json::lemma_obj_view(updated->Obj_0);
                                            assert(fields_view(updated->Obj_0)
                                                =~~= spec_parse_json(content@)->Some_0->Obj_0.update(
                                                i as int,
                                                JField {
                                                    key: fs0[i as int].key,
                                                    val: JsonData::Obj(
                                                        sfs0.push(
                                                            JField {
                                                                key: "prepare"@,
                                                                val: JsonData::Str("husky"@),
                                                            },
                                                        ),
                                                    ),
                                                },
                                            ));
                                        }
                                        Some(render_json(&updated))
                                    },
                                    _ => None,
                                }
                            },
                        }
                    },
                    _ => None,
                }
            },
        }
    }
}

} // verus!
