//! Rule: projects have spell checking configured: a cspell configuration
//! file, the cspell dependency, and a pre-commit hook that runs it.

use vstd::prelude::*;

use crate::fsmodel::{
    path_child, path_clone, path_parent, path_view, spec_lookup, spec_manifest_files, Act,
    FsAction, FsNode, SEntry, SNode, Snapshot,
};
use crate::json::{
    fields_view, find_field, json_within_depth, keys_unique, lemma_find_field, spec_find_field,
    spec_get, spec_get_fields, wf_json, JField, Json, JsonData, JsonField,
};
use crate::jsonio::{parse_json, render_json, spec_parse_json, spec_render_json};
use crate::text::{contains_seq, contains_str, spec_trim_end, str_concat, trim_end};
use crate::types::{
    checks_view, fixes_view, results_view, CheckEntry, CheckV, Finding, FixEntry, FixErr, FixV,
    LintResult, RInfo, RuleError, Severity,
};

verus! {

broadcast use vstd::std_specs::vec::group_vec_axioms;

/// Rule: ensure projects have cspell configured for spell checking.
pub struct CspellConfigRule;

/// The rule's identifier.
pub open spec fn cspell_rule_id() -> Seq<char> {
    "cspell-config"@
}

/// The checks this rule declares.
pub open spec fn spec_cspell_checks() -> Seq<CheckV> {
    seq![
        CheckV {
            id: "cspell-json-exists"@,
            description: "Verify cspell configuration file exists (cspell.json, cspell.yaml, etc.)"@,
        },
        CheckV { id: "cspell-dependency"@, description: "Verify cspell is in devDependencies"@ },
        CheckV {
            id: "cspell-pre-commit-hook"@,
            description: "Verify cspell check is in pre-commit hook"@,
        },
    ]
}

/// The fixes this rule declares, each with the checks it addresses.
pub open spec fn spec_cspell_fixes() -> Seq<FixV> {
    seq![
        FixV {
            id: "create-cspell-json"@,
            description: "Create a default cspell.json configuration file"@,
            addresses: seq!["cspell-json-exists"@],
        },
        FixV {
            id: "add-cspell-dependency"@,
            description: "Add cspell to devDependencies in package.json"@,
            addresses: seq!["cspell-dependency"@],
        },
        FixV {
            id: "add-cspell-pre-commit"@,
            description: "Add cspell check to pre-commit hook"@,
            addresses: seq!["cspell-pre-commit-hook"@],
        },
    ]
}

/// The rule's descriptive snapshot.
pub open spec fn spec_cspell_info() -> RInfo {
    RInfo {
        id: cspell_rule_id(),
        name: "CSpell Configuration"@,
        description: "Ensures projects have cspell configured for spell checking with appropriate dependencies and pre-commit hooks"@,
        default_severity: Severity::Warning.label(),
        can_fix: true,
        checks: spec_cspell_checks(),
        fixes: spec_cspell_fixes(),
    }
}

/// The spell-check command added to pre-commit hooks.
pub open spec fn spec_cspell_command() -> Seq<char> {
    "pnpm exec cspell --no-progress \"**/*.{ts,tsx,js,jsx,md,json}\""@
}

/// Whether a project directory holds any accepted cspell configuration file.
pub open spec fn has_cspell_config(es: Seq<SEntry>, dir: Seq<Seq<char>>) -> bool {
    ||| spec_lookup(es, dir.push("cspell.json"@)) is Some
    ||| spec_lookup(es, dir.push("cspell.yaml"@)) is Some
    ||| spec_lookup(es, dir.push("cspell.yml"@)) is Some
    ||| spec_lookup(es, dir.push("cspell.config.js"@)) is Some
    ||| spec_lookup(es, dir.push("cspell.config.cjs"@)) is Some
}

/// Whether a manifest document declares the cspell dependency, in its
/// development dependencies or its dependencies.
pub open spec fn has_cspell_dep(j: JsonData) -> bool {
    ||| (spec_get(j, "devDependencies"@) matches Some(JsonData::Obj(d)) && spec_get_fields(
        d,
        "cspell"@,
    ) is Some)
    ||| (spec_get(j, "dependencies"@) matches Some(JsonData::Obj(d)) && spec_get_fields(
        d,
        "cspell"@,
    ) is Some)
}

/// Whether a pre-commit hook runs a spell check.
pub open spec fn hook_runs_spellcheck(c: Seq<char>) -> bool {
    ||| contains_seq(c, "cspell"@)
    ||| contains_seq(c, "pnpm spell"@)
    ||| contains_seq(c, "npm run spell"@)
    ||| contains_seq(c, "yarn spell"@)
}

/// The finding for a missing cspell configuration file.
pub open spec fn spec_config_findings(es: Seq<SEntry>, p: Seq<Seq<char>>, sev: Severity) -> Seq<
    Finding,
> {
    if !has_cspell_config(es, p.drop_last()) {
        seq![
            Finding {
                rule_id: cspell_rule_id(),
                check_id: "cspell-json-exists"@,
                severity: sev.label(),
                message: "Missing cspell configuration file (cspell.json, cspell.yaml, or cspell.config.js)"@,
                path: p.drop_last(),
                line: None,
                fixable_by: seq!["create-cspell-json"@],
            },
        ]
    } else {
        Seq::empty()
    }
}

/// The findings about the cspell dependency: a manifest that cannot be read
/// or parsed is an error that no fix addresses.
pub open spec fn spec_dep_findings(es: Seq<SEntry>, p: Seq<Seq<char>>, sev: Severity) -> Seq<
    Finding,
> {
    match spec_lookup(es, p) {
        Some(SNode::Text(c)) => match spec_parse_json(c) {
            Some(j) => if !has_cspell_dep(j) {
                seq![
                    Finding {
                        rule_id: cspell_rule_id(),
                        check_id: "cspell-dependency"@,
                        severity: sev.label(),
                        message: "Missing cspell in devDependencies"@,
                        path: p,
                        line: None,
                        fixable_by: seq!["add-cspell-dependency"@],
                    },
                ]
            } else {
                Seq::empty()
            },
            None => seq![
                Finding {
                    rule_id: cspell_rule_id(),
                    check_id: "cspell-dependency"@,
                    severity: Severity::Error.label(),
                    message: "Invalid JSON in package.json: "@ + crate::jsonio::spec_parse_err(c),
                    path: p,
                    line: None,
                    fixable_by: Seq::empty(),
                },
            ],
        },
        Some(SNode::Unreadable(e)) => seq![
            Finding {
                rule_id: cspell_rule_id(),
                check_id: "cspell-dependency"@,
                severity: Severity::Error.label(),
                message: "Cannot read package.json: "@ + e,
                path: p,
                line: None,
                fixable_by: Seq::empty(),
            },
        ],
        Some(_) => seq![
            Finding {
                rule_id: cspell_rule_id(),
                check_id: "cspell-dependency"@,
                severity: Severity::Error.label(),
                message: "Cannot read package.json: the path is a directory"@,
                path: p,
                line: None,
                fixable_by: Seq::empty(),
            },
        ],
        None => seq![
            Finding {
                rule_id: cspell_rule_id(),
                check_id: "cspell-dependency"@,
                severity: Severity::Error.label(),
                message: "Cannot read package.json: no such file"@,
                path: p,
                line: None,
                fixable_by: Seq::empty(),
            },
        ],
    }
}

/// The findings about the pre-commit hook: an existing hook without a spell
/// check, or a hook directory with no hook at all, is reported; an unreadable
/// hook is an error.
pub open spec fn spec_precommit_findings(es: Seq<SEntry>, dir: Seq<Seq<char>>) -> Seq<Finding> {
    let husky = dir.push(".husky"@);
    let hp = husky.push("pre-commit"@);
    match spec_lookup(es, hp) {
        Some(SNode::Text(c)) => if !hook_runs_spellcheck(c) {
            seq![
                Finding {
                    rule_id: cspell_rule_id(),
                    check_id: "cspell-pre-commit-hook"@,
                    severity: Severity::Warning.label(),
                    message: "Pre-commit hook exists but does not include cspell check"@,
                    path: hp,
                    line: None,
                    fixable_by: seq!["add-cspell-pre-commit"@],
                },
            ]
        } else {
            Seq::empty()
        },
        Some(SNode::Unreadable(e)) => seq![
            Finding {
                rule_id: cspell_rule_id(),
                check_id: "cspell-pre-commit-hook"@,
                severity: Severity::Error.label(),
                message: "Cannot read pre-commit hook: "@ + e,
                path: hp,
                line: None,
                fixable_by: Seq::empty(),
            },
        ],
        Some(_) => seq![
            Finding {
                rule_id: cspell_rule_id(),
                check_id: "cspell-pre-commit-hook"@,
                severity: Severity::Error.label(),
                message: "Cannot read pre-commit hook: the path is a directory"@,
                path: hp,
                line: None,
                fixable_by: Seq::empty(),
            },
        ],
        None => if spec_lookup(es, husky) is Some {
            seq![
                Finding {
                    rule_id: cspell_rule_id(),
                    check_id: "cspell-pre-commit-hook"@,
                    severity: Severity::Warning.label(),
                    message: "Husky is configured but no pre-commit hook exists for cspell"@,
                    path: husky,
                    line: None,
                    fixable_by: seq!["add-cspell-pre-commit"@],
                },
            ]
        } else {
            Seq::empty()
        },
    }
}

/// The findings for one project.
pub open spec fn spec_check_project(es: Seq<SEntry>, p: Seq<Seq<char>>, sev: Severity) -> Seq<
    Finding,
> {
    spec_config_findings(es, p, sev) + spec_dep_findings(es, p, sev) + spec_precommit_findings(
        es,
        p.drop_last(),
    )
}

/// The findings for a list of projects, in order.
pub open spec fn spec_check_projects(
    es: Seq<SEntry>,
    ps: Seq<Seq<Seq<char>>>,
    sev: Severity,
) -> Seq<Finding>
    decreases ps.len(),
{
    if ps.len() == 0 {
        Seq::empty()
    } else {
        spec_check_projects(es, ps.drop_last(), sev) + spec_check_project(es, ps.last(), sev)
    }
}

/// Everything the rule's check reports on a snapshot.
pub open spec fn spec_cspell_check(es: Seq<SEntry>, sev: Severity) -> Seq<Finding> {
    spec_check_projects(es, spec_manifest_files(es), sev)
}

/// The canonical cspell configuration document.
pub open spec fn spec_cspell_default() -> JsonData {
    JsonData::Obj(
        seq![
            JField {
                key: "$schema"@,
                val: JsonData::Str(
                    "https://raw.githubusercontent.com/streetsidesoftware/cspell/main/cspell.schema.json"@,
                ),
            },
            JField { key: "version"@, val: JsonData::Str("0.2"@) },
            JField { key: "language"@, val: JsonData::Str("en"@) },
            JField { key: "words"@, val: JsonData::Arr(Seq::empty()) },
            JField {
                key: "ignorePaths"@,
                val: JsonData::Arr(
                    seq![
                        JsonData::Str("node_modules"@),
                        JsonData::Str("pnpm-lock.yaml"@),
                        JsonData::Str("package-lock.json"@),
                        JsonData::Str("yarn.lock"@),
                        JsonData::Str("dist"@),
                        JsonData::Str("build"@),
                        JsonData::Str("coverage"@),
                        JsonData::Str(".git"@),
                    ],
                ),
            },
        ],
    )
}

/// The manifest document with the cspell dependency added to its development
/// dependencies, when that section is missing or is an object; `None` when
/// the section exists but is not an object, in which case nothing is changed.
pub open spec fn spec_dep_added(j: JsonData) -> Option<JsonData>
    recommends
        j is Obj,
{
    let fs = j->Obj_0;
    let cs = JField { key: "cspell"@, val: JsonData::Str("^8.0.0"@) };
    match spec_find_field(fs, "devDependencies"@) {
        None => Some(
            JsonData::Obj(
                fs.push(JField { key: "devDependencies"@, val: JsonData::Obj(seq![cs]) }),
            ),
        ),
        Some(i) => match fs[i].val {
            JsonData::Obj(dfs) => Some(
                JsonData::Obj(
                    fs.update(i, JField { key: fs[i].key, val: JsonData::Obj(dfs.push(cs)) }),
                ),
            ),
            _ => None,
        },
    }
}

/// The text appended to an existing pre-commit hook.
pub open spec fn spec_appended_hook(c: Seq<char>) -> Seq<char> {
    spec_trim_end(c) + "\n\n# Spell check\n"@ + spec_cspell_command() + "\n"@
}

/// The text of a freshly created pre-commit hook.
pub open spec fn spec_new_hook() -> Seq<char> {
    "#!/usr/bin/env sh\n. \"$(dirname -- \"$0\")/_/husky.sh\"\n\n# Spell check\n"@
        + spec_cspell_command() + "\n"@
}

/// The repair that creates the cspell configuration file: nothing is written
/// when any accepted configuration variant already exists, so an already
/// compliant project gains no second copy.
pub open spec fn spec_fix_create(es: Seq<SEntry>, dir: Seq<Seq<char>>) -> Seq<Act> {
    if has_cspell_config(es, dir) {
        Seq::empty()
    } else {
        seq![
            Act::WriteFile {
                path: dir.push("cspell.json"@),
                content: spec_render_json(spec_cspell_default()),
            },
        ]
    }
}

/// The repair that adds the cspell dependency to the manifest.  An unreadable
/// manifest is an I/O failure; one that does not parse or is not an object is
/// a document failure.
pub open spec fn spec_fix_dep(es: Seq<SEntry>, p: Seq<Seq<char>>) -> Result<Seq<Act>, FixErr> {
    match spec_lookup(es, p) {
        Some(SNode::Text(c)) => match spec_parse_json(c) {
            None => Err(FixErr::Json),
            Some(j) => if has_cspell_dep(j) {
                Ok(Seq::empty())
            } else if !(j is Obj) {
                Err(FixErr::Json)
            } else {
                match spec_dep_added(j) {
                    Some(j2) => Ok(
                        seq![Act::WriteFile { path: p, content: spec_render_json(j2) }],
                    ),
                    None => Ok(Seq::empty()),
                }
            },
        },
        _ => Err(FixErr::Io),
    }
}

/// The repair that puts a spell check into the pre-commit hook: nothing
/// happens without a hook directory; an existing hook gains the command
/// unless it already runs cspell; a missing hook is created and marked
/// executable.
pub open spec fn spec_fix_precommit(es: Seq<SEntry>, dir: Seq<Seq<char>>) -> Result<
    Seq<Act>,
    FixErr,
> {
    let husky = dir.push(".husky"@);
    let hp = husky.push("pre-commit"@);
    if spec_lookup(es, husky) is None {
        Ok(Seq::empty())
    } else {
        match spec_lookup(es, hp) {
            Some(SNode::Text(c)) => if contains_seq(c, "cspell"@) {
                Ok(Seq::empty())
            } else {
                Ok(seq![Act::WriteFile { path: hp, content: spec_appended_hook(c) }])
            },
            Some(_) => Err(FixErr::Io),
            None => Ok(
                seq![
                    Act::WriteFile { path: hp, content: spec_new_hook() },
                    Act::SetExecutable { path: hp },
                ],
            ),
        }
    }
}

/// The repairs for one project, with the number of fixes applied (creating
/// the hook counts as one fix though it takes two steps).
pub open spec fn spec_fix_project(es: Seq<SEntry>, p: Seq<Seq<char>>) -> Result<
    (Seq<Act>, nat),
    FixErr,
> {
    let dir = p.drop_last();
    let created = spec_fix_create(es, dir);
    match spec_fix_dep(es, p) {
        Err(e) => Err(e),
        Ok(dep) => match spec_fix_precommit(es, dir) {
            Err(e) => Err(e),
            Ok(hook) => Ok(
                (
                    created + dep + hook,
                    (created.len() + dep.len() + (if hook.len() > 0 {
                        1nat
                    } else {
                        0nat
                    })) as nat,
                ),
            ),
        },
    }
}

/// The repairs for a list of projects, in order; the first failure ends the
/// run.
pub open spec fn spec_fix_projects(es: Seq<SEntry>, ps: Seq<Seq<Seq<char>>>) -> Result<
    (Seq<Act>, nat),
    FixErr,
>
    decreases ps.len(),
{
    if ps.len() == 0 {
        Ok((Seq::empty(), 0nat))
    } else {
        match spec_fix_projects(es, ps.drop_last()) {
            Err(e) => Err(e),
            Ok((acts, n)) => match spec_fix_project(es, ps.last()) {
                Err(e) => Err(e),
                Ok((acts2, m)) => Ok((acts + acts2, (n + m) as nat)),
            },
        }
    }
}

/// Everything the rule's fix does on a snapshot.
pub open spec fn spec_cspell_fix(es: Seq<SEntry>) -> Result<(Seq<Act>, nat), FixErr> {
    spec_fix_projects(es, spec_manifest_files(es))
}

/// A failure among the first `k` projects fails the whole run.
pub proof fn lemma_fix_projects_err_prefix(es: Seq<SEntry>, ps: Seq<Seq<Seq<char>>>, k: int)
    requires
        0 <= k <= ps.len(),
        spec_fix_projects(es, ps.take(k)) is Err,
    ensures
        spec_fix_projects(es, ps) == spec_fix_projects(es, ps.take(k)),
    decreases ps.len(),
{
    if k < ps.len() {
        assert(ps.drop_last() =~= ps.take(ps.len() - 1));
        assert(ps.take(ps.len() - 1).take(k) =~= ps.take(k));
        lemma_fix_projects_err_prefix(es, ps.take(ps.len() - 1), k);
    } else {
        assert(ps.take(k) =~= ps);
    }
}

/// The canonical cspell document is well formed and shallow.
pub proof fn lemma_cspell_default_wf()
    ensures
        wf_json(spec_cspell_default()),
        json_within_depth(spec_cspell_default(), 2),
{
    reveal_strlit("$schema");
    reveal_strlit("version");
    reveal_strlit("language");
    reveal_strlit("words");
    reveal_strlit("ignorePaths");
    assert("$schema"@.len() == 7 && "version"@.len() == 7 && "language"@.len() == 8
        && "words"@.len() == 5 && "ignorePaths"@.len() == 11);
    assert("$schema"@[0] == '$' && "version"@[0] == 'v');
    let d = spec_cspell_default();
    let fs = d->Obj_0;
    assert(keys_unique(fs));
    let words = fs[3].val;
    let ignore = fs[4].val;
    assert(wf_json(words)) by {
        assert(forall|i: int| 0 <= i < words->Arr_0.len() ==> wf_json(#[trigger] words->Arr_0[i]));
    }
    assert forall|i: int| 0 <= i < ignore->Arr_0.len() implies wf_json(
        #[trigger] ignore->Arr_0[i],
    ) by {
        assert(ignore->Arr_0[i] is Str);
    }
    assert(wf_json(ignore));
    assert forall|i: int| 0 <= i < fs.len() implies wf_json(#[trigger] fs[i].val) by {
        if i <= 2 {
            assert(fs[i].val is Str);
        } else if i == 3 {
            assert(wf_json(words));
        } else {
            assert(wf_json(ignore));
        }
    }
    assert(wf_json(d));
    assert(json_within_depth(words, 1)) by {
        assert(forall|i: int|
            0 <= i < words->Arr_0.len() ==> json_within_depth(#[trigger] words->Arr_0[i], 0));
    }
    assert forall|i: int| 0 <= i < ignore->Arr_0.len() implies json_within_depth(
        #[trigger] ignore->Arr_0[i],
        0,
    ) by {
        assert(ignore->Arr_0[i] is Str);
    }
    assert(json_within_depth(ignore, 1));
    assert forall|i: int| 0 <= i < fs.len() implies json_within_depth(#[trigger] fs[i].val, 1)
        by {
        if i <= 2 {
            assert(fs[i].val is Str);
        } else if i == 3 {
            assert(json_within_depth(words, 1));
        } else {
            assert(json_within_depth(ignore, 1));
        }
    }
    assert(json_within_depth(d, 2));
}

impl CspellConfigRule {
    pub fn new() -> (r: Self) {
        Self
    }

    pub fn id(&self) -> (r: &'static str)
        ensures
            r@ == cspell_rule_id(),
    {
        "cspell-config"
    }

    pub fn name(&self) -> (r: &'static str)
        ensures
            r@ == "CSpell Configuration"@,
    {
        "CSpell Configuration"
    }

    pub fn description(&self) -> (r: &'static str)
        ensures
            r@ == spec_cspell_info().description,
    {
        "Ensures projects have cspell configured for spell checking with appropriate dependencies and pre-commit hooks"
    }

    pub fn default_severity(&self) -> (r: Severity)
        ensures
            r == Severity::Warning,
    {
        Severity::Warning
    }

    /// The checks this rule performs.
    pub fn checks(&self) -> (r: Vec<CheckEntry>)
        ensures
            checks_view(r) == spec_cspell_checks(),
    {
        let mut r: Vec<CheckEntry> = Vec::new();
        r.push(CheckEntry::new(
            "cspell-json-exists",
            "Verify cspell configuration file exists (cspell.json, cspell.yaml, etc.)",
        ));
        r.push(CheckEntry::new("cspell-dependency", "Verify cspell is in devDependencies"));
        r.push(CheckEntry::new("cspell-pre-commit-hook", "Verify cspell check is in pre-commit hook"));
        assert(checks_view(r) =~~= spec_cspell_checks());
        r
    }

    /// The fixes this rule can apply, each addressing declared checks.
    pub fn fixes(&self) -> (r: Vec<FixEntry>)
        ensures
            fixes_view(r) == spec_cspell_fixes(),
    {
        let mut r: Vec<FixEntry> = Vec::new();
        r.push(FixEntry::new(
            "create-cspell-json",
            "Create a default cspell.json configuration file",
            vec!["cspell-json-exists"],
        ));
        r.push(FixEntry::new(
            "add-cspell-dependency",
            "Add cspell to devDependencies in package.json",
            vec!["cspell-dependency"],
        ));
        r.push(FixEntry::new(
            "add-cspell-pre-commit",
            "Add cspell check to pre-commit hook",
            vec!["cspell-pre-commit-hook"],
        ));
        assert(fixes_view(r) =~~= spec_cspell_fixes());
        r
    }

    pub fn can_fix(&self) -> (r: bool)
        ensures
            r == true,
    {
        true
    }

    /// Whether the manifest document declares the cspell dependency.
    fn doc_has_cspell_dep(doc: &Json) -> (r: bool)
        ensures
            r == has_cspell_dep(doc@),
    {
        let dev = match doc.obj_get("devDependencies") {
            Some(d) => match d.obj_get("cspell") {
                Some(_) => true,
                None => false,
            },
            None => false,
        };
        if dev {
            return true;
        }
        match doc.obj_get("dependencies") {
            Some(d) => match d.obj_get("cspell") {
                Some(_) => true,
                None => false,
            },
            None => false,
        }
    }

    /// The findings for one project.
    #[verifier::rlimit(60)]
    fn check_project(&self, snap: &Snapshot, p: &Vec<String>, sev: Severity) -> (r: Vec<
        LintResult,
    >)
        requires
            path_view(*p).len() > 0,
        ensures
            results_view(r) == spec_check_project(snap@, path_view(*p), sev),
    {
        let ghost pv = path_view(*p);
        let dir = path_parent(p);
        let mut out: Vec<LintResult> = Vec::new();
        let has_config = snap.exists_at(&path_child(&dir, "cspell.json")) || snap.exists_at(
            &path_child(&dir, "cspell.yaml"),
        ) || snap.exists_at(&path_child(&dir, "cspell.yml")) || snap.exists_at(
            &path_child(&dir, "cspell.config.js"),
        ) || snap.exists_at(&path_child(&dir, "cspell.config.cjs"));
        if !has_config {
            out.push(
                LintResult::new(
                    "cspell-config",
                    "cspell-json-exists",
                    sev,
                    "Missing cspell configuration file (cspell.json, cspell.yaml, or cspell.config.js)".to_owned(),
                    path_clone(&dir),
                    None,
                    Some("Create a cspell.json file to configure spell checking".to_owned()),
                    vec!["create-cspell-json"],
                ),
            );
        }
        assert(results_view(out) =~~= spec_config_findings(snap@, pv, sev));
        let ghost upto_config = results_view(out);
        match snap.lookup(p) {
            Some(FsNode::Text(c)) => {
                match parse_json(c.as_str()) {
                    Ok(doc) => {
                        if !Self::doc_has_cspell_dep(&doc) {
                            out.push(
                                LintResult::new(
                                    "cspell-config",
                                    "cspell-dependency",
                                    sev,
                                    "Missing cspell in devDependencies".to_owned(),
                                    path_clone(p),
                                    None,
                                    Some(
                                        "Add 'cspell' to devDependencies in package.json".to_owned(),
                                    ),
                                    vec!["add-cspell-dependency"],
                                ),
                            );
                        }
                    },
                    Err(e) => {
                        out.push(
                            LintResult::new(
                                "cspell-config",
                                "cspell-dependency",
                                Severity::Error,
                                str_concat("Invalid JSON in package.json: ", e.as_str()),
                                path_clone(p),
                                None,
                                Some("Fix JSON syntax errors".to_owned()),
                                vec![],
                            ),
                        );
                    },
                }
            },
            Some(FsNode::Unreadable(e)) => {
                out.push(
                    LintResult::new(
                        "cspell-config",
                        "cspell-dependency",
                        Severity::Error,
                        str_concat("Cannot read package.json: ", e.as_str()),
                        path_clone(p),
                        None,
                        None,
                        vec![],
                    ),
                );
            },
            Some(_) => {
                out.push(
                    LintResult::new(
                        "cspell-config",
                        "cspell-dependency",
                        Severity::Error,
                        "Cannot read package.json: the path is a directory".to_owned(),
                        path_clone(p),
                        None,
                        None,
                        vec![],
                    ),
                );
            },
            None => {
                out.push(
                    LintResult::new(
                        "cspell-config",
                        "cspell-dependency",
                        Severity::Error,
                        "Cannot read package.json: no such file".to_owned(),
                        path_clone(p),
                        None,
                        None,
                        vec![],
                    ),
                );
            },
        }
        assert(results_view(out) =~~= upto_config + spec_dep_findings(snap@, pv, sev));
        let ghost upto_dep = results_view(out);
        let husky = path_child(&dir, ".husky");
        let hp = path_child(&husky, "pre-commit");
        match snap.lookup(&hp) {
            Some(FsNode::Text(c)) => {
                let runs = contains_str(c.as_str(), "cspell") || contains_str(
                    c.as_str(),
                    "pnpm spell",
                ) || contains_str(c.as_str(), "npm run spell") || contains_str(
                    c.as_str(),
                    "yarn spell",
                );
                if !runs {
                    out.push(
                        LintResult::new(
                            "cspell-config",
                            "cspell-pre-commit-hook",
                            Severity::Warning,
                            "Pre-commit hook exists but does not include cspell check".to_owned(),
                            hp,
                            None,
                            Some(
                                "Add 'pnpm exec cspell --no-progress' or similar to pre-commit hook".to_owned(),
                            ),
                            vec!["add-cspell-pre-commit"],
                        ),
                    );
                }
            },
            Some(FsNode::Unreadable(e)) => {
                out.push(
                    LintResult::new(
                        "cspell-config",
                        "cspell-pre-commit-hook",
                        Severity::Error,
                        str_concat("Cannot read pre-commit hook: ", e.as_str()),
                        hp,
                        None,
                        None,
                        vec![],
                    ),
                );
            },
            Some(_) => {
                out.push(
                    LintResult::new(
                        "cspell-config",
                        "cspell-pre-commit-hook",
                        Severity::Error,
                        "Cannot read pre-commit hook: the path is a directory".to_owned(),
                        hp,
                        None,
                        None,
                        vec![],
                    ),
                );
            },
            None => {
                if snap.exists_at(&husky) {
                    out.push(
                        LintResult::new(
                            "cspell-config",
                            "cspell-pre-commit-hook",
                            Severity::Warning,
                            "Husky is configured but no pre-commit hook exists for cspell".to_owned(),
                            husky,
                            None,
                            Some("Create .husky/pre-commit with cspell check command".to_owned()),
                            vec!["add-cspell-pre-commit"],
                        ),
                    );
                }
            },
        }
        assert(results_view(out) =~~= upto_dep + spec_precommit_findings(snap@, pv.drop_last()));
        assert(results_view(out) =~= spec_check_project(snap@, pv, sev));
        out
    }

    /// Execute all checks and return results: every project of the snapshot
    /// outside dependency caches is checked, in snapshot order.
    #[verifier::loop_isolation(false)]
    pub fn check(&self, snap: &Snapshot, severity: Severity) -> (r: Vec<LintResult>)
        ensures
            results_view(r) == spec_cspell_check(snap@, severity),
    {
        let files = snap.find_manifest_files();
        let ghost fv = crate::fsmodel::paths_view(files);
        proof {
            crate::fsmodel::lemma_manifest_nonempty(snap@);
        }
        let mut out: Vec<LintResult> = Vec::new();
        let n = files.len();
        let mut i: usize = 0;
        assert(fv.take(0) =~= Seq::<Seq<Seq<char>>>::empty());
        assert(results_view(out) =~= spec_check_projects(snap@, fv.take(0), severity));
        while i < n
            invariant
                0 <= i <= n,
                results_view(out) == spec_check_projects(snap@, fv.take(i as int), severity),
            decreases n - i,
        {
            proof {
                assert(fv.take(i + 1).drop_last() =~= fv.take(i as int));
                assert(fv.take(i + 1).last() == fv[i as int]);
            }
            let ghost pre = results_view(out);
            let mut one = self.check_project(snap, &files[i], severity);
            let ghost onev = results_view(one);
            out.append(&mut one);
            assert(results_view(out) =~= pre + onev);
            i += 1;
        }
        assert(fv.take(n as int) =~= fv);
        out
    }

    /// The canonical cspell configuration as a document.
    fn cspell_default_doc() -> (r: Json)
        ensures
            r@ == spec_cspell_default(),
    {
        let ignore = vec![
            Json::Str("node_modules".to_owned()),
            Json::Str("pnpm-lock.yaml".to_owned()),
            Json::Str("package-lock.json".to_owned()),
            Json::Str("yarn.lock".to_owned()),
            Json::Str("dist".to_owned()),
            Json::Str("build".to_owned()),
            Json::Str("coverage".to_owned()),
            Json::Str(".git".to_owned()),
        ];
        proof {
            reveal_with_fuel(crate::json::json_view, 3);
        }
        let r = Json::Obj(
            vec![
                JsonField {
                    key: "$schema".to_owned(),
                    val: Json::Str(
                        "https://raw.githubusercontent.com/streetsidesoftware/cspell/main/cspell.schema.json".to_owned(),
                    ),
                },
                JsonField { key: "version".to_owned(), val: Json::Str("0.2".to_owned()) },
                JsonField { key: "language".to_owned(), val: Json::Str("en".to_owned()) },
                JsonField { key: "words".to_owned(), val: Json::Arr(Vec::new()) },
                JsonField { key: "ignorePaths".to_owned(), val: Json::Arr(ignore) },
            ],
        );
        proof {
            assert(r@->Obj_0[3].val->Arr_0 =~~= spec_cspell_default()->Obj_0[3].val->Arr_0);
            assert(r@->Obj_0[4].val->Arr_0 =~~= spec_cspell_default()->Obj_0[4].val->Arr_0);
            assert(r@->Obj_0 =~~= spec_cspell_default()->Obj_0);
        }
        r
    }

    /// The repair that creates the cspell configuration file.
    fn fix_create(&self, snap: &Snapshot, dir: &Vec<String>) -> (r: Vec<FsAction>)
        ensures
            crate::fsmodel::acts_view(r) == spec_fix_create(snap@, path_view(*dir)),
            r@.len() <= 1,
    {
        let target = path_child(dir, "cspell.json");
        let has_config = snap.exists_at(&target) || snap.exists_at(
            &path_child(dir, "cspell.yaml"),
        ) || snap.exists_at(&path_child(dir, "cspell.yml")) || snap.exists_at(
            &path_child(dir, "cspell.config.js"),
        ) || snap.exists_at(&path_child(dir, "cspell.config.cjs"));
        let mut acts: Vec<FsAction> = Vec::new();
        if !has_config {
            let doc = Self::cspell_default_doc();
            let content = render_json(&doc);
            acts.push(FsAction::WriteFile { path: target, content });
        }
        assert(crate::fsmodel::acts_view(acts) =~~= spec_fix_create(snap@, path_view(*dir)));
        acts
    }

    /// The repair that adds the cspell dependency to the manifest.
    fn fix_dep(&self, snap: &Snapshot, p: &Vec<String>) -> (r: Result<Vec<FsAction>, RuleError>)
        ensures
            match r {
                Ok(acts) => spec_fix_dep(snap@, path_view(*p)) == Ok::<_, FixErr>(
                    crate::fsmodel::acts_view(acts),
                ) && acts@.len() <= 1,
                Err(e) => spec_fix_dep(snap@, path_view(*p)) == Err::<Seq<Act>, _>(e@),
            },
    {
        let ghost pv = path_view(*p);
        match snap.lookup(p) {
            Some(FsNode::Text(c)) => {
                match parse_json(c.as_str()) {
                    Err(e) => Err(RuleError::Json(e)),
                    Ok(doc) => {
                        if Self::doc_has_cspell_dep(&doc) {
                            let acts: Vec<FsAction> = Vec::new();
                            assert(crate::fsmodel::acts_view(acts) =~= Seq::<Act>::empty());
                            return Ok(acts);
                        }
                        match doc {
                            Json::Obj(fields) => {
                                match Self::add_dep_field(Json::Obj(fields)) {
                                    Some(updated) => {
                                        let content = render_json(&updated);
                                        let acts = vec![
                                            FsAction::WriteFile { path: path_clone(p), content },
                                        ];
                                        assert(crate::fsmodel::acts_view(acts)
                                            =~~= spec_fix_dep(snap@, pv)->Ok_0);
                                        Ok(acts)
                                    },
                                    None => {
                                        let acts: Vec<FsAction> = Vec::new();
                                        assert(crate::fsmodel::acts_view(acts) =~= Seq::<
                                            Act,
                                        >::empty());
                                        Ok(acts)
                                    },
                                }
                            },
                            _ => Err(
                                RuleError::Json(
                                    "package.json document is not an object".to_owned(),
                                ),
                            ),
                        }
                    },
                }
            },
            Some(_) => Err(
                RuleError::Io("cannot read package.json: not a readable text file".to_owned()),
            ),
            None => Err(RuleError::Io("cannot read package.json: no such file".to_owned())),
        }
    }

    /// The manifest with the cspell dependency added, where its development
    /// dependencies are absent or an object.
    fn add_dep_field(doc: Json) -> (r: Option<Json>)
        requires
            doc@ is Obj,
        ensures
            match r {
                Some(j2) => spec_dep_added(doc@) == Some(j2@),
                None => spec_dep_added(doc@) is None,
            },
    {
        let ghost j0 = doc@;
        match doc {
            Json::Obj(mut fields) => {
                proof {
                    crate::json::lemma_obj_view(Json::Obj(fields)->Obj_0);
                }
                let ghost fs0 = fields_view(fields);
                proof {
                    reveal_strlit("cspell");
                    reveal_strlit("^8.0.0");
                }
                match find_field(&fields, "devDependencies") {
                    None => {
                        let dep = JsonField {
                            key: "cspell".to_owned(),
                            val: Json::Str("^8.0.0".to_owned()),
                        };
                        let section = Json::Obj(vec![dep]);
                        proof {
                            crate::json::lemma_obj_view(section->Obj_0);
                            assert(section@->Obj_0 =~~= seq![
                                JField { key: "cspell"@, val: JsonData::Str("^8.0.0"@) },
                            ]);
                        }
                        let pushed = JsonField { key: "devDependencies".to_owned(), val: section };
                        fields.push(pushed);
                        proof {
                            crate::json::lemma_obj_view(fields);
                            assert(fields_view(fields) =~~= spec_dep_added(j0)->Some_0->Obj_0);
                        }
                        Some(Json::Obj(fields))
                    },
                    Some(i) => {
                        proof {
                            lemma_find_field(fs0, "devDependencies"@);
                        }
                        let mut taken = JsonField { key: String::new(), val: Json::Null };
                        fields.set_and_swap(i, &mut taken);
                        let ghost dv = fs0[i as int].val;
                        let JsonField { key: dkey, val: dval } = taken;
                        assert(crate::json::json_view(dval) == dv);
                        match dval {
                            Json::Obj(mut dfs) => {
                                proof {
                                    crate::json::lemma_obj_view(Json::Obj(dfs)->Obj_0);
                                }
                                let ghost dfs0 = fields_view(dfs);
                                assert(dv == JsonData::Obj(dfs0));
                                let dep = JsonField {
                                    key: "cspell".to_owned(),
                                    val: Json::Str("^8.0.0".to_owned()),
                                };
                                assert(dep@ == (JField {
                                    key: "cspell"@,
                                    val: JsonData::Str("^8.0.0"@),
                                }));
                                dfs.push(dep);
                                proof {
                                    crate::json::lemma_obj_view(dfs);
                                    assert(fields_view(dfs) =~~= dfs0.push(
                                        JField { key: "cspell"@, val: JsonData::Str("^8.0.0"@) },
                                    ));
                                }
                                let back = JsonField { key: dkey, val: Json::Obj(dfs) };
                                fields.set(i, back);
                                proof {
                                    crate::json::lemma_obj_view(fields);
                                    assert(fields_view(fields) =~~= spec_dep_added(
                                        j0,
                                    )->Some_0->Obj_0);
                                }
                                Some(Json::Obj(fields))
                            },
                            other => {
                                let back = JsonField { key: dkey, val: other };
                                fields.set(i, back);
                                assert(spec_dep_added(j0) is None);
                                None
                            },
                        }
                    },
                }
            },
            _ => {
                proof {
                    assert(false);
                }
                None
            },
        }
    }

    /// The repair that puts a spell check into the pre-commit hook.
    fn fix_precommit(&self, snap: &Snapshot, dir: &Vec<String>) -> (r: Result<
        Vec<FsAction>,
        RuleError,
    >)
        ensures
            match r {
                Ok(acts) => spec_fix_precommit(snap@, path_view(*dir)) == Ok::<_, FixErr>(
                    crate::fsmodel::acts_view(acts),
                ) && acts@.len() <= 2,
                Err(e) => spec_fix_precommit(snap@, path_view(*dir)) == Err::<Seq<Act>, _>(e@),
            },
    {
        let ghost dv = path_view(*dir);
        let husky = path_child(dir, ".husky");
        let hp = path_child(&husky, "pre-commit");
        if !snap.exists_at(&husky) {
            let acts: Vec<FsAction> = Vec::new();
            assert(crate::fsmodel::acts_view(acts) =~= Seq::<Act>::empty());
            return Ok(acts);
        }
        match snap.lookup(&hp) {
            Some(FsNode::Text(c)) => {
                if contains_str(c.as_str(), "cspell") {
                    let acts: Vec<FsAction> = Vec::new();
                    assert(crate::fsmodel::acts_view(acts) =~= Seq::<Act>::empty());
                    Ok(acts)
                } else {
                    let body = str_concat(
                        str_concat(
                            str_concat(trim_end(c.as_str()), "\n\n# Spell check\n").as_str(),
                            "pnpm exec cspell --no-progress \"**/*.{ts,tsx,js,jsx,md,json}\"",
                        ).as_str(),
                        "\n",
                    );
                    assert(body@ == spec_appended_hook(c@));
                    let acts = vec![FsAction::WriteFile { path: hp, content: body }];
                    assert(crate::fsmodel::acts_view(acts) =~~= spec_fix_precommit(
                        snap@,
                        dv,
                    )->Ok_0);
                    Ok(acts)
                }
            },
            Some(_) => Err(
                RuleError::Io("cannot read pre-commit hook: not a readable text file".to_owned()),
            ),
            None => {
                let body = str_concat(
                    str_concat(
                        "#!/usr/bin/env sh\n. \"$(dirname -- \"$0\")/_/husky.sh\"\n\n# Spell check\n",
                        "pnpm exec cspell --no-progress \"**/*.{ts,tsx,js,jsx,md,json}\"",
                    ).as_str(),
                    "\n",
                );
                assert(body@ == spec_new_hook());
                let hp2 = path_clone(&hp);
                let acts = vec![
                    FsAction::WriteFile { path: hp, content: body },
                    FsAction::SetExecutable { path: hp2 },
                ];
                assert(crate::fsmodel::acts_view(acts) =~~= spec_fix_precommit(
                    snap@,
                    dv,
                )->Ok_0);
                Ok(acts)
            },
        }
    }

    /// The repairs for one project.
    fn fix_project(&self, snap: &Snapshot, p: &Vec<String>) -> (r: Result<
        (Vec<FsAction>, u32),
        RuleError,
    >)
        requires
            path_view(*p).len() > 0,
        ensures
            match r {
                Ok((acts, n)) => spec_fix_project(snap@, path_view(*p)) == Ok::<_, FixErr>(
                    (crate::fsmodel::acts_view(acts), n as nat),
                ) && n <= 3,
                Err(e) => spec_fix_project(snap@, path_view(*p)) == Err::<(Seq<Act>, nat), _>(e@),
            },
    {
        let ghost pv = path_view(*p);
        let dir = path_parent(p);
        let mut acts = self.fix_create(snap, &dir);
        let mut fixed: u32 = acts.len() as u32;
        let ghost created = crate::fsmodel::acts_view(acts);
        match self.fix_dep(snap, p) {
            Err(e) => Err(e),
            Ok(mut dep_acts) => {
                let dep_n = dep_acts.len() as u32;
                let ghost depv = crate::fsmodel::acts_view(dep_acts);
                acts.append(&mut dep_acts);
                fixed = fixed + dep_n;
                match self.fix_precommit(snap, &dir) {
                    Err(e) => Err(e),
                    Ok(mut hook_acts) => {
                        if hook_acts.len() > 0 {
                            fixed = fixed + 1;
                        }
                        let ghost hookv = crate::fsmodel::acts_view(hook_acts);
                        acts.append(&mut hook_acts);
                        assert(crate::fsmodel::acts_view(acts) =~= created + depv + hookv);
                        Ok((acts, fixed))
                    },
                }
            },
        }
    }

    /// Apply all applicable fixes, returning the count of repairs and the
    /// edits to make; the first failure ends the run.
    #[verifier::loop_isolation(false)]
    pub fn fix(&self, snap: &Snapshot) -> (r: Result<(Vec<FsAction>, u32), RuleError>)
        ensures
            match r {
                Ok((acts, n)) => spec_cspell_fix(snap@) matches Ok((sacts, cnt))
                    && crate::fsmodel::acts_view(acts) == sacts && n == crate::types::sat32(cnt),
                Err(e) => spec_cspell_fix(snap@) == Err::<(Seq<Act>, nat), _>(e@),
            },
    {
        let files = snap.find_manifest_files();
        let ghost fv = crate::fsmodel::paths_view(files);
        proof {
            crate::fsmodel::lemma_manifest_nonempty(snap@);
        }
        let mut out: Vec<FsAction> = Vec::new();
        let mut fixed: u32 = 0;
        let n = files.len();
        let mut i: usize = 0;
        assert(fv.take(0) =~= Seq::<Seq<Seq<char>>>::empty());
        assert(crate::fsmodel::acts_view(out) =~= Seq::<Act>::empty());
        while i < n
            invariant
                0 <= i <= n,
                spec_fix_projects(snap@, fv.take(i as int)) matches Ok((sacts, cnt))
                    && crate::fsmodel::acts_view(out) == sacts && fixed == crate::types::sat32(
                    cnt,
                ),
            decreases n - i,
        {
            proof {
                assert(fv.take(i + 1).drop_last() =~= fv.take(i as int));
                assert(fv.take(i + 1).last() == fv[i as int]);
            }
            let ghost pre = crate::fsmodel::acts_view(out);
            match self.fix_project(snap, &files[i]) {
                Ok((mut acts, m)) => {
                    let ghost av = crate::fsmodel::acts_view(acts);
                    out.append(&mut acts);
                    assert(crate::fsmodel::acts_view(out) =~= pre + av);
                    fixed = crate::types::sat_add_u32(fixed, m);
                },
                Err(e) => {
                    proof {
                        assert(spec_fix_projects(snap@, fv.take(i + 1)) == Err::<
                            (Seq<Act>, nat),
                            _,
                        >(e@));
                        lemma_fix_projects_err_prefix(snap@, fv, i + 1);
                        assert(fv.take(fv.len() as int) =~= fv);
                    }
                    return Err(e);
                },
            }
            i += 1;
        }
        assert(fv.take(n as int) =~= fv);
        Ok((out, fixed))
    }
}

} // verus!
