//! Rule: every git repository has a `.agent/settings.json` whose hook
//! configuration guards shell commands with the required matcher entry.

use vstd::prelude::*;

use crate::fsmodel::{
    path_child, path_clone, path_view, spec_git_repos, spec_lookup, Act, FsAction, FsNode, SEntry,
    SNode, Snapshot,
};
use crate::json::{
    arr_view, fields_view, find_field, json_view, json_within_depth, keys_unique,
    lemma_arr_view, lemma_find_field, lemma_obj_view, spec_find_field, spec_get, spec_get_fields,
    wf_json, JField, Json, JsonData, JsonField,
};
use crate::jsonio::{parse_json, render_json, spec_parse_json, spec_render_json};
use crate::text::{str_concat, str_eq};
use crate::types::{
    checks_view, fixes_view, results_view, CheckEntry, CheckV, Finding, FixEntry, FixErr, FixV,
    LintResult, RInfo, RuleError, Severity,
};

verus! {

broadcast use vstd::std_specs::vec::group_vec_axioms;

/// Rule: ensure all git repositories have .agent/settings.json with required
/// hooks.
pub struct AgentSettingsRule;

/// The rule's identifier.
pub open spec fn agent_rule_id() -> Seq<char> {
    "agent-settings-hooks"@
}

/// The checks this rule declares.
pub open spec fn spec_agent_checks() -> Seq<CheckV> {
    seq![
        CheckV {
            id: "agent-dir-exists"@,
            description: "Verify .agent directory exists in git repositories"@,
        },
        CheckV {
            id: "settings-file-exists"@,
            description: "Verify settings.json file exists in .agent directory"@,
        },
        CheckV {
            id: "hooks-object-exists"@,
            description: "Verify 'hooks' configuration object exists in settings.json"@,
        },
        CheckV {
            id: "pre-tool-use-exists"@,
            description: "Verify PreToolUse hook array is configured"@,
        },
        CheckV {
            id: "bash-matcher-exists"@,
            description: "Verify Bash matcher hook is present to prevent dangerous commands"@,
        },
    ]
}

/// The fixes this rule declares, each with the checks it addresses.
pub open spec fn spec_agent_fixes() -> Seq<FixV> {
    seq![
        FixV {
            id: "create-settings"@,
            description: "Create .agent/settings.json with default hooks configuration"@,
            addresses: seq!["agent-dir-exists"@, "settings-file-exists"@],
        },
        FixV {
            id: "merge-hooks"@,
            description: "Deep merge required hooks into existing settings.json"@,
            addresses: seq![
                "hooks-object-exists"@,
                "pre-tool-use-exists"@,
                "bash-matcher-exists"@,
            ],
        },
    ]
}

/// The rule's descriptive snapshot.
pub open spec fn spec_agent_info() -> RInfo {
    RInfo {
        id: agent_rule_id(),
        name: "Agent Settings Hooks"@,
        description: "Ensures all git repositories have .agent/settings.json with required hooks configuration"@,
        default_severity: Severity::Error.label(),
        can_fix: true,
        checks: spec_agent_checks(),
        fixes: spec_agent_fixes(),
    }
}

/// The hook-settings document of a repository.
pub open spec fn settings_path_of(repo: Seq<Seq<char>>) -> Seq<Seq<char>> {
    repo.push(".agent"@).push("settings.json"@)
}

/// The shell command the required hook runs.
pub open spec fn spec_hook_command() -> Seq<char> {
    "INPUT=$(cat); if echo \"$INPUT\" | grep -q 'git push' && echo \"$INPUT\" | grep -qE -- '--no-verify|-n[^a-z]'; then echo 'BLOCKED: --no-verify is not allowed on git push' >&2; exit 2; fi"@
}

/// The required hook entry: a "Bash" matcher whose hook runs the guarding
/// command.
pub open spec fn spec_bash_hook() -> JsonData {
    JsonData::Obj(
        seq![
            JField { key: "matcher"@, val: JsonData::Str("Bash"@) },
            JField {
                key: "hooks"@,
                val: JsonData::Arr(
                    seq![
                        JsonData::Obj(
                            seq![
                                JField { key: "type"@, val: JsonData::Str("command"@) },
                                JField { key: "command"@, val: JsonData::Str(spec_hook_command()) },
                            ],
                        ),
                    ],
                ),
            },
        ],
    )
}

/// The hook substructure that a settings document must contain.
pub open spec fn spec_hooks_payload() -> JsonData {
    JsonData::Obj(
        seq![
            JField { key: "PreToolUse"@, val: JsonData::Arr(seq![spec_bash_hook()]) },
        ],
    )
}

/// The canonical settings document written when none exists.
pub open spec fn spec_default_settings() -> JsonData {
    JsonData::Obj(seq![JField { key: "hooks"@, val: spec_hooks_payload() }])
}

/// Whether a hook entry bears the "Bash" matcher.
pub open spec fn is_bash_hook_entry(j: JsonData) -> bool {
    spec_get(j, "matcher"@) == Some(JsonData::Str("Bash"@))
}

/// Whether some entry of a hook list bears the "Bash" matcher.
pub open spec fn has_bash_hook(a: Seq<JsonData>) -> bool {
    exists|i: int| 0 <= i < a.len() && is_bash_hook_entry(a[i])
}

/// A settings document can be merged into when it is an object whose "hooks"
/// field, if present, is itself an object.
pub open spec fn mergeable(j: JsonData) -> bool {
    &&& j is Obj
    &&& match spec_get(j, "hooks"@) {
        Some(h) => h is Obj,
        None => true,
    }
}

/// The settings document with the required hook entry merged in, and whether
/// that changed it: the "hooks" object and its "PreToolUse" list are created
/// if missing, and the required entry is appended unless some entry already
/// bears the "Bash" matcher; everything else is left as it is.
pub open spec fn spec_merge_hooks(j: JsonData) -> (JsonData, bool)
    recommends
        mergeable(j),
{
    let fs = j->Obj_0;
    match spec_find_field(fs, "hooks"@) {
        None => (
            JsonData::Obj(fs.push(JField { key: "hooks"@, val: spec_hooks_payload() })),
            true,
        ),
        Some(i) => {
            let hf = fs[i].val->Obj_0;
            match spec_find_field(hf, "PreToolUse"@) {
                None => (
                    JsonData::Obj(
                        fs.update(
                            i,
                            JField {
                                key: fs[i].key,
                                val: JsonData::Obj(
                                    hf.push(
                                        JField {
                                            key: "PreToolUse"@,
                                            val: JsonData::Arr(seq![spec_bash_hook()]),
                                        },
                                    ),
                                ),
                            },
                        ),
                    ),
                    true,
                ),
                Some(t) => match hf[t].val {
                    JsonData::Arr(a) => if has_bash_hook(a) {
                        (j, false)
                    } else {
                        (
                            JsonData::Obj(
                                fs.update(
                                    i,
                                    JField {
                                        key: fs[i].key,
                                        val: JsonData::Obj(
                                            hf.update(
                                                t,
                                                JField {
                                                    key: hf[t].key,
                                                    val: JsonData::Arr(a.push(spec_bash_hook())),
                                                },
                                            ),
                                        ),
                                    },
                                ),
                            ),
                            true,
                        )
                    },
                    _ => (j, false),
                },
            }
        },
    }
}

/// A failure among the first `k` repositories fails the whole run.
pub proof fn lemma_fix_repos_err_prefix(es: Seq<SEntry>, repos: Seq<Seq<Seq<char>>>, k: int)
    requires
        0 <= k <= repos.len(),
        spec_fix_repos(es, repos.take(k)) is Err,
    ensures
        spec_fix_repos(es, repos) == spec_fix_repos(es, repos.take(k)),
    decreases repos.len(),
{
    if k < repos.len() {
        assert(repos.drop_last() =~= repos.take(repos.len() - 1));
        assert(repos.take(repos.len() - 1).take(k) =~= repos.take(k));
        lemma_fix_repos_err_prefix(es, repos.take(repos.len() - 1), k);
    } else {
        assert(repos.take(k) =~= repos);
    }
}

/// The canonical documents are well formed and nest only a few levels deep.
pub proof fn lemma_canonical_docs_wf()
    ensures
        wf_json(spec_bash_hook()),
        json_within_depth(spec_bash_hook(), 3),
        wf_json(spec_hooks_payload()),
        json_within_depth(spec_hooks_payload(), 5),
        wf_json(spec_default_settings()),
        json_within_depth(spec_default_settings(), 6),
{
    reveal_strlit("matcher");
    reveal_strlit("hooks");
    reveal_strlit("type");
    reveal_strlit("command");
    reveal_strlit("PreToolUse");
    assert("matcher"@.len() == 7 && "hooks"@.len() == 5 && "type"@.len() == 4 && "command"@.len()
        == 7 && "PreToolUse"@.len() == 10);
    let bh = spec_bash_hook();
    let fs = bh->Obj_0;
    let cmd_obj = fs[1].val->Arr_0[0];
    let cfs = cmd_obj->Obj_0;
    assert(keys_unique(cfs));
    assert forall|i: int| 0 <= i < cfs.len() implies wf_json(#[trigger] cfs[i].val) by {
        if i == 0 {
            assert(wf_json(cfs[0].val));
        } else {
            assert(wf_json(cfs[1].val));
        }
    }
    assert(wf_json(cmd_obj));
    assert forall|i: int| 0 <= i < cfs.len() implies json_within_depth(#[trigger] cfs[i].val, 0)
        by {
        if i == 0 {
            assert(json_within_depth(cfs[0].val, 0));
        } else {
            assert(json_within_depth(cfs[1].val, 0));
        }
    }
    assert(json_within_depth(cmd_obj, 1));
    let hl = fs[1].val;
    assert forall|i: int| 0 <= i < hl->Arr_0.len() implies wf_json(#[trigger] hl->Arr_0[i]) by {
        assert(hl->Arr_0[0] == cmd_obj);
    }
    assert(wf_json(hl));
    assert forall|i: int| 0 <= i < hl->Arr_0.len() implies json_within_depth(
        #[trigger] hl->Arr_0[i],
        1,
    ) by {
        assert(hl->Arr_0[0] == cmd_obj);
    }
    assert(json_within_depth(hl, 2));
    assert(keys_unique(fs));
    assert forall|i: int| 0 <= i < fs.len() implies wf_json(#[trigger] fs[i].val) by {
        if i == 0 {
            assert(wf_json(fs[0].val));
        } else {
            assert(fs[1].val == hl);
        }
    }
    assert(wf_json(bh));
    assert forall|i: int| 0 <= i < fs.len() implies json_within_depth(#[trigger] fs[i].val, 2)
        by {
        if i == 0 {
            assert(json_within_depth(fs[0].val, 2));
        } else {
            assert(fs[1].val == hl);
        }
    }
    assert(json_within_depth(bh, 3));
    let pl = spec_hooks_payload();
    let pfs = pl->Obj_0;
    let parr = pfs[0].val;
    assert forall|i: int| 0 <= i < parr->Arr_0.len() implies wf_json(#[trigger] parr->Arr_0[i])
        by {
        assert(parr->Arr_0[0] == bh);
    }
    assert(wf_json(parr));
    assert forall|i: int| 0 <= i < parr->Arr_0.len() implies json_within_depth(
        #[trigger] parr->Arr_0[i],
        3,
    ) by {
        assert(parr->Arr_0[0] == bh);
    }
    assert(json_within_depth(parr, 4));
    assert(keys_unique(pfs));
    assert forall|i: int| 0 <= i < pfs.len() implies wf_json(#[trigger] pfs[i].val) by {
        assert(pfs[0].val == parr);
    }
    assert(wf_json(pl));
    assert forall|i: int| 0 <= i < pfs.len() implies json_within_depth(#[trigger] pfs[i].val, 4)
        by {
        assert(pfs[0].val == parr);
    }
    assert(json_within_depth(pl, 5));
    let ds = spec_default_settings();
    let dfs = ds->Obj_0;
    assert(keys_unique(dfs));
    assert forall|i: int| 0 <= i < dfs.len() implies wf_json(#[trigger] dfs[i].val) by {
        assert(dfs[0].val == pl);
    }
    assert(wf_json(ds));
    assert forall|i: int| 0 <= i < dfs.len() implies json_within_depth(#[trigger] dfs[i].val, 5)
        by {
        assert(dfs[0].val == pl);
    }
    assert(json_within_depth(ds, 6));
}

/// The findings for one parsed settings document.
pub open spec fn spec_check_doc(j: JsonData, file: Seq<Seq<char>>, sev: Severity) -> Seq<Finding> {
    match spec_get(j, "hooks"@) {
        None => seq![
            Finding {
                rule_id: agent_rule_id(),
                check_id: "hooks-object-exists"@,
                severity: Severity::Error.label(),
                message: "Missing 'hooks' configuration object"@,
                path: file,
                line: None,
                fixable_by: seq!["merge-hooks"@],
            },
        ],
        Some(h) => match spec_get(h, "PreToolUse"@) {
            None => seq![
                Finding {
                    rule_id: agent_rule_id(),
                    check_id: "pre-tool-use-exists"@,
                    severity: Severity::Warning.label(),
                    message: "Missing PreToolUse hook configuration"@,
                    path: file,
                    line: None,
                    fixable_by: seq!["merge-hooks"@],
                },
            ],
            Some(JsonData::Arr(a)) => if has_bash_hook(a) {
                Seq::empty()
            } else {
                seq![
                    Finding {
                        rule_id: agent_rule_id(),
                        check_id: "bash-matcher-exists"@,
                        severity: Severity::Warning.label(),
                        message: "PreToolUse hooks missing Bash matcher"@,
                        path: file,
                        line: None,
                        fixable_by: seq!["merge-hooks"@],
                    },
                ]
            },
            Some(_) => Seq::empty(),
        },
    }
}

/// The findings for one repository: a missing `.agent` directory or settings
/// file is reported with the rule's effective severity; an unreadable or
/// unparseable settings file is an error that no fix addresses; otherwise the
/// document's hook configuration is checked.
pub open spec fn spec_check_repo(es: Seq<SEntry>, repo: Seq<Seq<char>>, sev: Severity) -> Seq<
    Finding,
> {
    let agent_dir = repo.push(".agent"@);
    let settings = settings_path_of(repo);
    if spec_lookup(es, agent_dir) is None {
        seq![
            Finding {
                rule_id: agent_rule_id(),
                check_id: "agent-dir-exists"@,
                severity: sev.label(),
                message: "Missing .agent directory in git repository"@,
                path: repo,
                line: None,
                fixable_by: seq!["create-settings"@],
            },
        ]
    } else if spec_lookup(es, settings) is None {
        seq![
            Finding {
                rule_id: agent_rule_id(),
                check_id: "settings-file-exists"@,
                severity: sev.label(),
                message: "Missing settings.json in .agent directory"@,
                path: agent_dir,
                line: None,
                fixable_by: seq!["create-settings"@],
            },
        ]
    } else {
        match spec_lookup(es, settings) {
            Some(SNode::Text(c)) => match spec_parse_json(c) {
                Some(j) => spec_check_doc(j, settings, sev),
                None => seq![
                    Finding {
                        rule_id: agent_rule_id(),
                        check_id: "settings-file-exists"@,
                        severity: Severity::Error.label(),
                        message: "Invalid JSON: "@ + crate::jsonio::spec_parse_err(c),
                        path: settings,
                        line: None,
                        fixable_by: Seq::empty(),
                    },
                ],
            },
            Some(SNode::Unreadable(e)) => seq![
                Finding {
                    rule_id: agent_rule_id(),
                    check_id: "settings-file-exists"@,
                    severity: Severity::Error.label(),
                    message: "Cannot read file: "@ + e,
                    path: settings,
                    line: None,
                    fixable_by: Seq::empty(),
                },
            ],
            _ => seq![
                Finding {
                    rule_id: agent_rule_id(),
                    check_id: "settings-file-exists"@,
                    severity: Severity::Error.label(),
                    message: "Cannot read file: the path is a directory"@,
                    path: settings,
                    line: None,
                    fixable_by: Seq::empty(),
                },
            ],
        }
    }
}

/// The findings for a list of repositories, in order.
pub open spec fn spec_check_repos(
    es: Seq<SEntry>,
    repos: Seq<Seq<Seq<char>>>,
    sev: Severity,
) -> Seq<Finding>
    decreases repos.len(),
{
    if repos.len() == 0 {
        Seq::empty()
    } else {
        spec_check_repos(es, repos.drop_last(), sev) + spec_check_repo(es, repos.last(), sev)
    }
}

/// Everything the rule's check reports on a snapshot.
pub open spec fn spec_agent_check(es: Seq<SEntry>, sev: Severity) -> Seq<Finding> {
    spec_check_repos(es, spec_git_repos(es), sev)
}

/// The repairs for one repository: a missing settings file is created with
/// the canonical document; an existing one has the required hook merged in
/// and is rewritten only when the merge changed it.  A settings file that
/// cannot be read is an I/O failure; one that does not parse, or whose
/// top level or "hooks" field is not an object, is a document failure.
pub open spec fn spec_fix_repo(es: Seq<SEntry>, repo: Seq<Seq<char>>) -> Result<
    (Seq<Act>, nat),
    FixErr,
> {
    let settings = settings_path_of(repo);
    match spec_lookup(es, settings) {
        None => Ok(
            (
                seq![
                    Act::WriteFile {
                        path: settings,
                        content: spec_render_json(spec_default_settings()),
                    },
                ],
                1nat,
            ),
        ),
        Some(SNode::Text(c)) => match spec_parse_json(c) {
            None => Err(FixErr::Json),
            Some(j) => if !mergeable(j) {
                Err(FixErr::Json)
            } else {
                let (j2, changed) = spec_merge_hooks(j);
                if changed {
                    Ok(
                        (
                            seq![
                                Act::WriteFile { path: settings, content: spec_render_json(j2) },
                            ],
                            1nat,
                        ),
                    )
                } else {
                    Ok((Seq::empty(), 0nat))
                }
            },
        },
        Some(_) => Err(FixErr::Io),
    }
}

/// The repairs for a list of repositories, in order; the first failure ends
/// the run.
pub open spec fn spec_fix_repos(es: Seq<SEntry>, repos: Seq<Seq<Seq<char>>>) -> Result<
    (Seq<Act>, nat),
    FixErr,
>
    decreases repos.len(),
{
    if repos.len() == 0 {
        Ok((Seq::empty(), 0nat))
    } else {
        match spec_fix_repos(es, repos.drop_last()) {
            Err(e) => Err(e),
            Ok((acts, n)) => match spec_fix_repo(es, repos.last()) {
                Err(e) => Err(e),
                Ok((acts2, m)) => Ok((acts + acts2, (n + m) as nat)),
            },
        }
    }
}

/// Everything the rule's fix does on a snapshot.
pub open spec fn spec_agent_fix(es: Seq<SEntry>) -> Result<(Seq<Act>, nat), FixErr> {
    spec_fix_repos(es, spec_git_repos(es))
}

impl AgentSettingsRule {
    pub fn new() -> (r: Self) {
        Self
    }

    pub fn id(&self) -> (r: &'static str)
        ensures
            r@ == agent_rule_id(),
    {
        "agent-settings-hooks"
    }

    pub fn name(&self) -> (r: &'static str)
        ensures
            r@ == "Agent Settings Hooks"@,
    {
        "Agent Settings Hooks"
    }

    pub fn description(&self) -> (r: &'static str)
        ensures
            r@ == spec_agent_info().description,
    {
        "Ensures all git repositories have .agent/settings.json with required hooks configuration"
    }

    pub fn default_severity(&self) -> (r: Severity)
        ensures
            r == Severity::Error,
    {
        Severity::Error
    }

    /// The checks this rule performs.
    pub fn checks(&self) -> (r: Vec<CheckEntry>)
        ensures
            checks_view(r) == spec_agent_checks(),
    {
        let mut r: Vec<CheckEntry> = Vec::new();
        r.push(CheckEntry::new("agent-dir-exists", "Verify .agent directory exists in git repositories"));
        r.push(CheckEntry::new("settings-file-exists", "Verify settings.json file exists in .agent directory"));
        r.push(CheckEntry::new("hooks-object-exists", "Verify 'hooks' configuration object exists in settings.json"));
        r.push(CheckEntry::new("pre-tool-use-exists", "Verify PreToolUse hook array is configured"));
        r.push(CheckEntry::new("bash-matcher-exists", "Verify Bash matcher hook is present to prevent dangerous commands"));
        assert(checks_view(r) =~~= spec_agent_checks());
        r
    }

    /// The fixes this rule can apply, each addressing declared checks.
    pub fn fixes(&self) -> (r: Vec<FixEntry>)
        ensures
            fixes_view(r) == spec_agent_fixes(),
    {
        let mut r: Vec<FixEntry> = Vec::new();
        r.push(FixEntry::new(
            "create-settings",
            "Create .agent/settings.json with default hooks configuration",
            vec!["agent-dir-exists", "settings-file-exists"],
        ));
        r.push(FixEntry::new(
            "merge-hooks",
            "Deep merge required hooks into existing settings.json",
            vec!["hooks-object-exists", "pre-tool-use-exists", "bash-matcher-exists"],
        ));
        assert(fixes_view(r) =~~= spec_agent_fixes());
        r
    }

    pub fn can_fix(&self) -> (r: bool)
        ensures
            r == true,
    {
        true
    }

    /// The required hook entry as a document.
    fn required_bash_hook() -> (r: Json)
        ensures
            r@ == spec_bash_hook(),
            wf_json(r@),
            json_within_depth(r@, 3),
    {
        let inner = Json::Obj(
            vec![
                JsonField { key: "type".to_owned(), val: Json::Str("command".to_owned()) },
                JsonField {
                    key: "command".to_owned(),
                    val: Json::Str(
                        "INPUT=$(cat); if echo \"$INPUT\" | grep -q 'git push' && echo \"$INPUT\" | grep -qE -- '--no-verify|-n[^a-z]'; then echo 'BLOCKED: --no-verify is not allowed on git push' >&2; exit 2; fi".to_owned(),
                    ),
                },
            ],
        );
        proof {
            reveal_strlit("type");
            reveal_strlit("command");
            assert("type"@.len() == 4 && "command"@.len() == 7);
            reveal_with_fuel(crate::json::json_view, 6);
            assert(inner@->Obj_0 =~~= spec_bash_hook()->Obj_0[1].val->Arr_0[0]->Obj_0);
        }
        let r = Json::Obj(
            vec![
                JsonField { key: "matcher".to_owned(), val: Json::Str("Bash".to_owned()) },
                JsonField { key: "hooks".to_owned(), val: Json::Arr(vec![inner]) },
            ],
        );
        proof {
            reveal_strlit("matcher");
            reveal_strlit("hooks");
            assert("matcher"@.len() == 7 && "hooks"@.len() == 5);
            reveal_with_fuel(crate::json::json_view, 6);
            assert(r@->Obj_0[1].val->Arr_0 =~~= spec_bash_hook()->Obj_0[1].val->Arr_0);
            assert(r@->Obj_0 =~~= spec_bash_hook()->Obj_0);
            lemma_canonical_docs_wf();
        }
        r
    }

    /// The canonical settings document.
    fn default_settings_doc() -> (r: Json)
        ensures
            r@ == spec_default_settings(),
            wf_json(r@),
            json_within_depth(r@, 6),
    {
        let hook = Self::required_bash_hook();
        let r = Json::Obj(
            vec![
                JsonField {
                    key: "hooks".to_owned(),
                    val: Json::Obj(
                        vec![
                            JsonField {
                                key: "PreToolUse".to_owned(),
                                val: Json::Arr(vec![hook]),
                            },
                        ],
                    ),
                },
            ],
        );
        proof {
            reveal_strlit("PreToolUse");
            reveal_with_fuel(crate::json::json_view, 6);
            assert(r@->Obj_0[0].val->Obj_0[0].val->Arr_0 =~~= spec_hooks_payload()->Obj_0[0].val->Arr_0);
            assert(r@->Obj_0[0].val->Obj_0 =~~= spec_hooks_payload()->Obj_0);
            assert(r@->Obj_0 =~~= spec_default_settings()->Obj_0);
            lemma_canonical_docs_wf();
        }
        r
    }

    /// Generate the default settings content.
    pub fn default_settings_content(&self) -> (r: String)
        ensures
            r@ == spec_render_json(spec_default_settings()),
            spec_parse_json(r@) == Some(spec_default_settings()),
    {
        let doc = Self::default_settings_doc();
        proof {
            crate::json::lemma_depth_monotone(doc@, 6, 127);
        }
        render_json(&doc)
    }

    /// Whether some entry of a hook list bears the "Bash" matcher.
    #[verifier::loop_isolation(false)]
    fn arr_has_bash(a: &Vec<Json>) -> (r: bool)
        ensures
            r == has_bash_hook(arr_view(*a)),
    {
        let n = a.len();
        let mut i: usize = 0;
        while i < n
            invariant
                0 <= i <= n,
                forall|t: int| 0 <= t < i ==> !is_bash_hook_entry(arr_view(*a)[t]),
            decreases n - i,
        {
            match a[i].obj_get_str("matcher") {
                Some(s) => {
                    if str_eq(s.as_str(), "Bash") {
                        assert(is_bash_hook_entry(arr_view(*a)[i as int]));
                        return true;
                    }
                    assert(!is_bash_hook_entry(arr_view(*a)[i as int]));
                },
                None => {
                    assert(!is_bash_hook_entry(arr_view(*a)[i as int]));
                },
            }
            i += 1;
        }
        false
    }

    /// Deep merge the required hook into existing settings; returns true if
    /// changes were made.
    pub fn deep_merge_hooks(&self, existing: &mut Json) -> (changed: bool)
        requires
            mergeable(old(existing)@),
        ensures
            final(existing)@ == spec_merge_hooks(old(existing)@).0,
            changed == spec_merge_hooks(old(existing)@).1,
    {
        let ghost j0 = existing@;
        let mut doc = Json::Null;
        core::mem::swap(existing, &mut doc);
        match doc {
            Json::Obj(mut fields) => {
                proof {
                    lemma_obj_view(Json::Obj(fields)->Obj_0);
                }
                let ghost fs0 = fields_view(fields);
                assert(j0 == JsonData::Obj(fs0));
                match find_field(&fields, "hooks") {
                    None => {
                        fields.push(
                            JsonField { key: "hooks".to_owned(), val: Self::hooks_payload_doc() },
                        );
                        proof {
                            lemma_obj_view(fields);
                            assert(fields_view(fields) =~~= fs0.push(
                                JField { key: "hooks"@, val: spec_hooks_payload() },
                            ));
                        }
                        *existing = Json::Obj(fields);
                        true
                    },
                    Some(i) => {
                        proof {
                            lemma_find_field(fs0, "hooks"@);
                        }
                        let mut taken = JsonField { key: String::new(), val: Json::Null };
                        fields.set_and_swap(i, &mut taken);
                        let ghost hv = fs0[i as int].val;
                        let JsonField { key: hkey, val: hval } = taken;
                        assert(json_view(hval) == hv);
                        match hval {
                            Json::Obj(mut hf) => {
                                proof {
                                    lemma_obj_view(Json::Obj(hf)->Obj_0);
                                }
                                let ghost hf0 = fields_view(hf);
                                assert(hv == JsonData::Obj(hf0));
                                match find_field(&hf, "PreToolUse") {
                                    None => {
                                        let arr0 = vec![Self::required_bash_hook()];
                                        proof {
                                            lemma_arr_view(arr0);
                                            assert(arr_view(arr0) =~= seq![spec_bash_hook()]);
                                        }
                                        let pushed = JsonField {
                                            key: "PreToolUse".to_owned(),
                                            val: Json::Arr(arr0),
                                        };
                                        assert(pushed@ == (JField {
                                            key: "PreToolUse"@,
                                            val: JsonData::Arr(seq![spec_bash_hook()]),
                                        }));
                                        hf.push(pushed);
                                        proof {
                                            lemma_obj_view(hf);
                                            assert(fields_view(hf) =~= hf0.push(
                                                JField {
                                                    key: "PreToolUse"@,
                                                    val: JsonData::Arr(seq![spec_bash_hook()]),
                                                },
                                            ));
                                        }
                                        let merged = JsonField { key: hkey, val: Json::Obj(hf) };
                                        assert(merged@ == (JField {
                                            key: fs0[i as int].key,
                                            val: spec_merge_hooks(j0).0->Obj_0[i as int].val,
                                        }));
                                        fields.set(i, merged);
                                        proof {
                                            lemma_obj_view(fields);
                                            assert(fields_view(fields) =~~= spec_merge_hooks(
                                                j0,
                                            ).0->Obj_0);
                                        }
                                        *existing = Json::Obj(fields);
                                        true
                                    },
                                    Some(t) => {
                                        proof {
                                            lemma_find_field(hf0, "PreToolUse"@);
                                        }
                                        let mut taken2 = JsonField {
                                            key: String::new(),
                                            val: Json::Null,
                                        };
                                        hf.set_and_swap(t, &mut taken2);
                                        let ghost pv = hf0[t as int].val;
                                        let JsonField { key: pkey, val: pval } = taken2;
                                        assert(json_view(pval) == pv);
                                        match pval {
                                            Json::Arr(mut arr) => {
                                                proof {
                                                    lemma_arr_view(Json::Arr(arr)->Arr_0);
                                                }
                                                let ghost a0 = arr_view(arr);
                                                assert(pv == JsonData::Arr(a0));
                                                let had = Self::arr_has_bash(&arr);
                                                if !had {
                                                    arr.push(Self::required_bash_hook());
                                                    proof {
                                                        lemma_arr_view(arr);
                                                        assert(arr_view(arr) =~= a0.push(
                                                            spec_bash_hook(),
                                                        ));
                                                    }
                                                }
                                                let back = JsonField {
                                                    key: pkey,
                                                    val: Json::Arr(arr),
                                                };
                                                hf.set(t, back);
                                                let merged = JsonField {
                                                    key: hkey,
                                                    val: Json::Obj(hf),
                                                };
                                                fields.set(i, merged);
                                                proof {
                                                    lemma_obj_view(hf);
                                                    lemma_obj_view(fields);
                                                    if had {
                                                        assert(fields_view(hf) =~~= hf0);
                                                        assert(fields_view(fields) =~~= fs0);
                                                        assert(json_view(Json::Obj(fields))
                                                            =~~= j0);
                                                    } else {
                                                        assert(arr_view(arr) =~~= a0.push(
                                                            spec_bash_hook(),
                                                        ));
                                                        assert(fields_view(hf) =~~= hf0.update(
                                                            t as int,
                                                            JField {
                                                                key: hf0[t as int].key,
                                                                val: JsonData::Arr(
                                                                    a0.push(spec_bash_hook()),
                                                                ),
                                                            },
                                                        ));
                                                        assert(fields_view(fields)
                                                            =~~= spec_merge_hooks(j0).0->Obj_0);
                                                    }
                                                }
                                                *existing = Json::Obj(fields);
                                                !had
                                            },
                                            other => {
                                                let back = JsonField { key: pkey, val: other };
                                                hf.set(t, back);
                                                let merged = JsonField {
                                                    key: hkey,
                                                    val: Json::Obj(hf),
                                                };
                                                fields.set(i, merged);
                                                proof {
                                                    lemma_obj_view(hf);
                                                    lemma_obj_view(fields);
                                                    assert(fields_view(hf) =~~= hf0);
                                                    assert(fields_view(fields) =~~= fs0);
                                                    assert(json_view(Json::Obj(fields)) =~~= j0);
                                                }
                                                *existing = Json::Obj(fields);
                                                false
                                            },
                                        }
                                    },
                                }
                            },
                            _ => {
                                proof {
                                    assert(spec_get_fields(fs0, "hooks"@) == Some(hv));
                                    assert(false);
                                }
                                false
                            },
                        }
                    },
                }
            },
            _ => {
                proof {
                    assert(false);
                }
                false
            },
        }
    }

    /// The findings for one repository.
    fn check_repo(&self, snap: &Snapshot, repo: &Vec<String>, sev: Severity) -> (r: Vec<
        LintResult,
    >)
        ensures
            results_view(r) == spec_check_repo(snap@, path_view(*repo), sev),
    {
        let ghost rp = path_view(*repo);
        let agent_dir = path_child(repo, ".agent");
        let settings = path_child(&agent_dir, "settings.json");
        assert(path_view(settings) == settings_path_of(rp));
        let mut out: Vec<LintResult> = Vec::new();
        if !snap.exists_at(&agent_dir) {
            out.push(
                LintResult::new(
                    "agent-settings-hooks",
                    "agent-dir-exists",
                    sev,
                    "Missing .agent directory in git repository".to_owned(),
                    path_clone(repo),
                    None,
                    Some(
                        "Create .agent/settings.json with required hooks configuration".to_owned(),
                    ),
                    vec!["create-settings"],
                ),
            );
            assert(results_view(out) =~~= spec_check_repo(snap@, rp, sev));
            return out;
        }
        match snap.lookup(&settings) {
            None => {
                out.push(
                    LintResult::new(
                        "agent-settings-hooks",
                        "settings-file-exists",
                        sev,
                        "Missing settings.json in .agent directory".to_owned(),
                        agent_dir,
                        None,
                        Some("Create settings.json with required hooks configuration".to_owned()),
                        vec!["create-settings"],
                    ),
                );
                assert(results_view(out) =~~= spec_check_repo(snap@, rp, sev));
            },
            Some(FsNode::Text(c)) => {
                match parse_json(c.as_str()) {
                    Ok(doc) => {
                        match doc.obj_get("hooks") {
                            None => {
                                out.push(
                                    LintResult::new(
                                        "agent-settings-hooks",
                                        "hooks-object-exists",
                                        Severity::Error,
                                        "Missing 'hooks' configuration object".to_owned(),
                                        settings,
                                        None,
                                        Some(
                                            "Add 'hooks' object with required hook configurations".to_owned(),
                                        ),
                                        vec!["merge-hooks"],
                                    ),
                                );
                                assert(results_view(out) =~~= spec_check_repo(snap@, rp, sev));
                            },
                            Some(hooks) => {
                                match hooks.obj_get("PreToolUse") {
                                    None => {
                                        out.push(
                                            LintResult::new(
                                                "agent-settings-hooks",
                                                "pre-tool-use-exists",
                                                Severity::Warning,
                                                "Missing PreToolUse hook configuration".to_owned(),
                                                settings,
                                                None,
                                                Some(
                                                    "Add PreToolUse hooks to validate tool usage".to_owned(),
                                                ),
                                                vec!["merge-hooks"],
                                            ),
                                        );
                                        assert(results_view(out) =~~= spec_check_repo(
                                            snap@,
                                            rp,
                                            sev,
                                        ));
                                    },
                                    Some(Json::Arr(a)) => {
                                        proof {
                                            lemma_arr_view(*a);
                                        }
                                        if !Self::arr_has_bash(a) {
                                            out.push(
                                                LintResult::new(
                                                    "agent-settings-hooks",
                                                    "bash-matcher-exists",
                                                    Severity::Warning,
                                                    "PreToolUse hooks missing Bash matcher".to_owned(),
                                                    settings,
                                                    None,
                                                    Some(
                                                        "Add a Bash matcher hook to prevent dangerous commands".to_owned(),
                                                    ),
                                                    vec!["merge-hooks"],
                                                ),
                                            );
                                        }
                                        assert(results_view(out) =~~= spec_check_repo(
                                            snap@,
                                            rp,
                                            sev,
                                        ));
                                    },
                                    Some(other) => {
                                        proof {
                                            let got = spec_get(doc@, "hooks"@)->Some_0;
                                            let pt = spec_get(got, "PreToolUse"@)->Some_0;
                                            assert(pt == other@);
                                            assert(!(pt is Arr));
                                        }
                                        assert(results_view(out) =~~= spec_check_repo(
                                            snap@,
                                            rp,
                                            sev,
                                        ));
                                    },
                                }
                            },
                        }
                    },
                    Err(e) => {
                        out.push(
                            LintResult::new(
                                "agent-settings-hooks",
                                "settings-file-exists",
                                Severity::Error,
                                str_concat("Invalid JSON: ", e.as_str()),
                                settings,
                                None,
                                Some("Fix JSON syntax errors".to_owned()),
                                vec![],
                            ),
                        );
                        assert(results_view(out) =~~= spec_check_repo(snap@, rp, sev));
                    },
                }
            },
            Some(FsNode::Unreadable(e)) => {
                out.push(
                    LintResult::new(
                        "agent-settings-hooks",
                        "settings-file-exists",
                        Severity::Error,
                        str_concat("Cannot read file: ", e.as_str()),
                        settings,
                        None,
                        None,
                        vec![],
                    ),
                );
                assert(results_view(out) =~~= spec_check_repo(snap@, rp, sev));
            },
            Some(_) => {
                out.push(
                    LintResult::new(
                        "agent-settings-hooks",
                        "settings-file-exists",
                        Severity::Error,
                        "Cannot read file: the path is a directory".to_owned(),
                        settings,
                        None,
                        None,
                        vec![],
                    ),
                );
                assert(results_view(out) =~~= spec_check_repo(snap@, rp, sev));
            },
        }
        out
    }

    /// Execute all checks and return results: every git repository of the
    /// snapshot is checked, in snapshot order.
    #[verifier::loop_isolation(false)]
    pub fn check(&self, snap: &Snapshot, severity: Severity) -> (r: Vec<LintResult>)
        ensures
            results_view(r) == spec_agent_check(snap@, severity),
    {
        let repos = snap.find_git_repos();
        let ghost rv = crate::fsmodel::paths_view(repos);
        let mut out: Vec<LintResult> = Vec::new();
        let n = repos.len();
        let mut i: usize = 0;
        assert(rv.take(0) =~= Seq::<Seq<Seq<char>>>::empty());
        assert(results_view(out) =~= spec_check_repos(snap@, rv.take(0), severity));
        while i < n
            invariant
                0 <= i <= n,
                results_view(out) == spec_check_repos(snap@, rv.take(i as int), severity),
            decreases n - i,
        {
            proof {
                assert(rv.take(i + 1).drop_last() =~= rv.take(i as int));
                assert(rv.take(i + 1).last() == rv[i as int]);
            }
            let ghost pre = results_view(out);
            let mut one = self.check_repo(snap, &repos[i], severity);
            let ghost onev = results_view(one);
            out.append(&mut one);
            assert(results_view(out) =~= pre + onev);
            i += 1;
        }
        assert(rv.take(n as int) =~= rv);
        out
    }

    /// The repair for one repository: at most one file write.
    fn fix_repo(&self, snap: &Snapshot, repo: &Vec<String>) -> (r: Result<
        Vec<FsAction>,
        RuleError,
    >)
        ensures
            match r {
                Ok(acts) => spec_fix_repo(snap@, path_view(*repo)) == Ok::<_, FixErr>(
                    (crate::fsmodel::acts_view(acts), acts@.len() as nat),
                ) && acts@.len() <= 1,
                Err(e) => spec_fix_repo(snap@, path_view(*repo)) == Err::<(Seq<Act>, nat), _>(e@),
            },
    {
        let ghost rp = path_view(*repo);
        let agent_dir = path_child(repo, ".agent");
        let settings = path_child(&agent_dir, "settings.json");
        assert(path_view(settings) == settings_path_of(rp));
        match snap.lookup(&settings) {
            None => {
                let content = self.default_settings_content();
                let acts = vec![FsAction::WriteFile { path: settings, content }];
                assert(crate::fsmodel::acts_view(acts) =~~= spec_fix_repo(
                    snap@,
                    rp,
                )->Ok_0.0);
                Ok(acts)
            },
            Some(FsNode::Text(c)) => {
                match parse_json(c.as_str()) {
                    Err(e) => Err(RuleError::Json(e)),
                    Ok(mut doc) => {
                        let can_merge = match &doc {
                            Json::Obj(_) => match doc.obj_get("hooks") {
                                Some(Json::Obj(_)) => true,
                                Some(_) => false,
                                None => true,
                            },
                            _ => false,
                        };
                        if !can_merge {
                            assert(!mergeable(doc@));
                            return Err(
                                RuleError::Json(
                                    "settings document cannot be merged: it is not an object with an object-valued 'hooks' field".to_owned(),
                                ),
                            );
                        }
                        assert(mergeable(doc@));
                        let ghost j0 = doc@;
                        let changed = self.deep_merge_hooks(&mut doc);
                        if changed {
                            let content = render_json(&doc);
                            let acts = vec![FsAction::WriteFile { path: settings, content }];
                            assert(crate::fsmodel::acts_view(acts) =~~= spec_fix_repo(
                                snap@,
                                rp,
                            )->Ok_0.0);
                            Ok(acts)
                        } else {
                            let acts: Vec<FsAction> = Vec::new();
                            assert(crate::fsmodel::acts_view(acts) =~= Seq::<Act>::empty());
                            Ok(acts)
                        }
                    },
                }
            },
            Some(_) => Err(RuleError::Io("cannot read file: not a readable text file".to_owned())),
        }
    }

    /// Apply all applicable fixes, returning the count of repairs and the
    /// edits to make; the first failure ends the run.
    #[verifier::loop_isolation(false)]
    pub fn fix(&self, snap: &Snapshot) -> (r: Result<(Vec<FsAction>, u32), RuleError>)
        ensures
            match r {
                Ok((acts, n)) => spec_agent_fix(snap@) matches Ok((sacts, cnt))
                    && crate::fsmodel::acts_view(acts) == sacts && n == crate::types::sat32(cnt),
                Err(e) => spec_agent_fix(snap@) == Err::<(Seq<Act>, nat), _>(e@),
            },
    {
        let repos = snap.find_git_repos();
        let ghost rv = crate::fsmodel::paths_view(repos);
        let mut out: Vec<FsAction> = Vec::new();
        let mut fixed: u32 = 0;
        let n = repos.len();
        let mut i: usize = 0;
        assert(rv.take(0) =~= Seq::<Seq<Seq<char>>>::empty());
        assert(crate::fsmodel::acts_view(out) =~= Seq::<Act>::empty());
        while i < n
            invariant
                0 <= i <= n,
                spec_fix_repos(snap@, rv.take(i as int)) matches Ok((sacts, cnt))
                    && crate::fsmodel::acts_view(out) == sacts && fixed == crate::types::sat32(
                    cnt,
                ),
            decreases n - i,
        {
            proof {
                assert(rv.take(i + 1).drop_last() =~= rv.take(i as int));
                assert(rv.take(i + 1).last() == rv[i as int]);
            }
            let ghost pre = crate::fsmodel::acts_view(out);
            match self.fix_repo(snap, &repos[i]) {
                Ok(mut acts) => {
                    let m = acts.len();
                    let ghost av = crate::fsmodel::acts_view(acts);
                    out.append(&mut acts);
                    assert(crate::fsmodel::acts_view(out) =~= pre + av);
                    fixed = crate::types::sat_add_u32(fixed, m as u32);
                },
                Err(e) => {
                    proof {
                        assert(spec_fix_repos(snap@, rv.take(i + 1)) == Err::<(Seq<Act>, nat), _>(
                            e@,
                        ));
                        lemma_fix_repos_err_prefix(snap@, rv, i + 1);
                        assert(rv.take(rv.len() as int) =~= rv);
                    }
                    return Err(e);
                },
            }
            i += 1;
        }
        assert(rv.take(n as int) =~= rv);
        Ok((out, fixed))
    }

    /// The hook substructure as a document.
    fn hooks_payload_doc() -> (r: Json)
        ensures
            r@ == spec_hooks_payload(),
            wf_json(r@),
            json_within_depth(r@, 5),
    {
        let hook = Self::required_bash_hook();
        let r = Json::Obj(
            vec![
                JsonField { key: "PreToolUse".to_owned(), val: Json::Arr(vec![hook]) },
            ],
        );
        proof {
            reveal_strlit("PreToolUse");
            reveal_with_fuel(crate::json::json_view, 6);
            assert(r@->Obj_0[0].val->Arr_0 =~~= spec_hooks_payload()->Obj_0[0].val->Arr_0);
            assert(r@->Obj_0 =~~= spec_hooks_payload()->Obj_0);
            lemma_canonical_docs_wf();
        }
        r
    }
}

} // verus!
