//! The rule execution engine: a fixed, ordered registry of rules, driven
//! over a snapshot with a configuration that can disable a rule or override
//! its severity.

use vstd::prelude::*;

use crate::agent_settings::{spec_agent_check, spec_agent_fix, AgentSettingsRule};
use crate::cspell_config::{spec_cspell_check, spec_cspell_fix, CspellConfigRule};
use crate::eslint_config_agent::{spec_eslint_check, spec_eslint_fix, EslintConfigAgentRule};
use crate::fsmodel::{
    acts_view, cmds_view, spec_apply, Act, Cmd, CommandRequest, FsAction, SEntry, Snapshot,
};
use crate::husky_init::{spec_husky_check, spec_husky_fix, HuskyInitRule};
use crate::json::{spec_get_fields, JField, Json, JsonData, JsonField};
use crate::jsonio::{parse_json, spec_parse_json};
use crate::pnpm_usage::{spec_pnpm_check, spec_pnpm_fix, PnpmUsageRule};
use crate::types::{
    results_view, spec_config_of, CEntry, Config, ConfigEntry, Finding, FixErr, LintReport,
    LintResult, RuleConfig, RuleError, RuleInfo, Severity,
};

verus! {

broadcast use vstd::std_specs::vec::group_vec_axioms;

/// Error type for engine operations.
#[derive(Debug)]
pub enum EngineError {
    /// The scan root does not exist; the offending path is carried along.
    PathNotFound(String),
    /// A filesystem-level failure, with its message.
    Io(String),
}

impl EngineError {
    /// The error rendered as a message.
    pub fn message(&self) -> (r: String)
        ensures
            match self {
                EngineError::PathNotFound(p) => r@ == "Path does not exist: "@ + p@,
                EngineError::Io(m) => r@ == "IO error: "@ + m@,
            },
    {
        match self {
            EngineError::PathNotFound(p) => crate::text::str_concat(
                "Path does not exist: ",
                p.as_str(),
            ),
            EngineError::Io(m) => crate::text::str_concat("IO error: ", m.as_str()),
        }
    }
}

/// The number of built-in rules.
pub open spec fn rule_count() -> int {
    5
}

/// The rule identifiers, in registration order: the hook-settings rule runs
/// before the spell-check rule that assumes hook infrastructure exists.
pub open spec fn rule_id_at(idx: int) -> Seq<char> {
    if idx == 0 {
        crate::agent_settings::agent_rule_id()
    } else if idx == 1 {
        crate::eslint_config_agent::eslint_rule_id()
    } else if idx == 2 {
        crate::husky_init::husky_rule_id()
    } else if idx == 3 {
        crate::cspell_config::cspell_rule_id()
    } else {
        crate::pnpm_usage::pnpm_rule_id()
    }
}

/// The default severity of the rule at `idx`.
pub open spec fn rule_default_severity(idx: int) -> Severity {
    if idx == 0 {
        Severity::Error
    } else if idx == 1 {
        Severity::Error
    } else if idx == 2 {
        Severity::Warning
    } else if idx == 3 {
        Severity::Warning
    } else {
        Severity::Error
    }
}

/// Whether the rule at `idx` is enabled: rules are enabled unless configured
/// otherwise.
pub open spec fn spec_enabled(cs: Seq<CEntry>, idx: int) -> bool {
    match spec_config_of(cs, rule_id_at(idx)) {
        Some(e) => e.enabled,
        None => true,
    }
}

/// The effective severity of the rule at `idx`: its default unless
/// overridden.
pub open spec fn spec_effective_severity(cs: Seq<CEntry>, idx: int) -> Severity {
    match spec_config_of(cs, rule_id_at(idx)) {
        Some(e) => match e.severity {
            Some(s) => s,
            None => rule_default_severity(idx),
        },
        None => rule_default_severity(idx),
    }
}

/// The findings of the rule at `idx`, or nothing when it is disabled.
pub open spec fn spec_rule_check(es: Seq<SEntry>, cs: Seq<CEntry>, idx: int) -> Seq<Finding> {
    if !spec_enabled(cs, idx) {
        Seq::empty()
    } else {
        let sev = spec_effective_severity(cs, idx);
        if idx == 0 {
            spec_agent_check(es, sev)
        } else if idx == 1 {
            spec_eslint_check(es, sev)
        } else if idx == 2 {
            spec_husky_check(es, sev)
        } else if idx == 3 {
            spec_cspell_check(es, sev)
        } else {
            spec_pnpm_check(es, sev)
        }
    }
}

/// The findings of the first `n` rules, in registry order.
pub open spec fn spec_run_checks(es: Seq<SEntry>, cs: Seq<CEntry>, n: int) -> Seq<Finding>
    decreases n,
{
    if n <= 0 {
        Seq::empty()
    } else {
        spec_run_checks(es, cs, n - 1) + spec_rule_check(es, cs, n - 1)
    }
}

/// Everything a check-only run reports.
pub open spec fn spec_engine_check(es: Seq<SEntry>, cs: Seq<CEntry>) -> Seq<Finding> {
    spec_run_checks(es, cs, rule_count())
}

/// The repairs of the rule at `idx`: the edits, the commands for the caller
/// to run, and the count of edit repairs; nothing when the rule is disabled.
pub open spec fn spec_rule_fix(es: Seq<SEntry>, cs: Seq<CEntry>, idx: int) -> Result<
    (Seq<Cmd>, Seq<Act>, nat),
    FixErr,
> {
    if !spec_enabled(cs, idx) {
        Ok((Seq::empty(), Seq::empty(), 0nat))
    } else if idx == 0 {
        match spec_agent_fix(es) {
            Ok((acts, n)) => Ok((Seq::empty(), acts, n)),
            Err(e) => Err(e),
        }
    } else if idx == 1 {
        spec_eslint_fix(es)
    } else if idx == 2 {
        Ok((spec_husky_fix(es), Seq::empty(), 0nat))
    } else if idx == 3 {
        match spec_cspell_fix(es) {
            Ok((acts, n)) => Ok((Seq::empty(), acts, n)),
            Err(e) => Err(e),
        }
    } else {
        match spec_pnpm_fix(es) {
            Ok((acts, n)) => Ok((Seq::empty(), acts, n)),
            Err(e) => Err(e),
        }
    }
}

/// One run step in fix mode: the rule's findings on the current snapshot,
/// its repairs, and the snapshot with the edits applied.
pub open spec fn spec_fix_step(es: Seq<SEntry>, cs: Seq<CEntry>, idx: int) -> Result<
    (Seq<Finding>, Seq<Cmd>, Seq<Act>, nat, Seq<SEntry>),
    FixErr,
> {
    let findings = spec_rule_check(es, cs, idx);
    match spec_rule_fix(es, cs, idx) {
        Err(e) => Err(e),
        Ok((cmds, acts, n)) => Ok((findings, cmds, acts, n, spec_apply(es, acts))),
    }
}

/// A fix-mode run over the first `n` rules, in registry order: each rule
/// checks the snapshot as the previous rules' edits left it, and the edits
/// land before the next rule runs.  The commands are collected for the
/// caller; their effects are not part of the snapshot.
pub open spec fn spec_run_fix(es: Seq<SEntry>, cs: Seq<CEntry>, n: int) -> Result<
    (Seq<Finding>, Seq<Cmd>, Seq<Act>, nat, Seq<SEntry>),
    FixErr,
>
    decreases n,
{
    if n <= 0 {
        Ok((Seq::empty(), Seq::empty(), Seq::empty(), 0nat, es))
    } else {
        match spec_run_fix(es, cs, n - 1) {
            Err(e) => Err(e),
            Ok((fs, cmds, acts, cnt, es1)) => match spec_fix_step(es1, cs, n - 1) {
                Err(e) => Err(e),
                Ok((fs2, cmds2, acts2, cnt2, es2)) => Ok(
                    (fs + fs2, cmds + cmds2, acts + acts2, (cnt + cnt2) as nat, es2),
                ),
            },
        }
    }
}

/// A failure among the first `k` rules fails the whole run.
pub proof fn lemma_run_fix_err(es: Seq<SEntry>, cs: Seq<CEntry>, k: int, n: int)
    requires
        0 <= k <= n,
        spec_run_fix(es, cs, k) is Err,
    ensures
        spec_run_fix(es, cs, n) == spec_run_fix(es, cs, k),
    decreases n,
{
    if n > k {
        lemma_run_fix_err(es, cs, k, n - 1);
    }
}

/// The repairs of one rule in a fix-mode run.
pub struct FixPlan {
    /// Commands for the caller to run, in order; each successful one counts
    /// as a further repair, and a failing one fails the whole run.
    pub commands: Vec<CommandRequest>,
    /// The edits to apply, in order.
    pub actions: Vec<FsAction>,
    /// How many repairs the edits amount to.
    pub fixed: u32,
}

/// Rule execution engine: holds the configuration and drives the built-in
/// rules in registration order.
pub struct Runner {
    pub config: Config,
}

impl Runner {
    pub fn new(config: Config) -> (r: Self)
        ensures
            r.config == config,
    {
        Self { config }
    }

    /// The number of built-in rules.
    pub fn rule_count(&self) -> (r: usize)
        ensures
            r == rule_count(),
    {
        5
    }

    /// The identifier of the rule at `idx`.
    fn rule_id_of(&self, idx: usize) -> (r: &'static str)
        requires
            idx < rule_count(),
        ensures
            r@ == rule_id_at(idx as int),
    {
        if idx == 0 {
            AgentSettingsRule::new().id()
        } else if idx == 1 {
            EslintConfigAgentRule::new().id()
        } else if idx == 2 {
            HuskyInitRule::new().id()
        } else if idx == 3 {
            CspellConfigRule::new().id()
        } else {
            PnpmUsageRule::new().id()
        }
    }

    /// Whether the rule at `idx` is enabled, and its effective severity.
    fn rule_settings(&self, idx: usize) -> (r: (bool, Severity))
        requires
            idx < rule_count(),
        ensures
            r.0 == spec_enabled(self.config@, idx as int),
            r.1 == spec_effective_severity(self.config@, idx as int),
    {
        let id = self.rule_id_of(idx);
        let default_sev = if idx == 0 {
            Severity::Error
        } else if idx == 1 {
            Severity::Error
        } else if idx == 2 {
            Severity::Warning
        } else if idx == 3 {
            Severity::Warning
        } else {
            Severity::Error
        };
        match self.config.rule_config(id) {
            Some(rc) => {
                let sev = match rc.severity {
                    Some(s) => s,
                    None => default_sev,
                };
                (rc.enabled, sev)
            },
            None => (true, default_sev),
        }
    }

    /// The findings of the rule at `idx` on a snapshot; a disabled rule
    /// reports nothing.
    pub fn check_rule(&self, idx: usize, snap: &Snapshot) -> (r: Vec<LintResult>)
        requires
            idx < rule_count(),
        ensures
            results_view(r) == spec_rule_check(snap@, self.config@, idx as int),
    {
        let (enabled, sev) = self.rule_settings(idx);
        if !enabled {
            let r: Vec<LintResult> = Vec::new();
            assert(results_view(r) =~= Seq::<Finding>::empty());
            return r;
        }
        if idx == 0 {
            AgentSettingsRule::new().check(snap, sev)
        } else if idx == 1 {
            EslintConfigAgentRule::new().check(snap, sev)
        } else if idx == 2 {
            HuskyInitRule::new().check(snap, sev)
        } else if idx == 3 {
            CspellConfigRule::new().check(snap, sev)
        } else {
            PnpmUsageRule::new().check(snap, sev)
        }
    }

    /// The repairs of the rule at `idx` on a snapshot; a disabled rule
    /// repairs nothing.
    pub fn fix_rule(&self, idx: usize, snap: &Snapshot) -> (r: Result<FixPlan, RuleError>)
        requires
            idx < rule_count(),
        ensures
            match r {
                Ok(plan) => spec_rule_fix(snap@, self.config@, idx as int) matches Ok(
                    (scmds, sacts, cnt),
                ) && cmds_view(plan.commands) == scmds && acts_view(plan.actions) == sacts
                    && plan.fixed == crate::types::sat32(cnt),
                Err(e) => spec_rule_fix(snap@, self.config@, idx as int) == Err::<
                    (Seq<Cmd>, Seq<Act>, nat),
                    _,
                >(e@),
            },
    {
        let (enabled, _sev) = self.rule_settings(idx);
        if !enabled {
            let plan = FixPlan { commands: Vec::new(), actions: Vec::new(), fixed: 0 };
            assert(cmds_view(plan.commands) =~= Seq::<Cmd>::empty());
            assert(acts_view(plan.actions) =~= Seq::<Act>::empty());
            return Ok(plan);
        }
        if idx == 0 {
            match AgentSettingsRule::new().fix(snap) {
                Ok((actions, fixed)) => {
                    let plan = FixPlan { commands: Vec::new(), actions, fixed };
                    assert(cmds_view(plan.commands) =~= Seq::<Cmd>::empty());
                    Ok(plan)
                },
                Err(e) => Err(e),
            }
        } else if idx == 1 {
            match EslintConfigAgentRule::new().fix(snap) {
                Ok((commands, actions, fixed)) => Ok(FixPlan { commands, actions, fixed }),
                Err(e) => Err(e),
            }
        } else if idx == 2 {
            let commands = HuskyInitRule::new().fix(snap);
            let plan = FixPlan { commands, actions: Vec::new(), fixed: 0 };
            assert(acts_view(plan.actions) =~= Seq::<Act>::empty());
            Ok(plan)
        } else if idx == 3 {
            match CspellConfigRule::new().fix(snap) {
                Ok((actions, fixed)) => {
                    let plan = FixPlan { commands: Vec::new(), actions, fixed };
                    assert(cmds_view(plan.commands) =~= Seq::<Cmd>::empty());
                    Ok(plan)
                },
                Err(e) => Err(e),
            }
        } else {
            match PnpmUsageRule::new().fix(snap) {
                Ok((actions, fixed)) => {
                    let plan = FixPlan { commands: Vec::new(), actions, fixed };
                    assert(cmds_view(plan.commands) =~= Seq::<Cmd>::empty());
                    Ok(plan)
                },
                Err(e) => Err(e),
            }
        }
    }

    /// Run all enabled rules on a snapshot and aggregate their findings into
    /// a report.
    #[verifier::loop_isolation(false)]
    pub fn run(&self, snap: &Snapshot) -> (r: LintReport)
        ensures
            results_view(r.results) == spec_engine_check(snap@, self.config@),
            r.fixed_count == 0,
    {
        let mut out: Vec<LintResult> = Vec::new();
        let mut idx: usize = 0;
        assert(results_view(out) =~= spec_run_checks(snap@, self.config@, 0));
        while idx < 5
            invariant
                0 <= idx <= 5,
                results_view(out) == spec_run_checks(snap@, self.config@, idx as int),
            decreases 5 - idx,
        {
            let ghost pre = results_view(out);
            let mut one = self.check_rule(idx, snap);
            let ghost onev = results_view(one);
            out.append(&mut one);
            assert(results_view(out) =~= pre + onev);
            idx += 1;
        }
        LintReport::new(out, 0)
    }

    /// Run all enabled rules in fix mode on a snapshot: each rule's edits are
    /// applied to the snapshot before the next rule runs, so that one rule's
    /// repairs can satisfy a later rule's checks.  The commands are returned
    /// for the caller to run; the first failing rule ends the run.
    #[verifier::loop_isolation(false)]
    #[verifier::rlimit(100)]
    pub fn run_with_fix(&self, snap: &mut Snapshot) -> (r: Result<
        (LintReport, Vec<CommandRequest>),
        RuleError,
    >)
        ensures
            match r {
                Ok((report, cmds)) => spec_run_fix(old(snap)@, self.config@, rule_count())
                    matches Ok((fs, scmds, _acts, cnt, es2)) && results_view(report.results) == fs
                    && cmds_view(cmds) == scmds && report.fixed_count == crate::types::sat32(cnt)
                    && final(snap)@ == es2,
                Err(e) => spec_run_fix(old(snap)@, self.config@, rule_count()) matches Err(e2)
                    && e2 == e@,
            },
    {
        let ghost es0 = old(snap)@;
        let ghost cs = self.config@;
        let mut out: Vec<LintResult> = Vec::new();
        let mut cmds: Vec<CommandRequest> = Vec::new();
        let mut fixed: u32 = 0;
        let mut idx: usize = 0;
        assert(results_view(out) =~= Seq::<Finding>::empty());
        assert(cmds_view(cmds) =~= Seq::<Cmd>::empty());
        while idx < 5
            invariant
                0 <= idx <= 5,
                spec_run_fix(es0, cs, idx as int) matches Ok((fs, scmds, _acts, cnt, es2))
                    && results_view(out) == fs && cmds_view(cmds) == scmds && fixed
                    == crate::types::sat32(cnt) && snap@ == es2,
            decreases 5 - idx,
        {
            let ghost pre_f = results_view(out);
            let ghost pre_c = cmds_view(cmds);
            let mut one = self.check_rule(idx, snap);
            let ghost onev = results_view(one);
            out.append(&mut one);
            assert(results_view(out) =~= pre_f + onev);
            match self.fix_rule(idx, snap) {
                Err(e) => {
                    proof {
                        assert(spec_run_fix(es0, cs, idx + 1) matches Err(e2) && e2 == e@);
                        lemma_run_fix_err(es0, cs, idx + 1, rule_count());
                    }
                    return Err(e);
                },
                Ok(plan) => {
                    let FixPlan { commands: mut pc, actions, fixed: pf } = plan;
                    let ghost pcv = cmds_view(pc);
                    cmds.append(&mut pc);
                    assert(cmds_view(cmds) =~= pre_c + pcv);
                    snap.apply(&actions);
                    fixed = crate::types::sat_add_u32(fixed, pf);
                },
            }
            idx += 1;
        }
        Ok((LintReport::new(out, fixed), cmds))
    }

    /// List all available rules, in registration order, each with its full
    /// descriptive snapshot.
    pub fn list_rules(&self) -> (r: Vec<RuleInfo>)
        ensures
            r@.len() == 5,
            r@[0]@ == crate::agent_settings::spec_agent_info(),
            r@[1]@ == crate::eslint_config_agent::spec_eslint_info(),
            r@[2]@ == crate::husky_init::spec_husky_info(),
            r@[3]@ == crate::cspell_config::spec_cspell_info(),
            r@[4]@ == crate::pnpm_usage::spec_pnpm_info(),
    {
        let mut r: Vec<RuleInfo> = Vec::new();
        let agent = AgentSettingsRule::new();
        r.push(
            RuleInfo {
                id: agent.id().to_owned(),
                name: agent.name().to_owned(),
                description: agent.description().to_owned(),
                default_severity: agent.default_severity().as_str().to_owned(),
                can_fix: agent.can_fix(),
                checks: agent.checks(),
                fixes: agent.fixes(),
            },
        );
        assert(r@.last()@ =~~= crate::agent_settings::spec_agent_info());
        let eslint = EslintConfigAgentRule::new();
        r.push(
            RuleInfo {
                id: eslint.id().to_owned(),
                name: eslint.name().to_owned(),
                description: eslint.description().to_owned(),
                default_severity: eslint.default_severity().as_str().to_owned(),
                can_fix: eslint.can_fix(),
                checks: eslint.checks(),
                fixes: eslint.fixes(),
            },
        );
        assert(r@.last()@ =~~= crate::eslint_config_agent::spec_eslint_info());
        let husky = HuskyInitRule::new();
        r.push(
            RuleInfo {
                id: husky.id().to_owned(),
                name: husky.name().to_owned(),
                description: husky.description().to_owned(),
                default_severity: husky.default_severity().as_str().to_owned(),
                can_fix: husky.can_fix(),
                checks: husky.checks(),
                fixes: husky.fixes(),
            },
        );
        assert(r@.last()@ =~~= crate::husky_init::spec_husky_info());
        let cspell = CspellConfigRule::new();
        r.push(
            RuleInfo {
                id: cspell.id().to_owned(),
                name: cspell.name().to_owned(),
                description: cspell.description().to_owned(),
                default_severity: cspell.default_severity().as_str().to_owned(),
                can_fix: cspell.can_fix(),
                checks: cspell.checks(),
                fixes: cspell.fixes(),
            },
        );
        assert(r@.last()@ =~~= crate::cspell_config::spec_cspell_info());
        let pnpm = PnpmUsageRule::new();
        r.push(
            RuleInfo {
                id: pnpm.id().to_owned(),
                name: pnpm.name().to_owned(),
                description: pnpm.description().to_owned(),
                default_severity: pnpm.default_severity().as_str().to_owned(),
                can_fix: pnpm.can_fix(),
                checks: pnpm.checks(),
                fixes: pnpm.fixes(),
            },
        );
        assert(r@.last()@ =~~= crate::pnpm_usage::spec_pnpm_info());
        r
    }
}

/// The configuration of one rule read from a document: the `enabled` flag
/// defaults to true, the severity override is optional, and any further
/// fields (such as rule options) are ignored.
pub open spec fn spec_rule_config_of(v: JsonData) -> Option<(bool, Option<Severity>)> {
    if !(v is Obj) {
        None
    } else {
        let enabled = match spec_get(v, "enabled"@) {
            None => Some(true),
            Some(JsonData::Bool(b)) => Some(b),
            Some(_) => None,
        };
        let severity = match spec_get(v, "severity"@) {
            None => Some(None),
            Some(JsonData::Null) => Some(None),
            Some(JsonData::Str(s)) => match Severity::spec_of_name(s) {
                Some(sv) => Some(Some(sv)),
                None => None,
            },
            Some(_) => None,
        };
        match (enabled, severity) {
            (Some(e), Some(s)) => Some((e, s)),
            _ => None,
        }
    }
}

/// The configured rules read from the fields of the "rules" object.
pub open spec fn spec_config_entries(rfs: Seq<JField>) -> Option<Seq<CEntry>>
    decreases rfs.len(),
{
    if rfs.len() == 0 {
        Some(Seq::empty())
    } else {
        match spec_config_entries(rfs.drop_last()) {
            None => None,
            Some(cs) => match spec_rule_config_of(rfs.last().val) {
                None => None,
                Some((e, s)) => Some(
                    cs.push(CEntry { rule_id: rfs.last().key, enabled: e, severity: s }),
                ),
            },
        }
    }
}

/// A failure among the first `k` configured rules fails the whole parse.
pub proof fn lemma_config_entries_err_prefix(rfs: Seq<JField>, k: int)
    requires
        0 <= k <= rfs.len(),
        spec_config_entries(rfs.take(k)) is None,
    ensures
        spec_config_entries(rfs) is None,
    decreases rfs.len(),
{
    if k < rfs.len() {
        assert(rfs.drop_last() =~= rfs.take(rfs.len() - 1));
        assert(rfs.take(rfs.len() - 1).take(k) =~= rfs.take(k));
        lemma_config_entries_err_prefix(rfs.take(rfs.len() - 1), k);
    } else {
        assert(rfs.take(k) =~= rfs);
    }
}

/// The configuration a text parses to: the document must be an object; its
/// optional "rules" object maps rule ids to their configuration; everything
/// else is ignored.
pub open spec fn spec_parse_config(s: Seq<char>) -> Option<Seq<CEntry>> {
    match spec_parse_json(s) {
        None => None,
        Some(j) => if !(j is Obj) {
            None
        } else {
            match spec_get(j, "rules"@) {
                None => Some(Seq::empty()),
                Some(JsonData::Obj(rfs)) => spec_config_entries(rfs),
                Some(_) => None,
            }
        },
    }
}

use crate::json::spec_get;

/// Reads a configuration from its textual form.
#[verifier::loop_isolation(false)]
pub fn parse_config(s: &str) -> (r: Result<Config, String>)
    ensures
        match r {
            Ok(c) => spec_parse_config(s@) == Some(c@),
            Err(_) => spec_parse_config(s@) is None,
        },
{
    let doc = match parse_json(s) {
        Ok(d) => d,
        Err(e) => {
            return Err(e);
        },
    };
    let is_obj = match &doc {
        Json::Obj(_) => true,
        _ => false,
    };
    if !is_obj {
        return Err("configuration document is not an object".to_owned());
    }
    match doc.obj_get("rules") {
        None => {
            let c = Config { rules: Vec::new() };
            assert(c@ =~= Seq::<CEntry>::empty());
            Ok(c)
        },
        Some(Json::Obj(rfs)) => {
            proof {
                crate::json::lemma_obj_view(*rfs);
            }
            let ghost gfs = crate::json::fields_view(*rfs);
            let mut entries: Vec<ConfigEntry> = Vec::new();
            let n = rfs.len();
            let mut i: usize = 0;
            assert(gfs.take(0) =~= Seq::<JField>::empty());
            assert(Seq::new(entries@.len(), |t: int| entries@[t]@) =~= Seq::<CEntry>::empty());
            while i < n
                invariant
                    0 <= i <= n,
                    spec_config_entries(gfs.take(i as int)) == Some(
                        Seq::new(entries@.len(), |t: int| entries@[t]@),
                    ),
                decreases n - i,
            {
                proof {
                    assert(gfs.take(i + 1).drop_last() =~= gfs.take(i as int));
                    assert(gfs.take(i + 1).last() == gfs[i as int]);
                }
                let ghost pre = Seq::new(entries@.len(), |t: int| entries@[t]@);
                let field = &rfs[i];
                let enabled = match field.val.obj_get("enabled") {
                    None => {
                        match &field.val {
                            Json::Obj(_) => Some(true),
                            _ => None,
                        }
                    },
                    Some(Json::Bool(b)) => Some(*b),
                    Some(_) => None,
                };
                let severity = match field.val.obj_get("severity") {
                    None => {
                        match &field.val {
                            Json::Obj(_) => Some(None),
                            _ => None,
                        }
                    },
                    Some(Json::Null) => Some(None),
                    Some(Json::Str(sv)) => match Severity::of_name(sv.as_str()) {
                        Some(x) => Some(Some(x)),
                        None => None,
                    },
                    Some(_) => None,
                };
                match (enabled, severity) {
                    (Some(e), Some(sv)) => {
                        entries.push(
                            ConfigEntry {
                                rule_id: field.key.clone(),
                                config: RuleConfig { enabled: e, severity: sv },
                            },
                        );
                        assert(Seq::new(entries@.len(), |t: int| entries@[t]@) =~= pre.push(
                            CEntry {
                                rule_id: gfs[i as int].key,
                                enabled: e,
                                severity: sv,
                            },
                        ));
                    },
                    _ => {
                        proof {
                            assert(spec_rule_config_of(gfs[i as int].val) is None);
                            assert(spec_config_entries(gfs.take(i + 1)) is None);
                            lemma_config_entries_err_prefix(gfs, i + 1);
                        }
                        return Err("invalid rule configuration".to_owned());
                    },
                }
                i += 1;
            }
            assert(gfs.take(n as int) =~= gfs);
            let c = Config { rules: entries };
            Ok(c)
        },
        Some(other) => {
            proof {
                let got = spec_get(doc@, "rules"@)->Some_0;
                assert(got == other@);
                assert(!(got is Obj));
            }
            Err("the rules section is not an object".to_owned())
        },
    }
}

} // verus!
