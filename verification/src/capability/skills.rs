//! Skills: which development objectives and strategies a skill serves, the
//! frontmatter/body split of a skill file, and how a skill's prompt is
//! composed from the skills it includes.
use vstd::prelude::*;
use crate::codec::{found_at, trim, trim_bounds, trim_start};
use crate::text::{chars_of, chars_start_with, new_string, owned, push_str, str_eq, string_from_chars};
use crate::codec::string_views;

verus! {

#[derive(Clone, Copy, Debug, PartialEq, Eq, Hash, Structural)]
pub enum DevelopmentObjectiveKind {
    ReduceCompilerFailures,
    ReduceContradictionRate,
    IncreaseTestCoverage,
    DecreaseInvalidPlanRate,
    ReduceStalledLoopFrequency,
    ImproveModuleCohesion,
}

impl DevelopmentObjectiveKind {
    pub open spec fn spec_as_str(self) -> Seq<char> {
        match self {
            DevelopmentObjectiveKind::ReduceCompilerFailures => "reduce_compiler_failures"@,
            DevelopmentObjectiveKind::ReduceContradictionRate => "reduce_contradiction_rate"@,
            DevelopmentObjectiveKind::IncreaseTestCoverage => "increase_test_coverage"@,
            DevelopmentObjectiveKind::DecreaseInvalidPlanRate => "decrease_invalid_plan_rate"@,
            DevelopmentObjectiveKind::ReduceStalledLoopFrequency => "reduce_stalled_loop_frequency"@,
            DevelopmentObjectiveKind::ImproveModuleCohesion => "improve_module_cohesion"@,
        }
    }

    /// The snake-case name skill files use.
    pub fn as_str(self) -> (r: &'static str)
        ensures
            r@ == self.spec_as_str(),
    {
        match self {
            DevelopmentObjectiveKind::ReduceCompilerFailures => "reduce_compiler_failures",
            DevelopmentObjectiveKind::ReduceContradictionRate => "reduce_contradiction_rate",
            DevelopmentObjectiveKind::IncreaseTestCoverage => "increase_test_coverage",
            DevelopmentObjectiveKind::DecreaseInvalidPlanRate => "decrease_invalid_plan_rate",
            DevelopmentObjectiveKind::ReduceStalledLoopFrequency => "reduce_stalled_loop_frequency",
            DevelopmentObjectiveKind::ImproveModuleCohesion => "improve_module_cohesion",
        }
    }
}

#[derive(Clone, Copy, Debug, PartialEq, Eq, Hash, Structural)]
pub enum DevelopmentStrategyKind {
    FixConfigLintPolicy,
    ApplyTargetedCompilerRepair,
    DiscoverTestSurface,
    AddRegressionTest,
    SimplifyPlanBatch,
    RealignObjectiveFlow,
    RefreshContextBeforeRetry,
    CreateMissingModules,
    RestructureModules,
}

impl DevelopmentStrategyKind {
    pub open spec fn spec_as_str(self) -> Seq<char> {
        match self {
            DevelopmentStrategyKind::FixConfigLintPolicy => "fix_config_lint_policy"@,
            DevelopmentStrategyKind::ApplyTargetedCompilerRepair => "apply_targeted_compiler_repair"@,
            DevelopmentStrategyKind::DiscoverTestSurface => "discover_test_surface"@,
            DevelopmentStrategyKind::AddRegressionTest => "add_regression_test"@,
            DevelopmentStrategyKind::SimplifyPlanBatch => "simplify_plan_batch"@,
            DevelopmentStrategyKind::RealignObjectiveFlow => "realign_objective_flow"@,
            DevelopmentStrategyKind::RefreshContextBeforeRetry => "refresh_context_before_retry"@,
            DevelopmentStrategyKind::CreateMissingModules => "create_missing_modules"@,
            DevelopmentStrategyKind::RestructureModules => "restructure_modules"@,
        }
    }

    /// The snake-case name skill files use.
    pub fn as_str(self) -> (r: &'static str)
        ensures
            r@ == self.spec_as_str(),
    {
        match self {
            DevelopmentStrategyKind::FixConfigLintPolicy => "fix_config_lint_policy",
            DevelopmentStrategyKind::ApplyTargetedCompilerRepair => "apply_targeted_compiler_repair",
            DevelopmentStrategyKind::DiscoverTestSurface => "discover_test_surface",
            DevelopmentStrategyKind::AddRegressionTest => "add_regression_test",
            DevelopmentStrategyKind::SimplifyPlanBatch => "simplify_plan_batch",
            DevelopmentStrategyKind::RealignObjectiveFlow => "realign_objective_flow",
            DevelopmentStrategyKind::RefreshContextBeforeRetry => "refresh_context_before_retry",
            DevelopmentStrategyKind::CreateMissingModules => "create_missing_modules",
            DevelopmentStrategyKind::RestructureModules => "restructure_modules",
        }
    }
}

#[derive(Clone, Copy, Debug, PartialEq, Eq, Structural)]
pub enum LlmEffort {
    Low,
    Medium,
    High,
}

#[derive(Debug)]
pub struct Skill {
    pub name: String,
    pub description: String,
    pub effort: Option<LlmEffort>,
    pub objectives: Vec<DevelopmentObjectiveKind>,
    pub strategies: Vec<DevelopmentStrategyKind>,
    pub tools: Vec<String>,
    pub preconditions: Vec<String>,
    pub prompt: String,
}

/// A filter passes when it is absent, when the skill lists nothing, or when
/// the skill lists the value.
pub open spec fn filter_passes<T>(value: Option<T>, listed: Seq<T>) -> bool {
    match value {
        Some(v) => listed.len() == 0 || listed.contains(v),
        None => true,
    }
}

fn objective_listed(listed: &Vec<DevelopmentObjectiveKind>, o: DevelopmentObjectiveKind) -> (r:
    bool)
    ensures
        r == listed@.contains(o),
{
    let mut i: usize = 0;
    while i < listed.len()
        invariant
            i <= listed@.len(),
            forall|j: int| 0 <= j < i ==> listed@[j] != o,
        decreases listed@.len() - i,
    {
        if listed[i] == o {
            return true;
        }
        i = i + 1;
    }
    false
}

fn strategy_listed(listed: &Vec<DevelopmentStrategyKind>, s: DevelopmentStrategyKind) -> (r: bool)
    ensures
        r == listed@.contains(s),
{
    let mut i: usize = 0;
    while i < listed.len()
        invariant
            i <= listed@.len(),
            forall|j: int| 0 <= j < i ==> listed@[j] != s,
        decreases listed@.len() - i,
    {
        if listed[i] == s {
            return true;
        }
        i = i + 1;
    }
    false
}

impl Skill {
    /// True if this skill applies to the given objective and strategy. A
    /// `None` filter matches every skill, and an empty list in the skill
    /// file means "applies to everything".
    pub fn supports(
        &self,
        objective: Option<DevelopmentObjectiveKind>,
        strategy: Option<DevelopmentStrategyKind>,
    ) -> (r: bool)
        ensures
            r == (filter_passes(objective, self.objectives@) && filter_passes(
                strategy,
                self.strategies@,
            )),
    {
        let obj_ok = match objective {
            Some(o) => self.objectives.len() == 0 || objective_listed(&self.objectives, o),
            None => true,
        };
        let str_ok = match strategy {
            Some(s) => self.strategies.len() == 0 || strategy_listed(&self.strategies, s),
            None => true,
        };
        obj_ok && str_ok
    }
}

/// The first position of `pat` in `s`, if any.
#[verifier::opaque]
pub open spec fn first_find(s: Seq<char>, pat: Seq<char>) -> Option<int> {
    if exists|i: int| #[trigger] found_at(s, pat, i) {
        Some(
            choose|i: int|
                #[trigger] found_at(s, pat, i) && forall|j: int| 0 <= j < i ==> !found_at(s, pat, j),
        )
    } else {
        None
    }
}

/// A skill file's frontmatter and body: after leading white space, a file
/// that opens with `---` and has a later line starting `---` has the text
/// between them as frontmatter and the rest, after that `---`, as body;
/// any other file is all body.
pub open spec fn spec_split_frontmatter(content: Seq<char>) -> (Option<Seq<char>>, Seq<char>) {
    let t = trim_start(content);
    let rest = t.subrange(3, t.len() as int);
    if t.len() >= 3 && t.subrange(0, 3) == "---"@ {
        match first_find(rest, "\n---"@) {
            Some(end) => (Some(rest.subrange(0, end)), rest.subrange(end + 4, rest.len() as int)),
            None => (None, content),
        }
    } else {
        (None, content)
    }
}

proof fn lemma_first_find_unique(s: Seq<char>, pat: Seq<char>, i: int)
    requires
        found_at(s, pat, i),
        forall|j: int| 0 <= j < i ==> !found_at(s, pat, j),
    ensures
        first_find(s, pat) == Some(i),
{
    reveal(first_find);
    let k = choose|k: int|
        #[trigger] found_at(s, pat, k) && forall|j: int| 0 <= j < k ==> !found_at(s, pat, j);
    if k < i {
        assert(!found_at(s, pat, k));
    } else if i < k {
        assert(!found_at(s, pat, i));
    }
}

fn marker_at(v: &Vec<char>, i: usize) -> (r: bool)
    requires
        i + 4 <= v@.len(),
    ensures
        r == (v@.subrange(i as int, i + 4) == "\n---"@),
{
    proof {
        reveal_strlit("\n---");
    }
    chars_start_with(v, i, "\n---")
}

fn find_marker(v: &Vec<char>, rs: usize) -> (r: Option<usize>)
    requires
        rs <= v@.len(),
    ensures
        match r {
            Some(i) => rs <= i && i + 4 <= v@.len() && first_find(
                v@.subrange(rs as int, v@.len() as int),
                "\n---"@,
            ) == Some(i - rs),
            None => first_find(v@.subrange(rs as int, v@.len() as int), "\n---"@) is None,
        },
{
    let n = v.len();
    let ghost rest = v@.subrange(rs as int, n as int);
    proof {
        reveal_strlit("\n---");
    }
    let mut i = rs;
    while n >= 4 && i <= n - 4
        invariant
            rs <= i,
            n == v@.len(),
            rest == v@.subrange(rs as int, n as int),
            "\n---"@.len() == 4,
            forall|j: int| 0 <= j < i - rs ==> !found_at(rest, "\n---"@, j),
        decreases n - i,
    {
        let ghost e = i - rs;
        assert(rest.subrange(e, e + 4) =~= v@.subrange(i as int, i + 4));
        if marker_at(v, i) {
            proof {
                lemma_first_find_unique(rest, "\n---"@, e);
            }
            return Some(i);
        }
        i = i + 1;
    }
    assert(first_find(rest, "\n---"@) is None) by {
        reveal(first_find);
        if exists|j: int| #[trigger] found_at(rest, "\n---"@, j) {
            let j = choose|j: int| #[trigger] found_at(rest, "\n---"@, j);
            assert(j < i - rs);
        }
    }
    None
}

/// Splits a skill file into its frontmatter, if it has one, and its body.
pub fn split_frontmatter(content: &str) -> (r: (Option<String>, String))
    ensures
        (match r.0 {
            Some(f) => Some(f@),
            None => None,
        }, r.1@) == spec_split_frontmatter(content@),
{
    proof {
        reveal_strlit("---");
    }
    let chars = chars_of(content);
    let (lo, _hi) = trim_bounds(&chars, 0, chars.len());
    let mut start = 0usize;
    assert(chars@.subrange(0, chars@.len() as int) =~= chars@);
    while start < chars.len() && crate::codec::is_ws_char(chars[start])
        invariant
            start <= chars@.len(),
            chars@ == content@,
            trim_start(chars@) == trim_start(chars@.subrange(start as int, chars@.len() as int)),
        decreases chars@.len() - start,
    {
        proof {
            crate::codec::lemma_trim_start_step(chars@, start as int);
        }
        start = start + 1;
    }
    assert(chars@.subrange(0, chars@.len() as int) =~= chars@);
    let ghost t = chars@.subrange(start as int, chars@.len() as int);
    assert(trim_start(t) == t);
    let n = chars.len();
    if !(n - start >= 3 && chars[start] == '-' && chars[start + 1] == '-' && chars[start + 2]
        == '-') {
        proof {
            if t.len() >= 3 && t.subrange(0, 3) == "---"@ {
                assert(t.subrange(0, 3)[0] == chars@[start as int]);
                assert(t.subrange(0, 3)[1] == chars@[start + 1]);
                assert(t.subrange(0, 3)[2] == chars@[start + 2]);
            }
        }
        return (None, owned(content));
    }
    assert(t.subrange(0, 3) =~= "---"@);
    let rs = start + 3;
    let ghost rest = t.subrange(3, t.len() as int);
    assert(rest =~= chars@.subrange(rs as int, n as int));
    match find_marker(&chars, rs) {
        Some(i) => {
            let ghost e = i - rs;
            let fm = string_from_chars(&chars, rs, i);
            let body = string_from_chars(&chars, i + 4, n);
            assert(fm@ =~= rest.subrange(0, e));
            assert(body@ =~= rest.subrange(e + 4, rest.len() as int));
            (Some(fm), body)
        },
        None => (None, owned(content)),
    }
}

/// The prompt of a skill: the prompts of the skills it includes, in order,
/// then its own body trimmed, separated by blank lines.
pub open spec fn spec_skill_prompt(included: Seq<Seq<char>>, body: Seq<char>) -> Seq<char> {
    join_blank(included.push(trim(body)))
}

pub open spec fn join_blank(parts: Seq<Seq<char>>) -> Seq<char>
    decreases parts.len(),
{
    if parts.len() == 0 {
        Seq::empty()
    } else if parts.len() == 1 {
        parts[0]
    } else {
        join_blank(parts.drop_last()) + "\n\n"@ + parts.last()
    }
}

pub fn skill_prompt(included: &Vec<String>, body: &str) -> (r: String)
    ensures
        r@ == spec_skill_prompt(Seq::new(included@.len(), |i: int| included@[i]@), body@),
{
    let ghost parts = Seq::new(included@.len(), |i: int| included@[i]@);
    let mut out = new_string();
    let mut i: usize = 0;
    while i < included.len()
        invariant
            i <= included@.len(),
            parts == Seq::new(included@.len(), |i: int| included@[i]@),
            out@ == join_blank(parts.take(i as int)),
        decreases included@.len() - i,
    {
        assert(parts.take(i + 1).drop_last() =~= parts.take(i as int));
        if i > 0 {
            push_str(&mut out, "\n\n");
        } else {
            assert(parts.take(1) =~= seq![parts[0]]);
        }
        push_str(&mut out, included[i].as_str());
        i = i + 1;
    }
    assert(parts.take(i as int) =~= parts);
    let chars = chars_of(body);
    let (lo, hi) = trim_bounds(&chars, 0, chars.len());
    assert(chars@.subrange(0, chars@.len() as int) =~= chars@);
    let own = string_from_chars(&chars, lo, hi);
    assert(parts.push(trim(body@)).drop_last() =~= parts);
    if i > 0 {
        push_str(&mut out, "\n\n");
    } else {
        assert(parts.push(trim(body@)) =~= seq![trim(body@)]);
    }
    push_str(&mut out, own.as_str());
    out
}

/// A skill from its path, its frontmatter fields and the prompts of the
/// skills it includes: the path is the default name, and the description
/// and lists default to empty.
pub fn compose_skill(
    skill_path: &str,
    name: Option<String>,
    description: Option<String>,
    effort: Option<LlmEffort>,
    objectives: Option<Vec<DevelopmentObjectiveKind>>,
    strategies: Option<Vec<DevelopmentStrategyKind>>,
    tools: Option<Vec<String>>,
    preconditions: Option<Vec<String>>,
    included_prompts: &Vec<String>,
    body: &str,
) -> (r: Skill)
    ensures
        r.name@ == match name {
            Some(n) => n@,
            None => skill_path@,
        },
        r.description@ == match description {
            Some(d) => d@,
            None => Seq::<char>::empty(),
        },
        r.effort == effort,
        r.objectives@ == match objectives {
            Some(o) => o@,
            None => Seq::<DevelopmentObjectiveKind>::empty(),
        },
        r.strategies@ == match strategies {
            Some(s) => s@,
            None => Seq::<DevelopmentStrategyKind>::empty(),
        },
        r.tools@ == match tools {
            Some(t) => t@,
            None => Seq::<String>::empty(),
        },
        r.preconditions@ == match preconditions {
            Some(p) => p@,
            None => Seq::<String>::empty(),
        },
        r.prompt@ == spec_skill_prompt(
            Seq::new(included_prompts@.len(), |i: int| included_prompts@[i]@),
            body@,
        ),
{
    Skill {
        name: match name {
            Some(n) => n,
            None => owned(skill_path),
        },
        description: match description {
            Some(d) => d,
            None => new_string(),
        },
        effort,
        objectives: match objectives {
            Some(o) => o,
            None => Vec::new(),
        },
        strategies: match strategies {
            Some(s) => s,
            None => Vec::new(),
        },
        tools: match tools {
            Some(t) => t,
            None => Vec::new(),
        },
        preconditions: match preconditions {
            Some(p) => p,
            None => Vec::new(),
        },
        prompt: skill_prompt(included_prompts, body),
    }
}

/// The skills being loaded, outermost first: each one is entered before
/// its includes are loaded and left after them, so a skill that includes
/// itself, directly or not, is met while it is still on the stack.
pub struct SkillLoadStack {
    paths: Vec<String>,
}

/// The message of an include cycle through `skill_path`.
pub open spec fn spec_cycle_message(skill_path: Seq<char>) -> Seq<char> {
    "cycle detected while loading skill "@ + skill_path
}

impl SkillLoadStack {
    /// The paths on the stack, outermost first.
    pub closed spec fn spec_paths(&self) -> Seq<Seq<char>> {
        string_views(self.paths@)
    }

    pub fn new() -> (r: Self)
        ensures
            r.spec_paths() == Seq::<Seq<char>>::empty(),
    {
        let r = SkillLoadStack { paths: Vec::new() };
        assert(r.spec_paths() =~= Seq::<Seq<char>>::empty());
        r
    }

    /// Enters a skill: refused as a cycle when it is already being loaded,
    /// else pushed.
    pub fn enter(&mut self, skill_path: &str) -> (r: Result<(), String>)
        ensures
            match r {
                Ok(()) => !old(self).spec_paths().contains(skill_path@) && final(self).spec_paths()
                    == old(self).spec_paths().push(skill_path@),
                Err(e) => old(self).spec_paths().contains(skill_path@) && final(self).spec_paths()
                    == old(self).spec_paths() && e@ == spec_cycle_message(skill_path@),
            },
    {
        let ghost views = string_views(self.paths@);
        let mut i: usize = 0;
        while i < self.paths.len()
            invariant
                i <= self.paths@.len(),
                views == string_views(self.paths@),
                forall|j: int| 0 <= j < i ==> views[j] != skill_path@,
            decreases self.paths@.len() - i,
        {
            if str_eq(self.paths[i].as_str(), skill_path) {
                assert(views[i as int] == skill_path@);
                let mut msg = owned("cycle detected while loading skill ");
                push_str(&mut msg, skill_path);
                return Err(msg);
            }
            i = i + 1;
        }
        assert(!views.contains(skill_path@)) by {
            if views.contains(skill_path@) {
                let j = choose|j: int| 0 <= j < views.len() && views[j] == skill_path@;
                assert(views[j] != skill_path@);
            }
        }
        self.paths.push(owned(skill_path));
        assert(string_views(self.paths@) =~= views.push(skill_path@));
        Ok(())
    }

    /// Leaves the innermost skill, once its includes are loaded.
    pub fn leave(&mut self)
        ensures
            final(self).spec_paths() == (if old(self).spec_paths().len() == 0 {
                old(self).spec_paths()
            } else {
                old(self).spec_paths().drop_last()
            }),
    {
        let ghost views = string_views(self.paths@);
        if self.paths.len() > 0 {
            self.paths.pop();
            assert(string_views(self.paths@) =~= views.drop_last());
        }
    }
}

} // verus!
