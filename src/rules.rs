//! The rule set: artifact rules that classify paths by pattern, and workflow
//! rules that say which compute nodes a type of artifact triggers.
use vstd::prelude::*;

use crate::error::ConfigError;
use crate::pattern::{pattern_captures, pattern_compiles, pattern_group_names, Pattern};

verus! {

/// Artifacts whose path matches `match_pattern` have type `artifact_type`; the
/// pattern's named groups become variables.
#[derive(Debug)]
pub struct ArtifactRule {
    pub artifact_type: String,
    pub match_pattern: String,
}

/// Two artifact rules are equal when their types and patterns are.
impl PartialEq for ArtifactRule {
    fn eq(&self, other: &ArtifactRule) -> (r: bool)
        ensures
            r == (self.artifact_type@ == other.artifact_type@ && self.match_pattern@
                == other.match_pattern@),
    {
        self.artifact_type == other.artifact_type && self.match_pattern == other.match_pattern
    }
}

impl vstd::std_specs::cmp::PartialEqSpecImpl for ArtifactRule {
    open spec fn obeys_eq_spec() -> bool {
        true
    }

    open spec fn eq_spec(&self, other: &ArtifactRule) -> bool {
        self.artifact_type@ == other.artifact_type@ && self.match_pattern@ == other.match_pattern@
    }
}

/// Where a compute node input comes from.
#[derive(Debug)]
pub enum InputTemplate {
    /// The artifact that triggered the workflow.
    SelfArtifact,
    /// A path template, rendered with the match's variables.
    Artifact { path: String },
    /// A named group of external inputs.
    External { name: String },
}

/// The compute node that a workflow instantiates.
#[derive(Debug)]
pub struct ComputeNodeTemplate {
    pub node_type: String,
    /// A template such as `analysis-{site_id}`.
    pub id: String,
    pub inputs: Vec<InputTemplate>,
}

/// A workflow: artifacts of type `trigger` instantiate `compute_node`.
#[derive(Debug)]
pub struct WorkflowRule {
    pub trigger: String,
    pub compute_node: ComputeNodeTemplate,
}

/// The type of a matched path, with the captured variables in group order.
#[derive(Debug)]
pub struct ArtifactMatch {
    pub artifact_type: String,
    pub variables: Vec<(String, String)>,
}

pub ghost struct MatchView {
    pub artifact_type: Seq<char>,
    pub variables: Seq<(Seq<char>, Seq<char>)>,
}

impl View for ArtifactMatch {
    type V = MatchView;

    open spec fn view(&self) -> MatchView {
        MatchView { artifact_type: self.artifact_type@, variables: self.variables.deep_view() }
    }
}

/// The named groups that took part in a match, as (name, text), in group order.
pub open spec fn captured_variables(
    names: Seq<Option<Seq<char>>>,
    groups: Seq<Option<Seq<char>>>,
) -> Seq<(Seq<char>, Seq<char>)>
    decreases names.len(),
{
    if names.len() == 0 {
        Seq::empty()
    } else {
        let prev = captured_variables(names.drop_last(), groups);
        let i = names.len() - 1;
        if names[i] is Some && i < groups.len() && groups[i] is Some {
            prev.push((names[i]->0, groups[i]->0))
        } else {
            prev
        }
    }
}

/// The first value bound to `name`.
pub open spec fn lookup_var(vars: Seq<(Seq<char>, Seq<char>)>, name: Seq<char>) -> Option<
    Seq<char>,
>
    decreases vars.len(),
{
    if vars.len() == 0 {
        None
    } else if vars[0].0 == name {
        Some(vars[0].1)
    } else {
        lookup_var(vars.drop_first(), name)
    }
}

/// The match that rule `i` or a later one gives for `path`: the first rule whose
/// pattern matches wins.
pub open spec fn match_from(rules: Seq<ArtifactRule>, path: Seq<char>, i: int) -> Option<MatchView>
    decreases rules.len() - i,
{
    if i < 0 || i >= rules.len() {
        None
    } else {
        match pattern_captures(rules[i].match_pattern@, path) {
            Some(groups) => Some(
                MatchView {
                    artifact_type: rules[i].artifact_type@,
                    variables: captured_variables(
                        pattern_group_names(rules[i].match_pattern@),
                        groups,
                    ),
                },
            ),
            None => match_from(rules, path, i + 1),
        }
    }
}

/// How `path` is classified by `rules`, in declaration order.
pub open spec fn match_rules(rules: Seq<ArtifactRule>, path: Seq<char>) -> Option<MatchView> {
    match_from(rules, path, 0)
}

/// The workflows of `ws` triggered by `t`, in declaration order.
pub open spec fn workflows_for(ws: Seq<WorkflowRule>, t: Seq<char>) -> Seq<WorkflowRule>
    decreases ws.len(),
{
    if ws.len() == 0 {
        Seq::empty()
    } else if ws.last().trigger@ == t {
        workflows_for(ws.drop_last(), t).push(ws.last())
    } else {
        workflows_for(ws.drop_last(), t)
    }
}

proof fn lemma_skip_unmatched(rules: Seq<ArtifactRule>, path: Seq<char>, k: int, i: int)
    requires
        0 <= k <= i <= rules.len(),
        forall|m: int| k <= m < i ==> pattern_captures(#[trigger] rules[m].match_pattern@, path) is None,
    ensures
        match_from(rules, path, k) == match_from(rules, path, i),
    decreases i - k,
{
    if k < i {
        lemma_skip_unmatched(rules, path, k + 1, i);
    }
}

/// The first matching rule decides: when rule `i` matches `path` and no earlier
/// rule does, the match has rule `i`'s type and variables, whatever later rules say.
pub proof fn law_first_match_wins(rules: Seq<ArtifactRule>, path: Seq<char>, i: int)
    requires
        0 <= i < rules.len(),
        pattern_captures(rules[i].match_pattern@, path) is Some,
        forall|k: int| 0 <= k < i ==> pattern_captures(#[trigger] rules[k].match_pattern@, path) is None,
    ensures
        match_rules(rules, path) == Some(
            MatchView {
                artifact_type: rules[i].artifact_type@,
                variables: captured_variables(
                    pattern_group_names(rules[i].match_pattern@),
                    pattern_captures(rules[i].match_pattern@, path)->0,
                ),
            },
        ),
{
    lemma_skip_unmatched(rules, path, 0, i);
}

/// Of two rules that both match `path`, the one declared first gives the type.
pub proof fn law_earlier_of_two_rules_wins(first: ArtifactRule, second: ArtifactRule, path: Seq<char>)
    requires
        pattern_captures(first.match_pattern@, path) is Some,
        pattern_captures(second.match_pattern@, path) is Some,
    ensures
        match_rules(seq![first, second], path) is Some,
        match_rules(seq![first, second], path)->0.artifact_type == first.artifact_type@,
{
    law_first_match_wins(seq![first, second], path, 0);
}

impl ArtifactMatch {
    /// The match of a rule of type `artifact_type`, from the regex's group names
    /// and the groups it captured.
    pub fn from_captures(
        artifact_type: &String,
        names: &Vec<Option<String>>,
        groups: &Vec<Option<String>>,
    ) -> (r: ArtifactMatch)
        ensures
            r@ == (MatchView {
                artifact_type: artifact_type@,
                variables: captured_variables(names.deep_view(), groups.deep_view()),
            }),
    {
        let ghost nv = names.deep_view();
        let ghost gv = groups.deep_view();
        let mut variables: Vec<(String, String)> = Vec::new();
        let mut i: usize = 0;
        while i < names.len()
            invariant
                0 <= i <= names@.len(),
                nv == names.deep_view(),
                gv == groups.deep_view(),
                variables.deep_view() == captured_variables(nv.take(i as int), gv),
            decreases names@.len() - i,
        {
            proof {
                assert(nv.take(i as int + 1).drop_last() =~= nv.take(i as int));
            }
            let ghost before = variables.deep_view();
            if let Some(name) = &names[i] {
                if i < groups.len() {
                    if let Some(value) = &groups[i] {
                        variables.push((name.clone(), value.clone()));
                        proof {
                            assert(variables.deep_view() =~= before.push((name@, value@)));
                        }
                    }
                }
            }
            i += 1;
        }
        proof {
            assert(nv.take(names@.len() as int) =~= nv);
        }
        ArtifactMatch { artifact_type: artifact_type.clone(), variables }
    }

    /// The value of variable `name`, if the match captured it.
    pub fn variable(&self, name: &str) -> (r: Option<&String>)
        ensures
            match r {
                Some(v) => lookup_var(self.variables.deep_view(), name@) == Some(v@),
                None => lookup_var(self.variables.deep_view(), name@) is None,
            },
    {
        let ghost vars = self.variables.deep_view();
        let key = String::from_str(name);
        proof {
            assert(vars.skip(0) =~= vars);
        }
        let mut i: usize = 0;
        while i < self.variables.len()
            invariant
                0 <= i <= self.variables@.len(),
                vars == self.variables.deep_view(),
                key@ == name@,
                lookup_var(vars, name@) == lookup_var(vars.skip(i as int), name@),
            decreases self.variables@.len() - i,
        {
            proof {
                assert(vars.skip(i as int).drop_first() =~= vars.skip(i as int + 1));
                assert(vars.skip(i as int)[0] == vars[i as int]);
            }
            if self.variables[i].0 == key {
                assert(vars[i as int].0 == name@);
                return Some(&self.variables[i].1);
            }
            i += 1;
        }
        None
    }
}

/// A rule set with every artifact pattern compiled.
#[derive(Debug)]
pub struct CurioConfig {
    artifacts: Vec<ArtifactRule>,
    workflows: Vec<WorkflowRule>,
    patterns: Vec<Pattern>,
}

impl CurioConfig {
    /// Each artifact rule has its compiled pattern beside it.
    pub closed spec fn wf(&self) -> bool {
        &&& self.patterns@.len() == self.artifacts@.len()
        &&& forall|i: int|
            0 <= i < self.artifacts@.len() ==> (#[trigger] self.patterns@[i]).source()
                == self.artifacts@[i].match_pattern@
    }

    pub closed spec fn artifact_rules(&self) -> Seq<ArtifactRule> {
        self.artifacts@
    }

    pub closed spec fn workflow_rules(&self) -> Seq<WorkflowRule> {
        self.workflows@
    }

    /// Compiles every artifact pattern. The first pattern that does not
    /// compile fails the whole rule set.
    pub fn compile(artifacts: Vec<ArtifactRule>, workflows: Vec<WorkflowRule>) -> (r: Result<
        CurioConfig,
        ConfigError,
    >)
        ensures
            r is Ok <==> forall|i: int|
                0 <= i < artifacts@.len() ==> pattern_compiles(
                    #[trigger] artifacts@[i].match_pattern@,
                ),
            r matches Ok(c) ==> c.wf() && c.artifact_rules() == artifacts@ && c.workflow_rules()
                == workflows@,
            r matches Err(e) ==> {
                &&& e.rule_index < artifacts@.len()
                &&& !pattern_compiles(artifacts@[e.rule_index as int].match_pattern@)
                &&& e.pattern@ == artifacts@[e.rule_index as int].match_pattern@
                &&& forall|j: int|
                    0 <= j < e.rule_index ==> pattern_compiles(
                        #[trigger] artifacts@[j].match_pattern@,
                    )
            },
    {
        let mut patterns: Vec<Pattern> = Vec::new();
        let mut i: usize = 0;
        while i < artifacts.len()
            invariant
                0 <= i <= artifacts@.len(),
                patterns@.len() == i,
                forall|j: int|
                    0 <= j < i ==> (#[trigger] patterns@[j]).source()
                        == artifacts@[j].match_pattern@,
                forall|j: int|
                    0 <= j < i ==> pattern_compiles(#[trigger] artifacts@[j].match_pattern@),
            decreases artifacts@.len() - i,
        {
            match Pattern::compile(&artifacts[i].match_pattern) {
                Ok(p) => patterns.push(p),
                Err(_) => {
                    return Err(
                        ConfigError { rule_index: i, pattern: artifacts[i].match_pattern.clone() },
                    );
                },
            }
            i += 1;
        }
        Ok(CurioConfig { artifacts, workflows, patterns })
    }

    /// The artifact rules, in declaration order.
    pub fn artifacts(&self) -> (r: &Vec<ArtifactRule>)
        ensures
            r@ == self.artifact_rules(),
    {
        &self.artifacts
    }

    /// The workflow rules, in declaration order.
    pub fn workflows(&self) -> (r: &Vec<WorkflowRule>)
        ensures
            r@ == self.workflow_rules(),
    {
        &self.workflows
    }

    /// Classifies `path`: the first artifact rule whose pattern matches gives
    /// the type and the variables; none matches, none is returned.
    pub fn match_artifact(&self, path: &str) -> (r: Option<ArtifactMatch>)
        requires
            self.wf(),
        ensures
            match r {
                Some(m) => match_rules(self.artifact_rules(), path@) == Some(m@),
                None => match_rules(self.artifact_rules(), path@) is None,
            },
    {
        let mut i: usize = 0;
        while i < self.artifacts.len()
            invariant
                self.wf(),
                0 <= i <= self.artifacts@.len(),
                match_rules(self.artifacts@, path@) == match_from(self.artifacts@, path@, i as int),
            decreases self.artifacts@.len() - i,
        {
            let pattern = &self.patterns[i];
            match pattern.captures(path) {
                Some(groups) => {
                    let names = pattern.group_names();
                    return Some(
                        ArtifactMatch::from_captures(&self.artifacts[i].artifact_type, &names, &groups),
                    );
                },
                None => {},
            }
            i += 1;
        }
        None
    }

    /// The workflow rules triggered by `artifact_type`, in declaration order.
    pub fn get_workflows_for_type<'a>(&'a self, artifact_type: &str) -> (r: Vec<&'a WorkflowRule>)
        ensures
            r@.map_values(|w: &WorkflowRule| *w) == workflows_for(
                self.workflow_rules(),
                artifact_type@,
            ),
    {
        let ghost ws = self.workflows@;
        let wanted = String::from_str(artifact_type);
        let mut r: Vec<&WorkflowRule> = Vec::new();
        let mut i: usize = 0;
        while i < self.workflows.len()
            invariant
                0 <= i <= ws.len(),
                ws == self.workflows@,
                wanted@ == artifact_type@,
                r@.map_values(|w: &WorkflowRule| *w) == workflows_for(ws.take(i as int), artifact_type@),
            decreases ws.len() - i,
        {
            proof {
                assert(ws.take(i as int + 1).drop_last() =~= ws.take(i as int));
            }
            let ghost before = r@;
            let w = &self.workflows[i];
            if w.trigger == wanted {
                r.push(w);
                proof {
                    assert(r@.map_values(|w: &WorkflowRule| *w) =~= before.map_values(
                        |w: &WorkflowRule| *w,
                    ).push(ws[i as int]));
                }
            }
            i += 1;
        }
        proof {
            assert(ws.take(ws.len() as int) =~= ws);
        }
        r
    }
}

} // verus!
