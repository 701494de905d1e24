//! Rendering `{variable}` templates and instantiating compute nodes from
//! workflow rules.
use vstd::prelude::*;

use crate::error::TemplateError;
use crate::rules::{
    lookup_var, match_rules, workflows_for, ArtifactMatch, ComputeNodeTemplate, CurioConfig,
    InputTemplate, WorkflowRule,
};

verus! {

pub ghost enum InputView {
    SelfArtifact,
    Artifact(Seq<char>),
    External(Seq<char>),
}

impl View for InputTemplate {
    type V = InputView;

    open spec fn view(&self) -> InputView {
        match self {
            InputTemplate::SelfArtifact => InputView::SelfArtifact,
            InputTemplate::Artifact { path } => InputView::Artifact(path@),
            InputTemplate::External { name } => InputView::External(name@),
        }
    }
}

/// A compute node input with its template resolved.
#[derive(Debug)]
pub enum ResolvedInput {
    /// The path of the artifact that triggered the workflow.
    SelfArtifact { path: String },
    /// A rendered artifact path, for the caller to resolve to an artifact id.
    Artifact { path: String },
    /// A named group of external inputs.
    External { name: String },
}

pub ghost enum ResolvedView {
    SelfArtifact(Seq<char>),
    Artifact(Seq<char>),
    External(Seq<char>),
}

impl View for ResolvedInput {
    type V = ResolvedView;

    open spec fn view(&self) -> ResolvedView {
        match self {
            ResolvedInput::SelfArtifact { path } => ResolvedView::SelfArtifact(path@),
            ResolvedInput::Artifact { path } => ResolvedView::Artifact(path@),
            ResolvedInput::External { name } => ResolvedView::External(name@),
        }
    }
}

/// A compute node ready to be created: rendered id, type and resolved inputs.
#[derive(Debug)]
pub struct NodeSpec {
    pub id: String,
    pub node_type: String,
    pub inputs: Vec<ResolvedInput>,
}

pub ghost struct NodeSpecView {
    pub id: Seq<char>,
    pub node_type: Seq<char>,
    pub inputs: Seq<ResolvedView>,
}

impl View for NodeSpec {
    type V = NodeSpecView;

    open spec fn view(&self) -> NodeSpecView {
        NodeSpecView {
            id: self.id@,
            node_type: self.node_type@,
            inputs: self.inputs@.map_values(|r: ResolvedInput| r@),
        }
    }
}

/// Rendering `t` from position `i`, with `out` written so far and `name` the
/// placeholder being read, if any. Each `{name}` becomes the variable's value;
/// a variable that is not bound fails with its name; an unclosed `{` stays as text.
pub open spec fn render_from(
    t: Seq<char>,
    vars: Seq<(Seq<char>, Seq<char>)>,
    i: int,
    out: Seq<char>,
    name: Option<Seq<char>>,
) -> Result<Seq<char>, Seq<char>>
    decreases t.len() - i,
{
    if i < 0 || i >= t.len() {
        match name {
            None => Ok(out),
            Some(n) => Ok(out + seq!['{'] + n),
        }
    } else {
        let c = t[i];
        match name {
            None => if c == '{' {
                render_from(t, vars, i + 1, out, Some(Seq::empty()))
            } else {
                render_from(t, vars, i + 1, out.push(c), None)
            },
            Some(n) => if c == '}' {
                match lookup_var(vars, n) {
                    Some(v) => render_from(t, vars, i + 1, out + v, None),
                    None => Err(n),
                }
            } else {
                render_from(t, vars, i + 1, out, Some(n.push(c)))
            },
        }
    }
}

/// `t` with its placeholders substituted from `vars`, or the first unbound name.
pub open spec fn render(t: Seq<char>, vars: Seq<(Seq<char>, Seq<char>)>) -> Result<
    Seq<char>,
    Seq<char>,
> {
    render_from(t, vars, 0, Seq::empty(), None)
}

pub open spec fn resolve_input(
    it: InputView,
    vars: Seq<(Seq<char>, Seq<char>)>,
    path: Seq<char>,
) -> Result<ResolvedView, Seq<char>> {
    match it {
        InputView::SelfArtifact => Ok(ResolvedView::SelfArtifact(path)),
        InputView::Artifact(p) => match render(p, vars) {
            Ok(q) => Ok(ResolvedView::Artifact(q)),
            Err(e) => Err(e),
        },
        InputView::External(n) => Ok(ResolvedView::External(n)),
    }
}

/// Resolving the inputs from position `i` on; the first failure wins.
pub open spec fn resolve_from(
    its: Seq<InputView>,
    vars: Seq<(Seq<char>, Seq<char>)>,
    path: Seq<char>,
    i: int,
) -> Result<Seq<ResolvedView>, Seq<char>>
    decreases its.len() - i,
{
    if i < 0 || i >= its.len() {
        Ok(Seq::empty())
    } else {
        match resolve_input(its[i], vars, path) {
            Err(e) => Err(e),
            Ok(r) => match resolve_from(its, vars, path, i + 1) {
                Err(e) => Err(e),
                Ok(rest) => Ok(seq![r] + rest),
            },
        }
    }
}

/// The node that template `t` gives for an artifact at `path` with variables `vars`.
pub open spec fn instantiate_spec(
    t: ComputeNodeTemplate,
    vars: Seq<(Seq<char>, Seq<char>)>,
    path: Seq<char>,
) -> Result<NodeSpecView, Seq<char>> {
    match render(t.id@, vars) {
        Err(e) => Err(e),
        Ok(id) => match resolve_from(t.inputs@.map_values(|it: InputTemplate| it@), vars, path, 0) {
            Err(e) => Err(e),
            Ok(inputs) => Ok(NodeSpecView { id, node_type: t.node_type@, inputs }),
        },
    }
}

/// What each triggered workflow gives for an artifact at `path`, in
/// declaration order; nothing when no rule classifies the path.
pub open spec fn plan_spec(
    rules: Seq<crate::rules::ArtifactRule>,
    workflows: Seq<WorkflowRule>,
    path: Seq<char>,
) -> Seq<Result<NodeSpecView, Seq<char>>> {
    match match_rules(rules, path) {
        None => Seq::empty(),
        Some(m) => workflows_for(workflows, m.artifact_type).map_values(
            |w: WorkflowRule| instantiate_spec(w.compute_node, m.variables, path),
        ),
    }
}

/// Renders `template` with the variables of `m`.
pub fn render_template(template: &str, m: &ArtifactMatch) -> (r: Result<String, TemplateError>)
    ensures
        match r {
            Ok(s) => render(template@, m@.variables) == Ok::<Seq<char>, Seq<char>>(s@),
            Err(e) => render(template@, m@.variables) == Err::<Seq<char>, Seq<char>>(e.variable@),
        },
{
    let ghost t = template@;
    let ghost vars = m@.variables;
    let n = template.unicode_len();
    let mut out = String::new();
    let mut name = String::new();
    let mut in_name = false;
    let mut i: usize = 0;
    while i < n
        invariant
            n == t.len(),
            t == template@,
            vars == m@.variables,
            0 <= i <= n,
            render(t, vars) == render_from(
                t,
                vars,
                i as int,
                out@,
                if in_name {
                    Some(name@)
                } else {
                    None
                },
            ),
        decreases n - i,
    {
        let c = template.get_char(i);
        let one = template.substring_char(i, i + 1);
        let ghost out0 = out@;
        let ghost name0 = name@;
        proof {
            assert(one@ =~= seq![c]);
        }
        if in_name {
            if c == '}' {
                match m.variable(name.as_str()) {
                    Some(v) => {
                        out.append(v.as_str());
                        name = String::new();
                        in_name = false;
                    },
                    None => {
                        return Err(TemplateError { variable: name });
                    },
                }
            } else {
                name.append(one);
                proof {
                    assert(name@ =~= name0.push(c));
                }
            }
        } else {
            if c == '{' {
                in_name = true;
                name = String::new();
            } else {
                out.append(one);
                proof {
                    assert(out@ =~= out0.push(c));
                }
            }
        }
        i += 1;
    }
    if in_name {
        let ghost out0 = out@;
        proof {
            reveal_strlit("{");
        }
        out.append("{");
        out.append(name.as_str());
        proof {
            assert(out@ =~= out0 + seq!['{'] + name@);
        }
    }
    Ok(out)
}

/// Instantiates the compute node of a workflow for the artifact at `path`
/// matched as `m`: the id and every artifact path are rendered.
pub fn instantiate(t: &ComputeNodeTemplate, m: &ArtifactMatch, path: &str) -> (r: Result<
    NodeSpec,
    TemplateError,
>)
    ensures
        match r {
            Ok(spec) => instantiate_spec(*t, m@.variables, path@) == Ok::<
                NodeSpecView,
                Seq<char>,
            >(spec@),
            Err(e) => instantiate_spec(*t, m@.variables, path@) == Err::<NodeSpecView, Seq<char>>(
                e.variable@,
            ),
        },
{
    let id = match render_template(t.id.as_str(), m) {
        Ok(id) => id,
        Err(e) => return Err(e),
    };
    let ghost its = t.inputs@.map_values(|it: InputTemplate| it@);
    let ghost vars = m@.variables;
    let mut inputs: Vec<ResolvedInput> = Vec::new();
    let mut i: usize = 0;
    proof {
        assert(inputs@.map_values(|r: ResolvedInput| r@) =~= Seq::<ResolvedView>::empty());
    }
    while i < t.inputs.len()
        invariant
            0 <= i <= t.inputs@.len(),
            its == t.inputs@.map_values(|it: InputTemplate| it@),
            vars == m@.variables,
            render(t.id@, vars) == Ok::<Seq<char>, Seq<char>>(id@),
            resolve_from(its, vars, path@, 0) == match resolve_from(its, vars, path@, i as int) {
                Err(e) => Err(e),
                Ok(rest) => Ok(inputs@.map_values(|r: ResolvedInput| r@) + rest),
            },
        decreases t.inputs@.len() - i,
    {
        let ghost before = inputs@.map_values(|r: ResolvedInput| r@);
        proof {
            assert(its[i as int] == t.inputs@[i as int]@);
        }
        let resolved = match &t.inputs[i] {
            InputTemplate::SelfArtifact => ResolvedInput::SelfArtifact { path: String::from_str(path) },
            InputTemplate::Artifact { path: p } => match render_template(p.as_str(), m) {
                Ok(q) => ResolvedInput::Artifact { path: q },
                Err(e) => return Err(e),
            },
            InputTemplate::External { name } => ResolvedInput::External { name: name.clone() },
        };
        proof {
            assert(its[i as int] == t.inputs@[i as int]@);
        }
        inputs.push(resolved);
        proof {
            assert(inputs@.map_values(|r: ResolvedInput| r@) =~= before.push(resolved@));
            let rf = resolve_from(its, vars, path@, i as int + 1);
            if rf is Ok {
                assert(before + (seq![resolved@] + rf->Ok_0) =~= before.push(resolved@)
                    + rf->Ok_0);
            }
        }
        i += 1;
    }
    proof {
        assert(inputs@.map_values(|r: ResolvedInput| r@) + Seq::<ResolvedView>::empty()
            =~= inputs@.map_values(|r: ResolvedInput| r@));
    }
    Ok(NodeSpec { id, node_type: t.node_type.clone(), inputs })
}

/// Classifies `path` and instantiates every workflow its type triggers, in
/// declaration order. A workflow whose template names a missing variable
/// gives its error in place; the others proceed.
pub fn plan_compute_nodes(config: &CurioConfig, path: &str) -> (r: Vec<
    Result<NodeSpec, TemplateError>,
>)
    requires
        config.wf(),
    ensures
        r@.len() == plan_spec(config.artifact_rules(), config.workflow_rules(), path@).len(),
        forall|k: int|
            0 <= k < r@.len() ==> match #[trigger] r@[k] {
                Ok(spec) => plan_spec(config.artifact_rules(), config.workflow_rules(), path@)[k]
                    == Ok::<NodeSpecView, Seq<char>>(spec@),
                Err(e) => plan_spec(config.artifact_rules(), config.workflow_rules(), path@)[k]
                    == Err::<NodeSpecView, Seq<char>>(e.variable@),
            },
{
    let mut r: Vec<Result<NodeSpec, TemplateError>> = Vec::new();
    let m = match config.match_artifact(path) {
        Some(m) => m,
        None => return r,
    };
    let ws = config.get_workflows_for_type(m.artifact_type.as_str());
    let ghost plan = plan_spec(config.artifact_rules(), config.workflow_rules(), path@);
    let mut k: usize = 0;
    while k < ws.len()
        invariant
            0 <= k <= ws@.len(),
            plan.len() == ws@.len(),
            plan == plan_spec(config.artifact_rules(), config.workflow_rules(), path@),
            forall|j: int| 0 <= j < ws@.len() ==> plan[j] == instantiate_spec(
                (#[trigger] ws@[j]).compute_node,
                m@.variables,
                path@,
            ),
            r@.len() == k,
            forall|j: int|
                0 <= j < k ==> match #[trigger] r@[j] {
                    Ok(spec) => plan[j] == Ok::<NodeSpecView, Seq<char>>(spec@),
                    Err(e) => plan[j] == Err::<NodeSpecView, Seq<char>>(e.variable@),
                },
        decreases ws@.len() - k,
    {
        let one = instantiate(&ws[k].compute_node, &m, path);
        r.push(one);
        k += 1;
    }
    r
}

} // verus!
