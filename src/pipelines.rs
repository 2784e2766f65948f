use vstd::prelude::*;
use crate::keyed::{lemma_entries_determined_by_mapping, KeyedMap};
use crate::orbs::{Orb, Orbs};
use crate::parameters::{is_string_parameter, Parameter, Parameters};
use crate::workflows::{ParameterValue, Workflow, WorkflowJob, WorkflowJobName, Workflows};

verus! {

/// The configuration format version every pipeline declares.
pub open spec fn pipeline_version() -> Seq<char> {
    seq!['2', '.', '1']
}

/// The section of locally defined jobs; none are defined yet.
pub struct Jobs {}

/// Why a pipeline could not be finalised. No check refuses a pipeline yet.
pub struct BuildError {
    pub message: String,
}

/// A finished pipeline configuration document.
pub struct Pipeline {
    version: String,
    orbs: Orbs,
    parameters: Parameters,
    jobs: Jobs,
    workflows: Workflows,
}

impl Pipeline {
    pub closed spec fn spec_version(&self) -> Seq<char> {
        self.version@
    }

    pub closed spec fn spec_orbs(&self) -> KeyedMap<Orb> {
        self.orbs.orbs
    }

    pub closed spec fn spec_parameters(&self) -> KeyedMap<Parameter> {
        self.parameters.parameters
    }

    pub closed spec fn spec_workflows(&self) -> KeyedMap<Workflow> {
        self.workflows.workflows
    }

    /// The document's invariant: each mapping has its keys in ascending order.
    pub open spec fn wf(&self) -> bool {
        &&& self.spec_orbs().wf()
        &&& self.spec_parameters().wf()
        &&& self.spec_workflows().wf()
    }

    /// A builder with no orbs, parameters or workflows.
    pub fn builder() -> (r: PipelineBuilder)
        ensures
            r.wf(),
            r.spec_orbs()@ == Map::<Seq<char>, Orb>::empty(),
            r.spec_parameters()@ == Map::<Seq<char>, Parameter>::empty(),
            r.spec_workflows()@ == Map::<Seq<char>, Workflow>::empty(),
    {
        PipelineBuilder {
            orbs: KeyedMap::new(),
            parameters: KeyedMap::new(),
            workflows: KeyedMap::new(),
        }
    }

    /// The format version, always `2.1`.
    pub fn version(&self) -> (r: &String)
        ensures
            r@ == self.spec_version(),
    {
        &self.version
    }

    /// The orbs by alias.
    pub fn orbs(&self) -> (r: &Orbs)
        ensures
            r.orbs == self.spec_orbs(),
    {
        &self.orbs
    }

    /// The pipeline parameters by name.
    pub fn parameters(&self) -> (r: &Parameters)
        ensures
            r.parameters == self.spec_parameters(),
    {
        &self.parameters
    }

    /// The locally defined jobs section.
    pub fn jobs(&self) -> (r: &Jobs) {
        &self.jobs
    }

    /// The workflows by name.
    pub fn workflows(&self) -> (r: &Workflows)
        ensures
            r.workflows == self.spec_workflows(),
    {
        &self.workflows
    }
}

/// Two finished documents whose orb, parameter and workflow mappings are equal
/// walk those mappings in the same order, entry for entry, whatever order the
/// builder calls that made them came in.
pub proof fn lemma_document_order_independent(a: Pipeline, b: Pipeline)
    requires
        a.wf(),
        b.wf(),
        a.spec_orbs()@ == b.spec_orbs()@,
        a.spec_parameters()@ == b.spec_parameters()@,
        a.spec_workflows()@ == b.spec_workflows()@,
    ensures
        a.spec_orbs().entry_seq() == b.spec_orbs().entry_seq(),
        a.spec_parameters().entry_seq() == b.spec_parameters().entry_seq(),
        a.spec_workflows().entry_seq() == b.spec_workflows().entry_seq(),
{
    lemma_entries_determined_by_mapping(a.spec_orbs(), b.spec_orbs());
    lemma_entries_determined_by_mapping(a.spec_parameters(), b.spec_parameters());
    lemma_entries_determined_by_mapping(a.spec_workflows(), b.spec_workflows());
}

/// Accumulates orbs, parameters and workflows; each call consumes the builder
/// and hands back the next state.
pub struct PipelineBuilder {
    orbs: KeyedMap<Orb>,
    parameters: KeyedMap<Parameter>,
    workflows: KeyedMap<Workflow>,
}

impl PipelineBuilder {
    pub closed spec fn spec_orbs(&self) -> KeyedMap<Orb> {
        self.orbs
    }

    pub closed spec fn spec_parameters(&self) -> KeyedMap<Parameter> {
        self.parameters
    }

    pub closed spec fn spec_workflows(&self) -> KeyedMap<Workflow> {
        self.workflows
    }

    /// The builder's invariant: each mapping has its keys in ascending order.
    pub open spec fn wf(&self) -> bool {
        &&& self.spec_orbs().wf()
        &&& self.spec_parameters().wf()
        &&& self.spec_workflows().wf()
    }

    /// Registers `orb` under `alias`, replacing an earlier orb of that alias.
    pub fn orb(self, alias: &str, orb: Orb) -> (r: Self)
        requires
            self.wf(),
        ensures
            r.wf(),
            r.spec_orbs()@ == self.spec_orbs()@.insert(alias@, orb),
            r.spec_parameters() == self.spec_parameters(),
            r.spec_workflows() == self.spec_workflows(),
    {
        let mut r = self;
        r.orbs.insert(alias.to_owned(), orb);
        r
    }

    /// Declares a string parameter `name` with its default and optional
    /// description, replacing an earlier parameter of that name.
    pub fn string_parameter(self, name: &str, default: &str, description: Option<&str>) -> (r:
        Self)
        requires
            self.wf(),
        ensures
            r.wf(),
            r.spec_parameters()@ == self.spec_parameters()@.insert(
                name@,
                r.spec_parameters()@[name@],
            ),
            is_string_parameter(r.spec_parameters()@[name@], default@, description),
            r.spec_orbs() == self.spec_orbs(),
            r.spec_workflows() == self.spec_workflows(),
    {
        let mut r = self;
        let p = Parameter::string(default, description);
        let ghost pv = p;
        r.parameters.insert(name.to_owned(), p);
        assert(r.parameters@[name@] == pv);
        r
    }

    /// Opens the workflow `name`; its builder returns this one on `finish`.
    pub fn workflow(self, name: &str) -> (r: WorkflowBuilder)
        requires
            self.wf(),
        ensures
            r.wf(),
            r.spec_name() == name@,
            r.spec_jobs() == Seq::<WorkflowJob>::empty(),
            r.spec_parent() == self,
    {
        WorkflowBuilder { name: name.to_owned(), jobs: Vec::new(), pipeline: self }
    }

    /// Finalises the document. No pipeline is refused yet.
    pub fn build(self) -> (r: Result<Pipeline, BuildError>)
        requires
            self.wf(),
        ensures
            r matches Ok(p) && p.wf() && p.spec_version() == pipeline_version()
                && p.spec_orbs() == self.spec_orbs() && p.spec_parameters()
                == self.spec_parameters() && p.spec_workflows() == self.spec_workflows(),
    {
        let version = "2.1".to_owned();
        proof {
            reveal_strlit("2.1");
            assert(version@ =~= pipeline_version());
        }
        Ok(
            Pipeline {
                version,
                orbs: Orbs { orbs: self.orbs },
                parameters: Parameters { parameters: self.parameters },
                jobs: Jobs {  },
                workflows: Workflows { workflows: self.workflows },
            },
        )
    }
}

/// Collects the jobs of one workflow, then hands its parent back.
pub struct WorkflowBuilder {
    name: String,
    jobs: Vec<WorkflowJob>,
    pipeline: PipelineBuilder,
}

impl WorkflowBuilder {
    pub closed spec fn spec_name(&self) -> Seq<char> {
        self.name@
    }

    pub closed spec fn spec_jobs(&self) -> Seq<WorkflowJob> {
        self.jobs@
    }

    pub closed spec fn spec_parent(&self) -> PipelineBuilder {
        self.pipeline
    }

    pub open spec fn wf(&self) -> bool {
        self.spec_parent().wf()
    }

    /// Opens an invocation of job `name` in this workflow.
    pub fn job(self, name: WorkflowJobName) -> (r: WorkflowJobBuilder)
        requires
            self.wf(),
        ensures
            r.wf(),
            r.spec_name() == name,
            r.spec_parameters()@ == Map::<Seq<char>, ParameterValue>::empty(),
            r.spec_parent() == self,
    {
        WorkflowJobBuilder { name, parameters: KeyedMap::new(), workflow: self }
    }

    /// Closes the workflow: stores it under its name in the parent, replacing
    /// an earlier workflow of that name, and returns the parent.
    pub fn finish(self) -> (r: PipelineBuilder)
        requires
            self.wf(),
        ensures
            r.wf(),
            r.spec_workflows()@ == self.spec_parent().spec_workflows()@.insert(
                self.spec_name(),
                r.spec_workflows()@[self.spec_name()],
            ),
            r.spec_workflows()@[self.spec_name()].jobs@ == self.spec_jobs(),
            r.spec_orbs() == self.spec_parent().spec_orbs(),
            r.spec_parameters() == self.spec_parent().spec_parameters(),
    {
        let mut pipeline = self.pipeline;
        let ghost jobs = self.jobs@;
        let w = Workflow { jobs: self.jobs };
        let ghost wv = w;
        pipeline.workflows.insert(self.name, w);
        assert(pipeline.workflows@[self.name@] == wv);
        pipeline
    }
}

/// Collects the parameter bindings of one job invocation, then hands its
/// workflow back.
pub struct WorkflowJobBuilder {
    name: WorkflowJobName,
    parameters: KeyedMap<ParameterValue>,
    workflow: WorkflowBuilder,
}

impl WorkflowJobBuilder {
    pub closed spec fn spec_name(&self) -> WorkflowJobName {
        self.name
    }

    pub closed spec fn spec_parameters(&self) -> KeyedMap<ParameterValue> {
        self.parameters
    }

    pub closed spec fn spec_parent(&self) -> WorkflowBuilder {
        self.workflow
    }

    pub open spec fn wf(&self) -> bool {
        &&& self.spec_parameters().wf()
        &&& self.spec_parent().wf()
    }

    /// Binds parameter `name` of the job to the fixed string `value`,
    /// replacing an earlier binding of that name.
    pub fn string_literal_parameter(self, name: &str, value: &str) -> (r: Self)
        requires
            self.wf(),
        ensures
            r.wf(),
            r.spec_parameters()@ == self.spec_parameters()@.insert(
                name@,
                r.spec_parameters()@[name@],
            ),
            r.spec_parameters()@[name@] matches ParameterValue::Literal(v) && v@ == value@,
            r.spec_name() == self.spec_name(),
            r.spec_parent() == self.spec_parent(),
    {
        let mut r = self;
        let v = ParameterValue::Literal(value.to_owned());
        let ghost vv = v;
        r.parameters.insert(name.to_owned(), v);
        assert(r.parameters@[name@] == vv);
        r
    }

    /// Binds parameter `name` of the job to the pipeline parameter `parameter`,
    /// replacing an earlier binding of that name.
    pub fn string_pipeline_parameter(self, name: &str, parameter: &str) -> (r: Self)
        requires
            self.wf(),
        ensures
            r.wf(),
            r.spec_parameters()@ == self.spec_parameters()@.insert(
                name@,
                r.spec_parameters()@[name@],
            ),
            r.spec_parameters()@[name@] matches ParameterValue::PipelineTemplate(p) && p@
                == parameter@,
            r.spec_name() == self.spec_name(),
            r.spec_parent() == self.spec_parent(),
    {
        let mut r = self;
        let v = ParameterValue::PipelineTemplate(parameter.to_owned());
        let ghost vv = v;
        r.parameters.insert(name.to_owned(), v);
        assert(r.parameters@[name@] == vv);
        r
    }

    /// Closes the invocation: appends it after the workflow's earlier jobs and
    /// returns the workflow builder.
    pub fn finish(self) -> (r: WorkflowBuilder)
        requires
            self.wf(),
        ensures
            r.wf(),
            r.spec_jobs() == self.spec_parent().spec_jobs().push(
                (WorkflowJob { name: self.spec_name(), parameters: self.spec_parameters() }),
            ),
            r.spec_name() == self.spec_parent().spec_name(),
            r.spec_parent() == self.spec_parent().spec_parent(),
    {
        let mut workflow = self.workflow;
        workflow.jobs.push(WorkflowJob { name: self.name, parameters: self.parameters });
        workflow
    }
}

} // verus!
