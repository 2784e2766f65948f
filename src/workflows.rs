use vstd::prelude::*;
use vstd::string::StringExecFns;
use crate::keyed::KeyedMap;
use crate::text::join_with;

verus! {

/// The workflows of a pipeline, by name, in ascending name order.
pub struct Workflows {
    pub workflows: KeyedMap<Workflow>,
}

/// A workflow: its job invocations in the order they were declared.
pub struct Workflow {
    pub jobs: Vec<WorkflowJob>,
}

/// One invocation of a job in a workflow, with its parameter bindings by name.
pub struct WorkflowJob {
    pub name: WorkflowJobName,
    pub parameters: KeyedMap<ParameterValue>,
}

/// A job reference: a local job, or a job of the orb with the given alias.
pub enum WorkflowJobName {
    Local(String),
    Orb(String, String),
}

/// The value bound to a job parameter.
pub enum ParameterValue {
    Literal(String),
    PipelineTemplate(String),
}

/// The canonical string form of a job reference: `name` or `alias/name`.
pub open spec fn job_name_text(n: WorkflowJobName) -> Seq<char> {
    match n {
        WorkflowJobName::Local(name) => name@,
        WorkflowJobName::Orb(alias, name) => alias@ + seq!['/'] + name@,
    }
}

/// The interpolation marker that refers to pipeline parameter `name`.
pub open spec fn template_text(name: Seq<char>) -> Seq<char> {
    "<< pipeline.parameters."@ + name + " >>"@
}

/// The scalar string a binding renders to.
pub open spec fn binding_text(v: ParameterValue) -> Seq<char> {
    match v {
        ParameterValue::Literal(s) => s@,
        ParameterValue::PipelineTemplate(name) => template_text(name@),
    }
}

/// Whether `r` renders the bindings `s`: each name with its value's text, in order.
pub open spec fn bindings_rendered(s: Seq<(Seq<char>, ParameterValue)>, r: Seq<(String, String)>) -> bool {
    &&& r.len() == s.len()
    &&& forall|i: int|
        0 <= i < r.len() ==> (#[trigger] r[i]).0@ == s[i].0 && r[i].1@ == binding_text(s[i].1)
}

/// Whether `r` renders job invocation `j`: a single entry keyed by the job
/// reference whose value is the map of its bindings.
pub open spec fn job_rendered(j: WorkflowJob, r: (String, Vec<(String, String)>)) -> bool {
    &&& r.0@ == job_name_text(j.name)
    &&& bindings_rendered(j.parameters.entry_seq(), r.1@)
}

impl WorkflowJobName {
    /// A reference to a job defined in the pipeline itself.
    pub fn local(name: &str) -> (r: WorkflowJobName)
        ensures
            r matches WorkflowJobName::Local(n) && n@ == name@,
    {
        WorkflowJobName::Local(name.to_owned())
    }

    /// A reference to job `name` of the orb registered as `alias`.
    pub fn orb(alias: &str, name: &str) -> (r: WorkflowJobName)
        ensures
            r matches WorkflowJobName::Orb(a, n) && a@ == alias@ && n@ == name@,
    {
        WorkflowJobName::Orb(alias.to_owned(), name.to_owned())
    }

    /// The reference's canonical string form.
    pub fn render(&self) -> (r: String)
        ensures
            r@ == job_name_text(*self),
    {
        match self {
            WorkflowJobName::Local(name) => name.clone(),
            WorkflowJobName::Orb(alias, name) => {
                proof {
                    reveal_strlit("/");
                }
                join_with(alias.as_str(), "/", name.as_str())
            },
        }
    }
}

impl ParameterValue {
    /// The binding as the scalar string it renders to.
    pub fn render(&self) -> (r: String)
        ensures
            r@ == binding_text(*self),
    {
        match self {
            ParameterValue::Literal(value) => value.clone(),
            ParameterValue::PipelineTemplate(name) => {
                let r = "<< pipeline.parameters.".to_owned();
                let r = r.concat(name.as_str());
                r.concat(" >>")
            },
        }
    }
}

impl WorkflowJob {
    /// The invocation as its job reference and its rendered bindings in name order.
    pub fn render(&self) -> (r: (String, Vec<(String, String)>))
        ensures
            job_rendered(*self, r),
    {
        let ghost s = self.parameters.entry_seq();
        let mut bindings: Vec<(String, String)> = Vec::new();
        let n = self.parameters.len();
        let mut i: usize = 0;
        while i < n
            invariant
                s == self.parameters.entry_seq(),
                n == s.len(),
                i <= n,
                bindings@.len() == i,
                forall|j: int|
                    0 <= j < i ==> (#[trigger] bindings@[j]).0@ == s[j].0 && bindings@[j].1@
                        == binding_text(s[j].1),
            decreases n - i,
        {
            let key = self.parameters.key_at(i).clone();
            let value = self.parameters.value_at(i).render();
            bindings.push((key, value));
            i = i + 1;
        }
        (self.name.render(), bindings)
    }
}

impl Workflow {
    /// The job invocations rendered one by one, in declaration order.
    pub fn render(&self) -> (r: Vec<(String, Vec<(String, String)>)>)
        ensures
            r@.len() == self.jobs@.len(),
            forall|i: int| 0 <= i < r@.len() ==> job_rendered(self.jobs@[i], #[trigger] r@[i]),
    {
        let mut r: Vec<(String, Vec<(String, String)>)> = Vec::new();
        let mut i: usize = 0;
        while i < self.jobs.len()
            invariant
                i <= self.jobs@.len(),
                r@.len() == i,
                forall|j: int| 0 <= j < i ==> job_rendered(self.jobs@[j], #[trigger] r@[j]),
            decreases self.jobs@.len() - i,
        {
            r.push(self.jobs[i].render());
            i = i + 1;
        }
        r
    }
}

/// A workflow renders its invocations in the order they were appended: when its
/// job list is `earlier` followed by `last`, the rendering is that of `earlier`,
/// position by position, followed by that of `last`. Nothing is reordered.
pub proof fn lemma_rendered_jobs_follow_append_order(
    w: Workflow,
    earlier: Seq<WorkflowJob>,
    last: WorkflowJob,
    r: Seq<(String, Vec<(String, String)>)>,
)
    requires
        w.jobs@ == earlier.push(last),
        r.len() == w.jobs@.len(),
        forall|i: int| 0 <= i < r.len() ==> job_rendered(w.jobs@[i], #[trigger] r[i]),
    ensures
        r.len() == earlier.len() + 1,
        job_rendered(last, r[r.len() - 1]),
        forall|i: int| 0 <= i < earlier.len() ==> job_rendered(earlier[i], #[trigger] r[i]),
{
    assert(job_rendered(w.jobs@[r.len() - 1], r[r.len() - 1]));
    assert forall|i: int| 0 <= i < earlier.len() implies job_rendered(earlier[i], #[trigger] r[i]) by {
        assert(w.jobs@[i] == earlier[i]);
        assert(job_rendered(w.jobs@[i], r[i]));
    }
}


} // verus!
