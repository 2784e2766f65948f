use circleci_pipeline::{
    KeyedMap, Orb, Parameter, ParameterType, ParameterValue, Pipeline, PipelineBuilder, Scalar,
    WorkflowJob, WorkflowJobName,
};

fn text(s: &Scalar) -> &str {
    match s {
        Scalar::Text(t) => t.as_str(),
        Scalar::Flag(_) => panic!("expected text"),
    }
}

fn keys<V>(m: &KeyedMap<V>) -> Vec<String> {
    let mut r = Vec::new();
    for i in 0..m.len() {
        r.push(m.key_at(i).clone());
    }
    r
}

fn hello_workflow(p: PipelineBuilder, name: &str) -> PipelineBuilder {
    p.workflow(name)
        .job(WorkflowJobName::orb("rusty", "hello"))
        .string_pipeline_parameter("to", "to")
        .finish()
        .finish()
}

#[test]
fn orb_renders_compact_reference() {
    let orb = Orb::new("ns", "name", "1.2.3");
    assert_eq!(orb.render(), "ns/name@1.2.3");
}

#[test]
fn pipeline_parameter_binding_renders_marker() {
    let v = ParameterValue::PipelineTemplate("to".to_string());
    assert_eq!(v.render(), "<< pipeline.parameters.to >>");
}

#[test]
fn literal_binding_renders_raw_value() {
    let v = ParameterValue::Literal("plain text".to_string());
    assert_eq!(v.render(), "plain text");
}

#[test]
fn job_names_render_local_and_orb_forms() {
    assert_eq!(WorkflowJobName::local("build").render(), "build");
    assert_eq!(WorkflowJobName::orb("rusty", "hello").render(), "rusty/hello");
}

#[test]
fn string_parameter_renders_type_default_description() {
    let p = Parameter::string("World", Some("Whom to greet?"));
    let r = p.render();
    assert_eq!(r.len(), 3);
    assert_eq!(r[0].0, "type");
    assert_eq!(text(&r[0].1), "string");
    assert_eq!(r[1].0, "default");
    assert_eq!(text(&r[1].1), "World");
    assert_eq!(r[2].0, "description");
    assert_eq!(text(&r[2].1), "Whom to greet?");
}

#[test]
fn string_parameter_without_description_has_two_keys() {
    let p = Parameter::string("World", None);
    let r = p.render();
    assert_eq!(r.len(), 2);
    assert_eq!(r[0].0, "type");
    assert_eq!(r[1].0, "default");
    assert_eq!(text(&r[1].1), "World");
}

#[test]
fn boolean_parameter_renders_bool_type() {
    let p = Parameter { value: ParameterType::Boolean(true), description: None };
    let r = p.render();
    assert_eq!(r.len(), 2);
    assert_eq!(text(&r[0].1), "bool");
    assert!(matches!(r[1].1, Scalar::Flag(true)));
}

#[test]
fn build_sets_version() {
    let p = Pipeline::builder().build().ok().unwrap();
    assert_eq!(p.version(), "2.1");
    assert_eq!(p.orbs().orbs.len(), 0);
    assert_eq!(p.parameters().parameters.len(), 0);
    assert_eq!(p.workflows().workflows.len(), 0);
}

#[test]
fn single_orb_workflow_document() {
    let p = Pipeline::builder()
        .orb("rusty", Orb::new("bencord0", "rusty-orb", "1.1.0"))
        .string_parameter("to", "World", Some("Whom to greet?"));
    let p = hello_workflow(p, "hello").build().ok().unwrap();

    let orbs = &p.orbs().orbs;
    assert_eq!(keys(orbs), vec!["rusty".to_string()]);
    assert_eq!(orbs.get("rusty").unwrap().render(), "bencord0/rusty-orb@1.1.0");

    let params = &p.parameters().parameters;
    let to = params.get("to").unwrap().render();
    assert_eq!(text(&to[1].1), "World");

    let hello = p.workflows().workflows.get("hello").unwrap();
    let jobs = hello.render();
    assert_eq!(jobs.len(), 1);
    assert_eq!(jobs[0].0, "rusty/hello");
    assert_eq!(
        jobs[0].1,
        vec![("to".to_string(), "<< pipeline.parameters.to >>".to_string())]
    );
}

#[test]
fn looped_workflows_are_independent() {
    let mut p = Pipeline::builder();
    for name in ["a", "b"] {
        p = hello_workflow(p, name);
    }
    let p = p.build().ok().unwrap();
    let workflows = &p.workflows().workflows;
    assert_eq!(keys(workflows), vec!["a".to_string(), "b".to_string()]);
    let a = workflows.get("a").unwrap().render();
    let b = workflows.get("b").unwrap().render();
    assert_eq!(a.len(), 1);
    assert_eq!(a, b);
}

#[test]
fn later_insertions_override_earlier_ones() {
    let p = Pipeline::builder()
        .orb("o", Orb::new("n1", "x", "1"))
        .orb("o", Orb::new("n2", "y", "2"))
        .string_parameter("p", "first", None)
        .string_parameter("p", "second", Some("d"))
        .workflow("w")
        .job(WorkflowJobName::local("one"))
        .finish()
        .finish()
        .workflow("w")
        .job(WorkflowJobName::local("two"))
        .finish()
        .finish()
        .build()
        .ok()
        .unwrap();
    assert_eq!(p.orbs().orbs.len(), 1);
    assert_eq!(p.orbs().orbs.get("o").unwrap().render(), "n2/y@2");
    let r = p.parameters().parameters.get("p").unwrap().render();
    assert_eq!(r.len(), 3);
    assert_eq!(text(&r[1].1), "second");
    assert_eq!(p.workflows().workflows.len(), 1);
    let w = p.workflows().workflows.get("w").unwrap().render();
    assert_eq!(w.len(), 1);
    assert_eq!(w[0].0, "two");
}

#[test]
fn mappings_walk_in_sorted_key_order() {
    let p = Pipeline::builder()
        .orb("zeta", Orb::new("a", "b", "1"))
        .orb("alpha", Orb::new("c", "d", "2"))
        .orb("Mid", Orb::new("e", "f", "3"))
        .build()
        .ok()
        .unwrap();
    assert_eq!(
        keys(&p.orbs().orbs),
        vec!["Mid".to_string(), "alpha".to_string(), "zeta".to_string()]
    );
}

#[test]
fn insertion_order_does_not_change_the_walk() {
    let mut a: KeyedMap<u32> = KeyedMap::new();
    a.insert("ab".to_string(), 1);
    a.insert("a".to_string(), 2);
    a.insert("b".to_string(), 3);
    let mut b: KeyedMap<u32> = KeyedMap::new();
    b.insert("b".to_string(), 3);
    b.insert("ab".to_string(), 1);
    b.insert("a".to_string(), 2);
    assert_eq!(keys(&a), keys(&b));
    assert_eq!(keys(&a), vec!["a".to_string(), "ab".to_string(), "b".to_string()]);
    for i in 0..a.len() {
        assert_eq!(a.value_at(i), b.value_at(i));
    }
    assert_eq!(a.get("c"), None);
}

#[test]
fn jobs_keep_finish_order() {
    let p = Pipeline::builder()
        .workflow("w")
        .job(WorkflowJobName::local("zulu"))
        .string_literal_parameter("k", "v")
        .finish()
        .job(WorkflowJobName::orb("o", "alpha"))
        .finish()
        .job(WorkflowJobName::local("mike"))
        .finish()
        .finish()
        .build()
        .ok()
        .unwrap();
    let w = p.workflows().workflows.get("w").unwrap();
    let names: Vec<String> = w.render().into_iter().map(|j| j.0).collect();
    assert_eq!(names, vec!["zulu".to_string(), "o/alpha".to_string(), "mike".to_string()]);
    assert_eq!(w.render()[0].1, vec![("k".to_string(), "v".to_string())]);
}

#[test]
fn job_bindings_render_in_name_order_with_last_write_winning() {
    let p = Pipeline::builder()
        .workflow("w")
        .job(WorkflowJobName::local("j"))
        .string_literal_parameter("to", "x")
        .string_pipeline_parameter("from", "origin")
        .string_pipeline_parameter("to", "target")
        .finish()
        .finish()
        .build()
        .ok()
        .unwrap();
    let w = p.workflows().workflows.get("w").unwrap();
    let job: &WorkflowJob = &w.jobs[0];
    assert_eq!(
        job.render().1,
        vec![
            ("from".to_string(), "<< pipeline.parameters.origin >>".to_string()),
            ("to".to_string(), "<< pipeline.parameters.target >>".to_string()),
        ]
    );
}
