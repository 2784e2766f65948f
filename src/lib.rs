//! Typed construction of CircleCI pipeline configuration documents.
//!
//! A [`PipelineBuilder`] gathers orbs, pipeline parameters and workflows and
//! finishes into a [`Pipeline`]. Each part of the document renders itself into
//! the compact forms the configuration format expects; mappings are kept in
//! ascending key order and workflow jobs in declaration order.
pub mod keyed;
pub mod orbs;
pub mod parameters;
pub mod pipelines;
pub mod text;
pub mod workflows;

pub use keyed::KeyedMap;
pub use orbs::{Orb, Orbs};
pub use parameters::{Parameter, ParameterType, Parameters, Scalar};
pub use pipelines::{BuildError, Jobs, Pipeline, PipelineBuilder, WorkflowBuilder, WorkflowJobBuilder};
pub use workflows::{ParameterValue, Workflow, WorkflowJob, WorkflowJobName, Workflows};
