//! The entities of a workflow graph.

pub mod common;
pub mod connection;
pub mod credential;
pub mod execution;
pub mod index;
pub mod index_laws;
pub mod index_model;
pub mod node;
pub mod tag;
pub mod workflow;

pub use connection::{Connection, ConnectionEndpoint, ConnectionsMap, PortOutputs, SourceOutputs};
pub use node::{Node, Position};
pub use workflow::{TypedWorkflow, Workflow, WorkflowSettings, WorkflowTag};
pub use common::{fits_truncate, format_timestamp_str, truncate, try_truncate};
pub use credential::Credential;
pub use execution::{Execution, ExecutionStatus};
pub use tag::{Tag, TagAssignment, TagCreate, TagId, TagUpdate};
