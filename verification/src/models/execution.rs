//! Executions of workflows.

use crate::models::common::{format_timestamp_str, shown_timestamp};
use crate::models::tag::{format_optional_timestamp, shown_optional_timestamp};
use crate::timefmt::rfc3339_minutes;
use vstd::prelude::*;
use vstd::string::*;

verus! {

/// The state of an execution.
#[derive(Debug, Clone, Copy, PartialEq, Eq, Structural)]
pub enum ExecutionStatus {
    Running,
    Success,
    Error,
    Waiting,
    Canceled,
    /// A state this model does not know.
    Unknown,
}

/// The name of a state, as the platform writes it.
pub open spec fn status_label(status: ExecutionStatus) -> Seq<char> {
    match status {
        ExecutionStatus::Running => "running"@,
        ExecutionStatus::Success => "success"@,
        ExecutionStatus::Error => "error"@,
        ExecutionStatus::Waiting => "waiting"@,
        ExecutionStatus::Canceled => "canceled"@,
        ExecutionStatus::Unknown => "unknown"@,
    }
}

impl ExecutionStatus {
    /// The name of the state, as the platform writes it.
    pub fn label(&self) -> (r: String)
        ensures
            r@ == status_label(*self),
    {
        match self {
            ExecutionStatus::Running => "running".to_owned(),
            ExecutionStatus::Success => "success".to_owned(),
            ExecutionStatus::Error => "error".to_owned(),
            ExecutionStatus::Waiting => "waiting".to_owned(),
            ExecutionStatus::Canceled => "canceled".to_owned(),
            ExecutionStatus::Unknown => "unknown".to_owned(),
        }
    }
}

/// Summary of an execution.
#[derive(Debug)]
pub struct Execution {
    pub id: String,
    pub workflow_id: String,
    pub status: ExecutionStatus,
    pub started_at: String,
    pub stopped_at: Option<String>,
    pub finished: bool,
    pub mode: String,
}

impl Execution {
    /// The column headers of a table of executions.
    pub fn headers() -> (r: Vec<&'static str>)
        ensures
            r@.len() == 6,
            r@[0]@ == "ID"@,
            r@[1]@ == "WORKFLOW"@,
            r@[2]@ == "STATUS"@,
            r@[3]@ == "MODE"@,
            r@[4]@ == "STARTED"@,
            r@[5]@ == "STOPPED"@,
    {
        let mut h: Vec<&'static str> = Vec::new();
        h.push("ID");
        h.push("WORKFLOW");
        h.push("STATUS");
        h.push("MODE");
        h.push("STARTED");
        h.push("STOPPED");
        h
    }

    /// The row of this execution, column by column.
    pub fn row(&self) -> (r: Vec<String>)
        ensures
            r.deep_view() == seq![
                self.id@,
                self.workflow_id@,
                status_label(self.status),
                self.mode@,
                shown_timestamp(rfc3339_minutes(self.started_at@), self.started_at@),
                shown_optional_timestamp(self.stopped_at),
            ],
    {
        let mut row: Vec<String> = Vec::new();
        row.push(self.id.clone());
        row.push(self.workflow_id.clone());
        row.push(self.status.label());
        row.push(self.mode.clone());
        row.push(format_timestamp_str(self.started_at.as_str()));
        row.push(format_optional_timestamp(&self.stopped_at));
        assert(row.deep_view() =~= seq![
            self.id@,
            self.workflow_id@,
            status_label(self.status),
            self.mode@,
            shown_timestamp(rfc3339_minutes(self.started_at@), self.started_at@),
            shown_optional_timestamp(self.stopped_at),
        ]);
        row
    }
}

} // verus!
