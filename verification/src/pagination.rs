//! Pages of results, and the query parameters that ask for them.

use vstd::prelude::*;

verus! {

/// One page of results, and the cursor of the next page where there is one.
#[derive(Debug)]
pub struct PaginatedResponse<T> {
    pub data: Vec<T>,
    pub next_cursor: Option<String>,
}

/// Most items the platform hands out in one page.
pub const MAX_PAGE_SIZE: u32 = 250;

/// Query parameters of a paginated request.
#[derive(Debug)]
pub struct PaginationParams {
    pub limit: Option<u32>,
    pub cursor: Option<String>,
}

impl Default for PaginationParams {
    fn default() -> (r: Self)
        ensures
            r.limit is None,
            r.cursor is None,
    {
        PaginationParams { limit: None, cursor: None }
    }
}

impl PaginationParams {
    /// Parameters that ask for the first page, of the size the platform
    /// picks.
    pub fn new() -> (r: Self)
        ensures
            r.limit is None,
            r.cursor is None,
    {
        PaginationParams { limit: None, cursor: None }
    }

    /// Sets the page size, capped at what the platform hands out.
    pub fn with_limit(self, limit: u32) -> (r: Self)
        ensures
            r.limit == Some(if limit <= MAX_PAGE_SIZE { limit } else { MAX_PAGE_SIZE }),
            r.cursor == self.cursor,
    {
        let capped: u32 = if limit <= MAX_PAGE_SIZE {
            limit
        } else {
            MAX_PAGE_SIZE
        };
        PaginationParams { limit: Some(capped), cursor: self.cursor }
    }

    /// Sets the cursor of the page to ask for.
    pub fn with_cursor(self, cursor: Option<String>) -> (r: Self)
        ensures
            r.limit == self.limit,
            r.cursor == cursor,
    {
        PaginationParams { limit: self.limit, cursor }
    }
}

/// Query parameters for listing workflows.
#[derive(Debug)]
pub struct WorkflowListParams {
    pub limit: Option<u32>,
    pub cursor: Option<String>,
    pub active: Option<bool>,
    /// Tag names, separated by commas.
    pub tags: Option<String>,
    pub name: Option<String>,
}

impl Default for WorkflowListParams {
    fn default() -> (r: Self)
        ensures
            r.limit is None,
            r.cursor is None,
            r.active is None,
            r.tags is None,
            r.name is None,
    {
        WorkflowListParams { limit: None, cursor: None, active: None, tags: None, name: None }
    }
}

/// Query parameters for listing executions.
#[derive(Debug)]
pub struct ExecutionListParams {
    pub limit: Option<u32>,
    pub cursor: Option<String>,
    pub workflow_id: Option<String>,
    pub status: Option<String>,
    pub include_data: Option<bool>,
}

impl Default for ExecutionListParams {
    fn default() -> (r: Self)
        ensures
            r.limit is None,
            r.cursor is None,
            r.workflow_id is None,
            r.status is None,
            r.include_data is None,
    {
        ExecutionListParams {
            limit: None,
            cursor: None,
            workflow_id: None,
            status: None,
            include_data: None,
        }
    }
}

/// Query parameters for listing credentials.
#[derive(Debug)]
pub struct CredentialListParams {
    pub limit: Option<u32>,
    pub cursor: Option<String>,
    pub credential_type: Option<String>,
}

impl Default for CredentialListParams {
    fn default() -> (r: Self)
        ensures
            r.limit is None,
            r.cursor is None,
            r.credential_type is None,
    {
        CredentialListParams { limit: None, cursor: None, credential_type: None }
    }
}

/// What a health check found.
#[derive(Debug)]
pub struct HealthResponse {
    pub status: String,
}

} // verus!
