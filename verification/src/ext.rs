//! Query parameters for the platform's deployment-listing and
//! comparison endpoints. Every builder method sets exactly one
//! parameter and keeps the rest; the boundary that issues the requests
//! serialises a finished value.

use vstd::prelude::*;

verus! {

/// Filter and pagination parameters for listing deployments.
#[derive(Debug)]
pub struct ListDeploymentsQueryParameters {
    pub sha: Option<String>,
    pub target_ref: Option<String>,
    pub task: Option<String>,
    pub environment: Option<String>,
    pub per_page: Option<u8>,
    pub page: Option<u32>,
}

impl ListDeploymentsQueryParameters {
    /// No filters: the platform's defaults apply.
    pub fn new() -> (r: Self)
        ensures
            r.sha is None,
            r.target_ref is None,
            r.task is None,
            r.environment is None,
            r.per_page is None,
            r.page is None,
    {
        Self {
            sha: None,
            target_ref: None,
            task: None,
            environment: None,
            per_page: None,
            page: None,
        }
    }

    /// Only deployments of this SHA are listed.
    pub fn sha(self, sha: String) -> (r: Self)
        ensures
            r == (Self { sha: Some(sha), ..self }),
    {
        Self { sha: Some(sha), ..self }
    }

    /// Only deployments of this ref are listed; setting a ref and
    /// setting a SHA are alternatives.
    pub fn target_ref(self, reference: String) -> (r: Self)
        ensures
            r == (Self { target_ref: Some(reference), ..self }),
    {
        Self { target_ref: Some(reference), ..self }
    }

    /// Only deployments whose task field equals the given value are
    /// listed.
    pub fn task(self, task: String) -> (r: Self)
        ensures
            r == (Self { task: Some(task), ..self }),
    {
        Self { task: Some(task), ..self }
    }

    /// Only deployments of this environment are listed.
    pub fn environment(self, environment: String) -> (r: Self)
        ensures
            r == (Self { environment: Some(environment), ..self }),
    {
        Self { environment: Some(environment), ..self }
    }

    /// Results per page (max: 100, default: 30).
    pub fn per_page(self, per_page: u8) -> (r: Self)
        ensures
            r == (Self { per_page: Some(per_page), ..self }),
    {
        Self { per_page: Some(per_page), ..self }
    }

    /// Page number of the results to fetch (default: 1).
    pub fn page(self, page: u32) -> (r: Self)
        ensures
            r == (Self { page: Some(page), ..self }),
    {
        Self { page: Some(page), ..self }
    }
}

/// Pagination parameters for a base...head comparison request.
#[derive(Debug)]
pub struct PageQueryParameters {
    pub per_page: Option<u8>,
    pub page: Option<u32>,
}

impl PageQueryParameters {
    /// No pagination controls: the platform's defaults apply.
    pub fn new() -> (r: Self)
        ensures
            r.per_page is None,
            r.page is None,
    {
        Self { per_page: None, page: None }
    }

    /// Results per page (max: 100, default: 30).
    pub fn per_page(self, per_page: u8) -> (r: Self)
        ensures
            r == (Self { per_page: Some(per_page), ..self }),
    {
        Self { per_page: Some(per_page), ..self }
    }

    /// Page number of the results to fetch (default: 1).
    pub fn page(self, page: u32) -> (r: Self)
        ensures
            r == (Self { page: Some(page), ..self }),
    {
        Self { page: Some(page), ..self }
    }
}

} // verus!
