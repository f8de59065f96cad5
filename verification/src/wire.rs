//! The messages this tier reads and writes, holding as plain values what its
//! rules read: the requests it sends to the storage service, the answers that
//! come back, and the answers it gives its own callers.

use vstd::prelude::*;

verus! {

/// The request scope the storage service demands on every read.
#[derive(Debug, PartialEq, Eq, Default)]
pub struct Scope {
    pub request_id: String,
    pub instance_id: String,
    pub user_id: String,
    pub project_id: String,
}

/// The scope fields a telemetry record carries.
#[derive(Debug, PartialEq, Eq, Default)]
pub struct TelemetryScope {
    pub request_id: String,
    pub instance_id: String,
    pub user_id: String,
    pub project_id: String,
}

/// A stored project row, as the storage service lists it: the fields the
/// listing rule reads.
#[derive(Debug, PartialEq, Eq, Default)]
pub struct StoredProject {
    pub path: String,
    pub status: i32,
    pub aliases: Vec<String>,
}

/// A path in the registry set handed to callers: path, status and aliases,
/// and nothing else of the stored row.
#[derive(Debug, PartialEq, Eq, Default)]
pub struct RegisteredPath {
    pub path: String,
    pub status: i32,
    pub aliases: Vec<String>,
}

/// A caller's request for one page of the registry.
#[derive(Debug, PartialEq, Eq, Default)]
pub struct ProjectServiceListProjectsRequest {
    pub page_size: i32,
    pub page_token: String,
}

/// The listing request sent to the storage service.
#[derive(Debug, PartialEq, Eq, Default)]
pub struct ListProjectsRequest {
    pub scope: Option<Scope>,
    pub under_path: String,
    pub status: Option<i32>,
    pub page_size: i32,
    pub page_token: String,
}

/// One page of stored rows, as the storage service answers it.
#[derive(Debug, PartialEq, Eq, Default)]
pub struct ListProjectsResponse {
    pub projects: Vec<StoredProject>,
    pub next_page_token: String,
}

/// One page of the registry set, as this tier answers it.
#[derive(Debug, PartialEq, Eq, Default)]
pub struct ProjectServiceListProjectsResponse {
    pub paths: Vec<RegisteredPath>,
    pub next_page_token: String,
}

/// A caller's request to resolve one candidate path.
#[derive(Debug, PartialEq, Eq, Default)]
pub struct ProjectServiceResolveProjectRequest {
    pub candidate_path: String,
}

/// The resolution request sent to the storage service.
#[derive(Debug, PartialEq, Eq, Default)]
pub struct ResolveProjectRequest {
    pub scope: Option<Scope>,
    pub candidate_path: String,
}

/// A resolution, as the storage service answers it.
#[derive(Debug, PartialEq, Eq, Default)]
pub struct ResolveProjectResponse {
    pub resolved_path: String,
    pub exact: bool,
    pub via_alias: bool,
    pub status: i32,
}

/// A resolution, as this tier answers it.
#[derive(Debug, PartialEq, Eq, Default)]
pub struct ProjectServiceResolveProjectResponse {
    pub resolved_path: String,
    pub exact: bool,
    pub via_alias: bool,
    pub status: i32,
}

/// The gRPC status codes; `Success` is the code gRPC names `OK`.
#[derive(Clone, Copy, Debug, PartialEq, Eq, Structural)]
pub enum StatusCode {
    Success,
    Cancelled,
    Unknown,
    InvalidArgument,
    DeadlineExceeded,
    NotFound,
    AlreadyExists,
    PermissionDenied,
    ResourceExhausted,
    FailedPrecondition,
    Aborted,
    OutOfRange,
    Unimplemented,
    Internal,
    Unavailable,
    DataLoss,
    Unauthenticated,
}

/// A failure the storage service answered with: its code and its own words.
#[derive(Debug, PartialEq, Eq)]
pub struct StoreFailure {
    pub code: StatusCode,
    pub message: String,
}

/// A failure this tier answers its caller with.
#[derive(Debug, PartialEq, Eq)]
pub struct Refusal {
    pub code: StatusCode,
    pub message: String,
}

} // verus!
