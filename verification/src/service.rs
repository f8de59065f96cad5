//! The rules of the two served calls: what this tier sends to the storage
//! service, and what it answers with what came back.

use vstd::prelude::*;
use vstd::string::*;

use crate::reserved::{is_reserved_root, is_reserved_segment};
use crate::wire::{
    ListProjectsRequest, ListProjectsResponse, ProjectServiceListProjectsRequest,
    ProjectServiceListProjectsResponse, ProjectServiceResolveProjectRequest,
    ProjectServiceResolveProjectResponse, RegisteredPath, Refusal, ResolveProjectRequest,
    ResolveProjectResponse, Scope, StatusCode, StoreFailure, StoredProject, TelemetryScope,
};

verus! {

/// The answer to a store `NOT_FOUND`: no registered ancestor.
pub const NO_ANCESTOR: &'static str = "no registered project is that path or an ancestor of it";

/// The answer to a store `INVALID_ARGUMENT`.
pub const INVALID_REQUEST: &'static str = "invalid request";

/// The answer to a store that did not answer in time.
pub const UNREACHABLE: &'static str = "the project registry could not be reached in time — retry";

/// The answer to every other store failure.
pub const UNAVAILABLE_REGISTRY: &'static str = "the project registry is unavailable";

pub(crate) proof fn lemma_sentences_differ()
    ensures
        NO_ANCESTOR@ != INVALID_REQUEST@,
        NO_ANCESTOR@ != UNREACHABLE@,
        NO_ANCESTOR@ != UNAVAILABLE_REGISTRY@,
{
    reveal_strlit("no registered project is that path or an ancestor of it");
    reveal_strlit("invalid request");
    reveal_strlit("the project registry could not be reached in time — retry");
    reveal_strlit("the project registry is unavailable");
    assert(NO_ANCESTOR@[0] != INVALID_REQUEST@[0]);
    assert(NO_ANCESTOR@[0] != UNREACHABLE@[0]);
    assert(NO_ANCESTOR@[0] != UNAVAILABLE_REGISTRY@[0]);
}

/// A scope that is present and whose every field is empty.
pub open spec fn is_unattested(scope: Option<Scope>) -> bool {
    &&& scope is Some
    &&& scope->0.request_id@.len() == 0
    &&& scope->0.instance_id@.len() == 0
    &&& scope->0.user_id@.len() == 0
    &&& scope->0.project_id@.len() == 0
}

/// The scope this tier sends to the store. It attests nothing: neither served
/// request carries a scope, so there is nothing to forward, and the store's
/// check is one of presence. Present, because the store refuses an absent
/// one; empty, because this tier has nothing to attest.
pub fn unattested_placeholder_scope() -> (scope: Option<Scope>)
    ensures
        is_unattested(scope),
{
    Some(
        Scope {
            request_id: String::new(),
            instance_id: String::new(),
            user_id: String::new(),
            project_id: String::new(),
        },
    )
}

/// A telemetry scope that carries the fields of `scope`, or empty fields where
/// there is no scope.
pub open spec fn carries_scope(record: TelemetryScope, scope: Option<&Scope>) -> bool {
    match scope {
        Some(s) => {
            &&& record.request_id@ == s.request_id@
            &&& record.instance_id@ == s.instance_id@
            &&& record.user_id@ == s.user_id@
            &&& record.project_id@ == s.project_id@
        },
        None => {
            &&& record.request_id@.len() == 0
            &&& record.instance_id@.len() == 0
            &&& record.user_id@.len() == 0
            &&& record.project_id@.len() == 0
        },
    }
}

/// Copy the scope fields a telemetry record needs; an absent scope gives
/// empty fields.
pub fn tel_scope(scope: Option<&Scope>) -> (record: TelemetryScope)
    ensures
        carries_scope(record, scope),
{
    match scope {
        Some(s) => TelemetryScope {
            request_id: s.request_id.clone(),
            instance_id: s.instance_id.clone(),
            user_id: s.user_id.clone(),
            project_id: s.project_id.clone(),
        },
        None => TelemetryScope {
            request_id: String::new(),
            instance_id: String::new(),
            user_id: String::new(),
            project_id: String::new(),
        },
    }
}

/// The code a caller sees for a store failure with code `code`.
pub open spec fn refusal_code(code: StatusCode) -> StatusCode {
    match code {
        StatusCode::NotFound => StatusCode::NotFound,
        StatusCode::InvalidArgument => StatusCode::InvalidArgument,
        StatusCode::Unavailable | StatusCode::DeadlineExceeded => StatusCode::Unavailable,
        _ => StatusCode::Internal,
    }
}

/// The message a caller sees for a store failure with code `code`.
pub open spec fn refusal_message(code: StatusCode) -> Seq<char> {
    match code {
        StatusCode::NotFound => NO_ANCESTOR@,
        StatusCode::InvalidArgument => INVALID_REQUEST@,
        StatusCode::Unavailable | StatusCode::DeadlineExceeded => UNREACHABLE@,
        _ => UNAVAILABLE_REGISTRY@,
    }
}

/// A store failure, passed through with its code but never its message.
///
/// `NOT_FOUND` stays `NOT_FOUND` (no registered ancestor) and
/// `INVALID_ARGUMENT` stays `INVALID_ARGUMENT`; an unreachable or late store is
/// `UNAVAILABLE`, a failure the caller can retry; everything else is
/// `INTERNAL`. The message is one of four fixed sentences: the store's own
/// words may name tables and columns and never reach the caller.
pub fn passthrough(failure: &StoreFailure) -> (refusal: Refusal)
    ensures
        refusal.code == refusal_code(failure.code),
        refusal.message@ == refusal_message(failure.code),
{
    match failure.code {
        StatusCode::NotFound => Refusal {
            code: StatusCode::NotFound,
            message: String::from_str(NO_ANCESTOR),
        },
        StatusCode::InvalidArgument => Refusal {
            code: StatusCode::InvalidArgument,
            message: String::from_str(INVALID_REQUEST),
        },
        StatusCode::Unavailable | StatusCode::DeadlineExceeded => Refusal {
            code: StatusCode::Unavailable,
            message: String::from_str(UNREACHABLE),
        },
        _ => Refusal { code: StatusCode::Internal, message: String::from_str(UNAVAILABLE_REGISTRY) },
    }
}

/// The listing request sent to the store for a caller's page.
///
/// The whole registry, never a slice (`under_path` empty); not filtered by
/// status (`status` unset); the page size and the caller's page token passed
/// as they came; and the placeholder scope.
pub fn list_request(request: ProjectServiceListProjectsRequest) -> (sent: ListProjectsRequest)
    ensures
        is_unattested(sent.scope),
        sent.under_path@.len() == 0,
        sent.status is None,
        sent.page_size == request.page_size,
        sent.page_token == request.page_token,
{
    ListProjectsRequest {
        scope: unattested_placeholder_scope(),
        under_path: String::new(),
        status: None,
        page_size: request.page_size,
        page_token: request.page_token,
    }
}

/// A stored row reduced to the three fields of a registered path.
pub open spec fn registered(row: StoredProject) -> RegisteredPath {
    RegisteredPath { path: row.path, status: row.status, aliases: row.aliases }
}

/// The rows that stay in the set: every row but one at the bare reserved
/// segment, whatever its status.
pub open spec fn kept_rows(rows: Seq<StoredProject>) -> Seq<StoredProject> {
    rows.filter(|row: StoredProject| !is_reserved_segment(row.path@))
}

/// The registry set a page of stored rows becomes: the kept rows, in the
/// store's order, each reduced to its registered path.
pub open spec fn registered_paths(rows: Seq<StoredProject>) -> Seq<RegisteredPath> {
    kept_rows(rows).map_values(|row: StoredProject| registered(row))
}

pub(crate) proof fn lemma_registered_paths_push(rows: Seq<StoredProject>, row: StoredProject)
    ensures
        !is_reserved_segment(row.path@) ==> registered_paths(rows.push(row))
            == registered_paths(rows).push(registered(row)),
        is_reserved_segment(row.path@) ==> registered_paths(rows.push(row)) == registered_paths(
            rows,
        ),
{
    reveal(Seq::filter);
    assert(rows.push(row).drop_last() =~= rows);
    assert(kept_rows(rows).push(row).map_values(|r: StoredProject| registered(r))
        =~= registered_paths(rows).push(registered(row)));
}

/// `entry` carries exactly the path, status and aliases of a row of `rows`
/// that is not at the reserved segment.
pub open spec fn comes_from_kept_row(entry: RegisteredPath, rows: Seq<StoredProject>) -> bool {
    exists|j: int|
        0 <= j < rows.len() && !is_reserved_segment((#[trigger] rows[j]).path@) && entry.path
            == rows[j].path && entry.status == rows[j].status && entry.aliases == rows[j].aliases
}

/// One page of the store's listing, answered to the caller.
///
/// The bare reserved segment is dropped (in any ASCII case); nothing is
/// dropped for its status; each kept row carries path, status and aliases in
/// the store's order; and the store's page token is passed on verbatim, never
/// recomputed from the rows that survived.
pub fn list_reply(listed: ListProjectsResponse) -> (reply: ProjectServiceListProjectsResponse)
    ensures
        reply.paths@ == registered_paths(listed.projects@),
        reply.next_page_token == listed.next_page_token,
        forall|i: int|
            0 <= i < reply.paths@.len() ==> comes_from_kept_row(
                #[trigger] reply.paths@[i],
                listed.projects@,
            ),
        forall|j: int|
            0 <= j < listed.projects@.len() && !is_reserved_segment(
                (#[trigger] listed.projects@[j]).path@,
            ) ==> exists|i: int|
                0 <= i < reply.paths@.len() && (#[trigger] reply.paths@[i]).path
                    == listed.projects@[j].path && reply.paths@[i].status
                    == listed.projects@[j].status && reply.paths@[i].aliases
                    == listed.projects@[j].aliases,
{
    let ghost rows = listed.projects@;
    let ListProjectsResponse { projects, next_page_token } = listed;
    let mut paths: Vec<RegisteredPath> = Vec::new();
    assert(registered_paths(rows.take(0)) =~= Seq::<RegisteredPath>::empty()) by {
        reveal(Seq::filter);
    }
    for row in it: projects.into_iter()
        invariant
            it.seq() == rows,
            paths@ == registered_paths(rows.take(it.index() as int)),
    {
        proof {
            assert(rows.take(it.index() + 1) =~= rows.take(it.index() as int).push(row));
            lemma_registered_paths_push(rows.take(it.index() as int), row);
        }
        if !is_reserved_root(row.path.as_str()) {
            paths.push(RegisteredPath { path: row.path, status: row.status, aliases: row.aliases });
        }
    }
    assert(rows.take(rows.len() as int) =~= rows);
    let reply = ProjectServiceListProjectsResponse { paths, next_page_token };
    proof {
        assert forall|j: int| 0 <= j < rows.len() && !is_reserved_segment(
            (#[trigger] rows[j]).path@,
        ) implies exists|i: int|
            0 <= i < reply.paths.len() && (#[trigger] reply.paths@[i]).path == rows[j].path
                && reply.paths@[i].status == rows[j].status && reply.paths@[i].aliases
                == rows[j].aliases by {
            crate::laws::every_other_row_survives(rows, j);
            let k = choose|k: int|
                0 <= k < registered_paths(rows).len() && (#[trigger] registered_paths(
                    rows,
                )[k]).path == rows[j].path && registered_paths(rows)[k].status == rows[j].status
                    && registered_paths(rows)[k].aliases == rows[j].aliases;
            assert(reply.paths@[k] == registered_paths(rows)[k]);
        }
    }
    proof {
        assert forall|i: int| 0 <= i < reply.paths@.len() implies comes_from_kept_row(
            #[trigger] reply.paths@[i],
            rows,
        ) by {
            crate::laws::every_entry_is_a_stored_row(rows, i);
            assert(reply.paths@[i] == registered_paths(rows)[i]);
        }
    }
    reply
}

/// The caller's answer to a listing, whichever way the store answered.
pub fn answer_list(stored: Result<ListProjectsResponse, StoreFailure>) -> (answer: Result<
    ProjectServiceListProjectsResponse,
    Refusal,
>)
    ensures
        stored is Ok <==> answer is Ok,
        stored matches Ok(listed) ==> answer->Ok_0.paths@ == registered_paths(listed.projects@)
            && answer->Ok_0.next_page_token == listed.next_page_token,
        stored matches Err(failure) ==> answer->Err_0.code == refusal_code(failure.code)
            && answer->Err_0.message@ == refusal_message(failure.code),
{
    match stored {
        Ok(listed) => Ok(list_reply(listed)),
        Err(failure) => Err(passthrough(&failure)),
    }
}

/// The resolution request sent to the store: the caller's candidate path as
/// it came, and the placeholder scope.
pub fn resolve_request(request: ProjectServiceResolveProjectRequest) -> (sent: ResolveProjectRequest)
    ensures
        is_unattested(sent.scope),
        sent.candidate_path == request.candidate_path,
{
    ResolveProjectRequest {
        scope: unattested_placeholder_scope(),
        candidate_path: request.candidate_path,
    }
}

/// The store's resolution, answered field for field: `exact: false` is the
/// soft failure that makes resolving upward acceptable, and it is passed on,
/// never turned into an error or dropped.
pub fn resolve_reply(resolved: ResolveProjectResponse) -> (reply: ProjectServiceResolveProjectResponse)
    ensures
        reply.resolved_path == resolved.resolved_path,
        reply.exact == resolved.exact,
        reply.via_alias == resolved.via_alias,
        reply.status == resolved.status,
{
    ProjectServiceResolveProjectResponse {
        resolved_path: resolved.resolved_path,
        exact: resolved.exact,
        via_alias: resolved.via_alias,
        status: resolved.status,
    }
}

/// The caller's answer to a resolution, whichever way the store answered.
pub fn answer_resolve(stored: Result<ResolveProjectResponse, StoreFailure>) -> (answer: Result<
    ProjectServiceResolveProjectResponse,
    Refusal,
>)
    ensures
        stored is Ok <==> answer is Ok,
        stored matches Ok(resolved) ==> {
            &&& answer->Ok_0.resolved_path == resolved.resolved_path
            &&& answer->Ok_0.exact == resolved.exact
            &&& answer->Ok_0.via_alias == resolved.via_alias
            &&& answer->Ok_0.status == resolved.status
        },
        stored matches Err(failure) ==> answer->Err_0.code == refusal_code(failure.code)
            && answer->Err_0.message@ == refusal_message(failure.code),
{
    match stored {
        Ok(resolved) => Ok(resolve_reply(resolved)),
        Err(failure) => Err(passthrough(&failure)),
    }
}

} // verus!
