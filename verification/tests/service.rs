use yadgar_project::service::{
    answer_list, answer_resolve, list_reply, list_request, passthrough, resolve_request,
    tel_scope, INVALID_REQUEST, NO_ANCESTOR, UNAVAILABLE_REGISTRY, UNREACHABLE,
};
use yadgar_project::wire::{
    ListProjectsResponse, ProjectServiceListProjectsRequest, ProjectServiceListProjectsResponse,
    ProjectServiceResolveProjectRequest, ResolveProjectResponse, Scope, StatusCode, StoreFailure,
    StoredProject,
};

const ACTIVE: i32 = 1;
const ARCHIVED: i32 = 2;

/// What the CALLER asks about. Never what the store answers.
const CALLER_CANDIDATE: &str = "quinyx/qwfm/forecast/the-path-the-caller-sent";

/// What the STORE resolves it to, deliberately not an ancestor of the candidate.
const STORE_RESOLVED: &str = "acme/assigned-by-the-store";

/// A page token the caller never sends.
const STORE_TOKEN: &str = "acme/the-token-the-store-issued";

/// The token a CALLER sends. Never what the store returns.
const CALLER_TOKEN: &str = "quinyx/the-token-the-caller-sent";

/// What the store says when it fails: storage vocabulary.
const DB_DETAIL: &str = "column path of table project_0007 rejected 'mauve porcupine 4711'";

fn a_stored_project(path: &str, status: i32) -> StoredProject {
    StoredProject {
        path: path.into(),
        status,
        aliases: vec!["acme/the-former-path".into()],
    }
}

fn caller_page() -> ProjectServiceListProjectsRequest {
    ProjectServiceListProjectsRequest { page_size: 17, page_token: CALLER_TOKEN.into() }
}

fn list_returning(response: ListProjectsResponse) -> ProjectServiceListProjectsResponse {
    answer_list(Ok(response)).expect("the store answered, so the call must")
}

fn paths_of(reply: &ProjectServiceListProjectsResponse) -> Vec<&str> {
    reply.paths.iter().map(|p| p.path.as_str()).collect()
}

#[test]
fn a_stored_row_becomes_a_registered_path_carrying_three_fields() {
    let got = list_returning(ListProjectsResponse {
        projects: vec![a_stored_project("acme/widgets", ACTIVE)],
        next_page_token: String::new(),
    });

    assert_eq!(got.paths.len(), 1);
    let path = &got.paths[0];
    assert_eq!(path.path, "acme/widgets");
    assert_eq!(path.status, ACTIVE);
    assert_eq!(path.aliases, vec!["acme/the-former-path".to_string()]);
}

#[test]
fn the_bare_reserved_segment_is_dropped_from_the_set() {
    let got = list_returning(ListProjectsResponse {
        projects: vec![
            a_stored_project("local", ACTIVE),
            a_stored_project("acme/widgets", ACTIVE),
        ],
        next_page_token: String::new(),
    });
    assert_eq!(paths_of(&got), vec!["acme/widgets"]);
}

#[test]
fn the_reserved_segment_filter_folds_ascii_case() {
    let got = list_returning(ListProjectsResponse {
        projects: vec![
            a_stored_project("LOCAL", ACTIVE),
            a_stored_project("LoCaL", ACTIVE),
            a_stored_project("locals", ACTIVE),
            a_stored_project("local/home", ACTIVE),
        ],
        next_page_token: String::new(),
    });
    assert_eq!(paths_of(&got), vec!["locals", "local/home"]);
}

#[test]
fn an_archived_row_survives_into_the_set() {
    let got = list_returning(ListProjectsResponse {
        projects: vec![a_stored_project("acme/retired", ARCHIVED)],
        next_page_token: String::new(),
    });
    assert_eq!(got.paths.len(), 1);
    assert_eq!(got.paths[0].status, ARCHIVED);
    // And the tier must not ask the store to filter either.
    assert_eq!(list_request(caller_page()).status, None);
}

#[test]
fn the_page_token_is_forwarded_verbatim_in_both_directions() {
    let got = list_returning(ListProjectsResponse {
        projects: vec![a_stored_project("acme/widgets", ACTIVE)],
        next_page_token: STORE_TOKEN.into(),
    });
    assert_eq!(got.next_page_token, STORE_TOKEN);

    let sent = list_request(caller_page());
    assert_eq!(sent.page_token, CALLER_TOKEN);
    assert_eq!(sent.page_size, 17);
}

#[test]
fn filtering_the_reserved_row_does_not_disturb_the_token() {
    let got = list_returning(ListProjectsResponse {
        projects: vec![
            a_stored_project("acme/widgets", ACTIVE),
            a_stored_project("local", ACTIVE),
        ],
        next_page_token: STORE_TOKEN.into(),
    });
    assert_eq!(got.paths.len(), 1);
    assert_eq!(got.next_page_token, STORE_TOKEN);
}

#[test]
fn the_store_is_asked_for_the_whole_registry() {
    assert_eq!(list_request(caller_page()).under_path, "");
    assert_eq!(list_request(ProjectServiceListProjectsRequest::default()).under_path, "");
}

fn resolve_returning(response: ResolveProjectResponse) -> yadgar_project::wire::ProjectServiceResolveProjectResponse {
    answer_resolve(Ok(response)).expect("the store answered, so the call must")
}

#[test]
fn every_field_of_a_resolution_reaches_the_caller() {
    let got = resolve_returning(ResolveProjectResponse {
        resolved_path: STORE_RESOLVED.into(),
        exact: false,
        via_alias: true,
        status: ARCHIVED,
    });
    assert_eq!(got.resolved_path, STORE_RESOLVED);
    assert!(!got.exact);
    assert!(got.via_alias);
    assert_eq!(got.status, ARCHIVED);

    let sent = resolve_request(ProjectServiceResolveProjectRequest {
        candidate_path: CALLER_CANDIDATE.into(),
    });
    assert_eq!(sent.candidate_path, CALLER_CANDIDATE);
}

#[test]
fn an_inexact_resolution_is_not_an_error() {
    let got = resolve_returning(ResolveProjectResponse {
        resolved_path: STORE_RESOLVED.into(),
        exact: false,
        via_alias: false,
        status: ACTIVE,
    });
    assert_eq!(got.resolved_path, STORE_RESOLVED);
    assert!(!got.exact, "the soft failure must survive the hop");
}

#[test]
fn both_store_calls_carry_a_scope_because_the_store_refuses_an_absent_one() {
    let listed = list_request(ProjectServiceListProjectsRequest::default());
    let resolved = resolve_request(ProjectServiceResolveProjectRequest {
        candidate_path: CALLER_CANDIDATE.into(),
    });
    assert!(
        listed.scope.is_some(),
        "an absent scope is refused by project-db before it reads a row"
    );
    assert!(
        resolved.scope.is_some(),
        "an absent scope is refused by project-db before it reads a row"
    );
}

fn resolve_failing_with(code: StatusCode, detail: &str) -> yadgar_project::wire::Refusal {
    answer_resolve(Err(StoreFailure { code, message: detail.into() }))
        .expect_err("the store failed, so the call must")
}

#[test]
fn a_store_not_found_reaches_the_caller_as_not_found() {
    let status = resolve_failing_with(StatusCode::NotFound, DB_DETAIL);
    assert_eq!(status.code, StatusCode::NotFound);
    assert_eq!(status.message, "no registered project is that path or an ancestor of it");
}

#[test]
fn an_unreachable_store_reaches_the_caller_as_unavailable() {
    for code in [StatusCode::Unavailable, StatusCode::DeadlineExceeded] {
        let status = resolve_failing_with(code, DB_DETAIL);
        assert_eq!(status.code, StatusCode::Unavailable);
        assert_eq!(
            status.message,
            "the project registry could not be reached in time — retry"
        );
    }
}

#[test]
fn the_stores_own_words_never_reach_the_caller() {
    for code in [
        StatusCode::NotFound,
        StatusCode::InvalidArgument,
        StatusCode::Unavailable,
        StatusCode::DeadlineExceeded,
        StatusCode::Internal,
        StatusCode::PermissionDenied,
    ] {
        let status = resolve_failing_with(code, DB_DETAIL);
        assert!(
            !status.message.contains("project_0007"),
            "{code:?} leaked the store's message: {}",
            status.message
        );
        assert!(
            !status.message.contains("mauve porcupine"),
            "{code:?} leaked the store's message: {}",
            status.message
        );
    }
}

#[test]
fn a_list_failure_passes_through_with_its_code_intact() {
    let status = answer_list(Err(StoreFailure {
        code: StatusCode::InvalidArgument,
        message: DB_DETAIL.into(),
    }))
    .expect_err("the store failed, so the call must");
    assert_eq!(status.code, StatusCode::InvalidArgument);
    assert!(!status.message.contains("project_0007"));
}

#[test]
fn every_store_code_maps_to_its_caller_code_and_sentence() {
    let all = [
        (StatusCode::Success, StatusCode::Internal, UNAVAILABLE_REGISTRY),
        (StatusCode::Cancelled, StatusCode::Internal, UNAVAILABLE_REGISTRY),
        (StatusCode::Unknown, StatusCode::Internal, UNAVAILABLE_REGISTRY),
        (StatusCode::InvalidArgument, StatusCode::InvalidArgument, INVALID_REQUEST),
        (StatusCode::DeadlineExceeded, StatusCode::Unavailable, UNREACHABLE),
        (StatusCode::NotFound, StatusCode::NotFound, NO_ANCESTOR),
        (StatusCode::AlreadyExists, StatusCode::Internal, UNAVAILABLE_REGISTRY),
        (StatusCode::PermissionDenied, StatusCode::Internal, UNAVAILABLE_REGISTRY),
        (StatusCode::ResourceExhausted, StatusCode::Internal, UNAVAILABLE_REGISTRY),
        (StatusCode::FailedPrecondition, StatusCode::Internal, UNAVAILABLE_REGISTRY),
        (StatusCode::Aborted, StatusCode::Internal, UNAVAILABLE_REGISTRY),
        (StatusCode::OutOfRange, StatusCode::Internal, UNAVAILABLE_REGISTRY),
        (StatusCode::Unimplemented, StatusCode::Internal, UNAVAILABLE_REGISTRY),
        (StatusCode::Internal, StatusCode::Internal, UNAVAILABLE_REGISTRY),
        (StatusCode::Unavailable, StatusCode::Unavailable, UNREACHABLE),
        (StatusCode::DataLoss, StatusCode::Internal, UNAVAILABLE_REGISTRY),
        (StatusCode::Unauthenticated, StatusCode::Internal, UNAVAILABLE_REGISTRY),
    ];
    for (code, want_code, want_message) in all {
        let refusal = passthrough(&StoreFailure { code, message: DB_DETAIL.into() });
        assert_eq!(refusal.code, want_code, "{code:?}");
        assert_eq!(refusal.message, want_message, "{code:?}");
    }
    assert_eq!(INVALID_REQUEST, "invalid request");
    assert_eq!(UNAVAILABLE_REGISTRY, "the project registry is unavailable");
}

#[test]
fn the_telemetry_scope_copies_a_scope_and_empties_an_absent_one() {
    let scope = Scope {
        request_id: "req-9".into(),
        instance_id: "inst-3".into(),
        user_id: "user-5".into(),
        project_id: "acme/widgets".into(),
    };
    let record = tel_scope(Some(&scope));
    assert_eq!(record.request_id, "req-9");
    assert_eq!(record.instance_id, "inst-3");
    assert_eq!(record.user_id, "user-5");
    assert_eq!(record.project_id, "acme/widgets");

    let empty = tel_scope(None);
    assert_eq!(empty.request_id, "");
    assert_eq!(empty.instance_id, "");
    assert_eq!(empty.user_id, "");
    assert_eq!(empty.project_id, "");
}

#[test]
fn the_set_keeps_the_store_order() {
    let got = list_reply(ListProjectsResponse {
        projects: vec![
            a_stored_project("zeta/one", ACTIVE),
            a_stored_project("Local", ARCHIVED),
            a_stored_project("alpha/two", ARCHIVED),
            a_stored_project("mid/three", ACTIVE),
        ],
        next_page_token: String::new(),
    });
    assert_eq!(paths_of(&got), vec!["zeta/one", "alpha/two", "mid/three"]);
    assert_eq!(got.paths[1].status, ARCHIVED);
}

/// Two pages answered one after the other give the set that one page of all
/// the rows gives.
#[test]
fn two_pages_give_the_set_one_page_gives() {
    let rows = ["acme/a", "local", "acme/b", "LOCAL", "acme/c"];
    let whole = list_reply(ListProjectsResponse {
        projects: rows.iter().map(|p| a_stored_project(p, ACTIVE)).collect(),
        next_page_token: String::new(),
    });
    let first = list_reply(ListProjectsResponse {
        projects: rows[..2].iter().map(|p| a_stored_project(p, ACTIVE)).collect(),
        next_page_token: STORE_TOKEN.into(),
    });
    let second = list_reply(ListProjectsResponse {
        projects: rows[2..].iter().map(|p| a_stored_project(p, ACTIVE)).collect(),
        next_page_token: String::new(),
    });
    let mut joined = paths_of(&first);
    joined.extend(paths_of(&second));
    assert_eq!(joined, paths_of(&whole));
    assert_eq!(first.next_page_token, STORE_TOKEN);
}

/// The same rows with other statuses give the same paths.
#[test]
fn status_does_not_change_the_paths_of_the_set() {
    let rows = ["acme/a", "lOcAl", "acme/b"];
    let live = list_reply(ListProjectsResponse {
        projects: rows.iter().map(|p| a_stored_project(p, ACTIVE)).collect(),
        next_page_token: String::new(),
    });
    let archived = list_reply(ListProjectsResponse {
        projects: rows.iter().map(|p| a_stored_project(p, ARCHIVED)).collect(),
        next_page_token: String::new(),
    });
    assert_eq!(paths_of(&live), paths_of(&archived));
    assert_eq!(paths_of(&live), vec!["acme/a", "acme/b"]);
}
