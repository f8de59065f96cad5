use yadgar_project::reserved::{is_reserved_root, RESERVED_ROOT};
use yadgar_project::service::unattested_placeholder_scope;

/// The precision of the guard: only the BARE segment, and folded for ASCII case.
#[test]
fn the_reserved_root_guard_catches_the_bare_segment_in_any_ascii_case() {
    for path in ["local", "LOCAL", "LoCaL", "lOcAl"] {
        assert!(is_reserved_root(path), "{path} is the reserved segment");
    }
}

#[test]
fn the_reserved_root_guard_catches_nothing_else() {
    for path in [
        "locals",
        "local/home",
        "LOCAL/home",
        "lo-cal",
        "l.ocal",
        "lo_cal",
        "acme/local",
        "",
    ] {
        assert!(!is_reserved_root(path), "{path} is registrable");
    }
}

/// Present because the store refuses an absent scope, empty because this tier
/// has nothing to attest.
#[test]
fn the_placeholder_scope_is_present_and_attests_nothing() {
    let scope = unattested_placeholder_scope().expect("the store refuses an absent scope");
    assert_eq!(scope.request_id, "");
    assert_eq!(scope.instance_id, "");
    assert_eq!(scope.user_id, "");
    assert_eq!(scope.project_id, "");
}

/// The guard agrees with std's ASCII case-insensitive comparison, including on
/// characters outside ASCII whose folding std leaves alone.
#[test]
fn the_guard_agrees_with_std_case_folding() {
    for path in [
        "local", "Local", "LOCAL", "locaL", "loca", "localx", "lòcal", "ＬOCAL", "LOCAl", "l0cal",
        "ŀocal", "", "l", "local ", " local",
    ] {
        assert_eq!(
            is_reserved_root(path),
            path.eq_ignore_ascii_case(RESERVED_ROOT),
            "{path}"
        );
    }
}

#[test]
fn the_reserved_segment_is_local() {
    assert_eq!(RESERVED_ROOT, "local");
}
