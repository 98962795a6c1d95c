use show_in_folder::error::RevealError;
use show_in_folder::fallback::parent_component;
use show_in_folder::helpers::path_to_c_str;
use show_in_folder::native;
use show_in_folder::native::NativeCall;
use show_in_folder::step;
use show_in_folder::that;
use show_in_folder::those;
use show_in_folder::Event;
use show_in_folder::RevealFlow;

#[test]
fn test_that() {
    let f = that(String::from("."));
    let f = step(f, Event::Resolved { abs: Some(String::from("/repo")) });
    let f = step(f, Event::Exited { success: true, status: 0 });
    assert!(matches!(f, RevealFlow::Finished { outcome: Ok(()) }));
}

#[test]
fn test_those() {
    let f = those(String::from("."), vec![String::from("Cargo.toml"), String::from("src")]);
    assert!(matches!(&f, RevealFlow::Resolving { raw } if raw == "Cargo.toml"));
    let f = step(f, Event::Resolved { abs: Some(String::from("/repo/Cargo.toml")) });
    let f = step(f, Event::Exited { success: true, status: 0 });
    assert!(matches!(f, RevealFlow::Finished { outcome: Ok(()) }));
}

#[test]
fn encodes_ascii_with_terminator() {
    let p = path_to_c_str("/tmp/a").unwrap();
    assert_eq!(p.units, vec![47u16, 116, 109, 112, 47, 97, 0]);
}

#[test]
fn strips_exactly_the_verbatim_prefix() {
    let plain = path_to_c_str("C:\\work").unwrap();
    let verbatim = path_to_c_str("\\\\?\\C:\\work").unwrap();
    assert_eq!(verbatim, plain);
    assert_eq!(plain.units[0], 'C' as u16);
}

#[test]
fn normalization_is_idempotent() {
    let once = path_to_c_str("\\\\?\\C:\\work").unwrap();
    let again = path_to_c_str("C:\\work").unwrap();
    let twice = path_to_c_str("C:\\work").unwrap();
    assert_eq!(once, again);
    assert_eq!(again, twice);
}

#[test]
fn encodes_supplementary_plane_as_surrogate_pair() {
    let p = path_to_c_str("/x/\u{1F600}").unwrap();
    assert_eq!(p.units, vec![47u16, 120, 47, 0xD83D, 0xDE00, 0]);
}

#[test]
fn rejects_embedded_nul() {
    assert!(matches!(path_to_c_str("a\u{0}b"), Err(RevealError::EncodingFailed)));
}

#[test]
fn single_reveal_allocates_and_releases_once() {
    let anchor = path_to_c_str("/repo/Cargo.toml").unwrap();
    let (calls, result) = native::that(&anchor, Some(7), 0);
    assert_eq!(result, Ok(()));
    assert_eq!(
        calls,
        vec![
            NativeCall::Init,
            NativeCall::Create { path: anchor.clone() },
            NativeCall::OpenAndSelect { folder: 7, selected: vec![] },
            NativeCall::Free { handle: 7 },
        ]
    );
}

#[test]
fn failed_anchor_construction_releases_nothing() {
    let anchor = path_to_c_str("/missing").unwrap();
    let (calls, result) = native::that(&anchor, None, 0);
    assert_eq!(result, Err(RevealError::ResolveFailed));
    assert_eq!(calls, vec![NativeCall::Init, NativeCall::Create { path: anchor }]);
}

#[test]
fn empty_companion_list_matches_single_reveal() {
    let anchor = path_to_c_str("/repo").unwrap();
    let (calls_many, res_many) = native::those(&anchor, &vec![], &vec![Some(4)], 0);
    let (calls_one, res_one) = native::that(&anchor, Some(4), 0);
    assert_eq!(calls_many, calls_one);
    assert_eq!(res_many, res_one);
}

#[test]
fn one_companion_highlighted() {
    let anchor = path_to_c_str("/repo").unwrap();
    let a = path_to_c_str("/repo/Cargo.toml").unwrap();
    let (calls, result) = native::those(&anchor, &vec![a.clone()], &vec![Some(1), Some(2)], 0);
    assert_eq!(result, Ok(()));
    assert_eq!(
        calls,
        vec![
            NativeCall::Init,
            NativeCall::Create { path: anchor },
            NativeCall::Create { path: a },
            NativeCall::OpenAndSelect { folder: 1, selected: vec![2] },
            NativeCall::Free { handle: 2 },
            NativeCall::Free { handle: 1 },
        ]
    );
}

#[test]
fn companions_highlighted_in_input_order() {
    let anchor = path_to_c_str("/repo").unwrap();
    let a = path_to_c_str("/repo/Cargo.toml").unwrap();
    let b = path_to_c_str("/repo/src").unwrap();
    let (calls, result) = native::those(
        &anchor,
        &vec![a.clone(), b.clone()],
        &vec![Some(1), Some(2), Some(3)],
        0,
    );
    assert_eq!(result, Ok(()));
    assert_eq!(
        calls,
        vec![
            NativeCall::Init,
            NativeCall::Create { path: anchor },
            NativeCall::Create { path: a },
            NativeCall::Create { path: b },
            NativeCall::OpenAndSelect { folder: 1, selected: vec![2, 3] },
            NativeCall::Free { handle: 2 },
            NativeCall::Free { handle: 3 },
            NativeCall::Free { handle: 1 },
        ]
    );
}

#[test]
fn failed_companion_releases_only_obtained_handles() {
    let anchor = path_to_c_str("/repo").unwrap();
    let a = path_to_c_str("/repo/Cargo.toml").unwrap();
    let b = path_to_c_str("/repo/src").unwrap();
    let (calls, result) = native::those(
        &anchor,
        &vec![a.clone(), b.clone()],
        &vec![Some(1), Some(2), None],
        0,
    );
    assert_eq!(result, Err(RevealError::CompanionResolveFailed));
    assert_eq!(
        calls,
        vec![
            NativeCall::Init,
            NativeCall::Create { path: anchor },
            NativeCall::Create { path: a },
            NativeCall::Create { path: b },
            NativeCall::Free { handle: 2 },
            NativeCall::Free { handle: 1 },
        ]
    );
}

#[test]
fn dispatch_failure_reports_its_status_after_cleanup() {
    let anchor = path_to_c_str("/repo").unwrap();
    let a = path_to_c_str("/repo/src").unwrap();
    let (calls, result) = native::those(&anchor, &vec![a], &vec![Some(1), Some(2)], -5);
    assert_eq!(result, Err(RevealError::DispatchFailed { code: -5 }));
    assert!(matches!(calls.last(), Some(NativeCall::Free { handle: 1 })));
}

#[test]
fn unresolved_path_fails_before_any_launch() {
    let f = that(String::from("./does-not-exist"));
    let f = step(f, Event::Resolved { abs: None });
    assert!(matches!(
        f,
        RevealFlow::Finished { outcome: Err(RevealError::PathResolutionFailed) }
    ));
}

#[test]
fn absent_file_manager_falls_back_to_opener_on_parent() {
    let f = that(String::from("./thing"));
    let f = step(f, Event::Resolved { abs: Some(String::from("/home/user/thing")) });
    assert!(matches!(&f, RevealFlow::Primary { target, parent }
        if target == "/home/user/thing" && parent == "/home/user"));
    let f = step(f, Event::NotStarted { message: String::from("not found") });
    assert!(matches!(&f, RevealFlow::Secondary { parent, .. } if parent == "/home/user"));
    let f = step(f, Event::Exited { success: true, status: 0 });
    assert!(matches!(f, RevealFlow::Finished { outcome: Ok(()) }));
}

#[test]
fn failed_exit_does_not_trigger_fallback() {
    let f = that(String::from("./thing"));
    let f = step(f, Event::Resolved { abs: Some(String::from("/home/user/thing")) });
    let f = step(f, Event::Exited { success: false, status: 3 });
    assert!(matches!(
        f,
        RevealFlow::Finished { outcome: Err(RevealError::FileManagerExited { status: 3 }) }
    ));
}

#[test]
fn opener_failure_exit_decides_the_request() {
    let f = that(String::from("./thing"));
    let f = step(f, Event::Resolved { abs: Some(String::from("/home/user/thing")) });
    let f = step(f, Event::NotStarted { message: String::from("not found") });
    let f = step(f, Event::Exited { success: false, status: 2 });
    assert!(matches!(
        f,
        RevealFlow::Finished { outcome: Err(RevealError::FileManagerExited { status: 2 }) }
    ));
}

#[test]
fn both_launchers_absent_reports_both_errors() {
    let f = that(String::from("./thing"));
    let f = step(f, Event::Resolved { abs: Some(String::from("/home/user/thing")) });
    let f = step(f, Event::NotStarted { message: String::from("first error") });
    let f = step(f, Event::NotStarted { message: String::from("second error") });
    assert!(matches!(
        &f,
        RevealFlow::Finished {
            outcome: Err(RevealError::NoFileManagerAvailable { primary, secondary }),
        } if primary == "first error" && secondary == "second error"
    ));
}

#[test]
fn empty_companions_reveal_the_anchor_itself() {
    let f = those(String::from("./a"), vec![]);
    let g = that(String::from("./a"));
    assert_eq!(f, g);
}

#[test]
fn parent_components() {
    assert_eq!(parent_component("/a/b/c"), "/a/b");
    assert_eq!(parent_component("/etc"), "/");
    assert_eq!(parent_component("/"), "/");
    assert_eq!(parent_component("name"), "");
}
