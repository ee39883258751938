use archon::backend::{backend_request, choose_backend, Backend, BackendRequest};

fn args(v: &[&str]) -> Vec<String> {
    v.iter().map(|s| s.to_string()).collect()
}

#[test]
fn named_backends_are_recognised() {
    assert_eq!(backend_request(&args(&["--backend", "winit"])), BackendRequest::Named(Backend::Winit));
    assert_eq!(backend_request(&args(&["-v", "--backend", "drm"])), BackendRequest::Named(Backend::Udev));
    assert_eq!(backend_request(&args(&["--backend", "udev", "--backend", "winit"])), BackendRequest::Named(Backend::Udev));
}

#[test]
fn unknown_or_missing_values_fall_back_to_nested() {
    let r = backend_request(&args(&["--backend", "vulkan"]));
    assert_eq!(r, BackendRequest::Unknown(Some("vulkan".into())));
    assert_eq!(choose_backend(&r, false), Backend::Winit);
    assert_eq!(backend_request(&args(&["--backend"])), BackendRequest::Unknown(None));
}

#[test]
fn without_a_name_the_session_decides() {
    let r = backend_request(&args(&["--verbose"]));
    assert_eq!(r, BackendRequest::Unnamed);
    assert_eq!(choose_backend(&r, true), Backend::Winit);
    assert_eq!(choose_backend(&r, false), Backend::Udev);
}
