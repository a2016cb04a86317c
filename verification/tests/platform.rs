use sdcpp::platform::{needs_gpu_probe, requested_backend, resolve_backend, Platform};

#[test]
fn named_backend_is_kept() {
    for platform in [Platform::MacOs, Platform::Windows, Platform::Other] {
        assert_eq!(resolve_backend("rocm", platform, true), "rocm");
        assert!(!needs_gpu_probe("rocm", platform));
    }
}

#[test]
fn automatic_backend_depends_on_platform() {
    for requested in ["auto", ""] {
        assert_eq!(resolve_backend(requested, Platform::MacOs, true), "metal");
        assert_eq!(resolve_backend(requested, Platform::Windows, true), "cuda");
        assert_eq!(resolve_backend(requested, Platform::Windows, false), "vulkan");
        assert_eq!(resolve_backend(requested, Platform::Other, true), "vulkan");
        assert!(needs_gpu_probe(requested, Platform::Windows));
        assert!(!needs_gpu_probe(requested, Platform::MacOs));
        assert!(!needs_gpu_probe(requested, Platform::Other));
    }
}

#[test]
fn resolved_backend_stays() {
    let backend = resolve_backend("auto", Platform::Windows, true);
    assert_eq!(resolve_backend(&backend, Platform::Windows, false), backend);
}

#[test]
fn unnamed_backend_is_automatic() {
    assert_eq!(requested_backend(None), "auto");
    assert_eq!(requested_backend(Some("cuda".to_string())), "cuda");
    assert_eq!(requested_backend(Some("".to_string())), "");
}
