//! The platforms that the server runs on and the backend chosen on each.

use crate::text::text_eq;
use vstd::prelude::*;

verus! {

/// The operating system, as far as the choices below depend on it.
#[derive(Debug, Clone, Copy, PartialEq, Eq, Structural)]
pub enum Platform {
    MacOs,
    Windows,
    Other,
}

/// The backend is left to the library.
pub open spec fn is_automatic(requested: Seq<char>) -> bool {
    requested == "auto"@ || requested.len() == 0
}

/// The backend that a request for `requested` comes to.
pub open spec fn resolved_backend(
    requested: Seq<char>,
    platform: Platform,
    nvidia_gpu: bool,
) -> Seq<char> {
    if !is_automatic(requested) {
        requested
    } else if platform == Platform::MacOs {
        "metal"@
    } else if platform == Platform::Windows && nvidia_gpu {
        "cuda"@
    } else {
        "vulkan"@
    }
}

/// The choice of a backend may depend on whether there is an NVIDIA GPU.
pub open spec fn depends_on_gpu(requested: Seq<char>, platform: Platform) -> bool {
    is_automatic(requested) && platform == Platform::Windows
}

/// Whether one has to look for an NVIDIA GPU before the backend is chosen.
pub fn needs_gpu_probe(requested: &str, platform: Platform) -> (needed: bool)
    ensures
        needed == depends_on_gpu(requested@, platform),
{
    (text_eq(requested, "auto") || requested.is_empty()) && platform == Platform::Windows
}

/// The backend that a request for `requested` comes to, where `nvidia_gpu` tells
/// whether an NVIDIA GPU was found.
pub fn resolve_backend(requested: &str, platform: Platform, nvidia_gpu: bool) -> (backend: String)
    ensures
        backend@ == resolved_backend(requested@, platform, nvidia_gpu),
{
    if !text_eq(requested, "auto") && !requested.is_empty() {
        return requested.to_string();
    }
    if platform == Platform::MacOs {
        return "metal".to_string();
    }
    if platform == Platform::Windows && nvidia_gpu {
        return "cuda".to_string();
    }
    "vulkan".to_string()
}

/// The backend asked for, where none may have been named.
pub fn requested_backend(backend: Option<String>) -> (requested: String)
    ensures
        backend is Some ==> requested == backend->0,
        backend is None ==> requested@ == "auto"@,
{
    match backend {
        Some(backend) => backend,
        None => "auto".to_string(),
    }
}

/// Where no look at the GPU is needed, its outcome makes no difference.
pub proof fn unneeded_gpu_probe_is_ignored(requested: Seq<char>, platform: Platform)
    requires
        !depends_on_gpu(requested, platform),
    ensures
        resolved_backend(requested, platform, true) == resolved_backend(requested, platform, false),
{
}

/// A backend that was chosen has a name: it is not left open.
pub proof fn chosen_backend_is_named(requested: Seq<char>, platform: Platform, nvidia_gpu: bool)
    ensures
        !is_automatic(resolved_backend(requested, platform, nvidia_gpu)),
{
    reveal_strlit("auto");
    reveal_strlit("metal");
    reveal_strlit("cuda");
    reveal_strlit("vulkan");
    assert("cuda"@[0] != "auto"@[0]);
}

/// A backend that was chosen is chosen again: to resolve it once more changes
/// nothing, whatever is found the second time.
pub proof fn resolving_is_settled(
    requested: Seq<char>,
    platform: Platform,
    nvidia_gpu: bool,
    found_later: bool,
)
    ensures
        ({
            let backend = resolved_backend(requested, platform, nvidia_gpu);
            resolved_backend(backend, platform, found_later) == backend
        }),
{
    chosen_backend_is_named(requested, platform, nvidia_gpu);
}

/// A backend that is asked for by name is taken, on every platform and with any GPU.
pub proof fn a_named_backend_is_taken(
    requested: Seq<char>,
    platform: Platform,
    nvidia_gpu: bool,
)
    requires
        requested.len() > 0,
        requested != "auto"@,
    ensures
        resolved_backend(requested, platform, nvidia_gpu) == requested,
        !depends_on_gpu(requested, platform),
{
}

/// Where no backend is asked for by name, macOS gets `metal`, and any other platform
/// `vulkan`, but for Windows with an NVIDIA GPU, which gets `cuda`.
pub proof fn an_unnamed_backend_is_chosen(
    requested: Seq<char>,
    platform: Platform,
    nvidia_gpu: bool,
)
    requires
        requested.len() == 0 || requested == "auto"@,
    ensures
        platform == Platform::MacOs ==> resolved_backend(requested, platform, nvidia_gpu)
            == "metal"@,
        platform == Platform::Windows && nvidia_gpu ==> resolved_backend(
            requested,
            platform,
            nvidia_gpu,
        ) == "cuda"@,
        platform == Platform::Windows && !nvidia_gpu ==> resolved_backend(
            requested,
            platform,
            nvidia_gpu,
        ) == "vulkan"@,
        platform == Platform::Other ==> resolved_backend(requested, platform, nvidia_gpu)
            == "vulkan"@,
        depends_on_gpu(requested, platform) == (platform == Platform::Windows),
{
}

} // verus!
