//! The server's releases: which of their files to download, how a download is
//! reported, and what is remembered of an installation.

use crate::events::{download_json, download_payload};
use crate::json::{as_items, as_text, field, json_of, jsons_of, value_get, Json};
use crate::platform::Platform;
use crate::text::{
    begins_with, contains, ends_with, finishes_with, holds, lower_case, lowered, occurs_in,
    starts_with, text_eq,
};
use vstd::prelude::*;

verus! {

/// Where the newest release is described.
pub const RELEASES_LATEST_URL: &'static str =
    "https://api.github.com/repos/leejet/stable-diffusion.cpp/releases/latest";

// ----------------------------------------------------------------------------
// Which file fits
// ----------------------------------------------------------------------------

/// A file is an archive of the server, and not one of the CUDA runtime.
pub open spec fn is_server_archive(lower: Seq<char>) -> bool {
    finishes_with(lower, ".zip"@) && !begins_with(lower, "cudart"@)
}

/// The file whose name in lower case is `lower` is the one for `backend` on
/// `platform`.
pub open spec fn fits(lower: Seq<char>, backend: Seq<char>, platform: Platform) -> bool {
    is_server_archive(lower) && match platform {
        Platform::MacOs => occurs_in(lower, "darwin"@) && occurs_in(lower, "arm64"@),
        Platform::Windows => occurs_in(lower, "-win-"@) && (if backend == "cuda"@ {
            occurs_in(lower, "cuda12"@)
        } else if backend == "vulkan"@ {
            occurs_in(lower, "vulkan"@)
        } else if backend == "rocm"@ {
            occurs_in(lower, "rocm"@)
        } else {
            occurs_in(lower, "avx2"@)
        }),
        Platform::Other => occurs_in(lower, "linux"@) && occurs_in(lower, "x86_64"@) && (if backend
            == "vulkan"@ || backend == "cuda"@ {
            occurs_in(lower, "vulkan"@)
        } else if backend == "rocm"@ {
            occurs_in(lower, "rocm"@)
        } else {
            !occurs_in(lower, "vulkan"@) && !occurs_in(lower, "rocm"@)
        }),
    }
}

/// Whether the file whose name in lower case is `lower` is the one for `backend`
/// on `platform`.
pub fn lowered_asset_matches(lower: &str, backend: &str, platform: Platform) -> (yes: bool)
    ensures
        yes == fits(lower@, backend@, platform),
{
    if !ends_with(lower, ".zip") || starts_with(lower, "cudart") {
        return false;
    }
    if platform == Platform::MacOs {
        return contains(lower, "darwin") && contains(lower, "arm64");
    }
    if platform == Platform::Windows {
        if !contains(lower, "-win-") {
            return false;
        }
        return if text_eq(backend, "cuda") {
            contains(lower, "cuda12")
        } else if text_eq(backend, "vulkan") {
            contains(lower, "vulkan")
        } else if text_eq(backend, "rocm") {
            contains(lower, "rocm")
        } else {
            contains(lower, "avx2")
        };
    }
    if !contains(lower, "linux") || !contains(lower, "x86_64") {
        return false;
    }
    if text_eq(backend, "vulkan") || text_eq(backend, "cuda") {
        contains(lower, "vulkan")
    } else if text_eq(backend, "rocm") {
        contains(lower, "rocm")
    } else {
        !contains(lower, "vulkan") && !contains(lower, "rocm")
    }
}

/// Whether the file `name` is the one for `backend` on `platform`.
pub fn asset_matches(name: &str, backend: &str, platform: Platform) -> (yes: bool)
    ensures
        yes == fits(lowered(name@), backend@, platform),
{
    let lower = lower_case(name);
    lowered_asset_matches(lower.as_str(), backend, platform)
}

// ----------------------------------------------------------------------------
// The files of a release
// ----------------------------------------------------------------------------

/// A file of a release.
#[derive(Debug, Clone, PartialEq)]
pub struct ReleaseAsset {
    pub name: String,
    pub url: String,
}

/// The text of the field `key`; the empty one where there is none.
pub open spec fn text_field(json: Json, key: Seq<char>) -> Seq<char> {
    match as_text(field(json, key)) {
        Some(text) => text,
        None => Seq::empty(),
    }
}

/// The name of a file of a release.
pub open spec fn asset_name(asset: Json) -> Seq<char> {
    text_field(asset, "name"@)
}

/// Where a file of a release is to be had.
pub open spec fn asset_url(asset: Json) -> Seq<char> {
    text_field(asset, "browser_download_url"@)
}

/// A file has a name and can be had.
pub open spec fn is_offered(asset: Json) -> bool {
    asset_name(asset).len() > 0 && asset_url(asset).len() > 0
}

/// A file is the server for `backend` on `platform`.
pub open spec fn is_server_asset(asset: Json, backend: Seq<char>, platform: Platform) -> bool {
    is_offered(asset) && fits(lowered(asset_name(asset)), backend, platform)
}

/// A file is the CUDA runtime.
pub open spec fn is_cuda_runtime(asset: Json) -> bool {
    is_offered(asset) && begins_with(lowered(asset_name(asset)), "cudart"@)
}

/// The first of `items` that `wanted` holds of.
pub open spec fn first_where(items: Seq<Json>, wanted: spec_fn(Json) -> bool) -> Option<Json>
    decreases items.len(),
{
    if items.len() == 0 {
        None
    } else {
        let earlier = first_where(items.drop_last(), wanted);
        if earlier is None && wanted(items.last()) {
            Some(items.last())
        } else {
            earlier
        }
    }
}

/// The server for `backend` on `platform` among the files of a release: the first
/// that fits.
pub open spec fn server_asset(release: Json, backend: Seq<char>, platform: Platform) -> Option<
    Json,
> {
    first_where(
        as_items(field(release, "assets"@)),
        |asset: Json| is_server_asset(asset, backend, platform),
    )
}

/// The CUDA runtime among the files of a release: the first there is.
pub open spec fn cuda_runtime_asset(release: Json) -> Option<Json> {
    first_where(as_items(field(release, "assets"@)), |asset: Json| is_cuda_runtime(asset))
}

/// The tag of a release.
pub open spec fn tag_of(release: Json) -> Seq<char> {
    match as_text(field(release, "tag_name"@)) {
        Some(tag) => tag,
        None => "unknown"@,
    }
}

/// A file of a release, as the contracts speak of it.
pub struct AssetView {
    pub name: Seq<char>,
    pub url: Seq<char>,
}

impl View for ReleaseAsset {
    type V = AssetView;

    open spec fn view(&self) -> AssetView {
        AssetView { name: self.name@, url: self.url@ }
    }
}

/// The file, as the contracts speak of it.
pub open spec fn asset_view(asset: Option<ReleaseAsset>) -> Option<AssetView> {
    match asset {
        Some(asset) => Some(asset@),
        None => None,
    }
}

/// The file that `asset` describes, if there is one.
pub open spec fn described(asset: Option<Json>) -> Option<AssetView> {
    match asset {
        Some(asset) => Some(AssetView { name: asset_name(asset), url: asset_url(asset) }),
        None => None,
    }
}

/// The text of the field `key`; the empty one where there is none.
fn read_text_field<'a>(value: &'a serde_json::Value, key: &str) -> (text: &'a str)
    ensures
        text@ == text_field(json_of(*value), key@),
{
    if let Some(held) = value_get(value, key) {
        if let Some(text) = held.as_str() {
            return text;
        }
    }
    proof {
        reveal_strlit("");
        assert(""@ =~= Seq::<char>::empty());
    }
    ""
}

/// The tag of a release.
pub fn release_tag(release: &serde_json::Value) -> (tag: String)
    ensures
        tag@ == tag_of(json_of(*release)),
{
    if let Some(held) = value_get(release, "tag_name") {
        if let Some(tag) = held.as_str() {
            return tag.to_string();
        }
    }
    "unknown".to_string()
}

/// The server for `backend` on `platform` and the CUDA runtime, as far as the
/// release has them.
pub fn select_assets(release: &serde_json::Value, backend: &str, platform: Platform) -> (found: (
    Option<ReleaseAsset>,
    Option<ReleaseAsset>,
))
    ensures
        asset_view(found.0) == described(server_asset(json_of(*release), backend@, platform)),
        asset_view(found.1) == described(cuda_runtime_asset(json_of(*release))),
{
    let ghost wanted = |asset: Json| is_server_asset(asset, backend@, platform);
    let ghost runtime = |asset: Json| is_cuda_runtime(asset);
    let mut chosen: Option<ReleaseAsset> = None;
    let mut cudart: Option<ReleaseAsset> = None;
    if let Some(held) = value_get(release, "assets") {
        if let Some(assets) = held.as_array() {
            let ghost items = jsons_of(assets@);
            assert(items.take(0) =~= Seq::empty());
            let mut i: usize = 0;
            while i < assets.len()
                invariant
                    i <= assets.len(),
                    items == jsons_of(assets@),
                    wanted == (|asset: Json| is_server_asset(asset, backend@, platform)),
                    runtime == (|asset: Json| is_cuda_runtime(asset)),
                    asset_view(chosen) == described(first_where(items.take(i as int), wanted)),
                    asset_view(cudart) == described(first_where(items.take(i as int), runtime)),
                decreases assets.len() - i,
            {
                proof {
                    assert(items.take(i + 1).drop_last() =~= items.take(i as int));
                    assert(items.take(i + 1).last() == json_of(assets@[i as int]));
                }
                let name = read_text_field(&assets[i], "name");
                let url = read_text_field(&assets[i], "browser_download_url");
                if !name.is_empty() && !url.is_empty() {
                    if asset_matches(name, backend, platform) && chosen.is_none() {
                        chosen =
                        Some(ReleaseAsset { name: name.to_string(), url: url.to_string() });
                    }
                    let lower = lower_case(name);
                    if starts_with(lower.as_str(), "cudart") && cudart.is_none() {
                        cudart =
                        Some(ReleaseAsset { name: name.to_string(), url: url.to_string() });
                    }
                }
                i += 1;
            }
            assert(items.take(assets@.len() as int) =~= items);
        }
    }
    (chosen, cudart)
}

/// What is to be downloaded for an installation.
#[derive(Debug, Clone, PartialEq)]
pub struct DownloadPlan {
    pub tag: String,
    pub backend: String,
    pub server: ReleaseAsset,
    /// The CUDA runtime, where the server needs it beside it.
    pub runtime: Option<ReleaseAsset>,
}

/// What is to be downloaded, as the contracts speak of it.
pub struct PlanView {
    pub tag: Seq<char>,
    pub backend: Seq<char>,
    pub server: AssetView,
    pub runtime: Option<AssetView>,
}

impl View for DownloadPlan {
    type V = PlanView;

    open spec fn view(&self) -> PlanView {
        PlanView {
            tag: self.tag@,
            backend: self.backend@,
            server: self.server@,
            runtime: asset_view(self.runtime),
        }
    }
}

/// The server for `backend` on `platform` needs the CUDA runtime beside it.
pub open spec fn needs_runtime(backend: Seq<char>, platform: Platform) -> bool {
    platform == Platform::Windows && backend == "cuda"@
}

/// What is to be downloaded of `release` to install the server for `backend` on
/// `platform`; nothing where the release has no such server.
pub open spec fn planned(release: Json, backend: Seq<char>, platform: Platform) -> Option<
    PlanView,
> {
    match described(server_asset(release, backend, platform)) {
        Some(server) => Some(
            PlanView {
                tag: tag_of(release),
                backend,
                server,
                runtime: if needs_runtime(backend, platform) {
                    described(cuda_runtime_asset(release))
                } else {
                    None
                },
            },
        ),
        None => None,
    }
}

/// The message where a release has no server for `backend`.
pub open spec fn no_asset_message(backend: Seq<char>) -> Seq<char> {
    "No sd.cpp release asset found for this platform with backend '"@ + backend + "'"@
}

/// What is to be downloaded of `release` to install the server for `backend` on
/// `platform`: the first file that fits, and on Windows with CUDA the CUDA runtime
/// too, where the release has it.
pub fn sdcpp_download_binary(
    release: &serde_json::Value,
    backend: &str,
    platform: Platform,
) -> (plan: Result<DownloadPlan, String>)
    ensures
        plan is Ok <==> planned(json_of(*release), backend@, platform) is Some,
        plan matches Ok(plan) ==> plan@ == planned(json_of(*release), backend@, platform)->0,
        plan matches Err(message) ==> message@ == no_asset_message(backend@),
{
    let (chosen, cudart) = select_assets(release, backend, platform);
    match chosen {
        Some(server) => {
            let runtime = if platform == Platform::Windows && text_eq(backend, "cuda") {
                cudart
            } else {
                None
            };
            Ok(
                DownloadPlan {
                    tag: release_tag(release),
                    backend: backend.to_string(),
                    server,
                    runtime,
                },
            )
        },
        None => {
            let mut message =
                "No sd.cpp release asset found for this platform with backend '".to_string();
            message.append(backend);
            message.append("'");
            Err(message)
        },
    }
}

// ----------------------------------------------------------------------------
// Downloading
// ----------------------------------------------------------------------------

/// The milliseconds between two reports of a download.
pub const REPORT_INTERVAL_MILLIS: u128 = 200;

/// The answer to the request for the release's description can be read.
pub fn check_release_response(success: bool, status: &str) -> (checked: Result<(), String>)
    ensures
        checked is Ok <==> success,
        checked matches Err(message) ==> message@ == "GitHub release lookup failed: "@ + status@,
{
    if success {
        return Ok(());
    }
    let mut message = "GitHub release lookup failed: ".to_string();
    message.append(status);
    Err(message)
}

/// The message where the answer to the request for a file is not good.
pub open spec fn download_failed_message(status: Seq<char>, url: Seq<char>) -> Seq<char> {
    "Download failed ("@ + status + "): "@ + url
}

/// The answer to the request for a file can be read.
pub fn check_download_response(success: bool, status: &str, url: &str) -> (checked: Result<
    (),
    String,
>)
    ensures
        checked is Ok <==> success,
        checked matches Err(message) ==> message@ == download_failed_message(status@, url@),
{
    if success {
        return Ok(());
    }
    let mut message = "Download failed (".to_string();
    message.append(status);
    message.append("): ");
    message.append(url);
    Err(message)
}

/// A download under way.
#[derive(Debug, Clone, PartialEq)]
pub struct Download {
    pub label: String,
    /// The bytes that have come.
    pub downloaded: u64,
    /// The bytes that were announced; none where nothing was.
    pub total: u64,
}

impl Download {
    /// A download of which nothing has come yet.
    pub fn start(label: &str, announced: Option<u64>) -> (download: Download)
        ensures
            download.label@ == label@,
            download.downloaded == 0,
            download.total == (match announced {
                Some(total) => total,
                None => 0,
            }),
    {
        let total: u64 = match announced {
            Some(total) => total,
            None => 0,
        };
        Download { label: label.to_string(), downloaded: 0, total }
    }

    /// Another `len` bytes have come, `millis` after the last report. Gives the
    /// report to make now, if one is due; the time then counts from here.
    pub fn receive(&mut self, len: u64, millis: u128) -> (report: Option<serde_json::Value>)
        requires
            old(self).downloaded + len <= u64::MAX,
        ensures
            final(self).label == old(self).label,
            final(self).total == old(self).total,
            final(self).downloaded == old(self).downloaded + len,
            report is Some <==> millis >= REPORT_INTERVAL_MILLIS,
            report is Some ==> json_of(report->0) == download_json(
                old(self).label@,
                (old(self).downloaded + len) as u64,
                old(self).total,
                "downloading"@,
            ),
    {
        self.downloaded = self.downloaded + len;
        if millis >= REPORT_INTERVAL_MILLIS {
            Some(
                download_payload(self.label.as_str(), self.downloaded, self.total, "downloading"),
            )
        } else {
            None
        }
    }

    /// The report that all has come.
    pub fn finish(&self) -> (report: serde_json::Value)
        ensures
            json_of(report) == download_json(
                self.label@,
                self.downloaded,
                self.total,
                "complete"@,
            ),
    {
        download_payload(self.label.as_str(), self.downloaded, self.total, "complete")
    }
}

// ----------------------------------------------------------------------------
// What is installed
// ----------------------------------------------------------------------------

/// What is remembered of an installation.
#[derive(Debug, Clone, PartialEq)]
pub struct BinaryInstall {
    pub tag: String,
    pub backend: String,
    pub executable: String,
}

/// What to remember of an installation, where `executable` is the server that was
/// found in what was downloaded.
pub fn finish_install(tag: &str, backend: &str, executable: Option<String>) -> (install: Result<
    BinaryInstall,
    String,
>)
    ensures
        install is Ok <==> executable is Some,
        install matches Ok(install) ==> install.tag@ == tag@ && install.backend@ == backend@
            && install.executable == executable->0,
        install matches Err(message) ==> message@
            == "Downloaded archive did not contain an sd-server executable"@,
{
    match executable {
        Some(executable) => Ok(
            BinaryInstall { tag: tag.to_string(), backend: backend.to_string(), executable },
        ),
        None => Err("Downloaded archive did not contain an sd-server executable".to_string()),
    }
}

/// The installation in force, where `marker` is the one remembered.
pub open spec fn install_in_force(
    marker: Option<BinaryInstall>,
    executable_exists: bool,
) -> Option<BinaryInstall> {
    if executable_exists {
        marker
    } else {
        None
    }
}

/// The installation in force: the one remembered, as long as its executable is
/// still there.
pub fn read_install_marker(marker: Option<BinaryInstall>, executable_exists: bool) -> (install:
    Option<BinaryInstall>)
    ensures
        install == install_in_force(marker, executable_exists),
{
    if executable_exists {
        marker
    } else {
        None
    }
}

// ----------------------------------------------------------------------------
// Laws
// ----------------------------------------------------------------------------

/// The CUDA runtime is never taken for the server.
pub proof fn cuda_runtime_is_no_server(asset: Json, backend: Seq<char>, platform: Platform)
    ensures
        !(is_server_asset(asset, backend, platform) && is_cuda_runtime(asset)),
{
}

/// The file chosen is one of those offered that fits, and none before it does;
/// where none is chosen, none fits.
pub proof fn first_fit_is_chosen(items: Seq<Json>, wanted: spec_fn(Json) -> bool)
    ensures
        first_where(items, wanted) is None <==> forall|i: int|
            0 <= i < items.len() ==> !wanted(#[trigger] items[i]),
        first_where(items, wanted) matches Some(item) ==> exists|i: int|
            0 <= i < items.len() && #[trigger] items[i] == item && wanted(item) && forall|j: int|
                0 <= j < i ==> !wanted(#[trigger] items[j]),
    decreases items.len(),
{
    if items.len() > 0 {
        let rest = items.drop_last();
        let n = items.len() - 1;
        first_fit_is_chosen(rest, wanted);
        if first_where(rest, wanted) is Some {
            let item = first_where(rest, wanted)->0;
            let i = choose|i: int|
                0 <= i < rest.len() && #[trigger] rest[i] == item && wanted(item) && forall|j: int|
                    0 <= j < i ==> !wanted(#[trigger] rest[j]);
            assert(items[i] == item);
            assert forall|j: int| 0 <= j < i implies !wanted(#[trigger] items[j]) by {
                assert(rest[j] == items[j]);
            }
        } else {
            assert forall|j: int| 0 <= j < n implies !wanted(#[trigger] items[j]) by {
                assert(rest[j] == items[j]);
            }
            if wanted(items[n]) {
                assert(items[n] == items.last());
            }
        }
    }
}

/// The name is that of a zip archive, and not of one of the CUDA runtime.
pub open spec fn is_zip_of_its_own(lower: Seq<char>) -> bool {
    &&& exists|stem: Seq<char>| lower == #[trigger] (stem + ".zip"@)
    &&& !(exists|rest: Seq<char>| lower == #[trigger] ("cudart"@ + rest))
}

proof fn lemma_server_archive(lower: Seq<char>)
    ensures
        is_server_archive(lower) <==> is_zip_of_its_own(lower),
{
    crate::text::an_ending_leaves_a_rest(lower, ".zip"@);
    crate::text::a_beginning_leaves_a_rest(lower, "cudart"@);
}

/// On Linux an archive chosen for a GPU is a build for it, and one chosen without a GPU
/// is a build for none: what fits `vulkan` or `cuda` has `vulkan` in its name, what fits
/// `rocm` has `rocm`, and what fits any other backend has neither. All are for Linux on
/// `x86_64`, and each such archive fits.
pub proof fn linux_archive_is_a_build_for_the_backend(lower: Seq<char>, backend: Seq<char>)
    ensures
        ({
            let linux = is_zip_of_its_own(lower) && holds(lower, "linux"@) && holds(
                lower,
                "x86_64"@,
            );
            &&& backend == "vulkan"@ || backend == "cuda"@ ==> (fits(
                lower,
                backend,
                Platform::Other,
            ) <==> linux && holds(lower, "vulkan"@))
            &&& backend == "rocm"@ ==> (fits(lower, backend, Platform::Other) <==> linux && holds(
                lower,
                "rocm"@,
            ))
            &&& backend != "vulkan"@ && backend != "cuda"@ && backend != "rocm"@ ==> (fits(
                lower,
                backend,
                Platform::Other,
            ) <==> linux && !holds(lower, "vulkan"@) && !holds(lower, "rocm"@))
        }),
{
    lemma_server_archive(lower);
    lemma_backends_differ();
    crate::text::what_occurs_is_held(lower, "linux"@);
    crate::text::what_occurs_is_held(lower, "x86_64"@);
    crate::text::what_occurs_is_held(lower, "vulkan"@);
    crate::text::what_occurs_is_held(lower, "rocm"@);
}

proof fn lemma_backends_differ()
    ensures
        "vulkan"@ != "cuda"@,
        "vulkan"@ != "rocm"@,
        "cuda"@ != "rocm"@,
{
    reveal_strlit("vulkan");
    reveal_strlit("cuda");
    reveal_strlit("rocm");
    assert("cuda"@[0] != "rocm"@[0]);
}

/// No file is for a GPU and for none at once: on Linux what fits `vulkan` or `rocm` fits no
/// backend of another kind, and with `cuda` the same files fit as with `vulkan`.
pub proof fn linux_builds_are_kept_apart(lower: Seq<char>, plain: Seq<char>)
    requires
        plain != "vulkan"@,
        plain != "cuda"@,
        plain != "rocm"@,
    ensures
        !(fits(lower, "vulkan"@, Platform::Other) && fits(lower, plain, Platform::Other)),
        !(fits(lower, "rocm"@, Platform::Other) && fits(lower, plain, Platform::Other)),
        fits(lower, "cuda"@, Platform::Other) == fits(lower, "vulkan"@, Platform::Other),
{
    linux_archive_is_a_build_for_the_backend(lower, "vulkan"@);
    linux_archive_is_a_build_for_the_backend(lower, "rocm"@);
    linux_archive_is_a_build_for_the_backend(lower, "cuda"@);
    linux_archive_is_a_build_for_the_backend(lower, plain);
}

/// On Windows an archive has `-win-` in its name, and that of the build: `cuda12`,
/// `vulkan` or `rocm` for the backend of that kind, and `avx2` for any other.
pub proof fn windows_archive_is_a_build_for_the_backend(lower: Seq<char>, backend: Seq<char>)
    ensures
        ({
            let windows = is_zip_of_its_own(lower) && holds(lower, "-win-"@);
            let fit = fits(lower, backend, Platform::Windows);
            &&& backend == "cuda"@ ==> (fit <==> windows && holds(lower, "cuda12"@))
            &&& backend == "vulkan"@ ==> (fit <==> windows && holds(lower, "vulkan"@))
            &&& backend == "rocm"@ ==> (fit <==> windows && holds(lower, "rocm"@))
            &&& backend != "cuda"@ && backend != "vulkan"@ && backend != "rocm"@ ==> (fit
                <==> windows && holds(lower, "avx2"@))
        }),
{
    lemma_server_archive(lower);
    lemma_backends_differ();
    crate::text::what_occurs_is_held(lower, "-win-"@);
    crate::text::what_occurs_is_held(lower, "cuda12"@);
    crate::text::what_occurs_is_held(lower, "vulkan"@);
    crate::text::what_occurs_is_held(lower, "rocm"@);
    crate::text::what_occurs_is_held(lower, "avx2"@);
}

/// On macOS there is one build, for Apple's own processors, whatever the backend.
pub proof fn macos_has_one_build(lower: Seq<char>, backend: Seq<char>)
    ensures
        fits(lower, backend, Platform::MacOs) <==> is_zip_of_its_own(lower) && holds(
            lower,
            "darwin"@,
        ) && holds(lower, "arm64"@),
{
    lemma_server_archive(lower);
    crate::text::what_occurs_is_held(lower, "darwin"@);
    crate::text::what_occurs_is_held(lower, "arm64"@);
}

/// A file of a release that is called `name` and is to be had at `url`.
pub open spec fn is_file_entry(asset: Json, name: Seq<char>, url: Seq<char>) -> bool {
    &&& asset is Object
    &&& asset->Object_0.contains_key("name"@)
    &&& asset->Object_0["name"@] == Json::Text(name)
    &&& asset->Object_0.contains_key("browser_download_url"@)
    &&& asset->Object_0["browser_download_url"@] == Json::Text(url)
    &&& name.len() > 0
    &&& url.len() > 0
}

proof fn lemma_file_entry(asset: Json)
    ensures
        is_offered(asset) <==> exists|name: Seq<char>, url: Seq<char>| #[trigger]
            is_file_entry(asset, name, url),
        forall|name: Seq<char>, url: Seq<char>| #[trigger]
            is_file_entry(asset, name, url) ==> asset_name(asset) == name && asset_url(asset)
                == url,
        is_offered(asset) ==> is_file_entry(asset, asset_name(asset), asset_url(asset)),
{
    if is_offered(asset) {
        assert(is_file_entry(asset, asset_name(asset), asset_url(asset)));
    }
}

/// The file is called `name`, is to be had at `url`, and is the server for `backend`.
pub open spec fn is_server_entry(
    asset: Json,
    name: Seq<char>,
    url: Seq<char>,
    backend: Seq<char>,
    platform: Platform,
) -> bool {
    is_file_entry(asset, name, url) && fits(lowered(name), backend, platform)
}

/// The file is called `name`, is to be had at `url`, and is the CUDA runtime: its name
/// begins with `cudart`, in capitals or not.
pub open spec fn is_runtime_entry(asset: Json, name: Seq<char>, url: Seq<char>) -> bool {
    is_file_entry(asset, name, url) && exists|rest: Seq<char>| lowered(name)
        == #[trigger] ("cudart"@ + rest)
}

/// What is downloaded of a release is the first of its files that fits, by its own name
/// and from its own address, under the release's own tag; and where no file fits,
/// nothing is.
pub proof fn plan_takes_the_first_fit(
    fields: Map<Seq<char>, Json>,
    files: Seq<Json>,
    backend: Seq<char>,
    platform: Platform,
)
    requires
        fields.contains_key("assets"@),
        fields["assets"@] == Json::List(files),
    ensures
        ({
            let plan = planned(Json::Object(fields), backend, platform);
            &&& plan is None <==> forall|i: int, name: Seq<char>, url: Seq<char>|
                0 <= i < files.len() ==> !#[trigger] is_server_entry(
                    files[i],
                    name,
                    url,
                    backend,
                    platform,
                )
            &&& plan matches Some(plan) ==> {
                &&& plan.backend == backend
                &&& exists|i: int|
                    {
                        &&& 0 <= i < files.len()
                        &&& #[trigger] is_server_entry(
                            files[i],
                            plan.server.name,
                            plan.server.url,
                            backend,
                            platform,
                        )
                        &&& forall|j: int, name: Seq<char>, url: Seq<char>|
                            0 <= j < i ==> !#[trigger] is_server_entry(
                                files[j],
                                name,
                                url,
                                backend,
                                platform,
                            )
                    }
            }
        }),
{
    let release = Json::Object(fields);
    let wanted = |asset: Json| is_server_asset(asset, backend, platform);
    assert(as_items(field(release, "assets"@)) == files);
    first_fit_is_chosen(files, wanted);
    assert forall|i: int| 0 <= i < files.len() implies (wanted(#[trigger] files[i]) <==> exists|
        name: Seq<char>,
        url: Seq<char>,
    | #[trigger] is_server_entry(files[i], name, url, backend, platform)) by {
        lemma_file_entry(files[i]);
        if wanted(files[i]) {
            assert(is_server_entry(
                files[i],
                asset_name(files[i]),
                asset_url(files[i]),
                backend,
                platform,
            ));
        }
    }
    let plan = planned(release, backend, platform);
    if plan is Some {
        let item = first_where(files, wanted)->0;
        let i = choose|i: int|
            0 <= i < files.len() && #[trigger] files[i] == item && wanted(item) && forall|j: int|
                0 <= j < i ==> !wanted(#[trigger] files[j]);
        lemma_file_entry(item);
        assert(is_server_entry(
            files[i],
            plan->0.server.name,
            plan->0.server.url,
            backend,
            platform,
        ));
        assert forall|j: int, name: Seq<char>, url: Seq<char>| 0 <= j < i implies !#[trigger]
        is_server_entry(files[j], name, url, backend, platform) by {
            assert(!wanted(files[j]));
        }
    } else {
        assert forall|i: int, name: Seq<char>, url: Seq<char>|
            0 <= i < files.len() implies !#[trigger] is_server_entry(
            files[i],
            name,
            url,
            backend,
            platform,
        ) by {
            assert(!wanted(files[i]));
        }
    }
    if forall|i: int, name: Seq<char>, url: Seq<char>|
        0 <= i < files.len() ==> !#[trigger] is_server_entry(
            files[i],
            name,
            url,
            backend,
            platform,
        ) {
        assert forall|i: int| 0 <= i < files.len() implies !wanted(#[trigger] files[i]) by {
        }
    }
}

/// The CUDA runtime that comes along is the first of the release's files that is one; it
/// comes along on Windows with `cuda`, and only there.
pub proof fn first_runtime_comes_along(
    fields: Map<Seq<char>, Json>,
    files: Seq<Json>,
    backend: Seq<char>,
    platform: Platform,
)
    requires
        fields.contains_key("assets"@),
        fields["assets"@] == Json::List(files),
    ensures
        planned(Json::Object(fields), backend, platform) matches Some(plan) ==> {
            &&& plan.runtime is Some ==> platform == Platform::Windows && backend == "cuda"@
            &&& platform == Platform::Windows && backend == "cuda"@ ==> match plan.runtime {
                Some(runtime) => exists|i: int|
                    {
                        &&& 0 <= i < files.len()
                        &&& #[trigger] is_runtime_entry(files[i], runtime.name, runtime.url)
                        &&& forall|j: int, name: Seq<char>, url: Seq<char>|
                            0 <= j < i ==> !#[trigger] is_runtime_entry(files[j], name, url)
                    },
                None => forall|i: int, name: Seq<char>, url: Seq<char>|
                    0 <= i < files.len() ==> !#[trigger] is_runtime_entry(files[i], name, url),
            }
        },
{
    let release = Json::Object(fields);
    let wanted = |asset: Json| is_cuda_runtime(asset);
    assert(as_items(field(release, "assets"@)) == files);
    first_fit_is_chosen(files, wanted);
    assert forall|i: int| 0 <= i < files.len() implies (wanted(#[trigger] files[i]) <==> exists|
        name: Seq<char>,
        url: Seq<char>,
    | #[trigger] is_runtime_entry(files[i], name, url)) by {
        lemma_file_entry(files[i]);
        crate::text::a_beginning_leaves_a_rest(lowered(asset_name(files[i])), "cudart"@);
        if wanted(files[i]) {
            assert(is_runtime_entry(files[i], asset_name(files[i]), asset_url(files[i])));
        }
    }
    let plan = planned(release, backend, platform);
    if plan is Some && platform == Platform::Windows && backend == "cuda"@ {
        match plan->0.runtime {
            Some(runtime) => {
                let item = first_where(files, wanted)->0;
                let i = choose|i: int|
                    0 <= i < files.len() && #[trigger] files[i] == item && wanted(item)
                        && forall|j: int| 0 <= j < i ==> !wanted(#[trigger] files[j]);
                lemma_file_entry(item);
                crate::text::a_beginning_leaves_a_rest(lowered(asset_name(item)), "cudart"@);
                assert(is_runtime_entry(files[i], runtime.name, runtime.url));
                assert forall|j: int, name: Seq<char>, url: Seq<char>| 0 <= j < i implies !#[trigger]
                is_runtime_entry(files[j], name, url) by {
                    assert(!wanted(files[j]));
                }
            },
            None => {
                assert forall|i: int, name: Seq<char>, url: Seq<char>|
                    0 <= i < files.len() implies !#[trigger] is_runtime_entry(
                    files[i],
                    name,
                    url,
                ) by {
                    assert(!wanted(files[i]));
                }
            },
        }
    }
}

/// The tag of a release is the text that stands for it, and `unknown` where none does;
/// and a release that lists no files has no server.
pub proof fn release_is_known_by_its_tag(
    release: Json,
    backend: Seq<char>,
    platform: Platform,
    tag: Seq<char>,
)
    ensures
        ({
            let told = release is Object && release->Object_0.contains_key("tag_name"@)
                && release->Object_0["tag_name"@] is Text;
            &&& told && release->Object_0["tag_name"@] == Json::Text(tag) ==> tag_of(release)
                == tag
            &&& !told ==> tag_of(release) == "unknown"@
            &&& planned(release, backend, platform) matches Some(plan) ==> plan.tag == tag_of(
                release,
            ) && release is Object && release->Object_0.contains_key("assets"@)
                && release->Object_0["assets"@] is List
        }),
{
    if planned(release, backend, platform) is Some {
        let wanted = |asset: Json| is_server_asset(asset, backend, platform);
        assert(as_items(field(release, "assets"@)).len() > 0);
    }
}

/// Releases are looked up on GitHub, in the repository of stable-diffusion.cpp.
pub proof fn releases_are_those_of_the_project()
    ensures
        RELEASES_LATEST_URL@ == "https://api.github.com/repos/"@ + "leejet/stable-diffusion.cpp"@
            + "/releases/latest"@,
{
    reveal_strlit("https://api.github.com/repos/leejet/stable-diffusion.cpp/releases/latest");
    reveal_strlit("https://api.github.com/repos/");
    reveal_strlit("leejet/stable-diffusion.cpp");
    reveal_strlit("/releases/latest");
    assert(RELEASES_LATEST_URL@ =~= "https://api.github.com/repos/"@
        + "leejet/stable-diffusion.cpp"@ + "/releases/latest"@);
}

/// An installation is in force as it was remembered, for as long as its executable is
/// there, and no other is.
pub proof fn an_installation_without_its_executable_is_none(
    marker: Option<BinaryInstall>,
    executable_exists: bool,
)
    ensures
        install_in_force(marker, executable_exists) is Some <==> marker is Some
            && executable_exists,
        install_in_force(marker, executable_exists) matches Some(install) ==> install
            == marker->0,
{
}

} // verus!
