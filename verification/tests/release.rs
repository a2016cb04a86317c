use sdcpp::platform::Platform;
use sdcpp::release::{
    asset_matches, check_download_response, check_release_response, finish_install,
    lowered_asset_matches, read_install_marker, release_tag, sdcpp_download_binary, select_assets,
    BinaryInstall, Download,
};
use serde_json::Value;

fn text(s: &str) -> Value {
    Value::String(s.to_string())
}

fn object(fields: Vec<(&str, Value)>) -> Value {
    let mut map = serde_json::Map::new();
    for (key, value) in fields {
        map.insert(key.to_string(), value);
    }
    Value::Object(map)
}

fn asset(name: &str) -> Value {
    object(vec![("name", text(name)), ("browser_download_url", text(&format!("u:{}", name)))])
}

fn release(names: &[&str]) -> Value {
    let mut assets = Vec::new();
    for name in names {
        assets.push(asset(name));
    }
    object(vec![("tag_name", text("v9")), ("assets", Value::Array(assets))])
}

#[test]
fn only_server_archives_match() {
    assert!(!asset_matches("sd-linux-x86_64.tar.gz", "cpu", Platform::Other));
    assert!(!asset_matches("cudart-sd-linux-x86_64-vulkan.zip", "vulkan", Platform::Other));
    assert!(asset_matches("SD-Linux-X86_64.ZIP", "cpu", Platform::Other));
}

#[test]
fn mac_takes_the_arm_build() {
    assert!(asset_matches("sd-Darwin-macOS-arm64.zip", "metal", Platform::MacOs));
    assert!(asset_matches("sd-Darwin-macOS-arm64.zip", "cuda", Platform::MacOs));
    assert!(!asset_matches("sd-Darwin-macOS-x64.zip", "metal", Platform::MacOs));
}

#[test]
fn windows_goes_by_backend() {
    let p = Platform::Windows;
    assert!(asset_matches("sd-bin-win-cuda12-x64.zip", "cuda", p));
    assert!(!asset_matches("sd-bin-win-cuda11-x64.zip", "cuda", p));
    assert!(asset_matches("sd-bin-win-vulkan-x64.zip", "vulkan", p));
    assert!(asset_matches("sd-bin-win-rocm-x64.zip", "rocm", p));
    assert!(asset_matches("sd-bin-win-avx2-x64.zip", "cpu", p));
    assert!(!asset_matches("sd-bin-win-avx512-x64.zip", "cpu", p));
    assert!(!asset_matches("sd-bin-linux-avx2-x64.zip", "cpu", p));
}

#[test]
fn elsewhere_cuda_comes_to_vulkan() {
    let p = Platform::Other;
    assert!(asset_matches("sd-linux-x86_64-vulkan.zip", "cuda", p));
    assert!(asset_matches("sd-linux-x86_64-vulkan.zip", "vulkan", p));
    assert!(!asset_matches("sd-linux-x86_64-vulkan.zip", "cpu", p));
    assert!(asset_matches("sd-linux-x86_64-rocm.zip", "rocm", p));
    assert!(!asset_matches("sd-linux-x86_64-rocm.zip", "cpu", p));
    assert!(asset_matches("sd-linux-x86_64.zip", "cpu", p));
    assert!(!asset_matches("sd-linux-arm64.zip", "cpu", p));
}

#[test]
fn lowered_name_is_taken_as_it_is() {
    assert!(lowered_asset_matches("sd-linux-x86_64.zip", "cpu", Platform::Other));
    assert!(!lowered_asset_matches("SD-LINUX-X86_64.ZIP", "cpu", Platform::Other));
}

#[test]
fn tag_may_be_unknown() {
    assert_eq!(release_tag(&release(&[])), "v9");
    assert_eq!(release_tag(&object(vec![("tag_name", Value::Bool(true))])), "unknown");
    assert_eq!(release_tag(&Value::Null), "unknown");
}

#[test]
fn first_fit_is_selected() {
    let names = ["notes.txt", "CUDART-a.zip", "sd-win-cuda12-1.zip", "sd-win-cuda12-2.zip", "cudart-b.zip"];
    let (server, runtime) = select_assets(&release(&names), "cuda", Platform::Windows);
    let server = server.unwrap();
    assert_eq!(server.name, "sd-win-cuda12-1.zip");
    assert_eq!(server.url, "u:sd-win-cuda12-1.zip");
    assert_eq!(runtime.unwrap().name, "CUDART-a.zip");
}

#[test]
fn assets_without_name_or_url_are_passed_over() {
    let nameless = object(vec![("browser_download_url", text("u"))]);
    let homeless = object(vec![("name", text("sd-linux-x86_64.zip")), ("browser_download_url", text(""))]);
    let odd = Value::from(7u64);
    let good = asset("sd-linux-x86_64-b.zip");
    let all = object(vec![("assets", Value::Array(vec![nameless, homeless, odd, good]))]);
    let plan = sdcpp_download_binary(&all, "cpu", Platform::Other).unwrap();
    assert_eq!(plan.server.name, "sd-linux-x86_64-b.zip");
    assert_eq!(plan.tag, "unknown");
    assert_eq!(plan.backend, "cpu");
    assert_eq!(plan.runtime, None);
}

#[test]
fn runtime_goes_with_cuda_on_windows_only() {
    let names = ["sd-win-cuda12.zip", "cudart.zip", "sd-win-vulkan.zip", "sd-linux-x86_64-vulkan.zip"];
    let r = release(&names);
    let cuda = sdcpp_download_binary(&r, "cuda", Platform::Windows).unwrap();
    assert_eq!(cuda.runtime.unwrap().name, "cudart.zip");
    let vulkan = sdcpp_download_binary(&r, "vulkan", Platform::Windows).unwrap();
    assert_eq!(vulkan.runtime, None);
    let linux = sdcpp_download_binary(&r, "cuda", Platform::Other).unwrap();
    assert_eq!(linux.server.name, "sd-linux-x86_64-vulkan.zip");
    assert_eq!(linux.runtime, None);
}

#[test]
fn release_without_fit_is_refused() {
    let message = "No sd.cpp release asset found for this platform with backend 'metal'";
    let got = sdcpp_download_binary(&release(&["sd-win-cuda12.zip"]), "metal", Platform::MacOs);
    assert_eq!(got, Err(message.to_string()));
    let got = sdcpp_download_binary(&Value::Null, "metal", Platform::MacOs);
    assert_eq!(got, Err(message.to_string()));
}

#[test]
fn responses_are_checked() {
    assert_eq!(check_release_response(true, "200 OK"), Ok(()));
    assert_eq!(
        check_release_response(false, "403 Forbidden"),
        Err("GitHub release lookup failed: 403 Forbidden".to_string())
    );
    assert_eq!(check_download_response(true, "200 OK", "u"), Ok(()));
    assert_eq!(
        check_download_response(false, "404 Not Found", "http://x"),
        Err("Download failed (404 Not Found): http://x".to_string())
    );
}

#[test]
fn download_reports_every_so_often() {
    let mut download = Download::start("a.zip", Some(1000));
    assert_eq!(download.receive(300, 199), None);
    let report = download.receive(200, 200).unwrap();
    let expected = object(vec![
        ("label", text("a.zip")),
        ("downloaded", Value::from(500u64)),
        ("total", Value::from(1000u64)),
        ("status", text("downloading")),
    ]);
    assert_eq!(report, expected);
    let end = download.finish();
    assert_eq!(end.get("status"), Some(&text("complete")));
    assert_eq!(end.get("downloaded"), Some(&Value::from(500u64)));
    assert_eq!(Download::start("b", None).total, 0);
}

#[test]
fn install_needs_an_executable() {
    let install = finish_install("v1", "cuda", Some("/x/sd-server".to_string())).unwrap();
    assert_eq!(install.tag, "v1");
    assert_eq!(install.backend, "cuda");
    assert_eq!(install.executable, "/x/sd-server");
    assert_eq!(
        finish_install("v1", "cuda", None),
        Err("Downloaded archive did not contain an sd-server executable".to_string())
    );
}

#[test]
fn marker_counts_while_the_executable_is_there() {
    let marker = BinaryInstall {
        tag: "t".to_string(),
        backend: "b".to_string(),
        executable: "e".to_string(),
    };
    assert_eq!(read_install_marker(Some(marker.clone()), true), Some(marker.clone()));
    assert_eq!(read_install_marker(Some(marker), false), None);
    assert_eq!(read_install_marker(None, true), None);
}
