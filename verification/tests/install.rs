use sdcpp::install::{Install, InstallEvent, InstallStep, Part};
use sdcpp::platform::Platform;
use sdcpp::release::BinaryInstall;
use serde_json::Value;

fn release(names: &[&str]) -> Value {
    let mut assets = Vec::new();
    for name in names {
        let mut asset = serde_json::Map::new();
        asset.insert("name".to_string(), Value::from(*name));
        asset.insert("browser_download_url".to_string(), Value::from(format!("u:{}", name)));
        assets.push(Value::Object(asset));
    }
    let mut release = serde_json::Map::new();
    release.insert("tag_name".to_string(), Value::from("v9"));
    release.insert("assets".to_string(), Value::Array(assets));
    Value::Object(release)
}

fn failure(message: &str) -> InstallEvent {
    InstallEvent::Failed { message: message.to_string() }
}

/// An installation for the processor alone that has come to the file to download.
fn at_download() -> Install {
    let mut install = Install::new(Some("cpu".to_string()), Platform::Other);
    install.advance(InstallEvent::Done);
    install.advance(InstallEvent::Fetched { release: release(&["sd-linux-x86_64.zip"]) });
    install.advance(InstallEvent::Done);
    install
}

/// The same, come to the file to look for.
fn at_search() -> Install {
    let mut install = at_download();
    for _ in 0..4 {
        install.advance(InstallEvent::Done);
    }
    install
}

#[test]
fn installation_with_the_cuda_runtime_runs_through() {
    let mut install = Install::new(None, Platform::Windows);
    assert_eq!(install.requested, "auto");
    assert_eq!(install.step, InstallStep::StopServer);
    assert_eq!(install.announcement(), None);
    install.advance(InstallEvent::Done);
    assert_eq!(install.step, InstallStep::ProbeGpu);
    install.advance(InstallEvent::Probed { nvidia_gpu: true });
    assert_eq!(install.backend, "cuda");
    let status = install.announcement().unwrap();
    assert_eq!(status.phase, "downloading_binary");
    assert_eq!(status.detail, Some("cuda".to_string()));
    install.advance(InstallEvent::Fetched { release: release(&["sd-win-cuda12.zip", "cudart.zip"]) });
    assert_eq!(install.step, InstallStep::ClearDirectory);
    install.advance(InstallEvent::Done);
    assert_eq!(install.step, InstallStep::Download(Part::Server));
    install.advance(InstallEvent::Done);
    assert_eq!(install.step, InstallStep::Unpack(Part::Server));
    install.advance(InstallEvent::Done);
    assert_eq!(install.step, InstallStep::RemoveArchive(Part::Server));
    install.advance(failure("busy"));
    assert_eq!(install.step, InstallStep::Download(Part::Runtime));
    assert_eq!(install.plan.as_ref().unwrap().runtime.as_ref().unwrap().url, "u:cudart.zip");
    install.advance(InstallEvent::Done);
    install.advance(InstallEvent::Done);
    install.advance(InstallEvent::Done);
    assert_eq!(install.step, InstallStep::MakeExecutable);
    install.advance(InstallEvent::Done);
    install.advance(InstallEvent::Found { executable: Some("C:/sd-server.exe".to_string()) });
    let marker = BinaryInstall {
        tag: "v9".to_string(),
        backend: "cuda".to_string(),
        executable: "C:/sd-server.exe".to_string(),
    };
    assert_eq!(install.step, InstallStep::WriteMarker(marker));
    install.advance(InstallEvent::Done);
    assert_eq!(install.step, InstallStep::Finish(Ok("v9".to_string())));
    let status = install.announcement().unwrap();
    assert_eq!(status.phase, "binary_ready");
    assert_eq!(status.detail, Some("v9".to_string()));
}

#[test]
fn installation_without_a_gpu_takes_vulkan() {
    let mut install = Install::new(Some("".to_string()), Platform::Windows);
    install.advance(InstallEvent::Done);
    install.advance(InstallEvent::Probed { nvidia_gpu: false });
    assert_eq!(install.backend, "vulkan");
    assert_eq!(install.step, InstallStep::FetchRelease);
}

#[test]
fn gpu_is_looked_for_only_where_it_counts() {
    for (requested, platform, backend) in [
        (None, Platform::MacOs, "metal"),
        (None, Platform::Other, "vulkan"),
        (Some("rocm".to_string()), Platform::Windows, "rocm"),
    ] {
        let mut install = Install::new(requested, platform);
        install.advance(InstallEvent::Done);
        assert_eq!(install.step, InstallStep::FetchRelease);
        assert_eq!(install.backend, backend);
    }
}

#[test]
fn installation_without_the_runtime_goes_on_with_its_files() {
    let mut install = at_download();
    install.advance(InstallEvent::Done);
    install.advance(InstallEvent::Done);
    install.advance(InstallEvent::Done);
    assert_eq!(install.step, InstallStep::MakeExecutable);
}

#[test]
fn failed_download_ends_an_installation() {
    let mut install = at_download();
    install.advance(failure("no net"));
    assert_eq!(install.step, InstallStep::Finish(Err("no net".to_string())));
    install.advance(InstallEvent::Done);
    assert_eq!(install.step, InstallStep::Finish(Err("no net".to_string())));
    assert_eq!(install.announcement(), None);
}

#[test]
fn each_step_that_fails_ends_an_installation() {
    let ended = InstallStep::Finish(Err("no".to_string()));
    let mut install = Install::new(Some("cpu".to_string()), Platform::Other);
    install.advance(InstallEvent::Done);
    install.advance(failure("no"));
    assert_eq!(install.step, ended);
    let mut install = Install::new(Some("cpu".to_string()), Platform::Other);
    install.advance(InstallEvent::Done);
    install.advance(InstallEvent::Fetched { release: release(&["sd-linux-x86_64.zip"]) });
    install.advance(failure("no"));
    assert_eq!(install.step, ended);
    // Unpacking, making files executable and looking for the server.
    for steps in [1, 3, 4] {
        let mut install = at_download();
        for _ in 0..steps {
            install.advance(InstallEvent::Done);
        }
        install.advance(failure("no"));
        assert_eq!(install.step, ended);
    }
    let mut install = at_search();
    install.advance(InstallEvent::Found { executable: Some("/b/sd-server".to_string()) });
    install.advance(failure("no"));
    assert_eq!(install.step, ended);
}

#[test]
fn release_without_a_server_ends_an_installation() {
    let mut install = Install::new(Some("cpu".to_string()), Platform::Other);
    install.advance(InstallEvent::Done);
    install.advance(InstallEvent::Fetched { release: release(&["sd-win-avx2.zip"]) });
    let message = "No sd.cpp release asset found for this platform with backend 'cpu'";
    assert_eq!(install.step, InstallStep::Finish(Err(message.to_string())));
    assert_eq!(install.plan, None);
}

#[test]
fn installation_without_executable_fails() {
    let mut install = at_search();
    assert_eq!(install.step, InstallStep::FindExecutable);
    install.advance(InstallEvent::Found { executable: None });
    let message = "Downloaded archive did not contain an sd-server executable";
    assert_eq!(install.step, InstallStep::Finish(Err(message.to_string())));
}

#[test]
fn stray_events_leave_an_installation() {
    let mut install = Install::new(Some("cpu".to_string()), Platform::Other);
    install.advance(InstallEvent::Found { executable: None });
    install.advance(InstallEvent::Probed { nvidia_gpu: true });
    assert_eq!(install.step, InstallStep::StopServer);
    assert_eq!(install.backend, "");
}
