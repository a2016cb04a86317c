use sdcpp::config::SdcppConfig;
use sdcpp::events::{status_payload, StatusEvent, DOWNLOAD_EVENT, STATUS_EVENT};
use sdcpp::release::BinaryInstall;
use sdcpp::server::{
    capabilities_url, claim_reaper, ensure_server_running, log_tail, mark_used, reap_idle,
    sdcpp_get_status, sdcpp_set_config, sdcpp_stop_server, server_base_url, shutdown, Launch,
    LaunchEvent, LaunchStep, SdcppState, ServerProc, READY_TIMEOUT_NANOS,
};
use serde_json::Value;

const MINUTE: u128 = 60_000_000_000;

fn config() -> SdcppConfig {
    let mut config = SdcppConfig::default();
    config.full_model_path = Some("m.gguf".to_string());
    config
}

fn install() -> Option<BinaryInstall> {
    Some(BinaryInstall {
        tag: "v1".to_string(),
        backend: "cuda".to_string(),
        executable: "/bin/sd-server".to_string(),
    })
}

fn launch() -> Launch {
    ensure_server_running(Ok(config()), install()).unwrap()
}

fn started(state: &mut SdcppState) -> Launch {
    let mut launch = launch();
    launch.advance(state, LaunchEvent::Probed { alive: false, now: 1 });
    launch.advance(state, LaunchEvent::Spawned { now: 2 });
    launch.advance(state, LaunchEvent::Announced { now: 3 });
    launch
}

fn result(launch: Launch) -> Result<String, String> {
    match launch.step {
        LaunchStep::Finish(end) => end.result,
        other => panic!("not over: {:?}", other),
    }
}

#[test]
fn launch_is_refused_without_config_model_or_install() {
    assert_eq!(
        ensure_server_running(Err("unreadable".to_string()), install()),
        Err("unreadable".to_string())
    );
    assert_eq!(
        ensure_server_running(Ok(SdcppConfig::default()), None),
        Err("No local diffusion model configured. Pick a model in Settings → Image Generation.".to_string())
    );
    assert_eq!(
        ensure_server_running(Ok(config()), None),
        Err("sd.cpp runtime is not installed. Download it in Settings → Image Generation.".to_string())
    );
}

#[test]
fn launch_plan_follows_the_config() {
    let launch = launch();
    assert_eq!(launch.plan.executable, "/bin/sd-server");
    assert_eq!(launch.plan.port, 17861);
    assert_eq!(launch.plan.args[0], "--model");
    assert_eq!(launch.plan.args[5], "17861");
    assert_eq!(launch.plan.fingerprint, "m.gguf|||||||false|false|");
    assert_eq!(launch.base_url(), "http://127.0.0.1:17861");
    assert_eq!(launch.step, LaunchStep::Probe);
    let mut other = config();
    other.port = Some(8080);
    let launch = ensure_server_running(Ok(other), install()).unwrap();
    assert_eq!(launch.base_url(), "http://127.0.0.1:8080");
}

#[test]
fn server_is_started_and_reused() {
    let mut state = SdcppState::default();
    let mut first = launch();
    first.advance(&mut state, LaunchEvent::Probed { alive: false, now: 1 });
    assert_eq!(first.step, LaunchStep::Spawn);
    assert_eq!(first.announcement(), Some(StatusEvent::new("starting", None)));
    first.advance(&mut state, LaunchEvent::Spawned { now: 2 });
    assert_eq!(first.step, LaunchStep::Announce);
    assert_eq!(first.announcement(), Some(StatusEvent::new("loading_model", None)));
    assert!(!state.inner.as_ref().unwrap().ready);
    first.advance(&mut state, LaunchEvent::Announced { now: 3 });
    assert_eq!(first.deadline, 3 + READY_TIMEOUT_NANOS);
    assert_eq!(first.step, LaunchStep::Poll);
    first.advance(&mut state, LaunchEvent::NotReady);
    assert_eq!(first.step, LaunchStep::CheckExit);
    first.advance(&mut state, LaunchEvent::Running { now: 4 });
    assert_eq!(first.step, LaunchStep::Sleep);
    first.advance(&mut state, LaunchEvent::Woke);
    first.advance(&mut state, LaunchEvent::Ready { now: 5 });
    assert_eq!(first.announcement(), Some(StatusEvent::new("ready", None)));
    let expected = ServerProc {
        port: 17861,
        config_fingerprint: "m.gguf|||||||false|false|".to_string(),
        ready: true,
        last_used: 5,
    };
    assert_eq!(state.inner, Some(expected));
    match &first.step {
        LaunchStep::Finish(end) => assert!(end.needs_reaper),
        _ => panic!(),
    }
    assert_eq!(result(first), Ok("http://127.0.0.1:17861".to_string()));

    let mut second = launch();
    second.advance(&mut state, LaunchEvent::Probed { alive: true, now: 9 });
    assert_eq!(second.announcement(), None);
    assert_eq!(result(second), Ok("http://127.0.0.1:17861".to_string()));
    assert_eq!(state.inner.as_ref().unwrap().last_used, 9);
}

#[test]
fn server_of_another_port_is_reused_at_its_own() {
    let mut state = SdcppState::default();
    let mut first = started(&mut state);
    first.advance(&mut state, LaunchEvent::Ready { now: 5 });
    let mut moved = config();
    moved.port = Some(1);
    let mut second = ensure_server_running(Ok(moved), install()).unwrap();
    second.advance(&mut state, LaunchEvent::Probed { alive: true, now: 6 });
    assert_eq!(result(second), Ok("http://127.0.0.1:17861".to_string()));
}

#[test]
fn unfit_server_is_replaced() {
    for (alive, ready, same) in [(false, true, true), (true, false, true), (true, true, false)] {
        let fingerprint = if same { launch().plan.fingerprint } else { "other".to_string() };
        let mut state = SdcppState::default();
        state.inner = Some(ServerProc { port: 1, config_fingerprint: fingerprint, ready, last_used: 0 });
        let mut launch = launch();
        launch.advance(&mut state, LaunchEvent::Probed { alive, now: 1 });
        assert_eq!(launch.step, LaunchStep::Clear);
        assert_eq!(state.inner, None);
        launch.advance(&mut state, LaunchEvent::Cleared);
        assert_eq!(launch.step, LaunchStep::Spawn);
    }
}

#[test]
fn failed_start_leaves_nothing() {
    let mut state = SdcppState::default();
    let mut launch = launch();
    launch.advance(&mut state, LaunchEvent::Probed { alive: true, now: 1 });
    launch.advance(&mut state, LaunchEvent::SpawnFailed { message: "no such file".to_string() });
    assert_eq!(state.inner, None);
    assert_eq!(result(launch), Err("no such file".to_string()));
}

#[test]
fn early_exit_tells_the_log() {
    let mut state = SdcppState::default();
    let mut launch = started(&mut state);
    launch.advance(&mut state, LaunchEvent::NotReady);
    launch.advance(
        &mut state,
        LaunchEvent::Exited { status: "exit status: 1".to_string(), log: Some("a\r\nb\n".to_string()) },
    );
    assert_eq!(state.inner, None);
    assert_eq!(launch.announcement(), Some(StatusEvent::new("error", Some("a\nb".to_string()))));
    assert_eq!(result(launch), Err("sd-server exited early (exit status: 1): a\nb".to_string()));
}

#[test]
fn launch_times_out_at_its_deadline() {
    let mut state = SdcppState::default();
    let mut launch = started(&mut state);
    launch.advance(&mut state, LaunchEvent::NotReady);
    launch.advance(&mut state, LaunchEvent::Running { now: 2 + READY_TIMEOUT_NANOS });
    assert_eq!(launch.step, LaunchStep::Sleep);
    launch.advance(&mut state, LaunchEvent::Woke);
    launch.advance(&mut state, LaunchEvent::NotReady);
    launch.advance(&mut state, LaunchEvent::Running { now: 3 + READY_TIMEOUT_NANOS });
    assert_eq!(launch.step, LaunchStep::Stop);
    assert_eq!(sdcpp_stop_server(&mut state), Some(StatusEvent::new("stopped", None)));
    launch.advance(&mut state, LaunchEvent::Stopped);
    assert_eq!(state.inner, None);
    assert_eq!(result(launch), Err("Timed out waiting for sd-server to load the model".to_string()));
}

#[test]
fn stray_events_change_nothing() {
    let mut state = SdcppState::default();
    let mut launch = started(&mut state);
    let before = state.clone();
    launch.advance(&mut state, LaunchEvent::Woke);
    launch.advance(&mut state, LaunchEvent::Stopped);
    assert_eq!(launch.step, LaunchStep::Poll);
    assert_eq!(state, before);
    launch.advance(&mut state, LaunchEvent::Ready { now: 7 });
    let before = state.clone();
    launch.advance(&mut state, LaunchEvent::Probed { alive: false, now: 8 });
    assert_eq!(state, before);
    assert!(result(launch).is_ok());
}

#[test]
fn server_stopped_meanwhile_stays_stopped() {
    let mut state = SdcppState::default();
    let mut launch = started(&mut state);
    sdcpp_stop_server(&mut state);
    launch.advance(&mut state, LaunchEvent::Ready { now: 7 });
    assert_eq!(state.inner, None);
}

#[test]
fn log_tail_is_twelve_lines() {
    assert_eq!(log_tail(&None), "");
    assert_eq!(log_tail(&Some("".to_string())), "");
    let mut log = String::new();
    for i in 0..20 {
        log = format!("{}{}\n", log, i);
    }
    assert_eq!(log_tail(&Some(log)), "8\n9\n10\n11\n12\n13\n14\n15\n16\n17\n18\n19");
}

#[test]
fn stopping_happens_once() {
    let mut state = SdcppState::default();
    assert_eq!(sdcpp_stop_server(&mut state), None);
    assert!(!shutdown(&mut state));
    started(&mut state);
    assert!(sdcpp_stop_server(&mut state).is_some());
    assert_eq!(sdcpp_stop_server(&mut state), None);
    started(&mut state);
    assert!(shutdown(&mut state));
    assert_eq!(state.inner, None);
}

#[test]
fn reaper_is_started_once() {
    let mut state = SdcppState::default();
    assert!(claim_reaper(&mut state));
    assert!(!claim_reaper(&mut state));
}

#[test]
fn idle_server_is_stopped_after_its_time() {
    let mut state = SdcppState::default();
    let mut keep = config();
    started(&mut state);
    mark_used(&mut state, 1000);
    assert_eq!(reap_idle(&mut state, &Some(keep.clone()), 1000 + 10 * MINUTE), None);
    keep.keep_alive_minutes = Some(0);
    assert_eq!(reap_idle(&mut state, &Some(keep.clone()), 1000 + 1000 * MINUTE), None);
    keep.keep_alive_minutes = Some(20);
    assert_eq!(reap_idle(&mut state, &Some(keep), 1000 + 20 * MINUTE), None);
    assert_eq!(reap_idle(&mut state, &None, 999), None);
    assert_eq!(
        reap_idle(&mut state, &None, 1001 + 10 * MINUTE),
        Some(StatusEvent::new("stopped", Some("idle".to_string())))
    );
    assert_eq!(state.inner, None);
    assert_eq!(reap_idle(&mut state, &None, 1001 + 11 * MINUTE), None);
    mark_used(&mut state, 5);
    assert_eq!(state.inner, None);
}

#[test]
fn config_change_stops_where_it_matters() {
    let a = config();
    let mut b = config();
    assert_eq!(stops(&a, &b), false);
    b.backend = "x".to_string();
    b.keep_alive_minutes = Some(1);
    assert_eq!(stops(&a, &b), false);
    b.port = Some(17861);
    assert_eq!(stops(&a, &b), true);
    let mut c = config();
    c.flash_attention = true;
    assert_eq!(stops(&a, &c), true);
}

fn stops(previous: &SdcppConfig, config: &SdcppConfig) -> bool {
    let change = sdcpp_set_config(Ok(previous.clone()), config.clone()).unwrap();
    assert_eq!(&change.config, config);
    assert_eq!(change.stored(Ok(())), Ok(change.stop));
    change.stop
}

#[test]
fn config_that_cannot_be_read_is_not_overwritten() {
    assert_eq!(
        sdcpp_set_config(Err("broken".to_string()), config()),
        Err("broken".to_string())
    );
    let mut other = config();
    other.port = Some(1);
    let change = sdcpp_set_config(Ok(config()), other).unwrap();
    assert_eq!(change.stored(Err("disk full".to_string())), Err("disk full".to_string()));
}

#[test]
fn server_runs_where_its_executable_lies() {
    for (executable, directory) in [
        ("/opt/sd/bin/sd-server", Some("/opt/sd/bin")),
        ("/sd-server", Some("/")),
        ("C:/sd/sd-server.exe", Some("C:/sd")),
        ("sd-server", Some("")),
        ("/", None),
        ("", None),
    ] {
        let mut install = install().unwrap();
        install.executable = executable.to_string();
        let launch = ensure_server_running(Ok(config()), Some(install)).unwrap();
        assert_eq!(launch.plan.executable, executable);
        assert_eq!(launch.plan.directory.as_deref(), directory);
    }
}

#[test]
fn status_tells_what_there_is() {
    let mut state = SdcppState::default();
    let status = sdcpp_get_status(&mut state, &SdcppConfig::default(), None, true);
    assert!(!status.binary_installed && !status.model_configured && !status.server_running);
    assert_eq!(status.binary_tag, None);
    assert_eq!(status.base_url, None);
    started(&mut state);
    let status = sdcpp_get_status(&mut state, &config(), install(), true);
    assert!(status.binary_installed && status.model_configured && status.server_running);
    assert!(!status.server_ready);
    assert_eq!(status.binary_tag, Some("v1".to_string()));
    assert_eq!(status.binary_backend, Some("cuda".to_string()));
    assert_eq!(status.base_url, Some("http://127.0.0.1:17861".to_string()));
    let status = sdcpp_get_status(&mut state, &config(), install(), false);
    assert!(!status.server_running);
    assert_eq!(state.inner, None);
}

#[test]
fn addresses_and_payloads() {
    assert_eq!(server_base_url(1), "http://127.0.0.1:1");
    assert_eq!(capabilities_url("http://h:2"), "http://h:2/sdcpp/v1/capabilities");
    assert_eq!(STATUS_EVENT, "sdcpp_status");
    assert_eq!(DOWNLOAD_EVENT, "sdcpp_download_progress");
    let mut expected = serde_json::Map::new();
    expected.insert("phase".to_string(), Value::String("p".to_string()));
    expected.insert("detail".to_string(), Value::Null);
    assert_eq!(status_payload("p", &None), Value::Object(expected.clone()));
    expected.insert("detail".to_string(), Value::String("d".to_string()));
    assert_eq!(StatusEvent::new("p", Some("d".to_string())).payload(), Value::Object(expected));
}
