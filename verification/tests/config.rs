use sdcpp::config::{
    build_server_args, config_fingerprint, read_config, SdcppConfig, DEFAULT_PORT, PROVIDER_ID,
    PROVIDER_LABEL,
};

fn some(text: &str) -> Option<String> {
    Some(text.to_string())
}

#[test]
fn provider_is_named() {
    assert_eq!(PROVIDER_ID, "sdcpp");
    assert_eq!(PROVIDER_LABEL, "Stable Diffusion (Local)");
    assert_eq!(DEFAULT_PORT, 17861);
}

#[test]
fn missing_config_is_bare_and_automatic() {
    let config = read_config(None).unwrap();
    let mut expected = SdcppConfig::default();
    expected.backend = "auto".to_string();
    assert_eq!(config, expected);
    assert_eq!(SdcppConfig::default().backend, "");
}

#[test]
fn stored_config_and_its_failure_are_handed_on() {
    let mut stored = SdcppConfig::default();
    stored.port = Some(9);
    assert_eq!(read_config(Some(Ok(stored.clone()))), Ok(stored));
    assert_eq!(read_config(Some(Err("broken".to_string()))), Err("broken".to_string()));
}

#[test]
fn model_needs_more_than_white_space() {
    let mut config = SdcppConfig::default();
    assert!(!config.has_model());
    config.full_model_path = some(" \t\n\u{3000}\u{85}");
    config.diffusion_model_path = some("");
    assert!(!config.has_model());
    config.diffusion_model_path = some(" x ");
    assert!(config.has_model());
    config.diffusion_model_path = None;
    config.full_model_path = some("model.gguf");
    assert!(config.has_model());
    // A zero width space is no white space.
    config.full_model_path = some("\u{200b}");
    assert!(config.has_model());
}

#[test]
fn fingerprint_joins_its_parts() {
    let mut config = SdcppConfig::default();
    assert_eq!(config_fingerprint(&config), "|||||||false|false|");
    config.full_model_path = some("a");
    config.diffusion_model_path = some("b");
    config.vae_path = some("c");
    config.llm_path = some("d");
    config.clip_l_path = some("e");
    config.clip_g_path = some("f");
    config.t5xxl_path = some("g");
    config.offload_to_cpu = true;
    config.extra_args = some("--x y");
    assert_eq!(config_fingerprint(&config), "a|b|c|d|e|f|g|true|false|--x y");
}

#[test]
fn fingerprint_ignores_backend_port_and_keep_alive() {
    let mut config = SdcppConfig::default();
    config.vae_path = some("v");
    let before = config_fingerprint(&config);
    config.backend = "cuda".to_string();
    config.port = Some(1);
    config.keep_alive_minutes = Some(3);
    assert_eq!(config_fingerprint(&config), before);
}

#[test]
fn same_fingerprint_gives_same_args() {
    let mut a = SdcppConfig::default();
    a.full_model_path = some("m");
    a.vae_path = None;
    let mut b = a.clone();
    b.vae_path = some("");
    b.backend = "rocm".to_string();
    assert_eq!(config_fingerprint(&a), config_fingerprint(&b));
    assert_eq!(build_server_args(&a, 5), build_server_args(&b, 5));
}

#[test]
fn bars_in_paths_can_hide_a_difference() {
    let mut a = SdcppConfig::default();
    a.full_model_path = some("a|b");
    a.diffusion_model_path = some("c");
    let mut b = SdcppConfig::default();
    b.full_model_path = some("a");
    b.diffusion_model_path = some("b|c");
    assert_eq!(config_fingerprint(&a), config_fingerprint(&b));
    assert_ne!(build_server_args(&a, 5), build_server_args(&b, 5));
}

#[test]
fn args_of_a_bare_config() {
    let args = build_server_args(&SdcppConfig::default(), 17861);
    assert_eq!(args, vec!["--listen-ip", "127.0.0.1", "--listen-port", "17861"]);
}

#[test]
fn args_of_a_full_config() {
    let mut config = SdcppConfig::default();
    config.full_model_path = some(" full ");
    config.diffusion_model_path = some("ignored");
    config.vae_path = some("v");
    config.llm_path = some("l");
    config.clip_l_path = some("cl");
    config.clip_g_path = some("  ");
    config.t5xxl_path = some("t5");
    config.offload_to_cpu = true;
    config.flash_attention = true;
    config.extra_args = some("  --seed 7\t\n--x\u{a0}y ");
    let args = build_server_args(&config, 65535);
    assert_eq!(
        args,
        vec![
            "--model", " full ", "--vae", "v", "--llm", "l", "--clip_l", "cl", "--t5xxl", "t5",
            "--offload-to-cpu", "--diffusion-fa", "--listen-ip", "127.0.0.1", "--listen-port",
            "65535", "--seed", "7", "--x", "y",
        ]
    );
}

#[test]
fn diffusion_model_stands_in_for_a_blank_full_one() {
    let mut config = SdcppConfig::default();
    config.full_model_path = some(" ");
    config.diffusion_model_path = some("d.gguf");
    let args = build_server_args(&config, 0);
    assert_eq!(args[0], "--diffusion-model");
    assert_eq!(args[1], "d.gguf");
    assert_eq!(args[5], "0");
    assert_eq!(args.len(), 6);
}

#[test]
fn bars_in_one_part_hide_nothing() {
    let mut a = SdcppConfig::default();
    a.extra_args = some("--x a|b");
    let mut b = SdcppConfig::default();
    b.extra_args = some("--x a|c");
    assert_ne!(config_fingerprint(&a), config_fingerprint(&b));
    b.extra_args = some("--x a|b");
    assert_eq!(config_fingerprint(&a), config_fingerprint(&b));
    assert_eq!(build_server_args(&a, 1), build_server_args(&b, 1));
}
