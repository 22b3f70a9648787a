use filesmind_launcher::launch::{
    backend_base_url, backend_env, fallback_runtime, find_sidecar_path, js_escape, random_token,
    resolve_workspace_root, runtime_injection_script, sidecar_binary_name, sidecar_candidates,
    LaunchError, RuntimeConfigPayload,
};
use filesmind_launcher::readiness::BackendEvent;

#[test]
fn token_is_40_alphanumeric_chars() {
    let token = random_token();
    assert_eq!(token.len(), 40);
    assert_eq!(token.chars().count(), 40);
    assert!(token.chars().all(|c| c.is_ascii_alphanumeric()));
}

#[test]
fn tokens_are_fresh_each_time() {
    let a = random_token();
    let b = random_token();
    assert_ne!(a, b);
}

#[test]
fn base_url_uses_loopback_and_port() {
    assert_eq!(backend_base_url(8080), "http://127.0.0.1:8080");
    assert_eq!(backend_base_url(0), "http://127.0.0.1:0");
    assert_eq!(backend_base_url(65535), "http://127.0.0.1:65535");
}

#[test]
fn env_bindings_are_complete() {
    let env = backend_env(4321, "tok", "/data/app", "1.2.3");
    assert_eq!(env.len(), 7);
    assert_eq!(env[0], ("FILESMIND_HOST".to_string(), "127.0.0.1".to_string()));
    assert_eq!(env[1], ("FILESMIND_PORT".to_string(), "4321".to_string()));
    assert_eq!(env[2], ("FILESMIND_AUTH_TOKEN".to_string(), "tok".to_string()));
    assert_eq!(env[3], ("FILESMIND_DATA_DIR".to_string(), "/data/app/data".to_string()));
    assert_eq!(env[4], ("FILESMIND_LOG_DIR".to_string(), "/data/app/logs".to_string()));
    assert_eq!(env[5], ("FILESMIND_APP_VERSION".to_string(), "1.2.3".to_string()));
    assert_eq!(env[6], ("PYTORCH_ENABLE_MPS_FALLBACK".to_string(), "1".to_string()));
}

#[test]
fn binary_name_per_platform() {
    assert_eq!(sidecar_binary_name(true), "filesmind-backend.exe");
    assert_eq!(sidecar_binary_name(false), "filesmind-backend");
}

#[test]
fn candidates_in_search_order() {
    let c = sidecar_candidates(Some("/exe"), Some("/res"), false);
    assert_eq!(
        c,
        vec![
            "/exe/filesmind-backend".to_string(),
            "/res/binaries/filesmind-backend".to_string(),
            "/res/filesmind-backend".to_string(),
        ]
    );
    let only_res = sidecar_candidates(None, Some("/res"), true);
    assert_eq!(
        only_res,
        vec![
            "/res/binaries/filesmind-backend.exe".to_string(),
            "/res/filesmind-backend.exe".to_string(),
        ]
    );
}

#[test]
fn override_path_wins_and_is_trimmed() {
    let r = find_sidecar_path(
        Some("  /opt/backend  ".to_string()),
        true,
        "/ws",
        vec![],
        &vec![],
    );
    let cmd = r.ok().unwrap();
    assert_eq!(cmd.program, "/opt/backend");
    assert!(cmd.args.is_empty());
}

#[test]
fn blank_override_is_ignored() {
    let r = find_sidecar_path(Some("   ".to_string()), true, "/ws", vec![], &vec![]);
    let cmd = r.ok().unwrap();
    assert_eq!(cmd.program, "python");
    assert_eq!(cmd.args, vec!["/ws/backend/desktop_server.py".to_string()]);
}

#[test]
fn dev_mode_runs_interpreter_against_workspace_script() {
    let r = find_sidecar_path(None, true, "/home/dev/proj", vec![], &vec![]);
    let cmd = r.ok().unwrap();
    assert_eq!(cmd.program, "python");
    assert_eq!(cmd.args, vec!["/home/dev/proj/backend/desktop_server.py".to_string()]);
}

#[test]
fn packaged_mode_picks_first_existing_candidate() {
    let candidates = vec!["/a/bin".to_string(), "/b/bin".to_string(), "/c/bin".to_string()];
    let present = vec![false, true, true];
    let r = find_sidecar_path(None, false, "/ws", candidates, &present);
    let cmd = r.ok().unwrap();
    assert_eq!(cmd.program, "/b/bin");
    assert!(cmd.args.is_empty());
}

#[test]
fn missing_sidecar_lists_checked_paths() {
    let candidates = vec!["/a/bin".to_string(), "/b/bin".to_string()];
    let present = vec![false, false];
    let r = find_sidecar_path(None, false, "/ws", candidates, &present);
    match r {
        Err(LaunchError::SidecarNotFound { checked }) => {
            assert_eq!(checked, vec!["/a/bin".to_string(), "/b/bin".to_string()]);
            let msg = LaunchError::SidecarNotFound { checked }.message();
            assert_eq!(msg, "backend sidecar not found; checked: /a/bin, /b/bin");
        }
        _ => panic!("expected a sidecar-not-found failure"),
    }
}

#[test]
fn launch_error_messages_are_nonempty() {
    assert_eq!(
        LaunchError::PortBindFailure.message(),
        "bind local random port failed"
    );
    assert_eq!(
        LaunchError::DataDirFailure.message(),
        "create app data dir failed"
    );
    assert_eq!(
        LaunchError::SpawnFailure { program: "/x".to_string() }.message(),
        "spawn backend sidecar failed: /x"
    );
    assert!(!LaunchError::SidecarNotFound { checked: vec![] }.message().is_empty());
}

#[test]
fn workspace_root_resolution_order() {
    assert_eq!(
        resolve_workspace_root("/cwd".to_string(), true, "/parent".to_string(), true),
        "/cwd"
    );
    assert_eq!(
        resolve_workspace_root("/cwd".to_string(), false, "/parent".to_string(), true),
        "/parent"
    );
    assert_eq!(
        resolve_workspace_root("/cwd".to_string(), false, "/parent".to_string(), false),
        "/cwd"
    );
}

#[test]
fn spawn_failure_falls_back_to_empty_config_and_failed_event() {
    let candidates = vec!["/a/bin".to_string()];
    let present = vec![false];
    let err = find_sidecar_path(None, false, "/ws", candidates, &present)
        .err()
        .unwrap();
    let message = err.message();
    let (config, event) = fallback_runtime(message);
    assert_eq!(config.backend_base_url, "");
    assert_eq!(config.auth_token, "");
    assert_eq!(event.name(), "backend-failed");
    assert!(!event.ready_flag());
    match event {
        BackendEvent::Failed { error } => assert!(!error.is_empty()),
        BackendEvent::Ready => panic!("expected a failure event"),
    }
}

#[test]
fn empty_runtime_config_signals_no_backend() {
    let config = RuntimeConfigPayload::empty();
    assert!(config.backend_base_url.is_empty());
    assert!(config.auth_token.is_empty());
    let real = RuntimeConfigPayload::new("http://127.0.0.1:9", "t");
    assert_eq!(real.backend_base_url, "http://127.0.0.1:9");
    assert_eq!(real.auth_token, "t");
}

#[test]
fn js_escape_rewrites_special_characters() {
    assert_eq!(js_escape("plain"), "plain");
    assert_eq!(js_escape("a\\b"), "a\\\\b");
    assert_eq!(js_escape("say \"hi\""), "say \\\"hi\\\"");
    assert_eq!(js_escape("line1\nline2"), "line1\\nline2");
    assert_eq!(js_escape("line1\r\nline2"), "line1\\nline2");
    assert_eq!(js_escape("a\\b\"c\nd\re"), "a\\\\b\\\"c\\nde");
}

#[test]
fn injection_script_embeds_escaped_values() {
    let script = runtime_injection_script("http://127.0.0.1:5", "to\"k");
    assert_eq!(
        script,
        "window.__FILESMIND_RUNTIME__ = { backendBaseUrl: \"http://127.0.0.1:5\", authToken: \"to\\\"k\" };"
    );
}
