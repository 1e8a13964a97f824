use std::collections::HashMap;

use codex_usage::environment::{
    local_environment_id, normalize_exec_server_url, remote_environment_id, DefaultEnvironmentProvider,
    EnvironmentDefault, EnvironmentProvider, EnvironmentProviderSnapshot, ExecServerRuntimePaths,
};

fn test_runtime_paths() -> ExecServerRuntimePaths {
    ExecServerRuntimePaths {
        codex_self_exe: "/usr/local/bin/codex".to_string(),
        codex_linux_sandbox_exe: None,
    }
}

#[test]
fn default_provider_requests_local_environment_when_url_is_missing() {
    let provider = DefaultEnvironmentProvider::new(None, Some(test_runtime_paths()));
    let snapshot = provider.snapshot().expect("environments");
    let EnvironmentProviderSnapshot {
        environments,
        local_environment,
        default,
    } = snapshot;
    let environments: HashMap<_, _> = environments.into_iter().collect();

    assert!(local_environment.is_some());
    assert!(!environments.contains_key(&local_environment_id()));
    assert!(!environments.contains_key(&remote_environment_id()));
    assert_eq!(default, EnvironmentDefault::EnvironmentId(local_environment_id()));
}

#[test]
fn default_provider_requests_local_environment_when_url_is_empty() {
    let provider = DefaultEnvironmentProvider::new(Some(String::new()), Some(test_runtime_paths()));
    let snapshot = provider.snapshot().expect("environments");
    let EnvironmentProviderSnapshot {
        environments,
        local_environment,
        default,
    } = snapshot;
    let environments: HashMap<_, _> = environments.into_iter().collect();

    assert!(local_environment.is_some());
    assert!(!environments.contains_key(&local_environment_id()));
    assert!(!environments.contains_key(&remote_environment_id()));
    assert_eq!(default, EnvironmentDefault::EnvironmentId(local_environment_id()));
}

#[test]
fn default_provider_omits_local_environment_for_none_value() {
    let provider =
        DefaultEnvironmentProvider::new(Some("none".to_string()), Some(test_runtime_paths()));
    let snapshot = provider.snapshot().expect("environments");
    let EnvironmentProviderSnapshot {
        environments,
        local_environment,
        default,
    } = snapshot;
    let environments: HashMap<_, _> = environments.into_iter().collect();

    assert!(local_environment.is_none());
    assert!(!environments.contains_key(&local_environment_id()));
    assert!(!environments.contains_key(&remote_environment_id()));
    assert_eq!(default, EnvironmentDefault::Disabled);
}

#[test]
fn default_provider_adds_remote_environment_for_websocket_url() {
    let provider = DefaultEnvironmentProvider::new(
        Some("ws://127.0.0.1:8765".to_string()),
        Some(test_runtime_paths()),
    );
    let snapshot = provider.snapshot().expect("environments");
    let EnvironmentProviderSnapshot {
        environments,
        local_environment,
        default,
    } = snapshot;
    let environments: HashMap<_, _> = environments.into_iter().collect();

    assert!(local_environment.is_none());
    assert!(!environments.contains_key(&local_environment_id()));
    let remote_environment = &environments[&remote_environment_id()];
    assert!(remote_environment.is_remote());
    assert_eq!(
        remote_environment.exec_server_url(),
        Some("ws://127.0.0.1:8765".to_string())
    );
    assert_eq!(default, EnvironmentDefault::EnvironmentId(remote_environment_id()));
}

#[test]
fn default_provider_normalizes_exec_server_url() {
    let provider = DefaultEnvironmentProvider::new(
        Some(" ws://127.0.0.1:8765 ".to_string()),
        Some(test_runtime_paths()),
    );
    let snapshot = provider.snapshot().expect("environments");
    let environments: HashMap<_, _> = snapshot.environments.into_iter().collect();

    assert_eq!(
        environments[&remote_environment_id()].exec_server_url(),
        Some("ws://127.0.0.1:8765".to_string())
    );
}

#[test]
fn default_provider_requires_runtime_paths_for_local_environment() {
    let provider = DefaultEnvironmentProvider::new(None, None);
    let err = provider
        .snapshot()
        .expect_err("local environment should require runtime paths");

    assert_eq!(
        err.to_message(),
        "exec-server protocol error: local environment requires configured runtime paths"
    );
}

#[test]
fn none_is_case_insensitive_and_trimmed() {
    assert_eq!(normalize_exec_server_url(Some("  NoNe\t".to_string())), (None, true));
    assert_eq!(normalize_exec_server_url(Some(" \n ".to_string())), (None, false));
    assert_eq!(normalize_exec_server_url(None), (None, false));
    assert_eq!(
        normalize_exec_server_url(Some("\u{3000}wss://host\u{a0}".to_string())),
        (Some("wss://host".to_string()), false)
    );
    assert_eq!(
        normalize_exec_server_url(Some("nonexistent".to_string())),
        (Some("nonexistent".to_string()), false)
    );
}

#[test]
fn disabled_provider_needs_no_runtime_paths() {
    let provider = DefaultEnvironmentProvider::new(Some("None".to_string()), None);
    let snapshot = provider.snapshot().expect("environments");
    assert!(snapshot.environments.is_empty());
    assert!(snapshot.local_environment.is_none());
    assert_eq!(snapshot.default, EnvironmentDefault::Disabled);
}

#[test]
fn remote_provider_needs_no_runtime_paths() {
    let provider = DefaultEnvironmentProvider::new(Some("ws://h".to_string()), None);
    let snapshot = provider.snapshot().expect("environments");
    assert_eq!(snapshot.environments.len(), 1);
    assert_eq!(snapshot.environments[0].0, "remote");
    assert_eq!(local_environment_id(), "local");
}
