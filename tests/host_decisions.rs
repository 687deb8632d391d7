use inquira::config::{needs_python_bootstrap, resolve_uv_index_url, InquiraConfig, PythonConfig};
use inquira::paths::resolve_resource_path;
use inquira::terminal::{detect_default_shell, pty_cwd_candidate, resolve_pty_cwd};

fn base_config_with_index(index_url: Option<&str>) -> InquiraConfig {
    InquiraConfig {
        python: Some(PythonConfig {
            version: None,
            index_url: index_url.map(|s| s.to_string()),
            python_path: None,
        }),
        proxy: None,
        backend: None,
        execution: None,
    }
}

#[test]
fn bootstrap_required_when_venv_missing() {
    assert!(needs_python_bootstrap(false, None, "abc", false));
}

#[test]
fn bootstrap_required_when_fingerprint_mismatch() {
    assert!(needs_python_bootstrap(true, Some("old"), "new", false));
}

#[test]
fn bootstrap_not_required_when_fingerprint_matches() {
    assert!(!needs_python_bootstrap(true, Some("same"), "same", false));
}

#[test]
fn uv_index_url_defaults_to_pypi_when_not_configured() {
    let config = InquiraConfig {
        python: None,
        proxy: None,
        backend: None,
        execution: None,
    };
    assert_eq!(resolve_uv_index_url(None, &config), "https://pypi.org/simple");
}

#[test]
fn uv_index_url_uses_toml_when_env_missing() {
    let config = base_config_with_index(Some("https://company.example/simple"));
    assert_eq!(
        resolve_uv_index_url(None, &config),
        "https://company.example/simple"
    );
}

#[test]
fn uv_index_url_env_overrides_toml() {
    let config = base_config_with_index(Some("https://company.example/simple"));
    assert_eq!(
        resolve_uv_index_url(Some("https://override.example/simple"), &config),
        "https://override.example/simple"
    );
}

#[test]
fn resolve_resource_path_prefers_direct_resource() {
    let resolved = resolve_resource_path("inq_resource_path_direct", "backend", true);
    assert_eq!(resolved.base, "inq_resource_path_direct");
    assert_eq!(resolved.parts, vec!["backend".to_string()]);
}

#[test]
fn resolve_resource_path_falls_back_to_up_directory() {
    let resolved = resolve_resource_path("inq_resource_path_up", "backend", false);
    assert_eq!(resolved.base, "inq_resource_path_up");
    assert_eq!(resolved.parts, vec!["_up_".to_string(), "backend".to_string()]);
}

#[test]
fn detect_default_shell_is_non_empty_across_platforms() {
    for windows in [false, true] {
        for hint in [None, Some(""), Some("   "), Some("/bin/zsh")] {
            let (shell, _args) = detect_default_shell(hint, windows);
            assert!(!shell.trim().is_empty());
        }
    }
}

#[test]
fn resolve_pty_cwd_uses_existing_directory() {
    let dir = "/tmp".to_string();
    let candidate = pty_cwd_candidate(Some(dir.as_str()));
    let resolved = resolve_pty_cwd(candidate, true, Some("/home/user".to_string()));
    assert_eq!(resolved, dir);
}
