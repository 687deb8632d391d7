use inquira::backend::{
    choose_uv, cwd_from_listing, is_backend_process, listening_pids, uv_from_locator, UvChoice,
};
use inquira::config::SetupError;
use inquira::lines::lines_of;
use inquira::text::hex_text;

#[test]
fn lines_follow_std_line_splitting() {
    for text in ["", "a", "a\n", "a\r\nb", "a\n\nb\n", "\n", "x\r\n\r\ny\r", "é\nü\r\n"] {
        let expected: Vec<String> = text.lines().map(|l| l.to_string()).collect();
        assert_eq!(lines_of(text), expected, "splitting {:?}", text);
    }
}

#[test]
fn pids_are_trimmed_non_blank_lines() {
    assert_eq!(
        listening_pids(" 101\n\n  202 \r\n\t\n303"),
        vec!["101".to_string(), "202".to_string(), "303".to_string()]
    );
    assert!(listening_pids("").is_empty());
    assert!(listening_pids(" \n \n").is_empty());
}

#[test]
fn cwd_comes_from_the_first_name_field() {
    assert_eq!(cwd_from_listing("p4242\nfcwd\nn/srv/app/backend\nn/other\n"), "/srv/app/backend");
    assert_eq!(cwd_from_listing("p977\nfcwd\n"), "");
    assert_eq!(cwd_from_listing("n\n"), "");
    assert_eq!(cwd_from_listing(""), "");
}

#[test]
fn backend_processes_are_recognised() {
    assert!(is_backend_process("python -m app.main", "/", ""));
    assert!(is_backend_process("python backend/main.py", "/", ""));
    assert!(is_backend_process("/opt/inquira/bin/python", "/", ""));
    assert!(is_backend_process("python serve.py --root /srv/be", "/", "/srv/be"));
    assert!(is_backend_process("python serve.py", "/srv/be/sub", "/srv/be"));
    assert!(!is_backend_process("python serve.py", "/srv/be/sub", ""));
    assert!(!is_backend_process("nginx: master process", "/var/www", "/srv/be"));
    assert!(!is_backend_process("postgres", "/srv", "/srv/be"));
}

#[test]
fn located_installer_is_trimmed() {
    assert_eq!(uv_from_locator(true, "/usr/local/bin/uv\n"), Some("/usr/local/bin/uv".to_string()));
    assert_eq!(uv_from_locator(true, "  \n"), None);
    assert_eq!(uv_from_locator(false, "/usr/local/bin/uv\n"), None);
}

#[test]
fn hexadecimal_notation() {
    assert_eq!(hex_text(0), "0");
    assert_eq!(hex_text(255), "ff");
    assert_eq!(hex_text(0xdead_beef), "deadbeef");
    assert_eq!(hex_text(u64::MAX), "ffffffffffffffff");
    assert_eq!(hex_text(0x1234_5678_9abc_def0), format!("{:x}", 0x1234_5678_9abc_def0u64));
}

#[test]
fn setup_error_messages() {
    assert_eq!(SetupError::PythonInstall("e".to_string()).message(), "uv python install failed: e");
    assert_eq!(
        SetupError::PythonInstallStatus.message(),
        "uv python install returned non-zero exit code"
    );
    assert_eq!(SetupError::Sync("e".to_string()).message(), "uv sync failed: e");
    assert_eq!(SetupError::SyncStatus.message(), "uv sync returned non-zero exit code");
    assert_eq!(
        SetupError::PythonMissing("/v/bin/python".to_string()).message(),
        "Python executable not found in venv: /v/bin/python"
    );
    assert_eq!(SetupError::BackendSpawn("e".to_string()).message(), "Failed to start backend: e");
}

#[test]
fn installer_is_chosen_bundled_first() {
    let found = || Some("/usr/local/bin/uv".to_string());
    assert_eq!(choose_uv(true, true, found()), UvChoice::BundledUnix);
    assert_eq!(choose_uv(true, false, None), UvChoice::BundledUnix);
    assert_eq!(choose_uv(false, true, found()), UvChoice::BundledWindows);
    assert_eq!(
        choose_uv(false, false, found()),
        UvChoice::Located("/usr/local/bin/uv".to_string())
    );
    assert_eq!(choose_uv(false, false, None), UvChoice::OnPath);
    assert_eq!(
        choose_uv(false, false, uv_from_locator(false, "/opt/uv\n")),
        UvChoice::OnPath
    );
}
