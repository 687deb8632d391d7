//! The application's configuration, and the settings of the backend service
//! derived from it.
//!
//! Every setting is optional; each has a default that applies when it is
//! absent.

use vstd::prelude::*;
use crate::text::{decimal, decimal_text, is_blank, is_blank_text, opt_view, trim_ws, trimmed};

verus! {

/// The `[python]` table.
pub struct PythonConfig {
    pub version: Option<String>,
    pub index_url: Option<String>,
    pub python_path: Option<String>,
}

/// The `[proxy]` table.
pub struct ProxyConfig {
    pub http_proxy: Option<String>,
    pub https_proxy: Option<String>,
}

/// The `[backend]` table.
pub struct BackendConfig {
    pub port: Option<u16>,
    pub host: Option<String>,
}

/// The `[execution]` table.
pub struct ExecutionConfig {
    pub provider: Option<String>,
}

/// The whole configuration.
pub struct InquiraConfig {
    pub python: Option<PythonConfig>,
    pub proxy: Option<ProxyConfig>,
    pub backend: Option<BackendConfig>,
    pub execution: Option<ExecutionConfig>,
}

/// What can go wrong while preparing or starting the backend service.
#[derive(Clone, Debug, PartialEq, Eq)]
pub enum SetupError {
    /// The Python installer could not be run.
    PythonInstall(String),
    /// The Python installer ran and failed.
    PythonInstallStatus,
    /// The environment synchroniser could not be run.
    Sync(String),
    /// The environment synchroniser ran and failed.
    SyncStatus,
    /// The environment holds no interpreter at the given place.
    PythonMissing(String),
    /// The backend could not be started.
    BackendSpawn(String),
}

/// The text reported for a setup error.
pub open spec fn setup_error_text(e: SetupError) -> Seq<char> {
    match e {
        SetupError::PythonInstall(d) => "uv python install failed: "@ + d@,
        SetupError::PythonInstallStatus => "uv python install returned non-zero exit code"@,
        SetupError::Sync(d) => "uv sync failed: "@ + d@,
        SetupError::SyncStatus => "uv sync returned non-zero exit code"@,
        SetupError::PythonMissing(p) => "Python executable not found in venv: "@ + p@,
        SetupError::BackendSpawn(d) => "Failed to start backend: "@ + d@,
    }
}

impl SetupError {
    /// The text reported for this error.
    pub fn message(&self) -> (r: String)
        ensures
            r@ == setup_error_text(*self),
    {
        match self {
            SetupError::PythonInstall(d) => String::from_str("uv python install failed: ").concat(
                d.as_str(),
            ),
            SetupError::PythonInstallStatus => String::from_str(
                "uv python install returned non-zero exit code",
            ),
            SetupError::Sync(d) => String::from_str("uv sync failed: ").concat(d.as_str()),
            SetupError::SyncStatus => String::from_str("uv sync returned non-zero exit code"),
            SetupError::PythonMissing(p) => String::from_str(
                "Python executable not found in venv: ",
            ).concat(p.as_str()),
            SetupError::BackendSpawn(d) => String::from_str("Failed to start backend: ").concat(
                d.as_str(),
            ),
        }
    }
}

/// An environment variable setting: name and value.
pub type EnvVar = (String, String);

/// The views of a list of environment settings.
pub open spec fn env_views(v: Seq<EnvVar>) -> Seq<(Seq<char>, Seq<char>)> {
    v.map_values(|p: EnvVar| (p.0@, p.1@))
}

/// The text of an optional setting, or `default` when it is absent.
pub open spec fn text_or(o: Option<String>, default: Seq<char>) -> Seq<char> {
    match o {
        Some(s) => s@,
        None => default,
    }
}

/// The port the backend listens on.
pub open spec fn configured_port(c: InquiraConfig) -> u16 {
    match c.backend {
        Some(b) => match b.port {
            Some(p) => p,
            None => 8000,
        },
        None => 8000,
    }
}

/// The host the backend listens on.
pub open spec fn configured_host(c: InquiraConfig) -> Seq<char> {
    match c.backend {
        Some(b) => text_or(b.host, "localhost"@),
        None => "localhost"@,
    }
}

/// The Python version the backend runs on.
pub open spec fn configured_python_version(c: InquiraConfig) -> Seq<char> {
    match c.python {
        Some(p) => text_or(p.version, "3.12"@),
        None => "3.12"@,
    }
}

/// Whether an interpreter of the user's own is configured.
pub open spec fn has_custom_python(c: InquiraConfig) -> bool {
    match c.python {
        Some(p) => p.python_path is Some,
        None => false,
    }
}

/// The provider the backend executes code with.
pub open spec fn configured_provider(c: InquiraConfig) -> Seq<char> {
    match c.execution {
        Some(e) => text_or(e.provider, "local_jupyter"@),
        None => "local_jupyter"@,
    }
}

/// The package index named by the configuration, if any.
pub open spec fn configured_index(c: InquiraConfig) -> Option<String> {
    match c.python {
        Some(p) => p.index_url,
        None => None,
    }
}

/// The package index to install from: the environment's override when it is
/// set and not blank, else the configured index when that is not blank, else
/// the public index; trimmed in each case.
pub open spec fn chosen_index_url(env_value: Option<Seq<char>>, c: InquiraConfig) -> Seq<char> {
    if env_value is Some && !is_blank(env_value->0) {
        trim_ws(env_value->0)
    } else if configured_index(c) is Some && !is_blank(configured_index(c)->0@) {
        trim_ws(configured_index(c)->0@)
    } else {
        "https://pypi.org/simple"@
    }
}

/// The proxy settings handed to child processes, HTTP first.
pub open spec fn proxy_vars(c: InquiraConfig) -> Seq<(Seq<char>, Seq<char>)> {
    match c.proxy {
        Some(p) => {
            let http = match p.http_proxy {
                Some(h) => seq![("HTTP_PROXY"@, h@)],
                None => Seq::empty(),
            };
            let https = match p.https_proxy {
                Some(h) => seq![("HTTPS_PROXY"@, h@)],
                None => Seq::empty(),
            };
            http + https
        },
        None => Seq::empty(),
    }
}

fn text_or_default(o: &Option<String>, default: &str) -> (r: String)
    ensures
        r@ == text_or(*o, default@),
{
    match o {
        Some(s) => s.clone(),
        None => String::from_str(default),
    }
}

fn env_var(name: &str, value: &str) -> (r: EnvVar)
    ensures
        r.0@ == name@,
        r.1@ == value@,
{
    (String::from_str(name), String::from_str(value))
}

impl InquiraConfig {
    /// The configuration in which nothing is set.
    pub fn empty() -> (r: Self)
        ensures
            r.python is None,
            r.proxy is None,
            r.backend is None,
            r.execution is None,
    {
        InquiraConfig { python: None, proxy: None, backend: None, execution: None }
    }
}

/// The port the backend listens on (8000 unless configured).
pub fn backend_port(config: &InquiraConfig) -> (r: u16)
    ensures
        r == configured_port(*config),
{
    match &config.backend {
        Some(b) => match b.port {
            Some(p) => p,
            None => 8000,
        },
        None => 8000,
    }
}

/// The host the backend listens on (`localhost` unless configured).
pub fn backend_host(config: &InquiraConfig) -> (r: String)
    ensures
        r@ == configured_host(*config),
{
    match &config.backend {
        Some(b) => text_or_default(&b.host, "localhost"),
        None => String::from_str("localhost"),
    }
}

/// The address of the backend: `http://<host>:<port>`.
pub fn get_backend_url(config: &InquiraConfig) -> (r: String)
    ensures
        r@ == "http://"@ + configured_host(*config) + ":"@ + decimal(configured_port(*config) as nat),
{
    let host = backend_host(config);
    let port = decimal_text(backend_port(config));
    String::from_str("http://").concat(host.as_str()).concat(":").concat(port.as_str())
}

/// The Python version to install (3.12 unless configured).
pub fn python_version(config: &InquiraConfig) -> (r: String)
    ensures
        r@ == configured_python_version(*config),
{
    match &config.python {
        Some(p) => text_or_default(&p.version, "3.12"),
        None => String::from_str("3.12"),
    }
}

/// The Python version to install before the environment is synchronised; none
/// when the user's own interpreter is configured.
pub fn python_to_install(config: &InquiraConfig) -> (r: Option<String>)
    ensures
        has_custom_python(*config) <==> r is None,
        r is Some ==> r->0@ == configured_python_version(*config),
{
    let custom = match &config.python {
        Some(p) => p.python_path.is_some(),
        None => false,
    };
    if custom {
        None
    } else {
        Some(python_version(config))
    }
}

/// The provider the backend executes code with (`local_jupyter` unless
/// configured).
pub fn execution_provider(config: &InquiraConfig) -> (r: String)
    ensures
        r@ == configured_provider(*config),
{
    match &config.execution {
        Some(e) => text_or_default(&e.provider, "local_jupyter"),
        None => String::from_str("local_jupyter"),
    }
}

/// The package index to install from, given the value of the environment's
/// override, if it is set.
pub fn resolve_uv_index_url(env_value: Option<&str>, config: &InquiraConfig) -> (r: String)
    ensures
        r@ == chosen_index_url(opt_view(env_value), *config),
{
    match env_value {
        Some(v) => {
            if !is_blank_text(v) {
                return trimmed(v);
            }
        },
        None => {},
    }
    match &config.python {
        Some(p) => match &p.index_url {
            Some(u) => {
                if !is_blank_text(u.as_str()) {
                    return trimmed(u.as_str());
                }
            },
            None => {},
        },
        None => {},
    }
    String::from_str("https://pypi.org/simple")
}

/// The proxy settings handed to child processes.
pub fn proxy_env(config: &InquiraConfig) -> (r: Vec<EnvVar>)
    ensures
        env_views(r@) == proxy_vars(*config),
{
    let mut r: Vec<EnvVar> = Vec::new();
    match &config.proxy {
        Some(p) => {
            match &p.http_proxy {
                Some(h) => r.push(env_var("HTTP_PROXY", h.as_str())),
                None => {},
            }
            match &p.https_proxy {
                Some(h) => r.push(env_var("HTTPS_PROXY", h.as_str())),
                None => {},
            }
        },
        None => {},
    }
    assert(env_views(r@) =~= proxy_vars(*config));
    r
}

/// The settings handed to the package installer: the proxy settings, then the
/// package index.
pub fn uv_package_env(env_value: Option<&str>, config: &InquiraConfig) -> (r: Vec<EnvVar>)
    ensures
        env_views(r@) == proxy_vars(*config).push(
            ("UV_INDEX_URL"@, chosen_index_url(opt_view(env_value), *config)),
        ),
{
    let mut r = proxy_env(config);
    let url = resolve_uv_index_url(env_value, config);
    let ghost before = r@;
    r.push(env_var("UV_INDEX_URL", url.as_str()));
    assert(env_views(r@) =~= env_views(before).push(("UV_INDEX_URL"@, url@)));
    r
}

/// The settings handed to the backend service: its environment, port, mode,
/// configuration file and provider, then the proxy settings.
pub fn backend_env(config: &InquiraConfig, venv: &str, config_path: &str) -> (r: Vec<EnvVar>)
    ensures
        env_views(r@) == seq![
            ("VIRTUAL_ENV"@, venv@),
            ("INQUIRA_PORT"@, decimal(configured_port(*config) as nat)),
            ("INQUIRA_DESKTOP"@, "1"@),
            ("INQUIRA_TOML_PATH"@, config_path@),
            ("INQUIRA_EXECUTION_PROVIDER"@, configured_provider(*config)),
        ] + proxy_vars(*config),
{
    let port = decimal_text(backend_port(config));
    let provider = execution_provider(config);
    let mut r: Vec<EnvVar> = Vec::new();
    r.push(env_var("VIRTUAL_ENV", venv));
    r.push(env_var("INQUIRA_PORT", port.as_str()));
    r.push(env_var("INQUIRA_DESKTOP", "1"));
    r.push(env_var("INQUIRA_TOML_PATH", config_path));
    r.push(env_var("INQUIRA_EXECUTION_PROVIDER", provider.as_str()));
    let ghost head = r@;
    let mut proxies = proxy_env(config);
    let ghost tail = proxies@;
    r.append(&mut proxies);
    assert(env_views(r@) =~= env_views(head) + env_views(tail));
    assert(env_views(head) =~= seq![
        ("VIRTUAL_ENV"@, venv@),
        ("INQUIRA_PORT"@, decimal(configured_port(*config) as nat)),
        ("INQUIRA_DESKTOP"@, "1"@),
        ("INQUIRA_TOML_PATH"@, config_path@),
        ("INQUIRA_EXECUTION_PROVIDER"@, configured_provider(*config)),
    ]);
    r
}

/// Whether the backend's Python environment must be (re)built: always when
/// asked to, when the environment is missing, when no fingerprint of the last
/// build can be read, or when the one read differs (surrounding white space
/// aside) from the expected one.
pub fn needs_python_bootstrap(
    venv_exists: bool,
    recorded_fingerprint: Option<&str>,
    expected_fingerprint: &str,
    always_sync: bool,
) -> (r: bool)
    ensures
        r == (always_sync || !venv_exists || match recorded_fingerprint {
            Some(f) => trim_ws(f@) != expected_fingerprint@,
            None => true,
        }),
{
    if always_sync || !venv_exists {
        return true;
    }
    match recorded_fingerprint {
        Some(f) => {
            let recorded = trimmed(f);
            let expected = String::from_str(expected_fingerprint);
            !(recorded == expected)
        },
        None => true,
    }
}

} // verus!
