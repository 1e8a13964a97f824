//! The environments a session can run commands in, chosen from the raw value
//! of the exec-server URL setting and the configured local runtime paths.
use crate::text::{chars_of, concat, eq_ignore_ascii_case, eq_ignore_ascii_case_seq, string_from_range, trim_bounds, trim_seq};
use crate::models::clone_opt_string;
use vstd::prelude::*;

verus! {

/// The id of the local environment.
pub open spec fn local_environment_id_spec() -> Seq<char> {
    "local"@
}

/// The id of the remote environment.
pub open spec fn remote_environment_id_spec() -> Seq<char> {
    "remote"@
}

/// The id of the local environment.
pub fn local_environment_id() -> (r: String)
    ensures
        r@ == local_environment_id_spec(),
{
    "local".to_owned()
}

/// The id of the remote environment.
pub fn remote_environment_id() -> (r: String)
    ensures
        r@ == remote_environment_id_spec(),
{
    "remote".to_owned()
}

/// Where the executables a local environment needs are.
#[derive(Debug, PartialEq, Eq)]
pub struct ExecServerRuntimePaths {
    pub codex_self_exe: String,
    pub codex_linux_sandbox_exe: Option<String>,
}

impl Clone for ExecServerRuntimePaths {
    fn clone(&self) -> (r: Self)
        ensures
            r == *self,
    {
        ExecServerRuntimePaths {
            codex_self_exe: self.codex_self_exe.clone(),
            codex_linux_sandbox_exe: clone_opt_string(&self.codex_linux_sandbox_exe),
        }
    }
}

/// An environment that commands run in.
#[derive(Debug, PartialEq, Eq)]
pub enum Environment {
    Local { runtime_paths: ExecServerRuntimePaths },
    Remote { exec_server_url: String, local_runtime_paths: Option<ExecServerRuntimePaths> },
}

impl Environment {
    /// The local environment with the given runtime paths.
    pub fn local(runtime_paths: ExecServerRuntimePaths) -> (r: Self)
        ensures
            r == (Environment::Local { runtime_paths }),
    {
        Environment::Local { runtime_paths }
    }

    /// A remote environment served at `exec_server_url`.
    pub fn remote_inner(exec_server_url: String, local_runtime_paths: Option<ExecServerRuntimePaths>) -> (r: Self)
        ensures
            r == (Environment::Remote { exec_server_url, local_runtime_paths }),
    {
        Environment::Remote { exec_server_url, local_runtime_paths }
    }

    /// Whether this environment is remote.
    pub fn is_remote(&self) -> (r: bool)
        ensures
            r == (*self is Remote),
    {
        match self {
            Environment::Remote { .. } => true,
            Environment::Local { .. } => false,
        }
    }

    /// The URL of a remote environment's exec server.
    pub fn exec_server_url(&self) -> (r: Option<String>)
        ensures
            match r {
                Some(u) => *self is Remote && u@ == self->Remote_exec_server_url@,
                None => *self is Local,
            },
    {
        match self {
            Environment::Remote { exec_server_url, .. } => Some(exec_server_url.clone()),
            Environment::Local { .. } => None,
        }
    }
}

/// An error of the exec server.
#[derive(Debug, PartialEq, Eq)]
pub enum ExecServerError {
    Protocol(String),
}

/// The message of a protocol error.
pub open spec fn exec_server_error_message(e: ExecServerError) -> Seq<char> {
    match e {
        ExecServerError::Protocol(m) => "exec-server protocol error: "@ + m@,
    }
}

impl ExecServerError {
    /// The error's message, as it is displayed.
    pub fn to_message(&self) -> (r: String)
        ensures
            r@ == exec_server_error_message(*self),
    {
        match self {
            ExecServerError::Protocol(m) => concat("exec-server protocol error: ", m.as_str()),
        }
    }
}

/// The environment selected when a session does not name one.
#[derive(Debug, PartialEq, Eq)]
pub enum EnvironmentDefault {
    Disabled,
    EnvironmentId(String),
}

/// The environments a provider offers at startup, in configured order, the
/// reserved local environment, and the default selection.
#[derive(Debug)]
pub struct EnvironmentProviderSnapshot {
    pub environments: Vec<(String, Environment)>,
    pub local_environment: Option<Environment>,
    pub default: EnvironmentDefault,
}

/// Lists the environments available to a session.
pub trait EnvironmentProvider {
    /// The provider's startup snapshot.
    fn snapshot(&self) -> Result<EnvironmentProviderSnapshot, ExecServerError>;
}

/// The provider driven by the raw exec-server URL setting.
#[derive(Debug)]
pub struct DefaultEnvironmentProvider {
    pub exec_server_url: Option<String>,
    pub local_runtime_paths: Option<ExecServerRuntimePaths>,
}

/// The setting's value with surrounding white space removed, and whether it
/// disables environments: a missing or blank value selects nothing and
/// disables nothing, `none` in any ASCII case disables, and anything else
/// is the URL.
pub open spec fn normalize_spec(exec_server_url: Option<String>) -> (Option<Seq<char>>, bool) {
    match exec_server_url {
        None => (None, false),
        Some(u) => {
            let t = trim_seq(u@);
            if t.len() == 0 {
                (None, false)
            } else if eq_ignore_ascii_case_seq(t, "none"@) {
                (None, true)
            } else {
                (Some(t), false)
            }
        },
    }
}

/// Normalizes the raw exec-server URL setting.
pub fn normalize_exec_server_url(exec_server_url: Option<String>) -> (r: (Option<String>, bool))
    ensures
        (match r.0 {
            Some(s) => Some(s@),
            None => None,
        }, r.1) == normalize_spec(exec_server_url),
{
    match &exec_server_url {
        None => (None, false),
        Some(u) => {
            let v = chars_of(u.as_str());
            let (lo, hi) = trim_bounds(&v, 0, v.len());
            assert(v@.subrange(0, v@.len() as int) == v@);
            if lo == hi {
                return (None, false);
            }
            let t = string_from_range(&v, lo, hi);
            let tv = chars_of(t.as_str());
            let none = chars_of("none");
            if eq_ignore_ascii_case(&tv, &none) {
                (None, true)
            } else {
                (Some(t), false)
            }
        },
    }
}

/// The snapshot a default provider gives: the remote environment when a URL
/// is set, the local environment (which needs runtime paths) when neither a
/// URL is set nor environments are disabled, and the default that follows.
pub open spec fn snapshot_ok_spec(p: DefaultEnvironmentProvider, s: EnvironmentProviderSnapshot) -> bool {
    let (url, disabled) = normalize_spec(p.exec_server_url);
    &&& match url {
        Some(u) => {
            &&& s.environments@.len() == 1
            &&& s.environments@[0].0@ == remote_environment_id_spec()
            &&& s.environments@[0].1 is Remote
            &&& s.environments@[0].1->Remote_exec_server_url@ == u
            &&& s.environments@[0].1->Remote_local_runtime_paths is None
        },
        None => s.environments@.len() == 0,
    }
    &&& s.local_environment == if disabled || url is Some {
        None
    } else {
        Some(Environment::Local { runtime_paths: p.local_runtime_paths->0 })
    }
    &&& if disabled {
        s.default == EnvironmentDefault::Disabled
    } else {
        &&& s.default is EnvironmentId
        &&& s.default->EnvironmentId_0@ == if url is Some {
            remote_environment_id_spec()
        } else {
            local_environment_id_spec()
        }
    }
}

/// When the default provider fails: it would offer the local environment but
/// has no runtime paths for it.
pub open spec fn snapshot_fails_spec(p: DefaultEnvironmentProvider) -> bool {
    let (url, disabled) = normalize_spec(p.exec_server_url);
    url is None && !disabled && p.local_runtime_paths is None
}

/// The message of the error for a missing local runtime path.
pub open spec fn missing_paths_message() -> Seq<char> {
    "local environment requires configured runtime paths"@
}

/// Whether any entry has the remote environment's id.
fn any_remote(environments: &Vec<(String, Environment)>) -> (r: bool)
    ensures
        r == exists|i: int| 0 <= i < environments@.len() && (#[trigger] environments@[i]).0@ == remote_environment_id_spec(),
{
    let remote = remote_environment_id();
    let mut i: usize = 0;
    while i < environments.len()
        invariant
            i <= environments@.len(),
            remote@ == remote_environment_id_spec(),
            forall|j: int| 0 <= j < i ==> (#[trigger] environments@[j]).0@ != remote_environment_id_spec(),
        decreases environments@.len() - i,
    {
        if environments[i].0 == remote {
            return true;
        }
        i = i + 1;
    }
    false
}

impl DefaultEnvironmentProvider {
    /// A provider from an already-read raw exec-server URL setting.
    pub fn new(exec_server_url: Option<String>, local_runtime_paths: Option<ExecServerRuntimePaths>) -> (r: Self)
        ensures
            r.exec_server_url == exec_server_url,
            r.local_runtime_paths == local_runtime_paths,
    {
        DefaultEnvironmentProvider { exec_server_url, local_runtime_paths }
    }

    /// The provider's startup snapshot.
    pub fn snapshot_inner(&self) -> (r: Result<EnvironmentProviderSnapshot, ExecServerError>)
        ensures
            match r {
                Ok(s) => !snapshot_fails_spec(*self) && snapshot_ok_spec(*self, s),
                Err(e) => snapshot_fails_spec(*self) && e is Protocol && e->Protocol_0@ == missing_paths_message(),
            },
    {
        let mut environments: Vec<(String, Environment)> = Vec::new();
        let (exec_server_url, disabled) = normalize_exec_server_url(clone_opt_string(&self.exec_server_url));
        match exec_server_url {
            Some(url) => {
                environments.push((remote_environment_id(), Environment::remote_inner(url, None)));
            },
            None => {},
        }
        let has_remote = any_remote(&environments);
        assert(has_remote == (environments@.len() > 0)) by {
            if environments@.len() > 0 {
                assert(environments@[0].0@ == remote_environment_id_spec());
            }
        }
        let local_environment = if disabled || has_remote {
            None
        } else {
            match &self.local_runtime_paths {
                Some(paths) => Some(Environment::local(paths.clone())),
                None => {
                    return Err(
                        ExecServerError::Protocol(
                            "local environment requires configured runtime paths".to_owned(),
                        ),
                    );
                },
            }
        };
        let default = if disabled {
            EnvironmentDefault::Disabled
        } else if has_remote {
            EnvironmentDefault::EnvironmentId(remote_environment_id())
        } else {
            EnvironmentDefault::EnvironmentId(local_environment_id())
        };
        Ok(EnvironmentProviderSnapshot { environments, local_environment, default })
    }
}

impl EnvironmentProvider for DefaultEnvironmentProvider {
    fn snapshot(&self) -> (r: Result<EnvironmentProviderSnapshot, ExecServerError>)
        ensures
            match r {
                Ok(s) => !snapshot_fails_spec(*self) && snapshot_ok_spec(*self, s),
                Err(e) => snapshot_fails_spec(*self) && e is Protocol && e->Protocol_0@ == missing_paths_message(),
            },
    {
        self.snapshot_inner()
    }
}

/// In every snapshot of the default provider, the default follows the
/// environments: it is disabled exactly when no environment is offered, it is
/// the remote id exactly when the remote environment is listed, and it is the
/// local id exactly when the local environment is offered.
pub proof fn lemma_default_follows_environments(p: DefaultEnvironmentProvider, s: EnvironmentProviderSnapshot)
    requires
        snapshot_ok_spec(p, s),
    ensures
        (s.default is Disabled) <==> (s.environments@.len() == 0 && s.local_environment is None),
        (s.default is EnvironmentId && s.default->EnvironmentId_0@ == remote_environment_id_spec()) <==> s.environments@.len() > 0,
        (s.default is EnvironmentId && s.default->EnvironmentId_0@ == local_environment_id_spec()) <==> s.local_environment is Some,
{
    assert(remote_environment_id_spec() != local_environment_id_spec()) by {
        reveal_strlit("remote");
        reveal_strlit("local");
        assert(remote_environment_id_spec()[0] != local_environment_id_spec()[0]);
    }
}

} // verus!
