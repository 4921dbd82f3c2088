//! The repository fetcher's decisions.
//!
//! The fetch itself — cloning or updating the working copy over the network
//! with a credential — is outside work that the caller performs; what is
//! verified here is every decision around it: which action the observed
//! state of the working copy calls for, what each action's failure means
//! for the run, the fixed credential shape and branch, and the validation
//! of the configuration the pipeline starts from.

use vstd::prelude::*;

verus! {

/// What the caller observed at the local working-copy path.
#[derive(Clone, Copy, Debug, PartialEq, Eq, Structural)]
pub enum RepoState {
    /// Nothing exists at the path.
    Missing,
    /// The path opens as a valid repository.
    ValidRepo,
    /// The path exists but does not open as a repository.
    InvalidRepo,
}

/// The action the fetcher takes on the working copy.
#[derive(Clone, Copy, Debug, PartialEq, Eq, Structural)]
pub enum RepoAction {
    /// Clone the remote into the (absent) path.
    CloneFresh,
    /// Fetch the latest state of the fixed branch from `origin`.
    FetchExisting,
    /// Delete the corrupt directory, then clone from scratch.
    RemoveAndClone,
}

/// A fetch failure that is fatal to the sync run.
#[derive(Clone, Copy, Debug, PartialEq, Eq, Structural)]
pub enum FetchError {
    /// A full clone failed: there is no working copy to fall back on.
    CloneFailed,
    /// The corrupt working copy could not be deleted.
    CleanupFailed,
}

/// How the run proceeds once the fetch phase is over.
#[derive(Clone, Copy, Debug, PartialEq, Eq, Structural)]
pub enum RunDisposition {
    /// The working copy is up to date; scan it.
    Proceed,
    /// The update failed but a working copy exists; scan the stale copy
    /// rather than failing the whole run.
    ProceedStale,
    /// No working copy could be produced; the run is over.
    Abort(FetchError),
}

/// Decides the fetch action from the observed state of the working copy: a
/// missing path is cloned, a valid repository is updated in place, and a
/// corrupt directory is deleted and cloned from scratch.
pub fn plan_repository_sync(state: RepoState) -> (action: RepoAction)
    ensures
        action == (match state {
            RepoState::Missing => RepoAction::CloneFresh,
            RepoState::ValidRepo => RepoAction::FetchExisting,
            RepoState::InvalidRepo => RepoAction::RemoveAndClone,
        }),
{
    match state {
        RepoState::Missing => RepoAction::CloneFresh,
        RepoState::ValidRepo => RepoAction::FetchExisting,
        RepoState::InvalidRepo => RepoAction::RemoveAndClone,
    }
}

/// Judges the outcome of the fetch phase. A failed clone is fatal — there
/// is no working copy to fall back on — and so is a cleanup that left the
/// corrupt directory in place. A failed fetch of an existing working copy
/// is not: the run proceeds with the stale content on disk. `removed` is
/// the outcome of the delete step and is consulted only for
/// `RemoveAndClone`; `transferred` is the outcome of the clone or fetch.
pub fn judge_repository_sync(action: RepoAction, removed: bool, transferred: bool) -> (r:
    RunDisposition)
    ensures
        r == (match action {
            RepoAction::CloneFresh => if transferred {
                RunDisposition::Proceed
            } else {
                RunDisposition::Abort(FetchError::CloneFailed)
            },
            RepoAction::FetchExisting => if transferred {
                RunDisposition::Proceed
            } else {
                RunDisposition::ProceedStale
            },
            RepoAction::RemoveAndClone => if !removed {
                RunDisposition::Abort(FetchError::CleanupFailed)
            } else if transferred {
                RunDisposition::Proceed
            } else {
                RunDisposition::Abort(FetchError::CloneFailed)
            },
        }),
{
    match action {
        RepoAction::CloneFresh => {
            if transferred {
                RunDisposition::Proceed
            } else {
                RunDisposition::Abort(FetchError::CloneFailed)
            }
        },
        RepoAction::FetchExisting => {
            if transferred {
                RunDisposition::Proceed
            } else {
                RunDisposition::ProceedStale
            }
        },
        RepoAction::RemoveAndClone => {
            if !removed {
                RunDisposition::Abort(FetchError::CleanupFailed)
            } else if transferred {
                RunDisposition::Proceed
            } else {
                RunDisposition::Abort(FetchError::CloneFailed)
            }
        },
    }
}

/// The username/password pair presented to the remote: the token is the
/// password half, the username a fixed conventional placeholder.
pub struct GitCredential {
    pub username: String,
    pub token: String,
}

impl GitCredential {
    /// Builds the credential pair for a bearer-style token.
    pub fn for_token(token: String) -> (r: GitCredential)
        ensures
            r.username@ == "oauth2"@,
            r.token == token,
    {
        GitCredential { username: "oauth2".to_owned(), token }
    }
}

/// The fixed branch the fetcher updates from `origin`.
pub fn sync_branch() -> (r: String)
    ensures
        r@ == "master"@,
{
    "master".to_owned()
}

/// The configuration the pipeline starts from: remote URL, local
/// working-copy path and authentication token, all required.
///
/// Deliberately not `Debug`: the token must never end up in a log line or
/// an error message.
pub struct SyncConfig {
    pub repo_url: String,
    pub base_path: String,
    pub token: String,
}

/// A required configuration value is absent; this is fatal at startup.
#[derive(Clone, Copy, Debug, PartialEq, Eq, Structural)]
pub enum ConfigError {
    MissingRepoUrl,
    MissingBasePath,
    MissingToken,
}

impl SyncConfig {
    /// Validates the configuration values: succeeds exactly when all three
    /// are present, and names the first absent one otherwise.
    pub fn from_values(
        repo_url: Option<String>,
        base_path: Option<String>,
        token: Option<String>,
    ) -> (r: Result<SyncConfig, ConfigError>)
        ensures
            match r {
                Ok(c) => repo_url == Some(c.repo_url) && base_path == Some(c.base_path) && token
                    == Some(c.token),
                Err(ConfigError::MissingRepoUrl) => repo_url is None,
                Err(ConfigError::MissingBasePath) => repo_url is Some && base_path is None,
                Err(ConfigError::MissingToken) => repo_url is Some && base_path is Some
                    && token is None,
            },
            r is Ok <==> repo_url is Some && base_path is Some && token is Some,
    {
        let repo_url = match repo_url {
            Some(u) => u,
            None => {
                return Err(ConfigError::MissingRepoUrl);
            },
        };
        let base_path = match base_path {
            Some(p) => p,
            None => {
                return Err(ConfigError::MissingBasePath);
            },
        };
        let token = match token {
            Some(t) => t,
            None => {
                return Err(ConfigError::MissingToken);
            },
        };
        Ok(SyncConfig { repo_url, base_path, token })
    }
}

} // verus!
