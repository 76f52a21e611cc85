//! The decision layer behind the command-line surface: the options each
//! command reads, the device-flow login state machine, the self-upgrade
//! decision, and the patch-commit bookkeeping. The driver owns every
//! prompt, socket and file.

use vstd::prelude::*;
use crate::names::PackageNames;
use crate::version::{Version, VersionId, version_lt};

verus! {

/// Options of the login command.
#[derive(Clone, Debug)]
pub struct LoginCommand {
    /// The index to authenticate against, when not the default one.
    pub index: Option<String>,
    /// A token to store directly, skipping the device flow.
    pub token: Option<String>,
}

/// Options of the manifest-initialization command.
#[derive(Clone, Copy, Debug)]
pub struct InitCommand {}

/// Options of the install command.
#[derive(Clone, Copy, Debug)]
pub struct InstallCommand {
    /// Whether any lockfile change aborts the run.
    pub locked: bool,
    /// Whether development dependencies are kept off the disk.
    pub prod: bool,
}

/// Options of the patch-commit command.
#[derive(Clone, Debug)]
pub struct PatchCommitCommand {
    /// The directory holding the patch to commit.
    pub directory: String,
}

/// Options of the self-upgrade command.
#[derive(Clone, Copy, Debug)]
pub struct SelfUpgradeCommand {
    /// Whether to use the version from the last update check instead of
    /// asking the registry.
    pub use_cached: bool,
}

// ---------------------------------------------------------------------------
// Device-flow login
// ---------------------------------------------------------------------------

/// An error answer of the token endpoint.
#[derive(Clone, Copy, PartialEq, Eq, Structural, Debug)]
pub enum AccessTokenError {
    /// The user has not finished authorizing yet.
    AuthorizationPending,
    /// Poll less often; carries the new interval in seconds.
    SlowDown(u64),
    /// The device code expired.
    ExpiredToken,
    /// The user refused.
    AccessDenied,
}

/// An answer of the token endpoint.
#[derive(Clone, Debug)]
pub enum AccessTokenResponse {
    /// Authorization finished; carries the access token.
    Success(String),
    /// Not finished; carries the reason.
    Error(AccessTokenError),
}

/// The polling state of a device-flow login: seconds left until the code
/// expires and the current polling interval.
#[derive(Clone, Copy, PartialEq, Eq, Structural, Debug)]
pub struct DeviceFlowState {
    /// Seconds left.
    pub time_left: u64,
    /// Seconds between polls.
    pub interval: u64,
}

/// What the driver does next in a device-flow login.
#[derive(Clone, Debug)]
pub enum DeviceFlowOutcome {
    /// Logged in; carries the access token.
    Done(String),
    /// Sleep the state's interval and poll again.
    Poll(DeviceFlowState),
    /// The code expired; the login must be rerun.
    Expired,
    /// The user refused; the login must be rerun.
    Denied,
}

/// One clock tick of the flow: sleeping one interval consumes that much of
/// the remaining time (saturating at zero).
pub fn device_flow_tick(state: DeviceFlowState) -> (r: DeviceFlowState)
    ensures
        r.interval == state.interval,
        r.time_left == if state.time_left >= state.interval {
            state.time_left - state.interval
        } else {
            0
        },
{
    let time_left = if state.time_left >= state.interval {
        state.time_left - state.interval
    } else {
        0
    };
    DeviceFlowState { time_left, interval: state.interval }
}

/// Decides the next step of a device-flow login from the endpoint's
/// answer: success ends the flow with the token; denial and expiry end it
/// without one; pending polls again, a slow-down with the longer interval;
/// and a pending answer after the time ran out counts as expiry.
pub fn device_flow_step(state: DeviceFlowState, response: AccessTokenResponse)
    -> (r: DeviceFlowOutcome)
    ensures
        match response {
            AccessTokenResponse::Success(t) => r matches DeviceFlowOutcome::Done(t2) && t2@ == t@,
            AccessTokenResponse::Error(e) => match e {
                AccessTokenError::AccessDenied => r is Denied,
                AccessTokenError::ExpiredToken => r is Expired,
                AccessTokenError::AuthorizationPending => if state.time_left == 0 {
                    r is Expired
                } else {
                    r == DeviceFlowOutcome::Poll(state)
                },
                AccessTokenError::SlowDown(n) => if state.time_left == 0 {
                    r is Expired
                } else {
                    r == DeviceFlowOutcome::Poll(DeviceFlowState {
                        time_left: state.time_left,
                        interval: n,
                    })
                },
            },
        },
{
    match response {
        AccessTokenResponse::Success(t) => DeviceFlowOutcome::Done(t),
        AccessTokenResponse::Error(e) => match e {
            AccessTokenError::AccessDenied => DeviceFlowOutcome::Denied,
            AccessTokenError::ExpiredToken => DeviceFlowOutcome::Expired,
            AccessTokenError::AuthorizationPending => {
                if state.time_left == 0 {
                    DeviceFlowOutcome::Expired
                } else {
                    DeviceFlowOutcome::Poll(state)
                }
            },
            AccessTokenError::SlowDown(n) => {
                if state.time_left == 0 {
                    DeviceFlowOutcome::Expired
                } else {
                    DeviceFlowOutcome::Poll(DeviceFlowState {
                        time_left: state.time_left,
                        interval: n,
                    })
                }
            },
        },
    }
}

// ---------------------------------------------------------------------------
// Self-upgrade
// ---------------------------------------------------------------------------

impl SelfUpgradeCommand {
    /// Whether an upgrade is due: exactly when the remote version is
    /// strictly newer than the running one.
    pub fn needs_upgrade(&self, current: &Version, latest: &Version) -> (r: bool)
        ensures
            r == version_lt(*current, *latest),
    {
        current.lt(latest)
    }
}

// ---------------------------------------------------------------------------
// Patch commit
// ---------------------------------------------------------------------------

impl PatchCommitCommand {
    /// The file name a committed patch is stored under:
    /// `<scope+name>-<version+target>.patch`.
    pub fn patch_file_name(name: &PackageNames, version_id: &VersionId) -> (r: String)
        ensures
            r@ == name.spec_escaped() + seq!['-'] + version_id.spec_escaped() + ".patch"@,
    {
        let mut out = name.escaped();
        out.append("-");
        let v = version_id.escaped();
        out.append(v.as_str());
        out.append(".patch");
        proof {
            reveal_strlit("-");
            assert(out@ =~= name.spec_escaped() + seq!['-'] + version_id.spec_escaped()
                + ".patch"@);
        }
        out
    }

    /// The manifest value a committed patch is recorded under:
    /// `patches/<file>`.
    pub fn patch_entry_value(file: &str) -> (r: String)
        ensures
            r@ == "patches/"@ + file@,
    {
        let mut out = String::from_str("patches/");
        out.append(file);
        out
    }
}

} // verus!
