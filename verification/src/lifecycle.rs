//! Turning the router on and off for new Codex processes.
//!
//! Each operation is a fixed sequence of steps that the caller carries out
//! under the lifecycle lock, stopping at the first step that fails. The
//! order is the point: the router is installed and running before Codex is
//! pointed at it, and Codex is pointed away before the router is removed.

use vstd::prelude::*;

verus! {

/// One step of a lifecycle operation.
#[derive(Clone, Copy, Debug, PartialEq, Eq, Structural)]
pub enum LifecycleStep {
    /// Install and start the router's user service from the router executable.
    InstallService,
    /// Record whether the router is enabled.
    SetEnabled(bool),
    /// Point Codex's configuration at the router.
    ConfigureCodex,
    /// Restore Codex's own configuration.
    RestoreCodex,
    /// Remove the router's user service.
    UninstallService,
}

/// Why a lifecycle operation cannot start.
#[derive(Clone, Copy, Debug, PartialEq, Eq, Structural)]
pub enum LifecycleError {
    /// The router executable is not a file.
    ExecutableMissing,
}

/// Install and start the router before directing new Codex processes to it.
/// `executable_is_file` says whether the router executable was found.
pub fn enable(executable_is_file: bool) -> (steps: Result<Vec<LifecycleStep>, LifecycleError>)
    ensures
        !executable_is_file ==> steps == Err::<Vec<LifecycleStep>, LifecycleError>(LifecycleError::ExecutableMissing),
        executable_is_file ==> (steps matches Ok(list) && list@ == seq![
            LifecycleStep::InstallService,
            LifecycleStep::SetEnabled(true),
            LifecycleStep::ConfigureCodex,
        ]),
{
    if !executable_is_file {
        return Err(LifecycleError::ExecutableMissing);
    }
    let mut steps: Vec<LifecycleStep> = Vec::new();
    steps.push(LifecycleStep::InstallService);
    steps.push(LifecycleStep::SetEnabled(true));
    steps.push(LifecycleStep::ConfigureCodex);
    Ok(steps)
}

/// Restore Codex configuration and remove the background user service.
pub fn disable() -> (steps: Vec<LifecycleStep>)
    ensures
        steps@ == seq![LifecycleStep::RestoreCodex, LifecycleStep::SetEnabled(false), LifecycleStep::UninstallService],
{
    let mut steps: Vec<LifecycleStep> = Vec::new();
    steps.push(LifecycleStep::RestoreCodex);
    steps.push(LifecycleStep::SetEnabled(false));
    steps.push(LifecycleStep::UninstallService);
    steps
}

/// Reinstall and activate the service topology for this router artifact,
/// when the router is enabled.
pub fn install_router_service(enabled: bool) -> (steps: Vec<LifecycleStep>)
    ensures
        enabled ==> steps@ == seq![LifecycleStep::InstallService],
        !enabled ==> steps@.len() == 0,
{
    let mut steps: Vec<LifecycleStep> = Vec::new();
    if enabled {
        steps.push(LifecycleStep::InstallService);
    }
    steps
}

/// Reinstall only if this process still owns the published installer link:
/// `owns_link` says whether the link resolves to this process's executable.
/// A superseded installer leaves the newer build alone.
pub fn install_router_service_for(owns_link: bool, enabled: bool) -> (steps: Vec<LifecycleStep>)
    ensures
        owns_link && enabled ==> steps@ == seq![LifecycleStep::InstallService],
        !(owns_link && enabled) ==> steps@.len() == 0,
{
    if !owns_link {
        return Vec::new();
    }
    install_router_service(enabled)
}

} // verus!
