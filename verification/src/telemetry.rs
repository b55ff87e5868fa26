//! Telemetry that this editor keeps switched off: nothing is recorded and no
//! identifier is handed out.
use vstd::prelude::*;

verus! {

/// The telemetry client.
#[derive(Clone, Copy, PartialEq, Eq, Structural, Debug)]
pub struct Telemetry;

impl Telemetry {
    /// The process-wide telemetry client.
    pub fn global() -> (r: Telemetry)
        ensures
            r == Telemetry,
    {
        Telemetry
    }

    /// The path of the telemetry log: the empty path, as nothing is logged.
    pub fn log_file_path() -> (r: String)
        ensures
            r@ == Seq::<char>::empty(),
    {
        String::new()
    }

    /// Whether diagnostics are reported: never.
    pub fn diagnostics_enabled(&self) -> (r: bool)
        ensures
            !r,
    {
        false
    }

    /// Records an edit in `environment`: nothing is recorded.
    pub fn log_edit_event(&self, environment: &str, is_via_ssh: bool) {
    }

    /// Reports the project types found in a worktree: nothing is reported.
    pub fn report_discovered_project_type_events<T, U>(&self, worktree_id: T, updated_entries: U) {
    }

    /// The installation's identifier: there is none.
    pub fn installation_id(&self) -> (r: Option<String>)
        ensures
            r is None,
    {
        None
    }
}

} // verus!
