//! The install command's dispatch decision. Bucket synchronization and the
//! download itself are driven by the embedding program; which of them a
//! given invocation asks for is decided here.

use vstd::prelude::*;

verus! {

/// The install subcommand: an optional app name, a bucket-sync switch, and
/// an update-all switch.
#[derive(Debug)]
pub struct InstallCommand {
    pub app: Option<String>,
    pub sync: bool,
    pub update_all: bool,
}

/// What one install invocation asks for.
#[derive(Debug, PartialEq)]
pub enum InstallAction {
    /// Synchronize all bucket repositories.
    SyncRepos,
    /// Resolve, download and verify the named app.
    Download(String),
    /// Nothing this engine supports was requested.
    Unsupported,
}

impl InstallCommand {
    /// The dispatch decision: the sync switch wins; otherwise a named app is
    /// downloaded; anything else is unsupported.
    pub fn action(&self) -> (r: InstallAction)
        ensures
            self.sync ==> r is SyncRepos,
            !self.sync && self.app is Some ==> (r matches InstallAction::Download(a) && a@
                == self.app->0@),
            !self.sync && self.app is None ==> r is Unsupported,
    {
        if self.sync {
            InstallAction::SyncRepos
        } else {
            match &self.app {
                Some(a) => InstallAction::Download(a.clone()),
                None => InstallAction::Unsupported,
            }
        }
    }
}

} // verus!
