use vstd::prelude::*;

verus! {

/// The subcommand an invocation asks for.
#[derive(Clone, Copy, Debug, PartialEq, Eq, Structural)]
pub enum ActionType {
    Run,
    Daemon,
    Config,
    Admin,
}

/// A parsed command line.
pub struct CauthCli {
    pub action: ActionType,
}

/// What an invocation performs: the subcommand, and whether the
/// configuration must be loaded (or edited interactively) before it.
#[derive(Clone, Copy, Debug, PartialEq, Eq, Structural)]
pub struct Invocation {
    pub action: ActionType,
    pub needs_config: bool,
}

impl CauthCli {
    /// Decides what this command line performs: every subcommand but
    /// `config` runs under a loaded configuration.
    pub fn run(self) -> (r: Invocation)
        ensures
            r.action == self.action,
            r.needs_config <==> self.action != ActionType::Config,
    {
        match self.action {
            ActionType::Run => Invocation { action: ActionType::Run, needs_config: true },
            ActionType::Daemon => Invocation { action: ActionType::Daemon, needs_config: true },
            ActionType::Admin => Invocation { action: ActionType::Admin, needs_config: true },
            ActionType::Config => Invocation { action: ActionType::Config, needs_config: false },
        }
    }
}

} // verus!
