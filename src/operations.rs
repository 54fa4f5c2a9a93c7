use vstd::prelude::*;
use crate::config::{Arguments, Config, GameSelection, Operation};
use crate::error::Error;

verus! {

/// One sync pass to run: on target `game`, around `command` if there is one.
#[derive(Debug)]
pub struct SyncJob {
    pub game: String,
    pub command: Option<(String, Vec<String>)>,
}

/// What a command line comes to.
#[derive(Debug)]
pub enum Task {
    /// Print the usage text.
    Help,
    /// Run these passes, one after another.
    Sync(Vec<SyncJob>),
    /// Back up these targets, one after another.
    Backup(Vec<String>),
}

/// The names of all configured targets, in order.
pub open spec fn names_match(names: Seq<String>, config: Config) -> bool {
    &&& names.len() == config.games@.len()
    &&& forall|i: int| 0 <= i < names.len() ==> #[trigger] names[i]@ == config.games@[i].0@
}

/// The passes that all configured targets need, in order, with no command.
pub open spec fn jobs_for_all(jobs: Seq<SyncJob>, config: Config) -> bool {
    &&& jobs.len() == config.games@.len()
    &&& forall|i: int|
        0 <= i < jobs.len() ==> #[trigger] jobs[i].game@ == config.games@[i].0@ && jobs[i].command
            is None
}

/// What `--sync` comes to: one pass on one target, around the command if
/// one is given; a pass on every target where all are selected and no
/// command is given; otherwise an error.
pub open spec fn sync_outcome(
    config: Config,
    game: Option<GameSelection>,
    command: Option<(String, Vec<String>)>,
    r: Result<Vec<SyncJob>, Error>,
) -> bool {
    &&& game matches Some(GameSelection::One(g)) ==> (r matches Ok(v) && v@.len() == 1
        && v@[0].game == g && v@[0].command == command)
    &&& (game matches Some(GameSelection::All) && command is None) ==> (r matches Ok(v)
        && jobs_for_all(v@, config))
    &&& (game is None || (game matches Some(GameSelection::All) && command is Some)) ==> (r matches Err(
        Error::InvalidArgument(m),
    ) && m@ == "incorrect options to --sync"@)
}

/// What `--backup` comes to: the one target or all of them, and no command.
pub open spec fn backup_outcome(
    config: Config,
    game: Option<GameSelection>,
    command: Option<(String, Vec<String>)>,
    r: Result<Vec<String>, Error>,
) -> bool {
    &&& (game matches Some(GameSelection::One(_)) && command is None) ==> (r matches Ok(v)
        && v@ == seq![game->Some_0->One_0])
    &&& (game matches Some(GameSelection::All) && command is None) ==> (r matches Ok(v)
        && names_match(v@, config))
    &&& (game is None && command is None) ==> (r matches Err(Error::InvalidArgument(m)) && m@
        == "command not supported for --backup"@)
    &&& command is Some ==> (r matches Err(Error::InvalidArgument(m)) && m@
        == "incorrect options to --backup"@)
}

fn all_names(config: &Config) -> (r: Vec<String>)
    ensures
        names_match(r@, *config),
{
    let mut r: Vec<String> = Vec::new();
    let mut i: usize = 0;
    while i < config.games.len()
        invariant
            0 <= i <= config.games@.len(),
            r@.len() == i,
            forall|j: int| 0 <= j < i ==> #[trigger] r@[j]@ == config.games@[j].0@,
        decreases config.games@.len() - i,
    {
        r.push(config.games[i].0.clone());
        i = i + 1;
    }
    r
}

/// The passes that `--sync` asks for: one target, with or without a
/// command, or all targets without one.
pub fn operation_sync(
    config: &Config,
    game: Option<GameSelection>,
    command: Option<(String, Vec<String>)>,
) -> (r: Result<Vec<SyncJob>, Error>)
    ensures
        sync_outcome(*config, game, command, r),
{
    match (game, command) {
        (Some(GameSelection::One(game)), command) => {
            let mut v: Vec<SyncJob> = Vec::new();
            v.push(SyncJob { game, command });
            Ok(v)
        },
        (Some(GameSelection::All), None) => {
            let names = all_names(config);
            let mut v: Vec<SyncJob> = Vec::new();
            let mut i: usize = 0;
            while i < names.len()
                invariant
                    0 <= i <= names@.len(),
                    names_match(names@, *config),
                    v@.len() == i,
                    forall|j: int|
                        0 <= j < i ==> #[trigger] v@[j].game@ == config.games@[j].0@
                            && v@[j].command is None,
                decreases names@.len() - i,
            {
                v.push(SyncJob { game: names[i].clone(), command: None });
                i = i + 1;
            }
            Ok(v)
        },
        _ => Err(Error::InvalidArgument(String::from_str("incorrect options to --sync"))),
    }
}

/// The targets that `--backup` asks for: one, or all; no command is taken.
pub fn operation_backup(
    config: &Config,
    game: Option<GameSelection>,
    command: Option<(String, Vec<String>)>,
) -> (r: Result<Vec<String>, Error>)
    ensures
        backup_outcome(*config, game, command, r),
{
    match (game, command) {
        (Some(GameSelection::One(game)), None) => {
            let mut v: Vec<String> = Vec::new();
            v.push(game);
            proof {
                assert(v@ =~= seq![game]);
            }
            Ok(v)
        },
        (Some(GameSelection::All), None) => Ok(all_names(config)),
        (_, None) => Err(
            Error::InvalidArgument(String::from_str("command not supported for --backup")),
        ),
        _ => Err(Error::InvalidArgument(String::from_str("incorrect options to --backup"))),
    }
}

/// What a parsed command line asks for. With no operation it asks for help
/// when it names neither a target nor a command.
pub fn dispatch(config: &Config, arguments: Arguments) -> (r: Result<Task, Error>)
    ensures
        arguments.operation == Some(Operation::Help) ==> r matches Ok(Task::Help),
        (arguments.operation is None && arguments.game is None && arguments.command is None)
            ==> r matches Ok(Task::Help),
        (arguments.operation is None && (arguments.game is Some || arguments.command is Some))
            ==> (r matches Err(Error::InvalidArgument(m)) && m@ == "missing operation"@),
        arguments.operation == Some(Operation::Sync) ==> match r {
            Ok(Task::Sync(v)) => sync_outcome(*config, arguments.game, arguments.command, Ok(v)),
            Err(e) => sync_outcome(*config, arguments.game, arguments.command, Err(e)),
            _ => false,
        },
        arguments.operation == Some(Operation::Backup) ==> match r {
            Ok(Task::Backup(v)) => backup_outcome(*config, arguments.game, arguments.command, Ok(v)),
            Err(e) => backup_outcome(*config, arguments.game, arguments.command, Err(e)),
            _ => false,
        },
{
    match arguments.operation {
        Some(Operation::Sync) => match operation_sync(config, arguments.game, arguments.command) {
            Ok(jobs) => Ok(Task::Sync(jobs)),
            Err(e) => Err(e),
        },
        Some(Operation::Backup) => match operation_backup(
            config,
            arguments.game,
            arguments.command,
        ) {
            Ok(games) => Ok(Task::Backup(games)),
            Err(e) => Err(e),
        },
        Some(Operation::Help) => Ok(Task::Help),
        None => {
            if arguments.game.is_none() && arguments.command.is_none() {
                Ok(Task::Help)
            } else {
                Err(Error::InvalidArgument(String::from_str("missing operation")))
            }
        },
    }
}

} // verus!
