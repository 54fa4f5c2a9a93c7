use vstd::prelude::*;
use crate::error::Error;

verus! {

/// How one target is configured: its content directory alone, or that
/// directory with a sync flag.
#[derive(Debug, Clone)]
pub enum GameConfig {
    Flat(String),
    Wide { dir: String, sync: Option<bool> },
}

impl GameConfig {
    /// The content directory, as configured.
    pub open spec fn dir_view(&self) -> Seq<char> {
        match self {
            GameConfig::Flat(p) => p@,
            GameConfig::Wide { dir, .. } => dir@,
        }
    }

    /// Whether the target is enabled for sync; it is unless a flag says no.
    pub open spec fn sync_enabled(&self) -> bool {
        match self {
            GameConfig::Flat(_) => true,
            GameConfig::Wide { sync, .. } => match sync {
                Some(b) => *b,
                None => true,
            },
        }
    }

    pub fn directory(&self) -> (r: &str)
        ensures
            r@ == self.dir_view(),
    {
        match self {
            GameConfig::Flat(path) => path.as_str(),
            GameConfig::Wide { dir, sync: _ } => dir.as_str(),
        }
    }

    pub fn sync(&self) -> (r: bool)
        ensures
            r == self.sync_enabled(),
    {
        match self {
            GameConfig::Flat(_) => true,
            GameConfig::Wide { dir: _, sync } => match sync {
                Some(b) => *b,
                None => true,
            },
        }
    }
}

/// The remote root, the local root and the named targets, in the order of
/// the configuration.
#[derive(Debug, Clone)]
pub struct Config {
    pub remote: String,
    pub local_dir: String,
    pub games: Vec<(String, GameConfig)>,
}

/// Index of the first target named `name`, looking from `from` on.
pub open spec fn first_named(games: Seq<(String, GameConfig)>, name: Seq<char>, from: int) -> Option<
    int,
>
    decreases games.len() - from,
{
    if from < 0 || from >= games.len() {
        None
    } else if games[from].0@ == name {
        Some(from)
    } else {
        first_named(games, name, from + 1)
    }
}

proof fn lemma_first_named(games: Seq<(String, GameConfig)>, name: Seq<char>, from: int)
    requires
        0 <= from,
    ensures
        first_named(games, name, from) matches Some(k) ==> from <= k < games.len() && games[k].0@
            == name,
        first_named(games, name, from) is None ==> forall|i: int|
            from <= i < games.len() ==> games[i].0@ != name,
    decreases games.len() - from,
{
    if 0 <= from < games.len() && games[from].0@ != name {
        lemma_first_named(games, name, from + 1);
    }
}

/// The target named `name`: the first one, should names repeat.
pub open spec fn lookup(config: Config, name: Seq<char>) -> Option<GameConfig> {
    match first_named(config.games@, name, 0) {
        Some(i) => Some(config.games@[i].1),
        None => None,
    }
}

impl Config {
    /// Target names are unique, as the keys of the configuration file's
    /// table are.
    pub open spec fn wf(&self) -> bool {
        forall|i: int, j: int|
            0 <= i < self.games@.len() && 0 <= j < self.games@.len() && i != j ==> #[trigger] self.games@[i].0@
                != #[trigger] self.games@[j].0@
    }

    /// Whether no two targets share a name.
    pub fn has_unique_names(&self) -> (r: bool)
        ensures
            r == self.wf(),
    {
        let mut i: usize = 0;
        while i < self.games.len()
            invariant
                0 <= i <= self.games@.len(),
                forall|a: int, b: int|
                    0 <= a < i && 0 <= b < self.games@.len() && a != b ==> #[trigger] self.games@[a].0@
                        != #[trigger] self.games@[b].0@,
            decreases self.games@.len() - i,
        {
            let mut j: usize = 0;
            while j < self.games.len()
                invariant
                    0 <= i < self.games@.len(),
                    0 <= j <= self.games@.len(),
                    forall|a: int, b: int|
                        0 <= a < i && 0 <= b < self.games@.len() && a != b ==> #[trigger] self.games@[a].0@
                            != #[trigger] self.games@[b].0@,
                    forall|b: int|
                        0 <= b < j && b != i ==> self.games@[i as int].0@ != #[trigger] self.games@[b].0@,
                decreases self.games@.len() - j,
            {
                if j != i && self.games[i].0 == self.games[j].0 {
                    return false;
                }
                j = j + 1;
            }
            i = i + 1;
        }
        true
    }

    /// The target named `name`: the first one, should names repeat.
    pub fn game(&self, name: &str) -> (r: Option<&GameConfig>)
        ensures
            r is None <==> lookup(*self, name@) is None,
            r matches Some(g) ==> lookup(*self, name@) == Some(*g),
            r is None ==> forall|i: int| 0 <= i < self.games@.len() ==> self.games@[i].0@ != name@,
            self.wf() && r is Some ==> forall|i: int|
                0 <= i < self.games@.len() && self.games@[i].0@ == name@ ==> self.games@[i].1
                    == *r->Some_0,
    {
        proof {
            lemma_first_named(self.games@, name@, 0);
        }
        let wanted = String::from_str(name);
        let mut i: usize = 0;
        while i < self.games.len()
            invariant
                0 <= i <= self.games@.len(),
                wanted@ == name@,
                first_named(self.games@, name@, 0) == first_named(self.games@, name@, i as int),
            decreases self.games@.len() - i,
        {
            if self.games[i].0 == wanted {
                return Some(&self.games[i].1);
            }
            i = i + 1;
        }
        None
    }
}

/// What the command line asks for.
#[derive(Debug, Clone, Copy, PartialEq, Eq, Structural)]
pub enum Operation {
    Sync,
    Backup,
    Help,
}

impl Default for Operation {
    fn default() -> (r: Operation)
        ensures
            r == Operation::Sync,
    {
        Operation::Sync
    }
}

/// Which targets the command line names.
#[derive(Debug, Clone)]
pub enum GameSelection {
    All,
    One(String),
}

/// The model of a target selection.
pub enum SelectionModel {
    All,
    One(Seq<char>),
}

impl View for GameSelection {
    type V = SelectionModel;

    open spec fn view(&self) -> SelectionModel {
        match self {
            GameSelection::All => SelectionModel::All,
            GameSelection::One(s) => SelectionModel::One(s@),
        }
    }
}

/// The model of a parsed command line: the command, if any, is its name
/// followed by its arguments.
pub struct ArgsModel {
    pub operation: Option<Operation>,
    pub game: Option<SelectionModel>,
    pub command: Option<(Seq<char>, Seq<Seq<char>>)>,
}

/// The parsed command line.
#[derive(Debug)]
pub struct Arguments {
    pub operation: Option<Operation>,
    pub game: Option<GameSelection>,
    pub command: Option<(String, Vec<String>)>,
}

pub open spec fn strings_view(v: Seq<String>) -> Seq<Seq<char>> {
    v.map_values(|s: String| s@)
}

impl View for Arguments {
    type V = ArgsModel;

    open spec fn view(&self) -> ArgsModel {
        ArgsModel {
            operation: self.operation,
            game: match self.game {
                Some(g) => Some(g@),
                None => None,
            },
            command: match self.command {
                Some(c) => Some((c.0@, strings_view(c.1@))),
                None => None,
            },
        }
    }
}

/// Whether an argument reads as an option (it starts with two dashes).
pub open spec fn is_option(s: Seq<char>) -> bool {
    s.len() >= 2 && s[0] == '-' && s[1] == '-'
}

/// Reading the command line from position `i` on, with `m` read so far:
/// `None` when `--game` has no value.
pub open spec fn parse_from(args: Seq<Seq<char>>, i: int, m: ArgsModel) -> Option<ArgsModel>
    decreases args.len() - i,
{
    if i < 0 || i >= args.len() {
        Some(m)
    } else if args[i] == "--help"@ {
        parse_from(args, i + 1, ArgsModel { operation: Some(Operation::Help), ..m })
    } else if args[i] == "--game"@ {
        if i + 1 < args.len() && !is_option(args[i + 1]) {
            parse_from(args, i + 2, ArgsModel { game: Some(SelectionModel::One(args[i + 1])), ..m })
        } else {
            None
        }
    } else if args[i] == "--all"@ {
        parse_from(args, i + 1, ArgsModel { game: Some(SelectionModel::All), ..m })
    } else if args[i] == "--sync"@ {
        parse_from(args, i + 1, ArgsModel { operation: Some(Operation::Sync), ..m })
    } else if args[i] == "--backup"@ {
        parse_from(args, i + 1, ArgsModel { operation: Some(Operation::Backup), ..m })
    } else {
        Some(ArgsModel { command: Some((args[i], args.subrange(i + 1, args.len() as int))), ..m })
    }
}

pub open spec fn empty_args() -> ArgsModel {
    ArgsModel { operation: None, game: None, command: None }
}

fn starts_as_option(s: &String) -> (r: bool)
    ensures
        r == is_option(s@),
{
    let t = s.as_str();
    let n = t.unicode_len();
    n >= 2 && t.get_char(0) == '-' && t.get_char(1) == '-'
}

impl Arguments {
    /// Reads the command line; its first item, the program, is skipped. An
    /// argument that is no option starts the command, and all after it are
    /// the command's arguments.
    pub fn parse_args(args: &Vec<String>) -> (r: Result<Arguments, Error>)
        ensures
            parse_from(strings_view(args@), 1, empty_args()) matches Some(m) ==> (r matches Ok(a)
                && a@ == m),
            parse_from(strings_view(args@), 1, empty_args()) is None ==> (r matches Err(
                Error::MissingOption(o),
            ) && o@ == "--game"@),
    {
        let ghost sv = strings_view(args@);
        let mut arguments = Arguments { operation: None, game: None, command: None };
        let help = String::from_str("--help");
        let game = String::from_str("--game");
        let all = String::from_str("--all");
        let sync = String::from_str("--sync");
        let backup = String::from_str("--backup");
        let mut i: usize = 1;
        while i < args.len()
            invariant
                sv == strings_view(args@),
                sv.len() == args@.len(),
                1 <= i,
                help@ == "--help"@,
                game@ == "--game"@,
                all@ == "--all"@,
                sync@ == "--sync"@,
                backup@ == "--backup"@,
                arguments.command is None,
                parse_from(sv, i as int, arguments@) == parse_from(sv, 1, empty_args()),
            decreases args@.len() - i,
        {
            let arg = &args[i];
            assert(sv[i as int] == arg@);
            if *arg == help {
                arguments.operation = Some(Operation::Help);
                i = i + 1;
            } else if *arg == game {
                if i + 1 < args.len() && !starts_as_option(&args[i + 1]) {
                    assert(sv[i + 1] == args@[i + 1]@);
                    arguments.game = Some(GameSelection::One(args[i + 1].clone()));
                    i = i + 2;
                } else {
                    return Err(Error::MissingOption(game));
                }
            } else if *arg == all {
                arguments.game = Some(GameSelection::All);
                i = i + 1;
            } else if *arg == sync {
                arguments.operation = Some(Operation::Sync);
                i = i + 1;
            } else if *arg == backup {
                arguments.operation = Some(Operation::Backup);
                i = i + 1;
            } else {
                let mut params: Vec<String> = Vec::new();
                let mut j: usize = i + 1;
                while j < args.len()
                    invariant
                        sv == strings_view(args@),
                        sv.len() == args@.len(),
                        i + 1 <= j <= args@.len(),
                        strings_view(params@) == sv.subrange(i + 1, j as int),
                    decreases args@.len() - j,
                {
                    let ghost before = params@;
                    assert(strings_view(before).len() == before.len());
                    assert(before.len() == j - (i + 1));
                    params.push(args[j].clone());
                    j = j + 1;
                    proof {
                        assert(params@ == before.push(args@[j - 1]));
                        assert forall|k: int| 0 <= k < params@.len() implies #[trigger] strings_view(params@)[k]
                            == sv.subrange(i + 1, j as int)[k] by {
                            if k < before.len() {
                                assert(strings_view(before)[k] == sv.subrange(i + 1, j - 1)[k]);
                            }
                        }
                        assert(strings_view(params@) =~= sv.subrange(i + 1, j as int));
                    }
                }
                arguments.command = Some((arg.clone(), params));
                return Ok(arguments);
            }
        }
        Ok(arguments)
    }
}

} // verus!
