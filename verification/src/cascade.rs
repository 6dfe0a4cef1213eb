//! Moving the working tree to a resolved version: an ordered cascade of
//! strategies, each a short sequence of Git commands. The cascade decides what to
//! run next from how the last command went; running the commands is left to the
//! caller.

use crate::text::texts;
use vstd::prelude::*;
use vstd::string::StringExecFns;

verus! {

/// What the working tree is moved for.
#[derive(Debug, Clone, Copy, PartialEq, Eq, Structural)]
pub enum Operation {
    Install,
    Upgrade,
}

/// A Git command of the cascade.
#[derive(Debug, Clone, Copy, PartialEq, Eq, Structural)]
pub enum GitCommand {
    /// `git checkout <tag>`
    Checkout,
    /// `git fetch origin refs/tags/<tag>:refs/tags/<tag>`
    FetchTag,
    /// `git fetch --all`
    FetchAll,
    /// `git reset --hard <tag>`
    ResetHard,
    /// `git reset --hard tags/<tag>`
    ResetToTagPath,
}

/// A way of getting to the version: its commands are run in order and all have
/// to succeed.
#[derive(Debug, Clone, Copy, PartialEq, Eq, Structural)]
pub enum Strategy {
    DirectCheckout,
    HardReset,
    FetchTagThenReset,
    FetchAllThenReset,
    ResetToTagPath,
}

/// How a command went.
#[derive(Debug, Clone, Copy, PartialEq, Eq, Structural)]
pub enum Outcome {
    /// It ran and reported success.
    Succeeded,
    /// It ran and reported failure.
    Failed,
    /// It could not be started at all.
    NotStarted,
}

/// How the cascade ended.
#[derive(Debug, Clone, Copy, PartialEq, Eq, Structural)]
pub enum End {
    /// The strategy got the working tree to the version.
    Switched(Strategy),
    /// Every strategy failed.
    Exhausted,
    /// A command that has to run could not be started.
    Aborted,
}

/// The strategies of an operation, in the order in which they are tried.
pub open spec fn strategies(operation: Operation) -> Seq<Strategy> {
    match operation {
        Operation::Install => seq![Strategy::DirectCheckout, Strategy::HardReset],
        Operation::Upgrade => seq![
            Strategy::DirectCheckout,
            Strategy::FetchTagThenReset,
            Strategy::FetchAllThenReset,
            Strategy::ResetToTagPath,
        ],
    }
}

/// The commands of a strategy, in the order in which they are run.
pub open spec fn commands(strategy: Strategy) -> Seq<GitCommand> {
    match strategy {
        Strategy::DirectCheckout => seq![GitCommand::Checkout],
        Strategy::HardReset => seq![GitCommand::ResetHard],
        Strategy::FetchTagThenReset => seq![GitCommand::FetchTag, GitCommand::ResetHard],
        Strategy::FetchAllThenReset => seq![GitCommand::FetchAll, GitCommand::ResetHard],
        Strategy::ResetToTagPath => seq![GitCommand::ResetToTagPath],
    }
}

/// Whether a command that cannot be started only fails its strategy. This holds
/// of the resets of the last two strategies; anywhere else it aborts the cascade.
pub open spec fn may_not_start(strategy: Strategy, command: int) -> bool {
    (strategy == Strategy::FetchAllThenReset && command == 1) || strategy
        == Strategy::ResetToTagPath
}

/// A place in the cascade: a command of a strategy of an operation.
pub struct Position {
    pub operation: Operation,
    pub strategy: int,
    pub command: int,
}

impl Position {
    /// The place is one of the cascade.
    pub open spec fn valid(self) -> bool {
        &&& 0 <= self.strategy < strategies(self.operation).len()
        &&& 0 <= self.command < commands(self.current_strategy()).len()
    }

    /// The strategy that the place belongs to.
    pub open spec fn current_strategy(self) -> Strategy {
        strategies(self.operation)[self.strategy]
    }

    /// The command at the place.
    pub open spec fn current_command(self) -> GitCommand {
        commands(self.current_strategy())[self.command]
    }

    /// What the cascade does after the command at this place: go on, or end.
    pub open spec fn after(self, outcome: Outcome) -> Result<Position, End> {
        let fails = outcome == Outcome::Failed || (outcome == Outcome::NotStarted && may_not_start(
            self.current_strategy(),
            self.command,
        ));
        if outcome == Outcome::Succeeded {
            if self.command + 1 < commands(self.current_strategy()).len() {
                Ok(Position { command: self.command + 1, ..self })
            } else {
                Err(End::Switched(self.current_strategy()))
            }
        } else if fails {
            if self.strategy + 1 < strategies(self.operation).len() {
                Ok(Position { strategy: self.strategy + 1, command: 0, ..self })
            } else {
                Err(End::Exhausted)
            }
        } else {
            Err(End::Aborted)
        }
    }

    /// How many commands may still be run from this place on, at most.
    pub open spec fn remaining(self) -> nat {
        (2 * (strategies(self.operation).len() - self.strategy) - self.command) as nat
    }

    /// How the cascade ends from this place on, where `results` says how each
    /// command of each strategy goes.
    pub open spec fn run(self, results: spec_fn(Strategy, int) -> Outcome) -> End
        recommends
            self.valid(),
        decreases self.remaining(),
    {
        if self.valid() {
            match self.after(results(self.current_strategy(), self.command)) {
                Ok(next) => next.run(results),
                Err(end) => end,
            }
        } else {
            End::Exhausted
        }
    }
}

/// Every command of `strategy` succeeds under `results`.
pub open spec fn works(strategy: Strategy, results: spec_fn(Strategy, int) -> Outcome) -> bool {
    forall|command: int|
        0 <= command < commands(strategy).len() ==> #[trigger] results(strategy, command)
            == Outcome::Succeeded
}

/// Every command can be started under `results`.
pub open spec fn all_start(results: spec_fn(Strategy, int) -> Outcome) -> bool {
    forall|strategy: Strategy, command: int|
        #[trigger] results(strategy, command) != Outcome::NotStarted
}

/// The first strategy of `operation` from `from` on that works, if any.
pub open spec fn first_working(
    operation: Operation,
    from: int,
    results: spec_fn(Strategy, int) -> Outcome,
) -> Option<Strategy>
    decreases strategies(operation).len() - from,
{
    if 0 <= from < strategies(operation).len() {
        if works(strategies(operation)[from], results) {
            Some(strategies(operation)[from])
        } else {
            first_working(operation, from + 1, results)
        }
    } else {
        None
    }
}

/// Where the cascade of `operation` starts: at the first command of its first
/// strategy.
pub open spec fn start(operation: Operation) -> Position {
    Position { operation, strategy: 0, command: 0 }
}

/// The end that a cascade comes to where `found` is its first working strategy.
pub open spec fn end_with(found: Option<Strategy>) -> End {
    match found {
        Some(strategy) => End::Switched(strategy),
        None => End::Exhausted,
    }
}

/// Where every command can be started, the cascade ends with the first strategy
/// that works, and is exhausted only where none does.
pub proof fn lemma_cascade_takes_first_working(
    operation: Operation,
    results: spec_fn(Strategy, int) -> Outcome,
)
    requires
        all_start(results),
    ensures
        start(operation).run(results) == end_with(first_working(operation, 0, results)),
{
    lemma_run_from(start(operation), results);
}

/// From any place whose strategy has gone well so far, the cascade ends with the
/// first strategy from there on that works.
proof fn lemma_run_from(at: Position, results: spec_fn(Strategy, int) -> Outcome)
    requires
        at.valid(),
        all_start(results),
        forall|command: int|
            0 <= command < at.command ==> #[trigger] results(at.current_strategy(), command)
                == Outcome::Succeeded,
    ensures
        at.run(results) == end_with(first_working(at.operation, at.strategy, results)),
    decreases at.remaining(),
{
    let strategy = at.current_strategy();
    let outcome = results(strategy, at.command);
    if outcome != Outcome::Succeeded {
        assert(first_working(at.operation, at.strategy, results) == first_working(
            at.operation,
            at.strategy + 1,
            results,
        ));
    }
    match at.after(outcome) {
        Ok(next) => {
            lemma_run_from(next, results);
        },
        Err(end) => {},
    }
}

/// A cascade under way: the operation and the command that is to be run next.
#[derive(Debug)]
pub struct Cascade {
    operation: Operation,
    strategy: usize,
    command: usize,
}

impl View for Cascade {
    type V = Position;

    closed spec fn view(&self) -> Position {
        Position {
            operation: self.operation,
            strategy: self.strategy as int,
            command: self.command as int,
        }
    }
}

/// How many strategies `operation` has.
fn strategy_count(operation: Operation) -> (count: usize)
    ensures
        count == strategies(operation).len(),
{
    match operation {
        Operation::Install => 2,
        Operation::Upgrade => 4,
    }
}

/// The strategy of `operation` at `index`.
fn strategy_at(operation: Operation, index: usize) -> (strategy: Strategy)
    requires
        index < strategies(operation).len(),
    ensures
        strategy == strategies(operation)[index as int],
{
    match operation {
        Operation::Install => if index == 0 {
            Strategy::DirectCheckout
        } else {
            Strategy::HardReset
        },
        Operation::Upgrade => if index == 0 {
            Strategy::DirectCheckout
        } else if index == 1 {
            Strategy::FetchTagThenReset
        } else if index == 2 {
            Strategy::FetchAllThenReset
        } else {
            Strategy::ResetToTagPath
        },
    }
}

/// How many commands `strategy` has.
fn command_count(strategy: Strategy) -> (count: usize)
    ensures
        count == commands(strategy).len(),
{
    match strategy {
        Strategy::FetchTagThenReset | Strategy::FetchAllThenReset => 2,
        _ => 1,
    }
}

/// The command of `strategy` at `index`.
fn command_at(strategy: Strategy, index: usize) -> (command: GitCommand)
    requires
        index < commands(strategy).len(),
    ensures
        command == commands(strategy)[index as int],
{
    match strategy {
        Strategy::DirectCheckout => GitCommand::Checkout,
        Strategy::HardReset => GitCommand::ResetHard,
        Strategy::FetchTagThenReset => if index == 0 {
            GitCommand::FetchTag
        } else {
            GitCommand::ResetHard
        },
        Strategy::FetchAllThenReset => if index == 0 {
            GitCommand::FetchAll
        } else {
            GitCommand::ResetHard
        },
        Strategy::ResetToTagPath => GitCommand::ResetToTagPath,
    }
}

impl Cascade {
    /// A cascade under way is always at a place of its operation.
    #[verifier::type_invariant]
    spec fn in_cascade(self) -> bool {
        self@.valid()
    }

    /// The cascade of `operation`, at the first command of its first strategy.
    pub fn begin(operation: Operation) -> (cascade: Cascade)
        ensures
            cascade@ == start(operation),
            cascade@.valid(),
    {
        Cascade { operation, strategy: 0, command: 0 }
    }

    /// The strategy that is being tried.
    pub fn strategy(&self) -> (strategy: Strategy)
        ensures
            self@.valid(),
            strategy == self@.current_strategy(),
    {
        proof {
            use_type_invariant(self);
        }
        strategy_at(self.operation, self.strategy)
    }

    /// The command that is to be run next.
    pub fn command(&self) -> (command: GitCommand)
        ensures
            self@.valid(),
            command == self@.current_command(),
    {
        proof {
            use_type_invariant(self);
        }
        command_at(strategy_at(self.operation, self.strategy), self.command)
    }

    /// Takes in how the command went. A success moves on to the next command of
    /// the strategy, and ends the cascade after its last. A failure moves on to
    /// the next strategy, and exhausts the cascade after the last. A command that
    /// could not be started aborts the cascade, unless it is one that may fail
    /// this way.
    pub fn advance(self, outcome: Outcome) -> (next: Result<Cascade, End>)
        ensures
            self@.valid(),
            match next {
                Ok(cascade) => self@.after(outcome) == Ok::<Position, End>(cascade@)
                    && cascade@.valid(),
                Err(end) => self@.after(outcome) == Err::<Position, End>(end),
            },
    {
        proof {
            use_type_invariant(&self);
        }
        let strategy = strategy_at(self.operation, self.strategy);
        let lenient = match strategy {
            Strategy::FetchAllThenReset => self.command == 1,
            Strategy::ResetToTagPath => true,
            _ => false,
        };
        match outcome {
            Outcome::Succeeded => {
                if self.command + 1 < command_count(strategy) {
                    Ok(Cascade { command: self.command + 1, ..self })
                } else {
                    Err(End::Switched(strategy))
                }
            },
            Outcome::NotStarted if !lenient => Err(End::Aborted),
            _ => {
                if self.strategy + 1 < strategy_count(self.operation) {
                    Ok(Cascade { strategy: self.strategy + 1, command: 0, ..self })
                } else {
                    Err(End::Exhausted)
                }
            },
        }
    }
}

/// The arguments that `git` is run with for `command` and the tag `tag`.
pub open spec fn arguments_spec(command: GitCommand, tag: Seq<char>) -> Seq<Seq<char>> {
    match command {
        GitCommand::Checkout => seq!["checkout"@, tag],
        GitCommand::FetchTag => seq![
            "fetch"@,
            "origin"@,
            "refs/tags/"@ + tag + ":refs/tags/"@ + tag,
        ],
        GitCommand::FetchAll => seq!["fetch"@, "--all"@],
        GitCommand::ResetHard => seq!["reset"@, "--hard"@, tag],
        GitCommand::ResetToTagPath => seq!["reset"@, "--hard"@, "tags/"@ + tag],
    }
}

/// The arguments that `git` is run with for `command` and the tag `tag`.
pub fn arguments(command: GitCommand, tag: &str) -> (args: Vec<String>)
    ensures
        texts(args@) == arguments_spec(command, tag@),
{
    let args = match command {
        GitCommand::Checkout => vec![String::from_str("checkout"), String::from_str(tag)],
        GitCommand::FetchTag => vec![
            String::from_str("fetch"),
            String::from_str("origin"),
            String::from_str("refs/tags/").concat(tag).concat(":refs/tags/").concat(tag),
        ],
        GitCommand::FetchAll => vec![String::from_str("fetch"), String::from_str("--all")],
        GitCommand::ResetHard => vec![
            String::from_str("reset"),
            String::from_str("--hard"),
            String::from_str(tag),
        ],
        GitCommand::ResetToTagPath => vec![
            String::from_str("reset"),
            String::from_str("--hard"),
            String::from_str("tags/").concat(tag),
        ],
    };
    args
}

} // verus!
