use holomotion_installer::cascade::{
    arguments, Cascade, End, GitCommand, Operation, Outcome, Strategy,
};

fn run(operation: Operation, outcomes: &[Outcome]) -> (Vec<GitCommand>, End) {
    let mut cascade = Cascade::begin(operation);
    let mut ran = Vec::new();
    let mut outcomes = outcomes.iter();
    loop {
        ran.push(cascade.command());
        let outcome = *outcomes.next().expect("the cascade ran more commands than there are outcomes");
        match cascade.advance(outcome) {
            Ok(next) => cascade = next,
            Err(end) => {
                assert!(outcomes.next().is_none());
                return (ran, end);
            }
        }
    }
}

use Outcome::{Failed, NotStarted, Succeeded};

#[test]
fn a_cascade_begins_with_a_direct_checkout() {
    for operation in [Operation::Install, Operation::Upgrade] {
        let cascade = Cascade::begin(operation);
        assert_eq!(cascade.strategy(), Strategy::DirectCheckout);
        assert_eq!(cascade.command(), GitCommand::Checkout);
        assert_eq!(run(operation, &[Succeeded]), (vec![GitCommand::Checkout], End::Switched(Strategy::DirectCheckout)));
    }
}

#[test]
fn an_upgrade_tries_four_strategies_in_order() {
    assert_eq!(
        run(Operation::Upgrade, &[Failed, Succeeded, Succeeded]),
        (
            vec![GitCommand::Checkout, GitCommand::FetchTag, GitCommand::ResetHard],
            End::Switched(Strategy::FetchTagThenReset)
        )
    );
    assert_eq!(
        run(Operation::Upgrade, &[Failed, Failed, Succeeded, Succeeded]),
        (
            vec![GitCommand::Checkout, GitCommand::FetchTag, GitCommand::FetchAll, GitCommand::ResetHard],
            End::Switched(Strategy::FetchAllThenReset)
        )
    );
    assert_eq!(
        run(Operation::Upgrade, &[Failed, Succeeded, Failed, Succeeded, Failed, Succeeded]),
        (
            vec![
                GitCommand::Checkout,
                GitCommand::FetchTag,
                GitCommand::ResetHard,
                GitCommand::FetchAll,
                GitCommand::ResetHard,
                GitCommand::ResetToTagPath
            ],
            End::Switched(Strategy::ResetToTagPath)
        )
    );
    assert_eq!(
        run(Operation::Upgrade, &[Failed, Failed, Failed, Succeeded]),
        (
            vec![GitCommand::Checkout, GitCommand::FetchTag, GitCommand::FetchAll, GitCommand::ResetToTagPath],
            End::Switched(Strategy::ResetToTagPath)
        )
    );
}

#[test]
fn an_upgrade_is_exhausted_when_all_four_fail() {
    assert_eq!(
        run(Operation::Upgrade, &[Failed, Failed, Failed, Failed]),
        (
            vec![GitCommand::Checkout, GitCommand::FetchTag, GitCommand::FetchAll, GitCommand::ResetToTagPath],
            End::Exhausted
        )
    );
    assert_eq!(run(Operation::Upgrade, &[Failed, Succeeded, Failed, Succeeded, Failed, Failed]).1, End::Exhausted);
}

#[test]
fn an_install_falls_back_to_a_hard_reset() {
    assert_eq!(
        run(Operation::Install, &[Failed, Succeeded]),
        (vec![GitCommand::Checkout, GitCommand::ResetHard], End::Switched(Strategy::HardReset))
    );
    assert_eq!(
        run(Operation::Install, &[Failed, Failed]),
        (vec![GitCommand::Checkout, GitCommand::ResetHard], End::Exhausted)
    );
    let cascade = Cascade::begin(Operation::Install).advance(Failed).unwrap();
    assert_eq!(cascade.strategy(), Strategy::HardReset);
    assert_eq!(cascade.command(), GitCommand::ResetHard);
}

#[test]
fn a_command_that_cannot_be_started_aborts_where_it_has_to_run() {
    assert_eq!(run(Operation::Upgrade, &[NotStarted]).1, End::Aborted);
    assert_eq!(run(Operation::Upgrade, &[Failed, NotStarted]).1, End::Aborted);
    assert_eq!(run(Operation::Upgrade, &[Failed, Succeeded, NotStarted]).1, End::Aborted);
    assert_eq!(run(Operation::Upgrade, &[Failed, Failed, NotStarted]).1, End::Aborted);
    assert_eq!(run(Operation::Install, &[NotStarted]).1, End::Aborted);
    assert_eq!(run(Operation::Install, &[Failed, NotStarted]).1, End::Aborted);
}

#[test]
fn the_last_resets_of_an_upgrade_may_fail_to_start() {
    assert_eq!(
        run(Operation::Upgrade, &[Failed, Failed, Succeeded, NotStarted, Succeeded]),
        (
            vec![
                GitCommand::Checkout,
                GitCommand::FetchTag,
                GitCommand::FetchAll,
                GitCommand::ResetHard,
                GitCommand::ResetToTagPath
            ],
            End::Switched(Strategy::ResetToTagPath)
        )
    );
    assert_eq!(run(Operation::Upgrade, &[Failed, Failed, Failed, NotStarted]).1, End::Exhausted);
    assert_eq!(run(Operation::Upgrade, &[Failed, Failed, Succeeded, NotStarted, NotStarted]).1, End::Exhausted);
}

#[test]
fn the_strategy_is_told_while_its_commands_run() {
    let cascade = Cascade::begin(Operation::Upgrade).advance(Failed).unwrap();
    assert_eq!(cascade.strategy(), Strategy::FetchTagThenReset);
    assert_eq!(cascade.command(), GitCommand::FetchTag);
    let cascade = cascade.advance(Succeeded).unwrap();
    assert_eq!(cascade.strategy(), Strategy::FetchTagThenReset);
    assert_eq!(cascade.command(), GitCommand::ResetHard);
    let cascade = cascade.advance(Failed).unwrap();
    assert_eq!(cascade.strategy(), Strategy::FetchAllThenReset);
    assert_eq!(cascade.command(), GitCommand::FetchAll);
    let cascade = cascade.advance(Failed).unwrap();
    assert_eq!(cascade.strategy(), Strategy::ResetToTagPath);
    assert_eq!(cascade.command(), GitCommand::ResetToTagPath);
    assert_eq!(cascade.advance(Failed).unwrap_err(), End::Exhausted);
}

#[test]
fn git_is_run_with_the_tag_verbatim() {
    let args = |command: GitCommand| arguments(command, "v1.2.3");
    assert_eq!(args(GitCommand::Checkout), vec!["checkout", "v1.2.3"]);
    assert_eq!(args(GitCommand::FetchTag), vec!["fetch", "origin", "refs/tags/v1.2.3:refs/tags/v1.2.3"]);
    assert_eq!(args(GitCommand::FetchAll), vec!["fetch", "--all"]);
    assert_eq!(args(GitCommand::ResetHard), vec!["reset", "--hard", "v1.2.3"]);
    assert_eq!(args(GitCommand::ResetToTagPath), vec!["reset", "--hard", "tags/v1.2.3"]);
    assert_eq!(arguments(GitCommand::Checkout, ""), vec!["checkout", ""]);
    assert_eq!(
        arguments(GitCommand::FetchTag, "release/4.2.2-20240901"),
        vec!["fetch", "origin", "refs/tags/release/4.2.2-20240901:refs/tags/release/4.2.2-20240901"]
    );
}
