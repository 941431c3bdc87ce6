use lightrail::error::CliError;
use lightrail::sequence::{Ending, Event, Mutation, Sequence, Stage};
use lightrail::up::up_desired;
use lightrail::value::Data;

fn failed(detail: &str) -> Event {
    Event::failed(CliError::Operation(detail.to_owned()))
}

fn changed(succeeded: bool, cancelled: bool) -> Event {
    Event::Changed { succeeded, cancelled }
}

fn walk(sequence: &mut Sequence, events: Vec<Event>) -> Vec<Stage> {
    let mut stages = Vec::new();
    for event in events {
        sequence.step(event);
        stages.push(sequence.stage());
    }
    stages
}

fn done(count: usize) -> Vec<Event> {
    (0..count).map(|_| Event::Done).collect()
}

fn at_change(mutation: Mutation, keep_failed: bool) -> Sequence {
    let mut sequence = Sequence::start(mutation, false, keep_failed);
    let steps = if mutation == Mutation::Up { 6 } else { 7 };
    walk(&mut sequence, done(steps));
    assert_eq!(sequence.stage(), Stage::Change);
    sequence
}

#[test]
fn up_changes_under_a_lock_and_inspects() {
    let mut sequence = Sequence::start(Mutation::Up, false, false);
    assert_eq!(sequence.stage(), Stage::Preview);
    let mut events = done(6);
    events.push(changed(true, false));
    events.extend(done(1));
    events.push(Event::Nothing);
    events.extend(done(3));
    assert_eq!(
        walk(&mut sequence, events),
        vec![
            Stage::Lock,
            Stage::Plan,
            Stage::Open,
            Stage::Choose,
            Stage::Assert,
            Stage::Change,
            Stage::Note,
            Stage::Choose,
            Stage::Inspect,
            Stage::Close,
            Stage::Release,
            Stage::Done(Ending::Ran),
        ]
    );
    assert_eq!(sequence.reason(), None);
    assert!(sequence.outcome().is_ok());
}

#[test]
fn failed_changes_are_undone_and_the_failure_stays() {
    let mut sequence = at_change(Mutation::Up, false);
    let mut events = vec![failed("broken")];
    events.extend(done(4));
    events.push(Event::Nothing);
    events.extend(done(2));
    assert_eq!(
        walk(&mut sequence, events),
        vec![
            Stage::Abandon,
            Stage::ChooseUndo,
            Stage::AssertUndo,
            Stage::Undo,
            Stage::ChooseUndo,
            Stage::Close,
            Stage::Release,
            Stage::Done(Ending::Ran),
        ]
    );
    assert_eq!(sequence.reason(), Some("operation failed: broken"));
    let error = sequence.outcome().expect_err("failed");
    assert_eq!(error.message(), "operation failed: broken");
}

#[test]
fn failed_changes_are_kept_where_that_is_asked_for() {
    let mut sequence = at_change(Mutation::Up, true);
    assert_eq!(
        walk(&mut sequence, vec![failed("broken"), Event::Done, Event::Done]),
        vec![Stage::Abandon, Stage::Release, Stage::Done(Ending::Ran)]
    );
    assert!(sequence.outcome().is_err());
}

#[test]
fn a_lost_lock_ends_undoing() {
    let mut sequence = at_change(Mutation::Up, false);
    walk(&mut sequence, vec![failed("broken"), Event::Done, Event::Done]);
    assert_eq!(sequence.stage(), Stage::AssertUndo);
    assert_eq!(
        walk(&mut sequence, vec![failed("lost"), failed("rollback incomplete"), Event::Done]),
        vec![Stage::Close, Stage::Release, Stage::Done(Ending::Ran)]
    );
    let error = sequence.outcome().expect_err("failed");
    assert_eq!(error.message(), "operation failed: rollback incomplete");
}

#[test]
fn a_cancelled_change_is_saved_and_undone() {
    let mut sequence = at_change(Mutation::Up, false);
    assert_eq!(
        walk(&mut sequence, vec![changed(true, true), Event::Done]),
        vec![Stage::Note, Stage::Abandon]
    );
    assert_eq!(
        sequence.reason(),
        Some("operation failed: operation cancelled after the active plugin reached a safe stopping point")
    );
}

#[test]
fn an_environment_that_is_not_ready_is_abandoned() {
    let mut sequence = at_change(Mutation::Up, false);
    walk(&mut sequence, vec![changed(true, false), Event::Done, Event::Nothing]);
    assert_eq!(sequence.stage(), Stage::Inspect);
    sequence.step(Event::Failed {
        error: CliError::Operation("not ready".to_owned()),
        reason: "not ready".to_owned(),
    });
    assert_eq!(sequence.stage(), Stage::Abandon);
    assert_eq!(sequence.reason(), Some("not ready"));
}

#[test]
fn dry_runs_end_with_the_preview() {
    for mutation in [Mutation::Up, Mutation::Down, Mutation::Prune] {
        let mut sequence = Sequence::start(mutation, true, false);
        assert_eq!(
            walk(&mut sequence, done(3)),
            vec![Stage::Done(Ending::Previewed), Stage::Done(Ending::Previewed), Stage::Done(Ending::Previewed)]
        );
    }
}

#[test]
fn destruction_needs_agreement() {
    for mutation in [Mutation::Down, Mutation::Prune] {
        let mut sequence = Sequence::start(mutation, false, false);
        assert_eq!(
            walk(&mut sequence, vec![Event::Done, Event::Nothing]),
            vec![Stage::Agree, Stage::Done(Ending::Declined)]
        );
        assert!(sequence.outcome().is_ok());
        let mut sequence = Sequence::start(mutation, false, false);
        assert_eq!(walk(&mut sequence, vec![Event::Nothing]), vec![Stage::Done(Ending::Absent)]);
        let mut sequence = Sequence::start(mutation, false, false);
        assert_eq!(
            walk(&mut sequence, vec![Event::Done, Event::Done, failed("held")]),
            vec![Stage::Agree, Stage::Lock, Stage::Done(Ending::Barred)]
        );
        assert_eq!(sequence.outcome().expect_err("held").message(), "operation failed: held");
    }
}

#[test]
fn destruction_goes_on_after_a_failure_and_ends_after_a_cancellation() {
    let mut sequence = at_change(Mutation::Down, false);
    assert_eq!(
        walk(&mut sequence, vec![changed(false, false), Event::Done, failed("lost")]),
        vec![Stage::Choose, Stage::Assert, Stage::Close]
    );
    assert_eq!(sequence.reason(), None);
    let mut sequence = at_change(Mutation::Down, false);
    assert_eq!(
        walk(&mut sequence, vec![changed(true, true), Event::Done]),
        vec![Stage::Note, Stage::Close]
    );
    let mut sequence = at_change(Mutation::Down, false);
    assert_eq!(walk(&mut sequence, vec![changed(false, true)]), vec![Stage::Close]);
    let mut sequence = at_change(Mutation::Prune, false);
    assert_eq!(
        walk(&mut sequence, vec![failed("left"), Event::Done, Event::Done]),
        vec![Stage::Close, Stage::Release, Stage::Done(Ending::Ran)]
    );
    assert!(sequence.outcome().is_err());
}

#[test]
fn neither_failure_hides_the_other_at_the_end() {
    let mut sequence = Sequence::start(Mutation::Up, false, false);
    walk(&mut sequence, vec![Event::Done, Event::Done, failed("plan"), failed("release")]);
    assert_eq!(sequence.stage(), Stage::Done(Ending::Ran));
    assert_eq!(
        sequence.outcome().expect_err("both").message(),
        "operation failed: operation failed: plan; additionally failed to release the mutation lock: operation failed: release"
    );
}

#[test]
fn up_names_the_compose_model() {
    let desired = up_desired(&Data::object(), "/tmp/model.json");
    assert_eq!(desired.get_str("resolved_compose_path"), Some("/tmp/model.json"));
}
