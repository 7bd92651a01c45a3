//! The course of a run once the next version is known: which step follows
//! which, so that the manifests and the repository move together or not at
//! all.

use vstd::prelude::*;
use crate::cli::VersionArgs;
use crate::text::{same_text, string_views};

verus! {

/// What is fixed before a run starts.
#[derive(Debug, Clone, Copy, PartialEq, Eq, Structural)]
pub struct Plan {
    /// The number of manifests to write.
    pub targets: usize,
    /// Say what would be done and change nothing.
    pub dry_run: bool,
    /// Commit and tag after writing.
    pub git: bool,
    /// Go on where the working tree has changes or the tag exists.
    pub force: bool,
}

/// How far a run has come.
#[derive(Debug, Clone, Copy, PartialEq, Eq, Structural)]
pub enum Stage {
    /// Nothing was done yet.
    Start,
    /// The repository is being inspected.
    Inspecting,
    /// The manifests before `next` are written; `next` is being written.
    Writing { next: usize },
    /// Every manifest is written; commit and tag are being made.
    Committing,
    /// The run ended well.
    Finished,
    /// The run was given up.
    Failed,
}

/// What happened outside since the last step.
#[derive(Debug, Clone, Copy, PartialEq, Eq, Structural)]
pub enum Event {
    /// The next version is known; `changed` says whether it differs from the
    /// primary manifest's.
    Resolved { changed: bool },
    /// The repository was inspected; `clean` says whether the working tree
    /// has no changes, or that nobody asked.
    Inspected { clean: bool },
    /// The manifest asked for was written.
    Written,
    /// Commit and tag were made.
    Committed,
    /// What was asked for could not be done.
    Failed,
}

/// Why a run is given up.
#[derive(Debug, Clone, Copy, PartialEq, Eq, Structural)]
pub enum Failure {
    /// The working tree has changes and `force` is off.
    DirtyTree,
    /// What was asked for outside could not be done.
    Collaborator,
    /// An event came that the stage does not wait for.
    OutOfTurn,
}

/// What to do next outside.
#[derive(Debug, Clone, Copy, PartialEq, Eq, Structural)]
pub enum Action {
    /// Print the version; the run is over.
    Report,
    /// Say what would be written, committed and tagged, and print the
    /// version; the run is over.
    Preview,
    /// Open the repository and, if `require_clean`, see whether the working
    /// tree has changes.
    Inspect { require_clean: bool },
    /// Write the new version to the manifest at `index`.
    Write { index: usize },
    /// Stage every manifest, commit, and tag; with `force`, replace a tag
    /// that exists.
    CommitAndTag { force: bool },
    /// Give up.
    Abort { reason: Failure },
}

/// The step that follows the writing of all manifests or, where there is
/// nothing more to write, the end.
pub open spec fn after_writes(plan: Plan) -> (Stage, Action) {
    if plan.git {
        (Stage::Committing, Action::CommitAndTag { force: plan.force })
    } else {
        (Stage::Finished, Action::Report)
    }
}

/// The stage and the action that follow an event at a stage.
///
/// An unchanged version ends the run at once, and so does a dry run. With
/// the repository in play it is inspected before anything is written, and
/// changes in the working tree end the run unless `force` is on. The
/// manifests are written one after another; only when the last is written
/// are commit and tag made. A failure outside ends the run where it stands.
pub open spec fn step_spec(plan: Plan, stage: Stage, event: Event) -> (Stage, Action) {
    match (stage, event) {
        (Stage::Start, Event::Resolved { changed }) => if !changed {
            (Stage::Finished, Action::Report)
        } else if plan.dry_run {
            (Stage::Finished, Action::Preview)
        } else if plan.git {
            (Stage::Inspecting, Action::Inspect { require_clean: !plan.force })
        } else {
            (Stage::Writing { next: 0 }, Action::Write { index: 0 })
        },
        (Stage::Inspecting, Event::Inspected { clean }) => if !clean && !plan.force {
            (Stage::Failed, Action::Abort { reason: Failure::DirtyTree })
        } else {
            (Stage::Writing { next: 0 }, Action::Write { index: 0 })
        },
        (Stage::Writing { next }, Event::Written) => if next + 1 < plan.targets {
            (Stage::Writing { next: (next + 1) as usize }, Action::Write { index: (next + 1) as usize })
        } else {
            after_writes(plan)
        },
        (Stage::Committing, Event::Committed) => (Stage::Finished, Action::Report),
        (Stage::Inspecting, Event::Failed) => (
            Stage::Failed,
            Action::Abort { reason: Failure::Collaborator },
        ),
        (Stage::Writing { next }, Event::Failed) => (
            Stage::Failed,
            Action::Abort { reason: Failure::Collaborator },
        ),
        (Stage::Committing, Event::Failed) => (
            Stage::Failed,
            Action::Abort { reason: Failure::Collaborator },
        ),
        _ => (Stage::Failed, Action::Abort { reason: Failure::OutOfTurn }),
    }
}

/// The stage reached and the actions asked for, one for each event, when a
/// run that stands at `stage` meets `events` in order.
pub open spec fn run_from(plan: Plan, stage: Stage, events: Seq<Event>) -> (Stage, Seq<Action>)
    decreases events.len(),
{
    if events.len() == 0 {
        (stage, Seq::<Action>::empty())
    } else {
        let (before, actions) = run_from(plan, stage, events.drop_last());
        let (after, action) = step_spec(plan, before, events.last());
        (after, actions.push(action))
    }
}

/// The plan of a run with `targets` manifests, from the command line.
pub fn plan_for(args: &VersionArgs, targets: usize) -> (plan: Plan)
    ensures
        plan == (Plan {
            targets,
            dry_run: args.dry_run,
            git: !args.no_git_tag_version,
            force: args.force,
        }),
{
    Plan { targets, dry_run: args.dry_run, git: !args.no_git_tag_version, force: args.force }
}

/// The event that starts a run: the next version is known, and it is a change
/// exactly when it differs from the primary manifest's version.
pub fn resolved(new_version: &str, current_version: &str) -> (event: Event)
    ensures
        event == (Event::Resolved { changed: new_version@ != current_version@ }),
{
    Event::Resolved { changed: !same_text(new_version, current_version) }
}

/// The stage and the action that follow an event at a stage.
pub fn step(plan: &Plan, stage: Stage, event: Event) -> (r: (Stage, Action))
    requires
        plan.targets >= 1,
    ensures
        r == step_spec(*plan, stage, event),
{
    match stage {
        Stage::Start => match event {
            Event::Resolved { changed } => {
                if !changed {
                    (Stage::Finished, Action::Report)
                } else if plan.dry_run {
                    (Stage::Finished, Action::Preview)
                } else if plan.git {
                    (Stage::Inspecting, Action::Inspect { require_clean: !plan.force })
                } else {
                    (Stage::Writing { next: 0 }, Action::Write { index: 0 })
                }
            },
            _ => (Stage::Failed, Action::Abort { reason: Failure::OutOfTurn }),
        },
        Stage::Inspecting => match event {
            Event::Inspected { clean } => {
                if !clean && !plan.force {
                    (Stage::Failed, Action::Abort { reason: Failure::DirtyTree })
                } else {
                    (Stage::Writing { next: 0 }, Action::Write { index: 0 })
                }
            },
            Event::Failed => (Stage::Failed, Action::Abort { reason: Failure::Collaborator }),
            _ => (Stage::Failed, Action::Abort { reason: Failure::OutOfTurn }),
        },
        Stage::Writing { next } => match event {
            Event::Written => {
                if next < plan.targets - 1 {
                    (Stage::Writing { next: next + 1 }, Action::Write { index: next + 1 })
                } else if plan.git {
                    (Stage::Committing, Action::CommitAndTag { force: plan.force })
                } else {
                    (Stage::Finished, Action::Report)
                }
            },
            Event::Failed => (Stage::Failed, Action::Abort { reason: Failure::Collaborator }),
            _ => (Stage::Failed, Action::Abort { reason: Failure::OutOfTurn }),
        },
        Stage::Committing => match event {
            Event::Committed => (Stage::Finished, Action::Report),
            Event::Failed => (Stage::Failed, Action::Abort { reason: Failure::Collaborator }),
            _ => (Stage::Failed, Action::Abort { reason: Failure::OutOfTurn }),
        },
        _ => (Stage::Failed, Action::Abort { reason: Failure::OutOfTurn }),
    }
}

/// Why no manifest is in scope.
#[derive(Debug, Clone, Copy, PartialEq, Eq, Structural)]
pub enum TargetsError {
    /// The working directory holds neither `Cargo.toml` nor `package.json`.
    NoManifest,
}

/// The manifests found in the working directory, given which of the two
/// known ones exist there: `Cargo.toml` first, then `package.json`.
pub open spec fn detected(cargo: bool, package: bool) -> Seq<Seq<char>> {
    if cargo && package {
        seq!["Cargo.toml"@, "package.json"@]
    } else if cargo {
        seq!["Cargo.toml"@]
    } else if package {
        seq!["package.json"@]
    } else {
        Seq::<Seq<char>>::empty()
    }
}

/// The manifests of the working directory, every known one that exists
/// there, given which exist.
pub fn detect_targets(cargo_exists: bool, package_exists: bool) -> (r: Result<
    Vec<String>,
    TargetsError,
>)
    ensures
        match r {
            Ok(paths) => (cargo_exists || package_exists) && string_views(paths@) == detected(
                cargo_exists,
                package_exists,
            ),
            Err(e) => !cargo_exists && !package_exists,
        },
{
    let mut paths: Vec<String> = Vec::new();
    if cargo_exists {
        paths.push("Cargo.toml".to_owned());
    }
    if package_exists {
        paths.push("package.json".to_owned());
    }
    if paths.len() == 0 {
        return Err(TargetsError::NoManifest);
    }
    assert(string_views(paths@) == detected(cargo_exists, package_exists));
    Ok(paths)
}

/// Whether the `n` actions just before place `k` are the writes of the
/// manifests 0 to `n - 1` in order, each followed by the event that it was
/// done.
pub open spec fn writes_before(events: Seq<Event>, actions: Seq<Action>, k: int, n: int) -> bool {
    &&& n <= k
    &&& forall|j: int|
        0 <= j < n ==> #[trigger] actions[k - n + j] == (Action::Write { index: j as usize })
            && events[k - n + j + 1] == Event::Written
}

/// What holds of every run from the start, whatever the events.
pub open spec fn trace_inv(plan: Plan, events: Seq<Event>, stage: Stage, actions: Seq<Action>) -> bool {
    let len = actions.len() as int;
    &&& actions.len() == events.len()
    &&& stage matches Stage::Writing { next } ==> {
        &&& len >= 1
        &&& next < plan.targets
        &&& actions[len - 1] == (Action::Write { index: next })
        &&& writes_before(events, actions, len - 1, next as int)
    }
    &&& stage == Stage::Committing ==> len >= 1 && actions[len - 1] is CommitAndTag
    &&& stage == Stage::Inspecting ==> plan.git && !plan.dry_run
    &&& stage == Stage::Start ==> len == 0
    &&& forall|k: int|
        0 <= k < len && #[trigger] actions[k] is CommitAndTag ==> plan.git && writes_before(
            events,
            actions,
            k,
            plan.targets as int,
        )
    &&& forall|k: int|
        0 <= k < len && #[trigger] actions[k] is Write ==> !plan.dry_run && (plan.git && !plan.force
            && actions[k]->index == 0 ==> events[k] == (Event::Inspected { clean: true }))
    &&& forall|k: int|
        0 <= k < len && #[trigger] actions[k] is Inspect ==> !plan.dry_run && plan.git
}

/// Every run from the start keeps `trace_inv`.
pub proof fn lemma_trace(plan: Plan, events: Seq<Event>)
    requires
        plan.targets >= 1,
    ensures
        trace_inv(
            plan,
            events,
            run_from(plan, Stage::Start, events).0,
            run_from(plan, Stage::Start, events).1,
        ),
    decreases events.len(),
{
    if events.len() > 0 {
        let earlier = events.drop_last();
        lemma_trace(plan, earlier);
        let (before, done) = run_from(plan, Stage::Start, earlier);
        let (after, action) = step_spec(plan, before, events.last());
        let actions = done.push(action);
        let len = actions.len() as int;
        assert(run_from(plan, Stage::Start, events) == (after, actions));
        assert forall|k: int, n: int|
            0 <= k < len - 1 && writes_before(earlier, done, k, n) implies writes_before(
            events,
            actions,
            k,
            n,
        ) by {
            assert forall|j: int| 0 <= j < n implies #[trigger] actions[k - n + j] == (Action::Write {
                index: j as usize,
            }) && events[k - n + j + 1] == Event::Written by {
                assert(done[k - n + j] == actions[k - n + j]);
                assert(earlier[k - n + j + 1] == events[k - n + j + 1]);
            }
        }
        assert forall|k: int| 0 <= k < len - 1 implies actions[k] == done[k] && events[k]
            == earlier[k] by {}
        match before {
            Stage::Writing { next } => {
                if events.last() == Event::Written {
                    let grown = next as int + 1;
                    assert(writes_before(events, actions, len - 1, grown)) by {
                        assert forall|j: int| 0 <= j < grown implies #[trigger] actions[len - 1
                            - grown + j] == (Action::Write { index: j as usize }) && events[len - 1
                            - grown + j + 1] == Event::Written by {
                            if j < next {
                                assert(done[len - 2 - next + j] == (Action::Write {
                                    index: j as usize,
                                }));
                                assert(earlier[len - 2 - next + j + 1] == Event::Written);
                            }
                        }
                    }
                }
            },
            _ => {},
        }
    }
}

/// Commit and tag are asked for only after every manifest was written: the
/// actions just before are the writes of all manifests in order, each
/// followed by the event that it was done. A failed write therefore ends the
/// run before anything is staged.
pub proof fn lemma_commit_follows_all_writes(plan: Plan, events: Seq<Event>, k: int)
    requires
        plan.targets >= 1,
        0 <= k < events.len(),
        run_from(plan, Stage::Start, events).1[k] is CommitAndTag,
    ensures
        plan.git,
        writes_before(events, run_from(plan, Stage::Start, events).1, k, plan.targets as int),
{
    lemma_trace(plan, events);
}

/// A dry run asks for nothing that changes a file or the repository.
pub proof fn lemma_dry_run_changes_nothing(plan: Plan, events: Seq<Event>, k: int)
    requires
        plan.targets >= 1,
        plan.dry_run,
        0 <= k < events.len(),
    ensures
        !(run_from(plan, Stage::Start, events).1[k] is Write),
        !(run_from(plan, Stage::Start, events).1[k] is CommitAndTag),
        !(run_from(plan, Stage::Start, events).1[k] is Inspect),
{
    lemma_trace(plan, events);
    let actions = run_from(plan, Stage::Start, events).1;
    if actions[k] is CommitAndTag {
        let last = plan.targets as int - 1;
        assert(actions[k - plan.targets + last] == (Action::Write { index: last as usize }));
        assert(actions[k - 1] is Write);
    }
}

/// With the repository in play and `force` off, the first manifest is
/// written only in answer to the finding that the working tree is clean.
pub proof fn lemma_dirty_tree_blocks(plan: Plan, events: Seq<Event>, k: int)
    requires
        plan.targets >= 1,
        plan.git,
        !plan.force,
        0 <= k < events.len(),
        run_from(plan, Stage::Start, events).1[k] == (Action::Write { index: 0 }),
    ensures
        events[k] == (Event::Inspected { clean: true }),
{
    lemma_trace(plan, events);
}

/// A version that did not change ends the run at once with the report.
pub proof fn lemma_unchanged_is_no_op(plan: Plan)
    ensures
        step_spec(plan, Stage::Start, Event::Resolved { changed: false }) == (
            Stage::Finished,
            Action::Report,
        ),
{
}

} // verus!
