use oneup::cli::VersionArgs;
use oneup::run::{
    detect_targets, plan_for, resolved, step, Action, Event, Failure, Plan, Stage, TargetsError,
};

fn drive(plan: &Plan, events: &[Event]) -> (Stage, Vec<Action>) {
    let mut stage = Stage::Start;
    let mut actions = Vec::new();
    for event in events {
        let (next, action) = step(plan, stage, *event);
        stage = next;
        actions.push(action);
    }
    (stage, actions)
}

#[test]
fn full_run_writes_all_then_commits() {
    let plan = Plan { targets: 2, dry_run: false, git: true, force: false };
    let (stage, actions) = drive(
        &plan,
        &[
            Event::Resolved { changed: true },
            Event::Inspected { clean: true },
            Event::Written,
            Event::Written,
            Event::Committed,
        ],
    );
    assert_eq!(stage, Stage::Finished);
    assert_eq!(
        actions,
        vec![
            Action::Inspect { require_clean: true },
            Action::Write { index: 0 },
            Action::Write { index: 1 },
            Action::CommitAndTag { force: false },
            Action::Report,
        ]
    );
}

#[test]
fn failed_write_stops_before_the_commit() {
    let plan = Plan { targets: 3, dry_run: false, git: true, force: false };
    let (stage, actions) = drive(
        &plan,
        &[
            Event::Resolved { changed: true },
            Event::Inspected { clean: true },
            Event::Written,
            Event::Failed,
        ],
    );
    assert_eq!(stage, Stage::Failed);
    assert_eq!(actions.last(), Some(&Action::Abort { reason: Failure::Collaborator }));
    assert!(!actions.iter().any(|a| matches!(a, Action::CommitAndTag { .. })));
}

#[test]
fn dirty_tree_blocks_unless_forced() {
    let plan = Plan { targets: 1, dry_run: false, git: true, force: false };
    let (stage, actions) =
        drive(&plan, &[Event::Resolved { changed: true }, Event::Inspected { clean: false }]);
    assert_eq!(stage, Stage::Failed);
    assert_eq!(
        actions,
        vec![
            Action::Inspect { require_clean: true },
            Action::Abort { reason: Failure::DirtyTree },
        ]
    );

    let forced = Plan { targets: 1, dry_run: false, git: true, force: true };
    let (stage, actions) = drive(
        &forced,
        &[
            Event::Resolved { changed: true },
            Event::Inspected { clean: false },
            Event::Written,
            Event::Committed,
        ],
    );
    assert_eq!(stage, Stage::Finished);
    assert_eq!(
        actions,
        vec![
            Action::Inspect { require_clean: false },
            Action::Write { index: 0 },
            Action::CommitAndTag { force: true },
            Action::Report,
        ]
    );
}

#[test]
fn dry_run_changes_nothing() {
    let plan = Plan { targets: 2, dry_run: true, git: true, force: false };
    let (stage, actions) = drive(&plan, &[Event::Resolved { changed: true }]);
    assert_eq!(stage, Stage::Finished);
    assert_eq!(actions, vec![Action::Preview]);
}

#[test]
fn unchanged_version_only_reports() {
    for dry_run in [false, true] {
        let plan = Plan { targets: 2, dry_run, git: true, force: false };
        let (stage, actions) = drive(&plan, &[Event::Resolved { changed: false }]);
        assert_eq!(stage, Stage::Finished);
        assert_eq!(actions, vec![Action::Report]);
    }
}

#[test]
fn without_git_the_run_ends_after_the_writes() {
    let plan = Plan { targets: 2, dry_run: false, git: false, force: false };
    let (stage, actions) =
        drive(&plan, &[Event::Resolved { changed: true }, Event::Written, Event::Written]);
    assert_eq!(stage, Stage::Finished);
    assert_eq!(
        actions,
        vec![Action::Write { index: 0 }, Action::Write { index: 1 }, Action::Report]
    );
}

#[test]
fn events_out_of_turn_end_the_run() {
    let plan = Plan { targets: 1, dry_run: false, git: true, force: false };
    assert_eq!(
        step(&plan, Stage::Start, Event::Written),
        (Stage::Failed, Action::Abort { reason: Failure::OutOfTurn })
    );
    assert_eq!(
        step(&plan, Stage::Finished, Event::Committed),
        (Stage::Failed, Action::Abort { reason: Failure::OutOfTurn })
    );
    assert_eq!(
        step(&plan, Stage::Committing, Event::Failed),
        (Stage::Failed, Action::Abort { reason: Failure::Collaborator })
    );
    assert_eq!(
        step(&plan, Stage::Inspecting, Event::Failed),
        (Stage::Failed, Action::Abort { reason: Failure::Collaborator })
    );
}

#[test]
fn change_is_a_difference_of_text() {
    assert_eq!(resolved("26.2.1", "26.2.0"), Event::Resolved { changed: true });
    assert_eq!(resolved("26.2.0", "26.2.0"), Event::Resolved { changed: false });
    assert_eq!(resolved("26.2.0", "26.2"), Event::Resolved { changed: true });
}

#[test]
fn detection_finds_every_known_manifest() {
    assert_eq!(
        detect_targets(true, true),
        Ok(vec!["Cargo.toml".to_string(), "package.json".to_string()])
    );
    assert_eq!(detect_targets(true, false), Ok(vec!["Cargo.toml".to_string()]));
    assert_eq!(detect_targets(false, true), Ok(vec!["package.json".to_string()]));
    assert_eq!(detect_targets(false, false), Err(TargetsError::NoManifest));
}

#[test]
fn plan_comes_from_the_arguments() {
    let mut args = VersionArgs::defaults();
    assert_eq!(args.message, "%s");
    assert_eq!(args.format, "YY.MM.MICRO");
    assert!(args.target.is_empty());
    assert_eq!(plan_for(&args, 2), Plan { targets: 2, dry_run: false, git: true, force: false });
    args.no_git_tag_version = true;
    args.force = true;
    args.dry_run = true;
    assert_eq!(plan_for(&args, 1), Plan { targets: 1, dry_run: true, git: false, force: true });
}
