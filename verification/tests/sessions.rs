//! Whole-session behaviour: the per-file state machine, failure isolation,
//! dry-run equivalence and the end-to-end scenario.

use jrenamer::errors::RenameError;
use jrenamer::metadata::{StatInfo, StatProbe};
use jrenamer::session::{get_files, get_scripts, path_exists, Phase, RenameAction, Session};

fn probe_with_size(size: u64) -> StatProbe {
    StatProbe {
        absolute_path: None,
        stat: Some(StatInfo { accessed: None, created: None, modified: None, size }),
    }
}

/// Drives one session up to the rendered name, feeding each script's
/// pre-arranged (exit status, output) observation in order.
fn drive(path: &str, scripts: &[(&str, bool, &str)], template: &str) -> Session {
    let names: Vec<String> = scripts.iter().map(|s| s.0.to_string()).collect();
    let mut session = Session::new(path.to_string(), names);
    session.observe_existence(true);
    if session.phase != Phase::ExistenceChecked {
        return session;
    }
    session.seed_metadata(probe_with_size(42));
    if session.phase != Phase::MetadataSeeded {
        return session;
    }
    let mut next = 0;
    while let Some(pending) = session.pending_script() {
        let (name, exit_ok, output) = scripts[next];
        assert_eq!(pending, name);
        session.absorb_script(exit_ok, output);
        if session.phase != Phase::MetadataSeeded {
            return session;
        }
        next += 1;
    }
    session.complete_scripts();
    session.apply_template(template);
    session
}

#[test]
fn end_to_end_report_txt() {
    let session = drive("report.txt", &[], "{filename}_{filesize}.{extension}");
    assert_eq!(session.phase, Phase::Rendered);
    assert_eq!(session.rendered, Some("report_42.txt".to_string()));
    // The seeded filename fragment holds the stem, so the template above
    // rebuilds the full shape of the name around the size.
    assert_eq!(
        session.store.get(&"filename".to_string()),
        Some(&"report".to_string())
    );
}

#[test]
fn missing_file_aborts_before_any_fragment() {
    let mut session = Session::new("ghost.txt".to_string(), Vec::new());
    session.observe_existence(false);
    assert_eq!(session.phase, Phase::Aborted);
    assert_eq!(session.failure, Some(RenameError::MetadataUnavailable));
    assert_eq!(session.store.len(), 0);
}

#[test]
fn failed_script_aborts_only_its_own_file() {
    let failing = drive("first.txt", &[("broken.sh", false, "")], "{filename}");
    assert_eq!(failing.phase, Phase::Aborted);
    assert_eq!(
        failing.failure,
        Some(RenameError::ScriptExecutionFailed("broken.sh".to_string()))
    );

    // A second, independent file in the same run is still fully processed.
    let healthy = drive("second.txt", &[("fine.sh", true, "tag=ok\n")], "{tag}-{filename}");
    assert_eq!(healthy.phase, Phase::Rendered);
    assert_eq!(healthy.rendered, Some("ok-second".to_string()));
}

#[test]
fn scripts_override_in_order() {
    let session = drive(
        "song.mp3",
        &[("a.sh", true, "k=from-a\n"), ("b.sh", true, "k=from-b\n")],
        "{k}",
    );
    assert_eq!(session.rendered, Some("from-b".to_string()));
    let swapped = drive(
        "song.mp3",
        &[("b.sh", true, "k=from-b\n"), ("a.sh", true, "k=from-a\n")],
        "{k}",
    );
    assert_eq!(swapped.rendered, Some("from-a".to_string()));
}

#[test]
fn unresolved_placeholder_aborts_render() {
    let session = drive("report.txt", &[], "{nonexistent}");
    assert_eq!(session.phase, Phase::Aborted);
    assert_eq!(
        session.failure,
        Some(RenameError::UnresolvedPlaceholder("nonexistent".to_string()))
    );
    assert_eq!(session.rendered, None);
}

#[test]
fn dry_run_reports_exactly_the_real_pair() {
    let template = "{filename}_{filesize}.{extension}";
    let mut dry = drive("report.txt", &[], template);
    let real = drive("report.txt", &[], template);

    let reported = match dry.decide(true) {
        RenameAction::Report(src, dst) => (src, dst),
        RenameAction::Perform(..) => panic!("dry-run must not perform"),
    };
    let performed = match real.decide(false) {
        RenameAction::Perform(src, dst) => (src, dst),
        RenameAction::Report(..) => panic!("real mode must not merely report"),
    };
    assert_eq!(reported, performed);
    assert_eq!(reported, ("report.txt".to_string(), "report_42.txt".to_string()));

    dry.report_dry_run();
    assert_eq!(dry.phase, Phase::DryRunReported);
}

#[test]
fn rename_outcome_finishes_or_aborts() {
    let mut renamed = drive("report.txt", &[], "{filename}.bak");
    renamed.observe_rename(true);
    assert_eq!(renamed.phase, Phase::Renamed);

    let mut failed = drive("report.txt", &[], "{filename}.bak");
    failed.observe_rename(false);
    assert_eq!(failed.phase, Phase::Aborted);
    assert_eq!(failed.failure, Some(RenameError::RenameFailed));
}

#[test]
fn metadata_failure_skips_file() {
    let mut session = Session::new("dir/..".to_string(), Vec::new());
    session.observe_existence(true);
    session.seed_metadata(probe_with_size(1));
    assert_eq!(session.phase, Phase::Aborted);
    assert_eq!(session.failure, Some(RenameError::NotAFile));

    let mut unreadable = Session::new("locked.txt".to_string(), Vec::new());
    unreadable.observe_existence(true);
    unreadable.seed_metadata(StatProbe { absolute_path: None, stat: None });
    assert_eq!(unreadable.phase, Phase::Aborted);
    assert_eq!(unreadable.failure, Some(RenameError::MetadataUnavailable));
}

#[test]
fn path_exists_validates_scripts() {
    assert_eq!(path_exists("there.sh".to_string(), true), Ok("there.sh".to_string()));
    assert_eq!(
        path_exists("gone.sh".to_string(), false),
        Err(RenameError::ScriptNotFound("gone.sh".to_string()))
    );
}

#[test]
fn get_scripts_drops_missing_and_keeps_order() {
    let probed = vec![
        ("one.sh".to_string(), true),
        ("gone.sh".to_string(), false),
        ("two.sh".to_string(), true),
    ];
    let resolved = get_scripts(probed);
    assert_eq!(resolved, vec!["one.sh".to_string(), "two.sh".to_string()]);
    assert_eq!(get_scripts(Vec::new()), Vec::<String>::new());
}

#[test]
fn get_files_requires_at_least_one_input() {
    assert_eq!(get_files(Vec::new()), Err(RenameError::NoInput));
    assert_eq!(
        get_files(vec!["a.txt".to_string()]),
        Ok(vec!["a.txt".to_string()])
    );
}
