//! The per-file session: one file's journey from existence check to rename
//! or dry-run report.
//!
//! The session is a state machine. The caller performs the outside work —
//! checking existence, reading the stat data, running each script,
//! performing the rename — and feeds every observation in; the session
//! makes all decisions and gathers the fragments. A failure puts the
//! session into the terminal `Aborted` phase with the error recorded;
//! sessions share nothing, so one file's abort leaves every other file's
//! session untouched.

use vstd::prelude::*;

use crate::errors::RenameError;
use crate::fragments::FragmentStore;
use crate::metadata::{extract, seed_from_metadata, seeded, spec_extract, StatProbe};
use crate::script::{absorb_script_output, absorbed};
use crate::template::{render, spec_render};

verus! {

/// The stages a session passes through, in order; `Aborted` is terminal and
/// reachable from any working stage that observes a failure.
#[derive(Clone, Copy, Debug, PartialEq, Eq, Structural)]
pub enum Phase {
    /// Created; nothing observed yet.
    Start,
    /// The file was seen to exist.
    ExistenceChecked,
    /// Metadata fragments are in the store.
    MetadataSeeded,
    /// Every configured script has run and been absorbed.
    ScriptsRun,
    /// The new name has been computed.
    Rendered,
    /// The rename was performed.
    Renamed,
    /// Dry-run: the would-be rename was reported instead of performed.
    DryRunReported,
    /// Processing of this file ended early; the failure is recorded.
    Aborted,
}

/// One file being processed: its path, the scripts still to run, and the
/// fragments gathered so far.
pub struct Session {
    /// The path as the caller provided it.
    pub path: String,
    /// The resolved script list, shared verbatim by every session of a run.
    pub scripts: Vec<String>,
    /// How many scripts have been absorbed already.
    pub next_script: usize,
    /// The fragments gathered for this file.
    pub store: FragmentStore,
    /// The rendered new name, once the template has been applied.
    pub rendered: Option<String>,
    /// The failure that ended the session, if it aborted.
    pub failure: Option<RenameError>,
    /// Where in the lifecycle the session stands.
    pub phase: Phase,
}

impl Session {
    /// The session's internal consistency: the store is well-formed, the
    /// script cursor is in range, a rendered session has a name and an
    /// aborted one has a failure.
    pub open spec fn wf(&self) -> bool {
        &&& self.store.wf()
        &&& self.next_script <= self.scripts@.len()
        &&& (self.phase == Phase::Rendered || self.phase == Phase::Renamed || self.phase
            == Phase::DryRunReported) ==> self.rendered is Some
        &&& self.phase == Phase::Aborted ==> self.failure is Some
    }

    /// Opens a session for one file with an empty store.
    pub fn new(path: String, scripts: Vec<String>) -> (s: Session)
        ensures
            s.wf(),
            s.phase == Phase::Start,
            s.path == path,
            s.scripts == scripts,
            s.next_script == 0,
            s.store@ == Seq::<(Seq<char>, Seq<char>)>::empty(),
            s.rendered is None,
            s.failure is None,
    {
        Session {
            path,
            scripts,
            next_script: 0,
            store: FragmentStore::new(),
            rendered: None,
            failure: None,
            phase: Phase::Start,
        }
    }

    /// Feeds the external existence check. A missing file skips the
    /// session: it aborts with `MetadataUnavailable` before any fragment is
    /// gathered, and no later stage runs for it.
    pub fn observe_existence(&mut self, exists: bool)
        requires
            old(self).wf(),
            old(self).phase == Phase::Start,
        ensures
            final(self).wf(),
            exists ==> *final(self) == (Session { phase: Phase::ExistenceChecked, ..*old(self) }),
            !exists ==> *final(self) == (Session {
                phase: Phase::Aborted,
                failure: Some(RenameError::MetadataUnavailable),
                ..*old(self)
            }),
    {
        if exists {
            self.phase = Phase::ExistenceChecked;
        } else {
            self.failure = Some(RenameError::MetadataUnavailable);
            self.phase = Phase::Aborted;
        }
    }

    /// Extracts metadata from the caller's observation and seeds the store
    /// with it. A path without a filename aborts with `NotAFile`; a missing
    /// stat aborts with `MetadataUnavailable`; either way the store is left
    /// untouched and the session ends.
    pub fn seed_metadata(&mut self, probe: StatProbe)
        requires
            old(self).wf(),
            old(self).phase == Phase::ExistenceChecked,
        ensures
            final(self).wf(),
            final(self).path == old(self).path,
            final(self).scripts == old(self).scripts,
            final(self).next_script == old(self).next_script,
            final(self).rendered == old(self).rendered,
            match spec_extract(old(self).path@, probe@) {
                Ok(m) => final(self).phase == Phase::MetadataSeeded && final(self).store@
                    == seeded(old(self).store@, m) && final(self).failure == old(self).failure,
                Err(e) => final(self).phase == Phase::Aborted
                    && final(self).store@ == old(self).store@
                    && final(self).failure == Some(e),
            },
    {
        match extract(&self.path, probe) {
            Ok(m) => {
                seed_from_metadata(&mut self.store, &m);
                self.phase = Phase::MetadataSeeded;
            },
            Err(e) => {
                self.failure = Some(e);
                self.phase = Phase::Aborted;
            },
        }
    }

    /// The next script to run against this file, if any are left.
    pub fn pending_script(&self) -> (r: Option<String>)
        requires
            self.wf(),
            self.phase == Phase::MetadataSeeded,
        ensures
            match r {
                Some(s) => self.next_script < self.scripts@.len() && s
                    == self.scripts@[self.next_script as int],
                None => self.next_script == self.scripts@.len(),
            },
    {
        if self.next_script < self.scripts.len() {
            Some(self.scripts[self.next_script].clone())
        } else {
            None
        }
    }

    /// Feeds one script's exit status and captured standard output. On
    /// success the reported fragments are folded into the store, in
    /// emission order, and the cursor advances; a non-zero exit aborts the
    /// session with `ScriptExecutionFailed` naming the script, leaving the
    /// store untouched.
    pub fn absorb_script(&mut self, exit_ok: bool, output: &str)
        requires
            old(self).wf(),
            old(self).phase == Phase::MetadataSeeded,
            old(self).next_script < old(self).scripts@.len(),
        ensures
            final(self).wf(),
            final(self).path == old(self).path,
            final(self).scripts == old(self).scripts,
            final(self).rendered == old(self).rendered,
            exit_ok ==> final(self).phase == Phase::MetadataSeeded && final(self).next_script
                == old(self).next_script + 1 && final(self).store@ == absorbed(
                old(self).store@,
                output@,
            ) && final(self).failure == old(self).failure,
            !exit_ok ==> final(self).phase == Phase::Aborted
                && final(self).store@ == old(self).store@
                && final(self).next_script == old(self).next_script
                && (match final(self).failure {
                    Some(e) => e matches RenameError::ScriptExecutionFailed(s)
                        && s@ == old(self).scripts@[old(self).next_script as int]@,
                    None => false,
                }),
    {
        let script = self.scripts[self.next_script].clone();
        match absorb_script_output(&mut self.store, &script, exit_ok, output) {
            Ok(()) => {
                let bound = self.scripts.len();
                assert(self.next_script < bound);
                self.next_script = self.next_script + 1;
            },
            Err(e) => {
                self.failure = Some(e);
                self.phase = Phase::Aborted;
            },
        }
    }

    /// Marks the script stage finished once no scripts are pending.
    pub fn complete_scripts(&mut self)
        requires
            old(self).wf(),
            old(self).phase == Phase::MetadataSeeded,
            old(self).next_script == old(self).scripts@.len(),
        ensures
            final(self).wf(),
            *final(self) == (Session { phase: Phase::ScriptsRun, ..*old(self) }),
    {
        self.phase = Phase::ScriptsRun;
    }

    /// Renders the template against the gathered fragments and stores the
    /// resulting name. An unresolvable placeholder aborts the session with
    /// `UnresolvedPlaceholder` naming the key; no partial name is kept.
    pub fn apply_template(&mut self, template: &str)
        requires
            old(self).wf(),
            old(self).phase == Phase::ScriptsRun,
        ensures
            final(self).wf(),
            final(self).path == old(self).path,
            final(self).scripts == old(self).scripts,
            final(self).next_script == old(self).next_script,
            final(self).store == old(self).store,
            match spec_render(template@, old(self).store@) {
                Ok(name) => final(self).phase == Phase::Rendered && (match final(self).rendered {
                    Some(r) => r@ == name,
                    None => false,
                }) && final(self).failure == old(self).failure,
                Err(k) => final(self).phase == Phase::Aborted
                    && final(self).rendered == old(self).rendered
                    && (match final(self).failure {
                    Some(e) => e matches RenameError::UnresolvedPlaceholder(s) && s@ == k,
                    None => false,
                }),
            },
    {
        match render(template, &self.store) {
            Ok(name) => {
                self.rendered = Some(name);
                self.phase = Phase::Rendered;
            },
            Err(e) => {
                self.failure = Some(e);
                self.phase = Phase::Aborted;
            },
        }
    }

    /// The decision at the end of a rendered session: dry-run reports, real
    /// mode performs, and both act on the session's planned pair.
    pub fn decide(&self, dry_run: bool) -> (r: RenameAction)
        requires
            self.wf(),
            self.phase == Phase::Rendered,
        ensures
            r@ == spec_decide(*self, dry_run),
    {
        let source = self.path.clone();
        let destination = match &self.rendered {
            Some(name) => name.clone(),
            None => {
                proof {
                    assert(false);
                }
                String::new()
            },
        };
        if dry_run {
            RenameAction::Report(source, destination)
        } else {
            RenameAction::Perform(source, destination)
        }
    }

    /// Records that the dry-run report was emitted. Nothing else changes:
    /// the store, the path and the planned name are untouched, and no
    /// filesystem mutation is requested.
    pub fn report_dry_run(&mut self)
        requires
            old(self).wf(),
            old(self).phase == Phase::Rendered,
        ensures
            final(self).wf(),
            *final(self) == (Session { phase: Phase::DryRunReported, ..*old(self) }),
    {
        self.phase = Phase::DryRunReported;
    }

    /// Feeds the outcome of the external rename call: success finishes the
    /// session, failure aborts it with `RenameFailed`.
    pub fn observe_rename(&mut self, ok: bool)
        requires
            old(self).wf(),
            old(self).phase == Phase::Rendered,
        ensures
            final(self).wf(),
            ok ==> *final(self) == (Session { phase: Phase::Renamed, ..*old(self) }),
            !ok ==> *final(self) == (Session {
                phase: Phase::Aborted,
                failure: Some(RenameError::RenameFailed),
                ..*old(self)
            }),
    {
        if ok {
            self.phase = Phase::Renamed;
        } else {
            self.failure = Some(RenameError::RenameFailed);
            self.phase = Phase::Aborted;
        }
    }
}

/// What the orchestrator is to do with a rendered session: perform the
/// rename, or only report it.
pub enum RenameAction {
    /// Really rename the first path to the second.
    Perform(String, String),
    /// Dry-run: report that the first path would become the second.
    Report(String, String),
}

/// The mathematical content of a [`RenameAction`].
#[verifier::ext_equal]
pub enum ActionView {
    /// The pair to rename.
    Perform((Seq<char>, Seq<char>)),
    /// The pair to report.
    Report((Seq<char>, Seq<char>)),
}

impl View for RenameAction {
    type V = ActionView;

    open spec fn view(&self) -> ActionView {
        match self {
            RenameAction::Perform(s, d) => ActionView::Perform((s@, d@)),
            RenameAction::Report(s, d) => ActionView::Report((s@, d@)),
        }
    }
}

/// The (source, destination) pair an action acts on.
pub open spec fn action_pair(a: ActionView) -> (Seq<char>, Seq<char>) {
    match a {
        ActionView::Perform(p) => p,
        ActionView::Report(p) => p,
    }
}

/// The pair a rendered session plans: its source path and rendered name.
pub open spec fn spec_planned_pair(s: Session) -> (Seq<char>, Seq<char>)
    recommends
        s.rendered is Some,
{
    (s.path@, s.rendered.unwrap()@)
}

/// The decision function behind [`Session::decide`]: the mode picks only
/// the action's kind, never its pair.
pub open spec fn spec_decide(s: Session, dry_run: bool) -> ActionView {
    if dry_run {
        ActionView::Report(spec_planned_pair(s))
    } else {
        ActionView::Perform(spec_planned_pair(s))
    }
}

/// Dry-run performs no mutation and hides none: for any session, the pair
/// dry-run mode reports is exactly the pair real mode would rename.
pub proof fn lemma_dry_run_matches_real(s: Session)
    ensures
        action_pair(spec_decide(s, true)) == action_pair(spec_decide(s, false)),
{
}

/// Validates one configured script path against the caller's existence
/// check, as the script list is resolved at startup: a missing script is
/// reported as `ScriptNotFound` so it can be dropped with a warning.
pub fn path_exists(path: String, exists: bool) -> (r: Result<String, RenameError>)
    ensures
        exists ==> r == Ok::<String, RenameError>(path),
        !exists ==> (match r {
            Ok(_) => false,
            Err(e) => e matches RenameError::ScriptNotFound(p) && p == path,
        }),
{
    if exists {
        Ok(path)
    } else {
        Err(RenameError::ScriptNotFound(path))
    }
}

/// The script paths that exist, in configuration order: what remains of the
/// configured list after the missing ones are dropped.
pub open spec fn existing_paths(probed: Seq<(Seq<char>, bool)>) -> Seq<Seq<char>>
    decreases probed.len(),
{
    if probed.len() == 0 {
        Seq::empty()
    } else {
        let rest = existing_paths(probed.drop_first());
        if probed[0].1 {
            seq![probed[0].0] + rest
        } else {
            rest
        }
    }
}

/// The view of a probed script list: each configured path with whether it
/// exists.
pub open spec fn probed_view(probed: Seq<(String, bool)>) -> Seq<(Seq<char>, bool)> {
    probed.map_values(|pb: (String, bool)| (pb.0@, pb.1))
}

/// Resolves the configured script list once at startup: each path comes
/// with the caller's existence check, missing ones are dropped (the caller
/// warns about them), and the order of the remaining ones is kept.
pub fn get_scripts(probed: Vec<(String, bool)>) -> (r: Vec<String>)
    ensures
        r@.map_values(|s: String| s@) == existing_paths(probed_view(probed@)),
{
    let n = probed.len();
    let mut r: Vec<String> = Vec::new();
    let mut i: usize = 0;
    proof {
        assert(probed_view(probed@).skip(0) =~= probed_view(probed@));
        assert(r@.map_values(|s: String| s@) =~= Seq::<Seq<char>>::empty());
        assert(Seq::<Seq<char>>::empty() + existing_paths(probed_view(probed@))
            =~= existing_paths(probed_view(probed@)));
    }
    while i < n
        invariant
            i <= n,
            n == probed@.len(),
            existing_paths(probed_view(probed@)) == r@.map_values(|s: String| s@)
                + existing_paths(probed_view(probed@).skip(i as int)),
        decreases n - i,
    {
        proof {
            assert(probed_view(probed@).skip(i as int)[0] == probed_view(probed@)[i as int]);
            assert(probed_view(probed@).skip(i as int).drop_first() =~= probed_view(
                probed@,
            ).skip(i as int + 1));
        }
        let entry = &probed[i];
        if entry.1 {
            let ghost before = r@.map_values(|s: String| s@);
            r.push(entry.0.clone());
            proof {
                assert(r@.map_values(|s: String| s@) =~= before.push(probed@[i as int].0@));
                assert(before + (seq![probed_view(probed@)[i as int].0] + existing_paths(
                    probed_view(probed@).skip(i as int + 1),
                )) =~= r@.map_values(|s: String| s@) + existing_paths(
                    probed_view(probed@).skip(i as int + 1),
                ));
            }
        }
        i += 1;
    }
    proof {
        assert(probed_view(probed@).skip(n as int) =~= Seq::<(Seq<char>, bool)>::empty());
        assert(r@.map_values(|s: String| s@) + Seq::<Seq<char>>::empty() =~= r@.map_values(
            |s: String| s@,
        ));
    }
    r
}

/// Checks the input list once at startup: a run with no input files at all
/// is the one run-fatal error; any non-empty list passes through unchanged.
pub fn get_files(inputs: Vec<String>) -> (r: Result<Vec<String>, RenameError>)
    ensures
        inputs@.len() > 0 ==> r == Ok::<Vec<String>, RenameError>(inputs),
        inputs@.len() == 0 ==> r == Err::<Vec<String>, RenameError>(RenameError::NoInput),
{
    if inputs.len() > 0 {
        Ok(inputs)
    } else {
        Err(RenameError::NoInput)
    }
}

} // verus!
