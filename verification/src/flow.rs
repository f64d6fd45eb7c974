//! The installer's screens and the work they start: the record of a running
//! task, what the final screen says, and where a request from the welcome
//! screen leads.

use std::path::PathBuf;
use vstd::prelude::*;
use crate::text::string_views;
use crate::welcome::WelcomeAction;

verus! {

/// The task that the installer runs.
#[derive(Clone, Copy, PartialEq, Eq, Structural, Debug)]
pub enum Operation {
    Install,
    Update,
    Uninstall,
}

/// The final screen: how the task ended.
pub struct DoneState {
    pub success: bool,
    pub message: String,
    pub install_dir: PathBuf,
    pub operation: Operation,
}

/// A report from a running task. The fraction done that a step reports is
/// kept by the caller; it does not enter this record.
pub enum ProgressEvent {
    /// A line for the log.
    Log(String),
    /// The task moved on.
    Step,
    /// The task completed.
    Done,
    /// The task failed, for the given reason.
    Error(String),
}

/// The record of a running task: its log, whether it has ended, and the
/// reason it failed, if it did.
pub struct ProgressStatus {
    pub log: Vec<String>,
    pub finished: bool,
    pub error: Option<String>,
}

/// The content of a progress record: log lines, finished, failure reason.
pub type ProgressView = (Seq<Seq<char>>, bool, Option<Seq<char>>);

/// The view of an optional string.
pub open spec fn opt_string_view(s: Option<String>) -> Option<Seq<char>> {
    match s {
        Some(t) => Some(t@),
        None => None,
    }
}

impl View for ProgressStatus {
    type V = ProgressView;

    open spec fn view(&self) -> ProgressView {
        (string_views(self.log@), self.finished, opt_string_view(self.error))
    }
}

/// The record after one report: a log line is appended; a step changes
/// nothing here; completion ends the task; a failure ends it and keeps the
/// reason.
pub open spec fn after_event(v: ProgressView, e: ProgressEvent) -> ProgressView {
    match e {
        ProgressEvent::Log(s) => (v.0.push(s@), v.1, v.2),
        ProgressEvent::Step => v,
        ProgressEvent::Done => (v.0, true, v.2),
        ProgressEvent::Error(r) => (v.0, true, Some(r@)),
    }
}

/// The record after a series of reports, in order.
pub open spec fn after_events(v: ProgressView, es: Seq<ProgressEvent>) -> ProgressView
    decreases es.len(),
{
    if es.len() == 0 {
        v
    } else {
        after_event(after_events(v, es.drop_last()), es.last())
    }
}

/// The log lines that a series of reports carries, in order.
pub open spec fn logged_lines(es: Seq<ProgressEvent>) -> Seq<Seq<char>>
    decreases es.len(),
{
    if es.len() == 0 {
        Seq::empty()
    } else {
        let rest = logged_lines(es.drop_last());
        match es.last() {
            ProgressEvent::Log(s) => rest.push(s@),
            _ => rest,
        }
    }
}

/// A record in which a failure has always ended the task.
pub open spec fn consistent(v: ProgressView) -> bool {
    v.2 is Some ==> v.1
}

impl ProgressStatus {
    /// The record of a task that has just started.
    pub fn new() -> (s: Self)
        ensures
            s@ == (Seq::<Seq<char>>::empty(), false, None::<Seq<char>>),
    {
        let s = ProgressStatus { log: Vec::new(), finished: false, error: None };
        assert(string_views(s.log@) =~= Seq::<Seq<char>>::empty());
        s
    }

    /// Takes in one report (see `after_event`).
    pub fn apply(&mut self, e: ProgressEvent)
        ensures
            final(self)@ == after_event(old(self)@, e),
    {
        match e {
            ProgressEvent::Log(s) => {
                let ghost before = string_views(self.log@);
                let ghost sv = s@;
                self.log.push(s);
                assert(string_views(self.log@) =~= before.push(sv));
            },
            ProgressEvent::Step => {},
            ProgressEvent::Done => {
                self.finished = true;
            },
            ProgressEvent::Error(r) => {
                self.error = Some(r);
                self.finished = true;
            },
        }
    }

    /// How long to wait before drawing the progress screen again: at once
    /// (`None`) when the task has ended, else 50 milliseconds.
    pub fn repaint_after_ms(&self) -> (d: Option<u64>)
        ensures
            d == (if self.finished {
                None
            } else {
                Some(50u64)
            }),
    {
        if self.finished {
            None
        } else {
            Some(50)
        }
    }
}

/// The word for a task in a failure message.
pub open spec fn task_word(op: Operation) -> Seq<char> {
    match op {
        Operation::Install => "Installation"@,
        Operation::Update => "Update"@,
        Operation::Uninstall => "Uninstall"@,
    }
}

/// What the final screen says: the success line of the task, or the task,
/// "failed:", a line break and the reason.
pub open spec fn done_message(op: Operation, error: Option<Seq<char>>) -> Seq<char> {
    match error {
        None => match op {
            Operation::Install => "Kadr was installed successfully!"@,
            Operation::Update => "Kadr was updated successfully!"@,
            Operation::Uninstall => "Kadr was uninstalled successfully."@,
        },
        Some(e) => task_word(op) + " failed:\n"@ + e,
    }
}

/// The final screen of a task, from its record: it succeeded exactly when
/// no failure was reported.
pub fn conclude(status: &ProgressStatus, operation: Operation, install_dir: PathBuf) -> (d: DoneState)
    ensures
        d.success == (status.error is None),
        d.message@ == done_message(operation, opt_string_view(status.error)),
        d.operation == operation,
        d.install_dir == install_dir,
{
    let message = match &status.error {
        None => match operation {
            Operation::Install => String::from_str("Kadr was installed successfully!"),
            Operation::Update => String::from_str("Kadr was updated successfully!"),
            Operation::Uninstall => String::from_str("Kadr was uninstalled successfully."),
        },
        Some(e) => {
            let mut m = match operation {
                Operation::Install => String::from_str("Installation"),
                Operation::Update => String::from_str("Update"),
                Operation::Uninstall => String::from_str("Uninstall"),
            };
            m.append(" failed:\n");
            m.append(e.as_str());
            m
        },
    };
    DoneState { success: status.error.is_none(), message, install_dir, operation }
}

/// Whether reaching this final screen means Kadr is no longer installed:
/// exactly after a successful uninstallation.
pub fn clears_existing_install(done: &DoneState) -> (b: bool)
    ensures
        b == (done.operation == Operation::Uninstall && done.success),
{
    done.operation == Operation::Uninstall && done.success
}

/// Where a request from the welcome screen leads.
pub enum Transition {
    /// Nothing happens.
    Stay,
    /// The screen of installation options.
    ToOptions,
    /// The progress screen of the task, which starts.
    Start(Operation),
    /// The download of the newest installer starts in the background.
    DownloadInstaller,
    /// The downloaded installer starts and this one exits.
    LaunchInstaller(PathBuf),
}

/// Where each request leads: an update or an uninstallation needs an
/// installed copy and otherwise does nothing.
pub open spec fn transition_of(action: WelcomeAction, has_existing: bool) -> Transition {
    match action {
        WelcomeAction::RunUpdate => if has_existing {
            Transition::Start(Operation::Update)
        } else {
            Transition::Stay
        },
        WelcomeAction::DownloadInstaller => Transition::DownloadInstaller,
        WelcomeAction::LaunchInstallerAndExit(p) => Transition::LaunchInstaller(p),
        WelcomeAction::GoInstall => Transition::ToOptions,
        WelcomeAction::GoUninstall => if has_existing {
            Transition::Start(Operation::Uninstall)
        } else {
            Transition::Stay
        },
    }
}

/// Where a request from the welcome screen leads (see `transition_of`).
pub fn welcome_transition(action: WelcomeAction, has_existing: bool) -> (t: Transition)
    ensures
        t == transition_of(action, has_existing),
{
    match action {
        WelcomeAction::RunUpdate => if has_existing {
            Transition::Start(Operation::Update)
        } else {
            Transition::Stay
        },
        WelcomeAction::DownloadInstaller => Transition::DownloadInstaller,
        WelcomeAction::LaunchInstallerAndExit(p) => Transition::LaunchInstaller(p),
        WelcomeAction::GoInstall => Transition::ToOptions,
        WelcomeAction::GoUninstall => if has_existing {
            Transition::Start(Operation::Uninstall)
        } else {
            Transition::Stay
        },
    }
}

/// The version line of the header: Kadr's newest version (`…` until it is
/// known) and the installer's own.
pub fn header_version_text(kadr_version: Option<&str>, installer_version: &str) -> (s: String)
    ensures
        s@ == "kadr v"@ + (match kadr_version {
            Some(v) => v@,
            None => "…"@,
        }) + "   installer v"@ + installer_version@,
{
    let mut s = String::from_str("kadr v");
    match kadr_version {
        Some(v) => s.append(v),
        None => s.append("…"),
    }
    s.append("   installer v");
    s.append(installer_version);
    s
}

/// The patch notes to show: those fetched, or a note that they could not be
/// loaded.
pub fn patchnotes_or_fallback(fetched: Option<String>) -> (s: String)
    ensures
        s@ == (match fetched {
            Some(t) => t@,
            None => "• Could not load patch notes"@,
        }),
{
    match fetched {
        Some(t) => t,
        None => String::from_str("• Could not load patch notes"),
    }
}

/// A failure always ends the task: from a record where that holds, it
/// holds after any series of reports.
pub proof fn lemma_failure_ends_task(v: ProgressView, es: Seq<ProgressEvent>)
    requires
        consistent(v),
    ensures
        consistent(after_events(v, es)),
    decreases es.len(),
{
    if es.len() > 0 {
        lemma_failure_ends_task(v, es.drop_last());
    }
}

/// An ended task stays ended, whatever is reported after.
pub proof fn lemma_finished_stays_finished(v: ProgressView, es: Seq<ProgressEvent>)
    requires
        v.1,
    ensures
        after_events(v, es).1,
    decreases es.len(),
{
    if es.len() > 0 {
        lemma_finished_stays_finished(v, es.drop_last());
    }
}

/// The log only grows: after a series of reports it is the log before,
/// followed by the lines that the reports carried, in their order.
pub proof fn lemma_log_appends(v: ProgressView, es: Seq<ProgressEvent>)
    ensures
        after_events(v, es).0 == v.0 + logged_lines(es),
    decreases es.len(),
{
    if es.len() == 0 {
        assert(v.0 + logged_lines(es) =~= v.0);
    } else {
        lemma_log_appends(v, es.drop_last());
        match es.last() {
            ProgressEvent::Log(s) => {
                assert(v.0 + logged_lines(es) =~= (v.0 + logged_lines(es.drop_last())).push(s@));
            },
            _ => {},
        }
    }
}

/// An update or an uninstallation starts only when Kadr is installed; an
/// installation never starts from the welcome screen itself.
pub proof fn lemma_tasks_need_installation(action: WelcomeAction, has_existing: bool)
    ensures
        transition_of(action, has_existing) matches Transition::Start(op) ==> has_existing && op
            != Operation::Install,
{
}

/// The sum of a sequence of sizes.
pub open spec fn sum_of(sizes: Seq<u64>) -> nat
    decreases sizes.len(),
{
    if sizes.len() == 0 {
        0
    } else {
        sum_of(sizes.drop_last()) + sizes.last() as nat
    }
}

/// The total download size of the files, `None` when it does not fit in a
/// `u64`.
pub fn total_size(sizes: &Vec<u64>) -> (t: Option<u64>)
    ensures
        t is Some <==> sum_of(sizes@) <= u64::MAX,
        t matches Some(v) ==> v == sum_of(sizes@),
{
    let mut total: u64 = 0;
    let mut i: usize = 0;
    assert(sizes@.take(0) =~= Seq::<u64>::empty());
    while i < sizes.len()
        invariant
            i <= sizes@.len(),
            total == sum_of(sizes@.take(i as int)),
        decreases sizes@.len() - i,
    {
        assert(sizes@.take(i + 1).drop_last() =~= sizes@.take(i as int));
        if sizes[i] > u64::MAX - total {
            proof {
                lemma_sum_prefix_bound(sizes@, i + 1);
            }
            return None;
        }
        total = total + sizes[i];
        i = i + 1;
    }
    assert(sizes@.take(sizes@.len() as int) =~= sizes@);
    Some(total)
}

/// A longer prefix never sums to less.
proof fn lemma_sum_prefix_bound(s: Seq<u64>, k: int)
    requires
        0 <= k <= s.len(),
    ensures
        sum_of(s.take(k)) <= sum_of(s),
    decreases s.len(),
{
    if k < s.len() {
        assert(s.drop_last().take(k) =~= s.take(k));
        lemma_sum_prefix_bound(s.drop_last(), k);
    } else {
        assert(s.take(k) =~= s);
    }
}

} // verus!
