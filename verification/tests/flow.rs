use std::path::PathBuf;

use kadr_installer::flow::{
    clears_existing_install, conclude, header_version_text, patchnotes_or_fallback, total_size,
    welcome_transition, Operation, ProgressEvent, ProgressStatus, Transition,
};
use kadr_installer::welcome::WelcomeAction;

#[test]
fn progress_records_reports() {
    let mut s = ProgressStatus::new();
    assert_eq!(s.repaint_after_ms(), Some(50));
    s.apply(ProgressEvent::Log("Downloading kadr.exe".to_string()));
    s.apply(ProgressEvent::Step);
    s.apply(ProgressEvent::Log("Extracting".to_string()));
    assert_eq!(s.log, vec!["Downloading kadr.exe", "Extracting"]);
    assert!(!s.finished);
    s.apply(ProgressEvent::Done);
    assert!(s.finished);
    assert!(s.error.is_none());
    assert_eq!(s.repaint_after_ms(), None);
    // An ended task stays ended, and its log keeps growing.
    s.apply(ProgressEvent::Log("late".to_string()));
    assert!(s.finished);
    assert_eq!(s.log.len(), 3);
}

#[test]
fn a_failure_ends_the_task() {
    let mut s = ProgressStatus::new();
    s.apply(ProgressEvent::Error("disk full".to_string()));
    assert!(s.finished);
    assert_eq!(s.error.as_deref(), Some("disk full"));
}

#[test]
fn final_messages() {
    let mut s = ProgressStatus::new();
    s.apply(ProgressEvent::Done);
    let d = conclude(&s, Operation::Install, PathBuf::from("C:/Kadr"));
    assert!(d.success);
    assert_eq!(d.message, "Kadr was installed successfully!");
    assert_eq!(d.install_dir, PathBuf::from("C:/Kadr"));
    assert!(!clears_existing_install(&d));
    let d = conclude(&s, Operation::Update, PathBuf::from("C:/Kadr"));
    assert_eq!(d.message, "Kadr was updated successfully!");
    let d = conclude(&s, Operation::Uninstall, PathBuf::from("C:/Kadr"));
    assert_eq!(d.message, "Kadr was uninstalled successfully.");
    assert!(clears_existing_install(&d));

    let mut f = ProgressStatus::new();
    f.apply(ProgressEvent::Error("access denied".to_string()));
    let d = conclude(&f, Operation::Uninstall, PathBuf::from("C:/Kadr"));
    assert!(!d.success);
    assert_eq!(d.message, "Uninstall failed:\naccess denied");
    assert!(!clears_existing_install(&d));
    let d = conclude(&f, Operation::Install, PathBuf::from("C:/Kadr"));
    assert_eq!(d.message, "Installation failed:\naccess denied");
    let d = conclude(&f, Operation::Update, PathBuf::from("C:/Kadr"));
    assert_eq!(d.message, "Update failed:\naccess denied");
    assert_eq!(d.operation, Operation::Update);
}

#[test]
fn welcome_requests_lead_to_screens() {
    assert!(matches!(welcome_transition(WelcomeAction::RunUpdate, true), Transition::Start(Operation::Update)));
    assert!(matches!(welcome_transition(WelcomeAction::RunUpdate, false), Transition::Stay));
    assert!(matches!(welcome_transition(WelcomeAction::GoUninstall, true), Transition::Start(Operation::Uninstall)));
    assert!(matches!(welcome_transition(WelcomeAction::GoUninstall, false), Transition::Stay));
    assert!(matches!(welcome_transition(WelcomeAction::GoInstall, false), Transition::ToOptions));
    assert!(matches!(welcome_transition(WelcomeAction::DownloadInstaller, true), Transition::DownloadInstaller));
    match welcome_transition(WelcomeAction::LaunchInstallerAndExit(PathBuf::from("/d/i.exe")), true) {
        Transition::LaunchInstaller(p) => assert_eq!(p, PathBuf::from("/d/i.exe")),
        _ => panic!("expected a launch"),
    }
}

#[test]
fn header_and_notes_texts() {
    assert_eq!(header_version_text(None, "0.4.2"), "kadr v…   installer v0.4.2");
    assert_eq!(header_version_text(Some("1.0.0"), "0.4.2"), "kadr v1.0.0   installer v0.4.2");
    assert_eq!(patchnotes_or_fallback(None), "• Could not load patch notes");
    assert_eq!(patchnotes_or_fallback(Some("x".to_string())), "x");
}

#[test]
fn total_sizes() {
    assert_eq!(total_size(&vec![]), Some(0));
    assert_eq!(total_size(&vec![1, 2, 3]), Some(6));
    assert_eq!(total_size(&vec![u64::MAX, 0]), Some(u64::MAX));
    assert_eq!(total_size(&vec![u64::MAX, 1]), None);
    assert_eq!(total_size(&vec![u64::MAX / 2, u64::MAX / 2, 2]), None);
}
