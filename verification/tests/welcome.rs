use std::path::PathBuf;

use kadr_installer::theme::ThemeColor;
use kadr_installer::welcome::{
    deps_panel, install_size_line, installer_panel, kadr_panel, panel_action, panel_outdated,
    patchnote_lines, status_dot, toggle_panel, update_button, welcome_status, welcome_step,
    Channel, DepsView, DownloadView, InstallerDlState, Panel, WelcomeAction, WelcomeClicks,
    WelcomeStatus,
};

fn names(v: &[&str]) -> Vec<String> {
    v.iter().map(|s| s.to_string()).collect()
}

fn status(pending: Option<&[String]>, remote: Option<&str>) -> WelcomeStatus {
    welcome_status(Channel::Stable, Channel::Stable, pending, remote, "1.2.0")
}

fn no_clicks() -> WelcomeClicks {
    WelcomeClicks { install: false, update: false, nav: None, panel_button: false }
}

#[test]
fn status_while_nothing_is_known() {
    let st = status(None, None);
    assert!(!st.channel_switch_pending);
    assert_eq!(st.kadr_outdated, None);
    assert_eq!(st.deps_outdated, None);
    assert!(st.deps_pending.is_empty());
    assert!(!st.has_updates);
    assert_eq!(st.installer_outdated, None);
}

#[test]
fn status_with_pending_files() {
    let p = names(&["libmpv-2.dll", "kadr.exe", "ffmpeg.dll"]);
    let st = status(Some(&p), Some("1.3.0"));
    assert_eq!(st.kadr_outdated, Some(true));
    assert_eq!(st.deps_pending, names(&["libmpv-2.dll", "ffmpeg.dll"]));
    assert_eq!(st.deps_outdated, Some(true));
    assert!(st.has_updates);
    assert_eq!(st.installer_outdated, Some(true));

    let only_exe = names(&["kadr.exe"]);
    let st = status(Some(&only_exe), Some("1.2.0"));
    assert_eq!(st.kadr_outdated, Some(true));
    assert_eq!(st.deps_outdated, Some(false));
    assert_eq!(st.installer_outdated, Some(false));

    let none: Vec<String> = Vec::new();
    let st = status(Some(&none), None);
    assert_eq!(st.kadr_outdated, Some(false));
    assert_eq!(st.deps_outdated, Some(false));
    assert!(!st.has_updates);
}

#[test]
fn status_with_channel_switch() {
    let none: Vec<String> = Vec::new();
    let st = welcome_status(Channel::Beta, Channel::Stable, Some(&none), None, "1.2.0");
    assert!(st.channel_switch_pending);
    assert_eq!(st.kadr_outdated, Some(true));
    assert!(st.has_updates);
    let st = welcome_status(Channel::Beta, Channel::Stable, None, None, "1.2.0");
    assert_eq!(st.kadr_outdated, Some(true));
    assert_eq!(st.deps_outdated, None);
}

#[test]
fn update_button_labels() {
    let st = status(None, None);
    let b = update_button(&st, None);
    assert_eq!(b.label, "Update All  …");
    assert!(!b.active);
    assert_eq!(b.color, ThemeColor::Surface4);

    let none: Vec<String> = Vec::new();
    let st = status(Some(&none), None);
    assert_eq!(update_button(&st, Some(&none)).label, "Up to date");

    let p = names(&["a.dll", "b.dll", "kadr.exe"]);
    let st = status(Some(&p), None);
    let b = update_button(&st, Some(&p));
    assert_eq!(b.label, "Update All  (3)");
    assert!(b.active);
    assert_eq!(b.color, ThemeColor::Accent);

    let st = welcome_status(Channel::Beta, Channel::Stable, Some(&p), None, "1.2.0");
    assert_eq!(update_button(&st, Some(&p)).label, "Switch Channel");
}

#[test]
fn navigation_dots_and_toggles() {
    let p = names(&["kadr.exe"]);
    let st = status(Some(&p), Some("1.2.0"));
    assert_eq!(panel_outdated(&st, Panel::Kadr), Some(true));
    assert_eq!(panel_outdated(&st, Panel::Installer), Some(false));
    assert_eq!(panel_outdated(&st, Panel::Dependencies), Some(false));
    assert_eq!(panel_outdated(&st, Panel::Uninstall), None);
    assert_eq!(status_dot(None), None);
    assert_eq!(status_dot(Some(false)), Some(ThemeColor::Success));
    assert_eq!(status_dot(Some(true)), Some(ThemeColor::ErrorText));

    assert_eq!(toggle_panel(None, Panel::Kadr), Some(Panel::Kadr));
    assert_eq!(toggle_panel(Some(Panel::Kadr), Panel::Kadr), None);
    assert_eq!(toggle_panel(Some(Panel::Kadr), Panel::Installer), Some(Panel::Installer));
    // Clicking twice restores the selection.
    let once = toggle_panel(None, Panel::Dependencies);
    assert_eq!(toggle_panel(once, Panel::Dependencies), None);
}

#[test]
fn kadr_panel_texts() {
    let v = kadr_panel(Some("2.0.1"), None, Channel::Stable, Channel::Stable);
    assert_eq!(v.status, "Checking for updates…");
    assert_eq!(v.status_color, ThemeColor::TextMuted);
    assert!(v.button.is_none());

    let v = kadr_panel(Some("2.0.1"), Some(false), Channel::Stable, Channel::Stable);
    assert_eq!(v.status, "v2.0.1 — Up to date");
    assert_eq!(v.status_color, ThemeColor::Success);
    assert!(v.button.is_none());

    let v = kadr_panel(None, Some(true), Channel::Stable, Channel::Stable);
    assert_eq!(v.status, "v? — Update available");
    assert_eq!(v.status_color, ThemeColor::ErrorText);
    assert_eq!(v.button.as_deref(), Some("Update Kadr"));

    let v = kadr_panel(Some("2.0.1"), Some(true), Channel::Beta, Channel::Stable);
    assert_eq!(v.status, "v2.0.1 installed — switch to Beta available");
    assert_eq!(v.button.as_deref(), Some("Switch Channel"));
    assert_eq!(Channel::Stable.label(), "Stable");
}

#[test]
fn installer_panel_texts() {
    let v = installer_panel("1.2.0", None, None, &InstallerDlState::Idle);
    assert_eq!(v.status, "v1.2.0 — checking…");
    assert!(matches!(v.download, DownloadView::Offer));

    let v = installer_panel("1.2.0", Some("1.2.0"), Some(false), &InstallerDlState::Idle);
    assert_eq!(v.status, "v1.2.0 — Up to date");
    assert_eq!(v.status_color, ThemeColor::Success);
    assert!(matches!(v.download, DownloadView::Nothing));

    let v = installer_panel("1.2.0", Some("1.3.0"), Some(true), &InstallerDlState::Downloading);
    assert_eq!(v.status, "v1.2.0 -> v1.3.0 available");
    assert!(matches!(v.download, DownloadView::Downloading));

    let done = InstallerDlState::Done(PathBuf::from("/tmp/setup.exe"));
    assert!(matches!(installer_panel("1.2.0", None, Some(true), &done).download, DownloadView::Complete));

    let err = InstallerDlState::Error("timed out".to_string());
    match installer_panel("1.2.0", None, Some(true), &err).download {
        DownloadView::Failed(m) => assert_eq!(m, "Download failed: timed out"),
        _ => panic!("expected a failure"),
    }
}

#[test]
fn deps_panel_lists() {
    let p = names(&["a.dll", "b.dll"]);
    assert!(matches!(deps_panel(None, &p), DepsView::Checking));
    assert!(matches!(deps_panel(Some(false), &p), DepsView::UpToDate));
    match deps_panel(Some(true), &p) {
        DepsView::Outdated(lines) => assert_eq!(lines, names(&["  • a.dll", "  • b.dll"])),
        _ => panic!("expected the list"),
    }
}

#[test]
fn first_install_texts() {
    assert_eq!(install_size_line(None), "Requires internet connection · calculating size…");
    assert_eq!(
        install_size_line(Some(52_428_800)),
        "~52.4 MB · requires internet connection"
    );
    assert_eq!(install_size_line(Some(1_499)), "~1 KB · requires internet connection");
    assert_eq!(patchnote_lines(None), vec!["Loading…"]);
    assert_eq!(patchnote_lines(Some(" • new\n\n• fixed \n")), vec!["• new", "• fixed"]);
}

#[test]
fn panel_buttons_request() {
    let p = names(&["kadr.exe", "x.dll"]);
    let st = status(Some(&p), Some("1.2.0"));
    assert!(matches!(panel_action(Panel::Kadr, &st, InstallerDlState::Idle), Some(WelcomeAction::RunUpdate)));
    assert!(matches!(panel_action(Panel::Dependencies, &st, InstallerDlState::Idle), Some(WelcomeAction::RunUpdate)));
    assert!(panel_action(Panel::Installer, &st, InstallerDlState::Idle).is_none());
    assert!(matches!(panel_action(Panel::Uninstall, &st, InstallerDlState::Idle), Some(WelcomeAction::GoUninstall)));
    assert!(matches!(
        panel_action(Panel::Installer, &st, InstallerDlState::Error("x".to_string())),
        Some(WelcomeAction::DownloadInstaller)
    ));
    assert!(panel_action(Panel::Installer, &st, InstallerDlState::Downloading).is_none());
    match panel_action(Panel::Installer, &st, InstallerDlState::Done(PathBuf::from("/tmp/new.exe"))) {
        Some(WelcomeAction::LaunchInstallerAndExit(path)) => assert_eq!(path, PathBuf::from("/tmp/new.exe")),
        _ => panic!("expected a launch"),
    }
}

#[test]
fn welcome_frames() {
    let p = names(&["kadr.exe"]);
    let st = status(Some(&p), None);

    // Without an installation only the install button counts.
    let clicks = WelcomeClicks { install: true, update: true, nav: Some(Panel::Kadr), panel_button: true };
    let (sel, a) = welcome_step(false, &st, InstallerDlState::Idle, Some(Panel::Installer), clicks);
    assert_eq!(sel, Some(Panel::Installer));
    assert!(matches!(a, Some(WelcomeAction::GoInstall)));

    // The update button with something to update.
    let clicks = WelcomeClicks { update: true, ..no_clicks() };
    let (sel, a) = welcome_step(true, &st, InstallerDlState::Idle, None, clicks);
    assert_eq!(sel, None);
    assert!(matches!(a, Some(WelcomeAction::RunUpdate)));

    // The update button does nothing when nothing is due.
    let none: Vec<String> = Vec::new();
    let idle = status(Some(&none), None);
    let clicks = WelcomeClicks { update: true, ..no_clicks() };
    let (_, a) = welcome_step(true, &idle, InstallerDlState::Idle, None, clicks);
    assert!(a.is_none());

    // A navigation click opens the panel whose button is then pressed; the
    // panel's request wins over the update button's.
    let clicks = WelcomeClicks { update: true, nav: Some(Panel::Uninstall), panel_button: true, install: false };
    let (sel, a) = welcome_step(true, &st, InstallerDlState::Idle, Some(Panel::Kadr), clicks);
    assert_eq!(sel, Some(Panel::Uninstall));
    assert!(matches!(a, Some(WelcomeAction::GoUninstall)));

    // A click on the open panel's item closes it.
    let clicks = WelcomeClicks { nav: Some(Panel::Kadr), ..no_clicks() };
    let (sel, a) = welcome_step(true, &st, InstallerDlState::Idle, Some(Panel::Kadr), clicks);
    assert_eq!(sel, None);
    assert!(a.is_none());
}

#[test]
fn download_is_polled_while_it_runs() {
    assert_eq!(InstallerDlState::Downloading.poll_after_ms(), Some(100));
    assert_eq!(InstallerDlState::Idle.poll_after_ms(), None);
    assert_eq!(InstallerDlState::Error("x".to_string()).poll_after_ms(), None);
    assert_eq!(InstallerDlState::Done(PathBuf::from("/tmp/a.exe")).poll_after_ms(), None);
}
