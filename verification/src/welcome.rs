//! What the welcome screen shows and offers: the state of the installed
//! copy, the update button, the side navigation and the panels behind it.

use std::path::PathBuf;
use vstd::prelude::*;
use crate::text::{decimal, decimal_string, note_lines, note_lines_of, str_eq, string_views};
use crate::theme::ThemeColor;

verus! {

/// A file system path (`std::path::PathBuf`), carried through unchanged.
#[verifier::external_type_specification]
#[verifier::external_body]
pub struct ExPathBuf(PathBuf);

/// `PathBuf::clone`, which the derived `Clone` of `InstallerDlState` calls.
/// Nothing is stated of the copy it returns.
pub assume_specification[ <PathBuf as Clone>::clone ](p: &PathBuf) -> PathBuf;

/// The panels that the side navigation of the welcome screen opens.
#[derive(PartialEq, Eq, Structural, Clone, Copy, Debug)]
pub enum Panel {
    Kadr,
    Installer,
    Dependencies,
    Uninstall,
}

/// Where the download of a newer installer stands.
#[derive(Clone)]
pub enum InstallerDlState {
    Idle,
    Downloading,
    Done(PathBuf),
    Error(String),
}

impl InstallerDlState {
    /// How soon to look at the download again: every 100 milliseconds while
    /// it runs, not at all otherwise.
    pub fn poll_after_ms(&self) -> (d: Option<u64>)
        ensures
            d == (if *self is Downloading {
                Some(100u64)
            } else {
                None
            }),
    {
        match self {
            InstallerDlState::Downloading => Some(100),
            _ => None,
        }
    }
}

/// What the user asked for on the welcome screen.
pub enum WelcomeAction {
    RunUpdate,
    DownloadInstaller,
    LaunchInstallerAndExit(PathBuf),
    GoInstall,
    GoUninstall,
}

/// The release channel that Kadr is installed from.
#[derive(PartialEq, Eq, Structural, Clone, Copy, Debug)]
pub enum Channel {
    Stable,
    Beta,
}

/// The name of a channel, as the channel picker lists it.
pub open spec fn channel_name(c: Channel) -> Seq<char> {
    match c {
        Channel::Stable => "Stable"@,
        Channel::Beta => "Beta"@,
    }
}

impl Channel {
    /// The name of the channel, as the channel picker lists it.
    pub fn label(&self) -> (s: &'static str)
        ensures
            s@ == channel_name(*self),
    {
        match self {
            Channel::Stable => "Stable",
            Channel::Beta => "Beta",
        }
    }
}

/// Whether a pending file is Kadr's own executable.
pub open spec fn is_main_exe(f: Seq<char>) -> bool {
    f == "kadr.exe"@
}

/// Whether the list of pending files holds Kadr's own executable.
pub open spec fn lists_main_exe(files: Seq<Seq<char>>) -> bool {
    exists|i: int| 0 <= i < files.len() && is_main_exe(#[trigger] files[i])
}

/// The pending files other than Kadr's own executable, in their order.
pub open spec fn without_main_exe(files: Seq<Seq<char>>) -> Seq<Seq<char>>
    decreases files.len(),
{
    if files.len() == 0 {
        Seq::empty()
    } else {
        let rest = without_main_exe(files.drop_last());
        if is_main_exe(files.last()) {
            rest
        } else {
            rest.push(files.last())
        }
    }
}

/// The names of the pending files, when the list is known.
pub open spec fn pending_names(pending: Option<&[String]>) -> Option<Seq<Seq<char>>> {
    match pending {
        Some(p) => Some(string_views(p@)),
        None => None,
    }
}

/// The state of the installed copy that the welcome screen derives from
/// what it knows: the chosen and the installed channel, the files still to
/// update (once known) and the newest installer version (once known).
pub struct WelcomeStatus {
    /// The chosen channel differs from the installed one.
    pub channel_switch_pending: bool,
    /// Kadr itself is out of date (`None` while unknown).
    pub kadr_outdated: Option<bool>,
    /// The pending files other than Kadr's executable.
    pub deps_pending: Vec<String>,
    /// Some other file is out of date (`None` while unknown).
    pub deps_outdated: Option<bool>,
    /// There is something for the update button to do.
    pub has_updates: bool,
    /// A newer installer is published (`None` while unknown).
    pub installer_outdated: Option<bool>,
}

/// What `welcome_status` derives from its inputs.
pub open spec fn status_holds(
    st: WelcomeStatus,
    channel: Channel,
    stored_channel: Channel,
    pending: Option<Seq<Seq<char>>>,
    remote_installer_version: Option<Seq<char>>,
    current_version: Seq<char>,
) -> bool {
    let switching = channel != stored_channel;
    let files = match pending {
        Some(p) => p,
        None => Seq::empty(),
    };
    &&& st.channel_switch_pending == switching
    &&& st.kadr_outdated == (if switching {
        Some(true)
    } else {
        match pending {
            Some(p) => Some(lists_main_exe(p)),
            None => None,
        }
    })
    &&& string_views(st.deps_pending@) == without_main_exe(files)
    &&& st.deps_outdated == (match pending {
        Some(p) => Some(without_main_exe(p).len() > 0),
        None => None,
    })
    &&& st.has_updates == ((pending is Some && files.len() > 0) || switching)
    &&& st.installer_outdated == (match remote_installer_version {
        Some(r) => Some(r != current_version),
        None => None,
    })
}

/// The view of an optional string slice.
pub open spec fn opt_view(s: Option<&str>) -> Option<Seq<char>> {
    match s {
        Some(t) => Some(t@),
        None => None,
    }
}

/// Derives the state of the installed copy (see `status_holds`).
pub fn welcome_status(
    channel: Channel,
    stored_channel: Channel,
    pending_updates: Option<&[String]>,
    remote_installer_version: Option<&str>,
    current_version: &str,
) -> (st: WelcomeStatus)
    ensures
        status_holds(
            st,
            channel,
            stored_channel,
            pending_names(pending_updates),
            opt_view(remote_installer_version),
            current_version@,
        ),
{
    let switching = channel != stored_channel;
    let mut deps: Vec<String> = Vec::new();
    let mut has_main = false;
    let mut known = false;
    let mut count: usize = 0;
    match pending_updates {
        Some(p) => {
            known = true;
            count = p.len();
            let mut i: usize = 0;
            assert(string_views(p@.take(0)) =~= Seq::<Seq<char>>::empty());
            while i < p.len()
                invariant
                    known,
                    count == p@.len(),
                    i <= p@.len(),
                    string_views(deps@) == without_main_exe(string_views(p@.take(i as int))),
                    has_main == lists_main_exe(string_views(p@.take(i as int))),
                decreases p@.len() - i,
            {
                let ghost before = string_views(p@.take(i as int));
                let ghost after = string_views(p@.take(i + 1));
                assert(after =~= before.push(p@[i as int]@));
                assert(after.drop_last() =~= before);
                let f = &p[i];
                if str_eq(f.as_str(), "kadr.exe") {
                    has_main = true;
                    assert(is_main_exe(after[i as int]));
                } else {
                    deps.push(f.clone());
                    assert(string_views(deps@) =~= without_main_exe(before).push(f@));
                    assert forall|j: int| 0 <= j < after.len() && is_main_exe(#[trigger] after[j])
                        implies 0 <= j < before.len() && is_main_exe(before[j]) by {
                        if j == i {
                            assert(after[j] == f@);
                        }
                    }
                }
                i = i + 1;
            }
            assert(p@.take(p@.len() as int) =~= p@);
            assert(string_views(p@).len() == count);
        },
        None => {
            assert(string_views(deps@) =~= without_main_exe(Seq::empty()));
        },
    }
    let deps_nonempty = deps.len() > 0;
    let kadr_outdated = if switching {
        Some(true)
    } else if known {
        Some(has_main)
    } else {
        None
    };
    let deps_outdated = if known {
        Some(deps_nonempty)
    } else {
        None
    };
    let installer_outdated = match remote_installer_version {
        Some(r) => Some(!str_eq(r, current_version)),
        None => None,
    };
    WelcomeStatus {
        channel_switch_pending: switching,
        kadr_outdated,
        deps_pending: deps,
        deps_outdated,
        has_updates: (known && count > 0) || switching,
        installer_outdated,
    }
}


/// The label of the sidebar's update button.
pub open spec fn update_label(switching: bool, pending_count: Option<nat>) -> Seq<char> {
    if switching {
        "Switch Channel"@
    } else {
        match pending_count {
            None => "Update All  …"@,
            Some(n) => if n == 0 {
                "Up to date"@
            } else {
                "Update All  ("@ + decimal(n) + ")"@
            },
        }
    }
}

/// The number of pending files, when known.
pub open spec fn pending_count(pending: Option<&[String]>) -> Option<nat> {
    match pending {
        Some(p) => Some(p@.len()),
        None => None,
    }
}

/// The sidebar's update button.
pub struct UpdateButton {
    pub label: String,
    /// Whether a click starts an update.
    pub active: bool,
    pub color: ThemeColor,
}

/// The sidebar's update button: its label, whether it does anything, and
/// its color (the accent when it does, a muted surface when not).
pub fn update_button(status: &WelcomeStatus, pending_updates: Option<&[String]>) -> (b: UpdateButton)
    ensures
        b.label@ == update_label(status.channel_switch_pending, pending_count(pending_updates)),
        b.active == status.has_updates,
        b.color == (if status.has_updates {
            ThemeColor::Accent
        } else {
            ThemeColor::Surface4
        }),
{
    let label = if status.channel_switch_pending {
        String::from_str("Switch Channel")
    } else {
        match pending_updates {
            None => String::from_str("Update All  …"),
            Some(p) => if p.len() == 0 {
                String::from_str("Up to date")
            } else {
                let mut l = String::from_str("Update All  (");
                let n = decimal_string(p.len() as u128);
                l.append(n.as_str());
                l.append(")");
                l
            },
        }
    };
    let color = if status.has_updates {
        ThemeColor::Accent
    } else {
        ThemeColor::Surface4
    };
    UpdateButton { label, active: status.has_updates, color }
}

/// What the navigation dot of a panel reports.
pub open spec fn outdated_of(status: WelcomeStatus, panel: Panel) -> Option<bool> {
    match panel {
        Panel::Kadr => status.kadr_outdated,
        Panel::Installer => status.installer_outdated,
        Panel::Dependencies => status.deps_outdated,
        Panel::Uninstall => None,
    }
}

/// Whether the part of the installation behind `panel` is out of date
/// (`None` while unknown, and always for the uninstall panel).
pub fn panel_outdated(status: &WelcomeStatus, panel: Panel) -> (o: Option<bool>)
    ensures
        o == outdated_of(*status, panel),
{
    match panel {
        Panel::Kadr => status.kadr_outdated,
        Panel::Installer => status.installer_outdated,
        Panel::Dependencies => status.deps_outdated,
        Panel::Uninstall => None,
    }
}

/// The color of a navigation dot: none while unknown, green when up to
/// date, red when out of date.
pub open spec fn dot_color(outdated: Option<bool>) -> Option<ThemeColor> {
    match outdated {
        None => None,
        Some(false) => Some(ThemeColor::Success),
        Some(true) => Some(ThemeColor::ErrorText),
    }
}

/// The color of the navigation dot for a part that is (or is not, or may
/// be) out of date.
pub fn status_dot(outdated: Option<bool>) -> (d: Option<ThemeColor>)
    ensures
        d == dot_color(outdated),
{
    match outdated {
        None => None,
        Some(false) => Some(ThemeColor::Success),
        Some(true) => Some(ThemeColor::ErrorText),
    }
}

/// The selection after a click on the navigation item of `clicked`: a
/// click on the open panel closes it, a click on another opens that one.
pub open spec fn toggled(selected: Option<Panel>, clicked: Panel) -> Option<Panel> {
    if selected == Some(clicked) {
        None
    } else {
        Some(clicked)
    }
}

/// The selection after a click on the navigation item of `clicked`.
pub fn toggle_panel(selected: Option<Panel>, clicked: Panel) -> (s: Option<Panel>)
    ensures
        s == toggled(selected, clicked),
{
    if selected == Some(clicked) {
        None
    } else {
        Some(clicked)
    }
}

/// The installed version as shown, `?` when it is not known.
pub open spec fn shown_version(v: Option<Seq<char>>) -> Seq<char> {
    match v {
        Some(t) => t,
        None => "?"@,
    }
}

/// The status line of the Kadr panel.
pub open spec fn kadr_status_text(
    installed: Option<Seq<char>>,
    outdated: Option<bool>,
    channel: Channel,
    switching: bool,
) -> Seq<char> {
    match outdated {
        None => "Checking for updates…"@,
        Some(false) => "v"@ + shown_version(installed) + " — Up to date"@,
        Some(true) => if switching {
            "v"@ + shown_version(installed) + " installed — switch to "@ + channel_name(channel)
                + " available"@
        } else {
            "v"@ + shown_version(installed) + " — Update available"@
        },
    }
}

/// The color of a status line: muted while unknown, green when up to date,
/// red when out of date.
pub open spec fn status_color(outdated: Option<bool>) -> ThemeColor {
    match outdated {
        None => ThemeColor::TextMuted,
        Some(false) => ThemeColor::Success,
        Some(true) => ThemeColor::ErrorText,
    }
}

/// The Kadr panel: a status line and, when Kadr is out of date, a button.
pub struct KadrPanel {
    pub status: String,
    pub status_color: ThemeColor,
    /// The label of the update button, when there is one.
    pub button: Option<String>,
}

/// The Kadr panel for the installed version, its state and the chosen and
/// installed channels. The button is there exactly when Kadr is out of
/// date; it reads "Switch Channel" when the channel changes, else
/// "Update Kadr".
pub fn kadr_panel(
    installed_version: Option<&str>,
    outdated: Option<bool>,
    channel: Channel,
    stored_channel: Channel,
) -> (v: KadrPanel)
    ensures
        v.status@ == kadr_status_text(
            opt_view(installed_version),
            outdated,
            channel,
            channel != stored_channel,
        ),
        v.status_color == status_color(outdated),
        v.button is Some <==> outdated == Some(true),
        v.button matches Some(l) ==> l@ == (if channel != stored_channel {
            "Switch Channel"@
        } else {
            "Update Kadr"@
        }),
{
    let switching = channel != stored_channel;
    let ver = match installed_version {
        Some(v) => v,
        None => "?",
    };
    let (status, status_color) = match outdated {
        None => (String::from_str("Checking for updates…"), ThemeColor::TextMuted),
        Some(false) => {
            let mut t = String::from_str("v");
            t.append(ver);
            t.append(" — Up to date");
            (t, ThemeColor::Success)
        },
        Some(true) => {
            let mut t = String::from_str("v");
            t.append(ver);
            if switching {
                t.append(" installed — switch to ");
                t.append(channel.label());
                t.append(" available");
            } else {
                t.append(" — Update available");
            }
            (t, ThemeColor::ErrorText)
        },
    };
    let button = if outdated == Some(true) {
        if switching {
            Some(String::from_str("Switch Channel"))
        } else {
            Some(String::from_str("Update Kadr"))
        }
    } else {
        None
    };
    KadrPanel { status, status_color, button }
}

/// The status line of the installer panel.
pub open spec fn installer_status_text(
    current: Seq<char>,
    remote: Option<Seq<char>>,
    outdated: Option<bool>,
) -> Seq<char> {
    match outdated {
        None => "v"@ + current + " — checking…"@,
        Some(false) => "v"@ + current + " — Up to date"@,
        Some(true) => "v"@ + current + " -> v"@ + shown_version(remote) + " available"@,
    }
}

/// The download part of the installer panel.
pub enum DownloadView {
    /// Nothing to offer: the installer is up to date.
    Nothing,
    /// A button that starts the download.
    Offer,
    /// A note that the download is under way.
    Downloading,
    /// The downloaded file and a button that launches it.
    Complete,
    /// The failure, and a button that tries again.
    Failed(String),
}

/// Which download part the installer panel shows.
pub open spec fn download_view_holds(v: DownloadView, dl: InstallerDlState, outdated: Option<bool>) -> bool {
    match dl {
        InstallerDlState::Idle => if outdated != Some(false) {
            v is Offer
        } else {
            v is Nothing
        },
        InstallerDlState::Downloading => v is Downloading,
        InstallerDlState::Done(_) => v is Complete,
        InstallerDlState::Error(e) => v matches DownloadView::Failed(m) && m@ == "Download failed: "@
            + e@,
    }
}

/// The installer panel: a status line and the download part.
pub struct InstallerPanel {
    pub status: String,
    pub status_color: ThemeColor,
    pub download: DownloadView,
}

/// The installer panel for the running installer's version, the newest
/// published one (once known), whether it is newer, and the download.
pub fn installer_panel(
    current_version: &str,
    remote_version: Option<&str>,
    outdated: Option<bool>,
    dl_state: &InstallerDlState,
) -> (v: InstallerPanel)
    ensures
        v.status@ == installer_status_text(current_version@, opt_view(remote_version), outdated),
        v.status_color == status_color(outdated),
        download_view_holds(v.download, *dl_state, outdated),
{
    let mut status = String::from_str("v");
    status.append(current_version);
    let status_color = match outdated {
        None => {
            status.append(" — checking…");
            ThemeColor::TextMuted
        },
        Some(false) => {
            status.append(" — Up to date");
            ThemeColor::Success
        },
        Some(true) => {
            status.append(" -> v");
            match remote_version {
                Some(r) => status.append(r),
                None => status.append("?"),
            }
            status.append(" available");
            ThemeColor::ErrorText
        },
    };
    let download = match dl_state {
        InstallerDlState::Idle => if outdated != Some(false) {
            DownloadView::Offer
        } else {
            DownloadView::Nothing
        },
        InstallerDlState::Downloading => DownloadView::Downloading,
        InstallerDlState::Done(_) => DownloadView::Complete,
        InstallerDlState::Error(e) => {
            let mut m = String::from_str("Download failed: ");
            m.append(e.as_str());
            DownloadView::Failed(m)
        },
    };
    InstallerPanel { status, status_color, download }
}

/// The dependencies panel.
pub enum DepsView {
    Checking,
    UpToDate,
    /// The lines that list the out-of-date files, and an update button.
    Outdated(Vec<String>),
}

/// The line that lists one out-of-date file.
pub open spec fn dep_line(name: Seq<char>) -> Seq<char> {
    "  • "@ + name
}

/// The dependencies panel for whether other files are out of date and
/// which.
pub fn deps_panel(outdated: Option<bool>, pending: &Vec<String>) -> (v: DepsView)
    ensures
        outdated is None ==> v is Checking,
        outdated == Some(false) ==> v is UpToDate,
        outdated == Some(true) ==> (v matches DepsView::Outdated(lines) && string_views(lines@)
            == string_views(pending@).map_values(|n: Seq<char>| dep_line(n))),
{
    match outdated {
        None => DepsView::Checking,
        Some(false) => DepsView::UpToDate,
        Some(true) => {
            let mut lines: Vec<String> = Vec::new();
            let mut i: usize = 0;
            while i < pending.len()
                invariant
                    i <= pending@.len(),
                    string_views(lines@) == string_views(pending@.take(i as int)).map_values(
                        |n: Seq<char>| dep_line(n),
                    ),
                decreases pending@.len() - i,
            {
                let mut l = String::from_str("  • ");
                l.append(pending[i].as_str());
                let ghost before = string_views(lines@);
                let ghost lv = l@;
                assert(lv == dep_line(pending@[i as int]@));
                lines.push(l);
                assert(string_views(lines@) =~= before.push(lv));
                assert(string_views(pending@.take(i + 1)) =~= string_views(pending@.take(i as int)).push(
                    pending@[i as int]@,
                ));
                assert(string_views(lines@) =~= string_views(pending@.take(i + 1)).map_values(
                    |n: Seq<char>| dep_line(n),
                ));
                i = i + 1;
            }
            assert(pending@.take(pending@.len() as int) =~= pending@);
            DepsView::Outdated(lines)
        },
    }
}

/// The line under the title of the first-install screen.
pub open spec fn size_line(total: Option<u64>) -> Seq<char> {
    match total {
        Some(s) => "~"@ + crate::size::size_text(s as nat) + " · requires internet connection"@,
        None => "Requires internet connection · calculating size…"@,
    }
}

/// The line under the title of the first-install screen: the download size
/// once it is known.
pub fn install_size_line(total_install_size: Option<u64>) -> (s: String)
    ensures
        s@ == size_line(total_install_size),
{
    match total_install_size {
        Some(t) => {
            let mut s = String::from_str("~");
            let size = crate::size::fmt_size(t);
            s.append(size.as_str());
            s.append(" · requires internet connection");
            s
        },
        None => String::from_str("Requires internet connection · calculating size…"),
    }
}

/// The text that the patch-notes box reads from.
pub open spec fn notes_source(patchnotes: Option<&str>) -> Seq<char> {
    match patchnotes {
        Some(t) => t@,
        None => "Loading…"@,
    }
}

/// The lines of the patch-notes box: those of the notes once loaded, of
/// "Loading…" before; trimmed, blank ones skipped.
pub fn patchnote_lines(patchnotes: Option<&str>) -> (lines: Vec<String>)
    ensures
        string_views(lines@) == note_lines(notes_source(patchnotes)),
{
    match patchnotes {
        Some(t) => note_lines_of(t),
        None => note_lines_of("Loading…"),
    }
}


/// What a click on the button of `panel` asks for: an update on the Kadr
/// and dependencies panels when something there is out of date; on the
/// installer panel the download (first, or again after a failure) or the
/// launch of the downloaded installer; the uninstallation on its panel.
pub open spec fn panel_request(
    panel: Panel,
    status: WelcomeStatus,
    dl: InstallerDlState,
) -> Option<WelcomeAction> {
    match panel {
        Panel::Kadr => if status.kadr_outdated == Some(true) {
            Some(WelcomeAction::RunUpdate)
        } else {
            None
        },
        Panel::Installer => match dl {
            InstallerDlState::Idle => if status.installer_outdated != Some(false) {
                Some(WelcomeAction::DownloadInstaller)
            } else {
                None
            },
            InstallerDlState::Downloading => None,
            InstallerDlState::Done(p) => Some(WelcomeAction::LaunchInstallerAndExit(p)),
            InstallerDlState::Error(_) => Some(WelcomeAction::DownloadInstaller),
        },
        Panel::Dependencies => if status.deps_outdated == Some(true) {
            Some(WelcomeAction::RunUpdate)
        } else {
            None
        },
        Panel::Uninstall => Some(WelcomeAction::GoUninstall),
    }
}

/// What a click on the button of the open panel asks for (see
/// `panel_request`); nothing when the panel shows no button.
pub fn panel_action(panel: Panel, status: &WelcomeStatus, dl: InstallerDlState) -> (a: Option<
    WelcomeAction,
>)
    ensures
        a == panel_request(panel, *status, dl),
{
    match panel {
        Panel::Kadr => if status.kadr_outdated == Some(true) {
            Some(WelcomeAction::RunUpdate)
        } else {
            None
        },
        Panel::Installer => match dl {
            InstallerDlState::Idle => if status.installer_outdated != Some(false) {
                Some(WelcomeAction::DownloadInstaller)
            } else {
                None
            },
            InstallerDlState::Downloading => None,
            InstallerDlState::Done(p) => Some(WelcomeAction::LaunchInstallerAndExit(p)),
            InstallerDlState::Error(_) => Some(WelcomeAction::DownloadInstaller),
        },
        Panel::Dependencies => if status.deps_outdated == Some(true) {
            Some(WelcomeAction::RunUpdate)
        } else {
            None
        },
        Panel::Uninstall => Some(WelcomeAction::GoUninstall),
    }
}

/// The clicks of one frame of the welcome screen.
pub struct WelcomeClicks {
    /// The install button of the first-install screen.
    pub install: bool,
    /// The sidebar's update button.
    pub update: bool,
    /// The navigation item clicked, if any.
    pub nav: Option<Panel>,
    /// The button of the open panel.
    pub panel_button: bool,
}

/// The open panel after the navigation clicks of a frame.
pub open spec fn selection_after(selected: Option<Panel>, nav: Option<Panel>) -> Option<Panel> {
    match nav {
        Some(p) => toggled(selected, p),
        None => selected,
    }
}

/// The open panel and the request that one frame of the welcome screen
/// ends with. Without an installation there is only the install button.
/// With one, the navigation click first changes the open panel; then a
/// request from that panel's button wins over the update button's, which
/// counts only when there is something to update.
pub open spec fn welcome_outcome(
    has_existing: bool,
    status: WelcomeStatus,
    dl: InstallerDlState,
    selected: Option<Panel>,
    clicks: WelcomeClicks,
) -> (Option<Panel>, Option<WelcomeAction>) {
    if !has_existing {
        (
            selected,
            if clicks.install {
                Some(WelcomeAction::GoInstall)
            } else {
                None
            },
        )
    } else {
        let sel = selection_after(selected, clicks.nav);
        let sidebar = if clicks.update && status.has_updates {
            Some(WelcomeAction::RunUpdate)
        } else {
            None
        };
        let from_panel = match sel {
            Some(p) => if clicks.panel_button {
                panel_request(p, status, dl)
            } else {
                None
            },
            None => None,
        };
        (
            sel,
            if from_panel is Some {
                from_panel
            } else {
                sidebar
            },
        )
    }
}

/// One frame of the welcome screen: the open panel and the request it ends
/// with (see `welcome_outcome`).
pub fn welcome_step(
    has_existing: bool,
    status: &WelcomeStatus,
    dl: InstallerDlState,
    selected: Option<Panel>,
    clicks: WelcomeClicks,
) -> (r: (Option<Panel>, Option<WelcomeAction>))
    ensures
        r == welcome_outcome(has_existing, *status, dl, selected, clicks),
{
    if !has_existing {
        let a = if clicks.install {
            Some(WelcomeAction::GoInstall)
        } else {
            None
        };
        return (selected, a);
    }
    let sel = match clicks.nav {
        Some(p) => toggle_panel(selected, p),
        None => selected,
    };
    let sidebar = if clicks.update && status.has_updates {
        Some(WelcomeAction::RunUpdate)
    } else {
        None
    };
    let from_panel = match sel {
        Some(p) => if clicks.panel_button {
            panel_action(p, status, dl)
        } else {
            None
        },
        None => None,
    };
    let a = if from_panel.is_some() {
        from_panel
    } else {
        sidebar
    };
    (sel, a)
}


/// Clicking the same navigation item twice restores the selection, when
/// nothing or that panel was open.
pub proof fn lemma_toggle_twice(selected: Option<Panel>, p: Panel)
    requires
        selected is None || selected == Some(p),
    ensures
        toggled(toggled(selected, p), p) == selected,
{
}

/// After a click on its navigation item a panel is open exactly when it
/// was not open before.
pub proof fn lemma_toggle_flips(selected: Option<Panel>, p: Panel)
    ensures
        (toggled(selected, p) == Some(p)) == (selected != Some(p)),
        toggled(selected, p) is None || toggled(selected, p) == Some(p),
{
}

proof fn lemma_without_main_exe_shorter(files: Seq<Seq<char>>)
    ensures
        without_main_exe(files).len() <= files.len(),
    decreases files.len(),
{
    if files.len() > 0 {
        lemma_without_main_exe_shorter(files.drop_last());
    }
}

/// The list of out-of-date dependencies never names Kadr's executable, and
/// each of its entries is one of the pending files.
pub proof fn lemma_deps_exclude_main_exe(files: Seq<Seq<char>>)
    ensures
        forall|i: int|
            0 <= i < without_main_exe(files).len() ==> !is_main_exe(
                #[trigger] without_main_exe(files)[i],
            ) && files.contains(without_main_exe(files)[i]),
    decreases files.len(),
{
    if files.len() > 0 {
        let rest = files.drop_last();
        lemma_deps_exclude_main_exe(rest);
        assert forall|i: int| 0 <= i < without_main_exe(files).len() implies !is_main_exe(
            #[trigger] without_main_exe(files)[i],
        ) && files.contains(without_main_exe(files)[i]) by {
            if i < without_main_exe(rest).len() {
                let j = choose|j: int| 0 <= j < rest.len() && rest[j] == without_main_exe(rest)[i];
                assert(files[j] == rest[j]);
            } else {
                assert(files[files.len() - 1] == files.last());
            }
        }
    }
}

/// The welcome screen asks for an update only when Kadr is installed and
/// there is something to update: a channel switch or a pending file.
pub proof fn lemma_update_only_when_due(
    has_existing: bool,
    status: WelcomeStatus,
    channel: Channel,
    stored_channel: Channel,
    pending: Option<Seq<Seq<char>>>,
    remote: Option<Seq<char>>,
    current: Seq<char>,
    dl: InstallerDlState,
    selected: Option<Panel>,
    clicks: WelcomeClicks,
)
    requires
        status_holds(status, channel, stored_channel, pending, remote, current),
    ensures
        welcome_outcome(has_existing, status, dl, selected, clicks).1 == Some(
            WelcomeAction::RunUpdate,
        ) ==> has_existing && status.has_updates,
{
    if let Some(p) = pending {
        lemma_without_main_exe_shorter(p);
    }
}

/// The welcome screen asks to uninstall only from the uninstall panel, by
/// its button, with Kadr installed.
pub proof fn lemma_uninstall_only_from_its_panel(
    has_existing: bool,
    status: WelcomeStatus,
    dl: InstallerDlState,
    selected: Option<Panel>,
    clicks: WelcomeClicks,
)
    ensures
        welcome_outcome(has_existing, status, dl, selected, clicks).1 == Some(
            WelcomeAction::GoUninstall,
        ) ==> has_existing && clicks.panel_button && welcome_outcome(
            has_existing,
            status,
            dl,
            selected,
            clicks,
        ).0 == Some(Panel::Uninstall),
{
}


proof fn lemma_without_main_exe_nonempty(files: Seq<Seq<char>>)
    ensures
        without_main_exe(files).len() > 0 <==> exists|i: int|
            0 <= i < files.len() && #[trigger] files[i] != "kadr.exe"@,
    decreases files.len(),
{
    if files.len() > 0 {
        let rest = files.drop_last();
        lemma_without_main_exe_nonempty(rest);
        if exists|i: int| 0 <= i < files.len() && #[trigger] files[i] != "kadr.exe"@ {
            let i = choose|i: int| 0 <= i < files.len() && #[trigger] files[i] != "kadr.exe"@;
            if i < files.len() - 1 {
                assert(rest[i] == files[i]);
            }
        }
        if exists|i: int| 0 <= i < rest.len() && #[trigger] rest[i] != "kadr.exe"@ {
            let i = choose|i: int| 0 <= i < rest.len() && #[trigger] rest[i] != "kadr.exe"@;
            assert(files[i] == rest[i]);
        }
        assert(files.last() == files[files.len() - 1]);
    }
}

/// What the welcome screen knows of the installed copy, in terms of its
/// inputs: a channel switch makes Kadr out of date; otherwise, once the
/// pending list is known, Kadr is out of date exactly when the list names
/// `kadr.exe` (a list of other files leaves it up to date), and the other
/// files are out of date exactly when the list names any other file; there
/// are updates exactly on a switch or a non-empty list; the installer is
/// out of date exactly when the published version is known and differs.
pub proof fn lemma_status_from_inputs(
    st: WelcomeStatus,
    channel: Channel,
    stored_channel: Channel,
    pending: Option<Seq<Seq<char>>>,
    remote: Option<Seq<char>>,
    current: Seq<char>,
)
    requires
        status_holds(st, channel, stored_channel, pending, remote, current),
    ensures
        channel != stored_channel ==> st.kadr_outdated == Some(true),
        channel == stored_channel && pending is None ==> st.kadr_outdated is None,
        channel == stored_channel ==> (pending matches Some(p) ==> (st.kadr_outdated == Some(true)
            <==> exists|i: int| 0 <= i < p.len() && #[trigger] p[i] == "kadr.exe"@)),
        channel == stored_channel ==> (pending matches Some(p) ==> (st.kadr_outdated == Some(false)
            <==> forall|i: int| 0 <= i < p.len() ==> #[trigger] p[i] != "kadr.exe"@)),
        pending is None ==> st.deps_outdated is None,
        pending matches Some(p) ==> (st.deps_outdated == Some(true) <==> exists|i: int|
            0 <= i < p.len() && #[trigger] p[i] != "kadr.exe"@),
        st.has_updates <==> (channel != stored_channel || (pending matches Some(p) && p.len()
            > 0)),
        st.installer_outdated == Some(true) <==> (remote matches Some(r) && r != current),
        st.installer_outdated is None <==> remote is None,
{
    if let Some(p) = pending {
        lemma_without_main_exe_nonempty(p);
    }
}

/// The update button reads "Switch Channel" exactly when the chosen channel
/// differs from the installed one, whatever the pending list holds.
pub proof fn lemma_switch_label(switching: bool, pending_count: Option<nat>)
    ensures
        (update_label(switching, pending_count) == "Switch Channel"@) <==> switching,
{
    reveal_strlit("Switch Channel");
    reveal_strlit("Update All  …");
    reveal_strlit("Up to date");
    reveal_strlit("Update All  (");
    if !switching {
        let l = update_label(switching, pending_count);
        if let Some(n) = pending_count {
            if n > 0 {
                assert(l[0] == 'U');
            }
        }
        assert(l[0] == 'U');
        assert("Switch Channel"@[0] == 'S');
    }
}

/// The installer panel's button: with the download idle it asks for the
/// download exactly when the installer is not known to be up to date (so a
/// known newer installer is offered); after a failure it asks again; a
/// finished download is launched; a running one asks for nothing.
pub proof fn lemma_installer_button(status: WelcomeStatus, dl: InstallerDlState)
    ensures
        dl is Idle ==> (panel_request(Panel::Installer, status, dl) == Some(
            WelcomeAction::DownloadInstaller,
        ) <==> status.installer_outdated != Some(false)),
        dl is Idle ==> (panel_request(Panel::Installer, status, dl) is None
            <==> status.installer_outdated == Some(false)),
        dl is Idle && status.installer_outdated == Some(true) ==> panel_request(
            Panel::Installer,
            status,
            dl,
        ) == Some(WelcomeAction::DownloadInstaller),
        dl is Error ==> panel_request(Panel::Installer, status, dl) == Some(
            WelcomeAction::DownloadInstaller,
        ),
        dl matches InstallerDlState::Done(p) ==> panel_request(Panel::Installer, status, dl)
            == Some(WelcomeAction::LaunchInstallerAndExit(p)),
        dl is Downloading ==> panel_request(Panel::Installer, status, dl) is None,
{
}

/// The download part of the installer panel shows a button exactly when a
/// click on it asks for something; with the download idle it offers the
/// download exactly when the installer is not known to be up to date.
pub proof fn lemma_download_offer(v: DownloadView, dl: InstallerDlState, status: WelcomeStatus)
    requires
        download_view_holds(v, dl, status.installer_outdated),
    ensures
        (v is Offer || v is Complete || v is Failed) <==> panel_request(
            Panel::Installer,
            status,
            dl,
        ) is Some,
        dl is Idle ==> (v is Offer <==> status.installer_outdated != Some(false)),
        dl is Idle && status.installer_outdated == Some(true) ==> v is Offer,
{
}

/// With a panel open and no navigation click, a click on its button that
/// asks for something ends the frame with that request.
pub proof fn lemma_open_panel_button_request(
    status: WelcomeStatus,
    dl: InstallerDlState,
    panel: Panel,
    clicks: WelcomeClicks,
)
    requires
        clicks.nav is None,
        clicks.panel_button,
        panel_request(panel, status, dl) is Some,
    ensures
        welcome_outcome(true, status, dl, Some(panel), clicks) == (
            Some(panel),
            panel_request(panel, status, dl),
        ),
{
}

} // verus!
