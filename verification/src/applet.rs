//! The applet as a state machine: it reacts to each message with a new
//! state and one action for the desktop shell to carry out (open or close
//! the popup window, or fetch a new snapshot).
//!
//! Popup windows are known here by keys that the shell hands in; a key
//! stands for one window.

use vstd::prelude::*;
use crate::popup::{popup_content, popup_of, PopupContent};
use crate::snapshot::{
    lemma_panel_label_reads_back, panel_label, panel_label_of, reads_as_guest_counts,
    ClusterSnapshot, ClusterSnapshotView,
};
use vstd::string::StringExecFns;

verus! {

/// The applet's knowledge of the cluster.
pub struct AppState {
    pub snapshot: Option<ClusterSnapshot>,
    pub error: Option<String>,
    pub status_text: String,
}

impl Default for AppState {
    fn default() -> (r: Self)
        ensures
            r.snapshot is None,
            r.error is None,
            r.status_text@ == "PVE ..."@,
    {
        AppState { snapshot: None, error: None, status_text: String::from_str("PVE ...") }
    }
}

/// What the applet reacts to.
pub enum Message {
    /// The panel button was pressed.
    TogglePopup,
    /// The window with this key was closed.
    PopupClosed(u64),
    /// It is time to poll the cluster.
    Refresh,
    /// A poll ended, with a snapshot or an error message.
    Refreshed(Result<ClusterSnapshot, String>),
}

pub enum MessageView {
    TogglePopup,
    PopupClosed(u64),
    Refresh,
    Refreshed(Result<ClusterSnapshotView, Seq<char>>),
}

impl DeepView for Message {
    type V = MessageView;

    open spec fn deep_view(&self) -> MessageView {
        match self {
            Message::TogglePopup => MessageView::TogglePopup,
            Message::PopupClosed(k) => MessageView::PopupClosed(*k),
            Message::Refresh => MessageView::Refresh,
            Message::Refreshed(Ok(s)) => MessageView::Refreshed(Ok(s.deep_view())),
            Message::Refreshed(Err(e)) => MessageView::Refreshed(Err(e@)),
        }
    }
}

/// What the shell is asked to do after a message.
pub enum Action {
    Nothing,
    /// Open a popup window under this key.
    OpenPopup(u64),
    /// Close the popup window with this key.
    ClosePopup(u64),
    /// Poll the cluster and send back `Refreshed`.
    FetchSnapshot,
}

/// The applet: the open popup window, if any, and what it knows of the
/// cluster.
pub struct ProxmoxApplet {
    popup: Option<u64>,
    state: AppState,
}

pub struct AppletView {
    pub popup: Option<u64>,
    pub snapshot: Option<ClusterSnapshotView>,
    pub error: Option<Seq<char>>,
    pub status_text: Seq<char>,
}

impl View for ProxmoxApplet {
    type V = AppletView;

    closed spec fn view(&self) -> AppletView {
        AppletView {
            popup: self.popup,
            snapshot: self.state.snapshot.deep_view(),
            error: self.state.error.deep_view(),
            status_text: self.state.status_text@,
        }
    }
}

/// The panel text says what the applet knows: the snapshot's label, "PVE
/// err" after a failed poll, "PVE ..." before the first poll ends; and the
/// applet never holds a snapshot and an error at once.
pub open spec fn consistent(a: AppletView) -> bool {
    match (a.snapshot, a.error) {
        (Some(s), None) => a.status_text == panel_label_of(s),
        (None, Some(_)) => a.status_text == "PVE err"@,
        (None, None) => a.status_text == "PVE ..."@,
        (Some(_), Some(_)) => false,
    }
}

/// The state before any message: no popup, nothing known yet.
pub open spec fn initial_applet() -> AppletView {
    AppletView { popup: None, snapshot: None, error: None, status_text: "PVE ..."@ }
}

/// How the applet reacts to `m`; `fresh` is the key a newly opened popup
/// window gets.
pub open spec fn step(a: AppletView, m: MessageView, fresh: u64) -> (AppletView, Action) {
    match m {
        MessageView::TogglePopup => match a.popup {
            Some(p) => (AppletView { popup: None, ..a }, Action::ClosePopup(p)),
            None => (AppletView { popup: Some(fresh), ..a }, Action::OpenPopup(fresh)),
        },
        MessageView::PopupClosed(k) => (
            if a.popup == Some(k) {
                AppletView { popup: None, ..a }
            } else {
                a
            },
            Action::Nothing,
        ),
        MessageView::Refresh => (a, Action::FetchSnapshot),
        MessageView::Refreshed(Ok(s)) => (
            AppletView {
                popup: a.popup,
                snapshot: Some(s),
                error: None,
                status_text: panel_label_of(s),
            },
            Action::Nothing,
        ),
        MessageView::Refreshed(Err(e)) => (
            AppletView { popup: a.popup, snapshot: None, error: Some(e), status_text: "PVE err"@ },
            Action::Nothing,
        ),
    }
}

/// The icon the panel shows: an error icon after a failed poll, a cluster
/// icon while the cluster is quorate, a warning icon when it is not, and a
/// server icon before the first poll ends.
pub open spec fn panel_icon_of(a: AppletView) -> Seq<char> {
    match (a.snapshot, a.error) {
        (_, Some(_)) => "dialog-error-symbolic"@,
        (Some(s), None) => if s.quorum {
            "network-workgroup-symbolic"@
        } else {
            "dialog-warning-symbolic"@
        },
        (None, None) => "network-server-symbolic"@,
    }
}

impl ProxmoxApplet {
    /// The applet at start, and the message it first sends itself: an
    /// immediate poll.
    pub fn init() -> (r: (Self, Message))
        ensures
            r.0@ == initial_applet(),
            consistent(r.0@),
            r.1 is Refresh,
    {
        let state = AppState::default();
        (ProxmoxApplet { popup: None, state }, Message::Refresh)
    }

    /// Reacts to `message`, returning what the shell must do. `fresh` is the
    /// key under which the shell opens a popup window if asked to.
    pub fn update(&mut self, message: Message, fresh: u64) -> (action: Action)
        ensures
            (final(self)@, action) == step(old(self)@, message.deep_view(), fresh),
            consistent(old(self)@) ==> consistent(final(self)@),
    {
        match message {
            Message::TogglePopup => {
                match self.popup {
                    Some(p) => {
                        self.popup = None;
                        Action::ClosePopup(p)
                    },
                    None => {
                        self.popup = Some(fresh);
                        Action::OpenPopup(fresh)
                    },
                }
            },
            Message::PopupClosed(k) => {
                if self.popup == Some(k) {
                    self.popup = None;
                }
                Action::Nothing
            },
            Message::Refresh => Action::FetchSnapshot,
            Message::Refreshed(result) => {
                match result {
                    Ok(snapshot) => {
                        proof {
                            lemma_panel_label_reads_back(snapshot.deep_view());
                        }
                        self.state.status_text = panel_label(&snapshot);
                        self.state.snapshot = Some(snapshot);
                        self.state.error = None;
                    },
                    Err(err) => {
                        self.state.status_text = String::from_str("PVE err");
                        self.state.error = Some(err);
                        self.state.snapshot = None;
                    },
                }
                Action::Nothing
            },
        }
    }

    /// The message sent when the shell asks to close the window with key `k`.
    pub fn on_close_requested(&self, k: u64) -> (m: Option<Message>)
        ensures
            m matches Some(Message::PopupClosed(j)) && j == k,
    {
        Some(Message::PopupClosed(k))
    }

    /// The key of the open popup window, if any.
    pub fn popup(&self) -> (p: Option<u64>)
        ensures
            p == self@.popup,
    {
        self.popup
    }

    /// The text shown in the panel.
    pub fn status_text(&self) -> (t: &str)
        ensures
            t@ == self@.status_text,
    {
        self.state.status_text.as_str()
    }

    /// The name of the icon shown in the panel.
    pub fn panel_icon(&self) -> (icon: &'static str)
        ensures
            icon@ == panel_icon_of(self@),
    {
        match (&self.state.snapshot, &self.state.error) {
            (_, Some(_)) => "dialog-error-symbolic",
            (Some(s), None) => if s.quorum {
                "network-workgroup-symbolic"
            } else {
                "dialog-warning-symbolic"
            },
            (None, None) => "network-server-symbolic",
        }
    }

    /// What the popup window shows.
    pub fn popup_content(&self) -> (p: PopupContent)
        ensures
            p.deep_view() == popup_of(self@.snapshot, self@.error),
    {
        popup_content(&self.state.snapshot, &self.state.error)
    }
}

/// Whatever the message, a consistent applet stays consistent.
pub proof fn lemma_step_keeps_consistent(a: AppletView, m: MessageView, fresh: u64)
    requires
        consistent(a),
    ensures
        consistent(step(a, m, fresh).0),
{
}

/// Pressing the panel button twice opens a popup and closes that same
/// popup, leaving the applet as it was.
pub proof fn lemma_toggle_twice_restores(a: AppletView, fresh: u64, later: u64)
    requires
        a.popup is None,
    ensures
        step(a, MessageView::TogglePopup, fresh).1 == Action::OpenPopup(fresh),
        step(step(a, MessageView::TogglePopup, fresh).0, MessageView::TogglePopup, later).1
            == Action::ClosePopup(fresh),
        step(step(a, MessageView::TogglePopup, fresh).0, MessageView::TogglePopup, later).0 == a,
{
}

/// A poll request changes nothing but asks for a fetch.
pub proof fn lemma_refresh_only_fetches(a: AppletView, fresh: u64)
    ensures
        step(a, MessageView::Refresh, fresh) == (a, Action::FetchSnapshot),
{
}

/// A poll's outcome replaces all the applet knew of the cluster: two
/// applets that receive the same outcome agree on everything but their
/// popup, which the outcome leaves alone.
pub proof fn lemma_last_poll_wins(
    a: AppletView,
    b: AppletView,
    outcome: Result<ClusterSnapshotView, Seq<char>>,
    fa: u64,
    fb: u64,
)
    ensures
        ({
            let sa = step(a, MessageView::Refreshed(outcome), fa).0;
            let sb = step(b, MessageView::Refreshed(outcome), fb).0;
            &&& sa.snapshot == sb.snapshot
            &&& sa.error == sb.error
            &&& sa.status_text == sb.status_text
            &&& sa.popup == a.popup
            &&& sb.popup == b.popup
        }),
{
}

/// Closing the applet's own popup forgets it and changes nothing else.
pub proof fn lemma_close_own_popup(a: AppletView, k: u64, fresh: u64)
    requires
        a.popup == Some(k),
    ensures
        step(a, MessageView::PopupClosed(k), fresh).1 == Action::Nothing,
        step(a, MessageView::PopupClosed(k), fresh).0.popup is None,
        step(a, MessageView::PopupClosed(k), fresh).0.snapshot == a.snapshot,
        step(a, MessageView::PopupClosed(k), fresh).0.error == a.error,
        step(a, MessageView::PopupClosed(k), fresh).0.status_text == a.status_text,
{
}

/// Closing a window other than the applet's popup changes nothing.
pub proof fn lemma_close_other_window_ignored(a: AppletView, k: u64, fresh: u64)
    requires
        a.popup != Some(k),
    ensures
        step(a, MessageView::PopupClosed(k), fresh) == (a, Action::Nothing),
{
}

/// After a successful poll the panel and popup show that snapshot; after a
/// failed one they show the error.
pub proof fn lemma_poll_outcome_shown(
    a: AppletView,
    outcome: Result<ClusterSnapshotView, Seq<char>>,
    fresh: u64,
)
    ensures
        ({
            let b = step(a, MessageView::Refreshed(outcome), fresh).0;
            match outcome {
                Ok(s) => b.status_text == panel_label_of(s) && popup_of(b.snapshot, b.error)
                    == popup_of(Some(s), None) && panel_icon_of(b) == if s.quorum {
                    "network-workgroup-symbolic"@
                } else {
                    "dialog-warning-symbolic"@
                },
                Err(e) => b.status_text == "PVE err"@ && popup_of(b.snapshot, b.error) == popup_of(
                    None,
                    Some(e),
                ) && panel_icon_of(b) == "dialog-error-symbolic"@,
            }
        }),
{
}

} // verus!
