//! The single-slot notification channel, the refresh token, and the marker of the
//! most recently installed bundle. Timers run outside: posting a message hands
//! back the timer to start (and the one to cancel), and a timer that fires is
//! reported back by its id.
use vstd::prelude::*;
use crate::archive::{file_error_text, FileOperationError};

verus! {

/// The category of a notification; `Empty` is the cleared slot.
#[derive(Clone, Copy, Debug, PartialEq, Eq, Structural)]
pub enum MessageType {
    Success,
    Error,
    Info,
    Empty,
}

/// A notification as displayed.
#[derive(Clone, Debug)]
pub struct Message {
    pub content: String,
    pub msg_type: MessageType,
}

/// How long a notification of a category stays, in seconds.
pub open spec fn display_seconds_of(t: MessageType) -> u64 {
    match t {
        MessageType::Success => 3,
        MessageType::Error => 4,
        MessageType::Info => 5,
        MessageType::Empty => 0,
    }
}

/// How long a notification of a category stays, in seconds.
pub fn display_seconds(t: MessageType) -> (r: u64)
    ensures
        r == display_seconds_of(t),
{
    match t {
        MessageType::Success => 3,
        MessageType::Error => 4,
        MessageType::Info => 5,
        MessageType::Empty => 0,
    }
}

/// The expiry timer that a post asks for, and the earlier one it supersedes.
#[derive(Clone, Copy, Debug, PartialEq, Eq, Structural)]
pub struct TimerRequest {
    /// Identifies the new timer when it fires.
    pub id: u64,
    /// How long the new timer waits.
    pub seconds: u64,
    /// The pending timer to cancel, if any.
    pub cancel: Option<u64>,
}

/// The notification slot and the timer that owns it.
pub struct NotificationCenter {
    message: Message,
    pending: Option<u64>,
    next_id: u64,
}

pub struct NotificationView {
    pub text: Seq<char>,
    pub kind: MessageType,
    pub pending: Option<u64>,
    pub next_id: u64,
}

impl View for NotificationCenter {
    type V = NotificationView;

    closed spec fn view(&self) -> NotificationView {
        NotificationView {
            text: self.message.content@,
            kind: self.message.msg_type,
            pending: self.pending,
            next_id: self.next_id,
        }
    }
}

/// The state after posting: the slot holds the new message at once and the new
/// timer is the only pending one.
pub open spec fn posted(v: NotificationView, text: Seq<char>, kind: MessageType) -> NotificationView {
    NotificationView {
        text,
        kind,
        pending: Some(v.next_id),
        next_id: (if v.next_id == u64::MAX { 0 } else { v.next_id + 1 }) as u64,
    }
}

/// The timer request of a post from state `v`.
pub open spec fn request_of(v: NotificationView, kind: MessageType) -> TimerRequest {
    TimerRequest { id: v.next_id, seconds: display_seconds_of(kind), cancel: v.pending }
}

/// The state after timer `id` fires: only the pending timer clears the slot; a
/// superseded one changes nothing.
pub open spec fn expired(v: NotificationView, id: u64) -> NotificationView {
    if v.pending == Some(id) {
        NotificationView { text: Seq::empty(), kind: MessageType::Empty, pending: None, next_id: v.next_id }
    } else {
        v
    }
}

impl NotificationCenter {
    /// The idle state: no message and no pending timer.
    pub fn new() -> (r: NotificationCenter)
        ensures
            r@.text.len() == 0,
            r@.kind == MessageType::Empty,
            r@.pending is None,
    {
        NotificationCenter {
            message: Message { content: String::new(), msg_type: MessageType::Empty },
            pending: None,
            next_id: 0,
        }
    }

    /// The message currently displayed.
    pub fn current(&self) -> (r: Message)
        ensures
            r.content@ == self@.text,
            r.msg_type == self@.kind,
    {
        Message { content: self.message.content.clone(), msg_type: self.message.msg_type }
    }

    /// The timer that currently owns the slot, if any.
    pub fn pending_timer(&self) -> (r: Option<u64>)
        ensures
            r == self@.pending,
    {
        self.pending
    }

    /// Shows a message at once, superseding the one displayed and its timer.
    pub fn show_message(&mut self, content: String, msg_type: MessageType) -> (r: TimerRequest)
        ensures
            final(self)@ == posted(old(self)@, content@, msg_type),
            r == request_of(old(self)@, msg_type),
    {
        let r = TimerRequest {
            id: self.next_id,
            seconds: display_seconds(msg_type),
            cancel: self.pending,
        };
        self.pending = Some(self.next_id);
        self.next_id = if self.next_id == u64::MAX { 0 } else { self.next_id + 1 };
        self.message = Message { content, msg_type };
        r
    }

    /// Shows an error message.
    pub fn show_error(&mut self, content: String) -> (r: TimerRequest)
        ensures
            final(self)@ == posted(old(self)@, content@, MessageType::Error),
            r == request_of(old(self)@, MessageType::Error),
    {
        self.show_message(content, MessageType::Error)
    }

    /// Shows a success message.
    pub fn show_success(&mut self, content: String) -> (r: TimerRequest)
        ensures
            final(self)@ == posted(old(self)@, content@, MessageType::Success),
            r == request_of(old(self)@, MessageType::Success),
    {
        self.show_message(content, MessageType::Success)
    }

    /// Shows an informational message.
    pub fn show_info(&mut self, content: String) -> (r: TimerRequest)
        ensures
            final(self)@ == posted(old(self)@, content@, MessageType::Info),
            r == request_of(old(self)@, MessageType::Info),
    {
        self.show_message(content, MessageType::Info)
    }

    /// Reports that timer `id` ran out without being cancelled; returns whether
    /// the slot was cleared.
    pub fn timer_expired(&mut self, id: u64) -> (r: bool)
        ensures
            final(self)@ == expired(old(self)@, id),
            r == (old(self)@.pending == Some(id)),
    {
        if self.pending == Some(id) {
            self.message = Message { content: String::new(), msg_type: MessageType::Empty };
            self.pending = None;
            true
        } else {
            false
        }
    }
}

/// A newer message always wins: after `Success(a)` and then `Error(b)`, `b` is
/// displayed, the first timer is told to cancel and clears nothing should it
/// still fire, and the second timer, of the error's duration, clears the slot.
pub proof fn lemma_newer_message_wins(v: NotificationView, a: Seq<char>, b: Seq<char>)
    ensures
        ({
            let ra = request_of(v, MessageType::Success);
            let v1 = posted(v, a, MessageType::Success);
            let rb = request_of(v1, MessageType::Error);
            let v2 = posted(v1, b, MessageType::Error);
            &&& v1.text == a && v1.kind == MessageType::Success
            &&& v2.text == b && v2.kind == MessageType::Error
            &&& rb.cancel == Some(ra.id)
            &&& rb.seconds == 4
            &&& expired(v2, ra.id) == v2
            &&& expired(v2, rb.id).kind == MessageType::Empty
            &&& expired(v2, rb.id).text.len() == 0
            &&& expired(expired(v2, ra.id), rb.id) == expired(v2, rb.id)
        }),
{
}

/// A user action whose outcome is reported.
#[derive(Clone, Copy, Debug, PartialEq, Eq, Structural)]
pub enum UserAction {
    Install,
    Remove,
}

/// What reporting an outcome shows, and whether observers must scan again.
#[derive(Clone, Debug)]
pub struct Notice {
    pub text: String,
    pub kind: MessageType,
    pub refresh: bool,
}

pub open spec fn success_text(action: UserAction) -> Seq<char> {
    match action {
        UserAction::Install => "Plugin installed successfully!"@,
        UserAction::Remove => "Plugin removed successfully!"@,
    }
}

pub open spec fn failure_prefix(action: UserAction) -> Seq<char> {
    match action {
        UserAction::Install => "Installation failed: "@,
        UserAction::Remove => "Failed to remove plugin: "@,
    }
}

/// Decides what the user sees after an install or a removal: a success message
/// and a refresh, or exactly one error message; a cancelled file pick shows
/// nothing.
pub fn outcome_notice(action: UserAction, outcome: Result<(), FileOperationError>) -> (r: Option<Notice>)
    ensures
        outcome == Err::<(), FileOperationError>(FileOperationError::DialogCancelled) ==> r is None,
        outcome is Ok ==> (r matches Some(n) && n.kind == MessageType::Success && n.refresh
            && n.text@ == success_text(action)),
        outcome matches Err(e) ==> (e != FileOperationError::DialogCancelled ==> (r matches Some(n)
            && n.kind == MessageType::Error && !n.refresh && n.text@ == failure_prefix(action)
            + file_error_text(e))),
{
    match outcome {
        Ok(()) => {
            let text = match action {
                UserAction::Install => String::from_str("Plugin installed successfully!"),
                UserAction::Remove => String::from_str("Plugin removed successfully!"),
            };
            Some(Notice { text, kind: MessageType::Success, refresh: true })
        },
        Err(FileOperationError::DialogCancelled) => None,
        Err(e) => {
            let mut text = match action {
                UserAction::Install => String::from_str("Installation failed: "),
                UserAction::Remove => String::from_str("Failed to remove plugin: "),
            };
            let detail = e.message();
            text.append(detail.as_str());
            Some(Notice { text, kind: MessageType::Error, refresh: false })
        },
    }
}

/// Changes the refresh token, which tells observers to scan again.
pub fn trigger_refresh(token: &mut bool)
    ensures
        *final(token) == !*old(token),
{
    *token = !*token;
}

/// Records the bundle directory that was installed last.
pub fn mark_plugin_as_newly_installed(slot: &mut Option<String>, path: String)
    ensures
        *final(slot) == Some(path),
{
    *slot = Some(path);
}

/// Forgets the bundle directory that was installed last.
pub fn clear_newly_installed_plugin(slot: &mut Option<String>)
    ensures
        *final(slot) is None,
{
    *slot = None;
}

} // verus!
