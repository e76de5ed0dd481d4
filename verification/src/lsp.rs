//! The life of a language server session: what each request of the client
//! may do in each state, and what state follows. The session decides; the
//! client that owns the connection carries the decisions out.

use crate::requests::LspError;
use vstd::prelude::*;
use vstd::string::StringExecFns;

verus! {

/// The states of a session.
#[derive(Debug, Clone, Copy, PartialEq, Eq, Structural)]
pub enum LspState {
    NotStarted,
    Initializing,
    Running,
    ShuttingDown,
    Stopped,
}

/// What to do with a notification of the server.
#[derive(Debug, Clone, Copy, PartialEq, Eq, Structural)]
pub enum NotificationKind {
    PublishDiagnostics,
    ShowMessage,
    LogMessage,
    Other,
}

/// The kind that a notification method names.
pub open spec fn method_kind(method: Seq<char>) -> NotificationKind {
    if method == "textDocument/publishDiagnostics"@ {
        NotificationKind::PublishDiagnostics
    } else if method == "window/showMessage"@ {
        NotificationKind::ShowMessage
    } else if method == "window/logMessage"@ {
        NotificationKind::LogMessage
    } else {
        NotificationKind::Other
    }
}

/// The kind of a notification: the kind that its method names if its
/// parameters could be read as that kind wants them, else `Other`.
pub open spec fn notification_kind(method: Seq<char>, params_fit: bool) -> NotificationKind {
    if params_fit {
        method_kind(method)
    } else {
        NotificationKind::Other
    }
}

fn same_text(a: &str, b: &str) -> (r: bool)
    ensures
        r == (a@ == b@),
{
    String::from_str(a) == String::from_str(b)
}

impl NotificationKind {
    /// The kind that a notification method names.
    pub fn of_method(method: &str) -> (r: NotificationKind)
        ensures
            r == method_kind(method@),
    {
        if same_text(method, "textDocument/publishDiagnostics") {
            NotificationKind::PublishDiagnostics
        } else if same_text(method, "window/showMessage") {
            NotificationKind::ShowMessage
        } else if same_text(method, "window/logMessage") {
            NotificationKind::LogMessage
        } else {
            NotificationKind::Other
        }
    }

    /// The kind of a notification whose parameters did or did not fit the
    /// kind that its method names.
    pub fn of_notification(method: &str, params_fit: bool) -> (r: NotificationKind)
        ensures
            r == notification_kind(method@, params_fit),
    {
        if params_fit {
            NotificationKind::of_method(method)
        } else {
            NotificationKind::Other
        }
    }
}

/// A session with the language server: its state and the id of its next
/// request.
pub struct LspSession {
    state: LspState,
    next_id: i64,
}

impl LspSession {
    pub closed spec fn state_view(&self) -> LspState {
        self.state
    }

    pub closed spec fn next_id_view(&self) -> i64 {
        self.next_id
    }

    pub fn new() -> (r: LspSession)
        ensures
            r.state_view() == LspState::NotStarted,
            r.next_id_view() == 1,
    {
        LspSession { state: LspState::NotStarted, next_id: 1 }
    }

    pub fn state(&self) -> (r: LspState)
        ensures
            r == self.state_view(),
    {
        self.state
    }

    /// Starts the session. Only a session that was never started can be;
    /// it is running afterwards.
    pub fn start(&mut self) -> (r: Result<(), LspError>)
        ensures
            final(self).next_id_view() == old(self).next_id_view(),
            match r {
                Ok(_) => old(self).state_view() == LspState::NotStarted && final(self).state_view() == LspState::Running,
                Err(e) => old(self).state_view() != LspState::NotStarted && final(self).state_view() == old(self).state_view() && (e matches LspError::ProtocolError(
                    m,
                ) && m@ == "LSP already started"@),
            },
    {
        match self.state {
            LspState::NotStarted => {
                self.state = LspState::Running;
                Ok(())
            },
            _ => Err(LspError::ProtocolError(String::from_str("LSP already started"))),
        }
    }

    /// Whether the session may be initialized: it has to be initializing or
    /// running.
    pub fn check_initialize(&self) -> (r: Result<(), LspError>)
        ensures
            match r {
                Ok(_) => self.state_view() == LspState::Initializing || self.state_view()
                    == LspState::Running,
                Err(e) => self.state_view() != LspState::Initializing && self.state_view()
                    != LspState::Running && e matches LspError::NotInitialized,
            },
    {
        match self.state {
            LspState::Initializing | LspState::Running => Ok(()),
            _ => Err(LspError::NotInitialized),
        }
    }

    /// Notes that the server has answered the initialization: the session is
    /// running.
    pub fn initialized(&mut self)
        ensures
            final(self).state_view() == LspState::Running,
            final(self).next_id_view() == old(self).next_id_view(),
    {
        self.state = LspState::Running;
    }

    /// The id for a request that is about to be sent. Only a running session
    /// sends requests.
    pub fn next_request_id(&mut self) -> (r: Result<i64, LspError>)
        requires
            old(self).next_id_view() < i64::MAX,
        ensures
            final(self).state_view() == old(self).state_view(),
            match r {
                Ok(id) => old(self).state_view() == LspState::Running && id == old(self).next_id_view() && final(self).next_id_view() == id + 1,
                Err(e) => old(self).state_view() != LspState::Running && final(self).next_id_view() == old(self).next_id_view() && e matches LspError::NotInitialized,
            },
    {
        match self.state {
            LspState::Running => {
                let id: i64 = self.next_id;
                self.next_id = self.next_id + 1;
                Ok(id)
            },
            _ => Err(LspError::NotInitialized),
        }
    }

    /// Shuts the session down. A running session is stopped; any other
    /// stays as it is.
    pub fn shutdown(&mut self)
        ensures
            final(self).next_id_view() == old(self).next_id_view(),
            final(self).state_view() == if old(self).state_view() == LspState::Running {
                LspState::Stopped
            } else {
                old(self).state_view()
            },
    {
        match self.state {
            LspState::Running => {
                self.state = LspState::Stopped;
            },
            _ => {},
        }
    }
}

} // verus!
