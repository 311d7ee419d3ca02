//! What clients and the server say to each other.
use crate::runtime::event::ApprovalDecision;
use crate::runtime::ReasoningEffort;
use crate::session::{InfoView, SessionInfo};
use crate::text;
use vstd::prelude::*;
use vstd::string::*;

verus! {

/// The version of the protocol.
pub const VERSION: u32 = 1;

/// The greatest size of a command, in bytes.
pub const MAX_COMMAND_BYTES: usize = 262_144;

/// What a client asks of a session.
#[derive(Debug, PartialEq)]
pub enum Action {
    SendMessage { content: String, attachments: Vec<String> },
    Cancel { turn_id: String },
    Approve { turn_id: String, approval_id: String, decision: ApprovalDecision },
    SetModel { model: String, revision: u64 },
    SetReasoning { effort: Option<ReasoningEffort>, revision: u64 },
    Compact,
}

/// What a client asks of the server.
#[derive(Debug, PartialEq)]
pub enum Request {
    CreateSession { name: Option<String> },
    Subscribe { session_id: String },
    Unsubscribe { session_id: String },
    Command { session_id: String, action: Action },
    GitDiff { path: Option<String> },
}

/// A request, and the number that its reply goes by.
#[derive(Debug, PartialEq)]
pub struct ClientRequest {
    pub request_id: String,
    pub request: Request,
}

/// How a client introduces itself.
#[derive(Debug, PartialEq)]
pub struct Hello {
    pub protocol: u32,
    pub token: String,
    pub client_id: Option<String>,
    pub server_id: Option<String>,
}

/// Why a request was refused: a code for programs, and a message for people.
#[derive(Debug, PartialEq)]
pub struct Error {
    pub code: String,
    pub message: String,
}

pub struct ErrorView {
    pub code: Seq<char>,
    pub message: Seq<char>,
}

impl DeepView for Error {
    type V = ErrorView;

    open spec fn deep_view(&self) -> ErrorView {
        ErrorView { code: self.code@, message: self.message@ }
    }
}

impl Clone for Error {
    fn clone(&self) -> (result: Self)
        ensures
            result.deep_view() == self.deep_view(),
    {
        Error { code: self.code.clone(), message: self.message.clone() }
    }
}

impl Error {
    pub fn new(code: &str, message: &str) -> (result: Self)
        ensures
            result.deep_view() == (ErrorView { code: code@, message: message@ }),
    {
        Error { code: code.to_owned(), message: message.to_owned() }
    }

    /// The code and the message.
    pub fn text(&self) -> (result: String)
        ensures
            result@ == self.code@ + ": "@ + self.message@,
    {
        text::join_three(self.code.as_str(), ": ", self.message.as_str())
    }
}

/// What a client is told of a command that was taken up.
#[derive(Debug, PartialEq)]
pub struct Accepted {
    pub turn_id: Option<String>,
    pub settings_revision: u64,
}

pub struct AcceptedView {
    pub turn_id: Option<Seq<char>>,
    pub settings_revision: u64,
}

impl DeepView for Accepted {
    type V = AcceptedView;

    open spec fn deep_view(&self) -> AcceptedView {
        AcceptedView {
            turn_id: self.turn_id.deep_view(),
            settings_revision: self.settings_revision,
        }
    }
}

impl Clone for Accepted {
    fn clone(&self) -> (result: Self)
        ensures
            result.deep_view() == self.deep_view(),
    {
        Accepted { turn_id: self.turn_id.clone(), settings_revision: self.settings_revision }
    }
}

/// One session of the catalog. The cost is the bit pattern of a double.
#[derive(Debug, PartialEq)]
pub struct CatalogEntry {
    pub info: SessionInfo,
    pub project_root: Option<String>,
    pub total_tokens: u64,
    pub total_cost: Option<u64>,
    pub activity: String,
}

pub struct EntryView {
    pub info: InfoView,
    pub project_root: Option<Seq<char>>,
    pub total_tokens: u64,
    pub total_cost: Option<u64>,
    pub activity: Seq<char>,
}

impl DeepView for CatalogEntry {
    type V = EntryView;

    open spec fn deep_view(&self) -> EntryView {
        EntryView {
            info: self.info.deep_view(),
            project_root: self.project_root.deep_view(),
            total_tokens: self.total_tokens,
            total_cost: self.total_cost,
            activity: self.activity@,
        }
    }
}

impl Clone for CatalogEntry {
    fn clone(&self) -> (result: Self)
        ensures
            result.deep_view() == self.deep_view(),
    {
        CatalogEntry {
            info: self.info.clone(),
            project_root: self.project_root.clone(),
            total_tokens: self.total_tokens,
            total_cost: self.total_cost,
            activity: self.activity.clone(),
        }
    }
}

/// The sessions of the server.
#[derive(Debug, PartialEq)]
pub struct CatalogSnapshot {
    pub seq: u64,
    pub sessions: Vec<CatalogEntry>,
}

} // verus!
