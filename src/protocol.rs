//! The messages exchanged with the remote console and the event stream:
//! ids and metadata only, never a device path.
use vstd::prelude::*;
use crate::kernel_policy::text_eq;
use crate::policy_intent::{
    PolicyIntent, ProtectionAction, ProtectionOperations, ProtectionScope,
};
use crate::text::{is_blank, is_blank_text};

verus! {

/// Requests from the console.
#[derive(Debug)]
pub enum AdminRequest {
    GetDrives,
    ListChildren { node_id: u64 },
    GetNode { node_id: u64 },
    /// Searches the loaded children of a folder only.
    SearchLocal { parent_id: u64, query: String, limit: Option<usize> },
    ExpandNode { node_id: u64 },
    CollapseNode { node_id: u64 },
    GetStats,
    Ping,
}

#[derive(Debug)]
pub struct DriveInfo {
    pub id: u64,
    pub name: String,
    pub drive_letter: String,
    pub has_children: bool,
    pub is_accessible: bool,
    pub node_type: String,
}

#[derive(Debug)]
pub struct NodeInfo {
    pub id: u64,
    pub name: String,
    pub node_type: String,
    pub size: Option<u64>,
    pub modified_time: u64,
    pub created_time: u64,
    pub has_children: bool,
    pub is_expanded: bool,
    pub is_accessible: bool,
    pub full_path: Option<String>,
}

#[derive(Debug)]
pub struct StatsInfo {
    pub total_nodes: usize,
    pub total_drives: usize,
    pub expanded_nodes: usize,
    pub memory_usage_bytes: usize,
    pub scan_state: String,
}

/// Responses to the console.
#[derive(Debug)]
pub enum AgentResponse {
    Drives { drives: Vec<DriveInfo> },
    Children { parent_id: u64, parent_name: String, children: Vec<NodeInfo>, total_children: usize },
    Node { node: NodeInfo },
    SearchLocalResults {
        parent_id: u64,
        query: String,
        results: Vec<NodeInfo>,
        total_matches: usize,
        scope: String,
    },
    Expanded { node_id: u64, node_name: String, children: Vec<NodeInfo>, total_children: usize },
    Collapsed { node_id: u64, node_name: String, removed_children: usize },
    Stats { stats: StatsInfo },
    Success { message: String },
    Error { code: String, message: String, details: Option<String> },
    Pong { timestamp: u64, version: String },
}

/// Error codes of the console protocol.
#[derive(Debug, Clone, Copy, PartialEq, Eq, Structural)]
pub enum ErrorCode {
    NodeNotFound,
    AccessDenied,
    InvalidRequest,
    NotADirectory,
    AlreadyExpanded,
    SystemError,
    NotImplemented,
    SearchUnavailable,
}

pub open spec fn code_text(c: ErrorCode) -> Seq<char> {
    match c {
        ErrorCode::NodeNotFound => "NODE_NOT_FOUND"@,
        ErrorCode::AccessDenied => "ACCESS_DENIED"@,
        ErrorCode::InvalidRequest => "INVALID_REQUEST"@,
        ErrorCode::NotADirectory => "NOT_A_DIRECTORY"@,
        ErrorCode::AlreadyExpanded => "ALREADY_EXPANDED"@,
        ErrorCode::SystemError => "SYSTEM_ERROR"@,
        ErrorCode::NotImplemented => "NOT_IMPLEMENTED"@,
        ErrorCode::SearchUnavailable => "SEARCH_UNAVAILABLE"@,
    }
}

impl ErrorCode {
    /// The code's wire name.
    pub fn as_str(&self) -> (r: &'static str)
        ensures
            r@ == code_text(*self),
    {
        match self {
            ErrorCode::NodeNotFound => "NODE_NOT_FOUND",
            ErrorCode::AccessDenied => "ACCESS_DENIED",
            ErrorCode::InvalidRequest => "INVALID_REQUEST",
            ErrorCode::NotADirectory => "NOT_A_DIRECTORY",
            ErrorCode::AlreadyExpanded => "ALREADY_EXPANDED",
            ErrorCode::SystemError => "SYSTEM_ERROR",
            ErrorCode::NotImplemented => "NOT_IMPLEMENTED",
            ErrorCode::SearchUnavailable => "SEARCH_UNAVAILABLE",
        }
    }
}

impl AgentResponse {
    /// An error response with the code's wire name.
    pub fn error(code: ErrorCode, message: &str, details: Option<&str>) -> (r: Self)
        ensures
            r matches AgentResponse::Error { code: c, message: m, details: d } && c@ == code_text(
                code,
            ) && m@ == message@ && match details {
                Some(x) => d matches Some(y) && y@ == x@,
                None => d is None,
            },
    {
        AgentResponse::Error {
            code: String::from_str(code.as_str()),
            message: String::from_str(message),
            details: match details {
                Some(s) => Some(String::from_str(s)),
                None => None,
            },
        }
    }

    /// A success acknowledgement.
    pub fn success(message: &str) -> (r: Self)
        ensures
            r matches AgentResponse::Success { message: m } && m@ == message@,
    {
        AgentResponse::Success { message: String::from_str(message) }
    }
}

/// An error of the HTTP surface.
#[derive(Debug)]
pub struct ErrorResponse {
    pub code: String,
    pub message: String,
}

/// The envelope of every HTTP answer.
#[derive(Debug)]
pub struct StandardApiResponse<T> {
    pub success: bool,
    pub data: Option<T>,
    pub error: Option<ErrorResponse>,
}

impl<T> StandardApiResponse<T> {
    /// A successful answer carrying `data`.
    pub fn success(data: T) -> (r: Self)
        ensures
            r.success && r.data == Some(data) && r.error is None,
    {
        StandardApiResponse { success: true, data: Some(data), error: None }
    }

    /// A failed answer carrying `error`.
    pub fn error(error: ErrorResponse) -> (r: Self)
        ensures
            !r.success && r.data is None && r.error == Some(error),
    {
        StandardApiResponse { success: false, data: None, error: Some(error) }
    }
}

/// The query of a local search.
#[derive(Debug)]
pub struct SearchQuery {
    pub parent_id: u64,
    pub q: String,
    pub limit: Option<usize>,
}

/// The operation flags of an apply request.
#[derive(Debug, Clone, Copy, PartialEq, Eq, Structural)]
pub struct PolicyOperations {
    pub read: bool,
    pub write: bool,
    pub delete: bool,
    pub rename: bool,
    pub create: bool,
    pub copy: bool,
    pub execute: bool,
}

/// A request to apply a policy, as the console sends it.
#[derive(Debug)]
pub struct ApplyPolicyRequest {
    pub node_id: u64,
    /// `"file"`, `"folder"` or `"folder_recursive"`.
    pub scope: String,
    /// `"block"`, `"allow"` or `"audit"`.
    pub action: String,
    pub operations: PolicyOperations,
    pub created_by: String,
    pub comment: Option<String>,
    pub confirmed: bool,
}

/// Why a request is refused before it becomes an intent.
#[derive(Debug, Clone, Copy, PartialEq, Eq, Structural)]
pub enum RequestError {
    NoOperation,
    ExecuteOnFolder,
    EmptyCreator,
    InvalidScope,
    InvalidAction,
}

pub open spec fn any_operation(o: PolicyOperations) -> bool {
    o.read || o.write || o.delete || o.rename || o.create || o.copy || o.execute
}

pub open spec fn scope_of(s: Seq<char>) -> Option<ProtectionScope> {
    if s == "file"@ {
        Some(ProtectionScope::File)
    } else if s == "folder"@ {
        Some(ProtectionScope::Folder)
    } else if s == "folder_recursive"@ {
        Some(ProtectionScope::FolderRecursive)
    } else {
        None
    }
}

pub open spec fn action_of(s: Seq<char>) -> Option<ProtectionAction> {
    if s == "block"@ {
        Some(ProtectionAction::Block)
    } else if s == "allow"@ {
        Some(ProtectionAction::Allow)
    } else if s == "audit"@ {
        Some(ProtectionAction::Audit)
    } else {
        None
    }
}

/// The checks of an apply request, in order.
pub open spec fn request_check(r: &ApplyPolicyRequest) -> Result<(ProtectionScope, ProtectionAction), RequestError> {
    if !any_operation(r.operations) {
        Err(RequestError::NoOperation)
    } else if (r.scope@ == "folder"@ || r.scope@ == "folder_recursive"@) && r.operations.execute {
        Err(RequestError::ExecuteOnFolder)
    } else if is_blank(r.created_by@) {
        Err(RequestError::EmptyCreator)
    } else {
        match scope_of(r.scope@) {
            None => Err(RequestError::InvalidScope),
            Some(s) => match action_of(r.action@) {
                None => Err(RequestError::InvalidAction),
                Some(a) => Ok((s, a)),
            },
        }
    }
}

pub open spec fn request_error_code(e: RequestError) -> Seq<char> {
    match e {
        RequestError::InvalidScope => "INVALID_SCOPE"@,
        RequestError::InvalidAction => "INVALID_ACTION"@,
        _ => "INVALID_REQUEST"@,
    }
}

impl RequestError {
    /// The wire code of the refusal.
    pub fn code(&self) -> (r: &'static str)
        ensures
            r@ == request_error_code(*self),
    {
        match self {
            RequestError::InvalidScope => "INVALID_SCOPE",
            RequestError::InvalidAction => "INVALID_ACTION",
            _ => "INVALID_REQUEST",
        }
    }

    /// The refusal as an HTTP error.
    pub fn to_response(&self) -> (r: ErrorResponse)
        ensures
            r.code@ == request_error_code(*self),
    {
        let message = match self {
            RequestError::NoOperation => "At least one operation must be selected",
            RequestError::ExecuteOnFolder => "Folders cannot have execute protection",
            RequestError::EmptyCreator => "Creator name cannot be empty",
            RequestError::InvalidScope => "Invalid scope",
            RequestError::InvalidAction => "Invalid action",
        };
        ErrorResponse { code: String::from_str(self.code()), message: String::from_str(message) }
    }
}

impl ApplyPolicyRequest {
    /// The intent the request asks for, stamped `now`, or why it is refused.
    pub fn to_intent(&self, now: u64) -> (r: Result<PolicyIntent, RequestError>)
        ensures
            match r {
                Ok(i) => request_check(self) matches Ok((s, a)) && i@.scope == s && i@.action == a
                    && i@.node_id == self.node_id && i@.created_by == self.created_by@
                    && i@.timestamp == now && i@.operations == (ProtectionOperations {
                    read: self.operations.read,
                    write: self.operations.write,
                    delete: self.operations.delete,
                    rename: self.operations.rename,
                    create: self.operations.create,
                    copy: self.operations.copy,
                    execute: self.operations.execute,
                }) && i@.comment == crate::policy_intent::opt_text(self.comment),
                Err(e) => request_check(self) == Err::<(ProtectionScope, ProtectionAction), RequestError>(e),
            },
    {
        let o = self.operations;
        if !(o.read || o.write || o.delete || o.rename || o.create || o.copy || o.execute) {
            return Err(RequestError::NoOperation);
        }
        let is_folder = text_eq(self.scope.as_str(), "folder") || text_eq(
            self.scope.as_str(),
            "folder_recursive",
        );
        if is_folder && o.execute {
            return Err(RequestError::ExecuteOnFolder);
        }
        if is_blank_text(self.created_by.as_str()) {
            return Err(RequestError::EmptyCreator);
        }
        let scope = if text_eq(self.scope.as_str(), "file") {
            ProtectionScope::File
        } else if text_eq(self.scope.as_str(), "folder") {
            ProtectionScope::Folder
        } else if text_eq(self.scope.as_str(), "folder_recursive") {
            ProtectionScope::FolderRecursive
        } else {
            return Err(RequestError::InvalidScope);
        };
        let action = if text_eq(self.action.as_str(), "block") {
            ProtectionAction::Block
        } else if text_eq(self.action.as_str(), "allow") {
            ProtectionAction::Allow
        } else if text_eq(self.action.as_str(), "audit") {
            ProtectionAction::Audit
        } else {
            return Err(RequestError::InvalidAction);
        };
        let operations = ProtectionOperations {
            read: o.read,
            write: o.write,
            delete: o.delete,
            rename: o.rename,
            create: o.create,
            copy: o.copy,
            execute: o.execute,
        };
        Ok(
            PolicyIntent {
                node_id: self.node_id,
                scope,
                action,
                operations,
                created_by: self.created_by.clone(),
                timestamp: now,
                comment: crate::text::copy_opt(&self.comment),
            },
        )
    }
}

/// Events pushed to the console.
#[derive(Debug)]
pub enum AgentEvent {
    FilesystemChanged { node_id: u64, change_type: String },
    PolicyApplied { policy_id: u64, node_id: u64, scope: String, action: String },
    PolicyRemoved { policy_id: u64, node_id: u64 },
    /// Identified by policy id, never by path.
    KernelBlocked { operation: String, policy_id: u64, process: String, timestamp: u64 },
    AgentConnected,
    AgentDisconnected,
    Error { message: String, code: String },
}

/// An operation the kernel filter reports.
#[derive(Debug, Clone, Copy, PartialEq, Eq, Structural)]
pub enum KernelOperation {
    Read,
    Write,
    Delete,
    Rename,
    Create,
    QueryInfo,
    SetInfo,
}

/// What the kernel filter decided.
#[derive(Debug, Clone, Copy, PartialEq, Eq, Structural)]
pub enum EnforcementDecision {
    Allowed,
    Blocked,
    Audited,
    NotProtected,
}

/// An event reported by the kernel filter.
#[derive(Debug)]
pub struct KernelEvent {
    pub node_id: u64,
    pub policy_id: u64,
    pub operation: KernelOperation,
    pub process_name: String,
    pub process_id: u32,
    pub decision: EnforcementDecision,
    pub timestamp: u64,
}

} // verus!
