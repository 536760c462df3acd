//! The errors of the command line tool, their texts and their exit codes.

use crate::text::join3;
use vstd::prelude::*;
use vstd::string::*;

verus! {

/// An error as the remote platform reports it.
#[derive(Debug)]
pub struct ApiErrorResponse {
    /// HTTP status code.
    pub code: u16,
    pub message: String,
    pub hint: Option<String>,
}

impl Clone for ApiErrorResponse {
    fn clone(&self) -> (r: Self)
        ensures
            r == *self,
    {
        ApiErrorResponse {
            code: self.code,
            message: self.message.clone(),
            hint: match &self.hint {
                Some(h) => Some(h.clone()),
                None => None,
            },
        }
    }
}

/// Everything that can go wrong. Errors that come from the file system,
/// the network or a parser are held by their text.
#[derive(Debug)]
pub enum N8nError {
    Config(String),
    InvalidApiKey,
    MissingApiKey,
    MissingBaseUrl,
    ProfileNotFound(String),
    ConfigFileRead(String),
    ConfigFileParse(String),
    HttpClient(String),
    Request(String),
    ConnectionFailed { url: String, message: String },
    Api(ApiErrorResponse),
    Deserialize(String),
    InvalidInput(String),
    Serialize(String),
    WorkflowNotFound(String),
    ExecutionNotFound(String),
    CredentialNotFound(String),
    FileRead { path: String, source: String },
    FileWrite { path: String, source: String },
    StdinRead(String),
    Cancelled,
    NodeNotFound(String),
    ConnectionNotFound { from: String, to: String },
    ValidationFailed(String),
    EditorFailed(String),
    NoChanges,
}

/// Exit code for a configuration error.
pub const EX_CONFIG: i32 = 78;

/// Exit code for a missing permission.
pub const EX_NOPERM: i32 = 77;

/// Exit code for something that is not there or cannot be reached.
pub const EX_UNAVAILABLE: i32 = 69;

/// Exit code for an input or output error.
pub const EX_IOERR: i32 = 74;

/// Exit code for bad data.
pub const EX_DATAERR: i32 = 65;

/// Exit code after the user cancelled.
pub const EX_CANCELLED: i32 = 130;

/// The text of an API error for the user: the message, and the hint below
/// it where there is one.
pub open spec fn user_message_of(e: ApiErrorResponse) -> Seq<char> {
    match e.hint {
        Some(hint) => e.message@ + "\n\nHint: "@ + hint@,
        None => e.message@,
    }
}

/// The exit code that belongs to an error.
pub open spec fn exit_code_of(e: N8nError) -> int {
    match e {
        N8nError::Config(_) => 78,
        N8nError::ProfileNotFound(_) => 78,
        N8nError::ConfigFileRead(_) => 78,
        N8nError::ConfigFileParse(_) => 78,
        N8nError::MissingBaseUrl => 78,
        N8nError::InvalidApiKey => 77,
        N8nError::MissingApiKey => 77,
        N8nError::Api(r) => if r.code == 401 || r.code == 403 {
            77
        } else if r.code == 404 {
            69
        } else {
            1
        },
        N8nError::WorkflowNotFound(_) => 69,
        N8nError::ExecutionNotFound(_) => 69,
        N8nError::CredentialNotFound(_) => 69,
        N8nError::ConnectionFailed { .. } => 69,
        N8nError::Request(_) => 69,
        N8nError::HttpClient(_) => 69,
        N8nError::FileRead { .. } => 74,
        N8nError::FileWrite { .. } => 74,
        N8nError::StdinRead(_) => 74,
        N8nError::InvalidInput(_) => 65,
        N8nError::Serialize(_) => 65,
        N8nError::Deserialize(_) => 65,
        N8nError::Cancelled => 130,
        N8nError::NodeNotFound(_) => 69,
        N8nError::ConnectionNotFound { .. } => 69,
        N8nError::ValidationFailed(_) => 65,
        N8nError::EditorFailed(_) => 74,
        N8nError::NoChanges => 0,
    }
}

/// The text of an error for the user.
pub open spec fn message_of(e: N8nError) -> Seq<char> {
    match e {
        N8nError::Config(m) => "Configuration error: "@ + m@,
        N8nError::InvalidApiKey => "Invalid API key format"@,
        N8nError::MissingApiKey =>
            "API key not configured. Set N8N_API_KEY environment variable or use --api-key"@,
        N8nError::MissingBaseUrl =>
            "Base URL not configured. Set N8N_BASE_URL environment variable or use --url"@,
        N8nError::ProfileNotFound(p) => "Profile '"@ + p@ + "' not found in configuration"@,
        N8nError::ConfigFileRead(s) => "Failed to read config file: "@ + s@,
        N8nError::ConfigFileParse(s) => "Failed to parse config file: "@ + s@,
        N8nError::HttpClient(s) => "HTTP client error: "@ + s@,
        N8nError::Request(s) => "Request failed: "@ + s@,
        N8nError::ConnectionFailed { url, message } => "Connection failed to "@ + url@ + ": "@
            + message@ + "\n\nHint: Check that n8n is running and accessible"@,
        N8nError::Api(r) => user_message_of(r),
        N8nError::Deserialize(s) => "Failed to parse response: "@ + s@,
        N8nError::InvalidInput(s) => "Failed to parse input: "@ + s@,
        N8nError::Serialize(s) => "Failed to serialize data: "@ + s@,
        N8nError::WorkflowNotFound(w) => "Workflow '"@ + w@ + "' not found"@,
        N8nError::ExecutionNotFound(x) => "Execution '"@ + x@ + "' not found"@,
        N8nError::CredentialNotFound(c) => "Credential '"@ + c@ + "' not found"@,
        N8nError::FileRead { path, source } => "Failed to read file '"@ + path@ + "': "@ + source@,
        N8nError::FileWrite { path, source } => "Failed to write file '"@ + path@ + "': "@
            + source@,
        N8nError::StdinRead(s) => "Failed to read from stdin: "@ + s@,
        N8nError::Cancelled => "Operation cancelled by user"@,
        N8nError::NodeNotFound(n) => "Node '"@ + n@ + "' not found in workflow"@,
        N8nError::ConnectionNotFound { from, to } => "Connection not found: "@ + from@ + " -> "@
            + to@,
        N8nError::ValidationFailed(v) => "Validation failed:\n"@ + v@,
        N8nError::EditorFailed(m) => "Editor failed: "@ + m@,
        N8nError::NoChanges => "No changes detected"@,
    }
}

impl ApiErrorResponse {
    /// The text of the error for the user.
    pub fn user_message(&self) -> (r: String)
        ensures
            r@ == user_message_of(*self),
    {
        match &self.hint {
            Some(hint) => join3(self.message.as_str(), "\n\nHint: ", hint.as_str()),
            None => self.message.clone(),
        }
    }

    /// The error for a status that came without a body to explain it.
    /// `status` is the status as text, such as `502 Bad Gateway`.
    pub fn unknown(code: u16, status: &str) -> (r: Self)
        ensures
            r.code == code,
            r.message@ == "Request failed with status "@ + status@,
            r.hint is None,
    {
        ApiErrorResponse {
            code,
            message: crate::text::join2("Request failed with status ", status),
            hint: None,
        }
    }
}

impl N8nError {
    /// The exit code of the process after this error.
    pub fn exit_code(&self) -> (r: i32)
        ensures
            r == exit_code_of(*self),
    {
        match self {
            N8nError::Config(_)
            | N8nError::ProfileNotFound(_)
            | N8nError::ConfigFileRead(_)
            | N8nError::ConfigFileParse(_)
            | N8nError::MissingBaseUrl => EX_CONFIG,
            N8nError::InvalidApiKey | N8nError::MissingApiKey => EX_NOPERM,
            N8nError::Api(e) => {
                if e.code == 401 || e.code == 403 {
                    EX_NOPERM
                } else if e.code == 404 {
                    EX_UNAVAILABLE
                } else {
                    1
                }
            },
            N8nError::WorkflowNotFound(_)
            | N8nError::ExecutionNotFound(_)
            | N8nError::CredentialNotFound(_) => EX_UNAVAILABLE,
            N8nError::ConnectionFailed { .. }
            | N8nError::Request(_)
            | N8nError::HttpClient(_) => EX_UNAVAILABLE,
            N8nError::FileRead { .. } | N8nError::FileWrite { .. } | N8nError::StdinRead(_) => EX_IOERR,
            N8nError::InvalidInput(_) | N8nError::Serialize(_) | N8nError::Deserialize(_) => EX_DATAERR,
            N8nError::Cancelled => EX_CANCELLED,
            N8nError::NodeNotFound(_) | N8nError::ConnectionNotFound { .. } => EX_UNAVAILABLE,
            N8nError::ValidationFailed(_) => EX_DATAERR,
            N8nError::EditorFailed(_) => EX_IOERR,
            N8nError::NoChanges => 0,
        }
    }

    /// The text of the error for the user.
    pub fn message(&self) -> (r: String)
        ensures
            r@ == message_of(*self),
    {
        match self {
            N8nError::Config(m) => crate::text::join2("Configuration error: ", m.as_str()),
            N8nError::InvalidApiKey => "Invalid API key format".to_owned(),
            N8nError::MissingApiKey =>
                "API key not configured. Set N8N_API_KEY environment variable or use --api-key".to_owned(),
            N8nError::MissingBaseUrl =>
                "Base URL not configured. Set N8N_BASE_URL environment variable or use --url".to_owned(),
            N8nError::ProfileNotFound(p) => join3(
                "Profile '",
                p.as_str(),
                "' not found in configuration",
            ),
            N8nError::ConfigFileRead(s) => crate::text::join2(
                "Failed to read config file: ",
                s.as_str(),
            ),
            N8nError::ConfigFileParse(s) => crate::text::join2(
                "Failed to parse config file: ",
                s.as_str(),
            ),
            N8nError::HttpClient(s) => crate::text::join2("HTTP client error: ", s.as_str()),
            N8nError::Request(s) => crate::text::join2("Request failed: ", s.as_str()),
            N8nError::ConnectionFailed { url, message } => {
                let mut text = join3("Connection failed to ", url.as_str(), ": ");
                text.append(message.as_str());
                text.append("\n\nHint: Check that n8n is running and accessible");
                text
            },
            N8nError::Api(r) => r.user_message(),
            N8nError::Deserialize(s) => crate::text::join2("Failed to parse response: ", s.as_str()),
            N8nError::InvalidInput(s) => crate::text::join2("Failed to parse input: ", s.as_str()),
            N8nError::Serialize(s) => crate::text::join2("Failed to serialize data: ", s.as_str()),
            N8nError::WorkflowNotFound(w) => join3("Workflow '", w.as_str(), "' not found"),
            N8nError::ExecutionNotFound(x) => join3("Execution '", x.as_str(), "' not found"),
            N8nError::CredentialNotFound(c) => join3("Credential '", c.as_str(), "' not found"),
            N8nError::FileRead { path, source } => {
                let mut text = join3("Failed to read file '", path.as_str(), "': ");
                text.append(source.as_str());
                text
            },
            N8nError::FileWrite { path, source } => {
                let mut text = join3("Failed to write file '", path.as_str(), "': ");
                text.append(source.as_str());
                text
            },
            N8nError::StdinRead(s) => crate::text::join2("Failed to read from stdin: ", s.as_str()),
            N8nError::Cancelled => "Operation cancelled by user".to_owned(),
            N8nError::NodeNotFound(n) => join3("Node '", n.as_str(), "' not found in workflow"),
            N8nError::ConnectionNotFound { from, to } => {
                let mut text = join3("Connection not found: ", from.as_str(), " -> ");
                text.append(to.as_str());
                text
            },
            N8nError::ValidationFailed(v) => crate::text::join2("Validation failed:\n", v.as_str()),
            N8nError::EditorFailed(m) => crate::text::join2("Editor failed: ", m.as_str()),
            N8nError::NoChanges => "No changes detected".to_owned(),
        }
    }
}

} // verus!
