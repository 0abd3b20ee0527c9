//! The errors that a client operation can end in, and how a failed response
//! is classified.

use crate::text::{decimal, push_decimal, push_str, string_of};
use vstd::prelude::*;

verus! {

/// The result of a client operation.
pub type ClientResult<T> = Result<T, ClientError>;

/// What the transport reported when a request could not be carried out.
#[derive(Debug, Clone, PartialEq, Eq)]
pub struct HttpFailure {
    /// The transport's own description of the failure.
    pub message: String,
    /// The request ran into its time limit.
    pub is_timeout: bool,
    /// The connection could not be opened.
    pub is_connect: bool,
    /// The status of the response that the failure stems from, if any.
    pub status: Option<u16>,
}

/// The ways in which a client operation fails.
#[derive(Debug, Clone, PartialEq, Eq)]
pub enum ClientError {
    /// The transport failed.
    HttpError(HttpFailure),
    /// A payload did not have the structure that was expected.
    ParseError(String),
    /// The configuration is not usable.
    ConfigError(String),
    /// The server answered 401 or 403.
    AuthenticationError(String),
    /// The server answered with another status outside 2xx.
    ServerError { status: u16, message: String },
    /// The server answered 404.
    ModelNotFound(String),
    /// A model operation was refused.
    ModelOperationError(String),
    /// An operation ran out of time.
    TimeoutError(String),
    /// The network failed.
    NetworkError(String),
    /// A response was not in the expected format.
    InvalidResponse(String),
    /// A stream broke off other than by ending.
    StreamError(String),
}

impl ClientError {
    /// The error that a response with `status` outside 2xx and body
    /// `message` stands for.
    pub open spec fn of_response(status: u16, message: String) -> ClientError {
        if status == 401 || status == 403 {
            ClientError::AuthenticationError(message)
        } else if status == 404 {
            ClientError::ModelNotFound(message)
        } else {
            ClientError::ServerError { status, message }
        }
    }

    /// Whether trying again can help: a transport failure to connect or in
    /// time, a 5xx answer, a timeout or a network error.
    pub open spec fn retryable(self) -> bool {
        match self {
            ClientError::HttpError(f) => f.is_timeout || f.is_connect,
            ClientError::ServerError { status, .. } => 500 <= status <= 599,
            ClientError::TimeoutError(_) => true,
            ClientError::NetworkError(_) => true,
            _ => false,
        }
    }

    /// The HTTP status that the error carries, if any.
    pub open spec fn status(self) -> Option<u16> {
        match self {
            ClientError::ServerError { status, .. } => Some(status),
            ClientError::HttpError(f) => f.status,
            _ => None,
        }
    }

    /// The error as a line of text.
    pub open spec fn description(self) -> Seq<char> {
        match self {
            ClientError::HttpError(f) => "HTTP request failed: "@ + f.message@,
            ClientError::ParseError(m) => "JSON parsing failed: "@ + m@,
            ClientError::ConfigError(m) => "Configuration error: "@ + m@,
            ClientError::AuthenticationError(m) => "Authentication failed: "@ + m@,
            ClientError::ServerError { status, message } => "Server error: "@ + decimal(
                status as nat,
            ) + " - "@ + message@,
            ClientError::ModelNotFound(m) => "Model not found: "@ + m@,
            ClientError::ModelOperationError(m) => "Model operation failed: "@ + m@,
            ClientError::TimeoutError(m) => "Timeout error: "@ + m@,
            ClientError::NetworkError(m) => "Network error: "@ + m@,
            ClientError::InvalidResponse(m) => "Invalid response format: "@ + m@,
            ClientError::StreamError(m) => "Stream error: "@ + m@,
        }
    }

    /// Classifies a response whose status is outside 2xx: 401 and 403 are
    /// authentication failures, 404 is a missing model, anything else a
    /// server error that keeps the status.
    pub fn from_response(status: u16, message: String) -> (e: Self)
        ensures
            e == Self::of_response(status, message),
    {
        if status == 401 || status == 403 {
            ClientError::AuthenticationError(message)
        } else if status == 404 {
            ClientError::ModelNotFound(message)
        } else {
            ClientError::ServerError { status, message }
        }
    }

    /// Whether trying again can help.
    pub fn is_retryable(&self) -> (b: bool)
        ensures
            b == self.retryable(),
    {
        match self {
            ClientError::HttpError(f) => f.is_timeout || f.is_connect,
            ClientError::ServerError { status, .. } => 500 <= *status && *status <= 599,
            ClientError::TimeoutError(_) => true,
            ClientError::NetworkError(_) => true,
            _ => false,
        }
    }

    /// The HTTP status that the error carries, if any.
    pub fn status_code(&self) -> (c: Option<u16>)
        ensures
            c == self.status(),
    {
        match self {
            ClientError::ServerError { status, .. } => Some(*status),
            ClientError::HttpError(f) => f.status,
            _ => None,
        }
    }

    /// The error as a line of text.
    pub fn message(&self) -> (s: String)
        ensures
            s@ == self.description(),
    {
        let mut out: Vec<char> = Vec::new();
        match self {
            ClientError::HttpError(f) => {
                push_str(&mut out, "HTTP request failed: ");
                push_str(&mut out, f.message.as_str());
            },
            ClientError::ParseError(m) => {
                push_str(&mut out, "JSON parsing failed: ");
                push_str(&mut out, m.as_str());
            },
            ClientError::ConfigError(m) => {
                push_str(&mut out, "Configuration error: ");
                push_str(&mut out, m.as_str());
            },
            ClientError::AuthenticationError(m) => {
                push_str(&mut out, "Authentication failed: ");
                push_str(&mut out, m.as_str());
            },
            ClientError::ServerError { status, message } => {
                push_str(&mut out, "Server error: ");
                push_decimal(&mut out, *status as u64);
                push_str(&mut out, " - ");
                push_str(&mut out, message.as_str());
            },
            ClientError::ModelNotFound(m) => {
                push_str(&mut out, "Model not found: ");
                push_str(&mut out, m.as_str());
            },
            ClientError::ModelOperationError(m) => {
                push_str(&mut out, "Model operation failed: ");
                push_str(&mut out, m.as_str());
            },
            ClientError::TimeoutError(m) => {
                push_str(&mut out, "Timeout error: ");
                push_str(&mut out, m.as_str());
            },
            ClientError::NetworkError(m) => {
                push_str(&mut out, "Network error: ");
                push_str(&mut out, m.as_str());
            },
            ClientError::InvalidResponse(m) => {
                push_str(&mut out, "Invalid response format: ");
                push_str(&mut out, m.as_str());
            },
            ClientError::StreamError(m) => {
                push_str(&mut out, "Stream error: ");
                push_str(&mut out, m.as_str());
            },
        }
        proof {
            assert(out@ =~= self.description());
        }
        string_of(&out)
    }
}

} // verus!
