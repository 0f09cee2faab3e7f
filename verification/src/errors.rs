//! The unified error type the whole backend reports with.

use vstd::prelude::*;

use crate::token::clone_opt_string;

verus! {

/// The unified error taxonomy.
pub enum URMSError {
    /// A file or stream operation failed.
    IoError { message: String, context: Option<String> },
    /// A network operation failed.
    NetworkError { message: String },
    /// A named resource does not exist.
    NotFound { resource: String },
    /// Access to a resource was denied.
    PermissionDenied { resource: String },
    /// An operation ran out of time.
    Timeout { operation: String },
    /// An internal failure with no better classification.
    Internal { message: String },
    /// An input field was rejected.
    ValidationError { field: String, reason: String },
    /// The configuration is unusable.
    ConfigError { message: String },
}

/// The line an error is displayed and logged as.
pub open spec fn urms_message(e: URMSError) -> Seq<char> {
    match e {
        URMSError::IoError { message, .. } => "IO Error: "@ + message@,
        URMSError::NetworkError { message } => "Network Error: "@ + message@,
        URMSError::NotFound { resource } => "Not Found: "@ + resource@,
        URMSError::PermissionDenied { resource } => "Permission Denied: "@ + resource@,
        URMSError::Timeout { operation } => "Timeout: "@ + operation@,
        URMSError::Internal { message } => "Internal Error: "@ + message@,
        URMSError::ValidationError { field, reason } => "Validation Error - "@ + field@ + ": "@
            + reason@,
        URMSError::ConfigError { message } => "Config Error: "@ + message@,
    }
}

impl URMSError {
    /// Render the error as its display line.
    pub fn message(&self) -> (r: String)
        ensures
            r@ == urms_message(*self),
    {
        match self {
            URMSError::IoError { message, .. } => prefixed("IO Error: ", message),
            URMSError::NetworkError { message } => prefixed("Network Error: ", message),
            URMSError::NotFound { resource } => prefixed("Not Found: ", resource),
            URMSError::PermissionDenied { resource } => prefixed("Permission Denied: ", resource),
            URMSError::Timeout { operation } => prefixed("Timeout: ", operation),
            URMSError::Internal { message } => prefixed("Internal Error: ", message),
            URMSError::ValidationError { field, reason } => {
                let mut out = String::from_str("Validation Error - ");
                out.append(field.as_str());
                out.append(": ");
                out.append(reason.as_str());
                out
            },
            URMSError::ConfigError { message } => prefixed("Config Error: ", message),
        }
    }

    /// The error an I/O failure's message converts to, as `From` on the
    /// underlying error would build it.
    pub fn from_io_message(message: String) -> (r: URMSError)
        ensures
            r == (URMSError::IoError { message, context: None::<String> }),
    {
        URMSError::IoError { message, context: None }
    }
}

/// A literal prefix followed by a value.
fn prefixed(prefix: &str, value: &String) -> (r: String)
    ensures
        r@ == prefix@ + value@,
{
    let mut out = String::from_str(prefix);
    out.append(value.as_str());
    out
}

impl Clone for URMSError {
    fn clone(&self) -> (r: Self)
        ensures
            r == *self,
    {
        match self {
            URMSError::IoError { message, context } => URMSError::IoError {
                message: message.clone(),
                context: clone_opt_string(context),
            },
            URMSError::NetworkError { message } => URMSError::NetworkError {
                message: message.clone(),
            },
            URMSError::NotFound { resource } => URMSError::NotFound { resource: resource.clone() },
            URMSError::PermissionDenied { resource } => URMSError::PermissionDenied {
                resource: resource.clone(),
            },
            URMSError::Timeout { operation } => URMSError::Timeout {
                operation: operation.clone(),
            },
            URMSError::Internal { message } => URMSError::Internal { message: message.clone() },
            URMSError::ValidationError { field, reason } => URMSError::ValidationError {
                field: field.clone(),
                reason: reason.clone(),
            },
            URMSError::ConfigError { message } => URMSError::ConfigError {
                message: message.clone(),
            },
        }
    }
}

impl From<String> for URMSError {
    /// Any bare message is an internal error.
    fn from(err: String) -> (r: Self) {
        URMSError::Internal { message: err }
    }
}

impl vstd::std_specs::convert::FromSpecImpl<String> for URMSError {
    open spec fn obeys_from_spec() -> bool {
        true
    }

    open spec fn from_spec(err: String) -> Self {
        URMSError::Internal { message: err }
    }
}

impl<'a> From<&'a str> for URMSError {
    /// Any bare message is an internal error.
    fn from(err: &'a str) -> (r: Self) {
        URMSError::Internal { message: String::from_str(err) }
    }
}

impl<'a> vstd::std_specs::convert::FromSpecImpl<&'a str> for URMSError {
    // The converted message is a fresh `String`, whose identity a spec
    // cannot pin; contracts about this conversion go through the
    // `String` form instead.
    open spec fn obeys_from_spec() -> bool {
        false
    }

    open spec fn from_spec(err: &'a str) -> Self {
        arbitrary()
    }
}

/// The line an operation's failure is logged as.
pub fn log_error(manager: &str, operation: &str, error: &URMSError) -> (r: String)
    ensures
        r@ == "["@ + manager@ + "] Operation '"@ + operation@ + "' failed: "@ + urms_message(
            *error,
        ),
{
    let mut out = String::from_str("[");
    out.append(manager);
    out.append("] Operation '");
    out.append(operation);
    out.append("' failed: ");
    let msg = error.message();
    out.append(msg.as_str());
    out
}

} // verus!
