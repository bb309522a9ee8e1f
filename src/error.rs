//! The error taxonomy of the protocol and the canonical error object.

use vstd::prelude::*;

use crate::json::{obj_get, push_member, Json};
use crate::text::{decimal, push_decimal, push_str, string_from_chars};
use crate::version::{version_text, Version, VersionSpec};

verus! {

/// Why an invocation failed, each kind with its stable numeric code.
#[derive(Debug)]
pub enum CniErrorCode {
    /// The requested protocol version is not served; carries the highest
    /// supported version.
    IncompatibleVersion(Version),
    /// A field of the network configuration is not supported.
    UnsupportedField,
    /// The container is unknown or does not exist.
    UnknownContainer,
    /// An environment variable is present but does not parse.
    InvalidEnvironmentVariable { var: String, cause: String },
    /// Reading the input failed.
    IOFailure(String),
    /// Content could not be decoded.
    DecodeContentFailure,
    /// The network configuration is malformed or misses a required field.
    InvalidNetworkConfig,
    /// A transient condition: the caller should invoke again later.
    TryAgainLater,
    /// A required environment variable is absent.
    MissingEnvironmentVariable { var: String },
    /// Required input is absent.
    MissingInput,
    /// The command is none of the known ones.
    UnknownCommand,
    /// A plugin-specific error.
    Other { code: usize, message: String, details: Option<String> },
}

impl CniErrorCode {
    /// The numeric code of an error kind.
    pub open spec fn spec_code(&self) -> usize {
        match self {
            CniErrorCode::IncompatibleVersion(_) => 1,
            CniErrorCode::UnsupportedField => 2,
            CniErrorCode::UnknownContainer => 3,
            CniErrorCode::InvalidEnvironmentVariable { .. } => 4,
            CniErrorCode::IOFailure(_) => 5,
            CniErrorCode::DecodeContentFailure => 6,
            CniErrorCode::InvalidNetworkConfig => 7,
            CniErrorCode::TryAgainLater => 11,
            CniErrorCode::MissingEnvironmentVariable { .. } => 12,
            CniErrorCode::MissingInput => 13,
            CniErrorCode::UnknownCommand => 14,
            CniErrorCode::Other { code, .. } => *code,
        }
    }

    /// The numeric code of this error.
    pub fn code(&self) -> (r: usize)
        ensures
            r == self.spec_code(),
    {
        match self {
            CniErrorCode::IncompatibleVersion(_) => 1,
            CniErrorCode::UnsupportedField => 2,
            CniErrorCode::UnknownContainer => 3,
            CniErrorCode::InvalidEnvironmentVariable { .. } => 4,
            CniErrorCode::IOFailure(_) => 5,
            CniErrorCode::DecodeContentFailure => 6,
            CniErrorCode::InvalidNetworkConfig => 7,
            CniErrorCode::TryAgainLater => 11,
            CniErrorCode::MissingEnvironmentVariable { .. } => 12,
            CniErrorCode::MissingInput => 13,
            CniErrorCode::UnknownCommand => 14,
            CniErrorCode::Other { code, .. } => *code,
        }
    }
}

/// The canonical error object reported to the runtime.
#[derive(Debug)]
pub struct CniError {
    /// The protocol version in use.
    pub cni_version: Version,
    /// The numeric error code.
    pub code: usize,
    /// A short message characterising the error.
    pub message: String,
    /// A longer description, where there is one.
    pub details: Option<String>,
}

impl CniError {
    /// The numeric code of this error.
    pub fn code(&self) -> (r: usize)
        ensures
            r == self.code,
    {
        self.code
    }
}

/// The short message of each error kind.
pub open spec fn error_message(e: CniErrorCode) -> Seq<char> {
    match e {
        CniErrorCode::IncompatibleVersion(_) => "Incompatible CNI version"@,
        CniErrorCode::UnsupportedField => "Unsupported field in network configuration"@,
        CniErrorCode::UnknownContainer => "Unknown container"@,
        CniErrorCode::InvalidEnvironmentVariable { .. } => "Invalid environment variable"@,
        CniErrorCode::IOFailure(_) => "I/O failure"@,
        CniErrorCode::DecodeContentFailure => "Failed to decode content"@,
        CniErrorCode::InvalidNetworkConfig => "Invalid network configuration"@,
        CniErrorCode::TryAgainLater => "Try again later"@,
        CniErrorCode::MissingEnvironmentVariable { .. } => "Missing environment variable"@,
        CniErrorCode::MissingInput => "Missing input"@,
        CniErrorCode::UnknownCommand => "Unknown command"@,
        CniErrorCode::Other { message, .. } => message@,
    }
}

/// The details of each error kind: the highest supported version, the
/// variable (and why it is malformed), the reason of an I/O failure, or a
/// plugin's own details.
pub open spec fn error_details(e: CniErrorCode) -> Option<Seq<char>> {
    match e {
        CniErrorCode::IncompatibleVersion(h) => Some(version_text(h@)),
        CniErrorCode::InvalidEnvironmentVariable { var, cause } => Some(var@ + ": "@ + cause@),
        CniErrorCode::IOFailure(m) => Some(m@),
        CniErrorCode::MissingEnvironmentVariable { var } => Some(var@),
        CniErrorCode::Other { details, .. } => match details {
            Some(d) => Some(d@),
            None => None,
        },
        _ => None,
    }
}

/// The view of an optional string.
pub open spec fn opt_string_view(s: Option<String>) -> Option<Seq<char>> {
    match s {
        Some(x) => Some(x@),
        None => None,
    }
}

impl CniErrorCode {
    /// The short message of this error.
    fn message(&self) -> (r: String)
        ensures
            r@ == error_message(*self),
    {
        match self {
            CniErrorCode::IncompatibleVersion(_) => "Incompatible CNI version".to_owned(),
            CniErrorCode::UnsupportedField => "Unsupported field in network configuration".to_owned(),
            CniErrorCode::UnknownContainer => "Unknown container".to_owned(),
            CniErrorCode::InvalidEnvironmentVariable { .. } => "Invalid environment variable".to_owned(),
            CniErrorCode::IOFailure(_) => "I/O failure".to_owned(),
            CniErrorCode::DecodeContentFailure => "Failed to decode content".to_owned(),
            CniErrorCode::InvalidNetworkConfig => "Invalid network configuration".to_owned(),
            CniErrorCode::TryAgainLater => "Try again later".to_owned(),
            CniErrorCode::MissingEnvironmentVariable { .. } => "Missing environment variable".to_owned(),
            CniErrorCode::MissingInput => "Missing input".to_owned(),
            CniErrorCode::UnknownCommand => "Unknown command".to_owned(),
            CniErrorCode::Other { message, .. } => message.clone(),
        }
    }

    /// The details of this error.
    fn details(&self) -> (r: Option<String>)
        ensures
            opt_string_view(r) == error_details(*self),
    {
        match self {
            CniErrorCode::IncompatibleVersion(h) => Some(h.to_text()),
            CniErrorCode::InvalidEnvironmentVariable { var, cause } => {
                let mut out: Vec<char> = Vec::new();
                push_str(&mut out, var.as_str());
                push_str(&mut out, ": ");
                push_str(&mut out, cause.as_str());
                Some(string_from_chars(&out))
            },
            CniErrorCode::IOFailure(m) => Some(m.clone()),
            CniErrorCode::MissingEnvironmentVariable { var } => Some(var.clone()),
            CniErrorCode::Other { details, .. } => match details {
                Some(d) => Some(d.clone()),
                None => None,
            },
            _ => None,
        }
    }

    /// The canonical error object for this error, under the protocol version
    /// in use.
    pub fn to_cni_error(&self, cni_version: &Version) -> (r: CniError)
        ensures
            r.cni_version@ == cni_version@,
            r.code == self.spec_code(),
            r.message@ == error_message(*self),
            opt_string_view(r.details) == error_details(*self),
    {
        CniError {
            cni_version: cni_version.copy(),
            code: self.code(),
            message: self.message(),
            details: self.details(),
        }
    }
}

/// The members of an encoded error object: `cniVersion`, `code`, `msg`, and
/// `details` where there are details.
pub open spec fn error_encoded(e: CniError, es: Seq<(String, Json)>) -> bool {
    &&& obj_get(es, "cniVersion"@) matches Some(Json::Str(s)) && s@ == version_text(e.cni_version@)
    &&& obj_get(es, "code"@) matches Some(Json::Number(n)) && n@ == decimal(e.code as nat)
    &&& obj_get(es, "msg"@) matches Some(Json::Str(s)) && s@ == e.message@
    &&& match e.details {
        Some(d) => obj_get(es, "details"@) matches Some(Json::Str(s)) && s@ == d@,
        None => obj_get(es, "details"@) is None,
    }
}

impl CniError {
    /// Encodes this error as a JSON object.
    pub fn to_json(self) -> (r: Json)
        ensures
            r matches Json::Object(es) && error_encoded(self, es@),
    {
        proof {
            reveal_strlit("cniVersion");
            reveal_strlit("code");
            reveal_strlit("msg");
            reveal_strlit("details");
            assert("cniVersion"@.len() == 10 && "code"@.len() == 4 && "msg"@.len() == 3);
            assert("details"@.len() == 7);
        }
        let mut code_text: Vec<char> = Vec::new();
        push_decimal(&mut code_text, self.code as u64);
        let mut es: Vec<(String, Json)> = Vec::new();
        push_member(&mut es, "cniVersion", Json::Str(self.cni_version.to_text()));
        push_member(&mut es, "code", Json::Number(string_from_chars(&code_text)));
        push_member(&mut es, "msg", Json::Str(self.message));
        if let Some(d) = self.details {
            push_member(&mut es, "details", Json::Str(d));
        }
        assert(obj_get(Seq::<(String, Json)>::empty(), "details"@) is None);
        Json::Object(es)
    }
}

} // verus!
