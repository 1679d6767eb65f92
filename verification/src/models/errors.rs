//! Error taxonomy of the service, with the mapping from each error kind to
//! its HTTP status code and to the message shown to the client.
//!
//! Infrastructure faults are collapsed into [`GenericError::ServerError`]
//! before they leave the core, so no internal detail reaches a client.

use vstd::prelude::*;

verus! {

/// Status code for a rejected request whose required input is missing.
pub const STATUS_BAD_REQUEST: u16 = 400;

/// Status code for a rejected credential or token.
pub const STATUS_UNAUTHORIZED: u16 = 401;

/// Status code for an infrastructure fault inside the service.
pub const STATUS_INTERNAL_SERVER_ERROR: u16 = 500;

/// Catch-all error for infrastructure faults. The client learns nothing
/// beyond "internal server error".
#[derive(Debug, Clone, Copy, PartialEq, Eq, Structural)]
pub enum GenericError {
    ServerError,
}

impl GenericError {
    /// Every infrastructure fault maps to the 500 status class.
    pub fn status_code(&self) -> (code: u16)
        ensures
            code == STATUS_INTERNAL_SERVER_ERROR,
    {
        STATUS_INTERNAL_SERVER_ERROR
    }

    /// The opaque message sent to the client.
    pub fn message(&self) -> (msg: String)
        ensures
            msg@ == "internal server error"@,
    {
        String::from_str("internal server error")
    }
}

/// Errors of the authentication endpoints and of the request guard.
#[derive(Debug, Clone, Copy, PartialEq, Eq, Structural)]
pub enum AuthError {
    /// Issuance was attempted with a username/password pair that does not
    /// match the configured credentials.
    InvalidCredentials,
    /// The request carries no token header.
    MissingToken,
    /// The request carries a token that is absent or expired.
    InvalidToken,
    /// An infrastructure fault surfaced through an authentication operation.
    GenericError(GenericError),
}

impl AuthError {
    /// The HTTP status code each authentication error maps to.
    pub open spec fn spec_status_code(&self) -> u16 {
        match self {
            AuthError::InvalidCredentials => STATUS_UNAUTHORIZED,
            AuthError::InvalidToken => STATUS_UNAUTHORIZED,
            AuthError::MissingToken => STATUS_BAD_REQUEST,
            AuthError::GenericError(_) => STATUS_INTERNAL_SERVER_ERROR,
        }
    }

    /// Rejected credentials and rejected tokens are 401-class; a missing
    /// token header is 400-class; faults are 500-class.
    pub fn status_code(&self) -> (code: u16)
        ensures
            code == self.spec_status_code(),
    {
        match self {
            AuthError::InvalidCredentials => STATUS_UNAUTHORIZED,
            AuthError::InvalidToken => STATUS_UNAUTHORIZED,
            AuthError::MissingToken => STATUS_BAD_REQUEST,
            AuthError::GenericError(inner) => inner.status_code(),
        }
    }

    /// The message of each authentication error.
    pub open spec fn spec_message(&self) -> Seq<char> {
        match self {
            AuthError::InvalidCredentials => "invalid credentials"@,
            AuthError::MissingToken => "missing token"@,
            AuthError::InvalidToken => "invalid token"@,
            AuthError::GenericError(_) => "internal server error"@,
        }
    }

    /// The message sent to the client for each error kind.
    pub fn message(&self) -> (msg: String)
        ensures
            msg@ == self.spec_message(),
    {
        match self {
            AuthError::InvalidCredentials => String::from_str("invalid credentials"),
            AuthError::MissingToken => String::from_str("missing token"),
            AuthError::InvalidToken => String::from_str("invalid token"),
            AuthError::GenericError(inner) => inner.message(),
        }
    }
}

impl From<GenericError> for AuthError {
    /// An infrastructure fault becomes an authentication error without
    /// gaining any detail.
    fn from(value: GenericError) -> (result: Self)
        ensures
            result == AuthError::GenericError(value),
    {
        AuthError::GenericError(value)
    }
}

impl vstd::std_specs::convert::FromSpecImpl<GenericError> for AuthError {
    open spec fn obeys_from_spec() -> bool {
        true
    }

    open spec fn from_spec(value: GenericError) -> Self {
        AuthError::GenericError(value)
    }
}

/// Errors of the drive listing, mounting and unmounting operations.
#[derive(Debug, Clone, Copy, PartialEq, Eq, Structural)]
pub enum DrivesError {
    /// The block-device listing could not be parsed.
    ParseError,
    /// A drive could not be unmounted.
    UnmountError,
    /// A drive could not be mounted.
    MountError,
    /// A drive could not be unmounted because its mount point is in use.
    TargetBusy,
    /// A system command or file operation failed.
    IOError,
}

impl DrivesError {
    /// The message of each drive error.
    pub open spec fn spec_message(&self) -> Seq<char> {
        match self {
            DrivesError::ParseError => "parse error"@,
            DrivesError::UnmountError => "unmount error"@,
            DrivesError::MountError => "mount error"@,
            DrivesError::TargetBusy => "Target is busy cannot unmount"@,
            DrivesError::IOError => "io error"@,
        }
    }

    /// The message sent to the client for each error kind.
    pub fn message(&self) -> (msg: String)
        ensures
            msg@ == self.spec_message(),
    {
        match self {
            DrivesError::ParseError => String::from_str("parse error"),
            DrivesError::UnmountError => String::from_str("unmount error"),
            DrivesError::MountError => String::from_str("mount error"),
            DrivesError::TargetBusy => String::from_str("Target is busy cannot unmount"),
            DrivesError::IOError => String::from_str("io error"),
        }
    }

    /// Every drive error is reported in the 500 status class.
    pub fn status_code(&self) -> (code: u16)
        ensures
            code == STATUS_INTERNAL_SERVER_ERROR,
    {
        STATUS_INTERNAL_SERVER_ERROR
    }
}

/// Errors of the file-listing operation.
#[derive(Debug, Clone, Copy, PartialEq, Eq, Structural)]
pub enum FilesError {
    /// The requested path resolves outside the mount root.
    OutsideMountRoot,
    /// The requested path is not a directory.
    NotDirectory,
    /// A file operation failed.
    IOError,
}

impl FilesError {
    /// The HTTP status code each file error maps to.
    pub open spec fn spec_status_code(&self) -> u16 {
        match self {
            FilesError::IOError => STATUS_INTERNAL_SERVER_ERROR,
            FilesError::NotDirectory => STATUS_BAD_REQUEST,
            FilesError::OutsideMountRoot => STATUS_BAD_REQUEST,
        }
    }

    /// Bad paths are the client's fault (400-class); failed file operations
    /// are the service's (500-class).
    pub fn status_code(&self) -> (code: u16)
        ensures
            code == self.spec_status_code(),
    {
        match self {
            FilesError::IOError => STATUS_INTERNAL_SERVER_ERROR,
            FilesError::NotDirectory => STATUS_BAD_REQUEST,
            FilesError::OutsideMountRoot => STATUS_BAD_REQUEST,
        }
    }

    /// The message of each file error.
    pub open spec fn spec_message(&self) -> Seq<char> {
        match self {
            FilesError::OutsideMountRoot => "path outside mount root"@,
            FilesError::NotDirectory => "path was not a directory"@,
            FilesError::IOError => "io error"@,
        }
    }

    /// The message sent to the client for each error kind.
    pub fn message(&self) -> (msg: String)
        ensures
            msg@ == self.spec_message(),
    {
        match self {
            FilesError::OutsideMountRoot => String::from_str("path outside mount root"),
            FilesError::NotDirectory => String::from_str("path was not a directory"),
            FilesError::IOError => String::from_str("io error"),
        }
    }
}

/// Errors of the hotspot provisioning helper.
#[derive(Debug, Clone, Copy, PartialEq, Eq, Structural)]
pub enum HotspotError {
    /// The hotspot command ran but did not report a successful activation.
    NotActivated,
    /// The hotspot command could not be executed.
    CommandError,
    /// The hotspot command's output could not be read as text.
    CommandOutputError,
}

impl HotspotError {
    /// The message of each hotspot error.
    pub open spec fn spec_message(&self) -> Seq<char> {
        match self {
            HotspotError::NotActivated => "failed to activate hotspot"@,
            HotspotError::CommandError => "failed to execute hotspot command"@,
            HotspotError::CommandOutputError => "failed to parse output from hotspot command"@,
        }
    }

    /// The message sent to the client for each error kind.
    pub fn message(&self) -> (msg: String)
        ensures
            msg@ == self.spec_message(),
    {
        match self {
            HotspotError::NotActivated => String::from_str("failed to activate hotspot"),
            HotspotError::CommandError => String::from_str("failed to execute hotspot command"),
            HotspotError::CommandOutputError => {
                String::from_str("failed to parse output from hotspot command")
            },
        }
    }
}

/// Collapses any error into the opaque server fault, so that callers can
/// write `.map_err(server_error)` at an infrastructure boundary.
pub fn server_error<E>(_err: E) -> (result: GenericError)
    ensures
        result == GenericError::ServerError,
{
    GenericError::ServerError
}

} // verus!
