//! The error taxonomy of the library.

use vstd::prelude::*;

verus! {

/// Every failure a library operation can report.
///
/// Batch operations (subscribing several keys, adding several contacts)
/// attempt every item, count the failures, and report one aggregated error
/// kind; the valid items of the batch are still committed.
#[derive(Clone, Copy, Debug, PartialEq, Eq, Structural)]
pub enum Error {
    /// The text is neither a valid prefixed-form key nor a valid raw
    /// hexadecimal key.
    InvalidKey,
    /// The credential file is unreadable, unwritable or corrupt.
    StorageFailure,
    /// A credential file already exists where a fresh user was to be created.
    UserAlreadyExists,
    /// No credential file exists and no alternate identity was supplied.
    MissingCredentials,
    /// At least one relay of a batch could not be added.
    AddRelayFailed,
    /// At least one key of a subscribe batch was invalid.
    SubscriptionFailed,
    /// At least one key of an unsubscribe batch was invalid.
    UnsubscribeFailed,
    /// At least one note of a publish batch was not sent.
    PublishFailed,
    /// At least one direct message of a batch was not sent.
    DmFailed,
    /// At least one channel message of a batch was not sent.
    SendChannelFailed,
    /// At least one key of a conversion batch was invalid.
    ConversionFailed,
    /// Argument arity mismatch, e.g. alias/key/relay lists of unequal length.
    MissingCliParameter,
    /// No relay connection could be established for a relay-dependent command.
    CannotConnectToRelays,
}

/// The display name of each error.
pub open spec fn error_name_spec(e: Error) -> Seq<char> {
    match e {
        Error::InvalidKey => "invalid key"@,
        Error::StorageFailure => "storage failure"@,
        Error::UserAlreadyExists => "user already exists"@,
        Error::MissingCredentials => "missing credentials"@,
        Error::AddRelayFailed => "add relay failed"@,
        Error::SubscriptionFailed => "subscription failed"@,
        Error::UnsubscribeFailed => "unsubscribe failed"@,
        Error::PublishFailed => "publish failed"@,
        Error::DmFailed => "dm failed"@,
        Error::SendChannelFailed => "send channel message failed"@,
        Error::ConversionFailed => "conversion failed"@,
        Error::MissingCliParameter => "missing CLI parameter"@,
        Error::CannotConnectToRelays => "cannot connect to relays"@,
    }
}

impl Error {
    /// A short human-readable name for the error, for display by callers.
    pub fn name(&self) -> (r: &'static str)
        ensures
            r@ == error_name_spec(*self),
    {
        match self {
            Error::InvalidKey => "invalid key",
            Error::StorageFailure => "storage failure",
            Error::UserAlreadyExists => "user already exists",
            Error::MissingCredentials => "missing credentials",
            Error::AddRelayFailed => "add relay failed",
            Error::SubscriptionFailed => "subscription failed",
            Error::UnsubscribeFailed => "unsubscribe failed",
            Error::PublishFailed => "publish failed",
            Error::DmFailed => "dm failed",
            Error::SendChannelFailed => "send channel message failed",
            Error::ConversionFailed => "conversion failed",
            Error::MissingCliParameter => "missing CLI parameter",
            Error::CannotConnectToRelays => "cannot connect to relays",
        }
    }
}

} // verus!
