//! Error taxonomy of the control plane.
//!
//! Fatal errors shut the owning service task down; transient ones are
//! retried by the owning reactor on its own schedule; directory
//! insufficiency waits for the next directory event; upload failures are
//! categorized for the retry policy.

use vstd::prelude::*;
use crate::ids::IptLocalId;

verus! {

/// Broad classification of an error, for reporting.
#[derive(Clone, Copy, PartialEq, Eq, Structural, Debug)]
pub enum ErrorKind {
    /// The directory has no usable information for us.
    TorDirectoryUnusable,
    /// The clocks look wrong.
    ClockSkew,
    /// A bug inside this crate.
    Internal,
    /// The keystore holds something it should not, or lacks what it must hold.
    KeystoreCorrupted,
}

/// An unrecoverable error: the service task must shut down.
#[derive(Clone, Copy, PartialEq, Eq, Structural, Debug)]
pub enum FatalError {
    /// Keys for a freshly minted IPT identifier were already in the keystore.
    IptKeysFoundUnexpectedly {
        /// The identifier whose keys were found.
        lid: IptLocalId,
    },
    /// The long-term identity keypair is missing from the keystore.
    MissingHsIdKeypair,
    /// The manager's progress loop ran past its safety bound.
    ManagerLooping,
    /// An internal invariant was broken.
    Bug,
}

/// An error that prevents the manager from starting at all.
#[derive(Clone, Copy, PartialEq, Eq, Structural, Debug)]
pub enum StartupError {
    /// Another manager holds the lock on the same state directory.
    StateLocked,
    /// The state directory could not be opened or verified.
    StateDirectoryInaccessible,
    /// The keystore lacks the service's long-term identity key pair.
    MissingIdentityKeys,
    /// The persisted inventory could not be decoded.
    CorruptInventory,
    /// The keystore lost the keys of a persisted introduction point.
    MissingIptKey {
        /// The identifier whose keys are gone.
        lid: IptLocalId,
    },
}

/// An error from trying to select a new IPT relay.
#[derive(Clone, Copy, PartialEq, Eq, Structural, Debug)]
pub enum ChooseIptError {
    /// Bad or insufficient directory information.
    NetDir,
    /// Too few suitable relays.
    TooFewUsableRelays,
    /// Time overflow while computing the planned retirement.
    TimeOverflow,
    /// Internal error.
    Bug,
}

impl ChooseIptError {
    /// The classification of this error.
    pub fn kind(&self) -> (r: ErrorKind)
        ensures
            r == (match *self {
                ChooseIptError::NetDir => ErrorKind::TorDirectoryUnusable,
                ChooseIptError::TooFewUsableRelays => ErrorKind::TorDirectoryUnusable,
                ChooseIptError::TimeOverflow => ErrorKind::ClockSkew,
                ChooseIptError::Bug => ErrorKind::Internal,
            }),
    {
        match self {
            ChooseIptError::NetDir => ErrorKind::TorDirectoryUnusable,
            ChooseIptError::TooFewUsableRelays => ErrorKind::TorDirectoryUnusable,
            ChooseIptError::TimeOverflow => ErrorKind::ClockSkew,
            ChooseIptError::Bug => ErrorKind::Internal,
        }
    }
}

/// An error from trying to create an IPT at a selected relay.
#[derive(Clone, Copy, PartialEq, Eq, Structural, Debug)]
pub enum CreateIptError {
    /// A fatal error: propagate it.
    Fatal(FatalError),
    /// Transient trouble with the keystore.
    Keystore,
    /// Transient trouble opening the replay log.
    OpenReplayLog,
}

/// An error that occurs while trying to upload a descriptor.
#[derive(Clone, Copy, PartialEq, Eq, Structural, Debug)]
pub enum UploadError {
    /// The upload request failed after the circuit was built.
    Request,
    /// The circuit to the directory could not be built.
    Circuit,
    /// The stream over the circuit failed.
    Stream,
    /// An internal error.
    Bug,
}

impl UploadError {
    /// Whether the retry policy retries after this error.
    ///
    /// Everything is retried except an internal error.
    pub fn should_retry(&self) -> (r: bool)
        ensures
            r == !(*self is Bug),
    {
        match self {
            UploadError::Request | UploadError::Circuit | UploadError::Stream => true,
            UploadError::Bug => false,
        }
    }
}

} // verus!
