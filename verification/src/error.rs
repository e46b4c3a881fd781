//! The failures that the registry reports by itself.

use vstd::prelude::*;

verus! {

/// A failure of the registry. Failures of the collaborators that fetch,
/// instantiate and construct a plugin are not among them: they reach the
/// caller as they are.
#[derive(Debug)]
pub enum PluginError {
    /// No instance is stored under this identity.
    UnknownId { id: String },
    /// An instance is already stored under this identity.
    ExistingId { id: String },
    /// The stable identity is not in the format of an identifier.
    InvalidId { id: String },
}

/// A failure without its payload.
#[derive(Debug, Clone, Copy, PartialEq, Eq, Structural)]
pub enum ErrorKind {
    UnknownId,
    ExistingId,
    InvalidId,
}

impl PluginError {
    /// The kind of this failure.
    pub open spec fn kind_spec(&self) -> ErrorKind {
        match self {
            PluginError::UnknownId { .. } => ErrorKind::UnknownId,
            PluginError::ExistingId { .. } => ErrorKind::ExistingId,
            PluginError::InvalidId { .. } => ErrorKind::InvalidId,
        }
    }

    /// The identity that this failure is about, as characters.
    pub open spec fn id_spec(&self) -> Seq<char> {
        match self {
            PluginError::UnknownId { id } => id@,
            PluginError::ExistingId { id } => id@,
            PluginError::InvalidId { id } => id@,
        }
    }

    /// The kind of this failure.
    pub fn kind(&self) -> (r: ErrorKind)
        ensures
            r == self.kind_spec(),
    {
        match self {
            PluginError::UnknownId { .. } => ErrorKind::UnknownId,
            PluginError::ExistingId { .. } => ErrorKind::ExistingId,
            PluginError::InvalidId { .. } => ErrorKind::InvalidId,
        }
    }

    /// The identity that this failure is about.
    pub fn id(&self) -> (r: &String)
        ensures
            r@ == self.id_spec(),
    {
        match self {
            PluginError::UnknownId { id } => id,
            PluginError::ExistingId { id } => id,
            PluginError::InvalidId { id } => id,
        }
    }
}

} // verus!
