use vstd::prelude::*;

verus! {

/// The ways a store or sync operation can fail.
#[derive(Debug, Clone, PartialEq, Eq)]
pub enum SyncError {
    /// The alias is absent, locally or remotely.
    NotFound,
    /// The alias is empty or holds a path separator.
    InvalidAlias,
    /// The local profile directory could not be read or written.
    StoreUnavailable,
    /// The remote listing failed or was not well-formed; holds the offending fragment.
    ListingUnavailable(String),
    /// The remote manifest does not exist.
    ManifestMissing,
    /// The remote manifest could not be deserialised.
    ManifestCorrupt,
    /// A remote call failed: the operation, the HTTP status (0 when none came back), and
    /// the alias concerned (empty when none).
    TransportError { operation: String, status: u16, alias: String },
    /// No live credential slot of the game client could be found.
    NoActiveTarget,
}

} // verus!
