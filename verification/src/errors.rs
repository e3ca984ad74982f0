use vstd::prelude::*;

verus! {

/// Every failure the credential protocol reports.
///
/// Admission errors (`AlreadyInitialized`, `CredentialAlreadyExists`) are
/// detected before any collaborator is asked to do work, authorization errors
/// (`Unauthorized`, `RecordMismatch`) fail closed, `NotFound` covers reads of
/// an empty address, and the two service variants carry a collaborator's
/// refusal back to the caller.
#[derive(Clone, Copy, PartialEq, Eq, Structural, Debug)]
pub enum SkillChainError {
    /// An authority record already exists for the owner identity.
    AlreadyInitialized,
    /// A credential record already occupies the address derived from the
    /// (recipient, quest) pair.
    CredentialAlreadyExists,
    /// The asset service refused a request made during issuance.
    AssetServiceError,
    /// The metadata service refused a request made during issuance, for
    /// instance because the metadata URI is malformed.
    MetadataServiceError,
    /// No record is stored at the given address.
    NotFound,
    /// The caller is not the authority that controls the credential.
    Unauthorized,
    /// The supplied asset unit reference is not the one stored at issuance.
    RecordMismatch,
}

} // verus!
