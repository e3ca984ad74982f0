use vstd::prelude::*;

use crate::addressing::{authority_nonce, credential_nonce, Identity};
use crate::asset::AssetUnitRef;

verus! {

/// The singleton-per-issuer capability record.
///
/// Created once by `initialize` and never mutated or destroyed; every later
/// operation of the issuer reads it.
#[derive(Clone, Copy, PartialEq, Eq, Structural, Debug)]
pub struct CredentialAuthority {
    /// The public identity authorized to issue and revoke credentials.
    pub owner_identity: Identity,
    /// The derivation proof byte of the authority's record address.
    pub authorization_nonce: u8,
}

impl CredentialAuthority {
    /// The stored nonce is the derivation proof byte of the owner.
    pub open spec fn wf(self) -> bool {
        self.authorization_nonce == authority_nonce(self.owner_identity)
    }
}

/// One credential record per (recipient, quest) pair.
///
/// The issuance fields are set exactly once, at creation; the only mutation a
/// record ever sees is the one-way revocation mark.
#[derive(Clone, Copy, PartialEq, Eq, Debug)]
pub struct Credential {
    pub recipient_identity: Identity,
    /// The externally displayed asset unit that stands for this credential.
    pub asset_unit_reference: AssetUnitRef,
    pub quest_id: u64,
    /// When the credential was issued; set once and never changed.
    pub issued_at: i64,
    /// When the credential was revoked, if it ever was; transitions only from
    /// absent to present.
    pub revoked_at: Option<i64>,
    /// Constantly false: the credential is soulbound.
    pub is_transferable: bool,
    /// The derivation proof byte of the credential's record address.
    pub authorization_nonce: u8,
}

impl Credential {
    /// A record is sound when it is non-transferable and carries the
    /// derivation proof byte of its own key material.
    pub open spec fn wf(self) -> bool {
        &&& !self.is_transferable
        &&& self.authorization_nonce == credential_nonce(self.recipient_identity, self.quest_id)
    }

    /// Whether the record is keyed by `(recipient_identity, quest_id)`.
    pub open spec fn keyed_by(self, recipient_identity: Identity, quest_id: u64) -> bool {
        self.recipient_identity == recipient_identity && self.quest_id == quest_id
    }

    /// The record with the revocation mark set to `now` if it was absent;
    /// a mark already present is final and stays as it is.
    pub open spec fn revoke_mark(self, now: i64) -> Credential {
        if self.revoked_at is Some {
            self
        } else {
            Credential { revoked_at: Some(now), ..self }
        }
    }

    /// The public verification view of the record. Revocation status is
    /// deliberately not part of the view.
    pub open spec fn public_view(self) -> CredentialData {
        CredentialData {
            recipient_identity: self.recipient_identity,
            asset_unit_reference: self.asset_unit_reference,
            quest_id: self.quest_id,
            issued_at: self.issued_at,
            is_transferable: self.is_transferable,
        }
    }

    /// The two records agree on every field set at issuance.
    pub open spec fn same_issuance_fields(self, other: Credential) -> bool {
        &&& self.recipient_identity == other.recipient_identity
        &&& self.asset_unit_reference == other.asset_unit_reference
        &&& self.quest_id == other.quest_id
        &&& self.issued_at == other.issued_at
        &&& self.is_transferable == other.is_transferable
        &&& self.authorization_nonce == other.authorization_nonce
    }
}

/// The projection of a credential record that `verify_credential` hands out.
#[derive(Clone, Copy, PartialEq, Eq, Structural, Debug)]
pub struct CredentialData {
    pub recipient_identity: Identity,
    pub asset_unit_reference: AssetUnitRef,
    pub quest_id: u64,
    pub issued_at: i64,
    pub is_transferable: bool,
}

/// One audit log entry, appended for every successful issuance.
#[derive(Clone, Copy, PartialEq, Eq, Structural, Debug)]
pub struct AuditEntry {
    pub quest_id: u64,
    pub recipient_identity: Identity,
}

} // verus!
