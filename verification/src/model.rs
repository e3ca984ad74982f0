use vstd::prelude::*;

use crate::addressing::{
    authority_address, authority_nonce, credential_address, credential_nonce, Identity,
    RecordAddress,
};
use crate::asset::{AssetUnit, AssetUnitRef};
use crate::errors::SkillChainError;
use crate::metadata::{uri_well_formed, MetadataImage};
use crate::records::{AuditEntry, Credential, CredentialAuthority, CredentialData};

verus! {

/// The abstract state of one deployment: the authority registry, the
/// credential store, the asset ledger, the metadata registry, and the audit
/// log.
///
/// Every entry point of the protocol is specified as a pure transition on
/// this state together with a pure outcome; the executable system is proved
/// to follow both exactly.
#[verifier::ext_equal]
pub struct SystemModel {
    pub authorities: Seq<CredentialAuthority>,
    pub credentials: Seq<Credential>,
    pub units: Seq<AssetUnit>,
    pub metadata: Seq<MetadataImage>,
    pub audit_log: Seq<AuditEntry>,
}

impl SystemModel {
    /// Whether an authority record exists for `owner_identity`.
    pub open spec fn has_authority(self, owner_identity: Identity) -> bool {
        exists|i: int|
            0 <= i < self.authorities.len() && (#[trigger] self.authorities[i]).owner_identity
                == owner_identity
    }

    /// The position of the authority record of `owner_identity`.
    pub open spec fn authority_index(self, owner_identity: Identity) -> int {
        choose|i: int|
            0 <= i < self.authorities.len() && (#[trigger] self.authorities[i]).owner_identity
                == owner_identity
    }

    /// The authority record of `owner_identity`.
    pub open spec fn authority_at(self, owner_identity: Identity) -> CredentialAuthority {
        self.authorities[self.authority_index(owner_identity)]
    }

    /// Whether a credential record exists for `(recipient_identity, quest_id)`.
    pub open spec fn has_credential(self, recipient_identity: Identity, quest_id: u64) -> bool {
        exists|i: int|
            0 <= i < self.credentials.len() && (#[trigger] self.credentials[i]).keyed_by(
                recipient_identity,
                quest_id,
            )
    }

    /// The position of the credential record of `(recipient_identity, quest_id)`.
    pub open spec fn credential_index(self, recipient_identity: Identity, quest_id: u64) -> int {
        choose|i: int|
            0 <= i < self.credentials.len() && (#[trigger] self.credentials[i]).keyed_by(
                recipient_identity,
                quest_id,
            )
    }

    /// The credential record of `(recipient_identity, quest_id)`.
    pub open spec fn credential_at(self, recipient_identity: Identity, quest_id: u64) -> Credential {
        self.credentials[self.credential_index(recipient_identity, quest_id)]
    }

    /// Whether `caller` controls the asset unit of the credential `c`, and is
    /// thereby the authority entitled to revoke it.
    pub open spec fn controls(self, c: Credential, caller: Identity) -> bool {
        self.units[c.asset_unit_reference.index as int].controller == caller
    }

    /// The well-formedness of the deployment.
    pub open spec fn wf(self) -> bool {
        &&& self.units.len() <= usize::MAX
        &&& forall|i: int|
            0 <= i < self.authorities.len() ==> (#[trigger] self.authorities[i]).wf()
        &&& forall|i: int, j: int|
            0 <= i < self.authorities.len() && 0 <= j < self.authorities.len() && i != j ==> (
            #[trigger] self.authorities[i]).owner_identity != (
            #[trigger] self.authorities[j]).owner_identity
        &&& forall|i: int| 0 <= i < self.credentials.len() ==> (#[trigger] self.credentials[i]).wf()
        &&& forall|i: int, j: int|
            0 <= i < self.credentials.len() && 0 <= j < self.credentials.len() && i != j
                ==> !(#[trigger] self.credentials[i]).keyed_by(
                (#[trigger] self.credentials[j]).recipient_identity,
                self.credentials[j].quest_id,
            )
        &&& forall|i: int|
            0 <= i < self.credentials.len() ==> (
            #[trigger] self.credentials[i]).asset_unit_reference.index < self.units.len()
        &&& forall|i: int| 0 <= i < self.units.len() ==> (#[trigger] self.units[i]).wf()
        &&& forall|i: int|
            0 <= i < self.metadata.len() ==> (#[trigger] self.metadata[i]).unit.index
                < self.units.len()
        &&& forall|i: int|
            0 <= i < self.metadata.len() ==> uri_well_formed((#[trigger] self.metadata[i]).uri)
        &&& forall|i: int, j: int|
            0 <= i < self.metadata.len() && 0 <= j < self.metadata.len() && i != j ==> (
            #[trigger] self.metadata[i]).unit != (#[trigger] self.metadata[j]).unit
    }
}

/// The authority record `initialize(owner_identity)` creates.
pub open spec fn created_authority(owner_identity: Identity) -> CredentialAuthority {
    CredentialAuthority { owner_identity, authorization_nonce: authority_nonce(owner_identity) }
}

/// The state after `initialize(owner_identity)`: unchanged when the authority
/// record already exists, extended by the new record otherwise.
pub open spec fn initialize_transition(m: SystemModel, owner_identity: Identity) -> SystemModel {
    if m.has_authority(owner_identity) {
        m
    } else {
        SystemModel { authorities: m.authorities.push(created_authority(owner_identity)), ..m }
    }
}

/// What `initialize(owner_identity)` returns: the derived authority address,
/// or `AlreadyInitialized` when the record exists.
pub open spec fn initialize_outcome(m: SystemModel, owner_identity: Identity) -> Result<
    RecordAddress,
    SkillChainError,
> {
    if m.has_authority(owner_identity) {
        Err(SkillChainError::AlreadyInitialized)
    } else {
        Ok(authority_address(owner_identity))
    }
}

/// The asset unit issuance creates: a single indivisible unit held by the
/// recipient under the sole control of the issuing authority.
pub open spec fn issued_unit(authority_owner: Identity, recipient_identity: Identity) -> AssetUnit {
    AssetUnit { controller: authority_owner, supply: 1, holder: Some(recipient_identity) }
}

/// The credential record issuance writes, referring to the next free slot of
/// the asset ledger of `m`.
pub open spec fn issued_credential(
    m: SystemModel,
    recipient_identity: Identity,
    quest_id: u64,
    now: i64,
) -> Credential {
    Credential {
        recipient_identity,
        asset_unit_reference: AssetUnitRef { index: m.units.len() as usize },
        quest_id,
        issued_at: now,
        revoked_at: None,
        is_transferable: false,
        authorization_nonce: credential_nonce(recipient_identity, quest_id),
    }
}

/// The metadata registration issuance attaches to the new unit: zero resale
/// royalty, with the right to update retained by the issuing authority.
pub open spec fn issued_metadata(
    m: SystemModel,
    authority_owner: Identity,
    name: Seq<char>,
    symbol: Seq<char>,
    uri: Seq<char>,
) -> MetadataImage {
    MetadataImage {
        unit: AssetUnitRef { index: m.units.len() as usize },
        name,
        symbol,
        uri,
        royalty_basis_points: 0,
        is_mutable: true,
        update_authority: authority_owner,
    }
}

/// Whether `mint_credential` succeeds on `m` with these inputs: the derived
/// credential address must be free, the issuing authority must exist, and the
/// metadata service must accept the pointer.
pub open spec fn mint_admitted(
    m: SystemModel,
    authority_owner: Identity,
    recipient_identity: Identity,
    quest_id: u64,
    uri: Seq<char>,
) -> bool {
    &&& !m.has_credential(recipient_identity, quest_id)
    &&& m.has_authority(authority_owner)
    &&& uri_well_formed(uri)
}

/// The state after `mint_credential`: unchanged on any failure (issuance is
/// all-or-nothing), otherwise extended by the new asset unit, its metadata
/// registration, the credential record, and one audit log entry.
pub open spec fn mint_transition(
    m: SystemModel,
    authority_owner: Identity,
    recipient_identity: Identity,
    quest_id: u64,
    uri: Seq<char>,
    name: Seq<char>,
    symbol: Seq<char>,
    now: i64,
) -> SystemModel {
    if mint_admitted(m, authority_owner, recipient_identity, quest_id, uri) {
        SystemModel {
            authorities: m.authorities,
            credentials: m.credentials.push(
                issued_credential(m, recipient_identity, quest_id, now),
            ),
            units: m.units.push(issued_unit(authority_owner, recipient_identity)),
            metadata: m.metadata.push(issued_metadata(m, authority_owner, name, symbol, uri)),
            audit_log: m.audit_log.push(AuditEntry { quest_id, recipient_identity }),
        }
    } else {
        m
    }
}

/// What `mint_credential` returns: the derived credential address on success,
/// `CredentialAlreadyExists` when the address is occupied (checked before any
/// collaborator is called), `Unauthorized` when no authority record backs the
/// delegated-signing capability, and `MetadataServiceError` when the metadata
/// service refuses the pointer.
pub open spec fn mint_outcome(
    m: SystemModel,
    authority_owner: Identity,
    recipient_identity: Identity,
    quest_id: u64,
    uri: Seq<char>,
) -> Result<RecordAddress, SkillChainError> {
    if m.has_credential(recipient_identity, quest_id) {
        Err(SkillChainError::CredentialAlreadyExists)
    } else if !m.has_authority(authority_owner) {
        Err(SkillChainError::Unauthorized)
    } else if !uri_well_formed(uri) {
        Err(SkillChainError::MetadataServiceError)
    } else {
        Ok(credential_address(recipient_identity, quest_id))
    }
}

/// The state after `burn_credential`: unchanged on any failure, and unchanged
/// but for the revocation mark of the addressed record on success. A mark
/// already present is kept as it is.
pub open spec fn burn_transition(
    m: SystemModel,
    address: RecordAddress,
    authority_identity: Identity,
    asset_unit_reference: AssetUnitRef,
    now: i64,
) -> SystemModel {
    match address {
        RecordAddress::Credential { recipient_identity, quest_id } => {
            if !m.has_credential(recipient_identity, quest_id) {
                m
            } else {
                let i = m.credential_index(recipient_identity, quest_id);
                let c = m.credentials[i];
                if !m.controls(c, authority_identity) {
                    m
                } else if asset_unit_reference != c.asset_unit_reference {
                    m
                } else {
                    SystemModel { credentials: m.credentials.update(i, c.revoke_mark(now)), ..m }
                }
            }
        },
        RecordAddress::Authority { .. } => m,
    }
}

/// What `burn_credential` returns: `NotFound` when no credential record is
/// stored at the address, `Unauthorized` unless the caller is the authority
/// controlling the credential's asset unit, `RecordMismatch` when the
/// supplied unit reference is not the stored one, and success otherwise —
/// idempotently, whether or not the record was already revoked.
pub open spec fn burn_outcome(
    m: SystemModel,
    address: RecordAddress,
    authority_identity: Identity,
    asset_unit_reference: AssetUnitRef,
) -> Result<(), SkillChainError> {
    match address {
        RecordAddress::Credential { recipient_identity, quest_id } => {
            if !m.has_credential(recipient_identity, quest_id) {
                Err(SkillChainError::NotFound)
            } else {
                let c = m.credentials[m.credential_index(recipient_identity, quest_id)];
                if !m.controls(c, authority_identity) {
                    Err(SkillChainError::Unauthorized)
                } else if asset_unit_reference != c.asset_unit_reference {
                    Err(SkillChainError::RecordMismatch)
                } else {
                    Ok(())
                }
            }
        },
        RecordAddress::Authority { .. } => Err(SkillChainError::NotFound),
    }
}

/// What `verify_credential` returns: the public view of the record stored at
/// the address, or `NotFound`. Verification never mutates anything.
pub open spec fn verify_outcome(m: SystemModel, address: RecordAddress) -> Result<
    CredentialData,
    SkillChainError,
> {
    match address {
        RecordAddress::Credential { recipient_identity, quest_id } => {
            if m.has_credential(recipient_identity, quest_id) {
                Ok(m.credential_at(recipient_identity, quest_id).public_view())
            } else {
                Err(SkillChainError::NotFound)
            }
        },
        RecordAddress::Authority { .. } => Err(SkillChainError::NotFound),
    }
}

} // verus!
