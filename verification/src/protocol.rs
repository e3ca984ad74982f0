use vstd::prelude::*;

use crate::addressing::{
    derive_authority_address, derive_credential_address, Identity, RecordAddress,
    SigningCapability,
};
use crate::asset::{AssetLedger, AssetUnit, AssetUnitRef};
use crate::errors::SkillChainError;
use crate::laws::{
    lemma_burn_preserves_wf, lemma_initialize_preserves_wf, lemma_mint_preserves_wf,
};
use crate::metadata::{has_registration, uri_well_formed, MetadataEntry, MetadataRegistry};
use crate::model::{
    burn_outcome, burn_transition, initialize_outcome, initialize_transition, issued_credential,
    issued_metadata, issued_unit, mint_outcome, mint_transition, verify_outcome, SystemModel,
};
use crate::records::{AuditEntry, Credential, CredentialAuthority, CredentialData};

verus! {

/// One in-process deployment of the credential protocol: the authority
/// registry, the credential store, and the two collaborator services, plus
/// the audit log of successful issuances.
///
/// Every operation is a single atomic transition: it either completes as a
/// whole or leaves the deployment exactly as it was. The current time is
/// handed in by the caller, as the runtime clock is not part of the core.
pub struct System {
    pub authorities: Vec<CredentialAuthority>,
    pub credentials: Vec<Credential>,
    pub assets: AssetLedger,
    pub metadata: MetadataRegistry,
    pub audit_log: Vec<AuditEntry>,
}

impl System {
    /// The deployment as its abstract state.
    pub open spec fn model(self) -> SystemModel {
        SystemModel {
            authorities: self.authorities@,
            credentials: self.credentials@,
            units: self.assets.units@,
            metadata: self.metadata.images(),
            audit_log: self.audit_log@,
        }
    }

    /// The deployment is well-formed.
    pub open spec fn wf(self) -> bool {
        self.model().wf()
    }

    /// An empty deployment: no authority, no credential, no asset unit, no
    /// metadata, no audit history.
    pub fn new() -> (r: System)
        ensures
            r.wf(),
            r.model().authorities.len() == 0,
            r.model().credentials.len() == 0,
            r.model().units.len() == 0,
            r.model().metadata.len() == 0,
            r.model().audit_log.len() == 0,
    {
        System {
            authorities: Vec::new(),
            credentials: Vec::new(),
            assets: AssetLedger::new(),
            metadata: MetadataRegistry::new(),
            audit_log: Vec::new(),
        }
    }

    /// The position of the authority record of `owner_identity` in the
    /// registry, if one exists.
    fn authority_position(&self, owner_identity: Identity) -> (r: Option<usize>)
        requires
            self.wf(),
        ensures
            r is Some <==> self.model().has_authority(owner_identity),
            r matches Some(i) ==> i as int == self.model().authority_index(owner_identity)
                && i < self.authorities@.len() && self.authorities@[i as int].owner_identity
                == owner_identity,
    {
        let mut i: usize = 0;
        while i < self.authorities.len()
            invariant
                self.wf(),
                0 <= i <= self.authorities@.len(),
                forall|j: int|
                    0 <= j < i ==> (#[trigger] self.authorities@[j]).owner_identity
                        != owner_identity,
            decreases self.authorities@.len() - i,
        {
            let candidate = &self.authorities[i];
            if candidate.owner_identity == owner_identity {
                proof {
                    let m = self.model();
                    assert(m.authorities[i as int].owner_identity == owner_identity);
                    assert(m.has_authority(owner_identity));
                    let k = m.authority_index(owner_identity);
                    assert(0 <= k < m.authorities.len() && m.authorities[k].owner_identity
                        == owner_identity);
                    if k != i as int {
                        assert(m.authorities[k].owner_identity != m.authorities[
                            i as int
                        ].owner_identity);
                    }
                }
                return Some(i);
            }
            i = i + 1;
        }
        None
    }

    /// The position of the credential record of `(recipient_identity,
    /// quest_id)` in the store, if one exists.
    fn credential_position(&self, recipient_identity: Identity, quest_id: u64) -> (r: Option<
        usize,
    >)
        requires
            self.wf(),
        ensures
            r is Some <==> self.model().has_credential(recipient_identity, quest_id),
            r matches Some(i) ==> i as int == self.model().credential_index(
                recipient_identity,
                quest_id,
            ) && i < self.credentials@.len() && self.credentials@[i as int].keyed_by(
                recipient_identity,
                quest_id,
            ),
    {
        let mut i: usize = 0;
        while i < self.credentials.len()
            invariant
                self.wf(),
                0 <= i <= self.credentials@.len(),
                forall|j: int|
                    0 <= j < i ==> !(#[trigger] self.credentials@[j]).keyed_by(
                        recipient_identity,
                        quest_id,
                    ),
            decreases self.credentials@.len() - i,
        {
            let candidate = &self.credentials[i];
            if candidate.recipient_identity == recipient_identity && candidate.quest_id == quest_id {
                proof {
                    let m = self.model();
                    assert(m.credentials[i as int].keyed_by(recipient_identity, quest_id));
                    assert(m.has_credential(recipient_identity, quest_id));
                    let k = m.credential_index(recipient_identity, quest_id);
                    assert(0 <= k < m.credentials.len() && m.credentials[k].keyed_by(
                        recipient_identity,
                        quest_id,
                    ));
                    if k != i as int {
                        assert(!m.credentials[k].keyed_by(
                            m.credentials[i as int].recipient_identity,
                            m.credentials[i as int].quest_id,
                        ));
                    }
                }
                return Some(i);
            }
            i = i + 1;
        }
        None
    }

    /// Creates the authority record of `owner_identity` at its derived
    /// address and returns that address; fails with `AlreadyInitialized`, and
    /// changes nothing, when the record already exists. This is the sole
    /// admission point for establishing who may mint and revoke.
    pub fn initialize(&mut self, owner_identity: Identity) -> (r: Result<
        RecordAddress,
        SkillChainError,
    >)
        requires
            old(self).wf(),
        ensures
            final(self).wf(),
            final(self).model() == initialize_transition(old(self).model(), owner_identity),
            r == initialize_outcome(old(self).model(), owner_identity),
    {
        proof {
            lemma_initialize_preserves_wf(old(self).model(), owner_identity);
        }
        match self.authority_position(owner_identity) {
            Some(_) => Err(SkillChainError::AlreadyInitialized),
            None => {
                let (address, nonce) = derive_authority_address(owner_identity);
                self.authorities.push(
                    CredentialAuthority { owner_identity, authorization_nonce: nonce },
                );
                proof {
                    assert(self.model() =~= initialize_transition(
                        old(self).model(),
                        owner_identity,
                    ));
                }
                Ok(address)
            },
        }
    }

    /// Issues the credential of `(recipient_identity, quest_id)` on behalf of
    /// the authority of `authority_owner` and returns the derived credential
    /// address.
    ///
    /// The derived address must be free (`CredentialAlreadyExists` otherwise —
    /// checked before any collaborator is called), the authority record must
    /// exist to back the delegated-signing capability (`Unauthorized`
    /// otherwise), and the metadata service must accept the pointer
    /// (`MetadataServiceError` otherwise). On success one fresh indivisible
    /// asset unit is created under the authority's sole control and issued to
    /// the recipient, `(name, symbol, metadata_uri)` is registered for it
    /// with zero royalty, the credential record is written with `issued_at =
    /// now`, and an audit entry is appended. On any failure nothing at all is
    /// changed: issuance is all-or-nothing.
    pub fn mint_credential(
        &mut self,
        authority_owner: Identity,
        recipient_identity: Identity,
        quest_id: u64,
        metadata_uri: String,
        name: String,
        symbol: String,
        now: i64,
    ) -> (r: Result<RecordAddress, SkillChainError>)
        requires
            old(self).wf(),
            old(self).assets.units@.len() < usize::MAX,
        ensures
            final(self).wf(),
            final(self).model() == mint_transition(
                old(self).model(),
                authority_owner,
                recipient_identity,
                quest_id,
                metadata_uri@,
                name@,
                symbol@,
                now,
            ),
            r == mint_outcome(
                old(self).model(),
                authority_owner,
                recipient_identity,
                quest_id,
                metadata_uri@,
            ),
    {
        let ghost m = old(self).model();
        proof {
            lemma_mint_preserves_wf(
                m,
                authority_owner,
                recipient_identity,
                quest_id,
                metadata_uri@,
                name@,
                symbol@,
                now,
            );
        }
        if self.credential_position(recipient_identity, quest_id).is_some() {
            return Err(SkillChainError::CredentialAlreadyExists);
        }
        let authority = match self.authority_position(authority_owner) {
            None => { return Err(SkillChainError::Unauthorized); },
            Some(i) => self.authorities[i],
        };
        if metadata_uri.as_str().is_empty() {
            return Err(SkillChainError::MetadataServiceError);
        }
        proof {
            assert(authority.wf());
        }
        let capability = SigningCapability {
            authority_owner: authority.owner_identity,
            authorization_nonce: authority.authorization_nonce,
        };
        let (address, credential_bump) = derive_credential_address(recipient_identity, quest_id);
        let unit = self.assets.create_unit(authority_owner);
        self.assets.mint_unit(unit, recipient_identity, &capability);
        proof {
            assert forall|i: int| 0 <= i < m.metadata.len() implies (
            #[trigger] m.metadata[i]).unit != unit by {
                assert(m.metadata[i].unit.index < m.units.len());
            }
            assert(!has_registration(self.metadata.images(), unit));
        }
        let attach_result = self.metadata.attach(
            unit,
            name,
            symbol,
            metadata_uri,
            0,
            true,
            &capability,
        );
        if attach_result.is_err() {
            // The pointer was checked and the unit is fresh, so the registry
            // provably accepts; this branch is dead.
            proof {
                assert(false);
            }
            return Err(SkillChainError::MetadataServiceError);
        }
        self.credentials.push(
            Credential {
                recipient_identity,
                asset_unit_reference: unit,
                quest_id,
                issued_at: now,
                revoked_at: None,
                is_transferable: false,
                authorization_nonce: credential_bump,
            },
        );
        self.audit_log.push(AuditEntry { quest_id, recipient_identity });
        proof {
            assert(self.model().credentials =~= m.credentials.push(
                issued_credential(m, recipient_identity, quest_id, now),
            ));
            assert(self.model().units =~= m.units.push(
                issued_unit(authority_owner, recipient_identity),
            ));
            assert(self.model().metadata =~= m.metadata.push(
                issued_metadata(m, authority_owner, name@, symbol@, metadata_uri@),
            ));
            assert(self.model().audit_log =~= m.audit_log.push(
                AuditEntry { quest_id, recipient_identity },
            ));
            assert(self.model() =~= mint_transition(
                m,
                authority_owner,
                recipient_identity,
                quest_id,
                metadata_uri@,
                name@,
                symbol@,
                now,
            ));
        }
        Ok(address)
    }

    /// Reads the credential record at `credential_address` and returns its
    /// public verification view; fails with `NotFound` when no record is
    /// stored there. Verification is open to anyone and never mutates.
    pub fn verify_credential(&self, credential_address: RecordAddress) -> (r: Result<
        CredentialData,
        SkillChainError,
    >)
        requires
            self.wf(),
        ensures
            r == verify_outcome(self.model(), credential_address),
    {
        match credential_address {
            RecordAddress::Authority { .. } => Err(SkillChainError::NotFound),
            RecordAddress::Credential { recipient_identity, quest_id } => {
                match self.credential_position(recipient_identity, quest_id) {
                    None => Err(SkillChainError::NotFound),
                    Some(i) => {
                        let c = self.credentials[i];
                        Ok(
                            CredentialData {
                                recipient_identity: c.recipient_identity,
                                asset_unit_reference: c.asset_unit_reference,
                                quest_id: c.quest_id,
                                issued_at: c.issued_at,
                                is_transferable: c.is_transferable,
                            },
                        )
                    },
                }
            },
        }
    }

    /// Sets the revocation mark of the credential record at
    /// `credential_address` to `now`, if the mark is absent; a record already
    /// revoked is left as it is and the call still succeeds (revocation is
    /// idempotent).
    ///
    /// The call fails with `NotFound` when no record is stored at the
    /// address, with `Unauthorized` unless `authority_identity` is the
    /// authority controlling the credential's asset unit, and with
    /// `RecordMismatch` when `asset_unit_reference` is not the reference
    /// stored at issuance. The asset unit itself is deliberately not
    /// destroyed: revocation preserves the record of issuance.
    pub fn burn_credential(
        &mut self,
        credential_address: RecordAddress,
        authority_identity: Identity,
        asset_unit_reference: AssetUnitRef,
        now: i64,
    ) -> (r: Result<(), SkillChainError>)
        requires
            old(self).wf(),
        ensures
            final(self).wf(),
            final(self).model() == burn_transition(
                old(self).model(),
                credential_address,
                authority_identity,
                asset_unit_reference,
                now,
            ),
            r == burn_outcome(
                old(self).model(),
                credential_address,
                authority_identity,
                asset_unit_reference,
            ),
    {
        proof {
            lemma_burn_preserves_wf(
                old(self).model(),
                credential_address,
                authority_identity,
                asset_unit_reference,
                now,
            );
        }
        let (recipient_identity, quest_id) = match credential_address {
            RecordAddress::Authority { .. } => { return Err(SkillChainError::NotFound); },
            RecordAddress::Credential { recipient_identity, quest_id } => (
                recipient_identity,
                quest_id,
            ),
        };
        let position = match self.credential_position(recipient_identity, quest_id) {
            None => { return Err(SkillChainError::NotFound); },
            Some(i) => i,
        };
        let record = self.credentials[position];
        let controller = match self.assets.unit(record.asset_unit_reference) {
            Some(u) => u.controller,
            None => {
                // The store only ever holds references into the ledger, so
                // this branch is dead.
                proof {
                    assert(false);
                }
                return Err(SkillChainError::NotFound);
            },
        };
        if controller != authority_identity {
            return Err(SkillChainError::Unauthorized);
        }
        if asset_unit_reference.index != record.asset_unit_reference.index {
            return Err(SkillChainError::RecordMismatch);
        }
        let updated = match record.revoked_at {
            Some(_) => record,
            None => Credential { revoked_at: Some(now), ..record },
        };
        self.credentials.set(position, updated);
        proof {
            assert(updated == record.revoke_mark(now));
            assert(self.model() =~= burn_transition(
                old(self).model(),
                credential_address,
                authority_identity,
                asset_unit_reference,
                now,
            ));
        }
        Ok(())
    }

    /// Reads the authority record of `owner_identity`, if one exists.
    pub fn authority_record(&self, owner_identity: Identity) -> (r: Option<CredentialAuthority>)
        requires
            self.wf(),
        ensures
            r is Some <==> self.model().has_authority(owner_identity),
            r matches Some(a) ==> a == self.model().authority_at(owner_identity),
    {
        match self.authority_position(owner_identity) {
            Some(i) => Some(self.authorities[i]),
            None => None,
        }
    }

    /// Reads the credential record stored at `credential_address`, if any.
    /// Unlike the public verification view, the full record carries the
    /// revocation mark.
    pub fn credential_record(&self, credential_address: RecordAddress) -> (r: Option<Credential>)
        requires
            self.wf(),
        ensures
            match credential_address {
                RecordAddress::Credential { recipient_identity, quest_id } => {
                    &&& r is Some <==> self.model().has_credential(recipient_identity, quest_id)
                    &&& (r matches Some(c) ==> c == self.model().credential_at(
                        recipient_identity,
                        quest_id,
                    ))
                },
                RecordAddress::Authority { .. } => r is None,
            },
    {
        match credential_address {
            RecordAddress::Authority { .. } => None,
            RecordAddress::Credential { recipient_identity, quest_id } => {
                match self.credential_position(recipient_identity, quest_id) {
                    None => None,
                    Some(i) => Some(self.credentials[i]),
                }
            },
        }
    }

    /// Reads an asset unit of the ledger, if the reference is on it.
    pub fn asset_unit(&self, unit: AssetUnitRef) -> (r: Option<AssetUnit>)
        ensures
            unit.index < self.model().units.len() ==> r == Some(
                self.model().units[unit.index as int],
            ),
            unit.index >= self.model().units.len() ==> r is None,
    {
        self.assets.unit(unit)
    }

    /// Reads the metadata registration of an asset unit, if there is one.
    pub fn metadata_registration(&self, unit: AssetUnitRef) -> (r: Option<&MetadataEntry>)
        requires
            self.wf(),
        ensures
            r is Some <==> has_registration(self.model().metadata, unit),
            r matches Some(e) ==> e.image().unit == unit && self.model().metadata.contains(
                e.image(),
            ),
    {
        proof {
            let m = self.model();
            assert forall|i: int| 0 <= i < self.metadata.images().len() implies uri_well_formed(
                (#[trigger] self.metadata.images()[i]).uri,
            ) by {
                assert(uri_well_formed(m.metadata[i].uri));
            }
            assert forall|i: int, j: int|
                0 <= i < self.metadata.images().len() && 0 <= j < self.metadata.images().len() && i
                    != j implies (#[trigger] self.metadata.images()[i]).unit != (
            #[trigger] self.metadata.images()[j]).unit by {
                assert(m.metadata[i].unit != m.metadata[j].unit);
            }
            assert(self.metadata.wf());
        }
        self.metadata.registration(unit)
    }
}

} // verus!
