use vstd::prelude::*;

use crate::addressing::{credential_address, Identity, RecordAddress};
use crate::asset::AssetUnitRef;
use crate::errors::SkillChainError;
use crate::model::{
    burn_outcome, burn_transition, initialize_transition, mint_admitted, mint_outcome,
    mint_transition, SystemModel,
};

verus! {

/// `initialize` keeps the deployment well-formed.
pub proof fn lemma_initialize_preserves_wf(m: SystemModel, owner_identity: Identity)
    requires
        m.wf(),
    ensures
        initialize_transition(m, owner_identity).wf(),
{
    let m2 = initialize_transition(m, owner_identity);
    if !m.has_authority(owner_identity) {
        assert forall|i: int| 0 <= i < m2.authorities.len() implies (
        #[trigger] m2.authorities[i]).wf() by {
            if i < m.authorities.len() {
                assert(m.authorities[i].wf());
            }
        }
        assert forall|i: int, j: int|
            0 <= i < m2.authorities.len() && 0 <= j < m2.authorities.len() && i != j implies (
        #[trigger] m2.authorities[i]).owner_identity != (
        #[trigger] m2.authorities[j]).owner_identity by {
            if i < m.authorities.len() && j < m.authorities.len() {
                assert(m.authorities[i].owner_identity != m.authorities[j].owner_identity);
            } else if i < m.authorities.len() {
                assert(m.authorities[i].owner_identity != owner_identity);
            } else {
                assert(m.authorities[j].owner_identity != owner_identity);
            }
        }
    }
}

/// `mint_credential` keeps the deployment well-formed.
pub proof fn lemma_mint_preserves_wf(
    m: SystemModel,
    authority_owner: Identity,
    recipient_identity: Identity,
    quest_id: u64,
    uri: Seq<char>,
    name: Seq<char>,
    symbol: Seq<char>,
    now: i64,
)
    requires
        m.wf(),
        m.units.len() < usize::MAX,
    ensures
        mint_transition(m, authority_owner, recipient_identity, quest_id, uri, name, symbol, now).wf(),
{
    let m2 = mint_transition(m, authority_owner, recipient_identity, quest_id, uri, name, symbol, now);
    if mint_admitted(m, authority_owner, recipient_identity, quest_id, uri) {
        let fresh: usize = m.units.len() as usize;
        assert(fresh as int == m.units.len());
        assert forall|i: int| 0 <= i < m2.credentials.len() implies (
        #[trigger] m2.credentials[i]).wf() by {
            if i < m.credentials.len() {
                assert(m.credentials[i].wf());
            }
        }
        assert forall|i: int, j: int|
            0 <= i < m2.credentials.len() && 0 <= j < m2.credentials.len() && i != j
                implies !(#[trigger] m2.credentials[i]).keyed_by(
            (#[trigger] m2.credentials[j]).recipient_identity,
            m2.credentials[j].quest_id,
        ) by {
            if i < m.credentials.len() && j < m.credentials.len() {
                assert(!m.credentials[i].keyed_by(
                    m.credentials[j].recipient_identity,
                    m.credentials[j].quest_id,
                ));
            } else if i < m.credentials.len() {
                assert(!m.credentials[i].keyed_by(recipient_identity, quest_id));
            } else {
                assert(!m.credentials[j].keyed_by(recipient_identity, quest_id));
            }
        }
        assert forall|i: int| 0 <= i < m2.credentials.len() implies (
        #[trigger] m2.credentials[i]).asset_unit_reference.index < m2.units.len() by {
            if i < m.credentials.len() {
                assert(m.credentials[i].asset_unit_reference.index < m.units.len());
            }
        }
        assert forall|i: int| 0 <= i < m2.units.len() implies (#[trigger] m2.units[i]).wf() by {
            if i < m.units.len() {
                assert(m.units[i].wf());
            }
        }
        assert forall|i: int| 0 <= i < m2.metadata.len() implies (
        #[trigger] m2.metadata[i]).unit.index < m2.units.len() by {
            if i < m.metadata.len() {
                assert(m.metadata[i].unit.index < m.units.len());
            }
        }
        assert forall|i: int| 0 <= i < m2.metadata.len() implies crate::metadata::uri_well_formed(
            (#[trigger] m2.metadata[i]).uri,
        ) by {
            if i < m.metadata.len() {
                assert(crate::metadata::uri_well_formed(m.metadata[i].uri));
            }
        }
        assert forall|i: int, j: int|
            0 <= i < m2.metadata.len() && 0 <= j < m2.metadata.len() && i != j implies (
        #[trigger] m2.metadata[i]).unit != (#[trigger] m2.metadata[j]).unit by {
            if i < m.metadata.len() && j < m.metadata.len() {
                assert(m.metadata[i].unit != m.metadata[j].unit);
            } else if i < m.metadata.len() {
                assert(m.metadata[i].unit.index < m.units.len());
            } else {
                assert(m.metadata[j].unit.index < m.units.len());
            }
        }
    }
}

/// `burn_credential` keeps the deployment well-formed.
pub proof fn lemma_burn_preserves_wf(
    m: SystemModel,
    address: RecordAddress,
    authority_identity: Identity,
    asset_unit_reference: AssetUnitRef,
    now: i64,
)
    requires
        m.wf(),
    ensures
        burn_transition(m, address, authority_identity, asset_unit_reference, now).wf(),
{
    let m2 = burn_transition(m, address, authority_identity, asset_unit_reference, now);
    if m2 != m {
        match address {
            RecordAddress::Credential { recipient_identity, quest_id } => {
                let i = m.credential_index(recipient_identity, quest_id);
                let c = m.credentials[i];
                assert forall|k: int| 0 <= k < m2.credentials.len() implies (
                #[trigger] m2.credentials[k]).wf() by {
                    assert(m.credentials[k].wf());
                }
                assert forall|k: int, l: int|
                    0 <= k < m2.credentials.len() && 0 <= l < m2.credentials.len() && k != l
                        implies !(#[trigger] m2.credentials[k]).keyed_by(
                    (#[trigger] m2.credentials[l]).recipient_identity,
                    m2.credentials[l].quest_id,
                ) by {
                    assert(!m.credentials[k].keyed_by(
                        m.credentials[l].recipient_identity,
                        m.credentials[l].quest_id,
                    ));
                }
                assert forall|k: int| 0 <= k < m2.credentials.len() implies (
                #[trigger] m2.credentials[k]).asset_unit_reference.index < m2.units.len() by {
                    assert(m.credentials[k].asset_unit_reference.index < m.units.len());
                }
            },
            RecordAddress::Authority { .. } => {},
        }
    }
}

/// Uniqueness of issuance: once `mint_credential` has succeeded for a
/// (recipient, quest) pair, every later attempt for the same pair — whoever
/// makes it and whatever metadata it carries — is refused with
/// `CredentialAlreadyExists` and leaves the state, the first record included,
/// exactly as it was.
pub proof fn lemma_issuance_at_most_once(
    m: SystemModel,
    authority_owner: Identity,
    recipient_identity: Identity,
    quest_id: u64,
    uri: Seq<char>,
    name: Seq<char>,
    symbol: Seq<char>,
    now: i64,
    second_authority: Identity,
    second_uri: Seq<char>,
    second_name: Seq<char>,
    second_symbol: Seq<char>,
    second_now: i64,
)
    requires
        mint_outcome(m, authority_owner, recipient_identity, quest_id, uri) is Ok,
    ensures
        ({
            let m1 = mint_transition(
                m,
                authority_owner,
                recipient_identity,
                quest_id,
                uri,
                name,
                symbol,
                now,
            );
            &&& mint_outcome(m1, second_authority, recipient_identity, quest_id, second_uri)
                == Err::<RecordAddress, SkillChainError>(SkillChainError::CredentialAlreadyExists)
            &&& mint_transition(
                m1,
                second_authority,
                recipient_identity,
                quest_id,
                second_uri,
                second_name,
                second_symbol,
                second_now,
            ) == m1
        }),
{
    let m1 = mint_transition(m, authority_owner, recipient_identity, quest_id, uri, name, symbol, now);
    let w = m.credentials.len() as int;
    assert(m1.credentials[w].keyed_by(recipient_identity, quest_id));
    assert(m1.has_credential(recipient_identity, quest_id));
}

/// Immutability of issuance fields: `burn_credential` changes no field that
/// was set at issuance, of any record in the store.
pub proof fn lemma_burn_preserves_issuance_fields(
    m: SystemModel,
    address: RecordAddress,
    authority_identity: Identity,
    asset_unit_reference: AssetUnitRef,
    now: i64,
)
    requires
        m.wf(),
    ensures
        ({
            let m2 = burn_transition(m, address, authority_identity, asset_unit_reference, now);
            &&& m2.credentials.len() == m.credentials.len()
            &&& forall|i: int|
                0 <= i < m.credentials.len() ==> (
                #[trigger] m2.credentials[i]).same_issuance_fields(m.credentials[i])
        }),
{
}

/// Revocation monotonicity: `revoked_at` only ever moves from absent to
/// present; a mark already present survives any later `burn_credential`
/// unchanged.
pub proof fn lemma_revocation_monotonic(
    m: SystemModel,
    address: RecordAddress,
    authority_identity: Identity,
    asset_unit_reference: AssetUnitRef,
    now: i64,
)
    requires
        m.wf(),
    ensures
        ({
            let m2 = burn_transition(m, address, authority_identity, asset_unit_reference, now);
            &&& forall|i: int|
                0 <= i < m.credentials.len() && m.credentials[i].revoked_at is Some ==> (
                #[trigger] m2.credentials[i]).revoked_at == m.credentials[i].revoked_at
            &&& forall|i: int|
                0 <= i < m.credentials.len() ==> (#[trigger] m2.credentials[i]).revoked_at
                    == m.credentials[i].revoked_at || (m.credentials[i].revoked_at is None
                    && m2.credentials[i].revoked_at == Some(now))
        }),
{
}

/// Revocation idempotence: revoking the same credential twice, at whatever
/// times, ends in the state a single revocation reaches.
pub proof fn lemma_burn_idempotent(
    m: SystemModel,
    address: RecordAddress,
    authority_identity: Identity,
    asset_unit_reference: AssetUnitRef,
    first_now: i64,
    second_now: i64,
)
    requires
        m.wf(),
    ensures
        burn_transition(
            burn_transition(m, address, authority_identity, asset_unit_reference, first_now),
            address,
            authority_identity,
            asset_unit_reference,
            second_now,
        ) == burn_transition(m, address, authority_identity, asset_unit_reference, first_now),
{
    let m1 = burn_transition(m, address, authority_identity, asset_unit_reference, first_now);
    lemma_burn_preserves_wf(m, address, authority_identity, asset_unit_reference, first_now);
    if m1 != m {
        match address {
            RecordAddress::Credential { recipient_identity, quest_id } => {
                let i = m.credential_index(recipient_identity, quest_id);
                let c = m.credentials[i];
                let marked = c.revoke_mark(first_now);
                assert(m1.credentials[i] == marked);
                assert(m1.credentials[i].keyed_by(recipient_identity, quest_id));
                assert(m1.has_credential(recipient_identity, quest_id));
                let j = m1.credential_index(recipient_identity, quest_id);
                assert(m1.credentials[j].keyed_by(recipient_identity, quest_id));
                if j != i {
                    assert(!m1.credentials[j].keyed_by(
                        m1.credentials[i].recipient_identity,
                        m1.credentials[i].quest_id,
                    ));
                }
                assert(j == i);
                assert(marked.revoke_mark(second_now) == marked);
                assert(m1.credentials.update(i, marked) =~= m1.credentials);
                assert(burn_transition(
                    m1,
                    address,
                    authority_identity,
                    asset_unit_reference,
                    second_now,
                ) =~= m1);
            },
            RecordAddress::Authority { .. } => {},
        }
    } else {
        assert(burn_transition(m1, address, authority_identity, asset_unit_reference, second_now)
            == m1);
    }
}

/// Authorization gate: a `burn_credential` by any identity other than the
/// authority controlling the credential is refused with `Unauthorized` and
/// changes nothing.
pub proof fn lemma_authorization_gate(
    m: SystemModel,
    recipient_identity: Identity,
    quest_id: u64,
    caller: Identity,
    asset_unit_reference: AssetUnitRef,
    now: i64,
)
    requires
        m.wf(),
        m.has_credential(recipient_identity, quest_id),
        !m.controls(m.credential_at(recipient_identity, quest_id), caller),
    ensures
        burn_outcome(
            m,
            credential_address(recipient_identity, quest_id),
            caller,
            asset_unit_reference,
        ) == Err::<(), SkillChainError>(SkillChainError::Unauthorized),
        burn_transition(
            m,
            credential_address(recipient_identity, quest_id),
            caller,
            asset_unit_reference,
            now,
        ) == m,
{
}

/// Transfer prohibition: in a well-formed deployment every credential record
/// is non-transferable, and since every transition of the protocol keeps the
/// deployment well-formed, it is so at every point of a credential's life.
pub proof fn lemma_transfer_prohibition(m: SystemModel)
    requires
        m.wf(),
    ensures
        forall|i: int|
            0 <= i < m.credentials.len() ==> !(#[trigger] m.credentials[i]).is_transferable,
{
    assert forall|i: int|
        0 <= i < m.credentials.len() implies !(#[trigger] m.credentials[i]).is_transferable by {
        assert(m.credentials[i].wf());
    }
}

} // verus!
