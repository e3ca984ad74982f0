use vstd::prelude::*;

verus! {

/// A public identity on the ledger: an issuer, a recipient, or a payer.
///
/// The protocol only ever compares identities for equality, so an identity is
/// modelled as a single opaque key.
#[derive(Clone, Copy, PartialEq, Eq, Structural, Debug, Hash)]
pub struct Identity {
    pub key: u64,
}

impl Identity {
    pub fn new(key: u64) -> (r: Identity)
        ensures
            r.key == key,
    {
        Identity { key }
    }
}

/// A stable record locator.
///
/// Addressing is content-based: the address of a record is the purpose tag
/// together with the key material it was derived from, so equal inputs always
/// derive equal addresses and distinct inputs always derive distinct
/// addresses. The store rejects creation at an occupied address, which is the
/// whole uniqueness mechanism of the protocol.
#[derive(Clone, Copy, PartialEq, Eq, Structural, Debug, Hash)]
pub enum RecordAddress {
    /// The singleton authority record of one issuer.
    Authority { owner_identity: Identity },
    /// The credential record of one (recipient, quest) pair.
    Credential { recipient_identity: Identity, quest_id: u64 },
}

/// The address of the authority record of `owner_identity`.
pub open spec fn authority_address(owner_identity: Identity) -> RecordAddress {
    RecordAddress::Authority { owner_identity }
}

/// The address of the credential record of `(recipient_identity, quest_id)`.
pub open spec fn credential_address(recipient_identity: Identity, quest_id: u64) -> RecordAddress {
    RecordAddress::Credential { recipient_identity, quest_id }
}

/// The derivation proof byte ("bump") of an authority address.
pub open spec fn authority_nonce(owner_identity: Identity) -> u8 {
    (owner_identity.key % 256) as u8
}

/// The derivation proof byte ("bump") of a credential address.
pub open spec fn credential_nonce(recipient_identity: Identity, quest_id: u64) -> u8 {
    ((recipient_identity.key % 256 + quest_id % 256) % 256) as u8
}

/// Derives the authority record address and its nonce for `owner_identity`.
pub fn derive_authority_address(owner_identity: Identity) -> (r: (RecordAddress, u8))
    ensures
        r.0 == authority_address(owner_identity),
        r.1 == authority_nonce(owner_identity),
{
    (RecordAddress::Authority { owner_identity }, (owner_identity.key % 256) as u8)
}

/// Derives the credential record address and its nonce for
/// `(recipient_identity, quest_id)`.
pub fn derive_credential_address(recipient_identity: Identity, quest_id: u64) -> (r: (
    RecordAddress,
    u8,
))
    ensures
        r.0 == credential_address(recipient_identity, quest_id),
        r.1 == credential_nonce(recipient_identity, quest_id),
{
    let nonce: u64 = (recipient_identity.key % 256 + quest_id % 256) % 256;
    (RecordAddress::Credential { recipient_identity, quest_id }, nonce as u8)
}

/// The delegated-signing proof of an authority.
///
/// The authority holds no private key; the store itself mints this capability
/// from the derivation nonce kept in the authority record, and collaborator
/// services honour it only when the nonce is the derivation proof byte of the
/// owner it names.
#[derive(Clone, Copy, PartialEq, Eq, Structural, Debug)]
pub struct SigningCapability {
    pub authority_owner: Identity,
    pub authorization_nonce: u8,
}

impl SigningCapability {
    /// A capability is genuine when its nonce is the derivation proof byte of
    /// the owner it names.
    pub open spec fn is_genuine(self) -> bool {
        self.authorization_nonce == authority_nonce(self.authority_owner)
    }

    /// Checks that the capability is genuine.
    pub fn check_genuine(&self) -> (r: bool)
        ensures
            r == self.is_genuine(),
    {
        self.authorization_nonce == (self.authority_owner.key % 256) as u8
    }
}

/// Derivation is deterministic and collision-free: two credential addresses
/// coincide exactly when their key material does, and an authority address
/// never coincides with a credential address.
pub proof fn lemma_derivation_injective(
    r1: Identity,
    q1: u64,
    r2: Identity,
    q2: u64,
    owner: Identity,
)
    ensures
        credential_address(r1, q1) == credential_address(r2, q2) <==> (r1 == r2 && q1 == q2),
        credential_address(r1, q1) != authority_address(owner),
{
}

} // verus!
