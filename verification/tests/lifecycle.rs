use skillchain::addressing::{derive_authority_address, Identity, RecordAddress};
use skillchain::asset::AssetUnitRef;
use skillchain::errors::SkillChainError;
use skillchain::protocol::System;

#[test]
fn initialize_succeeds_once_then_already_initialized() {
    let mut system = System::new();
    let owner = Identity::new(1);
    let address = system.initialize(owner).unwrap();
    assert_eq!(address, derive_authority_address(owner).0);
    assert_eq!(system.initialize(owner), Err(SkillChainError::AlreadyInitialized));
}

#[test]
fn two_authorities_can_coexist() {
    let mut system = System::new();
    assert!(system.initialize(Identity::new(1)).is_ok());
    assert!(system.initialize(Identity::new(2)).is_ok());
    assert!(system.authority_record(Identity::new(1)).is_some());
    assert!(system.authority_record(Identity::new(2)).is_some());
}

#[test]
fn mint_writes_record_and_view() {
    let mut system = System::new();
    let owner = Identity::new(1);
    let recipient = Identity::new(42);
    system.initialize(owner).unwrap();
    let address = system
        .mint_credential(
            owner,
            recipient,
            7,
            "ipfs://x".to_string(),
            "Quest7".to_string(),
            "SKL".to_string(),
            1000,
        )
        .unwrap();

    let record = system.credential_record(address).unwrap();
    assert_eq!(record.recipient_identity, recipient);
    assert_eq!(record.quest_id, 7);
    assert_eq!(record.issued_at, 1000);
    assert_eq!(record.revoked_at, None);
    assert!(!record.is_transferable);

    let view = system.verify_credential(address).unwrap();
    assert_eq!(view.quest_id, 7);
    assert_eq!(view.recipient_identity, recipient);
    assert_eq!(view.issued_at, 1000);
    assert!(!view.is_transferable);
    assert_eq!(view.asset_unit_reference, record.asset_unit_reference);
}

#[test]
fn duplicate_mint_rejected_and_fresh_quest_gets_distinct_address() {
    let mut system = System::new();
    let owner = Identity::new(1);
    let recipient = Identity::new(42);
    system.initialize(owner).unwrap();
    let first = system
        .mint_credential(
            owner,
            recipient,
            7,
            "ipfs://x".to_string(),
            "Quest7".to_string(),
            "SKL".to_string(),
            1000,
        )
        .unwrap();
    let record_before = system.credential_record(first).unwrap();

    let repeat = system.mint_credential(
        owner,
        recipient,
        7,
        "ipfs://y".to_string(),
        "Quest7".to_string(),
        "SKL".to_string(),
        2000,
    );
    assert_eq!(repeat, Err(SkillChainError::CredentialAlreadyExists));
    let record_after = system.credential_record(first).unwrap();
    assert_eq!(record_after, record_before);

    let second = system
        .mint_credential(
            owner,
            recipient,
            8,
            "ipfs://x".to_string(),
            "Quest8".to_string(),
            "SKL".to_string(),
            3000,
        )
        .unwrap();
    assert_ne!(second, first);
}

#[test]
fn mint_without_authority_is_unauthorized() {
    let mut system = System::new();
    let outcome = system.mint_credential(
        Identity::new(1),
        Identity::new(42),
        7,
        "ipfs://x".to_string(),
        "Quest7".to_string(),
        "SKL".to_string(),
        1000,
    );
    assert_eq!(outcome, Err(SkillChainError::Unauthorized));
}

#[test]
fn mint_with_malformed_uri_changes_nothing() {
    let mut system = System::new();
    let owner = Identity::new(1);
    let recipient = Identity::new(42);
    system.initialize(owner).unwrap();
    let outcome = system.mint_credential(
        owner,
        recipient,
        7,
        "".to_string(),
        "Quest7".to_string(),
        "SKL".to_string(),
        1000,
    );
    assert_eq!(outcome, Err(SkillChainError::MetadataServiceError));
    let address = RecordAddress::Credential { recipient_identity: recipient, quest_id: 7 };
    assert_eq!(system.verify_credential(address), Err(SkillChainError::NotFound));
    assert!(system.credentials.is_empty());
    assert!(system.assets.units.is_empty());
    assert!(system.audit_log.is_empty());
}

#[test]
fn mint_creates_one_indivisible_unit_with_sole_controller() {
    let mut system = System::new();
    let owner = Identity::new(1);
    let recipient = Identity::new(42);
    system.initialize(owner).unwrap();
    let address = system
        .mint_credential(
            owner,
            recipient,
            7,
            "ipfs://x".to_string(),
            "Quest7".to_string(),
            "SKL".to_string(),
            1000,
        )
        .unwrap();
    let record = system.credential_record(address).unwrap();
    let unit = system.asset_unit(record.asset_unit_reference).unwrap();
    assert_eq!(unit.supply, 1);
    assert_eq!(unit.controller, owner);
    assert_eq!(unit.holder, Some(recipient));
}

#[test]
fn mint_registers_metadata_with_zero_royalty() {
    let mut system = System::new();
    let owner = Identity::new(1);
    let recipient = Identity::new(42);
    system.initialize(owner).unwrap();
    let address = system
        .mint_credential(
            owner,
            recipient,
            7,
            "ipfs://x".to_string(),
            "Quest7".to_string(),
            "SKL".to_string(),
            1000,
        )
        .unwrap();
    let record = system.credential_record(address).unwrap();
    let entry = system.metadata_registration(record.asset_unit_reference).unwrap();
    assert_eq!(entry.name, "Quest7");
    assert_eq!(entry.symbol, "SKL");
    assert_eq!(entry.uri, "ipfs://x");
    assert_eq!(entry.royalty_basis_points, 0);
    assert!(entry.is_mutable);
    assert_eq!(entry.update_authority, owner);
}

#[test]
fn mint_appends_audit_entry() {
    let mut system = System::new();
    let owner = Identity::new(1);
    let recipient = Identity::new(42);
    system.initialize(owner).unwrap();
    system
        .mint_credential(
            owner,
            recipient,
            7,
            "ipfs://x".to_string(),
            "Quest7".to_string(),
            "SKL".to_string(),
            1000,
        )
        .unwrap();
    assert_eq!(system.audit_log.len(), 1);
    assert_eq!(system.audit_log[0].quest_id, 7);
    assert_eq!(system.audit_log[0].recipient_identity, recipient);
}

#[test]
fn burn_sets_revocation_mark_and_keeps_issuance_fields() {
    let mut system = System::new();
    let owner = Identity::new(1);
    let recipient = Identity::new(42);
    system.initialize(owner).unwrap();
    let address = system
        .mint_credential(
            owner,
            recipient,
            7,
            "ipfs://x".to_string(),
            "Quest7".to_string(),
            "SKL".to_string(),
            1000,
        )
        .unwrap();
    let before = system.credential_record(address).unwrap();

    let outcome = system.burn_credential(address, owner, before.asset_unit_reference, 2000);
    assert_eq!(outcome, Ok(()));

    let after = system.credential_record(address).unwrap();
    assert_eq!(after.revoked_at, Some(2000));
    assert_eq!(after.recipient_identity, before.recipient_identity);
    assert_eq!(after.asset_unit_reference, before.asset_unit_reference);
    assert_eq!(after.quest_id, before.quest_id);
    assert_eq!(after.issued_at, before.issued_at);
    assert!(!after.is_transferable);

    let unit = system.asset_unit(after.asset_unit_reference).unwrap();
    assert_eq!(unit.supply, 1);
}

#[test]
fn burn_twice_equals_burn_once() {
    let mut system = System::new();
    let owner = Identity::new(1);
    let recipient = Identity::new(42);
    system.initialize(owner).unwrap();
    let address = system
        .mint_credential(
            owner,
            recipient,
            7,
            "ipfs://x".to_string(),
            "Quest7".to_string(),
            "SKL".to_string(),
            1000,
        )
        .unwrap();
    let unit = system.credential_record(address).unwrap().asset_unit_reference;

    assert_eq!(system.burn_credential(address, owner, unit, 2000), Ok(()));
    let once = system.credential_record(address).unwrap();
    assert_eq!(system.burn_credential(address, owner, unit, 9999), Ok(()));
    let twice = system.credential_record(address).unwrap();
    assert_eq!(twice, once);
    assert_eq!(twice.revoked_at, Some(2000));
}

#[test]
fn burn_by_other_identity_is_unauthorized_and_changes_nothing() {
    let mut system = System::new();
    let owner = Identity::new(1);
    let intruder = Identity::new(2);
    let recipient = Identity::new(42);
    system.initialize(owner).unwrap();
    let address = system
        .mint_credential(
            owner,
            recipient,
            7,
            "ipfs://x".to_string(),
            "Quest7".to_string(),
            "SKL".to_string(),
            1000,
        )
        .unwrap();
    let unit = system.credential_record(address).unwrap().asset_unit_reference;

    let outcome = system.burn_credential(address, intruder, unit, 2000);
    assert_eq!(outcome, Err(SkillChainError::Unauthorized));
    let record = system.credential_record(address).unwrap();
    assert_eq!(record.revoked_at, None);
}

#[test]
fn burn_with_wrong_unit_reference_is_record_mismatch() {
    let mut system = System::new();
    let owner = Identity::new(1);
    let recipient = Identity::new(42);
    system.initialize(owner).unwrap();
    let address = system
        .mint_credential(
            owner,
            recipient,
            7,
            "ipfs://x".to_string(),
            "Quest7".to_string(),
            "SKL".to_string(),
            1000,
        )
        .unwrap();
    let wrong = AssetUnitRef { index: 999 };
    let outcome = system.burn_credential(address, owner, wrong, 2000);
    assert_eq!(outcome, Err(SkillChainError::RecordMismatch));
    assert_eq!(system.credential_record(address).unwrap().revoked_at, None);
}

#[test]
fn reads_and_burns_of_missing_records_are_not_found() {
    let mut system = System::new();
    let owner = Identity::new(1);
    system.initialize(owner).unwrap();
    let missing = RecordAddress::Credential {
        recipient_identity: Identity::new(42),
        quest_id: 7,
    };
    assert_eq!(system.verify_credential(missing), Err(SkillChainError::NotFound));
    assert_eq!(
        system.burn_credential(missing, owner, AssetUnitRef { index: 0 }, 2000),
        Err(SkillChainError::NotFound)
    );

    let authority_address = derive_authority_address(owner).0;
    assert_eq!(system.verify_credential(authority_address), Err(SkillChainError::NotFound));
    assert_eq!(
        system.burn_credential(authority_address, owner, AssetUnitRef { index: 0 }, 2000),
        Err(SkillChainError::NotFound)
    );
}
