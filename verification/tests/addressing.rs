use skillchain::addressing::{derive_authority_address, derive_credential_address, Identity};

#[test]
fn derivation_is_deterministic() {
    let recipient = Identity::new(42);
    let first = derive_credential_address(recipient, 7);
    let second = derive_credential_address(recipient, 7);
    assert_eq!(first, second);

    let owner = Identity::new(9);
    assert_eq!(derive_authority_address(owner), derive_authority_address(owner));
}

#[test]
fn distinct_inputs_derive_distinct_addresses() {
    let recipient = Identity::new(42);
    let other = Identity::new(43);
    let (addr_q7, _) = derive_credential_address(recipient, 7);
    let (addr_q8, _) = derive_credential_address(recipient, 8);
    let (addr_other, _) = derive_credential_address(other, 7);
    assert_ne!(addr_q7, addr_q8);
    assert_ne!(addr_q7, addr_other);

    let (authority_addr, _) = derive_authority_address(recipient);
    assert_ne!(authority_addr, addr_q7);
}
