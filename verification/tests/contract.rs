use vc_vault::Principal;
use vc_vault::VcVaultContract;
use vc_vault::VerifyOutcome;

// Mirrors the usual deployment setup: a contract identity, an admin and an
// issuer, with every principal's authorization granted by the host.
fn setup() -> (VcVaultContract, Principal, Principal, Principal, Vec<Principal>) {
    let contract_id = Principal::new(100);
    let admin = Principal::new(1);
    let issuer = Principal::new(2);
    let owner = Principal::new(10);
    let engine = VcVaultContract::new(contract_id);
    let auths = vec![
        admin,
        issuer,
        owner,
        Principal::new(11),
        Principal::new(12),
        Principal::new(13),
        Principal::new(14),
    ];
    (engine, admin, issuer, contract_id, auths)
}

#[test]
fn test_test_version() {
    let (engine, _admin, _issuer, _contract_id, _auths) = setup();
    let v = engine.version();
    assert!(v.len() > 0);
}

#[test]
fn contract_test_version() {
    let (engine, _admin, _issuer, _contract_id, _auths) = setup();
    assert_eq!(engine.version(), "0.1.0");
}

#[test]
fn test_initialize() {
    let (mut engine, _admin, _issuer, _contract_id, auths) = setup();
    let owner = Principal::new(10);
    let did_uri = String::from("did:pkh:stellar:testnet:OWNER");
    engine.initialize(owner, did_uri, &auths).unwrap();
}

#[test]
fn test_initialize_and_create_vault() {
    let (mut engine, admin, _issuer, _contract_id, auths) = setup();

    let default_did = String::from("did:acta:default");
    engine.initialize(admin, default_did, &auths).unwrap();

    let owner = Principal::new(11);
    let did_uri = String::from("did:pkh:stellar:testnet:OWNER");
    engine.create_vault(owner, did_uri, &auths).unwrap();
}

#[test]
fn test_set_contract_admin() {
    let (mut engine, admin, _issuer, _contract_id, mut auths) = setup();
    engine.initialize(admin, String::from("did:acta:default"), &auths).unwrap();

    let new_admin = Principal::new(21);
    auths.push(new_admin);
    engine.set_contract_admin(new_admin, &auths).unwrap();

    // New admin can perform admin action
    let another_admin = Principal::new(22);
    auths.push(another_admin);
    engine.set_contract_admin(another_admin, &auths).unwrap();
}

#[test]
fn test_fee_config_default() {
    let (mut engine, admin, _issuer, _contract_id, auths) = setup();
    engine.initialize(admin, String::from("did:acta:default"), &auths).unwrap();

    let config = engine.fee_config();
    assert!(!config.enabled);
    assert!(!config.configured);
    assert!(config.token_contract.is_none());
    assert!(config.fee_dest.is_none());
    assert!(config.fee_amount.is_none());
}

#[test]
fn test_set_fee_config() {
    let (mut engine, admin, _issuer, _contract_id, auths) = setup();
    engine.initialize(admin, String::from("did:acta:default"), &auths).unwrap();

    let token = Principal::new(31);
    let fee_dest = Principal::new(32);
    engine.set_fee_config(token, fee_dest, 1_000_000_i128, &auths).unwrap();

    let config = engine.fee_config();
    assert!(config.configured);
    assert_eq!(config.token_contract, Some(token));
    assert_eq!(config.fee_dest, Some(fee_dest));
    assert_eq!(config.fee_amount, Some(1_000_000));
}

#[test]
fn test_set_fee_enabled() {
    let (mut engine, admin, _issuer, _contract_id, auths) = setup();
    engine.initialize(admin, String::from("did:acta:default"), &auths).unwrap();

    engine.set_fee_enabled(true, &auths).unwrap();
    let config = engine.fee_config();
    assert!(config.enabled);

    engine.set_fee_enabled(false, &auths).unwrap();
    let config = engine.fee_config();
    assert!(!config.enabled);
}

#[test]
fn test_set_and_get_fee_admin() {
    let (mut engine, admin, _issuer, _contract_id, auths) = setup();
    engine.initialize(admin, String::from("did:acta:default"), &auths).unwrap();

    assert_eq!(engine.get_fee_admin(), 0);

    engine.set_fee_admin(100_i128, &auths).unwrap();
    assert_eq!(engine.get_fee_admin(), 100);
}

#[test]
fn test_set_and_get_fee_standard() {
    let (mut engine, admin, _issuer, _contract_id, auths) = setup();
    engine.initialize(admin, String::from("did:acta:default"), &auths).unwrap();

    assert_eq!(engine.get_fee_standard(), 1_000_000);

    engine.set_fee_standard(2_000_000_i128, &auths).unwrap();
    assert_eq!(engine.get_fee_standard(), 2_000_000);
}

#[test]
fn test_set_and_get_fee_early() {
    let (mut engine, admin, _issuer, _contract_id, auths) = setup();
    engine.initialize(admin, String::from("did:acta:default"), &auths).unwrap();

    assert_eq!(engine.get_fee_early(), 400_000);

    engine.set_fee_early(500_000_i128, &auths).unwrap();
    assert_eq!(engine.get_fee_early(), 500_000);
}

#[test]
fn test_set_and_get_fee_custom() {
    let (mut engine, admin, issuer, _contract_id, auths) = setup();
    engine.initialize(admin, String::from("did:acta:default"), &auths).unwrap();

    engine.set_fee_custom(issuer, 300_000_i128, &auths).unwrap();
    assert_eq!(engine.get_fee_custom(issuer), 300_000);
}

#[test]
fn test_set_vault_admin() {
    let (mut engine, admin, _issuer, _contract_id, mut auths) = setup();
    engine.initialize(admin, String::from("did:acta:default"), &auths).unwrap();

    let owner = Principal::new(11);
    engine
        .create_vault(owner, String::from("did:pkh:stellar:testnet:OWNER"), &auths)
        .unwrap();

    let new_admin = Principal::new(23);
    auths.push(new_admin);
    engine.set_vault_admin(owner, new_admin, &auths).unwrap();

    // New admin can authorize issuers
    let issuer = Principal::new(24);
    engine.authorize_issuer(owner, issuer, &auths).unwrap();
}

#[test]
fn test_test_authorize_issuer() {
    let (mut engine, admin, issuer, _contract_id, auths) = setup();
    engine.initialize(admin, String::from("did:acta:default"), &auths).unwrap();
    let owner = Principal::new(11);
    engine
        .create_vault(owner, String::from("did:pkh:stellar:testnet:OWNER"), &auths)
        .unwrap();

    engine.authorize_issuer(owner, issuer, &auths).unwrap();
}

#[test]
fn test_authorize_issuers_bulk() {
    let (mut engine, admin, issuer, _contract_id, auths) = setup();
    engine.initialize(admin, String::from("did:acta:default"), &auths).unwrap();
    let owner = Principal::new(11);
    engine
        .create_vault(owner, String::from("did:pkh:stellar:testnet:OWNER"), &auths)
        .unwrap();

    let issuer2 = Principal::new(25);
    let issuers = vec![issuer, issuer2];
    engine.authorize_issuers(owner, issuers, &auths).unwrap();
}

#[test]
fn test_test_revoke_issuer() {
    let (mut engine, admin, issuer, _contract_id, auths) = setup();
    engine.initialize(admin, String::from("did:acta:default"), &auths).unwrap();
    let owner = Principal::new(11);
    engine
        .create_vault(owner, String::from("did:pkh:stellar:testnet:OWNER"), &auths)
        .unwrap();
    engine.authorize_issuer(owner, issuer, &auths).unwrap();

    engine.revoke_issuer(owner, issuer, &auths).unwrap();
}

#[test]
fn test_test_revoke_vault() {
    let (mut engine, admin, _issuer, _contract_id, auths) = setup();
    engine.initialize(admin, String::from("did:acta:default"), &auths).unwrap();
    let owner = Principal::new(11);
    engine
        .create_vault(owner, String::from("did:pkh:stellar:testnet:OWNER"), &auths)
        .unwrap();

    engine.revoke_vault(owner, &auths).unwrap();
}

#[test]
fn test_list_vc_ids_empty() {
    let (mut engine, admin, _issuer, _contract_id, auths) = setup();
    engine.initialize(admin, String::from("did:acta:default"), &auths).unwrap();
    let owner = Principal::new(11);
    engine
        .create_vault(owner, String::from("did:pkh:stellar:testnet:OWNER"), &auths)
        .unwrap();

    let ids = engine.list_vc_ids(owner);
    assert_eq!(ids.len(), 0);
}

#[test]
fn test_get_vc_none_for_missing() {
    let (mut engine, admin, _issuer, _contract_id, auths) = setup();
    engine.initialize(admin, String::from("did:acta:default"), &auths).unwrap();
    let owner = Principal::new(11);
    engine
        .create_vault(owner, String::from("did:pkh:stellar:testnet:OWNER"), &auths)
        .unwrap();

    let vc_id = String::from("nonexistent");
    assert!(engine.get_vc(owner, &vc_id).is_none());
}

#[test]
fn test_verify_vc_invalid_when_not_in_vault() {
    let (mut engine, admin, _issuer, _contract_id, auths) = setup();
    engine.initialize(admin, String::from("did:acta:default"), &auths).unwrap();
    let owner = Principal::new(11);
    engine
        .create_vault(owner, String::from("did:pkh:stellar:testnet:OWNER"), &auths)
        .unwrap();

    let vc_id = String::from("nonexistent");
    match engine.verify_vc(owner, &vc_id) {
        VerifyOutcome::Report(report) => assert_eq!(report.status, "invalid"),
        VerifyOutcome::Delegate(_) => panic!("expected a local report"),
    }
}

#[test]
fn test_vault_authorize_and_store_and_list_and_get() {
    let (mut engine, admin, issuer, contract_id, auths) = setup();

    engine.initialize(admin, String::from("did:acta:default"), &auths).unwrap();

    let owner = Principal::new(11);
    engine
        .create_vault(owner, String::from("did:pkh:stellar:testnet:OWNER"), &auths)
        .unwrap();

    engine.authorize_issuer(owner, issuer, &auths).unwrap();

    let vc_id = String::from("vc-1");
    let vc_data = String::from("<ciphertext>");
    let issuer_did = String::from("did:pkh:stellar:testnet:ISSUER");

    engine
        .issue(
            owner,
            vc_id.clone(),
            vc_data.clone(),
            contract_id,
            issuer,
            issuer_did,
            0_i128,
            &auths,
        )
        .unwrap();

    let ids = engine.list_vc_ids(owner);
    assert_eq!(ids.len(), 1);

    let vc = engine.get_vc(owner, &vc_id).unwrap();
    assert_eq!(vc.data, vc_data);
}

#[test]
fn test_issue_verify_revoke_flow_local_vault() {
    let (mut engine, admin, issuer, contract_id, auths) = setup();

    engine.initialize(admin, String::from("did:acta:default"), &auths).unwrap();

    let owner = Principal::new(11);
    engine
        .create_vault(owner, String::from("did:pkh:stellar:testnet:OWNER"), &auths)
        .unwrap();
    engine.authorize_issuer(owner, issuer, &auths).unwrap();

    let vc_id = String::from("vc-123");
    let vc_data = String::from("<ciphertext>");
    let issuer_did = String::from("did:pkh:stellar:testnet:ISSUER");

    engine
        .issue(
            owner,
            vc_id.clone(),
            vc_data,
            contract_id,
            issuer,
            issuer_did,
            0_i128,
            &auths,
        )
        .unwrap();

    match engine.verify_vc(owner, &vc_id) {
        VerifyOutcome::Report(report) => assert_eq!(report.status, "valid"),
        VerifyOutcome::Delegate(_) => panic!("expected a local report"),
    }

    let date = String::from("2025-12-18T00:00:00Z");
    engine.revoke(&vc_id, date, &auths).unwrap();

    match engine.verify_vc(owner, &vc_id) {
        VerifyOutcome::Report(report) => assert_eq!(report.status, "revoked"),
        VerifyOutcome::Delegate(_) => panic!("expected a local report"),
    }
}

#[test]
fn test_push_moves_between_vaults() {
    let (mut engine, admin, issuer, contract_id, auths) = setup();

    engine.initialize(admin, String::from("did:acta:default"), &auths).unwrap();

    let from_owner = Principal::new(11);
    let to_owner = Principal::new(12);
    engine
        .create_vault(from_owner, String::from("did:pkh:stellar:testnet:FROM"), &auths)
        .unwrap();
    engine
        .create_vault(to_owner, String::from("did:pkh:stellar:testnet:TO"), &auths)
        .unwrap();

    engine.authorize_issuer(from_owner, issuer, &auths).unwrap();

    let vc_id = String::from("vc-push");
    let vc_data = String::from("<ciphertext>");
    let issuer_did = String::from("did:pkh:stellar:testnet:ISSUER");

    engine
        .issue(
            from_owner,
            vc_id.clone(),
            vc_data,
            contract_id,
            issuer,
            issuer_did,
            0_i128,
            &auths,
        )
        .unwrap();

    engine.push(from_owner, to_owner, &vc_id, issuer, &auths).unwrap();

    assert!(engine.get_vc(from_owner, &vc_id).is_none());
    assert!(engine.get_vc(to_owner, &vc_id).is_some());
}

#[test]
fn test_issue_returns_vc_id() {
    let (mut engine, admin, issuer, contract_id, auths) = setup();
    engine.initialize(admin, String::from("did:acta:default"), &auths).unwrap();
    let owner = Principal::new(11);
    engine
        .create_vault(owner, String::from("did:pkh:stellar:testnet:OWNER"), &auths)
        .unwrap();
    engine.authorize_issuer(owner, issuer, &auths).unwrap();

    let vc_id = String::from("vc-return");
    let vc_data = String::from("<ciphertext>");
    let issuer_did = String::from("did:pkh:stellar:testnet:ISSUER");

    let (returned, _transfer) = engine
        .issue(
            owner,
            vc_id.clone(),
            vc_data,
            contract_id,
            issuer,
            issuer_did,
            0_i128,
            &auths,
        )
        .unwrap();
    assert_eq!(returned, vc_id);
}

#[test]
fn test_issue_with_fee_override() {
    let (mut engine, admin, issuer, contract_id, auths) = setup();
    engine.initialize(admin, String::from("did:acta:default"), &auths).unwrap();
    let owner = Principal::new(11);
    engine
        .create_vault(owner, String::from("did:pkh:stellar:testnet:OWNER"), &auths)
        .unwrap();
    engine.authorize_issuer(owner, issuer, &auths).unwrap();

    let vc_id = String::from("vc-fee");
    let vc_data = String::from("<ciphertext>");
    let issuer_did = String::from("did:pkh:stellar:testnet:ISSUER");

    // fee_override 0 = use default/role-based (no charge when fee disabled)
    engine
        .issue(
            owner,
            vc_id.clone(),
            vc_data,
            contract_id,
            issuer,
            issuer_did,
            0_i128,
            &auths,
        )
        .unwrap();
    assert!(engine.get_vc(owner, &vc_id).is_some());
}
