use vc_vault::vault_keys;
use vc_vault::vc_keys;
use vc_vault::vc_status_keys;
use vc_vault::is_authorized;
use vc_vault::revoke_vc;
use vc_vault::ContractError;
use vc_vault::DataKey;
use vc_vault::LegacyRevocation;
use vc_vault::Principal;
use vc_vault::VCStatus;
use vc_vault::Vault;
use vc_vault::VcVaultContract;
use vc_vault::VerifiableCredential;
use vc_vault::VerifyOutcome;

fn setup() -> (VcVaultContract, Principal, Principal, Principal, Vec<Principal>) {
    let contract_id = Principal::new(100);
    let admin = Principal::new(1);
    let issuer = Principal::new(2);
    let engine = VcVaultContract::new(contract_id);
    let auths = vec![
        admin,
        issuer,
        Principal::new(10),
        Principal::new(11),
        Principal::new(12),
        Principal::new(13),
    ];
    (engine, admin, issuer, contract_id, auths)
}

fn vault_with_issuer(
    engine: &mut VcVaultContract,
    owner: Principal,
    issuer: Principal,
    auths: &Vec<Principal>,
) {
    engine
        .create_vault(owner, String::from("did:pkh:stellar:testnet:OWNER"), auths)
        .unwrap();
    engine.authorize_issuer(owner, issuer, auths).unwrap();
}

// ---- error paths, one test per variant ----

#[test]
fn initialize_twice_fails_already_initialized() {
    let (mut engine, admin, _issuer, _cid, auths) = setup();
    engine.initialize(admin, String::from("did:acta:default"), &auths).unwrap();
    let err = engine
        .initialize(admin, String::from("did:acta:default"), &auths)
        .unwrap_err();
    assert_eq!(err, ContractError::AlreadyInitialized);
}

#[test]
fn create_vault_twice_fails_already_initialized() {
    let (mut engine, admin, _issuer, _cid, auths) = setup();
    engine.initialize(admin, String::from("did:acta:default"), &auths).unwrap();
    let owner = Principal::new(11);
    let did = String::from("did:pkh:stellar:testnet:OWNER");
    engine.create_vault(owner, did.clone(), &auths).unwrap();
    let err = engine.create_vault(owner, did, &auths).unwrap_err();
    assert_eq!(err, ContractError::AlreadyInitialized);
}

#[test]
fn admin_action_before_initialize_fails_not_initialized() {
    let (mut engine, _admin, _issuer, _cid, auths) = setup();
    let err = engine.set_contract_admin(Principal::new(5), &auths).unwrap_err();
    assert_eq!(err, ContractError::NotInitialized);
    let err = engine.set_fee_enabled(true, &auths).unwrap_err();
    assert_eq!(err, ContractError::NotInitialized);
    let err = engine.upgrade(vec![0u8; 32], &auths).unwrap_err();
    assert_eq!(err, ContractError::NotInitialized);
}

#[test]
fn vault_op_without_vault_fails_vault_not_initialized() {
    let (mut engine, admin, issuer, _cid, auths) = setup();
    engine.initialize(admin, String::from("did:acta:default"), &auths).unwrap();
    let owner = Principal::new(11);
    let err = engine.authorize_issuer(owner, issuer, &auths).unwrap_err();
    assert_eq!(err, ContractError::VaultNotInitialized);
    let err = engine.revoke_vault(owner, &auths).unwrap_err();
    assert_eq!(err, ContractError::VaultNotInitialized);
}

#[test]
fn authorize_issuer_twice_fails_issuer_already_authorized() {
    let (mut engine, admin, issuer, _cid, auths) = setup();
    engine.initialize(admin, String::from("did:acta:default"), &auths).unwrap();
    let owner = Principal::new(11);
    vault_with_issuer(&mut engine, owner, issuer, &auths);
    let err = engine.authorize_issuer(owner, issuer, &auths).unwrap_err();
    assert_eq!(err, ContractError::IssuerAlreadyAuthorized);
}

#[test]
fn revoke_unknown_issuer_fails_issuer_not_authorized() {
    let (mut engine, admin, issuer, _cid, auths) = setup();
    engine.initialize(admin, String::from("did:acta:default"), &auths).unwrap();
    let owner = Principal::new(11);
    engine
        .create_vault(owner, String::from("did:pkh:stellar:testnet:OWNER"), &auths)
        .unwrap();
    let err = engine.revoke_issuer(owner, issuer, &auths).unwrap_err();
    assert_eq!(err, ContractError::IssuerNotAuthorized);
}

#[test]
fn issue_by_unauthorized_issuer_fails() {
    let (mut engine, admin, issuer, cid, auths) = setup();
    engine.initialize(admin, String::from("did:acta:default"), &auths).unwrap();
    let owner = Principal::new(11);
    engine
        .create_vault(owner, String::from("did:pkh:stellar:testnet:OWNER"), &auths)
        .unwrap();
    let err = engine
        .issue(
            owner,
            String::from("vc-1"),
            String::from("<ciphertext>"),
            cid,
            issuer,
            String::from("did:pkh:stellar:testnet:ISSUER"),
            0,
            &auths,
        )
        .unwrap_err();
    assert_eq!(err, ContractError::IssuerNotAuthorized);
}

#[test]
fn issue_after_revoke_issuer_fails() {
    let (mut engine, admin, issuer, cid, auths) = setup();
    engine.initialize(admin, String::from("did:acta:default"), &auths).unwrap();
    let owner = Principal::new(11);
    vault_with_issuer(&mut engine, owner, issuer, &auths);
    engine.revoke_issuer(owner, issuer, &auths).unwrap();
    let err = engine
        .issue(
            owner,
            String::from("vc-1"),
            String::from("<ciphertext>"),
            cid,
            issuer,
            String::from("did:pkh:stellar:testnet:ISSUER"),
            0,
            &auths,
        )
        .unwrap_err();
    assert_eq!(err, ContractError::IssuerNotAuthorized);
}

#[test]
fn issue_with_wrong_target_fails_invalid_vault_contract() {
    let (mut engine, admin, issuer, _cid, auths) = setup();
    engine.initialize(admin, String::from("did:acta:default"), &auths).unwrap();
    let owner = Principal::new(11);
    vault_with_issuer(&mut engine, owner, issuer, &auths);
    let wrong_contract = Principal::new(999);
    let err = engine
        .issue(
            owner,
            String::from("vc-1"),
            String::from("<ciphertext>"),
            wrong_contract,
            issuer,
            String::from("did:pkh:stellar:testnet:ISSUER"),
            0,
            &auths,
        )
        .unwrap_err();
    assert_eq!(err, ContractError::InvalidVaultContract);
}

#[test]
fn revoke_nonexistent_vc_fails_vc_not_found() {
    let (mut engine, admin, _issuer, _cid, auths) = setup();
    engine.initialize(admin, String::from("did:acta:default"), &auths).unwrap();
    let vc_id = String::from("nonexistent");
    let err = engine
        .revoke(&vc_id, String::from("2025-12-18T00:00:00Z"), &auths)
        .unwrap_err();
    assert_eq!(err, ContractError::VCNotFound);
}

#[test]
fn push_nonexistent_vc_fails_vc_not_found() {
    let (mut engine, admin, issuer, _cid, auths) = setup();
    engine.initialize(admin, String::from("did:acta:default"), &auths).unwrap();
    let from_owner = Principal::new(11);
    let to_owner = Principal::new(12);
    engine
        .create_vault(from_owner, String::from("did:pkh:stellar:testnet:FROM"), &auths)
        .unwrap();
    engine
        .create_vault(to_owner, String::from("did:pkh:stellar:testnet:TO"), &auths)
        .unwrap();
    engine.authorize_issuer(from_owner, issuer, &auths).unwrap();
    let vc_id = String::from("nonexistent");
    let err = engine.push(from_owner, to_owner, &vc_id, issuer, &auths).unwrap_err();
    assert_eq!(err, ContractError::VCNotFound);
}

// ---- revoked vaults block every write ----

#[test]
fn revoked_vault_blocks_writes() {
    let (mut engine, admin, issuer, cid, auths) = setup();
    engine.initialize(admin, String::from("did:acta:default"), &auths).unwrap();
    let owner = Principal::new(11);
    let other = Principal::new(12);
    vault_with_issuer(&mut engine, owner, issuer, &auths);
    vault_with_issuer(&mut engine, other, issuer, &auths);

    // Put a credential in each vault before revoking, so the push attempts
    // below fail on the vault gate, not on a missing credential.
    engine
        .issue(
            owner,
            String::from("vc-1"),
            String::from("<ciphertext>"),
            cid,
            issuer,
            String::from("did:pkh:stellar:testnet:ISSUER"),
            0,
            &auths,
        )
        .unwrap();
    engine
        .issue(
            other,
            String::from("vc-2"),
            String::from("<ciphertext>"),
            cid,
            issuer,
            String::from("did:pkh:stellar:testnet:ISSUER"),
            0,
            &auths,
        )
        .unwrap();

    engine.revoke_vault(owner, &auths).unwrap();

    let err = engine.authorize_issuer(owner, Principal::new(13), &auths).unwrap_err();
    assert_eq!(err, ContractError::VaultRevoked);
    let err = engine.authorize_issuers(owner, vec![issuer], &auths).unwrap_err();
    assert_eq!(err, ContractError::VaultRevoked);
    let err = engine.revoke_issuer(owner, issuer, &auths).unwrap_err();
    assert_eq!(err, ContractError::VaultRevoked);
    let err = engine.set_vault_admin(owner, Principal::new(13), &auths).unwrap_err();
    assert_eq!(err, ContractError::VaultRevoked);
    let err = engine.revoke_vault(owner, &auths).unwrap_err();
    assert_eq!(err, ContractError::VaultRevoked);
    let err = engine
        .issue(
            owner,
            String::from("vc-3"),
            String::from("<ciphertext>"),
            cid,
            issuer,
            String::from("did:pkh:stellar:testnet:ISSUER"),
            0,
            &auths,
        )
        .unwrap_err();
    assert_eq!(err, ContractError::VaultRevoked);
    let vc_id = String::from("vc-1");
    let err = engine.push(owner, other, &vc_id, issuer, &auths).unwrap_err();
    assert_eq!(err, ContractError::VaultRevoked);
    let vc_id2 = String::from("vc-2");
    let err = engine.push(other, owner, &vc_id2, issuer, &auths).unwrap_err();
    assert_eq!(err, ContractError::VaultRevoked);
}

// ---- issuance round trip and index order ----

#[test]
fn issue_round_trip_preserves_payload() {
    let (mut engine, admin, issuer, cid, auths) = setup();
    engine.initialize(admin, String::from("did:acta:default"), &auths).unwrap();
    let owner = Principal::new(11);
    vault_with_issuer(&mut engine, owner, issuer, &auths);

    let vc_id = String::from("vc-1");
    engine
        .issue(
            owner,
            vc_id.clone(),
            String::from("<ciphertext>"),
            cid,
            issuer,
            String::from("did:pkh:stellar:testnet:ISSUER"),
            0,
            &auths,
        )
        .unwrap();

    let vc = engine.get_vc(owner, &vc_id).unwrap();
    assert_eq!(vc.id, "vc-1");
    assert_eq!(vc.data, "<ciphertext>");
    assert_eq!(vc.issuance_contract, cid);
    assert_eq!(vc.issuer_did, "did:pkh:stellar:testnet:ISSUER");
    match engine.verify_vc(owner, &vc_id) {
        VerifyOutcome::Report(report) => {
            assert_eq!(report.status, "valid");
            assert!(report.since.is_none());
        },
        VerifyOutcome::Delegate(_) => panic!("expected a local report"),
    }
}

#[test]
fn vc_index_is_most_recent_first_and_deduplicated() {
    let (mut engine, admin, issuer, cid, auths) = setup();
    engine.initialize(admin, String::from("did:acta:default"), &auths).unwrap();
    let owner = Principal::new(11);
    vault_with_issuer(&mut engine, owner, issuer, &auths);

    for (id, data) in [("vc-1", "payload-1"), ("vc-2", "payload-2")] {
        engine
            .issue(
                owner,
                String::from(id),
                String::from(data),
                cid,
                issuer,
                String::from("did:pkh:stellar:testnet:ISSUER"),
                0,
                &auths,
            )
            .unwrap();
    }
    assert_eq!(engine.list_vc_ids(owner), vec!["vc-2", "vc-1"]);

    // Re-issuing an existing id replaces the payload without a second
    // index entry, and keeps the position.
    engine
        .issue(
            owner,
            String::from("vc-1"),
            String::from("payload-1b"),
            cid,
            issuer,
            String::from("did:pkh:stellar:testnet:ISSUER"),
            0,
            &auths,
        )
        .unwrap();
    assert_eq!(engine.list_vc_ids(owner), vec!["vc-2", "vc-1"]);
    let vc_id = String::from("vc-1");
    assert_eq!(engine.get_vc(owner, &vc_id).unwrap().data, "payload-1b");
}

#[test]
fn push_updates_both_indexes() {
    let (mut engine, admin, issuer, cid, auths) = setup();
    engine.initialize(admin, String::from("did:acta:default"), &auths).unwrap();
    let from_owner = Principal::new(11);
    let to_owner = Principal::new(12);
    vault_with_issuer(&mut engine, from_owner, issuer, &auths);
    engine
        .create_vault(to_owner, String::from("did:pkh:stellar:testnet:TO"), &auths)
        .unwrap();

    let vc_id = String::from("vc-push");
    engine
        .issue(
            from_owner,
            vc_id.clone(),
            String::from("<ciphertext>"),
            cid,
            issuer,
            String::from("did:pkh:stellar:testnet:ISSUER"),
            0,
            &auths,
        )
        .unwrap();

    engine.push(from_owner, to_owner, &vc_id, issuer, &auths).unwrap();

    assert!(!engine.list_vc_ids(from_owner).contains(&String::from("vc-push")));
    assert!(engine.list_vc_ids(to_owner).contains(&String::from("vc-push")));
    let moved = engine.get_vc(to_owner, &vc_id).unwrap();
    assert_eq!(moved.data, "<ciphertext>");
}

// ---- revocation monotonicity ----

#[test]
fn revoke_twice_fails_and_since_keeps_first_date() {
    let (mut engine, admin, issuer, cid, auths) = setup();
    engine.initialize(admin, String::from("did:acta:default"), &auths).unwrap();
    let owner = Principal::new(11);
    vault_with_issuer(&mut engine, owner, issuer, &auths);
    let vc_id = String::from("vc-1");
    engine
        .issue(
            owner,
            vc_id.clone(),
            String::from("<ciphertext>"),
            cid,
            issuer,
            String::from("did:pkh:stellar:testnet:ISSUER"),
            0,
            &auths,
        )
        .unwrap();

    engine.revoke(&vc_id, String::from("2025-12-18T00:00:00Z"), &auths).unwrap();
    let err = engine
        .revoke(&vc_id, String::from("2026-01-01T00:00:00Z"), &auths)
        .unwrap_err();
    assert_eq!(err, ContractError::VCAlreadyRevoked);

    match engine.verify_vc(owner, &vc_id) {
        VerifyOutcome::Report(report) => {
            assert_eq!(report.status, "revoked");
            assert_eq!(report.since.unwrap(), "2025-12-18T00:00:00Z");
        },
        VerifyOutcome::Delegate(_) => panic!("expected a local report"),
    }
}

// ---- delegation ----

#[test]
fn verify_vc_delegates_for_foreign_registry() {
    let (mut engine, admin, issuer, cid, auths) = setup();
    engine.initialize(admin, String::from("did:acta:default"), &auths).unwrap();
    let owner = Principal::new(11);
    vault_with_issuer(&mut engine, owner, issuer, &auths);

    // A credential issued by a foreign registry enters the vault via
    // migration of a legacy record.
    let foreign = Principal::new(777);
    engine.legacy_vault_vcs = vec![(
        owner,
        vec![VerifiableCredential {
            id: String::from("vc-foreign"),
            data: String::from("<ciphertext>"),
            issuance_contract: foreign,
            issuer_did: String::from("did:pkh:stellar:testnet:ISSUER"),
        }],
    )];
    engine.migrate(Some(owner), &auths).unwrap();

    let vc_id = String::from("vc-foreign");
    match engine.verify_vc(owner, &vc_id) {
        VerifyOutcome::Report(_) => panic!("expected a delegation"),
        VerifyOutcome::Delegate(registry) => assert_eq!(registry, foreign),
    }
    assert!(cid != foreign);
}

// ---- migration ----

#[test]
fn migrate_vault_without_legacy_fails() {
    let (mut engine, admin, _issuer, _cid, auths) = setup();
    engine.initialize(admin, String::from("did:acta:default"), &auths).unwrap();
    let owner = Principal::new(11);
    engine
        .create_vault(owner, String::from("did:pkh:stellar:testnet:OWNER"), &auths)
        .unwrap();
    let err = engine.migrate(Some(owner), &auths).unwrap_err();
    assert_eq!(err, ContractError::VCSAlreadyMigrated);
}

#[test]
fn migrate_global_without_legacy_fails() {
    let (mut engine, admin, _issuer, _cid, auths) = setup();
    engine.initialize(admin, String::from("did:acta:default"), &auths).unwrap();
    let err = engine.migrate(None, &auths).unwrap_err();
    assert_eq!(err, ContractError::VCSAlreadyMigrated);
}

#[test]
fn migrate_vault_runs_once_then_fails() {
    let (mut engine, admin, _issuer, _cid, auths) = setup();
    engine.initialize(admin, String::from("did:acta:default"), &auths).unwrap();
    let owner = Principal::new(11);
    engine
        .create_vault(owner, String::from("did:pkh:stellar:testnet:OWNER"), &auths)
        .unwrap();
    engine.legacy_vault_vcs = vec![(
        owner,
        vec![
            VerifiableCredential {
                id: String::from("vc-old-1"),
                data: String::from("<ciphertext-1>"),
                issuance_contract: Principal::new(100),
                issuer_did: String::from("did:pkh:stellar:testnet:ISSUER"),
            },
            VerifiableCredential {
                id: String::from("vc-old-2"),
                data: String::from("<ciphertext-2>"),
                issuance_contract: Principal::new(100),
                issuer_did: String::from("did:pkh:stellar:testnet:ISSUER"),
            },
        ],
    )];

    engine.migrate(Some(owner), &auths).unwrap();
    // Both legacy credentials are in the vault now, most recent first.
    assert_eq!(engine.list_vc_ids(owner), vec!["vc-old-2", "vc-old-1"]);
    let vc_id = String::from("vc-old-1");
    assert_eq!(engine.get_vc(owner, &vc_id).unwrap().data, "<ciphertext-1>");

    let err = engine.migrate(Some(owner), &auths).unwrap_err();
    assert_eq!(err, ContractError::VCSAlreadyMigrated);
}

#[test]
fn migrate_global_writes_statuses_and_runs_once() {
    let (mut engine, admin, _issuer, _cid, auths) = setup();
    engine.initialize(admin, String::from("did:acta:default"), &auths).unwrap();
    engine.legacy_issuance_vcs = Some(vec![String::from("vc-a"), String::from("vc-b")]);
    engine.legacy_issuance_revocations = Some(vec![LegacyRevocation {
        vc_id: String::from("vc-b"),
        date: String::from("2024-06-01T00:00:00Z"),
    }]);

    engine.migrate(None, &auths).unwrap();

    // The statuses landed in the registry: a revoke of the valid id works,
    // while the already-revoked id is refused.
    let vc_b = String::from("vc-b");
    let err = engine
        .revoke(&vc_b, String::from("2025-01-01T00:00:00Z"), &auths)
        .unwrap_err();
    assert_eq!(err, ContractError::VCAlreadyRevoked);
    let vc_a = String::from("vc-a");
    engine.revoke(&vc_a, String::from("2025-01-01T00:00:00Z"), &auths).unwrap();

    let err = engine.migrate(None, &auths).unwrap_err();
    assert_eq!(err, ContractError::VCSAlreadyMigrated);
}

// ---- fee gating ----

#[test]
fn fee_disabled_means_no_transfer() {
    let (mut engine, admin, issuer, cid, auths) = setup();
    engine.initialize(admin, String::from("did:acta:default"), &auths).unwrap();
    let owner = Principal::new(11);
    vault_with_issuer(&mut engine, owner, issuer, &auths);

    let (_, transfer) = engine
        .issue(
            owner,
            String::from("vc-1"),
            String::from("<ciphertext>"),
            cid,
            issuer,
            String::from("did:pkh:stellar:testnet:ISSUER"),
            1000,
            &auths,
        )
        .unwrap();
    assert!(transfer.is_none());
    let vc_id = String::from("vc-1");
    assert!(engine.get_vc(owner, &vc_id).is_some());
}

#[test]
fn fee_enabled_zero_override_means_no_transfer() {
    let (mut engine, admin, issuer, cid, auths) = setup();
    engine.initialize(admin, String::from("did:acta:default"), &auths).unwrap();
    let token = Principal::new(31);
    let dest = Principal::new(32);
    engine.set_fee_config(token, dest, 1_000_000, &auths).unwrap();
    engine.set_fee_enabled(true, &auths).unwrap();
    let owner = Principal::new(11);
    vault_with_issuer(&mut engine, owner, issuer, &auths);

    let (_, transfer) = engine
        .issue(
            owner,
            String::from("vc-1"),
            String::from("<ciphertext>"),
            cid,
            issuer,
            String::from("did:pkh:stellar:testnet:ISSUER"),
            0,
            &auths,
        )
        .unwrap();
    assert!(transfer.is_none());
}

#[test]
fn fee_enabled_with_override_transfers_exactly_that_amount() {
    let (mut engine, admin, issuer, cid, auths) = setup();
    engine.initialize(admin, String::from("did:acta:default"), &auths).unwrap();
    let token = Principal::new(31);
    let dest = Principal::new(32);
    engine.set_fee_config(token, dest, 1_000_000, &auths).unwrap();
    engine.set_fee_enabled(true, &auths).unwrap();
    let owner = Principal::new(11);
    vault_with_issuer(&mut engine, owner, issuer, &auths);

    let (_, transfer) = engine
        .issue(
            owner,
            String::from("vc-1"),
            String::from("<ciphertext>"),
            cid,
            issuer,
            String::from("did:pkh:stellar:testnet:ISSUER"),
            1000,
            &auths,
        )
        .unwrap();
    let transfer = transfer.unwrap();
    assert_eq!(transfer.token, token);
    assert_eq!(transfer.from, issuer);
    assert_eq!(transfer.dest, dest);
    assert_eq!(transfer.amount, 1000);
    let vc_id = String::from("vc-1");
    assert!(engine.get_vc(owner, &vc_id).is_some());
}

#[test]
fn custom_fee_falls_back_to_default_amount() {
    let (mut engine, admin, issuer, _cid, auths) = setup();
    engine.initialize(admin, String::from("did:acta:default"), &auths).unwrap();
    engine
        .set_fee_config(Principal::new(31), Principal::new(32), 250_000, &auths)
        .unwrap();
    // No override for this issuer: the configured default applies.
    assert_eq!(engine.get_fee_custom(issuer), 250_000);
    engine.set_fee_custom(issuer, 300_000, &auths).unwrap();
    assert_eq!(engine.get_fee_custom(issuer), 300_000);
}

// ---- contract bootstrap ----

#[test]
fn first_create_vault_bootstraps_contract_admin() {
    let (mut engine, _admin, _issuer, _cid, auths) = setup();
    let owner = Principal::new(10);
    engine
        .create_vault(owner, String::from("did:pkh:stellar:testnet:OWNER"), &auths)
        .unwrap();
    // The first vault's owner became contract admin: admin-only actions
    // authorized by that owner now succeed.
    engine.set_fee_enabled(true, &auths).unwrap();
    assert!(engine.fee_config().enabled);
}

#[test]
fn upgrade_hands_back_the_module_hash() {
    let (mut engine, admin, _issuer, _cid, auths) = setup();
    engine.initialize(admin, String::from("did:acta:default"), &auths).unwrap();
    let hash = vec![7u8; 32];
    assert_eq!(engine.upgrade(hash.clone(), &auths).unwrap(), hash);
}

// ---- retention key groups ----

#[test]
fn key_groups_enumerate_the_touched_keys() {
    let owner = Principal::new(10);
    let vc_id = String::from("vc-1");

    let vault_group = vault_keys(owner);
    assert_eq!(vault_group.len(), 5);
    assert!(matches!(vault_group[0], DataKey::VaultAdmin(p) if p == owner));
    assert!(matches!(vault_group[4], DataKey::VaultVCIds(p) if p == owner));

    let vc_group = vc_keys(owner, &vc_id);
    assert_eq!(vc_group.len(), 4);
    assert!(matches!(&vc_group[0], DataKey::VaultVC(p, id) if *p == owner && id == "vc-1"));
    assert!(matches!(&vc_group[2], DataKey::VCStatus(id) if id == "vc-1"));

    let status_group = vc_status_keys(&vc_id);
    assert_eq!(status_group.len(), 2);
    assert!(matches!(&status_group[1], DataKey::VCOwner(id) if id == "vc-1"));
}

// ---- edges ----

#[test]
fn fee_amounts_accept_extreme_values() {
    let (mut engine, admin, _issuer, _cid, auths) = setup();
    engine.initialize(admin, String::from("did:acta:default"), &auths).unwrap();
    engine.set_fee_admin(i128::MAX, &auths).unwrap();
    assert_eq!(engine.get_fee_admin(), i128::MAX);
    engine.set_fee_standard(i128::MIN, &auths).unwrap();
    assert_eq!(engine.get_fee_standard(), i128::MIN);
}

#[test]
fn empty_vc_id_is_an_ordinary_key() {
    let (mut engine, admin, issuer, cid, auths) = setup();
    engine.initialize(admin, String::from("did:acta:default"), &auths).unwrap();
    let owner = Principal::new(11);
    vault_with_issuer(&mut engine, owner, issuer, &auths);
    engine
        .issue(
            owner,
            String::new(),
            String::from("<ciphertext>"),
            cid,
            issuer,
            String::from("did:pkh:stellar:testnet:ISSUER"),
            0,
            &auths,
        )
        .unwrap();
    let empty = String::new();
    assert!(engine.get_vc(owner, &empty).is_some());
    assert_eq!(engine.list_vc_ids(owner), vec![String::new()]);
}

#[test]
fn vault_operations_work_standalone() {
    let owner = Principal::new(10);
    let mut vault = Vault::new(owner, String::from("did:pkh:stellar:testnet:OWNER"));
    assert_eq!(vault.list_vc_ids().len(), 0);

    vault.store_vc(
        String::from("vc-1"),
        String::from("<ciphertext>"),
        Principal::new(100),
        String::from("did:pkh:stellar:testnet:ISSUER"),
    );
    let vc_id = String::from("vc-1");
    assert_eq!(vault.get_vc(&vc_id).unwrap().data, "<ciphertext>");

    let removed = vault.remove_vc(&vc_id).unwrap();
    assert_eq!(removed.id, "vc-1");
    assert!(vault.get_vc(&vc_id).is_none());
    assert!(vault.remove_vc(&vc_id).is_none());
}

#[test]
fn is_authorized_reports_membership() {
    let a = Principal::new(1);
    let b = Principal::new(2);
    let list = vec![a];
    assert!(is_authorized(&list, &a));
    assert!(!is_authorized(&list, &b));
}

#[test]
fn revoke_vc_refuses_any_status_but_valid() {
    let mut statuses = vec![(String::from("vc-1"), VCStatus::Valid)];
    let vc_id = String::from("vc-1");
    revoke_vc(&mut statuses, &vc_id, String::from("2025-12-18T00:00:00Z")).unwrap();
    let err = revoke_vc(&mut statuses, &vc_id, String::from("2026-01-01T00:00:00Z")).unwrap_err();
    assert_eq!(err, ContractError::VCAlreadyRevoked);
    let unknown = String::from("vc-2");
    let err = revoke_vc(&mut statuses, &unknown, String::from("2026-01-01T00:00:00Z")).unwrap_err();
    assert_eq!(err, ContractError::VCAlreadyRevoked);
}

#[test]
fn authorize_issuers_replaces_the_whole_list() {
    let (mut engine, admin, issuer, cid, auths) = setup();
    engine.initialize(admin, String::from("did:acta:default"), &auths).unwrap();
    let owner = Principal::new(11);
    vault_with_issuer(&mut engine, owner, issuer, &auths);

    let replacement = Principal::new(12);
    engine.authorize_issuers(owner, vec![replacement], &auths).unwrap();

    // The old issuer is gone: bulk authorization is a replacement, not an
    // addition.
    let err = engine
        .issue(
            owner,
            String::from("vc-1"),
            String::from("<ciphertext>"),
            cid,
            issuer,
            String::from("did:pkh:stellar:testnet:ISSUER"),
            0,
            &auths,
        )
        .unwrap_err();
    assert_eq!(err, ContractError::IssuerNotAuthorized);
    engine
        .issue(
            owner,
            String::from("vc-1"),
            String::from("<ciphertext>"),
            cid,
            replacement,
            String::from("did:pkh:stellar:testnet:ISSUER"),
            0,
            &auths,
        )
        .unwrap();
}
