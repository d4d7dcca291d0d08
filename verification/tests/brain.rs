use cortex_rmvm::brain::crypto::{
    decode_b64, decrypt_bytes, derive_key, encode_b64, encrypt_bytes, public_key_b64, sign_payload,
    try_decrypt_bytes, verify_manifest_signature,
};
use cortex_rmvm::brain::slug::slugify;
use cortex_rmvm::brain::state::{BrainError, MergeStrategy, Stamp};
use cortex_rmvm::brain::store::{
    audit_rows_mentioning, brain_id_for, check_tenant, fresh_manifest, import_manifest,
    initial_state, key_hash, open_brain, secret_env_of, summary_of, text_contains, BrainStore,
};
use cortex_rmvm::brain::types::{
    AppConfig, AttachmentGrant, AuditEntry, BrainManifest, BrainState, BrainSummary,
    CreateBrainRequest, EncryptedBlob, MemoryObject,
};

fn stamp(n: u32) -> Stamp {
    Stamp { id: format!("id-{n}"), ts: format!("2024-01-0{n}T00:00:00Z") }
}

fn summary(id: &str, name: &str, tenant: &str) -> BrainSummary {
    BrainSummary {
        brain_id: id.to_string(),
        name: name.to_string(),
        tenant_id: tenant.to_string(),
        updated_at: "t".to_string(),
        active_branch: "main".to_string(),
    }
}

fn object(id: &str, subject: &str, value: &str, suppressed: bool) -> MemoryObject {
    MemoryObject {
        id: id.to_string(),
        subject: subject.to_string(),
        predicate: "prefers_beverage".to_string(),
        value: value.to_string(),
        memory_type: "preference".to_string(),
        suppressed,
    }
}

fn grant(agent: &str, model: &str) -> AttachmentGrant {
    AttachmentGrant {
        agent_id: agent.to_string(),
        model_id: model.to_string(),
        read_classes: vec!["normative.preference".to_string()],
        write_classes: vec!["normative.preference".to_string()],
        sinks: vec!["none".to_string()],
        expires_at: None,
    }
}

fn fresh_state() -> BrainState {
    initial_state("ops-1234abcd", "tenant-b", &stamp(1))
}

fn put(state: &mut BrainState, branch: &str, o: MemoryObject) {
    let mut b = state.branches.get(branch).unwrap().clone();
    b.memory_objects.insert(o.id.clone(), o);
    state.branches.insert(branch.to_string(), b);
}

fn obj<'a>(state: &'a BrainState, branch: &str, id: &str) -> Option<&'a MemoryObject> {
    state.branches.get(branch).unwrap().memory_objects.get(id)
}

#[test]
fn slugs_are_lower_case_words_joined_by_single_dashes() {
    assert_eq!(slugify("My Brain!! 2"), "my-brain-2");
    assert_eq!(slugify("--Ops  Team--"), "ops-team");
    assert_eq!(slugify("déjà vu"), "d-j-vu");
    assert_eq!(slugify("!!!"), "");
    assert_eq!(slugify(""), "");
    let once = slugify("  Hello,  World ");
    assert_eq!(slugify(&once), once);
}

#[test]
fn brain_ids_append_eight_uuid_characters() {
    assert_eq!(
        brain_id_for("Demo Brain", "1b4e28ba-2fa1-11d2-883f-0016d3cca427"),
        "demo-brain-1b4e28ba"
    );
}

#[test]
fn the_default_secret_variable() {
    let req = CreateBrainRequest { name: "n".to_string(), tenant_id: "t".to_string(), passphrase_env: None };
    assert_eq!(secret_env_of(&req), "CORTEX_BRAIN_SECRET");
    let req = CreateBrainRequest {
        name: "n".to_string(),
        tenant_id: "t".to_string(),
        passphrase_env: Some("MY_SECRET".to_string()),
    };
    assert_eq!(secret_env_of(&req), "MY_SECRET");
}

#[test]
fn a_new_brain_has_a_main_branch_and_a_creation_entry() {
    let s = fresh_state();
    assert_eq!(s.branches.len(), 1);
    assert_eq!(s.branches.key_at(0), "main");
    assert_eq!(s.branches.value_at(0).name, "main");
    assert!(s.attachments.is_empty());
    assert_eq!(s.audit.len(), 1);
    let e = &s.audit[0];
    assert_eq!((e.id.as_str(), e.actor.as_str(), e.action.as_str()), ("id-1", "system", "brain.create"));
    assert_eq!(e.details, r#"{"brain_id":"ops-1234abcd","tenant_id":"tenant-b"}"#);
}

#[test]
fn fresh_manifests_carry_the_format_and_protocol() {
    let m = fresh_manifest("b-1", "demo", "t", "now", "salt", "pk", "sha", "ENV");
    assert_eq!(m.format_version, "brain/v1");
    assert_eq!(m.rmvm_proto_version, "cortex_rmvm_v3_1");
    assert_eq!(m.schema_migrations, vec!["brain/v1:init".to_string()]);
    assert_eq!(m.active_branch, "main");
    assert_eq!((m.created_at.as_str(), m.updated_at.as_str()), ("now", "now"));
    assert_eq!(m.signature_b64, "");
    let s = summary_of(&m);
    assert_eq!((s.brain_id.as_str(), s.name.as_str(), s.tenant_id.as_str()), ("b-1", "demo", "t"));
}

#[test]
fn branching_copies_the_active_branch() {
    let mut s = fresh_state();
    put(&mut s, "main", object("m1", "user:x", "\"tea\"", false));
    s.branch("main", "exp-a", &stamp(2)).unwrap();
    assert_eq!(s.branches.len(), 2);
    let b = s.branches.get("exp-a").unwrap();
    assert_eq!(b.name, "exp-a");
    assert_eq!(b.memory_objects.get("m1").unwrap().value, "\"tea\"");
    let e = s.audit.last().unwrap();
    assert_eq!(e.action, "brain.branch");
    assert_eq!(e.details, r#"{"from":"main","to":"exp-a"}"#);
    match s.branch("main", "exp-a", &stamp(3)) {
        Err(BrainError::BranchExists(b)) => assert_eq!(b, "exp-a"),
        _ => panic!("branch exists expected"),
    }
    assert!(matches!(s.branch("gone", "exp-b", &stamp(3)), Err(BrainError::ActiveBranchMissing)));
    assert_eq!(s.audit.len(), 2);
}

#[test]
fn merge_strategies() {
    let mut s = fresh_state();
    s.branch("main", "exp", &stamp(2)).unwrap();
    put(&mut s, "main", object("a", "u", "1", false));
    put(&mut s, "exp", object("a", "u", "2", false));
    put(&mut s, "exp", object("b", "u", "3", false));

    let mut ours = s.clone();
    ours.audit.clear();
    let report = ours.merge("exp", "main", MergeStrategy::Ours, &stamp(3)).unwrap();
    assert_eq!(report.merged, 1);
    assert!(report.conflicts.is_empty());
    assert_eq!(obj(&ours, "main", "a").unwrap().value, "1");
    assert_eq!(obj(&ours, "main", "b").unwrap().value, "3");
    assert_eq!(ours.audit[0].details, r#"{"merged":1,"source":"exp","target":"main"}"#);

    let mut theirs = s.clone();
    let report = theirs.merge("exp", "main", MergeStrategy::Theirs, &stamp(3)).unwrap();
    assert_eq!(report.merged, 2);
    assert_eq!(obj(&theirs, "main", "a").unwrap().value, "2");

    let mut manual = s.clone();
    manual.audit.clear();
    match manual.merge("exp", "main", MergeStrategy::Manual, &stamp(3)) {
        Err(BrainError::MergeConflicts(ids)) => assert_eq!(ids, vec!["a".to_string()]),
        _ => panic!("conflict expected"),
    }
    assert!(obj(&manual, "main", "b").is_none());
    assert!(manual.audit.is_empty());

    let mut same = s.clone();
    let report = same.merge("main", "main", MergeStrategy::Manual, &stamp(3)).unwrap();
    assert_eq!(report.merged, 0);

    assert!(matches!(
        same.merge("nope", "main", MergeStrategy::Ours, &stamp(3)),
        Err(BrainError::UnknownSourceBranch(_))
    ));
    assert!(matches!(
        same.merge("main", "nope", MergeStrategy::Ours, &stamp(3)),
        Err(BrainError::UnknownTargetBranch(_))
    ));
}

#[test]
fn forget_suppresses_once_and_records_it() {
    let mut s = fresh_state();
    put(&mut s, "main", object("a", "user:x", "1", false));
    put(&mut s, "main", object("b", "user:x", "2", true));
    put(&mut s, "main", object("c", "user:y", "3", false));
    let n = s
        .forget_suppress("main", "user:x", "prefers_beverage", "SCOPE_GLOBAL", "test", &stamp(2), &stamp(3))
        .unwrap();
    assert_eq!(n, 1);
    assert!(obj(&s, "main", "a").unwrap().suppressed);
    assert!(!obj(&s, "main", "c").unwrap().suppressed);
    let b = s.branches.get("main").unwrap();
    assert_eq!(b.suppressions.len(), 1);
    assert_eq!(b.suppressions[0].suppressed_count, 1);
    assert_eq!(b.suppressions[0].reason, "test");
    assert_eq!(
        s.audit.last().unwrap().details,
        r#"{"predicate":"prefers_beverage","scope":"SCOPE_GLOBAL","subject":"user:x","suppressed":1}"#
    );
    let again = s
        .forget_suppress("main", "user:x", "prefers_beverage", "SCOPE_GLOBAL", "test", &stamp(4), &stamp(5))
        .unwrap();
    assert_eq!(again, 0);
    assert!(matches!(
        s.forget_suppress("gone", "u", "p", "s", "r", &stamp(6), &stamp(7)),
        Err(BrainError::ActiveBranchMissing)
    ));
}

#[test]
fn forget_on_an_empty_branch_suppresses_nothing() {
    let mut s = fresh_state();
    s.branch("main", "exp-a", &stamp(2)).unwrap();
    let n = s
        .forget_suppress("main", "user:x", "prefers_beverage", "SCOPE_GLOBAL", "test", &stamp(3), &stamp(4))
        .unwrap();
    assert_eq!(n, 0);
    let report = s.merge("exp-a", "main", MergeStrategy::Ours, &stamp(5)).unwrap();
    assert!(report.conflicts.is_empty());
    assert!(!s.audit.is_empty());
}

#[test]
fn attach_replaces_and_detach_removes() {
    let mut s = fresh_state();
    s.attach(grant("agent-1", "gpt-test"), &stamp(2));
    s.attach(grant("agent-1", "other"), &stamp(3));
    let mut g = grant("agent-1", "gpt-test");
    g.sinks = vec!["slack".to_string()];
    s.attach(g, &stamp(4));
    assert_eq!(s.attachments.len(), 2);
    assert_eq!(s.attachments[0].model_id, "other");
    assert_eq!(s.attachments[1].sinks, vec!["slack".to_string()]);
    assert_eq!(s.audit.last().unwrap().details, r#"{"agent":"agent-1","model":"gpt-test"}"#);

    let n = s.detach("agent-1", Some("other"), &stamp(5));
    assert_eq!(n, 1);
    assert_eq!(s.audit.last().unwrap().details, r#"{"agent":"agent-1","model":"other","removed":1}"#);
    s.attach(grant("agent-1", "x"), &stamp(6));
    let n = s.detach("agent-1", None, &stamp(7));
    assert_eq!(n, 2);
    assert!(s.attachments.is_empty());
    assert_eq!(s.audit.last().unwrap().details, r#"{"agent":"agent-1","model":null,"removed":2}"#);
}

#[test]
fn json_details_escape_strings() {
    let mut s = fresh_state();
    s.branch("main", "a\"b\\c\nd\u{1}", &stamp(2)).unwrap();
    assert_eq!(s.audit.last().unwrap().details, "{\"from\":\"main\",\"to\":\"a\\\"b\\\\c\\nd\\u0001\"}");
    let parsed: serde_json::Value = serde_json::from_str(&s.audit.last().unwrap().details).unwrap();
    assert_eq!(parsed["to"], "a\"b\\c\nd\u{1}");
}

#[test]
fn references_resolve_by_id_or_name_in_listing_order() {
    let store = BrainStore::at("/home/u/.cortex");
    assert_eq!(store.home_dir(), "/home/u/.cortex");
    let listed = store.list_brains(vec![
        summary("z-1", "zeta", "t"),
        summary("a-1", "alpha", "t"),
        summary("a-2", "alpha", "u"),
    ]);
    let names: Vec<&str> = listed.iter().map(|b| b.brain_id.as_str()).collect();
    assert_eq!(names, vec!["a-1", "a-2", "z-1"]);
    assert_eq!(store.resolve_brain(&listed, "alpha").unwrap().brain_id, "a-1");
    assert_eq!(store.resolve_brain(&listed, "z-1").unwrap().name, "zeta");
    match store.resolve_brain(&listed, "omega") {
        Err(BrainError::BrainNotFound(r)) => assert_eq!(r, "omega"),
        _ => panic!("not found expected"),
    }
    let (b, cfg) = store.set_active_brain(&listed, "zeta").unwrap();
    assert_eq!(b.brain_id, "z-1");
    assert_eq!(cfg.active_brain.as_deref(), Some("z-1"));
    assert_eq!(store.active_brain_id(&cfg).as_deref(), Some("z-1"));
    assert_eq!(store.active_brain_id(&AppConfig { active_brain: None }), None);
}

#[test]
fn the_brain_a_command_uses() {
    let store = BrainStore::at("h");
    let all = vec![summary("a-1", "alpha", "t"), summary("b-1", "beta", "t")];
    let active = AppConfig { active_brain: Some("b-1".to_string()) };
    let none = AppConfig { active_brain: None };
    assert_eq!(store.resolve_brain_or_active(&all, Some("alpha"), Some("beta"), &active).unwrap().brain_id, "a-1");
    assert_eq!(store.resolve_brain_or_active(&all, None, Some("  alpha \n"), &active).unwrap().brain_id, "a-1");
    assert_eq!(store.resolve_brain_or_active(&all, None, None, &active).unwrap().brain_id, "b-1");
    assert!(matches!(store.resolve_brain_or_active(&all, None, None, &none), Err(BrainError::NoActiveBrain)));
}

#[test]
fn api_keys_map_to_the_latest_mapping() {
    assert_eq!(key_hash("abc"), "ba7816bf8f01cfea414140de5dae2223b00361a396177a9cb410ff61f20015ad");
    let store = BrainStore::at("h");
    let m = store.map_api_key(Vec::new(), "key-1", "t1", "b1", "user:a");
    let m = store.map_api_key(m, "key-2", "t2", "b2", "user:b");
    let m = store.map_api_key(m, "key-1", "t3", "b3", "user:c");
    assert_eq!(m.len(), 2);
    assert_eq!(m[0].brain_id, "b2");
    let found = store.resolve_api_key(&m, "key-1").unwrap();
    assert_eq!((found.tenant_id.as_str(), found.brain_id.as_str(), found.subject.as_str()), ("t3", "b3", "user:c"));
    assert_eq!(found.key_hash, key_hash("key-1"));
    assert!(store.resolve_api_key(&m, "key-3").is_none());
}

#[test]
fn tenants_must_match() {
    let b = summary("a-1", "alpha", "tenant-a");
    assert!(check_tenant(&b, "tenant-a").is_ok());
    match check_tenant(&b, "tenant-b") {
        Err(BrainError::TenantMismatch(have, asked)) => assert_eq!((have.as_str(), asked.as_str()), ("tenant-a", "tenant-b")),
        _ => panic!("mismatch expected"),
    }
}

#[test]
fn audit_rows_filter_by_subject() {
    let rows = vec![
        AuditEntry { id: "1".into(), ts: "t".into(), actor: "user".into(), action: "a".into(), details: r#"{"subject":"user:x"}"#.into() },
        AuditEntry { id: "2".into(), ts: "t".into(), actor: "user".into(), action: "b".into(), details: r#"{"subject":"user:y"}"#.into() },
    ];
    let kept = audit_rows_mentioning(&rows, "user:x");
    assert_eq!(kept.len(), 1);
    assert_eq!(kept[0].id, "1");
    assert_eq!(audit_rows_mentioning(&rows, "").len(), 2);
    assert!(text_contains("abcabd", "abd"));
    assert!(!text_contains("ab", "abc"));
}

fn signing_key() -> Vec<u8> {
    (0u8..32).collect()
}

fn signed_manifest(payload: &[u8]) -> BrainManifest {
    let sk = signing_key();
    let mut m = fresh_manifest("b-1", "demo", "t", "now", &encode_b64(&[7u8; 16]), &public_key_b64(&sk), "", "ENV");
    m.signature_b64 = sign_payload(&sk, payload);
    m
}

#[test]
fn signatures_verify_and_tampering_is_caught() {
    let payload = b"manifest bytes".to_vec();
    let m = signed_manifest(&payload);
    assert!(verify_manifest_signature(&m, &payload).is_ok());
    assert!(matches!(verify_manifest_signature(&m, b"other bytes"), Err(BrainError::SignatureMismatch)));
    let mut bad = m.clone();
    bad.signature_b64 = "!!".to_string();
    assert!(matches!(verify_manifest_signature(&bad, &payload), Err(BrainError::InvalidBase64)));
    let mut short = m.clone();
    short.signature_b64 = encode_b64(&[1u8; 10]);
    assert!(matches!(verify_manifest_signature(&short, &payload), Err(BrainError::InvalidSignature)));
    let mut key = m.clone();
    key.signing_public_key_b64 = encode_b64(&[1u8; 31]);
    assert!(matches!(verify_manifest_signature(&key, &payload), Err(BrainError::InvalidVerifyingKey)));
}

#[test]
fn sealing_round_trips_and_binds_the_associated_data() {
    let key = derive_key(b"secret", &[9u8; 16]).unwrap();
    assert_eq!(key.len(), 32);
    assert_eq!(key, derive_key(b"secret", &[9u8; 16]).unwrap());
    assert!(matches!(derive_key(b"secret", &[1u8; 4]), Err(BrainError::KeyDerivationFailed)));
    let blob = encrypt_bytes(&key, b"brain-1", b"hello", &[3u8; 24]).unwrap();
    assert_eq!(decode_b64(&blob.nonce_b64).unwrap(), vec![3u8; 24]);
    assert_eq!(decrypt_bytes(&key, b"brain-1", &blob).unwrap(), b"hello".to_vec());
    assert!(matches!(decrypt_bytes(&key, b"brain-2", &blob), Err(BrainError::DecryptionFailed)));
    let odd = EncryptedBlob { nonce_b64: encode_b64(&[0u8; 12]), ciphertext_b64: blob.ciphertext_b64.clone() };
    assert!(try_decrypt_bytes(&key, b"brain-1", &odd).is_none());
    let broken = EncryptedBlob { nonce_b64: "%%".to_string(), ciphertext_b64: blob.ciphertext_b64.clone() };
    assert!(matches!(try_decrypt_bytes(&key, b"brain-1", &broken), Some(Err(BrainError::InvalidBase64))));
}

#[test]
fn opening_a_brain_checks_signature_digest_and_seals() {
    let payload = b"payload".to_vec();
    let sk = signing_key();
    let salt = [7u8; 16];
    let key = derive_key(b"pw", &salt).unwrap();
    let state = encrypt_bytes(&key, b"b-1", b"{\"branches\":{}}", &[1u8; 24]).unwrap();
    let sealed_key = encrypt_bytes(&key, b"b-1", &sk, &[2u8; 24]).unwrap();
    let blob_json = b"{\"nonce_b64\":\"x\"}".to_vec();
    let mut m = signed_manifest(&payload);
    m.state_sha256 = cortex_rmvm::hash::sha256_hex(&blob_json);
    m.signature_b64 = sign_payload(&sk, &payload);
    let (st, k) = open_brain(&m, &payload, b"pw", &blob_json, &state, &sealed_key).unwrap().unwrap();
    assert_eq!(st, b"{\"branches\":{}}".to_vec());
    assert_eq!(k, sk);
    assert!(matches!(
        open_brain(&m, &payload, b"pw", b"tampered", &state, &sealed_key),
        Some(Err(BrainError::StateChecksumMismatch))
    ));
    assert!(matches!(
        open_brain(&m, &payload, b"wrong", &blob_json, &state, &sealed_key),
        Some(Err(BrainError::DecryptionFailed))
    ));
}

#[test]
fn importing_checks_and_renames() {
    let payload = b"p".to_vec();
    let mut m = signed_manifest(&payload);
    m.state_sha256 = "abc".to_string();
    let uuid = "1b4e28ba-2fa1-11d2-883f-0016d3cca427";
    assert!(matches!(
        import_manifest(m.clone(), &payload, "abd", false, None, "now", false, uuid),
        Err(BrainError::StateChecksumMismatch)
    ));
    assert!(import_manifest(m.clone(), &payload, "abc", true, None, "now", false, uuid).unwrap().is_none());
    let kept = import_manifest(m.clone(), &payload, "abc", false, None, "later", false, uuid).unwrap().unwrap();
    assert_eq!((kept.brain_id.as_str(), kept.name.as_str(), kept.updated_at.as_str()), ("b-1", "demo", "now"));
    let renamed = import_manifest(m.clone(), &payload, "abc", false, Some("copy".to_string()), "later", true, uuid)
        .unwrap()
        .unwrap();
    assert_eq!(renamed.brain_id, "b-1-1b4e28");
    assert_eq!((renamed.name.as_str(), renamed.updated_at.as_str()), ("copy", "later"));
    assert!(matches!(
        import_manifest(m, b"not the payload", "abc", false, None, "now", false, uuid),
        Err(BrainError::SignatureMismatch)
    ));
}

#[test]
fn exporting_packages_a_verified_brain() {
    let payload = b"p".to_vec();
    let m = signed_manifest(&payload);
    let store = BrainStore::at("h");
    let blob = || EncryptedBlob { nonce_b64: "n".to_string(), ciphertext_b64: "c".to_string() };
    let pkg = store.export_brain(m.clone(), &payload, blob(), blob()).unwrap();
    assert_eq!(pkg.package_version, "brain/v1");
    assert_eq!(pkg.manifest.brain_id, "b-1");
    assert_eq!(pkg.state.nonce_b64, "n");
    assert!(store.export_brain(m, b"x", blob(), blob()).is_err());
}

#[test]
fn base64_is_the_standard_padded_alphabet() {
    assert_eq!(encode_b64(b"hello"), "aGVsbG8=");
    assert_eq!(encode_b64(b"hell"), "aGVsbA==");
    assert_eq!(encode_b64(b"hel"), "aGVs");
    assert_eq!(encode_b64(&[0xfbu8, 0xff]), "+/8=");
    assert_eq!(encode_b64(&[]), "");
    assert_eq!(decode_b64("aGVsbG8=").unwrap(), b"hello".to_vec());
    assert!(decode_b64("aGVsbG8").is_none());
}
