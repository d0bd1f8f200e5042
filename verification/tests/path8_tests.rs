use base64::Engine;
use hmac::Mac;
use path8::approval::{
    consume_jti_reply, enforce_path8_approval_at, reserve_jti, JtiStoreReply,
};
use path8::canonical::{
    canonical_instruction, canonical_outer_instructions, compute_canonical_instruction_hash,
    is_signer, is_writable, writable_loaded_address_count, CompiledInstruction, LegacyMessage,
    MessageAddressTableLookup, MessageHeader, V0Message, VersionedMessage, VersionedTransaction,
    VersionedTransactionResolved,
};
use path8::config::Path8Config;
use path8::error::KoraError;
use path8::token::{
    decode_segment, token_segments, verify_approval_token, ApprovalClaims, JwtHeader,
};

type HmacSha256 = hmac::Hmac<sha2::Sha256>;

fn b64(bytes: &[u8]) -> String {
    base64::engine::general_purpose::URL_SAFE_NO_PAD.encode(bytes)
}

fn json_object(fields: Vec<(&str, serde_json::Value)>) -> serde_json::Value {
    let mut map = serde_json::Map::new();
    for (k, v) in fields {
        map.insert(k.to_string(), v);
    }
    serde_json::Value::Object(map)
}

fn hs256_token(secret: &str, payload: serde_json::Value) -> String {
    let header = json_object(vec![
        ("alg", serde_json::Value::from("HS256")),
        ("typ", serde_json::Value::from("JWT")),
    ]);
    let header = b64(&serde_json::to_vec(&header).unwrap());
    let payload = b64(&serde_json::to_vec(&payload).unwrap());
    let input = format!("{header}.{payload}");
    let mut mac = HmacSha256::new_from_slice(secret.as_bytes()).unwrap();
    mac.update(input.as_bytes());
    let sig = b64(&mac.finalize().into_bytes());
    format!("{input}.{sig}")
}

fn claims_json(ch: &str, exp: i64, jti: &str) -> serde_json::Value {
    json_object(vec![
        ("sub", serde_json::Value::from("u")),
        ("sid", serde_json::Value::from("s")),
        ("iid", serde_json::Value::from("i")),
        ("ch", serde_json::Value::from(ch)),
        ("exp", serde_json::Value::from(exp)),
        ("jti", serde_json::Value::from(jti)),
    ])
}

/// The JSON decoding of the header segment, as the relayer's serde types do it.
fn parse_header(token: &str) -> Option<JwtHeader> {
    let parts = token_segments(token);
    let bytes = decode_segment(parts.first()?)?;
    let v: serde_json::Value = serde_json::from_slice(&bytes).ok()?;
    let alg = v.get("alg")?.as_str()?.to_string();
    let typ = match v.get("typ") {
        None | Some(serde_json::Value::Null) => None,
        Some(t) => Some(t.as_str()?.to_string()),
    };
    Some(JwtHeader { alg, typ })
}

/// The JSON decoding of the payload segment, as the relayer's serde types do it.
fn parse_claims(token: &str) -> Option<ApprovalClaims> {
    let parts = token_segments(token);
    let bytes = decode_segment(parts.get(1)?)?;
    let v: serde_json::Value = serde_json::from_slice(&bytes).ok()?;
    let s = |k: &str| -> Option<String> { Some(v.get(k)?.as_str()?.to_string()) };
    Some(ApprovalClaims {
        sub: s("sub")?,
        sid: s("sid")?,
        iid: s("iid")?,
        ch: s("ch")?,
        exp: v.get("exp")?.as_i64()?,
        jti: s("jti")?,
    })
}

fn test_config() -> Path8Config {
    Path8Config {
        enabled: true,
        hmac_secret_env: "PATH8_TEST_SECRET".to_string(),
        ..Default::default()
    }
}

fn verify(config: &Path8Config, token: &str, secret: Option<&str>, now: i64) -> Result<ApprovalClaims, KoraError> {
    verify_approval_token(config, token, parse_header(token), secret, parse_claims(token), now)
}

fn unauthorized_text(r: Result<ApprovalClaims, KoraError>) -> String {
    match r {
        Err(KoraError::Unauthorized(m)) => m,
        other => panic!("expected Unauthorized, got {other:?}"),
    }
}

#[test]
fn verifies_hs256_claims() {
    let now = chrono::Utc::now().timestamp();
    let exp = now + 60;
    let token = hs256_token("secret", claims_json(&"ab".repeat(32), exp, "j"));
    let config = test_config();
    let claims = verify(&config, &token, Some("secret"), now).unwrap();
    assert_eq!(claims.ch, "ab".repeat(32));
    assert_eq!(claims.jti, "j");
}

#[test]
fn rejects_bad_signature() {
    let now = chrono::Utc::now().timestamp();
    let exp = now + 60;
    let token = hs256_token("wrong", claims_json(&"ab".repeat(32), exp, "j"));
    let config = test_config();
    assert!(matches!(verify(&config, &token, Some("secret"), now), Err(KoraError::Unauthorized(_))));
}

fn legacy_resolved(message: &solana_message::Message) -> VersionedTransactionResolved {
    let keys: Vec<[u8; 32]> = message.account_keys.iter().map(|k| k.to_bytes()).collect();
    let instructions = message
        .instructions
        .iter()
        .map(|ix| CompiledInstruction {
            program_id_index: ix.program_id_index,
            accounts: ix.accounts.clone(),
            data: ix.data.clone(),
        })
        .collect();
    let header = MessageHeader {
        num_required_signatures: message.header.num_required_signatures,
        num_readonly_signed_accounts: message.header.num_readonly_signed_accounts,
        num_readonly_unsigned_accounts: message.header.num_readonly_unsigned_accounts,
    };
    let signatures = vec![[0u8; 64]; message.header.num_required_signatures as usize];
    VersionedTransactionResolved {
        transaction: VersionedTransaction {
            signatures,
            message: VersionedMessage::Legacy(LegacyMessage {
                header,
                account_keys: keys.clone(),
                recent_blockhash: message.recent_blockhash.to_bytes(),
                instructions,
            }),
        },
        all_account_keys: keys,
    }
}

#[test]
fn canonical_hash_ignores_blockhash() {
    let payer = solana_message::Address::new_from_array([7u8; 32]);
    let program = solana_message::Address::new_from_array([8u8; 32]);
    let account = solana_message::Address::new_from_array([9u8; 32]);
    let ix = solana_message::Instruction::new_with_bytes(
        program,
        &[1, 2, 3],
        vec![solana_message::AccountMeta::new_readonly(account, false)],
    );
    let msg1 = solana_message::Message::new(&[ix.clone()], Some(&payer));
    let msg2 = solana_message::Message::new(&[ix], Some(&payer));
    let resolved1 = legacy_resolved(&msg1);
    let resolved2 = legacy_resolved(&msg2);
    assert_eq!(
        compute_canonical_instruction_hash(&resolved1).unwrap(),
        compute_canonical_instruction_hash(&resolved2).unwrap()
    );
}

#[test]
fn canonical_hash_same_for_different_blockhash_and_signatures() {
    let payer = solana_message::Address::new_from_array([7u8; 32]);
    let program = solana_message::Address::new_from_array([8u8; 32]);
    let account = solana_message::Address::new_from_array([9u8; 32]);
    let ix = solana_message::Instruction::new_with_bytes(
        program,
        &[1, 2, 3],
        vec![solana_message::AccountMeta::new_readonly(account, false)],
    );
    let msg1 = solana_message::Message::new_with_blockhash(
        &[ix.clone()],
        Some(&payer),
        &solana_message::Hash::new_from_array([1u8; 32]),
    );
    let msg2 = solana_message::Message::new_with_blockhash(
        &[ix],
        Some(&payer),
        &solana_message::Hash::new_from_array([2u8; 32]),
    );
    let resolved1 = legacy_resolved(&msg1);
    let mut resolved2 = legacy_resolved(&msg2);
    resolved2.transaction.signatures = vec![[5u8; 64]];
    let h1 = compute_canonical_instruction_hash(&resolved1).unwrap();
    assert_eq!(h1, compute_canonical_instruction_hash(&resolved2).unwrap());
    assert_eq!(h1.len(), 64);
}

/// A legacy transaction with keys [payer, writable, readonly, program] and
/// one instruction calling `program` on accounts [1, 2, 0] with data [0xaa].
fn sample_resolved() -> VersionedTransactionResolved {
    let keys = vec![[1u8; 32], [2u8; 32], [3u8; 32], [4u8; 32]];
    VersionedTransactionResolved {
        transaction: VersionedTransaction {
            signatures: vec![[0u8; 64]],
            message: VersionedMessage::Legacy(LegacyMessage {
                header: MessageHeader {
                    num_required_signatures: 1,
                    num_readonly_signed_accounts: 0,
                    num_readonly_unsigned_accounts: 2,
                },
                account_keys: keys.clone(),
                recent_blockhash: [0u8; 32],
                instructions: vec![CompiledInstruction {
                    program_id_index: 3,
                    accounts: vec![1, 2, 0],
                    data: vec![0xaa],
                }],
            }),
        },
        all_account_keys: keys,
    }
}

fn le64(n: u64) -> Vec<u8> {
    n.to_le_bytes().to_vec()
}

#[test]
fn canonical_hash_matches_independent_encoding() {
    let tx = sample_resolved();
    let mut pre = le64(1);
    pre.extend_from_slice(&[4u8; 32]);
    pre.extend(le64(3));
    pre.extend_from_slice(&[2u8; 32]);
    pre.extend_from_slice(&[0, 1]);
    pre.extend_from_slice(&[3u8; 32]);
    pre.extend_from_slice(&[0, 0]);
    pre.extend_from_slice(&[1u8; 32]);
    pre.extend_from_slice(&[1, 1]);
    pre.extend(le64(1));
    pre.push(0xaa);
    let expected = hex::encode(<sha2::Sha256 as sha2::Digest>::digest(&pre));
    assert_eq!(compute_canonical_instruction_hash(&tx).unwrap(), expected);
}

#[test]
fn canonical_hash_of_no_instructions() {
    let mut tx = sample_resolved();
    if let VersionedMessage::Legacy(m) = &mut tx.transaction.message {
        m.instructions.clear();
    }
    // SHA-256 of eight zero bytes.
    assert_eq!(
        compute_canonical_instruction_hash(&tx).unwrap(),
        "af5570f5a1810b7af78caf4bc70a660f0df51e42baf91d4de5b2328de0e83dfc"
    );
}

#[test]
fn canonical_outer_instructions_resolves_flags() {
    let tx = sample_resolved();
    let ixs = canonical_outer_instructions(&tx).unwrap();
    assert_eq!(ixs.len(), 1);
    assert_eq!(ixs[0].program_id, [4u8; 32]);
    let flags: Vec<(bool, bool)> = ixs[0].accounts.iter().map(|a| (a.is_signer, a.is_writable)).collect();
    assert_eq!(flags, vec![(false, true), (false, false), (true, true)]);
    assert_eq!(ixs[0].data, vec![0xaa]);
}

#[test]
fn program_index_out_of_bounds_is_invalid_transaction() {
    let tx = sample_resolved();
    let ix = CompiledInstruction { program_id_index: 4, accounts: vec![0], data: vec![] };
    match canonical_instruction(&ix, &tx.all_account_keys, 4, 0, &tx.transaction.message) {
        Err(KoraError::InvalidTransaction(m)) => assert_eq!(m, "instruction program id index out of bounds"),
        other => panic!("unexpected {other:?}"),
    }
}

#[test]
fn account_index_out_of_bounds_is_invalid_transaction() {
    let mut tx = sample_resolved();
    if let VersionedMessage::Legacy(m) = &mut tx.transaction.message {
        m.instructions[0].accounts = vec![0, 9];
    }
    match compute_canonical_instruction_hash(&tx) {
        Err(KoraError::InvalidTransaction(m)) => assert_eq!(m, "instruction account index out of bounds"),
        other => panic!("unexpected {other:?}"),
    }
}

fn v0_message(lookups: Vec<Vec<u8>>) -> VersionedMessage {
    VersionedMessage::V0(V0Message {
        header: MessageHeader {
            num_required_signatures: 2,
            num_readonly_signed_accounts: 1,
            num_readonly_unsigned_accounts: 1,
        },
        account_keys: vec![[1u8; 32], [2u8; 32], [3u8; 32], [4u8; 32]],
        recent_blockhash: [0u8; 32],
        instructions: vec![],
        address_table_lookups: lookups
            .into_iter()
            .map(|w| MessageAddressTableLookup { account_key: [9u8; 32], writable_indexes: w, readonly_indexes: vec![5] })
            .collect(),
    })
}

#[test]
fn writable_loaded_count_sums_lookups() {
    assert_eq!(writable_loaded_address_count(&v0_message(vec![vec![1, 2], vec![], vec![3]])), 3);
    assert_eq!(writable_loaded_address_count(&sample_resolved().transaction.message), 0);
}

#[test]
fn signer_and_writable_flags() {
    let m = v0_message(vec![vec![1, 2]]);
    // Static keys: 0 writable signer, 1 read-only signer, 2 writable, 3 read-only.
    assert!(is_signer(&m, 0) && is_signer(&m, 1) && !is_signer(&m, 2));
    assert!(is_writable(&m, 0, 4, 2));
    assert!(!is_writable(&m, 1, 4, 2));
    assert!(is_writable(&m, 2, 4, 2));
    assert!(!is_writable(&m, 3, 4, 2));
    // Loaded keys: the first two are writable.
    assert!(is_writable(&m, 4, 4, 2) && is_writable(&m, 5, 4, 2));
    assert!(!is_writable(&m, 6, 4, 2));
}

#[test]
fn readonly_counts_larger_than_groups_saturate() {
    let m = VersionedMessage::Legacy(LegacyMessage {
        header: MessageHeader { num_required_signatures: 1, num_readonly_signed_accounts: 5, num_readonly_unsigned_accounts: 9 },
        account_keys: vec![[1u8; 32], [2u8; 32]],
        recent_blockhash: [0u8; 32],
        instructions: vec![],
    });
    assert!(!is_writable(&m, 0, 2, 0));
    assert!(!is_writable(&m, 1, 2, 0));
}

#[test]
fn token_segments_split_like_str_split() {
    assert_eq!(token_segments("a.b.c"), vec!["a", "b", "c"]);
    assert_eq!(token_segments(""), vec![""]);
    assert_eq!(token_segments("a..b."), vec!["a", "", "b", ""]);
}

#[test]
fn decode_segment_decodes_base64url() {
    assert_eq!(decode_segment("aGk"), Some(b"hi".to_vec()));
    assert_eq!(decode_segment("_-8"), Some(vec![0xff, 0xef]));
    assert_eq!(decode_segment("aGk="), None);
    assert_eq!(decode_segment("!!"), None);
}

#[test]
fn segment_count_errors() {
    let config = test_config();
    assert_eq!(unauthorized_text(verify(&config, "abc", Some("secret"), 0)), "approval token missing payload");
    assert_eq!(unauthorized_text(verify(&config, "a.b", Some("secret"), 0)), "approval token missing signature");
    assert_eq!(unauthorized_text(verify(&config, "a.b.c.d", Some("secret"), 0)), "approval token has too many segments");
}

fn signed(secret: &str, header_json: &[u8], payload_seg: &str) -> String {
    let header = b64(header_json);
    let input = format!("{header}.{payload_seg}");
    let mut mac = HmacSha256::new_from_slice(secret.as_bytes()).unwrap();
    mac.update(input.as_bytes());
    format!("{input}.{}", b64(&mac.finalize().into_bytes()))
}

#[test]
fn header_errors() {
    let config = test_config();
    let payload = b64(&serde_json::to_vec(&claims_json(&"ab".repeat(32), 100, "j")).unwrap());
    assert_eq!(unauthorized_text(verify(&config, "!!.e30.e30", Some("secret"), 0)), "approval token header is not base64url");
    let t = signed("secret", b"not json", &payload);
    assert_eq!(unauthorized_text(verify(&config, &t, Some("secret"), 0)), "approval token header is invalid JSON");
    let t = signed("secret", br#"{"alg":"none"}"#, &payload);
    assert_eq!(unauthorized_text(verify(&config, &t, Some("secret"), 0)), "approval token alg must be HS256");
    let t = signed("secret", br#"{"alg":"HS256","typ":"JWS"}"#, &payload);
    assert_eq!(unauthorized_text(verify(&config, &t, Some("secret"), 0)), "approval token typ must be JWT");
    let t = signed("secret", br#"{"alg":"HS256"}"#, &payload);
    assert!(verify(&config, &t, Some("secret"), 0).is_ok());
}

#[test]
fn secret_and_signature_errors() {
    let config = test_config();
    let payload = b64(&serde_json::to_vec(&claims_json(&"ab".repeat(32), 100, "j")).unwrap());
    let t = signed("secret", br#"{"alg":"HS256"}"#, &payload);
    assert_eq!(
        unauthorized_text(verify(&config, &t, None, 0)),
        "Path8 approval secret env PATH8_TEST_SECRET is not set"
    );
    let parts = token_segments(&t);
    let bad_sig = format!("{}.{}.%%", parts[0], parts[1]);
    assert_eq!(unauthorized_text(verify(&config, &bad_sig, Some("secret"), 0)), "approval token signature is not base64url");
    assert_eq!(unauthorized_text(verify(&config, &t, Some("other"), 0)), "approval token signature mismatch");
}

#[test]
fn payload_and_claim_errors() {
    let config = test_config();
    let t = signed("secret", br#"{"alg":"HS256"}"#, "@@");
    assert_eq!(unauthorized_text(verify(&config, &t, Some("secret"), 0)), "approval token payload is not base64url");
    let t = signed("secret", br#"{"alg":"HS256"}"#, &b64(b"[1,2"));
    assert_eq!(unauthorized_text(verify(&config, &t, Some("secret"), 0)), "approval token payload is invalid JSON");
    let short = b64(&serde_json::to_vec(&claims_json(&"ab".repeat(31), 100, "j")).unwrap());
    let t = signed("secret", br#"{"alg":"HS256"}"#, &short);
    assert_eq!(unauthorized_text(verify(&config, &t, Some("secret"), 0)), "approval token missing required claim");
    let no_jti = b64(&serde_json::to_vec(&claims_json(&"ab".repeat(32), 100, "")).unwrap());
    let t = signed("secret", br#"{"alg":"HS256"}"#, &no_jti);
    assert_eq!(unauthorized_text(verify(&config, &t, Some("secret"), 0)), "approval token missing required claim");
    let ok = b64(&serde_json::to_vec(&claims_json(&"ab".repeat(32), 100, "j")).unwrap());
    let t = signed("secret", br#"{"alg":"HS256"}"#, &ok);
    assert_eq!(unauthorized_text(verify(&config, &t, Some("secret"), 100)), "approval token expired");
    assert_eq!(verify(&config, &t, Some("secret"), 99).unwrap().exp, 100);
}

#[test]
fn multibyte_content_hash_counts_bytes() {
    let config = test_config();
    // 32 two-byte characters: 64 bytes.
    let ch = "é".repeat(32);
    let t = hs256_token("secret", claims_json(&ch, 100, "j"));
    assert!(verify(&config, &t, Some("secret"), 0).is_ok());
    let ch = "é".repeat(64);
    let t = hs256_token("secret", claims_json(&ch, 100, "j"));
    assert_eq!(unauthorized_text(verify(&config, &t, Some("secret"), 0)), "approval token missing required claim");
}

#[test]
fn requires_method_checks_enabled_and_list() {
    let mut config = test_config();
    config.required_for_methods = vec!["signTransaction".to_string(), "path8_execute".to_string()];
    assert!(config.requires_method("path8_execute"));
    assert!(!config.requires_method("signAndSendTransaction"));
    config.enabled = false;
    assert!(!config.requires_method("path8_execute"));
    let d = Path8Config::default();
    assert!(!d.enabled && d.redis_url.is_none() && d.required_for_methods.is_empty());
}

fn protected_config() -> Path8Config {
    Path8Config {
        enabled: true,
        hmac_secret_env: "PATH8_TEST_SECRET".to_string(),
        required_for_methods: vec!["path8_execute".to_string()],
        redis_url: Some("redis://127.0.0.1/".to_string()),
        jti_key_prefix: "path8:jti".to_string(),
    }
}

fn enforce(config: &Path8Config, method: &str, token: Option<&str>, tx: &VersionedTransactionResolved, verified_at: i64, consumed_at: i64) -> Result<Option<path8::approval::JtiReservation>, KoraError> {
    let header = token.and_then(parse_header);
    let claims = token.and_then(parse_claims);
    enforce_path8_approval_at(config, method, token, tx, header, Some("secret"), claims, verified_at, consumed_at)
}

#[test]
fn enforce_approves_bound_token() {
    let config = protected_config();
    let tx = sample_resolved();
    let ch = compute_canonical_instruction_hash(&tx).unwrap();
    let token = hs256_token("secret", claims_json(&ch, 1000, "abc"));
    let r = enforce(&config, "path8_execute", Some(&token), &tx, 10, 400).unwrap().unwrap();
    assert_eq!(r.key, "path8:jti:abc");
    assert_eq!(r.ttl, 600);
    assert_eq!(r.redis_url, "redis://127.0.0.1/");
}

#[test]
fn enforce_skips_unprotected_methods() {
    let config = protected_config();
    let tx = sample_resolved();
    assert!(enforce(&config, "signTransaction", None, &tx, 0, 0).unwrap().is_none());
}

#[test]
fn enforce_errors() {
    let config = protected_config();
    let tx = sample_resolved();
    match enforce(&config, "path8_execute", None, &tx, 0, 0) {
        Err(KoraError::Unauthorized(m)) => assert_eq!(m, "Path8 approval token required for path8_execute"),
        other => panic!("unexpected {other:?}"),
    }
    let token = hs256_token("secret", claims_json(&"ab".repeat(32), 1000, "abc"));
    match enforce(&config, "path8_execute", Some(&token), &tx, 0, 0) {
        Err(KoraError::Unauthorized(m)) => assert_eq!(m, "Path8 approval token content hash mismatch"),
        other => panic!("unexpected {other:?}"),
    }
    let ch = compute_canonical_instruction_hash(&tx).unwrap();
    let token = hs256_token("secret", claims_json(&ch, 1000, "abc"));
    match enforce(&config, "path8_execute", Some(&token), &tx, 10, 1000) {
        Err(KoraError::Unauthorized(m)) => assert_eq!(m, "approval token expired"),
        other => panic!("unexpected {other:?}"),
    }
    let mut no_store = protected_config();
    no_store.redis_url = None;
    match enforce(&no_store, "path8_execute", Some(&token), &tx, 10, 10) {
        Err(KoraError::Unauthorized(m)) => assert_eq!(m, "Path8 JTI Redis URL is required when enforcement is enabled"),
        other => panic!("unexpected {other:?}"),
    }
}

#[test]
fn reserve_jti_checks_store_and_expiry() {
    let config = protected_config();
    let r = reserve_jti(&config, "x", i64::MAX, i64::MIN).unwrap();
    assert_eq!(r.ttl, u64::MAX);
    assert_eq!(r.key, "path8:jti:x");
    assert!(matches!(reserve_jti(&config, "x", 5, 5), Err(KoraError::Unauthorized(_))));
}

#[test]
fn jti_reply_is_one_shot() {
    assert!(consume_jti_reply(&JtiStoreReply::Reply(Some("OK".to_string()))).is_ok());
    let consumed = |r: JtiStoreReply| match consume_jti_reply(&r) {
        Err(KoraError::Unauthorized(m)) => m,
        other => panic!("unexpected {other:?}"),
    };
    assert_eq!(consumed(JtiStoreReply::Reply(None)), "approval token JTI already consumed");
    assert_eq!(consumed(JtiStoreReply::Reply(Some("QUEUED".to_string()))), "approval token JTI already consumed");
    assert_eq!(consumed(JtiStoreReply::ClientError("bad url".to_string())), "Path8 JTI Redis client error: bad url");
    assert_eq!(consumed(JtiStoreReply::ConnectionError("refused".to_string())), "Path8 JTI Redis connection error: refused");
    assert_eq!(consumed(JtiStoreReply::CommandError("oom".to_string())), "Path8 JTI Redis SETNX error: oom");
}
