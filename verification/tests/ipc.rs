use passclip::client::{
    answer_credential_json, assertion_request, challenge_answer, challenge_outcome, clipboard_after_timer, secret_outcome, slots_outcome, status_outcome, UiSlot, UiStatus,
};
use passclip::ipc::{concat_text, IpcRequest, IpcResponse, SecureVault, VAULT_SLOTS};
use passclip::session::{registered_passkeys, AuthError, AuthSessionManager, PasskeyAuthenticator};
use passclip::vault::SlotMetadata;

const ASSERTION: &str = r#"{"id":"AAAA","rawId":"AAAA","response":{"authenticatorData":"AAAA","clientDataJSON":"AAAA","signature":"","userHandle":null},"extensions":{},"type":"public-key"}"#;

fn authenticator() -> PasskeyAuthenticator {
    match PasskeyAuthenticator::new("localhost", "http://localhost") {
        Ok(a) => a,
        Err(_) => panic!("localhost relying party must be accepted"),
    }
}

fn verify_request() -> IpcRequest {
    match assertion_request(ASSERTION) {
        Ok(r) => r,
        Err(m) => panic!("{}", m),
    }
}

fn error_message(r: IpcResponse) -> String {
    match r {
        IpcResponse::Error { message } => message,
        _ => panic!("expected an error response"),
    }
}

#[test]
fn authenticator_setup() {
    assert!(PasskeyAuthenticator::new("localhost", "http://localhost").is_ok());
    assert!(matches!(PasskeyAuthenticator::new("localhost", "not a url"), Err(AuthError::InvalidOrigin)));
    assert!(matches!(
        PasskeyAuthenticator::new("example.com", "http://localhost"),
        Err(AuthError::Webauthn(_))
    ));
}

#[test]
fn status_reports_vault_contents() {
    let wa = authenticator();
    let mut v = SecureVault::new();
    assert!(!v.has_secret());
    match v.handle_request(&wa, IpcRequest::GetStatus) {
        IpcResponse::Status { has_secret, count, max_slots } => {
            assert!(!has_secret);
            assert_eq!(count, 0);
            assert_eq!(max_slots, VAULT_SLOTS);
        }
        _ => panic!("expected status"),
    }
    v.multi_vault.push_at("s3cr3t".to_string(), 0, 1);
    match v.handle_request(&wa, IpcRequest::GetStatus) {
        IpcResponse::Status { has_secret, count, .. } => assert!(has_secret && count == 1),
        _ => panic!("expected status"),
    }
}

#[test]
fn list_reports_metadata() {
    let wa = authenticator();
    let mut v = SecureVault::new();
    v.multi_vault.push_at("abc".to_string(), 5, 7);
    match v.handle_request(&wa, IpcRequest::List) {
        IpcResponse::List { slots } => {
            assert_eq!(slots, vec![SlotMetadata { id: 1, entropy_bits: 5, timestamp_nanos: 7, len: 3 }])
        }
        _ => panic!("expected list"),
    }
}

#[test]
fn challenge_refused_on_empty_vault() {
    let wa = authenticator();
    let mut v = SecureVault::new();
    let r = v.handle_request(&wa, IpcRequest::RequestChallenge { slot_id: None });
    assert_eq!(error_message(r), "No secret isolated");
    assert!(v.current_auth.is_none());
}

#[test]
fn retrieval_without_challenge_is_refused() {
    let wa = authenticator();
    let mut v = SecureVault::new();
    v.multi_vault.push_at("s3cr3t".to_string(), 0, 1);
    let r = v.handle_request(&wa, verify_request());
    assert_eq!(error_message(r), "No active auth session");
    assert_eq!(v.multi_vault.len(), 1);
}

fn accepted() -> webauthn_rs::prelude::AuthenticationResult {
    serde_json::from_str(
        r#"{"cred_id":"AAAA","needs_update":false,"user_verified":true,"backup_state":false,"backup_eligible":false,"counter":0,"extensions":{}}"#,
    )
    .unwrap()
}

#[test]
fn unverified_answer_releases_nothing_and_uses_up_the_ceremony() {
    let wa = authenticator();
    let mut v = SecureVault::new();
    v.multi_vault.push_at("older".to_string(), 0, 1);
    v.multi_vault.push_at("newest".to_string(), 0, 2);
    let r = v.handle_request(&wa, IpcRequest::RequestChallenge { slot_id: None });
    assert!(matches!(r, IpcResponse::Challenge { .. }));
    assert!(v.current_auth.is_some());
    let r = v.handle_request(&wa, verify_request());
    assert_eq!(error_message(r), "Authentication failed");
    assert!(v.current_auth.is_none());
    assert_eq!(v.multi_vault.len(), 2);
    let again = v.handle_request(&wa, verify_request());
    assert_eq!(error_message(again), "No active auth session");
    assert_eq!(v.multi_vault.len(), 2);
}

#[test]
fn accepted_verdict_releases_the_newest_secret() {
    let mut v = SecureVault::new();
    v.multi_vault.push_at("older".to_string(), 0, 1);
    v.multi_vault.push_at("newest".to_string(), 0, 2);
    match v.release_after(Ok(accepted())) {
        IpcResponse::Success { secret } => assert_eq!(secret, "newest"),
        _ => panic!("expected the secret"),
    }
    assert_eq!(v.multi_vault.len(), 1);
}

#[test]
fn accepted_verdict_releases_a_chosen_slot() {
    let mut v = SecureVault::new();
    let first = v.multi_vault.push_at("first".to_string(), 0, 1);
    v.multi_vault.push_at("second".to_string(), 0, 2);
    v.target_slot_id = Some(first);
    match v.release_after(Ok(accepted())) {
        IpcResponse::Success { secret } => assert_eq!(secret, "first"),
        _ => panic!("expected the secret"),
    }
    assert_eq!(v.target_slot_id, None);
    v.target_slot_id = Some(77);
    assert_eq!(error_message(v.release_after(Ok(accepted()))), "Decryption failed");
    assert_eq!(v.multi_vault.len(), 1);
}

#[test]
fn refused_verdict_releases_nothing() {
    let mut v = SecureVault::new();
    v.multi_vault.push_at("s".to_string(), 0, 1);
    let r = v.release_after(Err(webauthn_rs::prelude::WebauthnError::CredentialNotFound));
    assert_eq!(error_message(r), "Authentication failed");
    assert_eq!(v.multi_vault.len(), 1);
}

#[test]
fn retrieval_of_a_chosen_slot_is_targeted() {
    let wa = authenticator();
    let mut v = SecureVault::new();
    let first = v.multi_vault.push_at("first".to_string(), 0, 1);
    v.multi_vault.push_at("second".to_string(), 0, 2);
    let r = v.handle_request(&wa, IpcRequest::RequestChallenge { slot_id: Some(first) });
    assert!(matches!(r, IpcResponse::Challenge { .. }));
    assert_eq!(v.target_slot_id, Some(first));
}

#[test]
fn failed_ceremony_start_is_reported() {
    let mut v = SecureVault::new();
    v.multi_vault.push_at("s".to_string(), 0, 1);
    let r = v.begin_challenge(Some(1), Err(webauthn_rs::prelude::WebauthnError::Configuration));
    assert!(error_message(r).starts_with("WebAuthn Err: "));
    assert!(v.current_auth.is_none());
    assert_eq!(v.target_slot_id, None);
}

#[test]
fn started_ceremony_is_kept() {
    let wa = authenticator();
    let mut v = SecureVault::new();
    let started = wa.start_auth(Vec::new());
    assert!(started.is_ok());
    let r = v.begin_challenge(Some(3), started);
    assert!(matches!(r, IpcResponse::Challenge { .. }));
    assert_eq!(v.target_slot_id, Some(3));
}

#[test]
fn verify_auth_rejects_a_forged_assertion() {
    let wa = authenticator();
    let (_, state) = wa.start_auth(Vec::new()).ok().unwrap();
    let assertion = match verify_request() {
        IpcRequest::VerifyAssertion { assertion } => assertion,
        _ => unreachable!(),
    };
    assert!(wa.verify_auth(&assertion, state).is_err());
}

#[test]
fn sessions_are_used_once() {
    let wa = authenticator();
    let (_, state) = wa.start_auth(Vec::new()).ok().unwrap();
    let mut m = AuthSessionManager::new();
    let id = m.store_session(state);
    assert_eq!(uuid::Uuid::from_u128(id).get_version_num(), 4);
    assert!(m.retrieve_session(id).is_some());
    assert!(m.retrieve_session(id).is_none());
    assert!(m.retrieve_session(id ^ 1).is_none());
}

#[test]
fn status_outcomes() {
    let ok = status_outcome(Ok(IpcResponse::Status { has_secret: true, count: 2, max_slots: 5 }));
    assert_eq!(ok, Ok(UiStatus { has_secret: true, count: 2, max_slots: 5 }));
    assert_eq!(
        status_outcome(Ok(IpcResponse::Error { message: "boom".to_string() })),
        Err("boom".to_string())
    );
    assert_eq!(
        status_outcome(Err("refused".to_string())),
        Err("Failed to connect to daemon: refused".to_string())
    );
    assert_eq!(
        status_outcome(Ok(IpcResponse::List { slots: vec![] })),
        Err("Unexpected response from daemon".to_string())
    );
}

#[test]
fn slots_outcomes() {
    let slots = vec![SlotMetadata { id: 4, entropy_bits: 9, timestamp_nanos: 2_500_000_000, len: 12 }];
    assert_eq!(
        slots_outcome(Ok(IpcResponse::List { slots })),
        Ok(vec![UiSlot { id: 4, len: 12, entropy_bits: 9, timestamp: 2 }])
    );
    assert_eq!(slots_outcome(Err("x".to_string())), Err("Daemon connection failed: x".to_string()));
    assert_eq!(
        slots_outcome(Ok(IpcResponse::Success { secret: "s".to_string() })),
        Err("Unexpected response from daemon".to_string())
    );
}

#[test]
fn challenge_outcomes() {
    let wa = authenticator();
    let (options, _) = wa.start_auth(Vec::new()).ok().unwrap();
    let expected = serde_json::to_string(&options).unwrap();
    let json = challenge_outcome(Ok(IpcResponse::Challenge { options: Box::new(options) })).unwrap();
    assert!(json.contains("challenge"));
    assert_eq!(json, expected);
    assert_eq!(challenge_outcome(Err("down".to_string())), Err("IPC error: down".to_string()));
    assert_eq!(
        challenge_outcome(Ok(IpcResponse::Status { has_secret: false, count: 0, max_slots: 5 })),
        Err("Unexpected response".to_string())
    );
}

#[test]
fn assertion_parsing() {
    assert!(matches!(assertion_request(ASSERTION), Ok(IpcRequest::VerifyAssertion { .. })));
    match assertion_request("{not json") {
        Err(m) => assert!(m.starts_with("Failed to parse credential assertion JSON: ")),
        Ok(_) => panic!("malformed JSON must be refused"),
    }
}

#[test]
fn secret_outcomes() {
    assert_eq!(secret_outcome(Ok(IpcResponse::Success { secret: "pw".to_string() })), Ok("pw".to_string()));
    assert_eq!(secret_outcome(Err("e".to_string())), Err("IPC connection error: e".to_string()));
    assert_eq!(
        secret_outcome(Ok(IpcResponse::Error { message: "No active auth session".to_string() })),
        Err("No active auth session".to_string())
    );
}

#[test]
fn concatenation() {
    assert_eq!(concat_text("ab", "cd"), "abcd");
}

#[test]
fn registered_passkeys_are_kept() {
    let v = SecureVault::new();
    assert!(v.credentials.is_empty());
    assert!(v.current_auth.is_none());
    assert_eq!(v.target_slot_id, None);
}

#[test]
fn challenge_answer_carries_the_challenge() {
    let wa = authenticator();
    let (options, _) = wa.start_auth(Vec::new()).ok().unwrap();
    let encoded = serde_json::to_value(&options.public_key.challenge).unwrap();
    let answer = challenge_answer(&options);
    let parsed: serde_json::Value = serde_json::from_str(&answer).unwrap();
    assert_eq!(parsed["id"], encoded);
    assert_eq!(parsed["rawId"], encoded);
    assert_eq!(parsed["response"]["clientDataJSON"], encoded);
    assert_eq!(parsed["type"], serde_json::Value::String("public-key".to_string()));
    assert!(assertion_request(&answer).is_ok());
}

#[test]
fn answer_credential_layout() {
    assert_eq!(
        answer_credential_json("\"QUJD\""),
        "{\"extensions\":{},\"id\":\"QUJD\",\"rawId\":\"QUJD\",\"response\":{\"authenticatorData\":\"QUJD\",\"clientDataJSON\":\"QUJD\",\"signature\":[],\"userHandle\":null},\"type\":\"public-key\"}"
    );
}

#[test]
fn parsed_assertion_is_the_one_sent() {
    let expected: webauthn_rs::prelude::PublicKeyCredential = serde_json::from_str(ASSERTION).unwrap();
    match assertion_request(ASSERTION) {
        Ok(IpcRequest::VerifyAssertion { assertion }) => {
            assert_eq!(serde_json::to_string(&*assertion).unwrap(), serde_json::to_string(&expected).unwrap())
        }
        _ => panic!("the assertion must parse"),
    }
}

#[test]
fn clipboard_goes_back_after_the_timer() {
    assert_eq!(clipboard_after_timer("s3cr3t", "s3cr3t", "before"), Some("before".to_string()));
    assert_eq!(clipboard_after_timer("other", "s3cr3t", "before"), None);
    assert_eq!(clipboard_after_timer("", "s3cr3t", ""), None);
}

#[test]
fn stored_session_ids_are_uuid_v4() {
    let wa = authenticator();
    let (_, state) = wa.start_auth(Vec::new()).ok().unwrap();
    let mut m = AuthSessionManager::new();
    let id = m.store_session(state);
    assert_eq!((id >> 76) & 0xf, 4);
    assert_eq!((id >> 62) & 0x3, 2);
}

#[test]
fn registered_passkeys_parse_from_json() {
    match registered_passkeys("[]") {
        Ok(v) => assert!(v.is_empty()),
        Err(e) => panic!("an empty list must parse: {}", e),
    }
    assert!(registered_passkeys("{not json").is_err());
    assert!(registered_passkeys("{}").is_err());
}

#[test]
fn ceremony_options_allow_the_given_passkeys() {
    let wa = authenticator();
    let (options, _) = wa.start_auth(Vec::new()).ok().unwrap();
    assert!(options.public_key.allow_credentials.is_empty());
    assert!(!options.public_key.challenge.is_empty());
}
