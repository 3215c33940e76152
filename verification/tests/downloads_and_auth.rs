use aes_gcm::aead::Aead;
use aes_gcm::KeyInit;
use nexus_launcher::auth::{
    accept_answer, derive_key_and_nonce_with, is_success_status, minecraft_access_token,
    open_token_with, owns_game, poll_step, utf8_error_message, rps_ticket, seal_token_with, service_failure,
    vault_file_in, xbl_identity_token, xbox_credentials, AuthError, AuthService, DisplayClaims,
    Entitlement, EntitlementsResponse, MinecraftLoginResponse, PollStep, TokenPollAnswer,
    XboxLiveResponse, Xui,
};
use nexus_launcher::download::{check_download, hex_text, matches_sha1, needs_download, sha1_hex, DownloadError};

#[test]
fn sha1_of_known_text() {
    assert_eq!(sha1_hex(b"abc"), "a9993e364706816aba3e25717850c26c9cd0d89d");
    assert_eq!(sha1_hex(b""), "da39a3ee5e6b4b0d3255bfef95601890afd80709");
    assert!(matches_sha1(b"abc", "a9993e364706816aba3e25717850c26c9cd0d89d"));
    assert!(!matches_sha1(b"abc", "A9993E364706816ABA3E25717850C26C9CD0D89D"));
    assert_eq!(hex_text(&[]), "");
    assert_eq!(hex_text(&[0x00, 0x0f, 0xa0, 0xff, 0x5c]), "000fa0ff5c");
    let all: Vec<u8> = (0..=255).collect();
    assert_eq!(hex_text(&all), hex::encode(&all));
}

#[test]
fn existing_verified_file_is_not_fetched_again() {
    let good = "a9993e364706816aba3e25717850c26c9cd0d89d";
    assert!(needs_download(None, good));
    assert!(!needs_download(Some(b"abc"), good));
    assert!(needs_download(Some(b"abd"), good));
    assert_eq!(check_download(b"abc", good), Ok(()));
    assert_eq!(check_download(b"abd", good), Err(DownloadError::Sha1Mismatch));
    assert_eq!(DownloadError::Sha1Mismatch.message(), "SHA1 verification failed");
}

#[test]
fn vault_key_and_nonce() {
    let (key, nonce) = derive_key_and_nonce_with(Some("machine-1".to_string()), "uuid-1");
    assert_eq!(key.len(), 32);
    assert_eq!(nonce.len(), 12);
    let (key2, nonce2) = derive_key_and_nonce_with(None, "uuid-1");
    assert_ne!(key, key2);
    assert_eq!(nonce, nonce2);
    // sha256("") starts with e3b0c442 98fc1c14 9afbf4c8
    let (_, n) = derive_key_and_nonce_with(None, "");
    assert_eq!(n, vec![0xe3, 0xb0, 0xc4, 0x42, 0x98, 0xfc, 0x1c, 0x14, 0x9a, 0xfb, 0xf4, 0xc8]);
}

#[test]
fn sealed_token_opens_to_itself() {
    let m = Some("machine-1".to_string());
    let sealed = seal_token_with(m.clone(), "uuid-1", "refresh-token-value").unwrap();
    assert_eq!(sealed.len(), "refresh-token-value".len() + 16);
    assert_eq!(open_token_with(m.clone(), "uuid-1", &sealed), Ok("refresh-token-value".to_string()));
    assert_eq!(open_token_with(Some("machine-2".to_string()), "uuid-1", &sealed), Err(AuthError::Decryption));
    assert_eq!(open_token_with(m.clone(), "uuid-2", &sealed), Err(AuthError::Decryption));
    let mut tampered = sealed.clone();
    tampered[0] ^= 1;
    assert_eq!(open_token_with(m, "uuid-1", &tampered), Err(AuthError::Decryption));
    assert_eq!(AuthError::Decryption.message(), "Decryption error: aead::Error. Hardware changed?");
    assert_eq!(vault_file_in("/h/.minecraft", "abc"), "/h/.minecraft/auth_vault/abc");
}

#[test]
fn service_answers() {
    assert!(is_success_status(200));
    assert!(is_success_status(299));
    assert!(!is_success_status(300));
    assert!(!is_success_status(199));
    assert_eq!(accept_answer(AuthService::Xsts, 200, "200 OK".into(), "body".into()), Ok("body".to_string()));
    let e = accept_answer(AuthService::Xsts, 401, "401 Unauthorized".into(), "nope".into()).unwrap_err();
    assert_eq!(e.message(), "XSTS Auth Failed (401 Unauthorized): nope");
    assert_eq!(service_failure(AuthService::DeviceCode, "400", "bad"), "Microsoft Error: bad");
    assert_eq!(service_failure(AuthService::Refresh, "400 Bad Request", "x"), "Refresh MS Token Failed (400 Bad Request): x");
}

#[test]
fn sign_in_pieces() {
    assert_eq!(rps_ticket("tok"), "d=tok");
    assert_eq!(xbl_identity_token("uhs1", "xsts1"), "XBL3.0 x=uhs1;xsts1");
    let xbox = XboxLiveResponse {
        token: "t".into(),
        display_claims: DisplayClaims { xui: vec![Xui { uhs: "h1".into() }, Xui { uhs: "h2".into() }] },
    };
    assert_eq!(xbox_credentials(xbox), ("t".to_string(), "h1".to_string()));
    let items = |names: &[&str]| EntitlementsResponse {
        items: names.iter().map(|n| Entitlement { name: n.to_string() }).collect(),
    };
    assert!(owns_game(&items(&["product_minecraft", "game_minecraft"])));
    assert!(!owns_game(&items(&["product_minecraft"])));
    assert_eq!(minecraft_access_token(MinecraftLoginResponse { access_token: Some("a".into()) }), Ok("a".to_string()));
    assert_eq!(minecraft_access_token(MinecraftLoginResponse { access_token: None }), Err(AuthError::MissingAccessToken));
    assert_eq!(AuthError::MissingAccessToken.message(), "No access_token in response");
    match poll_step(TokenPollAnswer { access_token: Some("acc".into()), refresh_token: Some("ref".into()) }) {
        PollStep::Done(t) => {
            assert_eq!(t.access_token, "acc");
            assert_eq!(t.refresh_token, Some("ref".to_string()));
        }
        PollStep::Wait => panic!("expected a token"),
    }
    assert!(matches!(poll_step(TokenPollAnswer { access_token: None, refresh_token: Some("ref".into()) }), PollStep::Wait));
}

fn seal_raw(machine: &str, uuid: &str, plain: &[u8]) -> Vec<u8> {
    let (key, nonce) = derive_key_and_nonce_with(Some(machine.to_string()), uuid);
    let cipher = aes_gcm::Aes256Gcm::new_from_slice(&key).unwrap();
    cipher.encrypt(aes_gcm::Nonce::from_slice(&nonce), plain).unwrap()
}

#[test]
fn opened_bytes_that_are_not_utf8_are_reported_like_std() {
    let m = Some("machine-1".to_string());
    let bad = seal_raw("machine-1", "uuid-1", &[0x61, 0xff, 0x62]);
    let err = open_token_with(m.clone(), "uuid-1", &bad).unwrap_err();
    assert_eq!(err, AuthError::InvalidUtf8 { valid_up_to: 1, error_len: Some(1) });
    let std_text = String::from_utf8(vec![0x61, 0xff, 0x62]).unwrap_err().to_string();
    assert_eq!(err.message(), std_text);
    assert_eq!(err.message(), "invalid utf-8 sequence of 1 bytes from index 1");
    let cut = seal_raw("machine-1", "uuid-1", &[0x61, 0x62, 0xe2, 0x82]);
    let err = open_token_with(m, "uuid-1", &cut).unwrap_err();
    assert_eq!(err, AuthError::InvalidUtf8 { valid_up_to: 2, error_len: None });
    assert_eq!(err.message(), String::from_utf8(vec![0x61, 0x62, 0xe2, 0x82]).unwrap_err().to_string());
    assert_eq!(utf8_error_message(7, Some(2)), "invalid utf-8 sequence of 2 bytes from index 7");
    assert_eq!(utf8_error_message(0, None), "incomplete utf-8 byte sequence from index 0");
}
