//! Microsoft account sign-in: the encrypted refresh-token vault and the pieces
//! of the sign-in exchange that do not touch the network.
use vstd::prelude::*;
use vstd::string::*;
use vstd::utf8::{encode_utf8, decode_utf8, valid_utf8, encode_utf8_decode_utf8, decode_utf8_encode_utf8};
use crate::text::{text_opt, text_from, text_eq, concat2, concat3, push_text, decimal, decimal_text};
use crate::paths::{path_join, join_path};

verus! {

/// The largest plaintext, in bytes, that AES-256-GCM seals (2^36 bytes).
pub open spec fn gcm_max_plaintext() -> nat {
    0x10_0000_0000
}

/// The SHA-256 digest of `data`, as the `sha2` crate computes it.
pub uninterp spec fn sha256_of(data: Seq<u8>) -> Seq<u8>;

/// The ciphertext (with its 16-byte tag appended) that AES-256-GCM produces for
/// `plaintext` under `key` and `nonce`, with no associated data, as the
/// `aes-gcm` crate computes it.
pub uninterp spec fn aes256gcm_seal(key: Seq<u8>, nonce: Seq<u8>, plaintext: Seq<u8>) -> Seq<u8>;

/// Calls `sha2::Sha256::digest`: the 32-byte SHA-256 digest of `data`.
#[verifier::external_body]
fn sha256_digest(data: &[u8]) -> (r: Vec<u8>)
    ensures
        r@ == sha256_of(data@),
        r@.len() == 32,
{
    <sha2::Sha256 as sha2::Digest>::digest(data).to_vec()
}

/// Calls `machine_uid::get`: the identifier of this machine, or `None` when the
/// system does not provide one. It comes from the system, so nothing is
/// promised of it.
#[verifier::external_body]
fn machine_id() -> (r: Option<String>) {
    machine_uid::get().ok()
}

/// Calls `aes_gcm::Aes256Gcm::encrypt` (with `new_from_slice` for the key and
/// `Nonce::from_slice` for the nonce). It fails exactly when the plaintext is
/// longer than 2^36 bytes; otherwise the ciphertext is the plaintext's length
/// plus a 16-byte tag.
#[verifier::external_body]
fn aes256gcm_encrypt(key: &[u8], nonce: &[u8], plaintext: &[u8]) -> (r: Option<Vec<u8>>)
    requires
        key@.len() == 32,
        nonce@.len() == 12,
    ensures
        r is Some <==> plaintext@.len() <= gcm_max_plaintext(),
        r matches Some(c) ==> c@ == aes256gcm_seal(key@, nonce@, plaintext@) && c@.len()
            == plaintext@.len() + 16,
{
    let cipher = <aes_gcm::Aes256Gcm as aes_gcm::KeyInit>::new_from_slice(key).ok()?;
    aes_gcm::aead::Aead::encrypt(&cipher, aes_gcm::Nonce::from_slice(nonce), plaintext).ok()
}

/// Calls `aes_gcm::Aes256Gcm::decrypt`. It returns a plaintext exactly when the
/// ciphertext is what `encrypt` gives for that plaintext (the tag check): every
/// sealable plaintext whose sealing is `ciphertext` comes back, and whatever
/// comes back (of sealable length) seals to `ciphertext`.
#[verifier::external_body]
fn aes256gcm_decrypt(key: &[u8], nonce: &[u8], ciphertext: &[u8]) -> (r: Option<Vec<u8>>)
    requires
        key@.len() == 32,
        nonce@.len() == 12,
    ensures
        forall|p: Seq<u8>|
            p.len() <= gcm_max_plaintext() && ciphertext@ == #[trigger] aes256gcm_seal(key@, nonce@, p)
                ==> r is Some && r->0@ == p,
        r matches Some(q) ==> (q@.len() <= gcm_max_plaintext() ==> aes256gcm_seal(key@, nonce@, q@)
            == ciphertext@),
{
    let cipher = <aes_gcm::Aes256Gcm as aes_gcm::KeyInit>::new_from_slice(key).ok()?;
    aes_gcm::aead::Aead::decrypt(&cipher, aes_gcm::Nonce::from_slice(nonce), ciphertext).ok()
}

/// The `error_len` of the error `String::from_utf8` gives for `bytes`: the
/// length of the invalid sequence found after the longest valid prefix, or
/// `None` when the input ended inside a sequence.
pub uninterp spec fn utf8_error_len(bytes: Seq<u8>) -> Option<usize>;

/// Calls `String::from_utf8`: the text the bytes encode, or, when they are not
/// valid UTF-8, the error's `valid_up_to` and `error_len`. As std documents
/// it, `valid_up_to` is the largest index such that the bytes before it are
/// valid UTF-8.
#[verifier::external_body]
fn utf8_text(bytes: Vec<u8>) -> (r: Result<String, (usize, Option<usize>)>)
    ensures
        r is Ok <==> valid_utf8(bytes@),
        r matches Ok(s) ==> s@ == decode_utf8(bytes@),
        r matches Err(e) ==> e.0 <= bytes@.len() && valid_utf8(bytes@.subrange(0, e.0 as int))
            && (forall|j: int| e.0 < j <= bytes@.len() ==> !valid_utf8(#[trigger] bytes@.subrange(0, j)))
            && e.1 == utf8_error_len(bytes@),
{
    match String::from_utf8(bytes) {
        Ok(s) => Ok(s),
        Err(e) => Err((e.utf8_error().valid_up_to(), e.utf8_error().error_len())),
    }
}

/// The salt a vault key is made from: the machine identifier, or a fixed
/// fallback when the machine names none.
pub open spec fn vault_salt(machine: Option<Seq<char>>) -> Seq<char> {
    match machine {
        Some(m) => m,
        None => "nexus_salt"@,
    }
}

/// The 32-byte vault key made from a salt.
pub open spec fn vault_key(salt: Seq<char>) -> Seq<u8> {
    sha256_of(encode_utf8(salt))
}

/// The 12-byte nonce for an account: the first 12 bytes of the SHA-256 digest
/// of its id.
pub open spec fn vault_nonce(uuid: Seq<char>) -> Seq<u8> {
    sha256_of(encode_utf8(uuid)).subrange(0, 12)
}

/// The sealed form of a refresh token in the vault.
pub open spec fn sealed_token(salt: Seq<char>, uuid: Seq<char>, token: Seq<char>) -> Seq<u8> {
    aes256gcm_seal(vault_key(salt), vault_nonce(uuid), encode_utf8(token))
}

/// Whether a token is short enough to be sealed.
pub open spec fn sealable(token: Seq<char>) -> bool {
    encode_utf8(token).len() <= gcm_max_plaintext()
}

/// Why a sign-in step failed.
#[derive(Debug, Clone, PartialEq, Eq)]
pub enum AuthError {
    /// No sealed token is stored for the account.
    CredentialsNotFound,
    /// The token could not be sealed.
    Encryption,
    /// The stored token could not be opened (the machine may have changed).
    Decryption,
    /// The opened token is not valid UTF-8: the bytes before `valid_up_to`
    /// are, and then comes an invalid sequence of `error_len` bytes, or the
    /// end inside a sequence when `error_len` is `None`.
    InvalidUtf8 { valid_up_to: usize, error_len: Option<usize> },
    /// A service answered with a status other than success.
    Service { service: AuthService, status: String, body: String },
    /// The Minecraft login answer holds no access token.
    MissingAccessToken,
}

/// The services of the sign-in exchange.
#[derive(Debug, Clone, Copy, PartialEq, Eq)]
pub enum AuthService {
    /// The Microsoft device-code endpoint.
    DeviceCode,
    /// The Xbox Live user authentication.
    XboxLive,
    /// The Xbox secure token service.
    Xsts,
    /// The Minecraft login with an Xbox identity.
    MinecraftLogin,
    /// The Minecraft entitlements check.
    Entitlements,
    /// The Minecraft profile lookup.
    Profile,
    /// The Microsoft token refresh.
    Refresh,
}

impl AuthError {
    /// The text that reports this error.
    pub fn message(&self) -> (r: String)
        ensures
            self is CredentialsNotFound ==> r@ == "Credentials not found"@,
            self is Encryption ==> r@ == "Encryption error: aead::Error"@,
            self is Decryption ==> r@ == "Decryption error: aead::Error. Hardware changed?"@,
            self matches AuthError::InvalidUtf8 { valid_up_to, error_len } ==> r@ == utf8_error_text(
                *valid_up_to,
                *error_len,
            ),
            self is MissingAccessToken ==> r@ == "No access_token in response"@,
            self matches AuthError::Service { service, status, body } ==> r@ == service_failure_text(
                *service,
                status@,
                body@,
            ),
    {
        match self {
            AuthError::CredentialsNotFound => text_from("Credentials not found"),
            AuthError::Encryption => text_from("Encryption error: aead::Error"),
            AuthError::Decryption => text_from("Decryption error: aead::Error. Hardware changed?"),
            AuthError::InvalidUtf8 { valid_up_to, error_len } => utf8_error_message(*valid_up_to, *error_len),
            AuthError::MissingAccessToken => text_from("No access_token in response"),
            AuthError::Service { service, status, body } => service_failure(*service, status.as_str(), body.as_str()),
        }
    }
}

/// The report of text that is not valid UTF-8, worded as std words it.
pub open spec fn utf8_error_text(valid_up_to: usize, error_len: Option<usize>) -> Seq<char> {
    match error_len {
        Some(n) => "invalid utf-8 sequence of "@ + decimal(n as nat) + " bytes from index "@ + decimal(
            valid_up_to as nat,
        ),
        None => "incomplete utf-8 byte sequence from index "@ + decimal(valid_up_to as nat),
    }
}

/// The report of text that is not valid UTF-8.
pub fn utf8_error_message(valid_up_to: usize, error_len: Option<usize>) -> (r: String)
    ensures
        r@ == utf8_error_text(valid_up_to, error_len),
{
    let at = decimal_text(valid_up_to as u64);
    match error_len {
        Some(n) => {
            let len = decimal_text(n as u64);
            let head = concat3("invalid utf-8 sequence of ", len.as_str(), " bytes from index ");
            concat2(head.as_str(), at.as_str())
        },
        None => concat2("incomplete utf-8 byte sequence from index ", at.as_str()),
    }
}

/// The report of a failed service answer.
pub open spec fn service_failure_text(service: AuthService, status: Seq<char>, body: Seq<char>) -> Seq<char> {
    match service {
        AuthService::DeviceCode => "Microsoft Error: "@ + body,
        AuthService::XboxLive => "Xbox Live Auth Failed ("@ + status + "): "@ + body,
        AuthService::Xsts => "XSTS Auth Failed ("@ + status + "): "@ + body,
        AuthService::MinecraftLogin => "Minecraft Login Failed ("@ + status + "): "@ + body,
        AuthService::Entitlements => "Failed to check entitlements ("@ + status + "): "@ + body,
        AuthService::Profile => "Failed to get profile ("@ + status + "): "@ + body,
        AuthService::Refresh => "Refresh MS Token Failed ("@ + status + "): "@ + body,
    }
}

/// The report of a failed service answer.
pub fn service_failure(service: AuthService, status: &str, body: &str) -> (r: String)
    ensures
        r@ == service_failure_text(service, status@, body@),
{
    let lead = match service {
        AuthService::DeviceCode => {
            return concat2("Microsoft Error: ", body);
        },
        AuthService::XboxLive => "Xbox Live Auth Failed (",
        AuthService::Xsts => "XSTS Auth Failed (",
        AuthService::MinecraftLogin => "Minecraft Login Failed (",
        AuthService::Entitlements => "Failed to check entitlements (",
        AuthService::Profile => "Failed to get profile (",
        AuthService::Refresh => "Refresh MS Token Failed (",
    };
    let mut r = concat3(lead, status, "): ");
    push_text(&mut r, body);
    r
}

/// Whether an HTTP status code reports success (200 to 299), as
/// `StatusCode::is_success` decides.
pub open spec fn is_success_code(code: u16) -> bool {
    200 <= code && code < 300
}

/// Whether an HTTP status code reports success (200 to 299).
pub fn is_success_status(code: u16) -> (r: bool)
    ensures
        r == is_success_code(code),
{
    200 <= code && code < 300
}

/// The body of a service answer when its status reports success, or the error
/// that reports the failure.
pub fn accept_answer(service: AuthService, code: u16, status: String, body: String) -> (r: Result<String, AuthError>)
    ensures
        is_success_code(code) ==> r == Ok::<String, AuthError>(body),
        !is_success_code(code) ==> r == Err::<String, AuthError>(AuthError::Service { service, status, body }),
{
    if is_success_status(code) {
        Ok(body)
    } else {
        Err(AuthError::Service { service, status, body })
    }
}

/// The vault key and nonce for an account, given the machine identifier (or
/// `None` when the machine names none).
pub fn derive_key_and_nonce_with(machine: Option<String>, uuid: &str) -> (r: (Vec<u8>, Vec<u8>))
    ensures
        r.0@ == vault_key(vault_salt(
            text_opt(machine),
        )),
        r.1@ == vault_nonce(uuid@),
        r.0@.len() == 32,
        r.1@.len() == 12,
{
    let salt = match machine {
        Some(m) => m,
        None => text_from("nexus_salt"),
    };
    let key = sha256_digest(salt.as_str().as_bytes());
    let full = sha256_digest(uuid.as_bytes());
    let mut nonce: Vec<u8> = Vec::new();
    let mut i: usize = 0;
    while i < 12
        invariant
            i <= 12,
            full@.len() == 32,
            nonce@ == full@.subrange(0, i as int),
        decreases 12 - i,
    {
        nonce.push(full[i]);
        i = i + 1;
        assert(nonce@ =~= full@.subrange(0, i as int));
    }
    (key, nonce)
}

/// The vault key and nonce for an account on this machine.
pub fn derive_key_and_nonce(uuid: &str) -> (r: (Vec<u8>, Vec<u8>))
    ensures
        exists|machine: Option<Seq<char>>| r.0@ == #[trigger] vault_key(vault_salt(machine)),
        r.1@ == vault_nonce(uuid@),
        r.0@.len() == 32,
        r.1@.len() == 12,
{
    let machine = machine_id();
    let ghost m = text_opt(machine);
    let r = derive_key_and_nonce_with(machine, uuid);
    assert(r.0@ == vault_key(vault_salt(m)));
    r
}

/// Seals a refresh token for an account, given the machine identifier.
pub fn seal_token_with(machine: Option<String>, uuid: &str, token: &str) -> (r: Result<Vec<u8>, AuthError>)
    ensures
        r matches Ok(c) ==> c@ == sealed_token(
            vault_salt(
                text_opt(machine),
            ),
            uuid@,
            token@,
        ),
        r is Err <==> !sealable(token@),
        r matches Err(e) ==> e == AuthError::Encryption,
{
    let (key, nonce) = derive_key_and_nonce_with(machine, uuid);
    match aes256gcm_encrypt(key.as_slice(), nonce.as_slice(), token.as_bytes()) {
        Some(c) => Ok(c),
        None => Err(AuthError::Encryption),
    }
}

/// Opens a sealed refresh token for an account, given the machine identifier.
/// What was sealed with the same machine identifier and account comes back
/// unchanged; what comes back is what was sealed.
pub fn open_token_with(machine: Option<String>, uuid: &str, ciphertext: &[u8]) -> (r: Result<String, AuthError>)
    ensures
        forall|t: Seq<char>|
            sealable(t) && ciphertext@ == #[trigger] sealed_token(
                vault_salt(
                    text_opt(machine),
                ),
                uuid@,
                t,
            ) ==> (r matches Ok(s) && s@ == t),
        r matches Ok(s) ==> (sealable(s@) ==> ciphertext@ == sealed_token(
            vault_salt(
                text_opt(machine),
            ),
            uuid@,
            s@,
        )),
        r matches Err(e) ==> (e is Decryption || e is InvalidUtf8),
{
    let ghost salt = vault_salt(
        text_opt(machine),
    );
    let (key, nonce) = derive_key_and_nonce_with(machine, uuid);
    let plain = aes256gcm_decrypt(key.as_slice(), nonce.as_slice(), ciphertext);
    assert forall|t: Seq<char>|
        sealable(t) && ciphertext@ == #[trigger] sealed_token(salt, uuid@, t) implies (plain matches Some(q)
            && q@ == encode_utf8(t)) by {
        assert(aes256gcm_seal(key@, nonce@, encode_utf8(t)) == sealed_token(salt, uuid@, t));
    }
    match plain {
        Some(bytes) => {
            let ghost b = bytes@;
            match utf8_text(bytes) {
                Ok(s) => {
                    proof {
                        decode_utf8_encode_utf8(b);
                        assert forall|t: Seq<char>|
                            sealable(t) && ciphertext@ == #[trigger] sealed_token(salt, uuid@, t) implies s@
                            == t by {
                            encode_utf8_decode_utf8(t);
                        }
                    }
                    Ok(s)
                },
                Err((valid_up_to, error_len)) => {
                    proof {
                        assert forall|t: Seq<char>|
                            sealable(t) && ciphertext@ == #[trigger] sealed_token(salt, uuid@, t) implies false by {
                            vstd::utf8::encode_utf8_valid_utf8(t);
                        }
                    }
                    Err(AuthError::InvalidUtf8 { valid_up_to, error_len })
                },
            }
        },
        None => Err(AuthError::Decryption),
    }
}

/// Seals a refresh token for an account on this machine.
pub fn seal_refresh_token(uuid: &str, token: &str) -> (r: Result<Vec<u8>, AuthError>)
    ensures
        r matches Ok(c) ==> exists|machine: Option<Seq<char>>|
            c@ == #[trigger] sealed_token(vault_salt(machine), uuid@, token@),
        r is Err <==> !sealable(token@),
{
    let machine = machine_id();
    let ghost m = text_opt(machine);
    let r = seal_token_with(machine, uuid, token);
    match &r {
        Ok(c) => {
            assert(c@ == sealed_token(vault_salt(m), uuid@, token@));
        },
        Err(_) => {},
    }
    r
}

/// Opens the sealed refresh token of an account on this machine.
pub fn open_refresh_token(uuid: &str, ciphertext: &[u8]) -> (r: Result<String, AuthError>)
    ensures
        r matches Ok(s) ==> (sealable(s@) ==> exists|machine: Option<Seq<char>>|
            ciphertext@ == #[trigger] sealed_token(vault_salt(machine), uuid@, s@)),
        r matches Err(e) ==> (e is Decryption || e is InvalidUtf8),
{
    let machine = machine_id();
    let ghost m = text_opt(machine);
    let r = open_token_with(machine, uuid, ciphertext);
    match &r {
        Ok(s) => {
            assert(sealable(s@) ==> ciphertext@ == sealed_token(vault_salt(m), uuid@, s@));
        },
        Err(_) => {},
    }
    r
}

/// The directory of sealed tokens under `mc`.
pub open spec fn vault_dir_of(mc: Seq<char>) -> Seq<char> {
    path_join(mc, "auth_vault"@)
}

/// The file holding the sealed token of an account under `mc`.
pub open spec fn vault_file_of(mc: Seq<char>, uuid: Seq<char>) -> Seq<char> {
    path_join(vault_dir_of(mc), uuid)
}

/// The directory of sealed tokens under `mc`.
pub fn vault_dir_in(mc: &str) -> (r: String)
    ensures
        r@ == vault_dir_of(mc@),
{
    join_path(mc, "auth_vault")
}

/// The file holding the sealed token of an account under `mc`.
pub fn vault_file_in(mc: &str, uuid: &str) -> (r: String)
    ensures
        r@ == vault_file_of(mc@, uuid@),
{
    let dir = vault_dir_in(mc);
    join_path(dir.as_str(), uuid)
}

/// A Microsoft account token, with the refresh token when one was issued.
#[derive(Debug, Clone)]
pub struct MicrosoftToken {
    /// The access token.
    pub access_token: String,
    /// The refresh token, when the service issued one.
    pub refresh_token: Option<String>,
}

/// What polling for the Microsoft token does next.
#[derive(Debug, Clone)]
pub enum PollStep {
    /// The token arrived.
    Done(MicrosoftToken),
    /// The user has not finished signing in: wait the interval and ask again.
    Wait,
}

/// The device code the Microsoft sign-in hands out.
#[derive(Debug, Clone)]
pub struct DeviceCodeResponse {
    /// The code the launcher polls with.
    pub device_code: String,
    /// The code the user types in.
    pub user_code: String,
    /// Where the user types it in.
    pub verification_uri: String,
    /// How many seconds to wait between polls.
    pub interval: u64,
}

/// An answer to a poll for the Microsoft token: it holds the tokens once the
/// user has signed in.
#[derive(Debug, Clone)]
pub struct TokenPollAnswer {
    /// The access token, once issued.
    pub access_token: Option<String>,
    /// The refresh token, when issued.
    pub refresh_token: Option<String>,
}

/// Decides what polling does with an answer: it is done exactly when the
/// answer holds an access token.
pub fn poll_step(answer: TokenPollAnswer) -> (r: PollStep)
    ensures
        answer.access_token is None ==> r is Wait,
        answer.access_token matches Some(a) ==> (r matches PollStep::Done(t) && t.access_token == a
            && t.refresh_token == answer.refresh_token),
{
    match answer.access_token {
        Some(a) => PollStep::Done(MicrosoftToken { access_token: a, refresh_token: answer.refresh_token }),
        None => PollStep::Wait,
    }
}

/// The ticket that presents a Microsoft access token to Xbox Live.
pub fn rps_ticket(ms_token: &str) -> (r: String)
    ensures
        r@ == "d="@ + ms_token@,
{
    concat2("d=", ms_token)
}

/// The identity token that presents an Xbox user hash and XSTS token to the
/// Minecraft login.
pub fn xbl_identity_token(uhs: &str, xsts_token: &str) -> (r: String)
    ensures
        r@ == "XBL3.0 x="@ + uhs@ + ";"@ + xsts_token@,
{
    let mut r = concat3("XBL3.0 x=", uhs, ";");
    push_text(&mut r, xsts_token);
    r
}

/// One user of an Xbox Live answer.
#[derive(Debug, Clone)]
pub struct Xui {
    /// The user hash.
    pub uhs: String,
}

/// The claims of an Xbox Live answer.
#[derive(Debug, Clone)]
pub struct DisplayClaims {
    /// The users the token was issued for.
    pub xui: Vec<Xui>,
}

/// The Xbox Live user authentication answer.
#[derive(Debug, Clone)]
pub struct XboxLiveResponse {
    /// The Xbox token.
    pub token: String,
    /// The users it was issued for.
    pub display_claims: DisplayClaims,
}

/// The Xbox secure token service answer.
#[derive(Debug, Clone)]
pub struct XstsResponse {
    /// The XSTS token, when the answer holds one.
    pub token: Option<String>,
}

/// The Minecraft login answer.
#[derive(Debug, Clone)]
pub struct MinecraftLoginResponse {
    /// The Minecraft access token, when the answer holds one.
    pub access_token: Option<String>,
}

/// One entitlement of a Minecraft account.
#[derive(Debug, Clone)]
pub struct Entitlement {
    /// The entitlement's name.
    pub name: String,
}

/// The entitlements of a Minecraft account.
#[derive(Debug, Clone)]
pub struct EntitlementsResponse {
    /// The entitlements.
    pub items: Vec<Entitlement>,
}

/// The Minecraft profile of an account.
#[derive(Debug, Clone)]
pub struct MinecraftProfile {
    /// The player's id.
    pub id: String,
    /// The player name.
    pub name: String,
}

/// The Xbox token and the user hash of the first listed user.
pub fn xbox_credentials(answer: XboxLiveResponse) -> (r: (String, String))
    requires
        answer.display_claims.xui@.len() > 0,
    ensures
        r.0 == answer.token,
        r.1@ == answer.display_claims.xui@[0].uhs@,
{
    let uhs = text_from(answer.display_claims.xui[0].uhs.as_str());
    (answer.token, uhs)
}

/// The Minecraft access token from the login answer, or the error when it
/// holds none.
pub fn minecraft_access_token(answer: MinecraftLoginResponse) -> (r: Result<String, AuthError>)
    ensures
        answer.access_token matches Some(a) ==> r == Ok::<String, AuthError>(a),
        answer.access_token is None ==> r == Err::<String, AuthError>(AuthError::MissingAccessToken),
{
    match answer.access_token {
        Some(a) => Ok(a),
        None => Err(AuthError::MissingAccessToken),
    }
}

/// Whether the account owns the game: some entitlement is named `game_minecraft`.
pub fn owns_game(answer: &EntitlementsResponse) -> (r: bool)
    ensures
        r == exists|i: int| 0 <= i < answer.items@.len() && #[trigger] answer.items@[i].name@ == "game_minecraft"@,
{
    let mut i: usize = 0;
    while i < answer.items.len()
        invariant
            i <= answer.items@.len(),
            forall|j: int| 0 <= j < i ==> #[trigger] answer.items@[j].name@ != "game_minecraft"@,
        decreases answer.items.len() - i,
    {
        if text_eq(answer.items[i].name.as_str(), "game_minecraft") {
            return true;
        }
        i = i + 1;
    }
    false
}

} // verus!
