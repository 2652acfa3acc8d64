//! The operating system's credential store, namespaced per server.
//!
//! Session secrets live only in the platform credential facility (through
//! the `keyring` crate). Each configured server address gets its own
//! service name, so tokens issued by one server are never replayed against
//! another; the address itself is not stored, only a digest prefix of it.
use vstd::prelude::*;
use crate::digest::{hex_seq, push_hex, sha256_digest, spec_sha256};
use crate::text::{trim_end_char_seq, trim_end_char_string, trim_seq, trim_string};

verus! {

/// Default service identifier under which credentials are stored.
pub const DEFAULT_SERVICE: &'static str = "app.skillhive.desktop";

/// The account (user) a stored secret belongs to.
pub const ACCOUNT_ACCESS_TOKEN: &'static str = "access-token";

pub const ACCOUNT_REFRESH_TOKEN: &'static str = "refresh-token";

/// What `str::to_lowercase` returns (Unicode lower-casing).
pub uninterp spec fn spec_to_lowercase(s: Seq<char>) -> Seq<char>;

/// Calls `str::to_lowercase`; the contract names its result
/// `spec_to_lowercase` of the input's characters and claims nothing else.
#[verifier::external_body]
fn to_lowercase(s: &str) -> (r: String)
    ensures
        r@ == spec_to_lowercase(s@),
{
    s.to_lowercase()
}

/// The server address as it is hashed: trimmed, without trailing `/`,
/// lower-cased.
pub open spec fn normalized_address(base_url: Seq<char>) -> Seq<char> {
    spec_to_lowercase(trim_end_char_seq(trim_seq(base_url), '/'))
}

/// `<default service>:<hex of the first 8 digest bytes of the address>`.
pub open spec fn spec_service_for_server(base_url: Seq<char>) -> Seq<char> {
    DEFAULT_SERVICE@ + ":"@ + hex_seq(
        spec_sha256(vstd::utf8::encode_utf8(normalized_address(base_url))).take(8),
    )
}

/// The credential service name scoped to one server address.
pub fn service_for_server(base_url: &str) -> (s: String)
    ensures
        s@ == spec_service_for_server(base_url@),
{
    let trimmed = trim_string(base_url);
    let stripped = trim_end_char_string(trimmed.as_str(), '/');
    let lowered = to_lowercase(stripped.as_str());
    let digest = sha256_digest(lowered.as_str().as_bytes());
    let mut prefix: Vec<u8> = Vec::new();
    let mut i: usize = 0;
    while i < 8
        invariant
            i <= 8,
            digest@.len() == 32,
            prefix@ == digest@.take(i as int),
        decreases 8 - i,
    {
        prefix.push(digest[i]);
        i = i + 1;
        assert(prefix@ =~= digest@.take(i as int));
    }
    let mut out = String::from_str(DEFAULT_SERVICE);
    out.append(":");
    push_hex(&mut out, prefix.as_slice());
    out
}

#[derive(Debug)]
pub enum CredentialStoreError {
    NotFound { account: String },
    Backend(String),
    InvalidUtf8,
}

/// The failures of the `keyring` crate, one for one.
#[derive(Debug)]
pub enum KeyringFault {
    NoEntry,
    Ambiguous,
    PlatformFailure,
    NoStorageAccess,
    Invalid { message: String },
    Other { display: String },
}

/// The text each keyring failure is reported with.
pub open spec fn keyring_fault_text(f: KeyringFault) -> Seq<char> {
    match f {
        KeyringFault::NoEntry => "credential entry missing"@,
        KeyringFault::Ambiguous => "ambiguous credential entry"@,
        KeyringFault::PlatformFailure => "platform credential store failure"@,
        KeyringFault::NoStorageAccess => "credential store access denied"@,
        KeyringFault::Invalid { message } => "invalid credential input: "@ + message@,
        KeyringFault::Other { display } => "credential store error: "@ + display@,
    }
}

/// Human-readable text of a keyring failure.
pub fn error_string(error: &KeyringFault) -> (s: String)
    ensures
        s@ == keyring_fault_text(*error),
{
    match error {
        KeyringFault::NoEntry => String::from_str("credential entry missing"),
        KeyringFault::Ambiguous => String::from_str("ambiguous credential entry"),
        KeyringFault::PlatformFailure => String::from_str("platform credential store failure"),
        KeyringFault::NoStorageAccess => String::from_str("credential store access denied"),
        KeyringFault::Invalid { message } => {
            let mut s = String::from_str("invalid credential input: ");
            s.append(message.as_str());
            s
        },
        KeyringFault::Other { display } => {
            let mut s = String::from_str("credential store error: ");
            s.append(display.as_str());
            s
        },
    }
}

/// The credential error a keyring failure for `account` becomes: a
/// missing entry is `NotFound` for the account, any other failure a backend
/// failure with its text.
pub open spec fn credential_error_of(account: Seq<char>, f: KeyringFault, e: CredentialStoreError) -> bool {
    if f is NoEntry {
        e matches CredentialStoreError::NotFound { account: a } && a@ == account
    } else {
        e matches CredentialStoreError::Backend(m) && m@ == keyring_fault_text(f)
    }
}

/// The text an entry that could not be opened is reported with.
pub open spec fn unavailable_text(message: Seq<char>) -> Seq<char> {
    "credential entry unavailable: "@ + message
}

impl CredentialStoreError {
    /// A missing entry is `NotFound` for the account; any other failure is
    /// a backend failure carrying its text.
    pub fn from_keyring(account: &str, error: &KeyringFault) -> (e: CredentialStoreError)
        ensures
            credential_error_of(account@, *error, e),
    {
        match error {
            KeyringFault::NoEntry => CredentialStoreError::NotFound { account: account.to_owned() },
            _ => CredentialStoreError::Backend(error_string(error)),
        }
    }
}

#[verifier::external_type_specification]
#[verifier::external_body]
pub struct ExKeyringError(keyring::Error);

/// Converts a `keyring::Error`, one variant to one variant; the variants
/// this library does not tell apart keep their display text.
#[verifier::external_body]
fn keyring_fault(error: keyring::Error) -> (f: KeyringFault) {
    match error {
        keyring::Error::NoEntry => KeyringFault::NoEntry,
        keyring::Error::Ambiguous(_) => KeyringFault::Ambiguous,
        keyring::Error::PlatformFailure(_) => KeyringFault::PlatformFailure,
        keyring::Error::NoStorageAccess(_) => KeyringFault::NoStorageAccess,
        keyring::Error::Invalid(_, message) => KeyringFault::Invalid { message },
        other => KeyringFault::Other { display: format!("{other}") },
    }
}

/// `answer` is what the operating system's store answered to storing
/// `secret` under `service` and `account`. The store decides the answer;
/// this names only the request it answers.
pub uninterp spec fn keyring_set_answer(
    service: Seq<char>,
    account: Seq<char>,
    secret: Seq<char>,
    answer: Result<Result<(), KeyringFault>, String>,
) -> bool;

/// `answer` is what the store answered to reading the secret under
/// `service` and `account`.
pub uninterp spec fn keyring_get_answer(
    service: Seq<char>,
    account: Seq<char>,
    answer: Result<Result<String, KeyringFault>, String>,
) -> bool;

/// `answer` is what the store answered to removing the secret under
/// `service` and `account`.
pub uninterp spec fn keyring_delete_answer(
    service: Seq<char>,
    account: Seq<char>,
    answer: Result<Result<(), KeyringFault>, String>,
) -> bool;

/// Calls `keyring::Entry::new(service, account)` and then
/// `Entry::set_password(secret)`. What the operating system's store does
/// is outside this library: the contract claims only that the result is
/// the store's answer to this service, account and secret
/// (`keyring_set_answer`), not which answer it is. A failure to open the
/// entry is reported with the text it gave.
#[verifier::external_body]
fn keyring_set(service: &str, account: &str, secret: &str) -> (r: Result<Result<(), KeyringFault>, String>)
    ensures
        keyring_set_answer(service@, account@, secret@, r),
{
    match keyring::Entry::new(service, account) {
        Ok(entry) => Ok(entry.set_password(secret).map_err(keyring_fault)),
        Err(error) => Err(format!("{error}")),
    }
}

/// Calls `keyring::Entry::new(service, account)` and then
/// `Entry::get_password()`. The contract claims only that the result is
/// the store's answer for this service and account
/// (`keyring_get_answer`): which secret, if any, is whatever the operating
/// system's store holds.
#[verifier::external_body]
fn keyring_get(service: &str, account: &str) -> (r: Result<Result<String, KeyringFault>, String>)
    ensures
        keyring_get_answer(service@, account@, r),
{
    match keyring::Entry::new(service, account) {
        Ok(entry) => Ok(entry.get_password().map_err(keyring_fault)),
        Err(error) => Err(format!("{error}")),
    }
}

/// Calls `keyring::Entry::new(service, account)` and then
/// `Entry::delete_credential()`. The contract claims only that the result
/// is the store's answer for this service and account
/// (`keyring_delete_answer`), not which answer it is.
#[verifier::external_body]
fn keyring_delete(service: &str, account: &str) -> (r: Result<Result<(), KeyringFault>, String>)
    ensures
        keyring_delete_answer(service@, account@, r),
{
    match keyring::Entry::new(service, account) {
        Ok(entry) => Ok(entry.delete_credential().map_err(keyring_fault)),
        Err(error) => Err(format!("{error}")),
    }
}

/// Facade over the operating system's credential facility, namespaced by
/// service.
pub struct CredentialStore {
    pub service: String,
}

impl Default for CredentialStore {
    fn default() -> (s: CredentialStore)
        ensures
            s.service@ == DEFAULT_SERVICE@,
    {
        CredentialStore::new(DEFAULT_SERVICE)
    }
}

fn entry_unavailable(message: String) -> (e: CredentialStoreError)
    ensures
        e matches CredentialStoreError::Backend(m) && m@ == unavailable_text(message@),
{
    let mut m = String::from_str("credential entry unavailable: ");
    m.append(message.as_str());
    CredentialStoreError::Backend(m)
}

/// `r` is what a write reports when the keyring answered `outcome`.
pub open spec fn write_result(
    account: Seq<char>,
    outcome: Result<Result<(), KeyringFault>, String>,
    r: Result<(), CredentialStoreError>,
) -> bool {
    match outcome {
        Err(m) => r matches Err(CredentialStoreError::Backend(t)) && t@ == unavailable_text(m@),
        Ok(Ok(())) => r is Ok,
        Ok(Err(f)) => r matches Err(e) && credential_error_of(account, f, e),
    }
}

/// `r` is what a read reports when the keyring answered `outcome`.
pub open spec fn read_result(
    account: Seq<char>,
    outcome: Result<Result<String, KeyringFault>, String>,
    r: Result<String, CredentialStoreError>,
) -> bool {
    match outcome {
        Err(m) => r matches Err(CredentialStoreError::Backend(t)) && t@ == unavailable_text(m@),
        Ok(Ok(secret)) => r matches Ok(s) && s == secret,
        Ok(Err(f)) => r matches Err(e) && credential_error_of(account, f, e),
    }
}

/// `r` is what a removal reports when the keyring answered `outcome`.
pub open spec fn delete_result(
    account: Seq<char>,
    outcome: Result<Result<(), KeyringFault>, String>,
    r: Result<(), CredentialStoreError>,
) -> bool {
    match outcome {
        Err(m) => r matches Err(CredentialStoreError::Backend(t)) && t@ == unavailable_text(m@),
        Ok(Ok(())) => r is Ok,
        Ok(Err(f)) => if f is NoEntry {
            r is Ok
        } else {
            r matches Err(e) && credential_error_of(account, f, e)
        },
    }
}

/// What a write reports, given what the keyring answered: `Err(m)` when the
/// entry could not be opened, else the outcome of storing the secret.
pub fn write_outcome(account: &str, outcome: Result<Result<(), KeyringFault>, String>) -> (r: Result<
    (),
    CredentialStoreError,
>)
    ensures
        write_result(account@, outcome, r),
{
    match outcome {
        Err(message) => Err(entry_unavailable(message)),
        Ok(Ok(())) => Ok(()),
        Ok(Err(fault)) => Err(CredentialStoreError::from_keyring(account, &fault)),
    }
}

/// What a read reports, given what the keyring answered: the secret, or
/// the failure (a missing entry is `NotFound`).
pub fn read_outcome(account: &str, outcome: Result<Result<String, KeyringFault>, String>) -> (r: Result<
    String,
    CredentialStoreError,
>)
    ensures
        read_result(account@, outcome, r),
{
    match outcome {
        Err(message) => Err(entry_unavailable(message)),
        Ok(Ok(secret)) => Ok(secret),
        Ok(Err(fault)) => Err(CredentialStoreError::from_keyring(account, &fault)),
    }
}

/// What a removal reports, given what the keyring answered: removing an
/// entry that is already missing succeeds.
pub fn delete_outcome(account: &str, outcome: Result<Result<(), KeyringFault>, String>) -> (r: Result<
    (),
    CredentialStoreError,
>)
    ensures
        delete_result(account@, outcome, r),
{
    match outcome {
        Err(message) => Err(entry_unavailable(message)),
        Ok(Ok(())) => Ok(()),
        Ok(Err(KeyringFault::NoEntry)) => Ok(()),
        Ok(Err(fault)) => Err(CredentialStoreError::from_keyring(account, &fault)),
    }
}

impl CredentialStore {
    pub fn new(service: &str) -> (s: CredentialStore)
        ensures
            s.service@ == service@,
    {
        CredentialStore { service: service.to_owned() }
    }

    /// Persists or overwrites a secret under `account` in this service.
    /// Whatever the store reports is mapped: a missing entry is `NotFound`,
    /// any other failure `Backend`. Which answer the store gives is the
    /// operating system's; the result is that answer, mapped.
    pub fn set_secret(&self, account: &str, secret: &str) -> (r: Result<(), CredentialStoreError>)
        ensures
            r matches Err(CredentialStoreError::NotFound { account: a }) ==> a@ == account@,
            !(r matches Err(CredentialStoreError::InvalidUtf8)),
            exists|answer: Result<Result<(), KeyringFault>, String>|
                #[trigger] keyring_set_answer(self.service@, account@, secret@, answer) && write_result(
                    account@,
                    answer,
                    r,
                ),
    {
        let answer = keyring_set(self.service.as_str(), account, secret);
        let r = write_outcome(account, answer);
        assert(keyring_set_answer(self.service@, account@, secret@, answer) && write_result(account@, answer, r));
        r
    }

    /// Reads the secret under `account`; `NotFound` when there is none.
    /// Which answer the store gives is the operating system's; the result
    /// is that answer, mapped.
    pub fn get_secret(&self, account: &str) -> (r: Result<String, CredentialStoreError>)
        ensures
            r matches Err(CredentialStoreError::NotFound { account: a }) ==> a@ == account@,
            !(r matches Err(CredentialStoreError::InvalidUtf8)),
            exists|answer: Result<Result<String, KeyringFault>, String>|
                #[trigger] keyring_get_answer(self.service@, account@, answer) && read_result(
                    account@,
                    answer,
                    r,
                ),
    {
        let answer = keyring_get(self.service.as_str(), account);
        let r = read_outcome(account, answer);
        assert(keyring_get_answer(self.service@, account@, answer) && read_result(account@, answer, r));
        r
    }

    /// Removes the secret under `account`; removing an absent one succeeds,
    /// so logging out twice is harmless.
    /// Which answer the store gives is the operating system's; the
    /// result is that answer, mapped.
    pub fn delete_secret(&self, account: &str) -> (r: Result<(), CredentialStoreError>)
        ensures
            !(r matches Err(CredentialStoreError::NotFound { .. })),
            !(r matches Err(CredentialStoreError::InvalidUtf8)),
            exists|answer: Result<Result<(), KeyringFault>, String>|
                #[trigger] keyring_delete_answer(self.service@, account@, answer) && delete_result(
                    account@,
                    answer,
                    r,
                ),
    {
        let answer = keyring_delete(self.service.as_str(), account);
        let r = delete_outcome(account, answer);
        assert(keyring_delete_answer(self.service@, account@, answer) && delete_result(account@, answer, r));
        r
    }
}

} // verus!
