//! The authenticated HTTP boundary: error classes, wire models and the
//! refresh-cookie rule.
//!
//! Session failures are kept apart from mutation outcomes: an
//! authentication or device failure is its own error class and never
//! changes pending outbox mutations.
use vstd::prelude::*;
use crate::credentials::CredentialStoreError;
use crate::text::{chars_of, is_blank, nat_text, str_eq, string_from_range, trim_seq, trim_string, u64_text};

verus! {

pub const REFRESH_COOKIE_NAME: &'static str = "skillhive_refresh";

pub const REQUEST_TIMEOUT_SECS: u64 = 30;

pub const CONNECT_TIMEOUT_SECS: u64 = 10;

#[derive(Debug, Clone, PartialEq, Eq)]
pub enum SyncClientError {
    NotSignedIn,
    CredentialStore(String),
    Authentication { code: String, status: u16 },
    Request { code: String, status: u16 },
    Server { code: Option<String>, status: u16 },
    Network(String),
    Malformed(String),
}

/// The text each failure is reported with.
pub open spec fn sync_client_error_text(e: SyncClientError) -> Seq<char> {
    match e {
        SyncClientError::NotSignedIn => "not signed in"@,
        SyncClientError::CredentialStore(m) => "credential store failure: "@ + m@,
        SyncClientError::Authentication { code, status } => "authentication failed: "@ + code@
            + " ("@ + nat_text(status as nat) + ")"@,
        SyncClientError::Request { code, status } => "server rejected request: "@ + code@ + " ("@
            + nat_text(status as nat) + ")"@,
        SyncClientError::Server { status, .. } => "server error ("@ + nat_text(status as nat)
            + ")"@,
        SyncClientError::Network(m) => "request failed: "@ + m@,
        SyncClientError::Malformed(m) => "malformed response: "@ + m@,
    }
}

impl SyncClientError {
    /// The HTTP status of a failure the server answered.
    pub fn status(&self) -> (r: Option<u16>)
        ensures
            r == match *self {
                SyncClientError::Authentication { status, .. } => Some(status),
                SyncClientError::Request { status, .. } => Some(status),
                SyncClientError::Server { status, .. } => Some(status),
                _ => None::<u16>,
            },
    {
        match self {
            SyncClientError::Authentication { status, .. } => Some(*status),
            SyncClientError::Request { status, .. } => Some(*status),
            SyncClientError::Server { status, .. } => Some(*status),
            _ => None,
        }
    }

    /// The server's error code, when it sent one.
    pub fn error_code(&self) -> (r: Option<&str>)
        ensures
            match *self {
                SyncClientError::Authentication { code, .. } => r matches Some(c) && c@ == code@,
                SyncClientError::Request { code, .. } => r matches Some(c) && c@ == code@,
                SyncClientError::Server { code: Some(code), .. } => r matches Some(c) && c@
                    == code@,
                _ => r is None,
            },
    {
        match self {
            SyncClientError::Authentication { code, .. } => Some(code.as_str()),
            SyncClientError::Request { code, .. } => Some(code.as_str()),
            SyncClientError::Server { code, .. } => match code {
                Some(c) => Some(c.as_str()),
                None => None,
            },
            _ => None,
        }
    }

    /// A credential-store failure: a missing credential means the user is
    /// not signed in; anything else is a credential-store failure with its
    /// text.
    pub fn from_credential(error: CredentialStoreError) -> (e: SyncClientError)
        ensures
            error is NotFound ==> e is NotSignedIn,
            !(error is NotFound) ==> e is CredentialStore,
    {
        match error {
            CredentialStoreError::NotFound { .. } => SyncClientError::NotSignedIn,
            CredentialStoreError::Backend(message) => {
                let mut m = String::from_str("OS credential store unavailable: ");
                m.append(message.as_str());
                SyncClientError::CredentialStore(m)
            },
            CredentialStoreError::InvalidUtf8 => SyncClientError::CredentialStore(
                String::from_str("credential value is not valid UTF-8"),
            ),
        }
    }

    /// The human-readable text of the failure (never a secret).
    pub fn message(&self) -> (s: String)
        ensures
            s@ == sync_client_error_text(*self),
    {
        match self {
            SyncClientError::NotSignedIn => String::from_str("not signed in"),
            SyncClientError::CredentialStore(m) => {
                let mut s = String::from_str("credential store failure: ");
                s.append(m.as_str());
                s
            },
            SyncClientError::Authentication { code, status } => {
                let mut s = String::from_str("authentication failed: ");
                s.append(code.as_str());
                s.append(" (");
                s.append(u64_text(*status as u64).as_str());
                s.append(")");
                s
            },
            SyncClientError::Request { code, status } => {
                let mut s = String::from_str("server rejected request: ");
                s.append(code.as_str());
                s.append(" (");
                s.append(u64_text(*status as u64).as_str());
                s.append(")");
                s
            },
            SyncClientError::Server { status, .. } => {
                let mut s = String::from_str("server error (");
                s.append(u64_text(*status as u64).as_str());
                s.append(")");
                s
            },
            SyncClientError::Network(m) => {
                let mut s = String::from_str("request failed: ");
                s.append(m.as_str());
                s
            },
            SyncClientError::Malformed(m) => {
                let mut s = String::from_str("malformed response: ");
                s.append(m.as_str());
                s
            },
        }
    }
}

/// Wire model of login and refresh responses.
#[derive(Debug, Clone)]
pub struct LoginResponse {
    pub access_token: String,
    pub expires_in: u64,
}

/// Wire model of a device registration request.
#[derive(Debug, Clone)]
pub struct DeviceRegistrationRequest {
    pub protocol_version: u32,
    pub client_instance_id: String,
    pub display_name: String,
    pub platform: String,
    pub app_version: String,
}

/// Wire model of a registered device.
#[derive(Debug, Clone)]
pub struct DeviceRegistration {
    pub device_id: String,
    pub client_instance_id: String,
    pub display_name: String,
    pub platform: String,
    pub app_version: String,
    pub last_seen_at: Option<String>,
    pub revoked_at: Option<String>,
}

/// Result of one login and device registration.
#[derive(Debug, Clone)]
pub struct SessionEstablished {
    pub device: DeviceRegistration,
    pub expires_in: u64,
}

impl DeviceRegistration {
    /// The server has revoked this device.
    pub fn is_revoked(&self) -> (b: bool)
        ensures
            b == self.revoked_at is Some,
    {
        self.revoked_at.is_some()
    }
}

/// The error class of an HTTP status: request rejections (400, 404, 409,
/// 413, 422), authentication failures (401, 403), and server-side or
/// unknown failures for everything else. A missing code is `UNKNOWN` for
/// the first two classes.
pub open spec fn status_class(status: u16, code: Option<String>, e: SyncClientError) -> bool {
    if status == 400 || status == 404 || status == 409 || status == 413 || status == 422 {
        e matches SyncClientError::Request { code: c, status: s } && s == status && c@ == (match code {
            Some(k) => k@,
            None => "UNKNOWN"@,
        })
    } else if status == 401 || status == 403 {
        e matches SyncClientError::Authentication { code: c, status: s } && s == status && c@ == (
        match code {
            Some(k) => k@,
            None => "UNKNOWN"@,
        })
    } else {
        e == SyncClientError::Server { code, status }
    }
}

pub fn classify_status(status: u16, code: Option<String>) -> (e: SyncClientError)
    ensures
        status_class(status, code, e),
{
    let ghost code0 = code;
    if status == 400 || status == 404 || status == 409 || status == 413 || status == 422 {
        SyncClientError::Request {
            code: match code {
                Some(c) => c,
                None => String::from_str("UNKNOWN"),
            },
            status,
        }
    } else if status == 401 || status == 403 {
        SyncClientError::Authentication {
            code: match code {
                Some(c) => c,
                None => String::from_str("UNKNOWN"),
            },
            status,
        }
    } else {
        SyncClientError::Server { code, status }
    }
}

/// A transport failure: when the error carries an HTTP status it is
/// classified by status, otherwise it is a network failure with its text.
pub fn map_transport(status: Option<u16>, message: String) -> (e: SyncClientError)
    ensures
        match status {
            Some(s) => status_class(s, None, e),
            None => e == SyncClientError::Network(message),
        },
{
    match status {
        Some(s) => classify_status(s, None),
        None => SyncClientError::Network(message),
    }
}

// ---------------------------------------------------------------------
// The refresh cookie.
/// Index of the first occurrence of `c` in `s`, if any.
pub open spec fn first_index(s: Seq<char>, c: char) -> Option<int> {
    if exists|i: int| 0 <= i < s.len() && s[i] == c {
        Some(choose|i: int| 0 <= i < s.len() && s[i] == c && forall|k: int| 0 <= k < i ==> s[k] != c)
    } else {
        None
    }
}

/// The `name=value` pair of a `Set-Cookie` header: the part before its
/// first `;`.
pub open spec fn cookie_pair(header: Seq<char>) -> Seq<char> {
    match first_index(header, ';') {
        Some(i) => header.take(i),
        None => header,
    }
}

/// The trimmed name and value of a cookie pair, split at its first `=`.
pub open spec fn cookie_name_value(header: Seq<char>) -> Option<(Seq<char>, Seq<char>)> {
    let pair = cookie_pair(header);
    match first_index(pair, '=') {
        Some(i) => Some((trim_seq(pair.take(i)), trim_seq(pair.skip(i + 1)))),
        None => None,
    }
}

/// The header sets the refresh cookie.
pub open spec fn names_refresh(header: Seq<char>) -> bool {
    cookie_name_value(header) matches Some((n, _)) && n == REFRESH_COOKIE_NAME@
}

/// The header sets a cookie to a non-empty value.
pub open spec fn cookie_value_non_empty(header: Seq<char>) -> bool {
    cookie_name_value(header) matches Some((_, v)) && v.len() > 0
}

/// The first header that sets the refresh cookie carries a non-empty
/// value.
pub open spec fn has_refresh_value(headers: Seq<String>) -> bool {
    exists|i: int|
        0 <= i < headers.len() && names_refresh(#[trigger] headers[i]@) && (forall|k: int|
            0 <= k < i ==> !names_refresh(headers[k]@)) && cookie_value_non_empty(headers[i]@)
}

fn first_index_exec(v: &[char], c: char) -> (r: Option<usize>)
    ensures
        match r {
            Some(i) => first_index(v@, c) == Some(i as int) && i < v@.len(),
            None => first_index(v@, c) is None,
        },
{
    let mut i: usize = 0;
    while i < v.len()
        invariant
            i <= v@.len(),
            forall|k: int| 0 <= k < i ==> v@[k] != c,
        decreases v@.len() - i,
    {
        if v[i] == c {
            proof {
                let w = choose|w: int|
                    0 <= w < v@.len() && v@[w] == c && forall|k: int| 0 <= k < w ==> v@[k] != c;
                if w < i {
                } else if w > i {
                    assert(v@[i as int] == c);
                }
            }
            return Some(i);
        }
        i = i + 1;
    }
    None
}

/// The name and value of one `Set-Cookie` header, when it has a `=`
/// before its first `;`.
pub fn parse_cookie_header(header: &str) -> (r: Option<(String, String)>)
    ensures
        match r {
            Some((n, v)) => cookie_name_value(header@) == Some((n@, v@)),
            None => cookie_name_value(header@) is None,
        },
{
    let chars = chars_of(header);
    let end = match first_index_exec(chars.as_slice(), ';') {
        Some(i) => i,
        None => chars.len(),
    };
    let pair = string_from_range(chars.as_slice(), 0, end);
    proof {
        assert(chars@.subrange(0, end as int) == cookie_pair(header@)) by {
            if first_index(header@, ';') is None {
                assert(chars@.subrange(0, end as int) =~= chars@);
            }
        }
    }
    let pv = chars_of(pair.as_str());
    match first_index_exec(pv.as_slice(), '=') {
        Some(i) => {
            let name = string_from_range(pv.as_slice(), 0, i);
            let value = string_from_range(pv.as_slice(), i + 1, pv.len());
            proof {
                assert(pv@.subrange(0, i as int) =~= pv@.take(i as int));
                assert(pv@.subrange(i as int + 1, pv@.len() as int) =~= pv@.skip(i as int + 1));
            }
            Some((trim_string(name.as_str()), trim_string(value.as_str())))
        },
        None => None,
    }
}

/// The refresh credential from a response's `Set-Cookie` headers: the
/// value of the first header that sets the refresh cookie, which must not
/// be empty; otherwise the response is refused as an authentication
/// failure (`MISSING_REFRESH_TOKEN`, 401).
pub fn extract_refresh_cookie(headers: &Vec<String>) -> (r: Result<String, SyncClientError>)
    ensures
        match r {
            Ok(v) => exists|i: int|
                0 <= i < headers@.len() && names_refresh(#[trigger] headers@[i]@) && (forall|k: int|
                    0 <= k < i ==> !names_refresh(headers@[k]@)) && cookie_name_value(
                    headers@[i]@,
                ) == Some((REFRESH_COOKIE_NAME@, v@)) && v@.len() > 0,
            Err(e) => e matches SyncClientError::Authentication { code, status } && code@
                == "MISSING_REFRESH_TOKEN"@ && status == 401,
        },
        r is Ok <==> has_refresh_value(headers@),
{
    let mut i: usize = 0;
    while i < headers.len()
        invariant
            i <= headers@.len(),
            forall|k: int| 0 <= k < i ==> !names_refresh(#[trigger] headers@[k]@),
        decreases headers@.len() - i,
    {
        match parse_cookie_header(headers[i].as_str()) {
            Some((name, value)) => {
                if str_eq(name.as_str(), REFRESH_COOKIE_NAME) {
                    if value.as_str().is_empty() {
                        proof {
                            assert(names_refresh(headers@[i as int]@));
                            if has_refresh_value(headers@) {
                                let j = choose|j: int|
                                    0 <= j < headers@.len() && names_refresh(#[trigger] headers@[j]@)
                                        && (forall|k: int| 0 <= k < j ==> !names_refresh(headers@[k]@))
                                        && cookie_value_non_empty(headers@[j]@);
                                if j > i {
                                    assert(!names_refresh(headers@[i as int]@));
                                }
                            }
                        }
                        return Err(
                            SyncClientError::Authentication {
                                code: String::from_str("MISSING_REFRESH_TOKEN"),
                                status: 401,
                            },
                        );
                    }
                    assert(names_refresh(headers@[i as int]@));
                    return Ok(value);
                }
            },
            None => {},
        }
        i = i + 1;
    }
    proof {
        if has_refresh_value(headers@) {
            let j = choose|j: int|
                0 <= j < headers@.len() && names_refresh(#[trigger] headers@[j]@) && (forall|k: int|
                    0 <= k < j ==> !names_refresh(headers@[k]@)) && cookie_value_non_empty(headers@[j]@);
            assert(!names_refresh(headers@[j]@));
        }
    }
    Err(
        SyncClientError::Authentication {
            code: String::from_str("MISSING_REFRESH_TOKEN"),
            status: 401,
        },
    )
}

/// The client's base address: the configured one without trailing `/`.
pub fn base_url_of(configured: &str) -> (s: String)
    ensures
        s@ == crate::text::trim_end_char_seq(configured@, '/'),
{
    crate::text::trim_end_char_string(configured, '/')
}

} // verus!
