//! The authenticator: parses a Basic-Authentication header and verifies the
//! supplied password against the stored Argon2id hash.
//!
//! When the username is unknown, a dummy verification against a fixed
//! precomputed hash is still performed, so that the time taken does not
//! reveal which usernames exist. That path is a correctness requirement,
//! not an optimisation.

use vstd::prelude::*;
use vstd::slice::slice_index_get;
use vstd::slice::slice_subrange;
use vstd::string::*;
use vstd::utf8::decode_utf8;
use vstd::utf8::valid_utf8;
use crate::store::cred_lookup;
use crate::store::store_wf;
use crate::store::Store;

verus! {

/// A parsed username/password pair.
pub struct Credentials {
    pub username: String,
    pub password: String,
}

/// Authentication failures. The first two surface as 401 with a
/// `WWW-Authenticate` challenge; `Unexpected` — a failure of the machinery
/// itself, such as the verification worker pool — surfaces as 500.
#[derive(Debug)]
pub enum AuthError {
    /// The Authorization header was missing or not a well-formed
    /// `Basic` credential; carries the reason.
    Malformed(String),
    /// Unknown username or wrong password; deliberately undistinguished.
    InvalidCredentials,
    /// The verification machinery failed; carries the reason.
    Unexpected(String),
}

impl AuthError {
    /// The HTTP status this failure is surfaced as.
    pub fn status_code(&self) -> (r: u16)
        ensures
            self is Unexpected ==> r == 500,
            !(self is Unexpected) ==> r == 401,
    {
        match self {
            AuthError::Malformed(_) => 401,
            AuthError::InvalidCredentials => 401,
            AuthError::Unexpected(_) => 500,
        }
    }
}

// ---------------------------------------------------------------------------
// Trusted views of the outside calls
// ---------------------------------------------------------------------------

/// What base64 decoding of the given bytes yields: `None` when they are
/// not valid standard-alphabet base64, the decoded bytes otherwise.
pub uninterp spec fn base64_decoded(encoded: Seq<u8>) -> Option<Seq<u8>>;

/// Relies on base64's `Engine::decode` with the standard engine: decoding
/// depends on the input bytes alone, succeeds exactly when they are valid
/// standard base64, and yields their decoding.
#[verifier::external_body]
fn base64_decode(encoded: &[u8]) -> (r: Option<Vec<u8>>)
    ensures
        r is Some <==> base64_decoded(encoded@) is Some,
        r matches Some(v) ==> base64_decoded(encoded@) == Some(v@),
{
    match base64::Engine::decode(&base64::engine::general_purpose::STANDARD, encoded) {
        Ok(v) => Some(v),
        Err(_) => None,
    }
}

/// Relies on std's `String::from_utf8`: it succeeds exactly on valid
/// UTF-8 and returns the string those bytes encode.
#[verifier::external_body]
pub(crate) fn utf8_to_string(bytes: Vec<u8>) -> (r: Option<String>)
    ensures
        r is Some <==> valid_utf8(bytes@),
        r matches Some(s) ==> s@ == decode_utf8(bytes@),
{
    match String::from_utf8(bytes) {
        Ok(s) => Some(s),
        Err(_) => None,
    }
}

/// Whether this password matches this PHC-encoded Argon2 hash; what the
/// verification primitive decides, a function of the two strings alone.
pub uninterp spec fn argon2_accepts(password: Seq<char>, phc_hash: Seq<char>) -> bool;

/// Relies on password-hash's `PasswordHash::new` to parse the PHC string
/// and argon2's `Argon2::verify_password` (with the default context, the
/// algorithm and cost parameters being taken from the hash itself): the
/// outcome depends on the password and the hash string alone; a hash that
/// does not parse accepts nothing.
#[verifier::external_body]
fn verify_password_hash(password: &str, phc_hash: &str) -> (r: bool)
    ensures
        r == argon2_accepts(password@, phc_hash@),
{
    match argon2::PasswordHash::new(phc_hash) {
        Ok(parsed) => argon2::PasswordVerifier::verify_password(
            &argon2::Argon2::default(),
            password.as_bytes(),
            &parsed,
        ).is_ok(),
        Err(_) => false,
    }
}

// ---------------------------------------------------------------------------
// Basic-Auth header parsing
// ---------------------------------------------------------------------------

/// The scheme prefix, `Basic ` as bytes; case-sensitive per the scheme.
pub open spec fn basic_prefix() -> Seq<u8> {
    seq![66u8, 97u8, 115u8, 105u8, 99u8, 32u8]
}

/// `i` is the first colon of `chars`.
pub open spec fn colon_split_at(chars: Seq<char>, i: int) -> bool {
    &&& 0 <= i < chars.len()
    &&& chars[i] == ':'
    &&& forall|j: int| 0 <= j < i ==> #[trigger] chars[j] != ':'
}

/// The username/password pair a Basic-Authorization header value carries,
/// when it is well-formed: the `Basic ` prefix, then base64 of a UTF-8
/// string split at its first colon. The password may itself contain `:`.
pub open spec fn basic_credentials_of(bytes: Seq<u8>) -> Option<(Seq<char>, Seq<char>)> {
    if bytes.len() < 6 || bytes.subrange(0, 6) != basic_prefix() {
        None
    } else {
        match base64_decoded(bytes.skip(6)) {
            Option::None => None,
            Option::Some(d) => {
                if !valid_utf8(d) {
                    None
                } else {
                    let chars = decode_utf8(d);
                    if exists|i: int| colon_split_at(chars, i) {
                        let i = choose|i: int| colon_split_at(chars, i);
                        Some((chars.subrange(0, i), chars.subrange(i + 1, chars.len() as int)))
                    } else {
                        None
                    }
                }
            },
        }
    }
}

/// The first colon is unique: no other index can witness `colon_split_at`.
proof fn lemma_colon_split_unique(chars: Seq<char>, a: int)
    requires
        colon_split_at(chars, a),
    ensures
        forall|w: int| w != a ==> !colon_split_at(chars, w),
{
    assert forall|w: int| w != a implies !colon_split_at(chars, w) by {
        if colon_split_at(chars, w) {
            if w < a {
                assert(chars[w] != ':');
            } else {
                assert(chars[a] != ':');
            }
        }
    }
}

/// Parses a Basic-Authentication header value. Succeeds exactly when the
/// header is present and carries well-formed `Basic` credentials; every
/// failure is `Malformed`.
pub fn basic_authentication(authorization: Option<&[u8]>) -> (r: Result<Credentials, AuthError>)
    ensures
        match authorization {
            Option::Some(h) => match basic_credentials_of(h@) {
                Option::Some(cr) => r matches Ok(c) && c.username@ == cr.0 && c.password@
                    == cr.1,
                Option::None => r matches Err(e) && e is Malformed,
            },
            Option::None => r matches Err(e) && e is Malformed,
        },
{
    let header = match authorization {
        Some(h) => h,
        None => {
            return Err(
                AuthError::Malformed(String::from_str("The 'Authorization' header was missing")),
            );
        },
    };
    if header.len() < 6 {
        return Err(
            AuthError::Malformed(String::from_str("The authorization scheme was not 'Basic'.")),
        );
    }
    let prefix = slice_subrange(header, 0, 6);
    let scheme_ok = *slice_index_get(prefix, 0) == 66 && *slice_index_get(prefix, 1) == 97
        && *slice_index_get(prefix, 2) == 115 && *slice_index_get(prefix, 3) == 105
        && *slice_index_get(prefix, 4) == 99 && *slice_index_get(prefix, 5) == 32;
    if !scheme_ok {
        proof {
            assert(header@.subrange(0, 6) != basic_prefix());
        }
        return Err(
            AuthError::Malformed(String::from_str("The authorization scheme was not 'Basic'.")),
        );
    }
    proof {
        assert(header@.subrange(0, 6) =~= basic_prefix());
    }
    let b64_segment = slice_subrange(header, 6, header.len());
    proof {
        assert(b64_segment@ =~= header@.skip(6));
    }
    let decoded_bytes = match base64_decode(b64_segment) {
        Some(v) => v,
        None => {
            return Err(
                AuthError::Malformed(
                    String::from_str("Failed to base64-decode 'Basic' credentials."),
                ),
            );
        },
    };
    let ghost dbytes = decoded_bytes@;
    let decoded = match utf8_to_string(decoded_bytes) {
        Some(s) => s,
        None => {
            return Err(
                AuthError::Malformed(
                    String::from_str("The decoded credential string is not valid UTF8."),
                ),
            );
        },
    };
    // Split at the first colon; only the first one splits, so the password
    // portion may itself contain colons.
    let len = decoded.as_str().unicode_len();
    let mut colon: Option<usize> = None;
    let mut i: usize = 0;
    while i < len
        invariant
            len == decoded@.len(),
            i <= len,
            match colon {
                Some(c) => colon_split_at(decoded@, c as int),
                None => forall|j: int| 0 <= j < i ==> #[trigger] decoded@[j] != ':',
            },
        decreases len - i,
    {
        if colon.is_none() && decoded.as_str().get_char(i) == ':' {
            colon = Some(i);
        }
        i += 1;
    }
    let c = match colon {
        Some(c) => c,
        None => {
            return Err(
                AuthError::Malformed(
                    String::from_str("A password must be provided in 'Basic' auth."),
                ),
            );
        },
    };
    proof {
        lemma_colon_split_unique(decoded@, c as int);
        assert(base64_decoded(header@.skip(6)) == Some(dbytes));
        assert(header@.subrange(0, 6) == basic_prefix());
        assert(colon_split_at(decode_utf8(dbytes), c as int));
        assert(exists|i: int|
            colon_split_at(decode_utf8(base64_decoded(header@.skip(6))->Some_0), i));
        assert(basic_credentials_of(header@) is Some);
    }
    let username = decoded.as_str().substring_char(0, c);
    let password = decoded.as_str().substring_char(c + 1, len);
    Ok(
        Credentials {
            username: String::from_str(username),
            password: String::from_str(password),
        },
    )
}

// ---------------------------------------------------------------------------
// Credential verification
// ---------------------------------------------------------------------------

/// The fixed hash verified against when the username is unknown, so that
/// lookup failure costs the same as a wrong password.
pub const FALLBACK_PASSWORD_HASH: &'static str =
    "$argon2id$v=19$m=15000,t=2,p=1$gZiV/M1gPc22ElAH/Jh1Hw$CWOrkoo7oJBQ/iyh7uJ0LO2aLEfrHwTWllSAxT0zRno";

/// Verifies the supplied credentials against the store. Succeeds exactly
/// when the username is stored and the password matches its hash, and then
/// yields the user's id; an unknown username still pays for one dummy
/// verification before being rejected.
pub fn validate_credentials(store: &Store, credentials: &Credentials) -> (r: Result<
    u128,
    AuthError,
>)
    requires
        store_wf(store@),
    ensures
        match cred_lookup(store@, credentials.username@) {
            Option::Some(c) => {
                &&& (r is Ok <==> argon2_accepts(credentials.password@, c.password_hash))
                &&& r matches Ok(id) ==> id == c.user_id
                &&& r is Err ==> (r matches Err(e) && e is InvalidCredentials)
            },
            Option::None => r matches Err(e) && e is InvalidCredentials,
        },
{
    match store.get_credential(credentials.username.as_str()) {
        Some(c) => {
            if verify_password_hash(credentials.password.as_str(), c.password_hash.as_str()) {
                Ok(c.user_id)
            } else {
                Err(AuthError::InvalidCredentials)
            }
        },
        None => {
            // Timing defence: unknown usernames still verify once.
            let _ = verify_password_hash(credentials.password.as_str(), FALLBACK_PASSWORD_HASH);
            Err(AuthError::InvalidCredentials)
        },
    }
}

} // verus!
