//! Session tokens: access-token claims and the refresh-token scheme.
//!
//! A refresh token is `selector.verifier`: the selector finds the stored
//! row, and only a hash of the verifier is stored — URL-safe base64 of the
//! verifier's SHA-256 digest — so a leaked store cannot forge tokens.  The
//! hashing and randomness come from outside crates behind the trusted
//! items below; the splitting, assembly and comparison logic is verified.

use vstd::prelude::*;
use vstd::slice::{slice_subrange, slice_to_vec};

verus! {

use crate::error::AuthError;

/// The claims carried by an access token.
#[derive(Debug, Clone)]
pub struct Claims {
    /// The subject: the administrative username.
    pub sub: String,
    /// Expiry, in seconds since the epoch.
    pub exp: i64,
    /// Issued-at, in seconds since the epoch.
    pub iat: i64,
}

/// The URL-safe, unpadded base64 encoding of a byte string, named after
/// the outside encoder that computes it.
pub uninterp spec fn b64url_of(bytes: Seq<u8>) -> Seq<u8>;

/// The SHA-256 digest of a byte string, named after the outside hash that
/// computes it.
pub uninterp spec fn sha256_of(data: Seq<u8>) -> Seq<u8>;

/// Whether a byte is in the URL-safe base64 alphabet: letters, digits,
/// `-` and `_`.
pub open spec fn is_b64url_byte(b: u8) -> bool {
    (65 <= b <= 90) || (97 <= b <= 122) || (48 <= b <= 57) || b == 45 || b == 95
}

/// Relies on base64's `URL_SAFE_NO_PAD` engine via `Engine::encode`: the
/// encoding depends on the input bytes alone; without padding it is four
/// characters per three input bytes, rounded up; and every character is
/// from the URL-safe alphabet (letters, digits, `-`, `_`).
#[verifier::external_body]
fn b64url_encode(bytes: &[u8]) -> (r: Vec<u8>)
    ensures
        r@ == b64url_of(bytes@),
        r@.len() == (bytes@.len() * 4 + 2) / 3,
        forall|j: int| 0 <= j < r@.len() ==> is_b64url_byte(r@[j]),
{
    base64::Engine::encode(&base64::engine::general_purpose::URL_SAFE_NO_PAD, bytes).into_bytes()
}

/// Relies on `sha2::Sha256` via `Digest::digest`: the digest depends on
/// the input alone and is 32 bytes long.
#[verifier::external_body]
fn sha256_digest(data: &[u8]) -> (r: Vec<u8>)
    ensures
        r@ == sha256_of(data@),
        r@.len() == 32,
{
    <sha2::Sha256 as sha2::Digest>::digest(data).to_vec()
}

/// Relies on `subtle::ConstantTimeEq` for byte slices: the choice unwraps
/// to 1 exactly when the lengths and contents are equal, compared without
/// data-dependent short-circuiting.
#[verifier::external_body]
fn ct_bytes_eq(a: &[u8], b: &[u8]) -> (r: bool)
    ensures
        r == (a@ == b@),
{
    bool::from(subtle::ConstantTimeEq::ct_eq(a, b))
}

/// Relies on `rand_core::OsRng::fill_bytes`: fills the buffer from the
/// operating system's random source.  Nothing is promised of the values.
#[verifier::external_body]
fn os_random_bytes(len: usize) -> (r: Vec<u8>)
    ensures
        r@.len() == len,
{
    let mut bytes = vec![0u8; len];
    rand_core::RngCore::fill_bytes(&mut rand_core::OsRng, &mut bytes);
    bytes
}

/// A fresh random token segment: the URL-safe base64 encoding of `len`
/// random bytes — four characters per three bytes, rounded up, every one
/// a letter, digit, `-` or `_`, so in particular never a dot.
pub fn random_urlsafe_string(len: usize) -> (r: Vec<u8>)
    ensures
        exists|bs: Seq<u8>| bs.len() == len && r@ == b64url_of(bs),
        r@.len() == (len * 4 + 2) / 3,
        forall|j: int| 0 <= j < r@.len() ==> is_b64url_byte(r@[j]),
        forall|j: int| 0 <= j < r@.len() ==> r@[j] != 46,
{
    let bytes = os_random_bytes(len);
    b64url_encode(bytes.as_slice())
}

/// A token split at its first dot: the part before it and everything
/// after it, or nothing when the token has no dot.
pub open spec fn spec_dot_split(s: Seq<u8>) -> Option<(Seq<u8>, Seq<u8>)>
    decreases s.len(),
{
    if s.len() == 0 {
        None
    } else if s[0] == 46 {
        Some((Seq::<u8>::empty(), s.drop_first()))
    } else {
        match spec_dot_split(s.drop_first()) {
            Some((sel, ver)) => Some((seq![s[0]] + sel, ver)),
            None => None,
        }
    }
}

proof fn lemma_dot_split_at(s: Seq<u8>, i: int)
    requires
        0 <= i < s.len(),
        s[i] == 46,
        forall|j: int| 0 <= j < i ==> s[j] != 46,
    ensures
        spec_dot_split(s) == Some((s.subrange(0, i), s.subrange(i + 1, s.len() as int))),
    decreases i,
{
    if i == 0 {
        assert(s.subrange(0, 0) =~= Seq::<u8>::empty());
        assert(s.subrange(1, s.len() as int) =~= s.drop_first());
    } else {
        lemma_dot_split_at(s.drop_first(), i - 1);
        assert(s.drop_first().subrange(0, i - 1) =~= s.subrange(1, i));
        assert(s.drop_first().subrange(i, s.len() - 1) =~= s.subrange(i + 1, s.len() as int));
        assert(seq![s[0]] + s.subrange(1, i) =~= s.subrange(0, i));
    }
}

proof fn lemma_dot_split_none(s: Seq<u8>)
    requires
        forall|j: int| 0 <= j < s.len() ==> s[j] != 46,
    ensures
        spec_dot_split(s) is None,
    decreases s.len(),
{
    if s.len() > 0 {
        lemma_dot_split_none(s.drop_first());
    }
}

/// Splits a refresh token into its selector and verifier at the first
/// dot.  A token without a dot, or with an empty selector or verifier, is
/// rejected as an invalid refresh token.
pub fn split_refresh_token(token: &[u8]) -> (r: Result<(Vec<u8>, Vec<u8>), AuthError>)
    ensures
        match spec_dot_split(token@) {
            Some((sel, ver)) => if sel.len() > 0 && ver.len() > 0 {
                r matches Ok(p) && p.0@ == sel && p.1@ == ver
            } else {
                r matches Err(e) && e.spec_is_invalid_refresh_token()
            },
            None => r matches Err(e) && e.spec_is_invalid_refresh_token(),
        },
{
    let mut i: usize = 0;
    while i < token.len() && token[i] != 46
        invariant
            i <= token@.len(),
            forall|j: int| 0 <= j < i ==> token@[j] != 46,
        decreases token@.len() - i,
    {
        i = i + 1;
    }
    if i == token.len() {
        proof {
            lemma_dot_split_none(token@);
        }
        return Err(AuthError::invalid_refresh_token());
    }
    proof {
        lemma_dot_split_at(token@, i as int);
    }
    let selector = slice_to_vec(slice_subrange(token, 0, i));
    let verifier = slice_to_vec(slice_subrange(token, i + 1, token.len()));
    if selector.len() == 0 || verifier.len() == 0 {
        return Err(AuthError::invalid_refresh_token());
    }
    Ok((selector, verifier))
}

/// A freshly generated refresh token: the full token handed to the
/// client, its selector, and the hash of its verifier that the store
/// keeps.
pub struct RefreshTokenPayload {
    pub token: Vec<u8>,
    pub selector: Vec<u8>,
    pub verifier_hash: Vec<u8>,
}

impl RefreshTokenPayload {
    /// The stored hash of a verifier: URL-safe base64 of its SHA-256
    /// digest.
    pub fn hash_verifier(verifier: &[u8]) -> (r: Vec<u8>)
        ensures
            r@ == b64url_of(sha256_of(verifier@)),
    {
        let digest = sha256_digest(verifier);
        b64url_encode(digest.as_slice())
    }

    /// Generates a fresh token pair: a random selector, a random
    /// verifier, the token `selector.verifier`, and the verifier's stored
    /// hash.  The verifier is the part of the token after the selector and
    /// its dot, and the stored hash is that verifier's hash.
    pub fn generate() -> (r: RefreshTokenPayload)
        ensures
            r.selector@.len() > 0,
            forall|j: int| 0 <= j < r.selector@.len() ==> r.selector@[j] != 46,
            r.selector@.len() + 1 < r.token@.len(),
            r.token@ == r.selector@ + seq![46u8] + r.token@.skip(r.selector@.len() as int + 1),
            r.verifier_hash@ == b64url_of(
                sha256_of(r.token@.skip(r.selector@.len() as int + 1)),
            ),
    {
        let selector = random_urlsafe_string(16);
        let verifier = random_urlsafe_string(32);
        let verifier_hash = RefreshTokenPayload::hash_verifier(verifier.as_slice());
        let mut token: Vec<u8> = Vec::new();
        let ghost sel_view = selector@;
        let ghost ver_view = verifier@;
        let mut k: usize = 0;
        while k < selector.len()
            invariant
                k <= sel_view.len(),
                sel_view == selector@,
                token@ =~= sel_view.subrange(0, k as int),
            decreases sel_view.len() - k,
        {
            token.push(selector[k]);
            k = k + 1;
        }
        proof {
            assert(sel_view.subrange(0, sel_view.len() as int) =~= sel_view);
        }
        token.push(46);
        let mut m: usize = 0;
        while m < verifier.len()
            invariant
                m <= ver_view.len(),
                ver_view == verifier@,
                token@ =~= sel_view + seq![46u8] + ver_view.subrange(0, m as int),
            decreases ver_view.len() - m,
        {
            token.push(verifier[m]);
            m = m + 1;
        }
        proof {
            assert(ver_view.subrange(0, ver_view.len() as int) =~= ver_view);
            assert(token@ == sel_view + seq![46u8] + ver_view);
            assert(token@.skip(sel_view.len() as int + 1) =~= ver_view);
            assert(verifier_hash@ == b64url_of(sha256_of(ver_view)));
        }
        RefreshTokenPayload { token, selector, verifier_hash }
    }

    /// A generated token splits back at its first dot into exactly its
    /// selector and its verifier: the selector is nonempty and dot-free,
    /// so the first dot of the token is the separator that `generate` put
    /// there, and what follows it is the verifier whose hash is stored.
    pub proof fn lemma_generated_token_splits(p: RefreshTokenPayload)
        requires
            p.selector@.len() > 0,
            forall|j: int| 0 <= j < p.selector@.len() ==> p.selector@[j] != 46,
            p.selector@.len() + 1 < p.token@.len(),
            p.token@ == p.selector@ + seq![46u8] + p.token@.skip(p.selector@.len() as int + 1),
        ensures
            spec_dot_split(p.token@) == Some(
                (p.selector@, p.token@.skip(p.selector@.len() as int + 1)),
            ),
    {
        let n = p.selector@.len() as int;
        assert(p.token@[n] == 46);
        assert(forall|j: int| 0 <= j < n ==> p.token@[j] == p.selector@[j]);
        lemma_dot_split_at(p.token@, n);
        assert(p.token@.subrange(0, n) =~= p.selector@);
        assert(p.token@.subrange(n + 1, p.token@.len() as int) =~= p.token@.skip(n + 1));
    }

    /// Compares a presented verifier against the stored hash, in constant
    /// time; a mismatch is the invalid-refresh-token rejection.
    pub fn verify_hash(verifier: &[u8], stored_hash: &[u8]) -> (r: Result<(), AuthError>)
        ensures
            r is Ok <==> stored_hash@ == b64url_of(sha256_of(verifier@)),
            r matches Err(e) ==> e.spec_is_invalid_refresh_token(),
    {
        let computed = RefreshTokenPayload::hash_verifier(verifier);
        if ct_bytes_eq(stored_hash, computed.as_slice()) {
            Ok(())
        } else {
            Err(AuthError::invalid_refresh_token())
        }
    }
}

} // verus!
