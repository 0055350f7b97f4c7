//! Checking a member's signature on the challenge nonce and the issuer's
//! certificate on the member's key, before a member key is issued.

use openssl::hash::MessageDigest;
use openssl::pkey::PKey;
use openssl::rsa::Rsa;
use openssl::sign::Verifier;
use vstd::prelude::*;
use vstd::string::StrSliceExecFns;
use vstd::utf8::encode_utf8;
use crate::codec::spec_base64_decode;
use crate::codec::opt_bytes;

verus! {

/// What checking an SHA-256 signature with `openssl` gives, where the public
/// key is a PEM "PUBLIC KEY" (SubjectPublicKeyInfo): whether the signature is
/// valid, or `None` where `openssl` reports an error (a key that does not parse,
/// for one).
pub uninterp spec fn spec_spki_pem_verify_sha256(
    pem: Seq<u8>,
    msg: Seq<u8>,
    signature: Seq<u8>,
) -> Option<bool>;

/// The same, where the public key is a PEM "RSA PUBLIC KEY" (PKCS#1).
pub uninterp spec fn spec_pkcs1_pem_verify_sha256(
    pem: Seq<u8>,
    msg: Seq<u8>,
    signature: Seq<u8>,
) -> Option<bool>;

/// `PKey::public_key_from_pem`, then `Verifier::new` with SHA-256, `update`
/// with the message and `verify` of the signature. Claimed: the outcome, with
/// every `openssl` error as `None`, is `spec_spki_pem_verify_sha256` of the
/// three byte strings. The PEM goes through a memory BIO that asserts its
/// length fits in an `i32`, which `requires` keeps.
#[verifier::external_body]
fn spki_pem_verify_sha256(pem: &[u8], msg: &[u8], signature: &[u8]) -> (valid: Option<bool>)
    requires
        pem@.len() <= i32::MAX,
    ensures
        valid == spec_spki_pem_verify_sha256(pem@, msg@, signature@),
{
    let key = PKey::public_key_from_pem(pem).ok()?;
    let mut verifier = Verifier::new(MessageDigest::sha256(), &key).ok()?;
    verifier.update(msg).ok()?;
    verifier.verify(signature).ok()
}

/// `Rsa::public_key_from_pem_pkcs1` and `PKey::from_rsa`, then `Verifier::new`
/// with SHA-256, `update` with the message and `verify` of the signature.
/// Claimed: the outcome, with every `openssl` error as `None`, is
/// `spec_pkcs1_pem_verify_sha256` of the three byte strings. The PEM goes
/// through a memory BIO that asserts its length fits in an `i32`, which
/// `requires` keeps.
#[verifier::external_body]
fn pkcs1_pem_verify_sha256(pem: &[u8], msg: &[u8], signature: &[u8]) -> (valid: Option<bool>)
    requires
        pem@.len() <= i32::MAX,
    ensures
        valid == spec_pkcs1_pem_verify_sha256(pem@, msg@, signature@),
{
    let key = PKey::from_rsa(Rsa::public_key_from_pem_pkcs1(pem).ok()?).ok()?;
    let mut verifier = Verifier::new(MessageDigest::sha256(), &key).ok()?;
    verifier.update(msg).ok()?;
    verifier.verify(signature).ok()
}

/// The marker of a PKCS#1 RSA public key in PEM.
pub open spec fn spec_pkcs1_marker() -> Seq<char> {
    "RSA PUBLIC KEY"@
}

/// Whether `needle` occurs in `text` at position `i`.
pub open spec fn spec_occurs_at(text: Seq<char>, needle: Seq<char>, i: int) -> bool {
    0 <= i && i + needle.len() <= text.len() && text.subrange(i, i + needle.len()) == needle
}

/// Whether `needle` occurs somewhere in `text`.
pub open spec fn spec_contains_text(text: Seq<char>, needle: Seq<char>) -> bool {
    exists|i: int| spec_occurs_at(text, needle, i)
}

/// Whether a PEM public key is a PKCS#1 RSA key: whether it names an
/// "RSA PUBLIC KEY".
pub open spec fn spec_is_pkcs1_pem(pubkey: Seq<char>) -> bool {
    spec_contains_text(pubkey, spec_pkcs1_marker())
}

/// Whether `needle` occurs in `text` at position `i`.
fn occurs_at(text: &str, text_len: usize, needle: &str, needle_len: usize, i: usize) -> (found:
    bool)
    requires
        text_len == text@.len(),
        needle_len == needle@.len(),
        i + needle_len <= text_len,
    ensures
        found == spec_occurs_at(text@, needle@, i as int),
{
    let mut j: usize = 0;
    while j < needle_len
        invariant
            text_len == text@.len(),
            needle_len == needle@.len(),
            i + needle_len <= text_len,
            j <= needle_len,
            forall|k: int| 0 <= k < j ==> text@[i + k] == needle@[k],
        decreases needle_len - j,
    {
        if text.get_char(i + j) != needle.get_char(j) {
            proof {
                assert(text@.subrange(i as int, i + needle_len)[j as int] != needle@[j as int]);
            }
            return false;
        }
        j = j + 1;
    }
    proof {
        assert(text@.subrange(i as int, i + needle_len) =~= needle@);
    }
    true
}

/// Whether `needle` occurs somewhere in `text`.
fn contains_text(text: &str, needle: &str) -> (found: bool)
    ensures
        found == spec_contains_text(text@, needle@),
{
    let text_len = text.unicode_len();
    let needle_len = needle.unicode_len();
    if needle_len > text_len {
        return false;
    }
    let last = text_len - needle_len;
    let mut i: usize = 0;
    loop
        invariant
            text_len == text@.len(),
            needle_len == needle@.len(),
            last == text_len - needle_len,
            i <= last,
            forall|k: int| 0 <= k < i ==> !#[trigger] spec_occurs_at(text@, needle@, k),
        decreases last - i,
    {
        if occurs_at(text, text_len, needle, needle_len, i) {
            return true;
        }
        if i == last {
            proof {
                assert forall|k: int| !#[trigger] spec_occurs_at(text@, needle@, k) by {
                    if 0 <= k < i {
                    }
                }
            }
            return false;
        }
        i = i + 1;
    }
}

/// Whether a PEM public key is a PKCS#1 RSA key, as opposed to a
/// SubjectPublicKeyInfo one.
pub fn is_pkcs1_pem(pubkey: &String) -> (pkcs1: bool)
    ensures
        pkcs1 == spec_is_pkcs1_pem(pubkey@),
{
    let marker = "RSA PUBLIC KEY";
    contains_text(pubkey.as_str(), marker)
}

/// What checking `signature` (Base64) on `msg` under the PEM key `pubkey`
/// gives: whether it is valid, or `None` where the signature is not Base64, the
/// PEM is too long for `openssl` to read (over `i32::MAX` bytes), or `openssl`
/// reports an error.
pub open spec fn spec_verify(signature: Seq<char>, msg: Seq<char>, pubkey: Seq<char>) -> Option<
    bool,
> {
    match spec_base64_decode(signature) {
        Some(sig) => if encode_utf8(pubkey).len() > i32::MAX {
            None
        } else if spec_is_pkcs1_pem(pubkey) {
            spec_pkcs1_pem_verify_sha256(encode_utf8(pubkey), encode_utf8(msg), sig)
        } else {
            spec_spki_pem_verify_sha256(encode_utf8(pubkey), encode_utf8(msg), sig)
        },
        None => None,
    }
}

/// `base64::decode` through the codec's wrapper.
fn decode_signature(signature: &String) -> (sig: Option<Vec<u8>>)
    ensures
        opt_bytes(sig) == spec_base64_decode(signature@),
{
    crate::codec::base64_decode(signature.as_str())
}

/// Checks the signature, reporting where it cannot be checked.
fn check_signature(signature: &String, msg: &String, pubkey: &String) -> (valid: Option<bool>)
    ensures
        valid == spec_verify(signature@, msg@, pubkey@),
{
    let sig = match decode_signature(signature) {
        Some(sig) => sig,
        None => return None,
    };
    let pem = pubkey.as_str().as_bytes();
    let text = msg.as_str().as_bytes();
    if pem.len() > i32::MAX as usize {
        return None;
    }
    if is_pkcs1_pem(pubkey) {
        pkcs1_pem_verify_sha256(pem, text, sig.as_slice())
    } else {
        spki_pem_verify_sha256(pem, text, sig.as_slice())
    }
}

/// Whether `signature` (Base64) is a valid SHA-256 signature of `msg` under the
/// PEM public key `pubkey`, on inputs where it can be checked.
pub fn verify(signature: &String, msg: &String, pubkey: &String) -> (valid: bool)
    requires
        spec_verify(signature@, msg@, pubkey@) is Some,
    ensures
        Some(valid) == spec_verify(signature@, msg@, pubkey@),
{
    match check_signature(signature, msg, pubkey) {
        Some(valid) => valid,
        None => false,
    }
}

/// Whether `signature` is a valid signature of `msg` under `pubkey`, or `None`
/// where it cannot be checked.
pub fn try_verify(signature: &String, msg: &String, pubkey: &String) -> (valid: Option<bool>)
    ensures
        valid == spec_verify(signature@, msg@, pubkey@),
        spec_base64_decode(signature@) matches Some(sig) ==> (encode_utf8(pubkey@).len()
            <= i32::MAX ==> valid == if spec_contains_text(pubkey@, "RSA PUBLIC KEY"@) {
            spec_pkcs1_pem_verify_sha256(encode_utf8(pubkey@), encode_utf8(msg@), sig)
        } else {
            spec_spki_pem_verify_sha256(encode_utf8(pubkey@), encode_utf8(msg@), sig)
        }),
{
    match check_signature(signature, msg, pubkey) {
        Some(_) => Some(verify(signature, msg, pubkey)),
        None => None,
    }
}

/// Whether `cert` (Base64) is the issuer's valid certificate on the member's
/// key: a signature of the member's PEM key `user_pubkey` under the issuer's
/// PEM key `issuer_pubkey`, on inputs where it can be checked.
pub fn verify_issuer_cert(
    cert: &String,
    user_pubkey: &String,
    issuer_pubkey: &String,
) -> (valid: bool)
    requires
        spec_verify(cert@, user_pubkey@, issuer_pubkey@) is Some,
    ensures
        Some(valid) == spec_verify(cert@, user_pubkey@, issuer_pubkey@),
{
    verify(cert, user_pubkey, issuer_pubkey)
}

/// Whether `cert` is the issuer's valid certificate on the member's key, or
/// `None` where it cannot be checked.
pub fn try_verify_issuer_cert(
    cert: &String,
    user_pubkey: &String,
    issuer_pubkey: &String,
) -> (valid: Option<bool>)
    ensures
        valid == spec_verify(cert@, user_pubkey@, issuer_pubkey@),
{
    match check_signature(cert, user_pubkey, issuer_pubkey) {
        Some(_) => Some(verify_issuer_cert(cert, user_pubkey, issuer_pubkey)),
        None => None,
    }
}

/// A member's request for a member key.
pub struct IssueMemberReq {
    pub cert: String,
    pub signature: String,
    pub pubkey: String,
    pub domains: Vec<String>,
}

/// Whether a member key may be issued.
#[derive(Clone, Copy, Debug, PartialEq, Eq, Structural)]
pub enum IssueAuthorization {
    Authorized,
    Unauthorized,
}

/// The view of an optional text.
pub open spec fn opt_chars(o: Option<String>) -> Option<Seq<char>> {
    match o {
        Some(t) => Some(t@),
        None => None,
    }
}

/// The decision on a request: the member's signature on the nonce is checked
/// first, and only if it is valid is the issuer's certificate on the member's
/// key checked, under the issuer's key if one is configured. `None` where a
/// check that is made cannot be carried out, or needs the issuer's key and
/// none is configured.
pub open spec fn spec_authorize_issue(
    req: IssueMemberReq,
    nonce: Seq<char>,
    issuer_pubkey: Option<Seq<char>>,
) -> Option<IssueAuthorization> {
    match spec_verify(req.signature@, nonce, req.pubkey@) {
        Some(true) => match issuer_pubkey {
            Some(issuer) => match spec_verify(req.cert@, req.pubkey@, issuer) {
                Some(true) => Some(IssueAuthorization::Authorized),
                Some(false) => Some(IssueAuthorization::Unauthorized),
                None => None,
            },
            None => None,
        },
        Some(false) => Some(IssueAuthorization::Unauthorized),
        None => None,
    }
}

/// Decides whether a member key may be issued for `req`, given the nonce that
/// the member was challenged with and the issuer's PEM public key, if it is
/// configured.
pub fn authorize_issue(
    req: &IssueMemberReq,
    nonce: &String,
    issuer_pubkey: &Option<String>,
) -> (auth: Option<IssueAuthorization>)
    ensures
        auth == spec_authorize_issue(*req, nonce@, opt_chars(*issuer_pubkey)),
{
    match try_verify(&req.signature, nonce, &req.pubkey) {
        Some(true) => {},
        Some(false) => return Some(IssueAuthorization::Unauthorized),
        None => return None,
    }
    let issuer = match issuer_pubkey {
        Some(issuer) => issuer,
        None => return None,
    };
    match try_verify_issuer_cert(&req.cert, &req.pubkey, issuer) {
        Some(true) => Some(IssueAuthorization::Authorized),
        Some(false) => Some(IssueAuthorization::Unauthorized),
        None => None,
    }
}

/// A key is issued exactly when the member's signature on the nonce and the
/// issuer's certificate on the member's key are both valid.
pub proof fn lemma_authorized_iff_both_valid(
    req: IssueMemberReq,
    nonce: Seq<char>,
    issuer_pubkey: Seq<char>,
)
    ensures
        spec_authorize_issue(req, nonce, Some(issuer_pubkey)) == Some(
            IssueAuthorization::Authorized,
        ) <==> spec_verify(req.signature@, nonce, req.pubkey@) == Some(true) && spec_verify(
            req.cert@,
            req.pubkey@,
            issuer_pubkey,
        ) == Some(true),
{
}

/// An invalid signature on the nonce refuses the request whatever the
/// certificate is, and whether or not the issuer's key is configured.
pub proof fn lemma_bad_signature_refused(
    req: IssueMemberReq,
    nonce: Seq<char>,
    issuer_pubkey: Option<Seq<char>>,
)
    requires
        spec_verify(req.signature@, nonce, req.pubkey@) == Some(false),
    ensures
        spec_authorize_issue(req, nonce, issuer_pubkey) == Some(IssueAuthorization::Unauthorized),
{
}

/// Under a PEM that names an "RSA PUBLIC KEY", a signature that decodes is
/// judged exactly as `openssl` judges it under the PKCS#1 key; under any other
/// PEM, exactly as under a SubjectPublicKeyInfo key. An invalid signature is
/// never reported valid.
pub proof fn lemma_verify_is_openssl_outcome(signature: Seq<char>, msg: Seq<char>, pubkey: Seq<
    char,
>, sig: Seq<u8>)
    requires
        spec_base64_decode(signature) == Some(sig),
        encode_utf8(pubkey).len() <= i32::MAX,
    ensures
        spec_contains_text(pubkey, "RSA PUBLIC KEY"@) ==> spec_verify(signature, msg, pubkey)
            == spec_pkcs1_pem_verify_sha256(encode_utf8(pubkey), encode_utf8(msg), sig),
        !spec_contains_text(pubkey, "RSA PUBLIC KEY"@) ==> spec_verify(signature, msg, pubkey)
            == spec_spki_pem_verify_sha256(encode_utf8(pubkey), encode_utf8(msg), sig),
{
}

/// A signature that is not Base64 is never judged: it cannot be checked.
pub proof fn lemma_verify_needs_base64(signature: Seq<char>, msg: Seq<char>, pubkey: Seq<char>)
    requires
        spec_base64_decode(signature) is None,
    ensures
        spec_verify(signature, msg, pubkey) is None,
{
}

} // verus!
