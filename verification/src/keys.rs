//! Where a group manager's or an opener's secret key comes from: the stored
//! texts, when they are set, or a fresh random key otherwise.

use vstd::prelude::*;
use crate::codec::spec_str_to_scalar;
use crate::codec::try_str_to_scalar;

verus! {

/// A group manager's secret key: to be generated, or read from storage as the
/// encodings of its two scalars.
pub enum GmSecrets {
    Generate,
    Stored { xi: Vec<u8>, gamma: Vec<u8> },
}

/// An opener's secret key: to be generated, or read from storage as the
/// encoding of its scalar.
pub enum OpenerSecret {
    Generate,
    Stored { xi: Vec<u8> },
}

/// Whether a group manager reads its key from storage: only when both texts
/// are set.
pub open spec fn spec_gm_secrets_stored(sec1: Seq<char>, sec2: Seq<char>) -> bool {
    sec1.len() > 0 && sec2.len() > 0
}

/// Whether the stored texts, where they are used, stand for scalars.
pub open spec fn spec_gm_secrets_readable(sec1: Seq<char>, sec2: Seq<char>) -> bool {
    spec_gm_secrets_stored(sec1, sec2) ==> spec_str_to_scalar(sec1) is Some && spec_str_to_scalar(
        sec2,
    ) is Some
}

/// What a group manager's secret key is to be, given the two stored texts.
pub open spec fn spec_gm_secrets_match(secrets: GmSecrets, sec1: Seq<char>, sec2: Seq<char>) -> bool {
    match secrets {
        GmSecrets::Generate => !spec_gm_secrets_stored(sec1, sec2),
        GmSecrets::Stored { xi, gamma } => {
            &&& spec_gm_secrets_stored(sec1, sec2)
            &&& Some(xi@) == spec_str_to_scalar(sec1)
            &&& Some(gamma@) == spec_str_to_scalar(sec2)
        },
    }
}

/// Reads both texts, or reports that one of them stands for no scalar.
fn read_gm_secrets(sec1: &String, sec2: &String) -> (secrets: Option<GmSecrets>)
    ensures
        match secrets {
            Some(s) => spec_gm_secrets_match(s, sec1@, sec2@),
            None => !spec_gm_secrets_readable(sec1@, sec2@),
        },
{
    if sec1.as_str().is_empty() || sec2.as_str().is_empty() {
        return Some(GmSecrets::Generate);
    }
    let xi = match try_str_to_scalar(sec1) {
        Some(xi) => xi,
        None => return None,
    };
    let gamma = match try_str_to_scalar(sec2) {
        Some(gamma) => gamma,
        None => return None,
    };
    Some(GmSecrets::Stored { xi, gamma })
}

/// A group manager's secret key source, given the stored texts `sec1` (for
/// `xi`) and `sec2` (for `gamma`): generate one unless both are set, and then
/// read both.
pub fn init_gm_secrets(sec1: &String, sec2: &String) -> (secrets: GmSecrets)
    requires
        spec_gm_secrets_readable(sec1@, sec2@),
    ensures
        spec_gm_secrets_match(secrets, sec1@, sec2@),
{
    match read_gm_secrets(sec1, sec2) {
        Some(s) => s,
        None => GmSecrets::Generate,
    }
}

/// The same, or `None` where a stored text that is used stands for no scalar.
pub fn try_init_gm_secrets(sec1: &String, sec2: &String) -> (secrets: Option<GmSecrets>)
    ensures
        match secrets {
            Some(s) => spec_gm_secrets_match(s, sec1@, sec2@),
            None => !spec_gm_secrets_readable(sec1@, sec2@),
        },
        sec1@.len() == 0 || sec2@.len() == 0 ==> secrets matches Some(GmSecrets::Generate),
        sec1@.len() > 0 && sec2@.len() > 0 ==> (secrets is Some <==> (spec_str_to_scalar(sec1@)
            is Some && spec_str_to_scalar(sec2@) is Some)),
{
    match read_gm_secrets(sec1, sec2) {
        Some(_) => Some(init_gm_secrets(sec1, sec2)),
        None => None,
    }
}

/// Stored texts that stand for scalars are read back as those scalars: a
/// manager whose two secrets were written (by `scalar_to_str`, which writes
/// non-empty texts that read back) uses them again rather than generating new
/// ones.
pub proof fn lemma_stored_gm_secrets_read_back(
    sec1: Seq<char>,
    sec2: Seq<char>,
    xi: Seq<u8>,
    gamma: Seq<u8>,
    secrets: GmSecrets,
)
    requires
        sec1.len() > 0,
        sec2.len() > 0,
        spec_str_to_scalar(sec1) == Some(xi),
        spec_str_to_scalar(sec2) == Some(gamma),
        spec_gm_secrets_match(secrets, sec1, sec2),
    ensures
        spec_gm_secrets_readable(sec1, sec2),
        secrets matches GmSecrets::Stored { xi: a, gamma: b } && a@ == xi && b@ == gamma,
{
}

/// A stored text that stands for a scalar is read back as that scalar.
pub proof fn lemma_stored_opener_secret_read_back(
    stored: Seq<char>,
    xi: Seq<u8>,
    secret: OpenerSecret,
)
    requires
        spec_str_to_scalar(stored) == Some(xi),
        spec_opener_secret_match(secret, Some(stored)),
    ensures
        spec_opener_secret_readable(Some(stored)),
        secret matches OpenerSecret::Stored { xi: a } && a@ == xi,
{
}

/// What an opener's secret key is to be, given the stored text if it is set.
pub open spec fn spec_opener_secret_match(secret: OpenerSecret, stored: Option<Seq<char>>) -> bool {
    match secret {
        OpenerSecret::Generate => stored is None,
        OpenerSecret::Stored { xi } => stored matches Some(s) && Some(xi@) == spec_str_to_scalar(
            s,
        ),
    }
}

/// Whether the stored text, if set, stands for a scalar.
pub open spec fn spec_opener_secret_readable(stored: Option<Seq<char>>) -> bool {
    stored matches Some(s) ==> spec_str_to_scalar(s) is Some
}

/// The view of an optional text.
pub open spec fn opt_text(o: Option<String>) -> Option<Seq<char>> {
    match o {
        Some(s) => Some(s@),
        None => None,
    }
}

/// An opener's secret key source: read the stored text if it is set, else
/// generate one.
pub fn init_opener_secret(stored: &Option<String>) -> (secret: OpenerSecret)
    requires
        spec_opener_secret_readable(opt_text(*stored)),
    ensures
        spec_opener_secret_match(secret, opt_text(*stored)),
{
    match stored {
        Some(text) => match try_str_to_scalar(text) {
            Some(xi) => OpenerSecret::Stored { xi },
            None => OpenerSecret::Generate,
        },
        None => OpenerSecret::Generate,
    }
}

/// The same, or `None` where the stored text stands for no scalar.
pub fn try_init_opener_secret(stored: &Option<String>) -> (secret: Option<OpenerSecret>)
    ensures
        match secret {
            Some(s) => spec_opener_secret_match(s, opt_text(*stored)),
            None => !spec_opener_secret_readable(opt_text(*stored)),
        },
        *stored is None ==> secret matches Some(OpenerSecret::Generate),
        stored matches Some(t) ==> (secret is Some <==> spec_str_to_scalar(t@) is Some),
{
    match stored {
        Some(text) => match try_str_to_scalar(text) {
            Some(_) => Some(init_opener_secret(stored)),
            None => None,
        },
        None => Some(OpenerSecret::Generate),
    }
}

/// A manager with either stored text empty generates a fresh key: that is
/// never an error, whatever the other text holds.
pub proof fn lemma_gm_secrets_empty_text_generates(
    sec1: Seq<char>,
    sec2: Seq<char>,
    secrets: GmSecrets,
)
    requires
        sec1.len() == 0 || sec2.len() == 0,
    ensures
        spec_gm_secrets_readable(sec1, sec2),
        spec_gm_secrets_match(secrets, sec1, sec2) ==> secrets is Generate,
{
}

/// A manager with both texts set reads both: it never generates a key then,
/// and it can go on exactly when both texts stand for scalars.
pub proof fn lemma_gm_secrets_both_set_read(sec1: Seq<char>, sec2: Seq<char>, secrets: GmSecrets)
    requires
        sec1.len() > 0,
        sec2.len() > 0,
    ensures
        spec_gm_secrets_readable(sec1, sec2) <==> (spec_str_to_scalar(sec1) is Some
            && spec_str_to_scalar(sec2) is Some),
        spec_gm_secrets_match(secrets, sec1, sec2) ==> secrets is Stored,
{
}

/// An opener with nothing stored generates a fresh key: that is never an
/// error.
pub proof fn lemma_opener_nothing_stored_generates(secret: OpenerSecret)
    ensures
        spec_opener_secret_readable(None),
        spec_opener_secret_match(secret, None) <==> secret is Generate,
{
}

} // verus!
