//! The requests and answers that group managers and members exchange. Group
//! elements travel as their compressed encodings.

use vstd::prelude::*;
use crate::signing::CombinedGPKWithoutPartials;

verus! {

/// The number of group managers that share a group key.
pub const GM_COUNT: usize = 3;

/// A request for the combined group public key of the managers at `domains`.
pub struct GetPubkeyReq {
    pub domains: Vec<String>,
}

/// The combined group public key and this manager's partial key (a compressed
/// G2 point).
pub struct GetPubkeyResp {
    pub combined: CombinedGPKWithoutPartials,
    pub partial: Vec<u8>,
}

/// A request for a signed key.
pub struct GetSignedKeyReq {
    pub pubkey: String,
    pub domains: Vec<String>,
}

/// A request to sign a key in a chain of group managers.
pub struct SignPubkeyReq {
    pub domains: Vec<String>,
    pub unsigned_pubkey: Vec<u8>,
}

/// The key that a group manager signed.
pub struct SignPubkeyResp {
    pub signed_pubkey: Vec<u8>,
}

/// A request to sign a key in a chain of openers.
pub struct GenPubkeyReq {
    pub openers: Vec<String>,
    pub unsigned_pubkey: Vec<u8>,
}

/// The key that an opener signed.
pub struct GenPubkeyResp {
    pub signed_pubkey: Vec<u8>,
}

/// Whether a request for the group public key names as many domains as there
/// are group managers; any other request is refused.
pub fn pubkey_request_accepted(req: &GetPubkeyReq) -> (accepted: bool)
    ensures
        accepted == (req.domains@.len() == GM_COUNT),
{
    req.domains.len() == GM_COUNT
}

} // verus!
