//! The rows that the service stores: group public keys and issued members.

use vstd::prelude::*;
use crate::domains::joined_domains;
use crate::domains::spec_joined;

verus! {

/// A stored combined group public key.
pub struct PublicKey {
    pub id: Option<u8>,
    pub domains: Option<String>,
    pub pubkey: Option<String>,
    pub gm_id: Option<u8>,
}

/// A stored member to whom a key was issued.
pub struct Member {
    pub id: Option<u8>,
    pub cert: Option<String>,
    pub domains: Option<String>,
    pub usk: Option<String>,
}

/// A stored opener public key.
pub struct Credential {
    pub id: Option<u8>,
    pub openers: Option<String>,
    pub pubkey: Option<String>,
    pub opener_id: Option<u8>,
}

/// The row for an opener public key `pubkey` (as text) made by the openers at
/// `openers`, recorded by the opener numbered `opener_number`; the store
/// assigns the id.
pub fn credential_record(openers: &Vec<String>, pubkey: String, opener_number: u8) -> (row:
    Credential)
    ensures
        row.id is None,
        row.openers matches Some(o) && o@ == spec_joined(openers@),
        row.pubkey matches Some(p) && p@ == pubkey@,
        row.opener_id == Some(opener_number),
{
    Credential {
        id: None,
        openers: Some(crate::domains::joined_openers(openers)),
        pubkey: Some(pubkey),
        opener_id: Some(opener_number),
    }
}

/// The row for a combined group public key `pubkey` (as text) made by the
/// managers at `domains`, recorded by the manager numbered `gm_number`; the
/// store assigns the id.
pub fn public_key_record(domains: &Vec<String>, pubkey: String, gm_number: u8) -> (row: PublicKey)
    ensures
        row.id is None,
        row.domains matches Some(d) && d@ == spec_joined(domains@),
        row.pubkey matches Some(p) && p@ == pubkey@,
        row.gm_id == Some(gm_number),
{
    PublicKey {
        id: None,
        domains: Some(joined_domains(domains)),
        pubkey: Some(pubkey),
        gm_id: Some(gm_number),
    }
}

/// The row for a member issued a key under the managers at `domains`, with the
/// stored forms of its key and certificate; the store assigns the id.
pub fn member_record(domains: &Vec<String>, usk: String, cert: String) -> (row: Member)
    ensures
        row.id is None,
        row.domains matches Some(d) && d@ == spec_joined(domains@),
        row.usk matches Some(u) && u@ == usk@,
        row.cert matches Some(c) && c@ == cert@,
{
    Member {
        id: None,
        cert: Some(cert),
        domains: Some(joined_domains(domains)),
        usk: Some(usk),
    }
}

} // verus!
