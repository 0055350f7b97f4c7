//! Group manager of the AIAS anonymous authentication service: the logic that
//! lists group managers, numbers them, signs a group public key in a chain of
//! managers, encodes keys as text, checks a member's signature and certificate,
//! and prepares the records that the service stores.

pub mod domains;
pub mod ids;
pub mod codec;
pub mod signing;
pub mod challenge;
pub mod auth;
pub mod records;
pub mod messages;
pub mod keys;
