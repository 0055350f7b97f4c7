//! The challenge nonce that a member signs before a key is issued to it.

use rand::Rng;
use vstd::prelude::*;

verus! {

/// The number of characters in a challenge nonce.
pub const NONCE_LEN: usize = 32;

/// Whether a byte is an ASCII letter or digit (`0`..`9`, `A`..`Z`, `a`..`z`).
pub open spec fn spec_alphanumeric_byte(b: u8) -> bool {
    (48 <= b <= 57) || (65 <= b <= 90) || (97 <= b <= 122)
}

/// Whether a character is an ASCII letter or digit.
pub open spec fn spec_alphanumeric_char(c: char) -> bool {
    ('0' <= c <= '9') || ('A' <= c <= 'Z') || ('a' <= c <= 'z')
}

/// Whether a text is a well-formed challenge nonce: `NONCE_LEN` ASCII letters
/// and digits.
pub open spec fn spec_valid_nonce(nonce: Seq<char>) -> bool {
    &&& nonce.len() == NONCE_LEN
    &&& forall|i: int| 0 <= i < nonce.len() ==> spec_alphanumeric_char(#[trigger] nonce[i])
}

/// `rng.sample(rand::distributions::Alphanumeric)` on the thread's generator.
/// Claimed: the byte is an ASCII letter or digit, as the distribution's
/// documentation and source say. Which one it is depends on chance and is not
/// stated.
#[verifier::external_body]
fn random_alphanumeric() -> (b: u8)
    ensures
        spec_alphanumeric_byte(b),
{
    rand::thread_rng().sample(rand::distributions::Alphanumeric)
}

/// `String::push`. Claimed: the character is appended.
#[verifier::external_body]
fn push_char(text: &mut String, c: char)
    ensures
        final(text)@ == old(text)@.push(c),
{
    text.push(c)
}

/// The characters that a sequence of bytes stands for, one for each byte.
pub open spec fn spec_chars_of(bytes: Seq<u8>) -> Seq<char> {
    bytes.map_values(|b: u8| b as char)
}

/// Whether a sequence of bytes is a nonce's worth of draws: `NONCE_LEN` ASCII
/// letters and digits.
pub open spec fn spec_valid_draws(draws: Seq<u8>) -> bool {
    &&& draws.len() == NONCE_LEN
    &&& forall|i: int| 0 <= i < draws.len() ==> spec_alphanumeric_byte(#[trigger] draws[i])
}

/// `count` random ASCII letters and digits.
pub fn draw_alphanumeric(count: usize) -> (draws: Vec<u8>)
    ensures
        draws@.len() == count,
        forall|i: int| 0 <= i < draws@.len() ==> spec_alphanumeric_byte(#[trigger] draws@[i]),
{
    let mut draws: Vec<u8> = Vec::new();
    let mut i: usize = 0;
    while i < count
        invariant
            i <= count,
            draws@.len() == i,
            forall|j: int| 0 <= j < i ==> spec_alphanumeric_byte(#[trigger] draws@[j]),
        decreases count - i,
    {
        draws.push(random_alphanumeric());
        i = i + 1;
    }
    draws
}

/// The nonce that a nonce's worth of drawn bytes spell: each byte as a
/// character, in order.
pub fn nonce_from_draws(draws: &[u8]) -> (nonce: String)
    requires
        spec_valid_draws(draws@),
    ensures
        nonce@ == spec_chars_of(draws@),
        spec_valid_nonce(nonce@),
{
    let mut nonce = String::new();
    let mut i: usize = 0;
    while i < draws.len()
        invariant
            i <= draws@.len(),
            spec_valid_draws(draws@),
            nonce@ == spec_chars_of(draws@.subrange(0, i as int)),
        decreases draws@.len() - i,
    {
        let c = draws[i] as char;
        push_char(&mut nonce, c);
        proof {
            assert(spec_chars_of(draws@.subrange(0, i + 1)) =~= spec_chars_of(
                draws@.subrange(0, i as int),
            ).push(c));
        }
        i = i + 1;
    }
    proof {
        assert(draws@.subrange(0, draws@.len() as int) =~= draws@);
        assert forall|k: int| 0 <= k < nonce@.len() implies spec_alphanumeric_char(
            #[trigger] nonce@[k],
        ) by {
            assert(spec_alphanumeric_byte(draws@[k]));
        }
    }
    nonce
}

/// A fresh challenge nonce: `NONCE_LEN` random ASCII letters and digits, drawn
/// and spelled by `nonce_from_draws`.
pub fn generate_nonce() -> (nonce: String)
    ensures
        spec_valid_nonce(nonce@),
        exists|draws: Seq<u8>| spec_valid_draws(draws) && nonce@ == spec_chars_of(draws),
{
    let draws = draw_alphanumeric(NONCE_LEN);
    nonce_from_draws(draws.as_slice())
}

/// The answer to a challenge request.
pub struct GenerateChallengeResp {
    pub nonce: String,
}

} // verus!
