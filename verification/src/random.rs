//! Texts that nobody can guess.

use crate::text::is_alphanumeric;
use rand::distr::Alphanumeric;
use rand::Rng;
use vstd::prelude::*;
use vstd::string::*;

verus! {

/// `Rng::sample` of `Alphanumeric` with the thread's generator: an ASCII letter
/// or digit. Nothing is said of which one, nor of how likely it is.
#[verifier::external_body]
fn sample_alphanumeric() -> (r: u8)
    ensures
        r < 128,
        is_alphanumeric(r as char),
{
    rand::rng().sample(Alphanumeric)
}

/// `length` ASCII letters and digits, chosen at random.
pub fn random_alphanumeric(length: usize) -> (r: String)
    ensures
        r@.len() == length,
        forall|i: int| 0 <= i < length ==> is_alphanumeric(#[trigger] r@[i]),
{
    let mut out: String = String::new();
    for n in 0..length
        invariant
            out@.len() == n,
            forall|i: int| 0 <= i < n ==> is_alphanumeric(#[trigger] out@[i]),
    {
        out.push(sample_alphanumeric() as char);
    }
    out
}

} // verus!
