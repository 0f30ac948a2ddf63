//! Random, structurally valid identifiers for testing.

use crate::nav13::{is_valid_navs13, Nav13};
use vstd::prelude::*;

verus! {

/// Relies on rand::thread_rng and rand::Rng::gen_range: a value drawn from
/// the range 0..10, so below ten. The range is not empty, so no panic.
#[verifier::external_body]
fn random_digit() -> (r: u8)
    ensures
        r < 10,
{
    rand::Rng::gen_range(&mut rand::thread_rng(), 0u8..10u8)
}

/// A NAVS13 with the country code 756, nine random free digits and the
/// matching check digit. It is valid by construction.
pub fn create_fake_swiss_navs13() -> (r: Nav13)
    ensures
        is_valid_navs13(r@),
{
    let mut free: [u8; 9] = [0u8; 9];
    let mut i: usize = 0;
    while i < 9
        invariant
            i <= 9,
            free@.len() == 9,
            forall|j: int| 0 <= j < 9 ==> #[trigger] free@[j] < 10,
        decreases 9 - i,
    {
        free[i] = random_digit();
        i = i + 1;
    }
    Nav13::from_free_digits(&free)
}

} // verus!
