use vstd::prelude::*;
use vstd::string::StringExecFns;
use crate::text::{decimal, to_decimal};

verus! {

/// The name of the temporary file with the number `number`.
pub open spec fn tmp_name(number: u64) -> Seq<char> {
    decimal(number as nat) + ".tmp"@
}

/// The name of the temporary file with the number `number`: the number in
/// decimal digits, and `.tmp`.
pub fn tmp_name_of(number: u64) -> (name: String)
    ensures
        name@ == tmp_name(number),
{
    let mut name = to_decimal(number);
    name.append(".tmp");
    name
}

/// A name for the temporary file of a transform, with a number drawn at
/// random. The file stands beside the target until the output is complete.
pub fn tmp_file_name() -> (name: String)
    ensures
        exists|number: u64| name@ == #[trigger] tmp_name(number),
{
    tmp_name_of(random_u64())
}

/// `rand::RngCore::next_u64` on `rand::thread_rng()`: a number drawn at
/// random. Nothing is claimed of it.
#[verifier::external_body]
fn random_u64() -> (number: u64) {
    rand::RngCore::next_u64(&mut rand::thread_rng())
}

} // verus!
