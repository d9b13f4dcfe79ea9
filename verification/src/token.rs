//! Random alphanumeric names: correlation tokens and folder ids.

use rand::distributions::Alphanumeric;
use rand::Rng;
use vstd::prelude::*;

verus! {

/// The characters a random name is drawn from.
pub open spec fn is_alphanumeric(c: char) -> bool {
    ('A' <= c && c <= 'Z') || ('a' <= c && c <= 'z') || ('0' <= c && c <= '9')
}

/// A text of `len` characters, each a letter or a digit of ASCII.
pub open spec fn is_random_name(s: Seq<char>, len: int) -> bool {
    s.len() == len && forall|i: int| 0 <= i < s.len() ==> is_alphanumeric(#[trigger] s[i])
}

/// Draws `len` samples of `rand`'s `Alphanumeric` distribution from the
/// thread's generator. Which characters come is left open: the result has
/// `len` of them, each a letter or a digit of ASCII.
#[verifier::external_body]
pub(crate) fn random_name(len: usize) -> (r: String)
    ensures
        is_random_name(r@, len as int),
{
    rand::thread_rng().sample_iter(&Alphanumeric).take(len).map(char::from).collect::<String>()
}

} // verus!
