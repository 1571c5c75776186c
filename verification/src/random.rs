//! Random text.

use rand::Rng;
use vstd::prelude::*;

verus! {

/// The length of a random text where none is asked for.
pub const DEFAULT_LENGTH: usize = 16;

/// An ASCII letter or digit.
pub open spec fn is_alphanumeric(c: char) -> bool {
    ||| 'A' <= c <= 'Z'
    ||| 'a' <= c <= 'z'
    ||| '0' <= c <= '9'
}

/// Whether `s` is made of `length` ASCII letters and digits.
pub open spec fn is_random_text(s: Seq<char>, length: nat) -> bool {
    &&& s.len() == length
    &&& forall|i: int| 0 <= i < s.len() ==> is_alphanumeric(#[trigger] s[i])
}

/// `rand::Rng::sample_iter` on the generator of `rand::thread_rng`, with the
/// distribution `rand::distributions::Alphanumeric`: `length` samples, each
/// an ASCII letter or digit. Which ones is left open.
#[verifier::external_body]
fn sample_alphanumeric(length: usize) -> (s: String)
    ensures
        is_random_text(s@, length as nat),
{
    rand::thread_rng().sample_iter(&rand::distributions::Alphanumeric).take(length).map(
        char::from,
    ).collect()
}

/// A random text of ASCII letters and digits, `rand_length` characters long,
/// or 16 where no length is given.
pub fn get_random_value(rand_length: Option<usize>) -> (s: String)
    ensures
        is_random_text(
            s@,
            match rand_length {
                Some(length) => length as nat,
                None => DEFAULT_LENGTH as nat,
            },
        ),
{
    match rand_length {
        Some(length) => sample_alphanumeric(length),
        None => sample_alphanumeric(DEFAULT_LENGTH),
    }
}

} // verus!
