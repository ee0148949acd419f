//! The two values this core takes from outside collaborators: the random
//! slug of a new record and its creation timestamp.
use rand::RngExt;
use vstd::prelude::*;

verus! {

/// Whether `c` is one of the 62 ASCII alphanumeric characters (the slug
/// alphabet): a digit, an upper-case letter, or a lower-case letter.
pub open spec fn is_slug_char(c: char) -> bool {
    ||| (48 <= c as int && c as int <= 57)  // '0' to '9'
    ||| (65 <= c as int && c as int <= 90)  // 'A' to 'Z'
    ||| (97 <= c as int && c as int <= 122)  // 'a' to 'z'
}

/// The slug alphabet never contains the token delimiter.
pub proof fn lemma_slug_char_not_dash(c: char)
    requires
        is_slug_char(c),
    ensures
        c != '-',
{
}

/// Relies on rand's `Alphanumeric` distribution: every sample is one of the
/// 62 ASCII alphanumeric characters, and sixteen are taken.
#[verifier::external_body]
pub(crate) fn gen_slug() -> (r: String)
    ensures
        r@.len() == 16,
        forall|i: int| 0 <= i < r@.len() ==> is_slug_char(#[trigger] r@[i]),
{
    rand::rng().sample_iter(rand::distr::Alphanumeric).take(16).map(char::from).collect()
}

/// Relies on chrono's local clock: the current time as seconds since the
/// epoch, with nothing promised of the value.
#[verifier::external_body]
pub(crate) fn now_timestamp() -> i64 {
    chrono::Local::now().timestamp()
}

} // verus!
