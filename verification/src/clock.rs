//! Points in time as tokio's clock gives them.

use vstd::prelude::*;
use tokio::time::Instant;

verus! {

/// tokio's `Instant`, carried through the library without being looked into.
#[verifier::external_type_specification]
#[verifier::external_body]
pub struct ExInstant(tokio::time::Instant);

/// What tokio's `Instant::checked_add` returns for `origin` and a duration
/// of `nanos` nanoseconds: the instant that much later, or `None` when it
/// cannot be represented.
pub uninterp spec fn instant_after_of(origin: Instant, nanos: u64) -> Option<Instant>;

/// The text that `{:?}` gives for the instant `t`.
pub uninterp spec fn instant_text(t: Instant) -> Seq<char>;

/// tokio's `Instant::checked_add`, by `nanos` nanoseconds. Its result is a
/// function of its arguments, named `instant_after_of`; when the later
/// instant can be represented is left unstated.
#[verifier::external_body]
pub fn instant_after(origin: &Instant, nanos: u64) -> (r: Option<Instant>)
    ensures
        r == instant_after_of(*origin, nanos),
{
    origin.checked_add(std::time::Duration::from_nanos(nanos))
}

/// `format!("{:?}", t)` for an instant: tokio's `Debug`, which forwards to
/// the platform's. Its result is a function of the instant, named
/// `instant_text`; the format itself is left unstated.
#[verifier::external_body]
pub fn instant_debug(t: &Instant) -> (r: String)
    ensures
        r@ == instant_text(*t),
{
    format!("{:?}", t)
}

} // verus!
