//! Trusted boundary around the cancellation controller.
//!
//! A session's cancellation controller is a shared, one-way signal read
//! by dispatch loops and raised by the registry when the session is
//! destroyed. Its state is shared between tasks, so no contract below
//! can pin what a read returns; the library's guarantees are therefore
//! stated over the loop inputs that the caller derives from it.

use vstd::prelude::*;

verus! {

/// Relies on tokio_util's `CancellationToken`: an opaque, shared,
/// irreversibly-raisable flag. The library only carries, clones, raises
/// and reads it; it never looks inside.
#[verifier::external_type_specification]
#[verifier::external_body]
pub struct ExCancellationToken(tokio_util::sync::CancellationToken);

/// Relies on `CancellationToken::new`: a fresh controller in the
/// non-cancelled state, sharing state with no other controller.
pub assume_specification[ tokio_util::sync::CancellationToken::new ]() -> (t:
    tokio_util::sync::CancellationToken)
;

/// Relies on `CancellationToken::clone`: the clone observes and raises
/// the same shared signal as the original.
pub assume_specification[ <tokio_util::sync::CancellationToken as Clone>::clone ](
    t: &tokio_util::sync::CancellationToken,
) -> (r: tokio_util::sync::CancellationToken)
;

/// Relies on `CancellationToken::cancel`: raises the shared signal,
/// irreversibly and idempotently.
pub assume_specification[ tokio_util::sync::CancellationToken::cancel ](
    t: &tokio_util::sync::CancellationToken,
)
;

/// Relies on `CancellationToken::is_cancelled`: reads the shared
/// signal. Another task may raise it at any moment, so nothing can be
/// promised of the returned value.
pub assume_specification[ tokio_util::sync::CancellationToken::is_cancelled ](
    t: &tokio_util::sync::CancellationToken,
) -> (r: bool)
;

} // verus!
