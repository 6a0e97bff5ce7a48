//! Cancellation of long listings, through `tokio_util`'s token.

use vstd::prelude::*;

use tokio_util::sync::CancellationToken;

verus! {

#[verifier::external_type_specification]
#[verifier::external_body]
pub struct ExCancellationToken(CancellationToken);

/// `CancellationToken::is_cancelled`.  Nothing is claimed of the answer:
/// another task may cancel the token at any moment.
pub assume_specification[ CancellationToken::is_cancelled ](token: &CancellationToken) -> bool;

} // verus!
