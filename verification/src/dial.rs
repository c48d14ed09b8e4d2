//! The outcome of one dial.

use crate::error::{timeout_message, Error, ErrorView};
use vstd::prelude::*;

verus! {

/// Settles the outcome of a dial to the node at `address`.
///
/// `outcome` is what the connection manager answered, or `None` where the
/// time allowed for the dial ran out first. The manager's answer stands as
/// it is; a dial that ran out of time fails with `Error::Timeout`.
pub fn new_connection<T>(address: &str, outcome: Option<Result<T, Error>>) -> (dialed: Result<
    T,
    Error,
>)
    ensures
        outcome matches Some(answer) ==> dialed == answer,
        outcome is None ==> (dialed matches Err(error) && error@ == ErrorView::Timeout(
            timeout_message(address@),
        )),
{
    match outcome {
        Some(answer) => answer,
        None => Err(Error::timeout(address)),
    }
}

} // verus!
