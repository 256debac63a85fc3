//! What a worker finds when it looks at its inbox without waiting.

use vstd::prelude::*;

verus! {

/// The outcome of a non-blocking look at a worker's inbox.
#[derive(Debug)]
pub enum Inbox<T> {
    /// A new request was waiting.
    Update(T),
    /// Nothing was waiting.
    Empty,
    /// Every sender is gone: no request can arrive any more.
    Closed,
}

} // verus!
