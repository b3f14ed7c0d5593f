//! The error taxonomy. Every error aborts the whole call: no operation
//! commits a partial state change, and no recovery happens inside the core.

use vstd::prelude::*;

verus! {

#[derive(Clone, Copy, Debug, PartialEq, Eq, Structural)]
pub enum ContractError {
    /// The caller is not the principal the operation requires.
    Unauthorized,
    /// The collection has no registered configuration (or a registration
    /// collides with one already present).
    UnknownCollection,
    /// The denomination is not a registered native denomination.
    UnknownDenom,
    /// The token contract is unregistered, or registered under another
    /// denomination than the one presented.
    TokenDenomMismatch,
    /// No ask is stored for the item.
    NoSuchAsk,
    /// The ask's deadline has passed.
    AskExpired,
    /// The bid's deadline has passed.
    BidExpired,
    /// The item already carries as many open bids as the configured limit.
    BidCountExceeded,
    /// The presented amount or denomination does not match what is owed.
    NotEnoughFunds,
    /// Payment was attached to a call that accepts none.
    TooMuchFunds,
    /// The royalty members' portions do not sum to exactly one.
    WrongPortionError,
    /// The request is structurally inconsistent, e.g. a token id supplied
    /// where none is expected.
    WrongConfig,
    /// A record the operation depends on is not stored.
    NoData,
}

} // verus!
