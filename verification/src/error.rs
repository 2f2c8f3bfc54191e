//! The ways in which a call can be refused.

use vstd::prelude::*;

verus! {

/// Why a call was refused. A refused call leaves the state as it was.
#[derive(Clone, Copy, Debug, PartialEq, Eq, Structural)]
pub enum ContractError {
    /// The artwork URI does not parse as an absolute URL.
    InvalidArtworkURI,
    /// A non-holder did not attach the submission fee.
    InsufficientFunds,
    /// The registry already holds as many pending submissions as it may.
    ExceededSubmissionLimit,
    /// The attached funds are not exactly one coin of the bid denom.
    InvalidBidAsset,
    /// The bid does not exceed the highest bid so far.
    BidTooLow,
    /// The live auction's deadline has passed.
    AuctionEnded,
    /// The live auction's deadline has not been reached.
    AuctionStillLive,
    /// The caller holds no token of the reference collection, or the lookup failed.
    HolderCheckFailed,
    /// No live auction (or no such submission) exists.
    NotFound,
    /// A reply arrived under an identifier that nothing was sent with.
    InvalidReplyId { id: u64 },
}

} // verus!
