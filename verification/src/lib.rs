//! The state machine of a perpetual, round-based art auction. Artworks are
//! submitted, holders of a reference collection vote to accept them, accepted
//! artworks queue for a single live auction, bidders outbid each other with one
//! asset, and the conclusion of an auction decides the mint, the proceeds and
//! the rewards of bidders and curators.
//!
//! The library decides and moves nothing: every call takes the state and what
//! the host has looked up, and hands back the next state with the
//! instructions for the host to carry out. Each transition is stated as a
//! function on views ([`state::StateView`]), the executable code is proved to
//! compute it, and [`laws`] holds what is proved of the transitions together.

pub mod contracts;
pub mod curation;
pub mod error;
pub mod helpers;
pub mod laws;
pub mod ledger;
pub mod math;
pub mod msgs;
pub mod queue;
pub mod registry;
pub mod response;
pub mod settlement;
pub mod state;
pub mod validate;
