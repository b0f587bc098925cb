//! Sealed-bid, second-price auctions for scarce names.
//!
//! Every name comes up for auction in one fixed period of a schedule. A party
//! bids by recording a commitment to a hidden amount, reveals the amount and
//! a salt later while depositing it, and the highest revealed bid wins the
//! name at the second-highest revealed price. The library holds the state and
//! the rules; time, the calling party and the attached deposit are handed in
//! with every call, and the transfers a call decides on are handed back.
//!
//! - [`registrar`] holds the schedule and the four operations: bid, reveal,
//!   withdraw and claim.
//! - [`auction`] holds the bids and reveals of one name and its phase.
//! - [`ranking`] picks the highest and the second-highest reveal.
//! - [`encoding`] computes commitments and schedule slots.
//! - [`parties`] looks parties up in lists without repetition.
//! - [`laws`] proves the invariants of an auction and what two calls in a
//!   row do.
//! - [`steps`] describes runs of calls and proves what no call changes.
//! - [`custody`] accounts for every unit that is deposited, held and paid
//!   out, and proves that no run of calls pays out more than was deposited.
//!
//! Four rules are fixed here that a reader may want to know at once. Among
//! equal highest reveals the party that revealed first wins. A party reveals
//! once for a name: a second reveal is refused, so that one deposit at most
//! is taken from every bidder and none is ever lost. A claim leaves nothing
//! held: the other bidders are refunded, and what was held for the winner,
//! the price and the surplus above it, is given up. The auction of a name is
//! kept once it is settled, so that the name takes no new bids.

pub mod auction;
pub mod custody;
pub mod encoding;
pub mod laws;
pub mod parties;
pub mod ranking;
pub mod registrar;
pub mod steps;

pub use auction::{Auction, Bid, Phase, Transfer};
pub use registrar::{Call, Registrar, Settlement};
