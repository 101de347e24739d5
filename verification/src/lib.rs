//! A governance ledger: registered users submit proposals, every caller may
//! cast one vote on an active proposal, and the owner of a proposal may edit
//! or close it. Proposals live in a durable keyed table with a capped record
//! size; every operation states its effect on the ledger as a contract.
//!
//! - [`identity`]: the callers.
//! - [`proposal`]: a proposal, its model, and what one request does to it.
//! - [`record`]: the stored form of a proposal.
//! - [`table`]: the durable table, the one part that is trusted.
//! - [`store`]: proposals by id, on top of the table.
//! - [`ledger`]: creating, editing, closing and voting.
//! - [`laws`]: what holds over whole histories of requests.
//! - [`users`]: the user registry.

pub mod identity;
pub mod proposal;
pub mod record;
pub mod table;
pub mod store;
pub mod ledger;
pub mod laws;
pub mod users;
