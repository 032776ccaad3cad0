//! Ledger and escrow primitives for a two-party shared-goal protocol.
//!
//! Partners register a mutual link, a goal with a reward is created for two
//! partners, both approve it once its time lock has passed, and the reward is
//! then minted to each of them exactly once by a token ledger that only its
//! issuer may drive.
//!
//! Every component holds its records itself and is handed, with each call,
//! the identity that the caller has been authenticated as. An operation
//! either does all of its work or refuses with an [`error::Error`] and
//! changes nothing. What is to be announced to the outside, an operation
//! says in its result.
//!
//! - [`couple_sync`]: the partner link registry.
//! - [`sync_token`]: the token ledger with an issuer and a total supply;
//!   [`open_ledger`]: the ledger without either.
//! - [`goals_vault`]: the escrow of goals that two partners approve, and
//!   the minting port it pays through; [`ledger_port`]: the token ledger
//!   as that port.
//! - [`personal_goals`]: goals that a user completes alone;
//!   [`goal_board`]: goals with ids given out in sequence and one approver.
//! - [`address`], [`address_map`], [`balances`]: identities, tables keyed by
//!   them, and the arithmetic of tables of balances.

pub mod address;
pub mod address_map;
pub mod balances;
pub mod couple_sync;
pub mod error;
pub mod goal_board;
pub mod goals_vault;
pub mod ledger_port;
pub mod open_ledger;
pub mod personal_goals;
pub mod sync_token;
