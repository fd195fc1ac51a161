//! Prize-escrow state machine and payout engine for a multi-round,
//! multi-player tournament.
//!
//! Players pay a fixed entry fee into a pooled vault, compete through a
//! series of matches, and receive payouts at two levels: an overall
//! tournament ranking payout and per-match payouts, with a cut reserved for
//! an operator fee. This crate holds the phase lifecycle that gates which
//! operations are legal, the basis-point pool-splitting arithmetic, the
//! winner resolution that supports single winners and tied groups, and the
//! idempotency ledgers that prevent a match or a refund from being paid
//! twice. Value movement itself, account storage and caller authentication
//! are collaborators of the host environment: each operation here returns
//! the transfers the host must perform and the notification it must emit.

pub mod account_id;
pub mod arith;
pub mod distribution;
pub mod errors;
pub mod events;
pub mod laws;
pub mod ops;
pub mod state;
pub mod winner;
