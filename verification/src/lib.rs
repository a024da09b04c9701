//! A verified instruction processor for a ledger execution host.
//!
//! Each call supplies an ordered list of accounts and a raw byte payload.
//! The processor either splits a payload-specified amount evenly across up
//! to ten payee accounts debited from a payer, or increments a persisted
//! greeting counter while moving a fixed fee from a payer to a receiver.
//! All decisions are pure functions over plain values; the hosting
//! environment performs the actual balance mutations and is modelled by
//! the `ledger` module.

pub mod account;
pub mod codec;
pub mod error;
pub mod greeting;
pub mod ledger;
pub mod split;
pub mod transfer;
