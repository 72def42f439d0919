//! Validity rules for application-scoped assets on a UTXO transaction model.
//!
//! An app attaches data to the outputs of transactions. The rules in
//! [`rules`] decide whether a transaction carries an app's state forward:
//! whether it is a simple transfer, whether a token's amounts are balanced,
//! whether an item's state is preserved.
//!
//! The values that the rules are about: identifiers ([`B32`], [`TxId`],
//! [`UtxoId`]), apps ([`App`]), data ([`Data`]) and transactions
//! ([`Transaction`]). Each has a canonical text or binary form, and the
//! functions that read a form accept nothing but that form.
//!
//! Every function here is verified against its contract, with two
//! exceptions that are taken on trust: the encoding of data and the reading
//! and writing of JSON, which are the work of `charms_data` and `serde_json`
//! and stand in [`codec`]; and the appending of a character to a `String`,
//! which stands in [`text`].

pub mod app;
pub mod b32;
pub mod bytes;
pub mod codec;
pub mod data;
pub mod decimal;
pub mod document;
pub mod error;
pub mod hex;
pub mod order;
pub mod rules;
pub mod text;
pub mod transaction;
pub mod txid;
pub mod utxo;

pub use app::{App, NFT, TOKEN};
pub use b32::B32;
pub use data::{Data, HostValue};
pub use error::Error;
pub use rules::{is_simple_transfer, nft_state_preserved, token_amounts_balanced};
pub use transaction::{Charm, Input, Output, Transaction};
pub use txid::TxId;
pub use utxo::UtxoId;
