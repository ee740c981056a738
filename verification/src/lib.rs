//! Indexes the accounts of Solana snapshots into SQLite tables.
//!
//! A [`worker::Worker`] takes accounts in and says what is to be done on the database: token
//! accounts, mints with a supply of one, and token metadata become rows, which are inserted
//! in batches. [`index`] says what that means, [`laws`] and [`run_laws`] what holds of it as a
//! whole, [`account_laws`] which accounts become rows, and [`row_laws`] what the rows tell.
//! [`wire`], [`metadata_wire`] and [`token_wire`] say how accounts are written as bytes, and
//! that they are read as what was written.
pub mod account;
pub mod account_laws;
pub mod action;
pub mod base58;
pub mod borsh_fields;
pub mod bytes;
pub mod database;
pub mod decimal;
pub mod error;
pub mod index;
pub mod json;
pub mod laws;
pub mod metadata_wire;
pub mod mpl_metadata;
pub mod progress;
pub mod row_laws;
pub mod rows;
pub mod run_laws;
pub mod sql;
pub mod temp_file;
pub mod token;
pub mod token_wire;
pub mod value;
pub mod wire;
pub mod worker;
