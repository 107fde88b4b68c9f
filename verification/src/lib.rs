//! Verified state machines of the P:L:I:M: chain pallets.

pub mod bridges;
pub mod channels;
pub mod common;
pub mod compliance;
pub mod crypto;
pub mod delegation;
pub mod identity;
pub mod kyc;
pub mod ledger;
pub mod licenses;
pub mod mandates;
pub mod marketplace;
pub mod mesh_relay;
pub mod oracle;
pub mod payments;
pub mod reputation;
pub mod royalties;
pub mod rwa;
pub mod scale;
pub mod table;
pub mod timestamps;
pub mod weights;
