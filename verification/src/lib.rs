//! Verified core of the expense tracker API: role-based access control,
//! wallet-login sessions with refresh-token rotation, the in-memory expense
//! ledger and its reports, and the decoding of on-chain instructions that the
//! hybrid commit flow checks before it records anything.

pub mod model;
pub mod primitives;
pub mod text;
pub mod authz;
pub mod onchain;
pub mod commit;
pub mod signature;
pub mod table;
pub mod state;
pub mod ledger;
pub mod session;
pub mod ranking;
pub mod reports;
pub mod program;
pub mod config;
pub mod persisted;
