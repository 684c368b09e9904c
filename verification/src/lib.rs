//! Verified core of a stratum-style mining pool and its proving device:
//! client bookkeeping of the RPC endpoint, request routing between the
//! services, share accounting, database settings, and the device's retry,
//! proving-round and rate-window logic.

pub mod decimal;
pub mod json;
pub mod node;
pub mod rpc;
pub mod shares;
pub mod device;
pub mod pool;
pub mod prover;
