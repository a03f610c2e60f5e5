//! A registry of lotteries: creation, enrollment, one-shot completion and
//! read-only queries, with every operation proved to keep the registry's
//! invariants.

pub mod address;
pub mod lottery;
pub mod contract;
pub mod laws;

pub use address::Address;
pub use lottery::{Lottery, LotteryView};
pub use contract::{LotteryContract, LotteryError, RegistryView};
