//! Verified core of a liquidity-facility protocol: LP vaults with time-locked,
//! FIFO-ordered withdrawals, a credit manager for PSP drawdowns and their fees,
//! a yield distributor and yield reserve, and a pool factory.

pub mod math;
pub mod types;
pub mod shares;
pub mod vault;
pub mod credit_manager;
pub mod yield_distributor;
pub mod psp_pool;
pub mod yield_reserve;
pub mod pool_factory;
pub mod token_vault;
pub mod token_factory;
pub mod mock_vault;
