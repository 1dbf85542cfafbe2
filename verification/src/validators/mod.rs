//! Normalisation and matching of networks, addresses, allowances and slippage.
pub mod address;
pub mod allowance;
pub mod network;
pub mod slippage;
