//! A self-custodial bridge wallet core: atomic submarine swaps between
//! confidential Liquid Bitcoin held in a local watch-only wallet and
//! off-chain Lightning payments, executed with a third-party swap service.
//!
//! The crate holds the swap lifecycle engine: the Send and Receive swap
//! state machines, the durable swap/payment store, the derived payment
//! view, and the decision logic that drives cooperative and unilateral
//! claim/refund resolution. Network transport, wallet signing and the
//! other I/O edges live outside the library and feed it plain values.

pub mod blob;
pub mod chain;
pub mod digest;
pub mod error;
pub mod event;
pub mod fees;
pub mod invoice;
pub mod logger;
pub mod model;
pub mod persist;
pub mod sdk;
pub mod status_stream;
pub mod utils;
pub mod wire;
