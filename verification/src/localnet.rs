//! What the bot needs to know of a local test network: the report that the
//! network writes when it starts, the chains it was asked to run, and the
//! validators of a chain.

pub mod chain_config;
pub mod logs;
pub mod validators;
