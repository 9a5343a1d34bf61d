//! Decision core of a frugal routing proxy for chat-completion requests:
//! slot configuration, provider selection with cooldowns, quota and savings
//! bookkeeping.

pub mod clock;
pub mod codec;
pub mod config;
pub mod providers;
pub mod router;
pub mod savings;
pub mod store;
pub mod text;
