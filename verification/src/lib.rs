//! An inbound SMTP relay core: the per-connection protocol engine, the line
//! framer of the data phase, the MIME content decoder and the bookkeeping of
//! the delivery sinks, each with a verified contract.

pub mod codec;
pub mod config;
pub mod header;
pub mod mime;
pub mod smtp;
pub mod strategies;
pub mod text;

pub use config::{Config, StrategyConfig};
pub use smtp::session::SmtpSession;
pub use smtp::Connection;
pub use strategies::{create_strategies, ApiStrategy, EmailData};
