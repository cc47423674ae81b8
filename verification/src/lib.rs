//! Media hosting core: content sniffing, safe asset naming, an in-memory
//! asset store with a read-through cache, the proxy-fetch decisions and the
//! ingestion pipeline that ties them together.

pub mod sniff;
pub mod text;
pub mod bytes;
pub mod name;
pub mod store;
pub mod cache;
pub mod cached;
pub mod config;
pub mod proxy;
pub mod error;
pub mod reply;
pub mod pipeline;
pub mod embed;
