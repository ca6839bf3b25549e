//! A Quote of the Day (RFC 865) library: indexing of quote files, weighted
//! selection of quotes, and the decisions of the serving loop.

mod args;
mod corpus;
mod quotes;
mod server;

pub use args::{Cli, LogLevel};
pub use corpus::{CorpusError, Quotes};
pub use quotes::{
    category_of_path, index_content, rot13, rot13_byte, FileEncoding, QuoteCategory, QuoteFile,
    QuoteIndex,
};
pub use server::{
    broker_step, serve_step, udp_step, AllowedCategories, BrokerAction, BrokerEvent, ServeAction,
    ServeEvent, UdpStep, UDP_PAYLOAD_LIMIT,
};
