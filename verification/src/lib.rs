//! Server discovery for QuakeWorld master servers, without the sockets.
//!
//! The crate holds the protocol: the request and the layout of the reply, the
//! address records, the steps of one datagram exchange and the bookkeeping of
//! a query that goes out to several masters. Opening sockets and waiting on
//! them is left to the caller, who reports what happened and is told what to
//! do next.

pub mod command;
pub mod lexical;
pub mod query;
pub mod query_multiple;
pub mod response;
pub mod server_address;
pub mod sorted;
pub mod tinyudp;

pub use crate::query::QueryError;
pub use crate::query_multiple::{MultiQueryResult, QueryFailure, QueryOutcome, QuerySuccess};
pub use crate::server_address::{RawServerAddress, ServerAddress};
pub use crate::tinyudp::{Options, TinyudpError};
