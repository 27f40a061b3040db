//! Asking one master server for the servers it knows.
//!
//! A query is one exchange: the status request goes out, and the reply is
//! read as a list of addresses. The exchange itself is left to the caller;
//! here is what to send, how much to take back and what the reply means.

use crate::response::{
    begins_with, decode_response, encode_records, lemma_reply_holds_its_records, read_records,
    RESPONSE_HEADER,
};
use crate::server_address::{address_text, RawServerAddress, RECORD_SIZE};
use crate::sorted::views;
use crate::tinyudp::{Options, TinyudpError};
use std::time::Duration;
use vstd::prelude::*;

verus! {

/// The datagram that asks a master server for its list.
pub const STATUS_MSG: [u8; 3] = [99, 10, 0];

/// The most that is taken of a reply: 64 KiB, which no datagram exceeds.
pub const RECEIVE_BUFFER_SIZE: usize = 64 * 1024;

/// Why a query gave no list.
#[derive(Debug)]
pub enum QueryError {
    /// The exchange with the master server gave no reply.
    Transport(TinyudpError),
    /// What came back does not begin as a reply does.
    InvalidResponse,
}

impl QueryError {
    /// `text` describes this error.
    pub open spec fn described_by(&self, text: Seq<char>) -> bool {
        match self {
            QueryError::Transport(cause) => cause.described_by(text),
            QueryError::InvalidResponse => text == "Invalid response"@,
        }
    }

    /// The error in words.
    pub fn to_string(&self) -> (text: String)
        ensures
            self.described_by(text@),
    {
        match self {
            QueryError::Transport(cause) => cause.to_string(),
            QueryError::InvalidResponse => String::from_str("Invalid response"),
        }
    }
}

/// The addresses of some records as text, `host:port` each, in the same
/// order.
pub open spec fn address_texts(records: Seq<RawServerAddress>) -> Seq<Seq<char>> {
    records.map_values(|record: RawServerAddress| address_text(record.ip@, record.port))
}

/// The addresses that a datagram holds as a reply, or nothing where it is
/// none.
pub open spec fn response_addresses(bytes: Seq<u8>) -> Option<Seq<Seq<char>>> {
    match decode_response(bytes) {
        Some(records) => Some(address_texts(records)),
        None => None,
    }
}

/// What a query gives when its exchange ended with `reply`: the addresses
/// that the reply holds, or the error of the exchange as it is.
pub open spec fn query_outcome(
    reply: Result<Vec<u8>, TinyudpError>,
    result: Result<Vec<String>, QueryError>,
) -> bool {
    match reply {
        Ok(bytes) => parsed_as(bytes@, result),
        Err(cause) => result == Err::<Vec<String>, QueryError>(QueryError::Transport(cause)),
    }
}

/// `result` is what reading `bytes` as a reply gives: the addresses in the
/// order of the records, or `InvalidResponse` where the header is not there.
pub open spec fn parsed_as(bytes: Seq<u8>, result: Result<Vec<String>, QueryError>) -> bool {
    match result {
        Ok(addresses) => response_addresses(bytes) == Some(views(addresses@)),
        Err(error) => error is InvalidResponse && response_addresses(bytes) is None,
    }
}

/// What is shorter than the header, or begins otherwise, is read as
/// `InvalidResponse`, whatever follows.
pub proof fn lemma_invalid_without_header(bytes: Seq<u8>, result: Result<Vec<String>, QueryError>)
    requires
        parsed_as(bytes, result),
        !begins_with(bytes, RESPONSE_HEADER@),
    ensures
        result matches Err(QueryError::InvalidResponse),
{
}

/// A reply made of the header, any records and up to five more bytes is read
/// as the addresses of exactly those records, in their order.
pub proof fn lemma_reply_lists_its_records(
    records: Seq<RawServerAddress>,
    trailing: Seq<u8>,
    result: Result<Vec<String>, QueryError>,
)
    requires
        trailing.len() < RECORD_SIZE,
        parsed_as(RESPONSE_HEADER@ + encode_records(records) + trailing, result),
    ensures
        result matches Ok(addresses) && views(addresses@) == address_texts(records),
        address_texts(records).len() == records.len(),
{
    lemma_reply_holds_its_records(records, trailing);
}

/// Reading one datagram twice gives the same addresses.
pub proof fn lemma_parsing_is_repeatable(bytes: Seq<u8>, first: Vec<String>, second: Vec<String>)
    requires
        parsed_as(bytes, Ok(first)),
        parsed_as(bytes, Ok(second)),
    ensures
        views(first@) == views(second@),
{
}

/// The options of the exchange that a query makes.
pub fn status_options(timeout: Duration) -> (options: Options)
    ensures
        options.timeout == timeout,
        options.buffer_size == RECEIVE_BUFFER_SIZE,
{
    Options { timeout, buffer_size: RECEIVE_BUFFER_SIZE }
}

/// Reads a reply as a list of addresses, `host:port` each, in the order in
/// which the reply holds them.
pub fn parse_response(response: &[u8]) -> (result: Result<Vec<String>, QueryError>)
    ensures
        parsed_as(response@, result),
{
    match read_records(response) {
        None => Err(QueryError::InvalidResponse),
        Some(records) => {
            let mut addresses: Vec<String> = Vec::new();
            let mut i: usize = 0;
            while i < records.len()
                invariant
                    i <= records.len(),
                    views(addresses@) == address_texts(records@.take(i as int)),
                decreases records.len() - i,
            {
                addresses.push(records[i].to_string());
                assert(address_texts(records@.take(i + 1)) =~= address_texts(
                    records@.take(i as int),
                ).push(address_text(records@[i as int].ip@, records@[i as int].port)));
                i += 1;
            }
            assert(records@.take(i as int) =~= records@);
            Ok(addresses)
        },
    }
}

/// Concludes a query from how its exchange ended.
pub fn complete(reply: Result<Vec<u8>, TinyudpError>) -> (result: Result<Vec<String>, QueryError>)
    ensures
        query_outcome(reply, result),
{
    match reply {
        Ok(bytes) => parse_response(bytes.as_slice()),
        Err(cause) => Err(QueryError::Transport(cause)),
    }
}

} // verus!
