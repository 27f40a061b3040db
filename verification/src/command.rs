//! The same queries with addresses as values: host and port apart, ordered by
//! host and then by port.

use crate::query::QueryError;
use crate::response::{
    begins_with, decode_response, encode_records, lemma_reply_holds_its_records, read_records,
    RESPONSE_HEADER,
};
use crate::server_address::{
    dotted_quad, AddressView, RawServerAddress, ServerAddress, RECORD_SIZE,
};
use crate::sorted::{merge_unique, same_values, sorted_unique, strictly_ascending, views};
use crate::tinyudp::TinyudpError;
use vstd::prelude::*;

verus! {

/// The addresses that some records stand for, in the same order.
pub open spec fn addresses_of(records: Seq<RawServerAddress>) -> Seq<AddressView> {
    records.map_values(
        |record: RawServerAddress|
            AddressView { ip: dotted_quad(record.ip@), port: record.port },
    )
}

/// The addresses that a datagram holds as a reply, or nothing where it is
/// none.
pub open spec fn response_servers(bytes: Seq<u8>) -> Option<Seq<AddressView>> {
    match decode_response(bytes) {
        Some(records) => Some(addresses_of(records)),
        None => None,
    }
}

/// `result` is what reading `bytes` as a reply gives: the addresses in the
/// order of the records, or `InvalidResponse` where the header is not there.
pub open spec fn parsed_as(bytes: Seq<u8>, result: Result<Vec<ServerAddress>, QueryError>) -> bool {
    match result {
        Ok(servers) => response_servers(bytes) == Some(views(servers@)),
        Err(error) => error is InvalidResponse && response_servers(bytes) is None,
    }
}

/// What a query gives when its exchange ended with `reply`: the addresses
/// that the reply holds, or the error of the exchange as it is.
pub open spec fn query_outcome(
    reply: Result<Vec<u8>, TinyudpError>,
    result: Result<Vec<ServerAddress>, QueryError>,
) -> bool {
    match reply {
        Ok(bytes) => parsed_as(bytes@, result),
        Err(cause) => result == Err::<Vec<ServerAddress>, QueryError>(
            QueryError::Transport(cause),
        ),
    }
}

/// What a list adds to the addresses found: itself, or nothing where the
/// query failed.
pub open spec fn found_in(result: Result<Vec<ServerAddress>, QueryError>) -> Seq<AddressView> {
    match result {
        Ok(servers) => views(servers@),
        Err(_) => Seq::empty(),
    }
}

/// All addresses that the queries which succeeded gave, one query after
/// another.
pub open spec fn found(results: Seq<Result<Vec<ServerAddress>, QueryError>>) -> Seq<AddressView> {
    results.map_values(|result: Result<Vec<ServerAddress>, QueryError>| found_in(result)).flatten()
}

/// What is shorter than the header, or begins otherwise, is read as
/// `InvalidResponse`, whatever follows.
pub proof fn lemma_invalid_without_header(
    bytes: Seq<u8>,
    result: Result<Vec<ServerAddress>, QueryError>,
)
    requires
        parsed_as(bytes, result),
        !begins_with(bytes, RESPONSE_HEADER@),
    ensures
        result matches Err(QueryError::InvalidResponse),
{
}

/// A reply made of the header, any records and up to five more bytes is read
/// as the addresses of exactly those records, in their order.
pub proof fn lemma_reply_lists_its_records(
    records: Seq<RawServerAddress>,
    trailing: Seq<u8>,
    result: Result<Vec<ServerAddress>, QueryError>,
)
    requires
        trailing.len() < RECORD_SIZE,
        parsed_as(RESPONSE_HEADER@ + encode_records(records) + trailing, result),
    ensures
        result matches Ok(servers) && views(servers@) == addresses_of(records),
        addresses_of(records).len() == records.len(),
{
    lemma_reply_holds_its_records(records, trailing);
}

/// Reading one datagram twice gives the same addresses.
pub proof fn lemma_parsing_is_repeatable(
    bytes: Seq<u8>,
    first: Vec<ServerAddress>,
    second: Vec<ServerAddress>,
)
    requires
        parsed_as(bytes, Ok(first)),
        parsed_as(bytes, Ok(second)),
    ensures
        views(first@) == views(second@),
{
}

/// Reads a reply as a list of addresses, in the order in which the reply
/// holds them.
pub fn parse_servers_response(response: &[u8]) -> (result: Result<Vec<ServerAddress>, QueryError>)
    ensures
        parsed_as(response@, result),
{
    match read_records(response) {
        None => Err(QueryError::InvalidResponse),
        Some(records) => {
            let mut servers: Vec<ServerAddress> = Vec::new();
            let mut i: usize = 0;
            while i < records.len()
                invariant
                    i <= records.len(),
                    views(servers@) == addresses_of(records@.take(i as int)),
                decreases records.len() - i,
            {
                let ghost next = AddressView {
                    ip: dotted_quad(records@[i as int].ip@),
                    port: records@[i as int].port,
                };
                servers.push(ServerAddress::from(records[i]));
                assert(addresses_of(records@.take(i + 1)) =~= addresses_of(
                    records@.take(i as int),
                ).push(next));
                i += 1;
            }
            assert(records@.take(i as int) =~= records@);
            Ok(servers)
        },
    }
}

/// Concludes a query from how its exchange ended.
pub fn complete(reply: Result<Vec<u8>, TinyudpError>) -> (result: Result<
    Vec<ServerAddress>,
    QueryError,
>)
    ensures
        query_outcome(reply, result),
{
    match reply {
        Ok(bytes) => parse_servers_response(bytes.as_slice()),
        Err(cause) => Err(QueryError::Transport(cause)),
    }
}

/// The addresses in ascending order, each once.
pub fn sorted_and_unique(server_addresses: &[ServerAddress]) -> (servers: Vec<ServerAddress>)
    ensures
        strictly_ascending::<ServerAddress>(views(servers@)),
        same_values(views(servers@), views(server_addresses@)),
{
    sorted_unique(server_addresses)
}

/// What several master servers know together: every address that a query
/// which succeeded gave, once, in ascending order. Queries that failed add
/// nothing.
pub fn merge(results: &[Result<Vec<ServerAddress>, QueryError>]) -> (servers: Vec<ServerAddress>)
    ensures
        strictly_ascending::<ServerAddress>(views(servers@)),
        same_values(views(servers@), found(results@)),
{
    let mut servers: Vec<ServerAddress> = Vec::new();
    let ghost lists = results@.map_values(
        |result: Result<Vec<ServerAddress>, QueryError>| found_in(result),
    );
    let mut i: usize = 0;
    while i < results.len()
        invariant
            i <= results.len(),
            lists == results@.map_values(
                |result: Result<Vec<ServerAddress>, QueryError>| found_in(result),
            ),
            strictly_ascending::<ServerAddress>(views(servers@)),
            same_values(views(servers@), lists.take(i as int).flatten()),
        decreases results.len() - i,
    {
        let ghost before = views(servers@);
        let ghost seen = lists.take(i as int);
        proof {
            assert(lists.take(i + 1) =~= seen.push(found_in(results@[i as int])));
            seen.lemma_flatten_push(found_in(results@[i as int]));
        }
        match &results[i] {
            Ok(given) => {
                merge_unique(&mut servers, given.as_slice());
                proof {
                    assert forall|v: AddressView| views(servers@).contains(v) <==> lists.take(
                        i + 1,
                    ).flatten().contains(v) by {
                        vstd::seq_lib::lemma_seq_concat_contains_all_elements(
                            before,
                            views(given@),
                            v,
                        );
                        vstd::seq_lib::lemma_seq_concat_contains_all_elements(
                            seen.flatten(),
                            views(given@),
                            v,
                        );
                    }
                }
            },
            Err(_) => {},
        }
        i += 1;
    }
    assert(lists.take(i as int) =~= lists);
    servers
}

} // verus!
