//! The reply of a master server: a fixed header, then address records until
//! the datagram ends.
//!
//! Nothing in a reply says how many records it holds. A record is there as
//! long as six more bytes are; up to five bytes that are left over at the end
//! belong to no record and are passed over.

use crate::server_address::{
    decode_record, encode_record, lemma_decode_encoded, RawServerAddress, RECORD_SIZE,
};
use vstd::prelude::*;
use vstd::slice::slice_subrange;

verus! {

/// The six bytes that every reply begins with.
pub const RESPONSE_HEADER: [u8; 6] = [255, 255, 255, 255, 100, 10];

/// `bytes` begins with `prefix`.
pub open spec fn begins_with(bytes: Seq<u8>, prefix: Seq<u8>) -> bool {
    bytes.len() >= prefix.len() && bytes.take(prefix.len() as int) == prefix
}

/// The records that lie in `body`, packed one after another from its front.
pub open spec fn records_in(body: Seq<u8>) -> Seq<RawServerAddress> {
    Seq::new(
        body.len() / RECORD_SIZE as nat,
        |i: int| decode_record(body.subrange(RECORD_SIZE * i, RECORD_SIZE * i + RECORD_SIZE)),
    )
}

/// What a datagram means as a reply: the records after the header, or
/// nothing where it does not begin with the header.
pub open spec fn decode_response(bytes: Seq<u8>) -> Option<Seq<RawServerAddress>> {
    if begins_with(bytes, RESPONSE_HEADER@) {
        Some(records_in(bytes.skip(RESPONSE_HEADER@.len() as int)))
    } else {
        None
    }
}

/// Records written out one after another.
pub open spec fn encode_records(records: Seq<RawServerAddress>) -> Seq<u8>
    decreases records.len(),
{
    if records.len() == 0 {
        Seq::empty()
    } else {
        encode_records(records.drop_last()) + encode_record(records.last())
    }
}

/// Written-out records take six bytes each, and each lies at its place.
pub proof fn lemma_encoded_records(records: Seq<RawServerAddress>)
    ensures
        encode_records(records).len() == RECORD_SIZE * records.len(),
        forall|i: int|
            0 <= i < records.len() ==> #[trigger] encode_records(records).subrange(
                RECORD_SIZE * i,
                RECORD_SIZE * i + RECORD_SIZE,
            ) == encode_record(records[i]),
    decreases records.len(),
{
    if records.len() > 0 {
        let front = records.drop_last();
        lemma_encoded_records(front);
        let all = encode_records(records);
        assert forall|i: int| 0 <= i < records.len() implies #[trigger] all.subrange(
            RECORD_SIZE * i,
            RECORD_SIZE * i + RECORD_SIZE,
        ) == encode_record(records[i]) by {
            if i < front.len() {
                assert(all.subrange(RECORD_SIZE * i, RECORD_SIZE * i + RECORD_SIZE)
                    =~= encode_records(front).subrange(
                    RECORD_SIZE * i,
                    RECORD_SIZE * i + RECORD_SIZE,
                ));
            }
        }
    }
}

/// A reply made of the header, any records and up to five more bytes means
/// exactly those records, in their order.
pub proof fn lemma_reply_holds_its_records(records: Seq<RawServerAddress>, trailing: Seq<u8>)
    requires
        trailing.len() < RECORD_SIZE,
    ensures
        decode_response(RESPONSE_HEADER@ + encode_records(records) + trailing) == Some(records),
{
    let body = encode_records(records) + trailing;
    let reply = RESPONSE_HEADER@ + encode_records(records) + trailing;
    lemma_encoded_records(records);
    assert(reply.take(RESPONSE_HEADER@.len() as int) =~= RESPONSE_HEADER@);
    assert(body.len() / RECORD_SIZE as nat == records.len());
    assert forall|i: int| 0 <= i < records.len() implies #[trigger] records_in(body)[i]
        == records[i] by {
        let lies = body.subrange(RECORD_SIZE * i, RECORD_SIZE * i + RECORD_SIZE);
        assert(lies =~= encode_records(records).subrange(
            RECORD_SIZE * i,
            RECORD_SIZE * i + RECORD_SIZE,
        ));
        lemma_decode_encoded(records[i], Seq::empty());
    }
    assert(records_in(body) =~= records);
}

/// A datagram that is shorter than the header, or that begins otherwise,
/// means nothing as a reply, whatever follows.
pub proof fn lemma_reply_needs_header(bytes: Seq<u8>)
    requires
        bytes.len() < RESPONSE_HEADER@.len() || bytes.take(RESPONSE_HEADER@.len() as int)
            != RESPONSE_HEADER@,
    ensures
        decode_response(bytes) is None,
{
}

/// Tells whether `bytes` begins with `prefix`.
pub fn starts_with(bytes: &[u8], prefix: &[u8]) -> (begins: bool)
    ensures
        begins == begins_with(bytes@, prefix@),
{
    if bytes.len() < prefix.len() {
        return false;
    }
    let mut i: usize = 0;
    while i < prefix.len()
        invariant
            i <= prefix.len() <= bytes.len(),
            bytes@.take(i as int) == prefix@.take(i as int),
        decreases prefix.len() - i,
    {
        if bytes[i] != prefix[i] {
            return false;
        }
        i += 1;
    }
    assert(prefix@.take(i as int) =~= prefix@);
    true
}

/// Reads the records of a reply, or finds that the datagram is no reply.
pub fn read_records(response: &[u8]) -> (records: Option<Vec<RawServerAddress>>)
    ensures
        match records {
            Some(found) => decode_response(response@) == Some(found@),
            None => decode_response(response@) is None,
        },
{
    if !starts_with(response, RESPONSE_HEADER.as_slice()) {
        return None;
    }
    let body = slice_subrange(response, RESPONSE_HEADER.len(), response.len());
    let mut found: Vec<RawServerAddress> = Vec::new();
    let mut at: usize = 0;
    loop
        invariant_except_break
            at == RECORD_SIZE * found.len(),
            at <= body.len(),
            found@ == records_in(body@).take(found.len() as int),
            found.len() <= records_in(body@).len(),
        ensures
            found@ == records_in(body@),
        decreases body.len() - at,
    {
        match RawServerAddress::read(slice_subrange(body, at, body.len())) {
            Some(record) => {
                assert(found.len() < records_in(body@).len());
                assert(record == records_in(body@)[found.len() as int]);
                found.push(record);
                at += RECORD_SIZE;
            },
            None => {
                assert(found.len() == records_in(body@).len());
                break ;
            },
        }
    }
    Some(found)
}

} // verus!
