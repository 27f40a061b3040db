//! Address records as they travel on the wire and as callers see them.

use crate::lexical::{
    lemma_text_lt_irreflexive, lemma_text_lt_total, lemma_text_lt_transitive, text_before,
    text_lt,
};
use crate::sorted::Ordered;
use std::cmp::Ordering;
use vstd::prelude::*;
use vstd::std_specs::convert::FromSpecImpl;

verus! {

/// Number of bytes one address record takes on the wire.
pub const RECORD_SIZE: usize = 6;

/// One address record in wire form: four octets in network order, then the
/// port.
#[derive(Debug, Clone, Copy)]
pub struct RawServerAddress {
    pub ip: [u8; 4],
    pub port: u16,
}

/// The address of a game server: the host in dotted decimal form, and the
/// port.
#[derive(Debug, Ord)]
pub struct ServerAddress {
    pub ip: String,
    pub port: u16,
}

/// What a `ServerAddress` stands for.
pub struct AddressView {
    pub ip: Seq<char>,
    pub port: u16,
}

/// The record that six bytes stand for: the octets as they come, and the
/// port with its high byte first.
pub open spec fn decode_record(bytes: Seq<u8>) -> RawServerAddress {
    RawServerAddress {
        ip: [bytes[0], bytes[1], bytes[2], bytes[3]],
        port: (bytes[4] as int * 256 + bytes[5] as int) as u16,
    }
}

/// The six bytes that stand for a record.
pub open spec fn encode_record(record: RawServerAddress) -> Seq<u8> {
    seq![
        record.ip[0],
        record.ip[1],
        record.ip[2],
        record.ip[3],
        (record.port / 256) as u8,
        (record.port % 256) as u8,
    ]
}

/// The character that stands for a digit.
pub open spec fn digit_char(digit: int) -> char {
    if digit == 0 {
        '0'
    } else if digit == 1 {
        '1'
    } else if digit == 2 {
        '2'
    } else if digit == 3 {
        '3'
    } else if digit == 4 {
        '4'
    } else if digit == 5 {
        '5'
    } else if digit == 6 {
        '6'
    } else if digit == 7 {
        '7'
    } else if digit == 8 {
        '8'
    } else {
        '9'
    }
}

/// A number in decimal, without sign and without leading zeros.
pub open spec fn decimal(n: nat) -> Seq<char>
    decreases n,
{
    if n < 10 {
        seq![digit_char(n as int)]
    } else {
        decimal(n / 10).push(digit_char((n % 10) as int))
    }
}

/// Four octets in dotted decimal form, as in `192.168.1.1`.
pub open spec fn dotted_quad(ip: Seq<u8>) -> Seq<char> {
    decimal(ip[0] as nat) + seq!['.'] + decimal(ip[1] as nat) + seq!['.'] + decimal(ip[2] as nat)
        + seq!['.'] + decimal(ip[3] as nat)
}

/// Host and port in one text, as in `192.168.1.1:27500`.
pub open spec fn address_text(ip: Seq<u8>, port: u16) -> Seq<char> {
    dotted_quad(ip) + seq![':'] + decimal(port as nat)
}

/// `a` comes strictly before `b`: by the host as text and, where the hosts
/// are the same text, by the port as a number.
pub open spec fn address_lt(a: AddressView, b: AddressView) -> bool {
    text_lt(a.ip, b.ip) || (a.ip == b.ip && a.port < b.port)
}

/// Decoding gives back the record whose encoding is at the front.
pub proof fn lemma_decode_encoded(record: RawServerAddress, rest: Seq<u8>)
    ensures
        encode_record(record).len() == RECORD_SIZE,
        decode_record(encode_record(record) + rest) == record,
{
    let bytes = encode_record(record) + rest;
    assert(decode_record(bytes).ip =~= record.ip);
}

fn digit_text(digit: u16) -> (text: &'static str)
    requires
        digit < 10,
    ensures
        text@ == seq![digit_char(digit as int)],
{
    proof {
        reveal_strlit("0");
        reveal_strlit("1");
        reveal_strlit("2");
        reveal_strlit("3");
        reveal_strlit("4");
        reveal_strlit("5");
        reveal_strlit("6");
        reveal_strlit("7");
        reveal_strlit("8");
        reveal_strlit("9");
    }
    let text = match digit {
        0 => "0",
        1 => "1",
        2 => "2",
        3 => "3",
        4 => "4",
        5 => "5",
        6 => "6",
        7 => "7",
        8 => "8",
        _ => "9",
    };
    text
}

fn append_decimal(text: &mut String, n: u16)
    ensures
        final(text)@ == old(text)@ + decimal(n as nat),
    decreases n,
{
    if n >= 10 {
        append_decimal(text, n / 10);
    }
    text.append(digit_text(n % 10));
}

fn append_mark(text: &mut String, mark: char)
    requires
        mark == '.' || mark == ':',
    ensures
        final(text)@ == old(text)@ + seq![mark],
{
    proof {
        reveal_strlit(".");
        reveal_strlit(":");
    }
    if mark == '.' {
        text.append(".");
    } else {
        text.append(":");
    }
}

fn dotted_quad_text(ip: &[u8; 4]) -> (text: String)
    ensures
        text@ == dotted_quad(ip@),
{
    let mut text = String::new();
    append_decimal(&mut text, ip[0] as u16);
    append_mark(&mut text, '.');
    append_decimal(&mut text, ip[1] as u16);
    append_mark(&mut text, '.');
    append_decimal(&mut text, ip[2] as u16);
    append_mark(&mut text, '.');
    append_decimal(&mut text, ip[3] as u16);
    text
}

impl RawServerAddress {
    /// Decodes the record at the front of `bytes`. There is one whenever six
    /// bytes are there; what follows them is not looked at.
    pub fn read(bytes: &[u8]) -> (record: Option<RawServerAddress>)
        ensures
            record == if bytes@.len() >= RECORD_SIZE {
                Some(decode_record(bytes@))
            } else {
                None
            },
    {
        if bytes.len() < RECORD_SIZE {
            return None;
        }
        let ip: [u8; 4] = [bytes[0], bytes[1], bytes[2], bytes[3]];
        let port: u16 = (bytes[4] as u16) * 256 + (bytes[5] as u16);
        Some(RawServerAddress { ip, port })
    }

    /// The address as text: `host:port`, the host in dotted decimal form.
    pub fn to_string(&self) -> (text: String)
        ensures
            text@ == address_text(self.ip@, self.port),
    {
        let mut text = dotted_quad_text(&self.ip);
        append_mark(&mut text, ':');
        append_decimal(&mut text, self.port);
        text
    }
}

impl PartialEq for RawServerAddress {
    fn eq(&self, other: &Self) -> (equal: bool) {
        let same_ip = self.ip[0] == other.ip[0] && self.ip[1] == other.ip[1] && self.ip[2]
            == other.ip[2] && self.ip[3] == other.ip[3];
        proof {
            if same_ip {
                assert(self.ip =~= other.ip);
            }
        }
        same_ip && self.port == other.port
    }
}

impl Eq for RawServerAddress {

}

impl vstd::std_specs::cmp::PartialEqSpecImpl for RawServerAddress {
    open spec fn obeys_eq_spec() -> bool {
        true
    }

    open spec fn eq_spec(&self, other: &Self) -> bool {
        *self == *other
    }
}

impl View for ServerAddress {
    type V = AddressView;

    open spec fn view(&self) -> AddressView {
        AddressView { ip: self.ip@, port: self.port }
    }
}

impl Clone for ServerAddress {
    fn clone(&self) -> (copy: Self)
        ensures
            copy@ == self@,
    {
        ServerAddress { ip: self.ip.clone(), port: self.port }
    }
}

impl PartialEq for ServerAddress {
    fn eq(&self, other: &Self) -> (equal: bool) {
        self.ip == other.ip && self.port == other.port
    }
}

impl Eq for ServerAddress {

}

impl vstd::std_specs::cmp::PartialEqSpecImpl for ServerAddress {
    open spec fn obeys_eq_spec() -> bool {
        true
    }

    open spec fn eq_spec(&self, other: &Self) -> bool {
        self@ == other@
    }
}

impl PartialOrd for ServerAddress {
    fn partial_cmp(&self, other: &Self) -> (order: Option<Ordering>) {
        if self.precedes(other) {
            Some(Ordering::Less)
        } else if other.precedes(self) {
            Some(Ordering::Greater)
        } else {
            Some(Ordering::Equal)
        }
    }
}

impl vstd::std_specs::cmp::PartialOrdSpecImpl for ServerAddress {
    open spec fn obeys_partial_cmp_spec() -> bool {
        true
    }

    open spec fn partial_cmp_spec(&self, other: &Self) -> Option<Ordering> {
        if address_lt(self@, other@) {
            Some(Ordering::Less)
        } else if address_lt(other@, self@) {
            Some(Ordering::Greater)
        } else {
            Some(Ordering::Equal)
        }
    }
}

impl From<RawServerAddress> for ServerAddress {
    /// The address that a record stands for: the host written out in dotted
    /// decimal form, the port as it is.
    fn from(raw: RawServerAddress) -> (address: ServerAddress)
        ensures
            address@ == (AddressView { ip: dotted_quad(raw.ip@), port: raw.port }),
    {
        ServerAddress { ip: dotted_quad_text(&raw.ip), port: raw.port }
    }
}

impl FromSpecImpl<RawServerAddress> for ServerAddress {
    /// Two addresses that read the same need not be one value, so the
    /// conversion is described by what its result stands for.
    open spec fn obeys_from_spec() -> bool {
        false
    }

    open spec fn from_spec(raw: RawServerAddress) -> ServerAddress {
        choose|address: ServerAddress|
            #[trigger] address@ == (AddressView { ip: dotted_quad(raw.ip@), port: raw.port })
    }
}

impl Ordered for ServerAddress {
    open spec fn lt(a: AddressView, b: AddressView) -> bool {
        address_lt(a, b)
    }

    proof fn lemma_strict_total_order(a: AddressView, b: AddressView, c: AddressView) {
        lemma_text_lt_irreflexive(a.ip);
        lemma_text_lt_total(a.ip, b.ip);
        if text_lt(a.ip, b.ip) && text_lt(b.ip, c.ip) {
            lemma_text_lt_transitive(a.ip, b.ip, c.ip);
        }
    }

    fn precedes(&self, other: &Self) -> (before: bool) {
        if text_before(self.ip.as_str(), other.ip.as_str()) {
            true
        } else {
            self.ip == other.ip && self.port < other.port
        }
    }

    fn duplicate(&self) -> (copy: Self) {
        self.clone()
    }
}

} // verus!
