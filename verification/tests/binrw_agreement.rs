use binrw::io::Cursor;
use binrw::BinRead;
use masterstat::query::parse_response;
use masterstat::response::read_records;
use masterstat::server_address::RawServerAddress;

fn samples() -> Vec<Vec<u8>> {
    let mut samples = Vec::new();
    let mut seed: u32 = 7;
    for length in 0..40 {
        let mut bytes = Vec::new();
        for _ in 0..length {
            seed = seed.wrapping_mul(1664525).wrapping_add(1013904223);
            bytes.push((seed >> 24) as u8);
        }
        samples.push(bytes);
    }
    samples
}

#[test]
fn one_record_reads_as_binrw_reads_it() {
    for bytes in samples() {
        let theirs = <([u8; 4], u16)>::read_be(&mut Cursor::new(&bytes)).ok();
        let ours = RawServerAddress::read(&bytes).map(|record| (record.ip, record.port));
        assert_eq!(ours, theirs);
    }
}

#[test]
fn a_body_reads_as_binrw_reads_it_until_it_fails() {
    for body in samples() {
        let mut reply = vec![255, 255, 255, 255, 100, 10];
        reply.extend_from_slice(&body);

        let mut theirs = Vec::new();
        let mut cursor = Cursor::new(&body);
        while let Ok((ip, port)) = <([u8; 4], u16)>::read_be(&mut cursor) {
            theirs.push(RawServerAddress { ip, port });
        }

        assert_eq!(read_records(&reply).unwrap(), theirs);
        let texts: Vec<String> = theirs.iter().map(|record| record.to_string()).collect();
        assert_eq!(parse_response(&reply).unwrap(), texts);
    }
}
