use masterstat::server_address::{RawServerAddress, ServerAddress};

#[test]
fn test_read() {
    assert_eq!(
        RawServerAddress::read(&[192, 168, 1, 1, 117, 48]).unwrap(),
        RawServerAddress {
            ip: [192, 168, 1, 1],
            port: 30000
        }
    );
}

#[test]
fn test_display() {
    let address = RawServerAddress {
        ip: [192, 168, 1, 1],
        port: 30000,
    };
    assert_eq!(address.to_string(), "192.168.1.1:30000".to_string());
}

#[test]
fn read_needs_six_bytes() {
    assert_eq!(RawServerAddress::read(&[]), None);
    assert_eq!(RawServerAddress::read(&[1]), None);
    assert_eq!(RawServerAddress::read(&[1, 2, 3, 4, 5]), None);
    assert!(RawServerAddress::read(&[1, 2, 3, 4, 5, 6]).is_some());
}

#[test]
fn read_ignores_what_follows() {
    assert_eq!(
        RawServerAddress::read(&[10, 0, 0, 7, 0x6b, 0x6c, 99, 98, 97]).unwrap(),
        RawServerAddress {
            ip: [10, 0, 0, 7],
            port: 27500
        }
    );
}

#[test]
fn port_has_its_high_byte_first() {
    assert_eq!(RawServerAddress::read(&[0, 0, 0, 0, 0, 1]).unwrap().port, 1);
    assert_eq!(RawServerAddress::read(&[0, 0, 0, 0, 1, 0]).unwrap().port, 256);
    assert_eq!(RawServerAddress::read(&[0, 0, 0, 0, 0x12, 0x34]).unwrap().port, 0x1234);
    assert_eq!(RawServerAddress::read(&[0, 0, 0, 0, 255, 255]).unwrap().port, 65535);
}

#[test]
fn octets_keep_their_order() {
    let record = RawServerAddress::read(&[1, 2, 3, 4, 0, 0]).unwrap();
    assert_eq!(record.ip, [1, 2, 3, 4]);
}

#[test]
fn text_of_the_smallest_and_largest_address() {
    let smallest = RawServerAddress {
        ip: [0, 0, 0, 0],
        port: 0,
    };
    assert_eq!(smallest.to_string(), "0.0.0.0:0");
    let largest = RawServerAddress {
        ip: [255, 255, 255, 255],
        port: 65535,
    };
    assert_eq!(largest.to_string(), "255.255.255.255:65535");
}

#[test]
fn text_has_no_leading_zeros() {
    let address = RawServerAddress {
        ip: [9, 10, 99, 100],
        port: 1000,
    };
    assert_eq!(address.to_string(), "9.10.99.100:1000");
    let address = RawServerAddress {
        ip: [101, 110, 200, 7],
        port: 10,
    };
    assert_eq!(address.to_string(), "101.110.200.7:10");
}

#[test]
fn text_agrees_with_the_formatter_for_every_octet_and_port() {
    for octet in 0..=255u8 {
        let address = RawServerAddress {
            ip: [octet, 255 - octet, octet, 0],
            port: octet as u16 * 257,
        };
        assert_eq!(
            address.to_string(),
            format!("{}.{}.{}.0:{}", octet, 255 - octet, octet, octet as u16 * 257)
        );
    }
    for port in 0..=65535u16 {
        let address = RawServerAddress {
            ip: [1, 2, 3, 4],
            port,
        };
        assert_eq!(address.to_string(), format!("1.2.3.4:{}", port));
    }
}

#[test]
fn raw_addresses_are_equal_field_by_field() {
    let a = RawServerAddress {
        ip: [1, 2, 3, 4],
        port: 5,
    };
    assert_eq!(a, a.clone());
    assert_ne!(
        a,
        RawServerAddress {
            ip: [1, 2, 3, 4],
            port: 6
        }
    );
    for i in 0..4 {
        let mut other = a;
        other.ip[i] = 9;
        assert_ne!(a, other);
    }
}

#[test]
fn address_from_a_record() {
    let address = ServerAddress::from(RawServerAddress {
        ip: [192, 168, 1, 1],
        port: 30000,
    });
    assert_eq!(address.ip, "192.168.1.1");
    assert_eq!(address.port, 30000);
    let address: ServerAddress = RawServerAddress {
        ip: [0, 10, 200, 255],
        port: 0,
    }
    .into();
    assert_eq!(address.ip, "0.10.200.255");
    assert_eq!(address.port, 0);
}

#[test]
fn addresses_are_equal_by_host_and_port() {
    let a = ServerAddress {
        ip: "1.1.1.1".to_string(),
        port: 1,
    };
    let same = ServerAddress {
        ip: "1.1.1.1".to_string(),
        port: 1,
    };
    let other_port = ServerAddress {
        ip: "1.1.1.1".to_string(),
        port: 2,
    };
    let other_host = ServerAddress {
        ip: "1.1.1.2".to_string(),
        port: 1,
    };
    assert_eq!(a, same);
    assert_eq!(a, a.clone());
    assert_ne!(a, other_port);
    assert_ne!(a, other_host);
}
