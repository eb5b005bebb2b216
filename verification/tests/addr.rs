use echo_bench::addr::NetAddress;
use echo_bench::addr::create_address;

#[test]
fn test_create_address_parses_numeric_endpoint() {
    assert_eq!(
        create_address("127.0.0.1:8080"),
        Ok(NetAddress { octet0: 127, octet1: 0, octet2: 0, octet3: 1, port: 8080 })
    );
    assert_eq!(
        create_address("255.255.255.255:65535"),
        Ok(NetAddress { octet0: 255, octet1: 255, octet2: 255, octet3: 255, port: 65535 })
    );
    assert_eq!(
        create_address("0.0.0.0:0"),
        Ok(NetAddress { octet0: 0, octet1: 0, octet2: 0, octet3: 0, port: 0 })
    );
}

#[test]
fn test_create_address_allows_leading_zeros() {
    assert_eq!(
        create_address("010.2.3.4:05"),
        Ok(NetAddress { octet0: 10, octet1: 2, octet2: 3, octet3: 4, port: 5 })
    );
}

#[test]
fn test_create_address_rejects_malformed_strings() {
    assert_eq!(create_address(""), Err(()));
    assert_eq!(create_address("1.2.3.4"), Err(()));
    assert_eq!(create_address("1.2.3:80"), Err(()));
    assert_eq!(create_address("1.2.3.4.5:80"), Err(()));
    assert_eq!(create_address("1.2..4:80"), Err(()));
    assert_eq!(create_address("a.b.c.d:80"), Err(()));
    assert_eq!(create_address("1.2.3.4:"), Err(()));
    assert_eq!(create_address(":80"), Err(()));
    assert_eq!(create_address("1.2.3.4:80:90"), Err(()));
    assert_eq!(create_address("1.2.3.4 80"), Err(()));
}

#[test]
fn test_create_address_rejects_out_of_range_values() {
    assert_eq!(create_address("256.1.1.1:80"), Err(()));
    assert_eq!(create_address("1.1.1.1000:80"), Err(()));
    assert_eq!(create_address("1.2.3.4:65536"), Err(()));
    assert_eq!(create_address("1.2.3.4:100000"), Err(()));
    assert_eq!(create_address("1.2.3.4:999999"), Err(()));
}
