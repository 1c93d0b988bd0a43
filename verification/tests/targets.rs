use port_scanner::address::expand_network;
use port_scanner::address::expand_range;
use port_scanner::address::Address;
use port_scanner::address::Network;
use port_scanner::error::ExpandError;
use port_scanner::targets::parse_targets;

fn v4(a: u8, b: u8, c: u8, d: u8) -> Address {
    Address::V4(u32::from_be_bytes([a, b, c, d]))
}

#[test]
fn range_lists_every_address() {
    assert_eq!(
        parse_targets("10.0.0.1-10.0.0.3"),
        Ok(vec![v4(10, 0, 0, 1), v4(10, 0, 0, 2), v4(10, 0, 0, 3)])
    );
}

#[test]
fn range_ends_are_trimmed() {
    assert_eq!(
        parse_targets(" 10.0.0.1 - 10.0.0.2 "),
        Ok(vec![v4(10, 0, 0, 1), v4(10, 0, 0, 2)])
    );
}

#[test]
fn address_range_of_one_address() {
    assert_eq!(parse_targets("10.0.0.7-10.0.0.7"), Ok(vec![v4(10, 0, 0, 7)]));
}

#[test]
fn range_crosses_octets() {
    let got = parse_targets("10.0.0.254-10.0.1.1").unwrap();
    assert_eq!(got, vec![v4(10, 0, 0, 254), v4(10, 0, 0, 255), v4(10, 0, 1, 0), v4(10, 0, 1, 1)]);
}

#[test]
fn range_length_is_end_minus_start_plus_one() {
    let got = parse_targets("192.168.0.10-192.168.3.9").unwrap();
    assert_eq!(got.len(), 3 * 256);
    assert_eq!(got[0], v4(192, 168, 0, 10));
    assert_eq!(got[got.len() - 1], v4(192, 168, 3, 9));
}

#[test]
fn inverted_range_is_rejected() {
    assert_eq!(parse_targets("10.0.0.3-10.0.0.1"), Err(ExpandError::InvertedRange));
}

#[test]
fn ipv6_range_is_unsupported() {
    assert_eq!(parse_targets("::1-::5"), Err(ExpandError::UnsupportedRange));
    assert_eq!(parse_targets("::5-::1"), Err(ExpandError::UnsupportedRange));
}

#[test]
fn mixed_range_is_unsupported() {
    assert_eq!(parse_targets("10.0.0.1-::5"), Err(ExpandError::UnsupportedRange));
    assert_eq!(parse_targets("::5-10.0.0.1"), Err(ExpandError::UnsupportedRange));
}

#[test]
fn address_range_with_wrong_arity_is_malformed() {
    assert_eq!(parse_targets("10.0.0.1-10.0.0.2-10.0.0.3"), Err(ExpandError::MalformedInput));
    assert_eq!(parse_targets("10.0.0.1-"), Err(ExpandError::MalformedInput));
    assert_eq!(parse_targets("-"), Err(ExpandError::MalformedInput));
}

#[test]
fn range_with_bad_end_is_malformed() {
    assert_eq!(parse_targets("10.0.0.1-10.0.0.256"), Err(ExpandError::MalformedInput));
    assert_eq!(parse_targets("host-10.0.0.2"), Err(ExpandError::MalformedInput));
}

#[test]
fn single_ipv4_address() {
    assert_eq!(parse_targets("192.168.1.20"), Ok(vec![v4(192, 168, 1, 20)]));
    assert_eq!(parse_targets("  127.0.0.1\n"), Ok(vec![v4(127, 0, 0, 1)]));
}

#[test]
fn single_ipv6_address() {
    assert_eq!(parse_targets("::1"), Ok(vec![Address::V6(1)]));
    assert_eq!(
        parse_targets("2001:db8::ff00:42:8329"),
        Ok(vec![Address::V6(0x2001_0db8_0000_0000_0000_ff00_0042_8329)])
    );
}

#[test]
fn single_address_must_parse() {
    assert_eq!(parse_targets("example.org"), Err(ExpandError::MalformedInput));
    assert_eq!(parse_targets("10.0.0"), Err(ExpandError::MalformedInput));
    assert_eq!(parse_targets("10.0.0.01"), Err(ExpandError::MalformedInput));
    assert_eq!(parse_targets(""), Err(ExpandError::MalformedInput));
}

#[test]
fn cidr_lists_the_whole_block() {
    assert_eq!(
        parse_targets("192.168.1.0/30"),
        Ok(vec![v4(192, 168, 1, 0), v4(192, 168, 1, 1), v4(192, 168, 1, 2), v4(192, 168, 1, 3)])
    );
}

#[test]
fn cidr_starts_at_the_network_address() {
    let got = parse_targets("10.1.2.77/24").unwrap();
    assert_eq!(got.len(), 256);
    assert_eq!(got[0], v4(10, 1, 2, 0));
    assert_eq!(got[255], v4(10, 1, 2, 255));
    for (i, a) in got.iter().enumerate() {
        assert_eq!(*a, Address::V4(u32::from_be_bytes([10, 1, 2, 0]) + i as u32));
    }
}

#[test]
fn cidr_of_full_prefix_is_one_address() {
    assert_eq!(parse_targets("10.1.2.77/32"), Ok(vec![v4(10, 1, 2, 77)]));
    assert_eq!(parse_targets("::7/128"), Ok(vec![Address::V6(7)]));
}

#[test]
fn cidr_with_netmask() {
    assert_eq!(
        parse_targets("10.0.0.9/255.255.255.254"),
        Ok(vec![v4(10, 0, 0, 8), v4(10, 0, 0, 9)])
    );
}

#[test]
fn cidr_ipv6_block() {
    let base: u128 = 0x2001_0db8 << 96;
    assert_eq!(
        parse_targets("2001:db8::2/126"),
        Ok(vec![
            Address::V6(base),
            Address::V6(base + 1),
            Address::V6(base + 2),
            Address::V6(base + 3)
        ])
    );
}

#[test]
fn cidr_with_bad_prefix_is_malformed() {
    assert_eq!(parse_targets("10.0.0.0/33"), Err(ExpandError::MalformedInput));
    assert_eq!(parse_targets("::/129"), Err(ExpandError::MalformedInput));
    assert_eq!(parse_targets("10.0.0.0/"), Err(ExpandError::MalformedInput));
    assert_eq!(parse_targets("10.0.0.0/8/8"), Err(ExpandError::MalformedInput));
    assert_eq!(parse_targets("/24"), Err(ExpandError::MalformedInput));
}

#[test]
fn slash_is_looked_for_before_hyphen() {
    assert_eq!(parse_targets("10.0.0.0/30-10.0.0.9"), Err(ExpandError::MalformedInput));
    assert_eq!(parse_targets("10.0.0.1-10.0.0.9/30"), Err(ExpandError::MalformedInput));
}

#[test]
fn expand_network_covers_the_top_of_the_space() {
    let got = expand_network(Network::V4 { addr: 0xffff_fffe, prefix: 31 });
    assert_eq!(got, vec![Address::V4(0xffff_fffe), Address::V4(0xffff_ffff)]);
    let got = expand_network(Network::V6 { addr: u128::MAX, prefix: 127 });
    assert_eq!(got, vec![Address::V6(u128::MAX - 1), Address::V6(u128::MAX)]);
}

#[test]
fn expand_network_is_ascending_without_repeats() {
    let got = expand_network(Network::V4 { addr: 0x0a00_12ff, prefix: 20 });
    assert_eq!(got.len(), 4096);
    assert_eq!(got[0], Address::V4(0x0a00_1000));
    assert!(got.windows(2).all(|w| match (w[0], w[1]) {
        (Address::V4(a), Address::V4(b)) => a + 1 == b,
        _ => false,
    }));
}

#[test]
fn expand_range_reaches_the_last_address() {
    assert_eq!(
        expand_range(Address::V4(u32::MAX - 1), Address::V4(u32::MAX)),
        Ok(vec![Address::V4(u32::MAX - 1), Address::V4(u32::MAX)])
    );
}

#[test]
fn expand_range_rejects_what_it_cannot_list() {
    assert_eq!(expand_range(Address::V4(2), Address::V4(1)), Err(ExpandError::InvertedRange));
    assert_eq!(expand_range(Address::V6(1), Address::V6(2)), Err(ExpandError::UnsupportedRange));
    assert_eq!(expand_range(Address::V4(1), Address::V6(2)), Err(ExpandError::UnsupportedRange));
}
