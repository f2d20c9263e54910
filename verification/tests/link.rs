//! Links: addresses, building, ids and serial ports.

use groundhog::link::{
    address_text, parse_address, sort_texts, usb_ports, Ipv4Addr, LinkBuilder, LinkConfig, LinkId,
    LinkIdSource, LinkVariant, SerialPort, SocketAddrV4, BAUDRATES,
};

fn ip(a: u8, b: u8, c: u8, d: u8) -> Ipv4Addr {
    Ipv4Addr { a, b, c, d }
}

#[test]
fn link_ids_count_up() {
    let mut source = LinkIdSource::new();
    assert_eq!(LinkId::new_unique(&mut source), LinkId(0));
    assert_eq!(LinkId::new_unique(&mut source), LinkId(1));
    assert_eq!(LinkId::new_unique(&mut source), LinkId(2));
    source.next = usize::MAX;
    assert_eq!(LinkId::new_unique(&mut source), LinkId(usize::MAX));
    assert_eq!(LinkId::new_unique(&mut source), LinkId(0));
}

#[test]
fn addresses_are_four_plain_numerals() {
    assert_eq!(parse_address("0.0.0.0"), Some(ip(0, 0, 0, 0)));
    assert_eq!(parse_address("127.0.0.1"), Some(ip(127, 0, 0, 1)));
    assert_eq!(parse_address("10.20.30.40"), Some(ip(10, 20, 30, 40)));
    assert_eq!(parse_address("255.255.255.255"), Some(ip(255, 255, 255, 255)));
    for s in [
        "256.0.0.1", "1.2.3", "1.2.3.4.5", "01.2.3.4", "1.2.3.04", "1.2.3.4 ", " 1.2.3.4", "", "....",
        "a.b.c.d", "+1.2.3.4", "1..2.3", "0.00.0.0", "1.2.3.-4", "::1", "1.2.3.", ".1.2.3", "1.2.3.1000",
    ] {
        assert_eq!(parse_address(s), None);
    }
}

#[test]
fn addresses_are_written_and_read_back() {
    for x in [ip(0, 0, 0, 0), ip(192, 168, 1, 10), ip(255, 255, 255, 255), ip(9, 10, 99, 100)] {
        assert_eq!(parse_address(&address_text(x)), Some(x));
    }
    assert_eq!(address_text(ip(192, 168, 0, 7)), "192.168.0.7");
}

#[test]
fn a_link_builds_where_its_fields_read() {
    let build = |addr: &str, port: &str| {
        LinkBuilder::Tcp { addr: addr.to_string(), port: port.to_string() }.try_build()
    };
    match build("10.0.0.1", "5760") {
        Some(LinkConfig::Tcp { sock_addr }) => {
            assert_eq!(sock_addr, SocketAddrV4 { ip: ip(10, 0, 0, 1), port: 5760 });
        }
        _ => panic!("the link builds"),
    }
    assert!(build("10.0.0.1", "65535").is_some());
    assert!(build("10.0.0.1", "+80").is_some());
    assert!(build("10.0.0.1", "65536").is_none());
    assert!(build("10.0.0.1", "").is_none());
    assert!(build("localhost", "80").is_none());
}

#[test]
fn a_serial_link_builds_once_a_port_is_chosen() {
    let builder = LinkBuilder::default_serial();
    assert!(builder.try_build().is_none());
    match builder.with_port("/dev/ttyACM0".to_string()).with_baud(57_600).try_build() {
        Some(LinkConfig::Serial { port, baud }) => {
            assert_eq!(port, "/dev/ttyACM0");
            assert_eq!(baud, 57_600);
        }
        _ => panic!("the link builds"),
    }
}

#[test]
fn new_links_are_of_their_kinds() {
    for variant in LinkVariant::list() {
        assert_eq!(variant.to_default_builder().to_variant(), *variant);
    }
    assert_eq!(LinkVariant::list(), &[LinkVariant::Tcp, LinkVariant::Udp, LinkVariant::Serial]);
    match LinkBuilder::default_tcp() {
        LinkBuilder::Tcp { addr, port } => assert_eq!((addr.as_str(), port.as_str()), ("0.0.0.0", "5760")),
        _ => panic!("a link over TCP"),
    }
    match LinkBuilder::default_udp() {
        LinkBuilder::Udp { addr, port } => assert_eq!((addr.as_str(), port.as_str()), ("0.0.0.0", "14550")),
        _ => panic!("a link over UDP"),
    }
    match LinkBuilder::default_serial() {
        LinkBuilder::Serial { port, baud, available_ports } => {
            assert!(port.is_none() && available_ports.is_empty());
            assert_eq!(baud, 115_200);
        }
        _ => panic!("a serial link"),
    }
}

#[test]
fn kinds_of_links_have_names() {
    let names: Vec<&str> = LinkVariant::list().iter().map(|v| v.name()).collect();
    assert_eq!(names, vec!["TCP", "UDP", "Serial"]);
}

#[test]
fn a_link_comes_back_from_the_way_it_is_typed_in() {
    let udp = LinkConfig::Udp { sock_addr: SocketAddrV4 { ip: ip(1, 20, 0, 255), port: 14551 } };
    match udp.to_builder().try_build() {
        Some(LinkConfig::Udp { sock_addr }) => {
            assert_eq!(sock_addr, SocketAddrV4 { ip: ip(1, 20, 0, 255), port: 14551 });
        }
        _ => panic!("the link builds"),
    }
    let serial = LinkConfig::Serial { port: "COM3".to_string(), baud: 9_600 };
    match serial.to_builder().try_build() {
        Some(LinkConfig::Serial { port, baud }) => assert_eq!((port.as_str(), baud), ("COM3", 9_600)),
        _ => panic!("the link builds"),
    }
}

#[test]
fn fields_are_typed_in_one_at_a_time() {
    let tcp = LinkBuilder::default_tcp().with_addr("1.2.3.4".to_string());
    match tcp.with_port("99".to_string()) {
        LinkBuilder::Tcp { addr, port } => assert_eq!((addr.as_str(), port.as_str()), ("1.2.3.4", "99")),
        _ => panic!("a link over TCP"),
    }
    match LinkBuilder::default_udp().with_addr("1.2.3.4".to_string()).with_baud(1) {
        LinkBuilder::Udp { addr, port } => assert_eq!((addr.as_str(), port.as_str()), ("1.2.3.4", "14550")),
        _ => panic!("a link over UDP"),
    }
}

#[test]
fn baud_rates_go_up_to_a_million() {
    assert_eq!(BAUDRATES.len(), 13);
    assert_eq!(BAUDRATES[0], 2_400);
    assert_eq!(BAUDRATES[6], 115_200);
    assert_eq!(BAUDRATES[12], 1_000_000);
    assert!(BAUDRATES.windows(2).all(|w| w[0] < w[1]));
}

#[test]
fn only_ports_on_usb_are_offered_in_order() {
    let port = |name: &str, usb: bool| SerialPort { name: name.to_string(), usb };
    let ports = vec![
        port("/dev/ttyUSB1", true),
        port("/dev/ttyS0", false),
        port("/dev/ttyACM0", true),
        port("/dev/ttyUSB0", true),
    ];
    assert_eq!(usb_ports(&ports), vec!["/dev/ttyACM0", "/dev/ttyUSB0", "/dev/ttyUSB1"]);
    assert!(usb_ports(&vec![]).is_empty());
}

#[test]
fn texts_are_sorted_as_std_sorts_them() {
    let texts: Vec<String> =
        ["b", "", "a", "B", "ab", "a", "ä", "zz", "z"].iter().map(|s| s.to_string()).collect();
    let mut sorted = texts.clone();
    sorted.sort();
    assert_eq!(sort_texts(texts), sorted);
}
