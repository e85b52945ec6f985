use ip_roam::addr::Ipv4;
use ip_roam::decode::{Address, Attr, DecodeError};
use ip_roam::event::{Message, RawMessage};

fn addr_attr(o: [u8; 4]) -> Attr {
    Attr::Address(vec![o[0], o[1], o[2], o[3]])
}

fn label_attr(s: &str) -> Attr {
    Attr::Label(s.to_string())
}

#[test]
fn from_octets_is_big_endian() {
    assert_eq!(Ipv4::from_octets(10, 0, 0, 5).value(), 0x0A00_0005);
    assert_eq!(Ipv4::from_octets(0, 0, 0, 0).value(), 0);
    assert_eq!(Ipv4::from_octets(255, 255, 255, 255).value(), u32::MAX);
}

#[test]
fn decodes_address_then_label() {
    let attrs = vec![addr_attr([10, 0, 0, 5]), label_attr("eth0")];
    let ad = Address::decode(&attrs).unwrap();
    assert_eq!(ad.addr().value(), 0x0A00_0005);
    assert_eq!(ad.label(), "eth0");
}

#[test]
fn decodes_label_then_address() {
    let attrs = vec![label_attr("wlan0"), addr_attr([192, 168, 1, 7])];
    let ad = Address::decode(&attrs).unwrap();
    assert_eq!(ad.addr().value(), 0xC0A8_0107);
    assert_eq!(ad.label(), "wlan0");
}

#[test]
fn ignores_unknown_attributes() {
    let attrs = vec![
        Attr::Other,
        label_attr("eth0"),
        Attr::Other,
        addr_attr([10, 0, 0, 5]),
        Attr::Other,
    ];
    let ad = Address::decode(&attrs).unwrap();
    assert_eq!(ad.addr().value(), 0x0A00_0005);
    assert_eq!(ad.label(), "eth0");
}

#[test]
fn skips_malformed_address_bytes() {
    // A 16-byte (IPv6-sized) payload is skipped, not fatal; the later
    // 4-byte payload completes the decode.
    let attrs = vec![
        Attr::Address(vec![0; 16]),
        label_attr("eth0"),
        addr_attr([10, 0, 0, 5]),
    ];
    let ad = Address::decode(&attrs).unwrap();
    assert_eq!(ad.addr().value(), 0x0A00_0005);
}

#[test]
fn later_address_overrides_earlier_one() {
    // Before the label shows up, each well-formed address attribute replaces
    // the remembered one; the pair is sealed the instant both are known.
    let attrs = vec![
        addr_attr([10, 0, 0, 1]),
        addr_attr([10, 0, 0, 2]),
        label_attr("eth0"),
        addr_attr([10, 0, 0, 3]),
    ];
    let ad = Address::decode(&attrs).unwrap();
    assert_eq!(ad.addr().value(), 0x0A00_0002);
}

#[test]
fn label_only_record_is_not_found() {
    let attrs = vec![label_attr("eth0")];
    assert_eq!(Address::decode(&attrs), Err(DecodeError::NotFound));
}

#[test]
fn address_only_record_is_not_found() {
    let attrs = vec![addr_attr([10, 0, 0, 5])];
    assert_eq!(Address::decode(&attrs), Err(DecodeError::NotFound));
}

#[test]
fn empty_record_is_not_found() {
    assert_eq!(Address::decode(&Vec::new()), Err(DecodeError::NotFound));
}

#[test]
fn new_address_message_decodes_as_new() {
    let raw = RawMessage::NewAddr(vec![addr_attr([10, 0, 0, 5]), label_attr("eth0")]);
    let msg = Message::try_from_raw(&raw).unwrap();
    assert!(msg.is_new());
    assert_eq!(msg.addr().addr().value(), 0x0A00_0005);
    assert_eq!(msg.addr().label(), "eth0");
}

#[test]
fn deleted_address_message_decodes_as_not_new() {
    let raw = RawMessage::DelAddr(vec![label_attr("eth0"), addr_attr([10, 0, 0, 5])]);
    let msg = Message::try_from_raw(&raw).unwrap();
    assert!(!msg.is_new());
}

#[test]
fn unrelated_message_is_invalid_data() {
    assert_eq!(
        Message::try_from_raw(&RawMessage::Other),
        Err(DecodeError::InvalidData)
    );
}

#[test]
fn incomplete_record_does_not_stop_the_stream() {
    // A label-only record yields no event; the stream goes on and the next
    // record still decodes.
    let records = vec![
        RawMessage::NewAddr(vec![label_attr("eth0")]),
        RawMessage::Other,
        RawMessage::NewAddr(vec![addr_attr([10, 0, 0, 5]), label_attr("eth0")]),
    ];
    let decoded: Vec<Message> = records
        .iter()
        .filter_map(|r| Message::try_from_raw(r).ok())
        .collect();
    assert_eq!(decoded.len(), 1);
    assert_eq!(decoded[0].addr().addr().value(), 0x0A00_0005);
}
