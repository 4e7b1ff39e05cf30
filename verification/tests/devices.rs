use telewol::errors::WolError;
use telewol::mac::{parse_mac, MacAddress};
use telewol::registry::Config;
use telewol::service::wake_packet;

fn empty_config() -> Config {
    Config { telegram_token: String::from("token"), computers: Vec::new() }
}

#[test]
fn add_then_list_shows_the_entry() {
    let mut config = empty_config();
    let mac = parse_mac("aa:bb:cc:dd:ee:ff").unwrap();
    config.add_computer(String::from("desk"), mac);
    assert_eq!(config.list_computers(), "desk => AA:BB:CC:DD:EE:FF\n");
    assert_eq!(config.get_computer("desk"), Some(mac));
}

#[test]
fn listing_an_empty_registry_gives_the_hint() {
    let config = empty_config();
    assert_eq!(
        config.list_computers(),
        "No computers, add them using `/add <computer> <MAC>`"
    );
}

#[test]
fn re_adding_a_name_replaces_its_mac() {
    let mut config = empty_config();
    config.add_computer(
        String::from("desk"),
        MacAddress::new(0x11, 0x11, 0x11, 0x11, 0x11, 0x11),
    );
    config.add_computer(
        String::from("desk"),
        MacAddress::new(0x22, 0x22, 0x22, 0x22, 0x22, 0x22),
    );
    assert_eq!(config.computers.len(), 1);
    assert_eq!(
        config.get_computer("desk"),
        Some(MacAddress::new(0x22, 0x22, 0x22, 0x22, 0x22, 0x22))
    );
}

#[test]
fn serialized_adds_with_distinct_names_keep_both() {
    let first = MacAddress::new(0x11, 0x11, 0x11, 0x11, 0x11, 0x11);
    let second = MacAddress::new(0x22, 0x22, 0x22, 0x22, 0x22, 0x22);

    let mut config = empty_config();
    config.add_computer(String::from("desk"), first);
    config.add_computer(String::from("lab"), second);
    assert_eq!(config.get_computer("desk"), Some(first));
    assert_eq!(config.get_computer("lab"), Some(second));

    let mut other_order = empty_config();
    other_order.add_computer(String::from("lab"), second);
    other_order.add_computer(String::from("desk"), first);
    assert_eq!(other_order.get_computer("desk"), Some(first));
    assert_eq!(other_order.get_computer("lab"), Some(second));
}

#[test]
fn removing_an_absent_name_fails_and_changes_nothing() {
    let mut config = empty_config();
    config.add_computer(
        String::from("desk"),
        MacAddress::new(0x11, 0x11, 0x11, 0x11, 0x11, 0x11),
    );
    let before = config.list_computers();
    assert_eq!(config.remove_computer("lab"), Err(WolError::NotFound));
    assert_eq!(config.list_computers(), before);
}

#[test]
fn removing_a_name_drops_it_from_the_listing() {
    let mut config = empty_config();
    config.add_computer(
        String::from("desk"),
        MacAddress::new(0x11, 0x11, 0x11, 0x11, 0x11, 0x11),
    );
    config.add_computer(
        String::from("lab"),
        MacAddress::new(0x22, 0x22, 0x22, 0x22, 0x22, 0x22),
    );
    assert_eq!(config.remove_computer("desk"), Ok(()));
    let listing = config.list_computers();
    assert!(!listing.contains("desk"));
    assert!(listing.contains("lab"));
    assert_eq!(config.get_computer("desk"), None);
}

#[test]
fn a_literal_mac_wins_over_a_registered_name() {
    let mut config = empty_config();
    config.add_computer(
        String::from("desk"),
        parse_mac("AA:BB:CC:DD:EE:FF").unwrap(),
    );
    // the argument parses, so the registry entry is not consulted
    assert_eq!(
        config.resolve("11:22:33:44:55:66"),
        Ok(MacAddress::new(0x11, 0x22, 0x33, 0x44, 0x55, 0x66))
    );
    // only a failed parse falls back to the name lookup
    assert_eq!(
        config.resolve("desk"),
        Ok(MacAddress::new(0xAA, 0xBB, 0xCC, 0xDD, 0xEE, 0xFF))
    );
    assert_eq!(config.resolve("printer"), Err(WolError::DeviceNotFound));
}

#[test]
fn add_list_wake_end_to_end() {
    let mut config = empty_config();
    config.add_computer(String::from("desk"), parse_mac("aa:bb:cc:dd:ee:ff").unwrap());

    let listing = config.list_computers();
    assert!(listing.contains("desk => AA:BB:CC:DD:EE:FF"));

    let payload = wake_packet(&config, "desk").unwrap();
    let mut expected: Vec<u8> = vec![0xFF; 6];
    for _ in 0..16 {
        expected.extend_from_slice(&[0xAA, 0xBB, 0xCC, 0xDD, 0xEE, 0xFF]);
    }
    assert_eq!(payload, expected);

    assert_eq!(
        wake_packet(&config, "printer"),
        Err(WolError::DeviceNotFound)
    );
}
