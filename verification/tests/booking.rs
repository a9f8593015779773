use reservation_server::booking_process::{
    end_booking, request_possible, start_booking, BookingAction, BookingEvent, BookingFailure,
    EndStage, StartStage,
};
use reservation_server::network::{
    address_string, booking_credentials, parse_interface_address, peer_address,
    wireguard_add_peer_command, wireguard_remove_peer_command,
};
use reservation_server::records::{BookingData, ConnectedPeer, InterfaceData, TeamName};
use reservation_server::text::{decimal_string, join_fields, split_fields};

fn booking() -> BookingData {
    BookingData {
        devices: 1,
        _minutes: 120,
        team_name: "makoo".to_string(),
        public_key: "TEAMKEY=".to_string(),
    }
}

fn interface(ip: &str) -> InterfaceData {
    InterfaceData {
        interface_id: "wg0".to_string(),
        ip_address: ip.to_string(),
        port: "51820".to_string(),
        host_public_key: "HOSTKEY=".to_string(),
        available: true,
    }
}

fn strings(v: &[&str]) -> Vec<String> {
    v.iter().map(|s| s.to_string()).collect()
}

#[test]
fn request_possible_compares_counts() {
    assert!(request_possible(1, 1));
    assert!(request_possible(1, 5));
    assert!(!request_possible(1, 0));
    assert!(request_possible(0, 0));
    assert!(!request_possible(3, 2));
}

#[test]
fn decimal_strings_of_bytes() {
    assert_eq!(decimal_string(0), "0");
    assert_eq!(decimal_string(7), "7");
    assert_eq!(decimal_string(10), "10");
    assert_eq!(decimal_string(99), "99");
    assert_eq!(decimal_string(100), "100");
    assert_eq!(decimal_string(255), "255");
}

#[test]
fn split_and_join_like_std() {
    for s in ["", "a", "a.b", ".a.", "..", "192.168.1.10"] {
        let fields = split_fields(s, '.');
        let expected: Vec<String> = s.split('.').map(|f| f.to_string()).collect();
        assert_eq!(fields, expected);
        assert_eq!(join_fields(&fields, '.'), s);
    }
    assert_eq!(join_fields(&Vec::new(), '.'), "");
}

#[test]
fn dotted_addresses() {
    assert_eq!(address_string(192, 168, 0, 1), "192.168.0.1");
    assert_eq!(address_string(10, 0, 255, 9), "10.0.255.9");
}

#[test]
fn peer_address_replaces_last_field() {
    assert_eq!(peer_address("10.0.0.1"), "10.0.0.5");
    assert_eq!(peer_address("192.168.178.55"), "192.168.178.5");
    assert_eq!(peer_address("abc"), "5");
    assert_eq!(peer_address("a.b."), "a.b.5");
}

#[test]
fn interface_addresses_are_parsed_by_ipnet() {
    assert_eq!(parse_interface_address(&interface("10.0.0.1/24")), Some((10, 0, 0, 1, 24)));
    assert_eq!(parse_interface_address(&interface("192.168.1.200/32")), Some((192, 168, 1, 200, 32)));
    assert_eq!(parse_interface_address(&interface("10.0.0.1")), None);
    assert_eq!(parse_interface_address(&interface("10.0.0.1/33")), None);
    assert_eq!(parse_interface_address(&interface("256.0.0.1/24")), None);
    assert_eq!(parse_interface_address(&interface("not an address")), None);
}

#[test]
fn credentials_of_a_booking() {
    let iface = interface("10.0.0.1/24");
    let (peer, credentials) = booking_credentials((10, 0, 0, 1, 24), &iface);
    assert_eq!(peer, "10.0.0.5");
    assert_eq!(credentials, "10.0.0.5/24\nHOSTKEY=\n51820");
}

#[test]
fn wireguard_command_lines() {
    assert_eq!(
        wireguard_add_peer_command("wg0", "KEY", "10.0.0.5"),
        strings(&["sudo", "wg", "set", "wg0", "peer", "KEY", "allowed-ips", "10.0.0.5/32"])
    );
    assert_eq!(
        wireguard_remove_peer_command("wg1", "KEY"),
        strings(&["sudo", "wg", "set", "wg1", "peer", "KEY", "remove"])
    );
}

#[test]
fn granted_booking_runs_through_all_steps() {
    let (process, action) = start_booking(booking());
    assert!(matches!(action, BookingAction::CountInterfaces));

    let event = BookingEvent::InterfacesCounted(1);
    assert!(process.accepts(&event));
    let (process, action) = process.step(event);
    assert!(matches!(action, BookingAction::RetrieveFirstInterface));

    let (process, action) = process.step(BookingEvent::InterfaceRetrieved(interface("10.1.2.1/16")));
    match action {
        BookingAction::AddPeerToDb { team_name, interface_id, public_key } => {
            assert_eq!(team_name, "makoo");
            assert_eq!(interface_id, "wg0");
            assert_eq!(public_key, "TEAMKEY=");
        }
        _ => panic!("expected the peer entry"),
    }

    let (process, action) = process.step(BookingEvent::StoreWritten(true));
    match action {
        BookingAction::ChangeAvailability { interface_id, available } => {
            assert_eq!(interface_id, "wg0");
            assert!(!available);
        }
        _ => panic!("expected the availability change"),
    }

    let (process, action) = process.step(BookingEvent::StoreWritten(true));
    match action {
        BookingAction::RunCommand(cmd) => assert_eq!(
            cmd,
            strings(&["sudo", "wg", "set", "wg0", "peer", "TEAMKEY=", "allowed-ips", "10.1.2.5/32"])
        ),
        _ => panic!("expected the wireguard command"),
    }
    assert!(!process.accepts(&BookingEvent::StoreWritten(true)));

    let (process, action) = process.step(BookingEvent::CommandStarted);
    match action {
        BookingAction::Reply(text) => assert_eq!(text, "10.1.2.5/16\nHOSTKEY=\n51820"),
        _ => panic!("expected the credentials"),
    }
    assert!(matches!(process.stage, StartStage::Finished));
    assert!(!process.accepts(&BookingEvent::CommandStarted));
}

#[test]
fn booking_is_refused_without_interfaces() {
    let (process, _) = start_booking(booking());
    let (process, action) = process.step(BookingEvent::InterfacesCounted(0));
    match action {
        BookingAction::Reply(text) => assert_eq!(text, "\nNo_suitable_interface_available"),
        _ => panic!("expected the refusal"),
    }
    assert!(matches!(process.stage, StartStage::Finished));
}

#[test]
fn booking_fails_on_database_errors() {
    let (process, _) = start_booking(booking());
    let (process, _) = process.step(BookingEvent::InterfacesCounted(2));
    let (process, _) = process.step(BookingEvent::InterfaceRetrieved(interface("10.0.0.1/24")));
    let (_, action) = process.step(BookingEvent::StoreWritten(false));
    assert!(matches!(action, BookingAction::Fail(BookingFailure::PeerEntryNotCreated)));

    let (process, _) = start_booking(booking());
    let (process, _) = process.step(BookingEvent::InterfacesCounted(2));
    let (process, _) = process.step(BookingEvent::InterfaceRetrieved(interface("10.0.0.1/24")));
    let (process, _) = process.step(BookingEvent::StoreWritten(true));
    let (process, action) = process.step(BookingEvent::StoreWritten(false));
    assert!(matches!(action, BookingAction::Fail(BookingFailure::AvailabilityNotChanged)));
    assert!(matches!(process.stage, StartStage::Finished));
}

#[test]
fn booking_stops_on_an_invalid_interface_address() {
    let (process, _) = start_booking(booking());
    let (process, _) = process.step(BookingEvent::InterfacesCounted(1));
    let (process, _) = process.step(BookingEvent::InterfaceRetrieved(interface("10.0.0.1")));
    let (process, action) = process.step(BookingEvent::StoreWritten(true));
    assert!(matches!(action, BookingAction::ChangeAvailability { available: false, .. }));
    assert!(!process.accepts(&BookingEvent::StoreWritten(true)));
    assert!(process.accepts(&BookingEvent::StoreWritten(false)));
    assert!(process.advance(BookingEvent::StoreWritten(true)).is_none());
}

#[test]
fn booking_honours_the_requested_devices() {
    let request = BookingData { devices: 3, ..booking() };
    let (process, _) = start_booking(request);
    let (process, action) = process.step(BookingEvent::InterfacesCounted(1));
    match action {
        BookingAction::Reply(text) => assert_eq!(text, "\nNo_suitable_interface_available"),
        _ => panic!("three devices cannot be booked on one interface"),
    }
    assert!(matches!(process.stage, StartStage::Finished));

    let request = BookingData { devices: 3, ..booking() };
    let (process, _) = start_booking(request);
    let (_, action) = process.advance(BookingEvent::InterfacesCounted(3)).unwrap();
    assert!(matches!(action, BookingAction::RetrieveFirstInterface));

    let request = BookingData { devices: 0, ..booking() };
    let (process, _) = start_booking(request);
    let (_, action) = process.step(BookingEvent::InterfacesCounted(0));
    assert!(matches!(action, BookingAction::Reply(_)));

    let request = BookingData { devices: 0, ..booking() };
    let (process, _) = start_booking(request);
    let (_, action) = process.step(BookingEvent::InterfacesCounted(1));
    assert!(matches!(action, BookingAction::RetrieveFirstInterface));
}

#[test]
fn failure_messages() {
    assert_eq!(
        BookingFailure::PeerEntryNotCreated.message(),
        "Couldn't create a database entry for the peer"
    );
    assert_eq!(
        BookingFailure::AvailabilityNotChanged.message(),
        "Couldn't change the availability of the interface"
    );
    assert_eq!(BookingFailure::PeerNotRemoved.message(), "Couldn't remove the peer from the database");
}

#[test]
fn ending_a_booking_releases_the_interface() {
    let (process, action) = end_booking(TeamName { name: "makoo".to_string() });
    match action {
        BookingAction::RetrieveConnectedPeer { team } => assert_eq!(team, "makoo"),
        _ => panic!("expected the peer lookup"),
    }
    let peer = ConnectedPeer { interface_id: "wg3".to_string(), public_key: "PK".to_string() };
    let (process, action) = process.step(BookingEvent::PeerRetrieved(peer));
    match action {
        BookingAction::RunCommand(cmd) => {
            assert_eq!(cmd, strings(&["sudo", "wg", "set", "wg3", "peer", "PK", "remove"]))
        }
        _ => panic!("expected the wireguard command"),
    }
    let (process, action) = process.step(BookingEvent::CommandStarted);
    match action {
        BookingAction::ChangeAvailability { interface_id, available } => {
            assert_eq!(interface_id, "wg3");
            assert!(available);
        }
        _ => panic!("expected the availability change"),
    }
    let (process, action) = process.step(BookingEvent::StoreWritten(true));
    match action {
        BookingAction::RemovePeerFromDb { public_key } => assert_eq!(public_key, "PK"),
        _ => panic!("expected the peer removal"),
    }
    let (process, action) = process.step(BookingEvent::StoreWritten(true));
    assert!(matches!(action, BookingAction::Finish));
    assert!(matches!(process.stage, EndStage::Finished));
}

#[test]
fn ending_a_booking_fails_on_database_errors() {
    let (process, _) = end_booking(TeamName { name: "t".to_string() });
    let peer = ConnectedPeer { interface_id: "wg0".to_string(), public_key: "PK".to_string() };
    let (process, _) = process.step(BookingEvent::PeerRetrieved(peer));
    let (process, _) = process.step(BookingEvent::CommandStarted);
    assert!(!process.accepts(&BookingEvent::CommandStarted));
    let (process, action) = process.step(BookingEvent::StoreWritten(false));
    assert!(matches!(action, BookingAction::Fail(BookingFailure::AvailabilityNotChanged)));
    assert!(matches!(process.stage, EndStage::Finished));

    let (process, _) = end_booking(TeamName { name: "t".to_string() });
    let peer = ConnectedPeer { interface_id: "wg0".to_string(), public_key: "PK".to_string() };
    let (process, _) = process.step(BookingEvent::PeerRetrieved(peer));
    let (process, _) = process.step(BookingEvent::CommandStarted);
    let (process, _) = process.step(BookingEvent::StoreWritten(true));
    let (_, action) = process.step(BookingEvent::StoreWritten(false));
    assert!(matches!(action, BookingAction::Fail(BookingFailure::PeerNotRemoved)));
}
