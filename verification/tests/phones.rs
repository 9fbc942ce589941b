//! What adb prints, who is selected by it, and what is remembered.

use omavcam::phones::{parse, resolve, valid_endpoint, Attached, Registry};
use omavcam::protocol::{Connection, KnownPhone, Phone, Transport};

fn attached(serial: &str, adb_state: &str) -> Attached {
    Attached { serial: serial.into(), adb_state: adb_state.into(), name: serial.into() }
}

#[test]
fn parses_what_adb_prints() {
    let phones = parse(
        "* daemon not running; starting now at tcp:5037\n\
         * daemon started successfully\n\
         List of devices attached\n\
         39281FDJH0031T\tdevice usb:1-4 product:panther model:Pixel_7 device:panther\n\
         R5CT10ABCDE\tunauthorized usb:1-2 transport_id:2\n\
         \n",
    );
    assert_eq!(phones.len(), 2);
    assert_eq!(phones[0].name, "Pixel 7");
    assert_eq!(phones[0].adb_state, "device");
    // No model to go on, so the serial is the name.
    assert_eq!(phones[1].name, "R5CT10ABCDE");
}

#[test]
fn selects_by_the_rules() {
    let one = [attached("a", "device")];
    let two = [attached("a", "device"), attached("b", "device")];

    assert_eq!(resolve(&[], None).0, Connection::NoPhone);
    // A lone phone is selected, and remembered for when it is not alone.
    assert_eq!(resolve(&one, None).1, Some("a".to_string()));
    assert!(matches!(resolve(&two, None).0, Connection::Unselected { .. }));
    assert!(matches!(resolve(&two, Some("b")).0, Connection::Connecting { .. }));
    // Remembered phone gone: no phone, not the other one, and that holds when
    // the other one is the only phone on the desk.
    assert_eq!(resolve(&two, Some("z")).0, Connection::NoPhone);
    assert_eq!(resolve(&one, Some("z")).0, Connection::NoPhone);
    assert!(matches!(
        resolve(&[attached("a", "unauthorized")], None).0,
        Connection::Unauthorised { .. }
    ));
    // An unauthorised phone is never what gets remembered.
    assert_eq!(resolve(&[attached("a", "unauthorized")], None).1, None);
}

#[test]
fn migration_distinguishes_old_hardware_ids_from_changed_endpoints() {
    let known = |id: &str| KnownPhone {
        id: id.into(),
        hardware_id: None,
        phone: Phone { serial: "192.0.2.1:40000".into(), name: "Pixel".into() },
        transport: Transport::Wireless,
        connect_address: Some("192.0.2.1:40000".into()),
    };
    let mut registry = Registry {
        phones: vec![known("device-id"), known("192.0.2.1:39000")],
        ..Registry::default()
    };

    registry.migrate_hardware_ids();

    assert_eq!(registry.phones[0].hardware_id.as_deref(), Some("device-id"));
    assert_eq!(registry.phones[1].hardware_id, None);
}

#[test]
fn migration_takes_the_serial_of_a_wired_phone() {
    let mut registry = Registry {
        phones: vec![KnownPhone {
            id: "anything".into(),
            hardware_id: None,
            phone: Phone { serial: "SERIAL".into(), name: "Pixel".into() },
            transport: Transport::Wired,
            connect_address: None,
        }],
        ..Registry::default()
    };
    registry.migrate_hardware_ids();
    assert_eq!(registry.phones[0].hardware_id.as_deref(), Some("SERIAL"));
    assert_eq!(registry.phones[0].id, "anything");
}

#[test]
fn endpoints_have_a_host_and_a_port() {
    for good in ["192.168.1.40:37123", "[fe80::1]:1", "host:65535", "host:+80", "a:b:0080"] {
        assert!(valid_endpoint(good), "{good}");
    }
    for bad in ["", "host", ":80", "host:", "host:0", "host:65536", "a b:80", "host:-1", "h:8 "] {
        assert!(!valid_endpoint(bad), "{bad}");
    }
}

#[test]
fn one_phone_is_one_entry_whatever_it_is_reached_by() {
    let mut registry = Registry::default();
    registry.selected = Some("RF8M90ABCDEF".into());
    assert!(registry.remember_attached(&vec![attached("RF8M90ABCDEF", "device")]));
    assert!(!registry.remember_attached(&vec![attached("RF8M90ABCDEF", "device")]));
    assert_eq!(registry.phones.len(), 1);
    assert_eq!(registry.phones[0].transport, Transport::Wired);

    registry.remember_wireless(
        "192.0.2.1:40000",
        "Pixel 7",
        &Some("RF8M90ABCDEF".into()),
        &None,
        true,
    );
    assert_eq!(registry.phones.len(), 1);
    assert_eq!(registry.phones[0].id, "RF8M90ABCDEF");
    assert_eq!(registry.phones[0].transport, Transport::Wireless);
    assert_eq!(registry.phones[0].phone.serial, "192.0.2.1:40000");
    assert_eq!(registry.phones[0].connect_address.as_deref(), Some("192.0.2.1:40000"));
    assert_eq!(registry.selected.as_deref(), Some("192.0.2.1:40000"));
    assert_eq!(registry.settings_key("192.0.2.1:40000"), "RF8M90ABCDEF");
    assert_eq!(registry.settings_key("elsewhere"), "elsewhere");
}
