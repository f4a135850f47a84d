use rmk_types::protocol::rynk::ProtocolVersion;
use rynk_transport::error::{ConnectError, TransportError};
use rynk_transport::handshake::{connect_transport, opened, HANDSHAKE_TIMEOUT_MS};
use rynk_transport::serial::{
    candidates_blocking, discover, probe_device, rynk_serial_ports, usb_place, PortInfo, PortType,
    SerialDevice, SerialTransport, CDC_BAUD_RATE,
};
use tokio_serial::SerialPortType;

/// What a scripted peer answered during the handshake.
#[derive(Debug)]
struct Session {
    version: ProtocolVersion,
    num_cols: u8,
}

/// How a client refuses a peer.
#[derive(Debug)]
struct VersionMismatch;

fn text(s: &str) -> String {
    s.to_string()
}

fn usb(name: &str, serial: Option<&str>) -> PortInfo {
    PortInfo {
        port_name: text(name),
        port_type: PortType::UsbPort {
            vid: 0x4c4b,
            pid: 0x4643,
            serial_number: serial.map(text),
            place: text("1-2"),
        },
    }
}

fn usb_device(name: &str, vid: u16, pid: u16, serial: &str, location: Option<&str>) -> PortInfo {
    PortInfo {
        port_name: text(name),
        port_type: PortType::UsbPort {
            vid,
            pid,
            serial_number: Some(text(serial)),
            place: usb_place(location.map(text), name),
        },
    }
}

fn found(ports: Vec<PortInfo>) -> Vec<String> {
    discover(Ok(Ok(ports))).unwrap().into_iter().map(|d| d.path).collect()
}

fn other(name: &str, port_type: PortType) -> PortInfo {
    PortInfo { port_name: text(name), port_type }
}

fn paths(ports: Vec<PortInfo>) -> Vec<String> {
    rynk_serial_ports(Ok(ports)).unwrap()
}

#[test]
fn rynk_serial_ports_enumerates() {
    // The marked ports the host has, maybe none; must not error.
    let listed = match tokio_serial::available_ports() {
        Ok(ports) => Ok(ports
            .into_iter()
            .map(|port| PortInfo {
                port_type: match port.port_type {
                    SerialPortType::UsbPort(info) => PortType::UsbPort {
                        vid: info.vid,
                        pid: info.pid,
                        serial_number: info.serial_number,
                        place: usb_place(info.location.map(|location| location.to_string()), &port.port_name),
                    },
                    SerialPortType::PciPort => PortType::PciPort,
                    SerialPortType::BluetoothPort => PortType::BluetoothPort,
                    SerialPortType::Unknown => PortType::Unknown,
                },
                port_name: port.port_name,
            })
            .collect()),
        Err(error) => Err(error.to_string()),
    };
    rynk_serial_ports(listed).expect("enumeration must not error");
}

#[test]
fn connect_handshakes_against_scripted_peer() {
    let device = SerialDevice { path: text("<pty>"), other_paths: vec![] };
    let transport: SerialTransport<u32> = device.connect::<u32, VersionMismatch>(Ok(3)).unwrap_or_else(|_| panic!("port is open"));
    assert_eq!(transport.path(), "<pty>");
    assert_eq!(transport.into_stream(), 3);
    let answer = Session { version: ProtocolVersion::CURRENT, num_cols: 14 };
    let session = connect_transport::<Session, VersionMismatch>(Some(Ok(answer))).unwrap();
    assert_eq!(session.version, ProtocolVersion::CURRENT);
    assert_eq!(session.num_cols, 14);
}

#[test]
fn connect_times_out_on_silent_peer() {
    let err = connect_transport::<Session, VersionMismatch>(None).err().expect("must time out");
    assert!(
        matches!(&err, ConnectError::Transport(TransportError::DeviceNotFound(m)) if m.contains("timed out")),
        "expected handshake timeout, got {err:?}"
    );
    assert!(matches!(&err, ConnectError::Transport(TransportError::DeviceNotFound(m)) if m == "handshake timed out"));
    assert_eq!(HANDSHAKE_TIMEOUT_MS, 1000);
}

#[test]
fn probe_lists_responsive_port_and_drops_silent_one() {
    let silent = connect_transport::<ProtocolVersion, VersionMismatch>(None);
    assert!(
        probe_device(text("silent"), silent).is_none(),
        "a silent port must not be listed as connectable"
    );
    let responsive = connect_transport::<_, VersionMismatch>(Some(Ok(ProtocolVersion::CURRENT)));
    let dev = probe_device(text("good"), responsive).expect("responsive port is connectable");
    assert_eq!(dev.version, ProtocolVersion::CURRENT);
    assert_eq!(dev.path, "good");
}

#[test]
fn probe_drops_incompatible_version() {
    let refused = connect_transport::<ProtocolVersion, _>(Some(Err(VersionMismatch)));
    assert!(matches!(refused, Err(ConnectError::Handshake(VersionMismatch))));
    assert!(
        probe_device(text("old"), refused).is_none(),
        "a wrong-major device must be excluded from discovery"
    );
}

#[test]
fn marked_ports_are_listed_in_order() {
    let ports = vec![
        usb("tty0", Some("rynk:123")),
        usb("tty1", Some("123")),
        usb("tty2", None),
        other("tty3", PortType::PciPort),
        usb("tty4", Some("x-RyNk:")),
        other("tty5", PortType::BluetoothPort),
        other("tty6", PortType::Unknown),
        usb("tty7", Some("RYNK:\u{e9}")),
    ];
    assert_eq!(paths(ports), vec!["tty0", "tty4", "tty7"]);
    assert!(paths(vec![]).is_empty());
}

#[test]
fn marker_must_be_whole() {
    let ports = vec![
        usb("a", Some("")),
        usb("b", Some("rynk")),
        usb("c", Some("ryrynk")),
        usb("d", Some("rynk-:")),
        usb("e", Some("ryrynk:")),
        usb("f", Some("\u{212a}rynk;")),
    ];
    assert_eq!(paths(ports), vec!["e"]);
}

#[test]
fn keyboard_with_two_ports_is_listed_once() {
    // The Rynk port and the logger port of one keyboard share its serial number.
    let ports = || vec![usb("/dev/ttyACM0", Some("rynk:1")), usb("/dev/ttyACM1", Some("rynk:1"))];
    assert_eq!(found(ports()), vec!["/dev/ttyACM0"]);
    // Either may be the one that answers, so both stay within reach.
    let devices = discover(Ok(Ok(ports()))).unwrap();
    assert_eq!(devices[0].other_paths, vec!["/dev/ttyACM1"]);
    // As candidates both ports count.
    assert_eq!(paths(ports()), vec!["/dev/ttyACM0", "/dev/ttyACM1"]);
}

#[test]
fn silent_port_gives_way_to_the_next() {
    let device = SerialDevice { path: text("a"), other_paths: vec![text("b"), text("c")] };
    let next = device.at_next_port().expect("two ports are left");
    assert_eq!((next.path.as_str(), &next.other_paths), ("b", &vec![text("c")]));
    let last = next.at_next_port().expect("one port is left");
    assert_eq!((last.path.as_str(), last.other_paths.len()), ("c", 0));
    assert!(last.at_next_port().is_none());
}

#[test]
fn discovery_lists_one_device_per_keyboard() {
    let ports = vec![
        usb("a", Some("rynk:1")),
        usb("b", Some("2")),
        usb("c", Some("rynk:3")),
        usb("d", Some("rynk:1")),
        other("e", PortType::Unknown),
        usb("f", Some("rynk:3")),
        usb("g", Some("2")),
        usb("h", Some("rynk:1")),
    ];
    let devices = discover(Ok(Ok(ports))).unwrap();
    let listed: Vec<(&str, Vec<&str>)> = devices
        .iter()
        .map(|d| (d.path.as_str(), d.other_paths.iter().map(|p| p.as_str()).collect()))
        .collect();
    assert_eq!(listed, vec![("a", vec!["d", "h"]), ("c", vec!["f"])]);
    assert!(found(vec![]).is_empty());
}

#[test]
fn different_keyboards_are_kept_apart() {
    let ports = vec![
        usb_device("a", 1, 2, "rynk:x", Some("1-1")),
        usb_device("b", 9, 2, "rynk:x", Some("1-1")),
        usb_device("c", 1, 9, "rynk:x", Some("1-1")),
        usb_device("d", 1, 2, "rynk:y", Some("1-1")),
        usb_device("e", 1, 2, "rynk:x", Some("1-2")),
        usb_device("h", 1, 2, "rynk:x", Some("1-1")),
    ];
    assert_eq!(found(ports), vec!["a", "b", "c", "d", "e"]);
}

#[test]
fn ports_at_unknown_places_are_all_listed() {
    assert_eq!(usb_place(Some(text("1-1")), "a"), "1-1");
    assert_eq!(usb_place(None, "a"), "a");
    // They may be two keyboards of one serial number, so none is passed over.
    let ports = vec![
        usb_device("a", 1, 2, "rynk:x", None),
        usb_device("b", 1, 2, "rynk:x", None),
        usb_device("c", 1, 2, "rynk:x", Some("1-1")),
    ];
    assert_eq!(found(ports), vec!["a", "b", "c"]);
}

#[test]
fn enumeration_failures_are_reported() {
    assert!(matches!(rynk_serial_ports(Err(text("no sysfs"))), Err(TransportError::Io(m)) if m == "no sysfs"));
    assert!(matches!(candidates_blocking(Ok(Err(text("no sysfs")))), Err(TransportError::Io(m)) if m == "no sysfs"));
    assert!(matches!(candidates_blocking(Err(text("cancelled"))), Err(TransportError::Io(m)) if m == "cancelled"));
    assert!(matches!(discover(Ok(Err(text("no sysfs")))), Err(TransportError::Io(m)) if m == "no sysfs"));
    assert!(matches!(discover(Err(text("cancelled"))), Err(TransportError::Io(m)) if m == "cancelled"));
}

#[test]
fn unplugged_device_fails_to_open() {
    let device = SerialDevice { path: text("/dev/ttyACM0"), other_paths: vec![text("/dev/ttyACM1")] };
    let err = match device.connect::<(), VersionMismatch>(Err(text("No such device"))) {
        Err(err) => err,
        Ok(_) => panic!("the port is gone"),
    };
    assert!(matches!(err, ConnectError::Transport(TransportError::Io(m)) if m == "open /dev/ttyACM0: No such device"));
    assert_eq!(CDC_BAUD_RATE, 115_200);
}

#[test]
fn link_failures_pass_through_unchanged() {
    let gone: Result<(), ConnectError<VersionMismatch>> = opened(Err(TransportError::Disconnected));
    assert!(matches!(gone, Err(ConnectError::Transport(TransportError::Disconnected))));
    assert!(matches!(opened::<_, VersionMismatch>(Ok(5)), Ok(5)));
}
