//! Which serial port is the device's.
use proto_control::ports;
use proto_control::ports::{IdFiles, SerialPort, TtyEntry, UsbIds};

fn port(name: &str, usb: Option<(u16, u16)>) -> SerialPort {
    SerialPort { name: name.to_string(), usb: usb.map(|(vid, pid)| UsbIds { vid, pid }) }
}

fn tty(name: &str, ids: &[(&str, &str)]) -> TtyEntry {
    TtyEntry {
        name: name.to_string(),
        ids: ids
            .iter()
            .map(|(v, p)| IdFiles { vendor: v.to_string(), product: p.to_string() })
            .collect(),
    }
}

#[test]
fn the_first_name_is_the_least() {
    let names: Vec<String> = ["b", "a10", "a2", "a"].iter().map(|s| s.to_string()).collect();
    assert_eq!(ports::least(&names), Some("a".to_string()));
    assert_eq!(ports::least(&vec![]), None);
}

#[test]
fn the_order_of_listing_does_not_matter() {
    let a = vec![
        port("/dev/ttyACM1", Some((0x2E8A, 0xF010))),
        port("/dev/ttyACM0", Some((0x2E8A, 0xF010))),
        port("/dev/ttyACM00", Some((0x2E8A, 0x0001))),
        port("/dev/ttyS0", None),
    ];
    assert_eq!(ports::find_roto_control_port(&a), Some("/dev/ttyACM0".to_string()));
    let mut b = a;
    b.reverse();
    assert_eq!(ports::find_roto_control_port(&b), Some("/dev/ttyACM0".to_string()));
}

#[test]
fn other_ports_are_passed_over() {
    assert_eq!(ports::find_roto_control_port(&vec![]), None);
    assert_eq!(ports::find_roto_control_port(&vec![port("/dev/ttyACM0", Some((0x2E8A, 1)))]), None);
    assert_eq!(ports::find_roto_control_port(&vec![port("/dev/ttyACM0", None)]), None);
}

#[test]
fn terminals_are_known_by_a_device_above_them() {
    let entries = vec![
        tty("ttyS0", &[("2e8a\n", "f010\n")]),
        tty("ttyACM3", &[("", ""), ("2E8A\n", "F010\n"), ("1d6b", "0002")]),
        tty("ttyACM2", &[("", ""), (" 2e8a ", "f010\n")]),
        tty("ttyACM1", &[("2e8a", "f011")]),
        tty("ttyACM0", &[]),
    ];
    assert_eq!(ports::find_tty_port(&entries), Some("/dev/ttyACM2".to_string()));
    assert_eq!(ports::find_tty_port(&vec![]), None);
}

#[test]
fn ids_are_compared_in_lower_case() {
    assert!(ports::is_roto_control("2e8a", "f010"));
    assert!(!ports::is_roto_control("2E8A", "f010"));
    assert!(!ports::is_roto_control("2e8a", "f011"));
    assert!(ports::is_candidate_tty("ttyACM7"));
    assert!(!ports::is_candidate_tty("ttyUSB0"));
}

#[test]
fn terminals_count_only_without_a_listed_port() {
    let listed = vec![port("/dev/ttyACM5", Some((0x2E8A, 0xF010)))];
    let entries = vec![tty("ttyACM0", &[("2e8a", "f010")])];
    assert_eq!(ports::find_port(&listed, &entries), Some("/dev/ttyACM5".to_string()));
    assert_eq!(ports::find_port(&vec![], &entries), Some("/dev/ttyACM0".to_string()));
    assert_eq!(ports::find_port(&vec![], &vec![]), None);
}
