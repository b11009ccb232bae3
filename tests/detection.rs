use serial_detect::{
    allow_listed, describe_port, detect_serial_ports, eq_ignoring_ascii_case, filter_candidates,
    hex_string, rejection_message, Detection, PortCandidate, PortKind, ScannedPort, Selector, Step,
    UsbInfo,
};

fn usb(name: &str, vid: u16, pid: u16) -> ScannedPort {
    ScannedPort {
        port_name: name.to_string(),
        port_type: PortKind::Usb(UsbInfo {
            vid,
            pid,
            serial_number: None,
            manufacturer: None,
            product: None,
        }),
    }
}

fn candidate(name: &str, vid: u16, pid: u16) -> PortCandidate {
    PortCandidate {
        port_name: name.to_string(),
        info: UsbInfo { vid, pid, serial_number: None, manufacturer: None, product: None },
    }
}

fn two_adapters() -> Selector {
    let scan = vec![usb("/dev/ttyUSB0", 0x1a86, 0x7523), usb("/dev/ttyUSB1", 0x0403, 0x6010)];
    match detect_serial_ports(&scan) {
        Detection::Ambiguous(s) => s,
        other => panic!("expected a choice, got {:?}", other),
    }
}

#[test]
fn allow_list_holds_the_two_chips() {
    assert!(allow_listed(0x1a86, 0x7523));
    assert!(allow_listed(0x0403, 0x6010));
    assert!(!allow_listed(0x1a86, 0x6010));
    assert!(!allow_listed(0x0403, 0x7523));
    assert!(!allow_listed(0x0000, 0x0000));
}

#[test]
fn empty_scan_finds_no_device() {
    assert_eq!(detect_serial_ports(&vec![]), Detection::NoDevice);
}

#[test]
fn scan_without_allow_listed_ports_finds_no_device() {
    let scan = vec![
        usb("/dev/ttyUSB0", 0x0000, 0x7523),
        usb("/dev/ttyUSB1", 0x1a86, 0x6010),
        ScannedPort { port_name: "/dev/ttyS0".to_string(), port_type: PortKind::Pci },
        ScannedPort { port_name: "/dev/rfcomm0".to_string(), port_type: PortKind::Bluetooth },
        ScannedPort { port_name: "/dev/ttyX".to_string(), port_type: PortKind::Unknown },
    ];
    assert_eq!(filter_candidates(&scan), vec![]);
    assert_eq!(detect_serial_ports(&scan), Detection::NoDevice);
}

#[test]
fn single_candidate_is_returned_without_prompt() {
    let scan = vec![usb("/dev/ttyUSB3", 0x0403, 0x6010)];
    assert_eq!(
        detect_serial_ports(&scan),
        Detection::Found(candidate("/dev/ttyUSB3", 0x0403, 0x6010))
    );
}

#[test]
fn non_matching_device_is_skipped() {
    let scan = vec![usb("/dev/ttyUSB0", 0x0000, 0x7523), usb("/dev/ttyUSB1", 0x1a86, 0x7523)];
    assert_eq!(
        detect_serial_ports(&scan),
        Detection::Found(candidate("/dev/ttyUSB1", 0x1a86, 0x7523))
    );
}

#[test]
fn candidate_keeps_descriptive_strings() {
    let scan = vec![ScannedPort {
        port_name: "COM3".to_string(),
        port_type: PortKind::Usb(UsbInfo {
            vid: 0x1a86,
            pid: 0x7523,
            serial_number: Some("A1".to_string()),
            manufacturer: Some("wch.cn".to_string()),
            product: None,
        }),
    }];
    let found = filter_candidates(&scan);
    assert_eq!(found.len(), 1);
    assert_eq!(found[0].port_name, "COM3");
    assert_eq!(found[0].info.serial_number, Some("A1".to_string()));
    assert_eq!(found[0].info.manufacturer, Some("wch.cn".to_string()));
    assert_eq!(found[0].info.product, None);
}

#[test]
fn candidates_keep_scan_order() {
    let scan = vec![
        usb("/dev/ttyUSB2", 0x0403, 0x6010),
        usb("/dev/ttyS0", 0x0000, 0x0001),
        usb("/dev/ttyUSB0", 0x1a86, 0x7523),
    ];
    assert_eq!(
        filter_candidates(&scan),
        vec![candidate("/dev/ttyUSB2", 0x0403, 0x6010), candidate("/dev/ttyUSB0", 0x1a86, 0x7523)]
    );
}

#[test]
fn two_candidates_ask_the_operator() {
    let sel = two_adapters();
    assert_eq!(
        sel.candidates(),
        &vec![candidate("/dev/ttyUSB0", 0x1a86, 0x7523), candidate("/dev/ttyUSB1", 0x0403, 0x6010)]
    );
    assert_eq!(sel.names(), "/dev/ttyUSB0, /dev/ttyUSB1");
    assert_eq!(sel.prompt(), "xtask: please select one port [/dev/ttyUSB0, /dev/ttyUSB1]: ");
}

#[test]
fn one_rejection_then_second_candidate() {
    let sel = two_adapters();
    let r = sel.run_script(&vec!["foo\n".to_string(), "/dev/ttyUSB1\n".to_string()]);
    assert_eq!(r.chosen, Some(candidate("/dev/ttyUSB1", 0x0403, 0x6010)));
    assert_eq!(r.rejected, vec!["foo".to_string()]);
}

#[test]
fn selection_ignores_ascii_case_and_white_space() {
    let sel = two_adapters();
    assert_eq!(
        sel.offer("  /DEV/TTYusb0 \r\n"),
        Step::Matched(candidate("/dev/ttyUSB0", 0x1a86, 0x7523))
    );
    assert_eq!(
        sel.offer_token("/dev/TTYUSB1"),
        Step::Matched(candidate("/dev/ttyUSB1", 0x0403, 0x6010))
    );
}

#[test]
fn untrimmed_token_is_rejected() {
    let sel = two_adapters();
    assert_eq!(sel.offer_token(" /dev/ttyUSB0"), Step::Rejected(" /dev/ttyUSB0".to_string()));
    assert_eq!(sel.offer("\t/dev/ttyUSB\n"), Step::Rejected("/dev/ttyUSB".to_string()));
}

#[test]
fn many_rejections_do_not_end_the_selection() {
    let sel = two_adapters();
    let mut lines: Vec<String> = Vec::new();
    for i in 0..50 {
        lines.push(format!("tty{}", i));
    }
    lines.push("/dev/ttyusb0".to_string());
    lines.push("/dev/ttyUSB1".to_string());
    let r = sel.run_script(&lines);
    assert_eq!(r.chosen, Some(candidate("/dev/ttyUSB0", 0x1a86, 0x7523)));
    assert_eq!(r.rejected.len(), 50);
    assert_eq!(r.rejected[49], "tty49");
}

#[test]
fn no_matching_line_chooses_nothing() {
    let sel = two_adapters();
    let r = sel.run_script(&vec!["a".to_string(), "".to_string(), "/dev/ttyUSB".to_string()]);
    assert_eq!(r.chosen, None);
    assert_eq!(r.rejected, vec!["a".to_string(), "".to_string(), "/dev/ttyUSB".to_string()]);
    let r = sel.run_script(&vec![]);
    assert_eq!(r.chosen, None);
    assert!(r.rejected.is_empty());
}

#[test]
fn rejection_message_names_the_input() {
    assert_eq!(
        rejection_message("foo"),
        "Input 'foo' does not match to any ports! Please input again."
    );
}

#[test]
fn ascii_case_comparison() {
    assert!(eq_ignoring_ascii_case("COM3", "com3"));
    assert!(eq_ignoring_ascii_case("", ""));
    assert!(eq_ignoring_ascii_case("Ünï", "Ünï"));
    assert!(!eq_ignoring_ascii_case("ü", "Ü"));
    assert!(!eq_ignoring_ascii_case("COM3", "COM33"));
    assert!(!eq_ignoring_ascii_case("[", "{"));
    assert!(!eq_ignoring_ascii_case("@", "`"));
}

#[test]
fn hexadecimal_without_leading_zeros() {
    assert_eq!(hex_string(0), "0");
    assert_eq!(hex_string(0x1a86), "1a86");
    assert_eq!(hex_string(0x0403), "403");
    assert_eq!(hex_string(0xffff), "ffff");
    assert_eq!(hex_string(16), "10");
}

#[test]
fn description_lists_present_fields() {
    let mut c = candidate("/dev/ttyUSB0", 0x1a86, 0x7523);
    assert_eq!(describe_port(&c), "Port /dev/ttyUSB0: vid: 1a86, pid: 7523");
    c.info.serial_number = Some("S1".to_string());
    c.info.product = Some("USB Serial".to_string());
    assert_eq!(
        describe_port(&c),
        "Port /dev/ttyUSB0: vid: 1a86, pid: 7523, serial number: S1, product: USB Serial"
    );
    c.info.manufacturer = Some("FTDI".to_string());
    assert_eq!(
        describe_port(&c),
        "Port /dev/ttyUSB0: vid: 1a86, pid: 7523, serial number: S1, manufacturer: FTDI, product: USB Serial"
    );
}
