use gcast::discovery::{run, Discovery, Record, RecordKind};
use gcast::DeviceInfo;

const UUID: u128 = 0xd7288042_190b_5974_aa3b_2558f1cb0c0e;

fn address(name: &str, ip_addr: u32) -> Record {
    Record { name: name.to_owned(), kind: RecordKind::A(ip_addr) }
}

fn other(name: &str) -> Record {
    Record { name: name.to_owned(), kind: RecordKind::Other }
}

#[test]
fn a_response_with_an_address_shows_a_device() {
    let mut discovery = Discovery::new();
    let response = vec![
        other("_googlecast._tcp.local"),
        address("d7288042-190b-5974-aa3b-2558f1cb0c0e.local", 0xc0a8_0166),
        other("d7288042-190b-5974-aa3b-2558f1cb0c0e.local"),
    ];

    assert_eq!(discovery.observe(&response), Some(DeviceInfo { ip_addr: 0xc0a8_0166, uuid: UUID }));
    assert!(discovery.knows(0xc0a8_0166));
    assert!(!discovery.knows(0xc0a8_0167));
}

#[test]
fn the_name_may_come_without_the_suffix_or_without_hyphens() {
    let mut discovery = Discovery::new();

    assert_eq!(
        discovery.observe(&vec![address("d7288042-190b-5974-aa3b-2558f1cb0c0e", 1)]),
        Some(DeviceInfo { ip_addr: 1, uuid: UUID })
    );
    assert_eq!(
        discovery.observe(&vec![address("d7288042190b5974aa3b2558f1cb0c0e.local", 2)]),
        Some(DeviceInfo { ip_addr: 2, uuid: UUID })
    );
}

#[test]
fn only_the_suffix_at_the_end_is_taken_off() {
    let mut discovery = Discovery::new();

    assert_eq!(
        discovery.observe(&vec![address("d7288042-190b-5974-aa3b-2558f1cb0c0e.local.local", 1)]),
        None
    );
    assert_eq!(
        discovery.observe(&vec![address(".locald7288042-190b-5974-aa3b-2558f1cb0c0e", 1)]),
        None
    );
    assert!(!discovery.knows(1));
}

#[test]
fn the_same_address_is_found_once() {
    let mut discovery = Discovery::new();
    let first = vec![address("d7288042-190b-5974-aa3b-2558f1cb0c0e.local", 7)];
    let again = vec![address("00000000-0000-0000-0000-000000000001.local", 7)];
    let another = vec![address("00000000-0000-0000-0000-000000000001.local", 8)];

    assert_eq!(discovery.observe(&first), Some(DeviceInfo { ip_addr: 7, uuid: UUID }));
    assert_eq!(discovery.observe(&first), None);
    assert_eq!(discovery.observe(&again), None);
    assert_eq!(discovery.observe(&another), Some(DeviceInfo { ip_addr: 8, uuid: 1 }));
    assert_eq!(discovery.observe(&another), None);
    assert_eq!(discovery.observe(&first), None);
}

#[test]
fn a_response_without_an_address_is_passed_over() {
    let mut discovery = Discovery::new();

    assert_eq!(discovery.observe(&vec![]), None);
    assert_eq!(
        discovery.observe(&vec![other("d7288042-190b-5974-aa3b-2558f1cb0c0e.local")]),
        None
    );
}

#[test]
fn a_name_that_holds_no_uuid_is_passed_over_and_its_address_stays_unknown() {
    let mut discovery = Discovery::new();

    assert_eq!(discovery.observe(&vec![address("Chromecast.local", 7)]), None);
    assert_eq!(discovery.observe(&vec![address(".local", 7)]), None);
    assert_eq!(discovery.observe(&vec![address("", 7)]), None);
    assert!(!discovery.knows(7));
    assert_eq!(
        discovery.observe(&vec![address("d7288042-190b-5974-aa3b-2558f1cb0c0e.local", 7)]),
        Some(DeviceInfo { ip_addr: 7, uuid: UUID })
    );
}

#[test]
fn the_last_address_of_a_response_counts() {
    let mut discovery = Discovery::new();
    let response = vec![
        address("00000000-0000-0000-0000-000000000001.local", 1),
        address("00000000-0000-0000-0000-000000000002.local", 2),
        other("00000000-0000-0000-0000-000000000003.local"),
    ];

    assert_eq!(discovery.observe(&response), Some(DeviceInfo { ip_addr: 2, uuid: 2 }));
    assert!(!discovery.knows(1));
    assert!(discovery.knows(2));
}

#[test]
fn a_run_finds_each_device_once_in_order() {
    let responses = vec![
        vec![other("_googlecast._tcp.local")],
        vec![address("00000000-0000-0000-0000-000000000001.local", 1)],
        vec![address("no uuid.local", 9)],
        vec![address("00000000-0000-0000-0000-000000000002.local", 2)],
        vec![address("00000000-0000-0000-0000-000000000003.local", 1)],
        vec![],
        vec![address("00000000-0000-0000-0000-000000000009.local", 9)],
        vec![address("00000000-0000-0000-0000-000000000002.local", 2)],
    ];

    assert_eq!(run(&responses), vec![
        DeviceInfo { ip_addr: 1, uuid: 1 },
        DeviceInfo { ip_addr: 2, uuid: 2 },
        DeviceInfo { ip_addr: 9, uuid: 9 },
    ]);
    assert_eq!(run(&vec![]), vec![]);
}
