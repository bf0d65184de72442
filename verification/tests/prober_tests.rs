use usb_monitor_switcher::identifier::DeviceIdentifier;
use usb_monitor_switcher::prober::{probe, MonitoredSet};

fn device(vendor_id: u16, product_id: u16) -> DeviceIdentifier {
    DeviceIdentifier { vendor_id, product_id }
}

fn tokens(items: &[&str]) -> Vec<String> {
    items.iter().map(|s| s.to_string()).collect()
}

#[test]
fn finds_a_monitored_device_in_the_inventory() {
    let monitored = MonitoredSet::from_tokens(&tokens(&["VID_046D&PID_085C", "VID_1234&PID_5678"]));
    let inventory = Some(vec![device(1, 1), device(0x1234, 0x5678), device(2, 2)]);
    assert!(probe(&monitored, &inventory));
}

#[test]
fn both_ids_must_match() {
    let monitored = MonitoredSet::from_tokens(&tokens(&["VID_046D&PID_085C"]));
    assert!(!probe(&monitored, &Some(vec![device(0x046D, 0x085D)])));
    assert!(!probe(&monitored, &Some(vec![device(0x046E, 0x085C)])));
    assert!(!probe(&monitored, &Some(vec![device(0x085C, 0x046D)])));
    assert!(probe(&monitored, &Some(vec![device(0x046D, 0x085C)])));
}

#[test]
fn empty_inventory_means_absent() {
    let monitored = MonitoredSet::from_tokens(&tokens(&["VID_046D&PID_085C"]));
    assert!(!probe(&monitored, &Some(Vec::new())));
}

#[test]
fn missing_inventory_fails_closed() {
    let monitored = MonitoredSet::from_tokens(&tokens(&["VID_046D&PID_085C"]));
    assert!(!probe(&monitored, &None));
}

#[test]
fn empty_monitored_set_is_never_present() {
    let monitored = MonitoredSet::from_tokens(&Vec::new());
    assert!(!probe(&monitored, &Some(vec![device(0x046D, 0x085C)])));
    assert!(!probe(&monitored, &None));
}

#[test]
fn malformed_tokens_are_skipped_and_the_rest_kept() {
    let monitored = MonitoredSet::from_tokens(&tokens(&[
        "VID_ZZZZ&PID_0001",
        "VID_046D&PID_085C",
        "nonsense",
        "VID_0001",
        "PID_0002&VID_0003",
    ]));
    assert_eq!(monitored.devices(), &vec![device(0x046D, 0x085C), device(3, 2)]);
    assert!(probe(&monitored, &Some(vec![device(3, 2)])));
    assert!(!probe(&monitored, &Some(vec![device(0, 1)])));
}

#[test]
fn tokens_keep_their_order_and_repeats() {
    let monitored =
        MonitoredSet::from_tokens(&tokens(&["VID_2&PID_2", "VID_1&PID_1", "VID_2&PID_2"]));
    assert_eq!(monitored.devices(), &vec![device(2, 2), device(1, 1), device(2, 2)]);
}

#[test]
fn order_of_either_list_does_not_matter() {
    let forward = MonitoredSet::from_identifiers(vec![device(1, 1), device(2, 2), device(3, 3)]);
    let backward = MonitoredSet::from_identifiers(vec![device(3, 3), device(2, 2), device(1, 1)]);
    let listings = [
        vec![device(9, 9), device(2, 2)],
        vec![device(2, 2), device(9, 9)],
        vec![device(9, 9), device(8, 8)],
        vec![device(8, 8), device(9, 9)],
        vec![device(3, 3), device(1, 1), device(3, 3)],
    ];
    let expected = [true, true, false, false, true];
    for (listing, want) in listings.iter().zip(expected) {
        let inventory = Some(listing.clone());
        assert_eq!(probe(&forward, &inventory), want);
        assert_eq!(probe(&backward, &inventory), want);
    }
}

#[test]
fn probing_changes_nothing_and_can_be_repeated() {
    let monitored = MonitoredSet::from_identifiers(vec![device(1, 2)]);
    let inventory = Some(vec![device(1, 2)]);
    let before = monitored.clone();
    for _ in 0..3 {
        assert!(probe(&monitored, &inventory));
    }
    assert_eq!(monitored, before);
    assert_eq!(inventory, Some(vec![device(1, 2)]));
}

#[test]
fn membership_of_single_devices() {
    let monitored = MonitoredSet::from_identifiers(vec![device(1, 2), device(3, 4)]);
    assert!(monitored.contains(device(1, 2)));
    assert!(monitored.contains(device(3, 4)));
    assert!(!monitored.contains(device(1, 4)));
    assert!(!monitored.contains(device(3, 2)));
}
