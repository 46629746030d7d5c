use keyboard_usage_tracker::events::TouchpadContact;
use keyboard_usage_tracker::hid::{classify_datum, hid_report_contacts, CapIndex, HidCap, HidDatum};

fn value_cap(page: u16, usage: u16, link: u16, index: u16) -> HidCap {
    HidCap { usage_page: page, link_collection: link, index: CapIndex::Single { data_index: index, usage } }
}

fn datum(index: u16, value: u32) -> HidDatum {
    HidDatum { data_index: index, raw_value: value, on: false }
}

#[test]
fn two_fingers_one_lifted() {
    let values = vec![
        value_cap(0x01, 0x30, 1, 0),
        value_cap(0x01, 0x31, 1, 1),
        value_cap(0x0D, 0x51, 1, 2),
        value_cap(0x01, 0x30, 2, 3),
        value_cap(0x01, 0x31, 2, 4),
        value_cap(0x0D, 0x51, 2, 5),
    ];
    let buttons = vec![
        value_cap(0x0D, 0x42, 1, 6),
        value_cap(0x0D, 0x42, 2, 7),
    ];
    let data = vec![
        datum(0, 100),
        datum(1, 200),
        datum(2, 7),
        HidDatum { data_index: 6, raw_value: 0, on: true },
        datum(3, 300),
        datum(4, 400),
        datum(5, 8),
        HidDatum { data_index: 7, raw_value: 0, on: false },
        datum(99, 1),
    ];
    assert_eq!(hid_report_contacts(&values, &buttons, &data), vec![TouchpadContact { id: 7, x: 100, y: 200 }]);
}

#[test]
fn range_caps_give_consecutive_usages() {
    let values = vec![HidCap {
        usage_page: 0x01,
        link_collection: 4,
        index: CapIndex::Range { data_index_min: 10, data_index_max: 11, usage_min: 0x30 },
    }];
    assert_eq!(classify_datum(&values, &vec![], datum(11, 55)), Some((0x01, 0x31, 4, 55)));
    assert_eq!(classify_datum(&values, &vec![], datum(12, 55)), None);
    let data = vec![datum(10, 5), datum(11, 6)];
    assert_eq!(hid_report_contacts(&values, &vec![], &data), vec![TouchpadContact { id: 0, x: 5, y: 6 }]);
}

#[test]
fn missing_or_zero_coordinates_are_dropped() {
    let values = vec![value_cap(0x01, 0x30, 1, 0), value_cap(0x01, 0x31, 1, 1)];
    assert_eq!(hid_report_contacts(&values, &vec![], &vec![datum(0, 5)]), vec![]);
    assert_eq!(hid_report_contacts(&values, &vec![], &vec![datum(0, 5), datum(1, 0)]), vec![]);
    assert_eq!(hid_report_contacts(&values, &vec![], &vec![datum(0, 0xFFFF_FFFF), datum(1, 3)]), vec![]);
}
