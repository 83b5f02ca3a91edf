use servo_bus::ports::normalize_ports;
use servo_bus::ports::str_lt;

#[test]
fn port_lists_come_out_sorted_and_unique() {
    let gathered = vec![
        String::from("/dev/ttyUSB1"),
        String::from("/dev/ttyACM0"),
        String::from("/dev/ttyUSB0"),
        String::from("/dev/ttyACM0"),
        String::from("/dev/ttyUSB1"),
    ];
    let r = normalize_ports(gathered);
    assert_eq!(
        r,
        vec![
            String::from("/dev/ttyACM0"),
            String::from("/dev/ttyUSB0"),
            String::from("/dev/ttyUSB1"),
        ]
    );
}

#[test]
fn empty_port_list_stays_empty() {
    let r = normalize_ports(Vec::new());
    assert!(r.is_empty());
}

#[test]
fn already_sorted_list_is_kept() {
    let gathered = vec![String::from("a"), String::from("b"), String::from("c")];
    let r = normalize_ports(gathered.clone());
    assert_eq!(r, gathered);
}

#[test]
fn string_order_is_lexicographic() {
    assert!(str_lt("", "a"));
    assert!(!str_lt("a", ""));
    assert!(str_lt("abc", "abd"));
    assert!(str_lt("ab", "abc"));
    assert!(!str_lt("abc", "abc"));
    assert!(str_lt("/dev/ttyACM0", "/dev/ttyUSB0"));
}
