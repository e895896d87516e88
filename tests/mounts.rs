use scribe::mounts::{is_mounted, parse_mounts};

#[test]
fn parses_source_and_target() {
    let m = parse_mounts("/dev/sda1 / ext4 rw 0 0\n\n   \nbroken\n  /dev/sdb2\t/mnt/usb vfat\n/dev/sdc1 /x");
    let pairs: Vec<(&str, &str)> = m.iter().map(|e| (e.source.as_str(), e.target.as_str())).collect();
    assert_eq!(pairs, vec![("/dev/sda1", "/"), ("/dev/sdb2", "/mnt/usb"), ("/dev/sdc1", "/x")]);
}

#[test]
fn empty_table() {
    assert!(parse_mounts("").is_empty());
    assert!(parse_mounts("\n\n").is_empty());
}

#[test]
fn prefix_match_on_sources() {
    let m = parse_mounts("/dev/sda1 / ext4 rw 0 0\n");
    assert!(is_mounted("/dev/sda", &m));
    assert!(!is_mounted("/dev/sdb", &m));
    assert!(is_mounted("/dev/sda1", &m));
    assert!(!is_mounted("/dev/sda10", &m));
}
