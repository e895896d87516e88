use scribe::block_dev::util::IntBool;
use scribe::block_dev::{
    block_devices, candidates, include_dev, run_checks, workout_type, BlockDevice, DeviceAttributes,
    DeviceError, DeviceType, Reason, Size,
};
use scribe::mounts::{parse_mounts, MountEntry};

fn attrs(name: &str, size: &str, removable: Option<&str>) -> DeviceAttributes {
    DeviceAttributes {
        name: name.to_string(),
        has_device_dir: true,
        size: Some(size.to_string()),
        removable: removable.map(|r| r.to_string()),
        read_only: Some("0\n".to_string()),
        vendor: None,
        model: None,
    }
}

fn no_mounts() -> Vec<MountEntry> {
    Vec::new()
}

#[test]
fn device_checks() {
    let cases = [
        ("sda", Some("0\n"), DeviceType::InternalDrive),
        ("sdb", Some("1\n"), DeviceType::FlashDrive),
        ("mmcblk0", Some("0\n"), DeviceType::SDMMC),
        ("sr0", Some("1\n"), DeviceType::CDROM),
        ("loop0", Some("0\n"), DeviceType::LoopBack),
        ("nvme0n1", Some("0\n"), DeviceType::InternalDrive),
    ];
    for (name, removable, expected) in cases.iter() {
        let dev = BlockDevice::new(&attrs(name, "1000\n", *removable), &no_mounts()).unwrap();
        assert_eq!(*expected, dev.device_type());
    }
}

#[test]
fn mmcblk_is_sdmmc_whatever_removable() {
    for removable in [Some("0"), Some("1"), Some(" 0 \n"), Some("junk"), None] {
        assert_eq!(workout_type("mmcblk0", removable), Ok(DeviceType::SDMMC));
        assert_eq!(workout_type("mmcblk1p1", removable), Ok(DeviceType::SDMMC));
    }
}

#[test]
fn sd_devices_follow_removable() {
    assert_eq!(workout_type("sda", Some("0\n")), Ok(DeviceType::InternalDrive));
    assert_eq!(workout_type("sda", Some("  0  ")), Ok(DeviceType::InternalDrive));
    assert_eq!(workout_type("sdb", Some("1\n")), Ok(DeviceType::FlashDrive));
    assert_eq!(workout_type("sdb", Some("1")), Ok(DeviceType::FlashDrive));
    assert_eq!(workout_type("sdc", None), Err(DeviceError::MissingRemovable));
}

#[test]
fn other_prefixes_classify() {
    assert_eq!(workout_type("sr0", None), Ok(DeviceType::CDROM));
    assert_eq!(workout_type("loop3", None), Ok(DeviceType::LoopBack));
    assert_eq!(workout_type("nvme0n1", None), Ok(DeviceType::InternalDrive));
    assert_eq!(workout_type("", None), Ok(DeviceType::InternalDrive));
}

#[test]
fn safe_and_excluded_types() {
    assert!(DeviceType::FlashDrive.is_safe());
    assert!(DeviceType::SDMMC.is_safe());
    assert!(!DeviceType::InternalDrive.is_safe());
    assert!(!DeviceType::ExternalDrive.is_safe());
    assert!(!DeviceType::CDROM.is_safe());
    assert!(!DeviceType::LoopBack.is_safe());
    assert!(DeviceType::CDROM.is_excluded());
    assert!(DeviceType::LoopBack.is_excluded());
    assert!(!DeviceType::FlashDrive.is_excluded());
    assert!(!DeviceType::SDMMC.is_excluded());
    assert!(!DeviceType::InternalDrive.is_excluded());
    assert!(!DeviceType::ExternalDrive.is_excluded());
}

#[test]
fn size_formatting() {
    assert_eq!(Size(2).to_string(), "1.0KiB");
    assert_eq!(Size(0).to_string(), "0");
    assert_eq!(Size(1).to_string(), "512");
    assert_eq!(Size(3).to_string(), "1.5KiB");
    assert_eq!(Size(2048).to_string(), "1.0MiB");
    assert_eq!(Size(2097152).to_string(), "1.0GiB");
    assert_eq!(Size(2147483648).to_string(), "1.0TiB");
    assert_eq!(Size(31116288).to_string(), "14.8GiB");
    assert_eq!(Size(2047).to_string(), "1023.5KiB");
    assert_eq!(Size(u64::MAX).to_string(), "8589934592.0TiB");
}

#[test]
fn size_rounding_matches_float_formatting() {
    for sectors in [1049088u64, 3u64 * 1024 * 1024 + 1, 2049, 5000, 123456789, 987654321987] {
        let bytes = sectors as f64 * 512.0;
        let expected = if bytes < 1024.0 {
            format!("{}", bytes)
        } else if bytes < 1048576.0 {
            format!("{:.1}KiB", bytes / 1024.0)
        } else if bytes < 1073741824.0 {
            format!("{:.1}MiB", bytes / 1048576.0)
        } else if bytes < 1099511627776.0 {
            format!("{:.1}GiB", bytes / 1073741824.0)
        } else {
            format!("{:.1}TiB", bytes / 1099511627776.0)
        };
        assert_eq!(Size(sectors).to_string(), expected);
    }
}

#[test]
fn large_boundary() {
    assert!(!Size(75497471).is_large());
    assert!(!Size(75497472).is_large());
    assert!(Size(75497473).is_large());
    let below = BlockDevice::new(&attrs("sdb", "75497471", Some("1")), &no_mounts()).unwrap();
    assert!(below.flags().is_empty());
    let above = BlockDevice::new(&attrs("sdb", "75497473", Some("1")), &no_mounts()).unwrap();
    assert_eq!(above.flags(), &[Reason::Large]);
}

#[test]
fn mounted_flag_by_prefix() {
    let mounts = parse_mounts("/dev/sda1 / ext4 rw 0 0\nproc /proc proc rw 0 0\n");
    let sda = BlockDevice::new(&attrs("sda", "1000", Some("1")), &mounts).unwrap();
    assert_eq!(sda.flags(), &[Reason::Mounted]);
    let sdb = BlockDevice::new(&attrs("sdb", "1000", Some("1")), &mounts).unwrap();
    assert!(sdb.flags().is_empty());
}

#[test]
fn flags_keep_their_order() {
    let mounts = parse_mounts("/dev/mmcblk0p2 /media/card vfat rw 0 0");
    let mut a = attrs("mmcblk0", "0\n", None);
    a.read_only = Some("1\n".to_string());
    let dev = BlockDevice::new(&a, &mounts).unwrap();
    assert_eq!(dev.flags(), &[Reason::Mounted, Reason::ZeroSize, Reason::ReadOnly]);
}

#[test]
fn attribute_errors() {
    let mut a = attrs("sdb", "100", Some("1"));
    a.size = None;
    assert_eq!(BlockDevice::new(&a, &no_mounts()).unwrap_err(), DeviceError::MissingSize);
    a.size = Some("12x".to_string());
    assert_eq!(BlockDevice::new(&a, &no_mounts()).unwrap_err(), DeviceError::InvalidSize);
    a.size = Some("18446744073709551616".to_string());
    assert_eq!(BlockDevice::new(&a, &no_mounts()).unwrap_err(), DeviceError::InvalidSize);
    a.size = Some("".to_string());
    assert_eq!(BlockDevice::new(&a, &no_mounts()).unwrap_err(), DeviceError::InvalidSize);
    a.size = Some("100".to_string());
    a.removable = None;
    assert_eq!(BlockDevice::new(&a, &no_mounts()).unwrap_err(), DeviceError::MissingRemovable);
    a.removable = Some("1".to_string());
    a.read_only = Some("yes".to_string());
    assert_eq!(BlockDevice::new(&a, &no_mounts()).unwrap_err(), DeviceError::InvalidReadOnly);
    a.read_only = None;
    assert!(BlockDevice::new(&a, &no_mounts()).is_ok());
}

#[test]
fn label_joins_vendor_and_model() {
    let mut a = attrs("sdb", "100", Some("1"));
    a.vendor = Some("SanDisk \n".to_string());
    a.model = Some("Ultra\n".to_string());
    assert_eq!(BlockDevice::new(&a, &no_mounts()).unwrap().label(), "SanDisk Ultra");
    a.vendor = None;
    assert_eq!(BlockDevice::new(&a, &no_mounts()).unwrap().label(), "Ultra");
    a.model = None;
    assert_eq!(BlockDevice::new(&a, &no_mounts()).unwrap().label(), "");
}

#[test]
fn device_paths() {
    let dev = BlockDevice::new(&attrs("sdb", "100", Some("1")), &no_mounts()).unwrap();
    assert_eq!(dev.dev_name(), "sdb");
    assert_eq!(dev.dev_file(), "/dev/sdb");
    assert_eq!(dev.sys_path(), "/sys/block/sdb");
    assert_eq!(dev.size(), Size(100));
}

#[test]
fn listing_lines() {
    let mut a = attrs("sdb", "31116288\n", Some("1\n"));
    a.vendor = Some("SanDisk ".to_string());
    a.model = Some("Ultra\n".to_string());
    let dev = BlockDevice::new(&a, &no_mounts()).unwrap();
    assert_eq!(
        dev.to_string(),
        "/dev/sdb      14.8GiB SanDisk Ultra             Flash Drive "
    );
    let mounts = parse_mounts("/dev/sda2 / ext4 rw 0 0\n");
    let sda = BlockDevice::new(&attrs("sda", "0", Some("0")), &mounts).unwrap();
    assert_eq!(
        sda.to_string(),
        "/dev/sda            0                           Internal Drive mounted,zero-size"
    );
}

#[test]
fn names_of_types_and_reasons() {
    assert_eq!(DeviceType::SDMMC.to_string(), "SD/MMC Card");
    assert_eq!(DeviceType::CDROM.to_string(), "CD-ROM");
    assert_eq!(Reason::ReadOnly.to_string(), "read-only");
    assert_eq!(Reason::Large.to_string(), "large");
}

fn sample_entries() -> Vec<DeviceAttributes> {
    let mut virt = attrs("loop0", "2048", Some("0"));
    virt.has_device_dir = false;
    vec![
        attrs("sda", "1000", Some("0")),
        attrs("sdb", "1000", Some("1")),
        attrs("sr0", "1000", Some("1")),
        virt,
        attrs("loop1", "1000", Some("0")),
        attrs("mmcblk0", "0", None),
    ]
}

#[test]
fn enumeration_skips_virtual_entries() {
    let results = block_devices(&sample_entries(), &no_mounts());
    let names: Vec<String> = results.iter().map(|r| r.as_ref().unwrap().dev_name().to_string()).collect();
    assert_eq!(names, vec!["sda", "sdb", "sr0", "loop1", "mmcblk0"]);
}

#[test]
fn excluded_devices_never_listed() {
    for show_all in [false, true] {
        let results = block_devices(&sample_entries(), &no_mounts());
        let offered = candidates(results, show_all).unwrap();
        for dev in offered.iter() {
            assert!(!dev.device_type().is_excluded());
            assert!(include_dev(dev, show_all));
        }
        let names: Vec<&str> = offered.iter().map(|d| d.dev_name()).collect();
        if show_all {
            assert_eq!(names, vec!["sda", "sdb", "mmcblk0"]);
        } else {
            assert_eq!(names, vec!["sdb"]);
        }
    }
}

#[test]
fn first_error_aborts_listing() {
    let mut entries = sample_entries();
    entries[1].size = None;
    entries[4].removable = None;
    entries[4].name = "sdz".to_string();
    let results = block_devices(&entries, &no_mounts());
    assert_eq!(candidates(results, true).unwrap_err(), DeviceError::MissingSize);
}

#[test]
fn int_bool_parsing() {
    assert!(bool::from(IntBool::from_str("1").unwrap()));
    assert!(!bool::from(IntBool::from_str("0").unwrap()));
    assert!(IntBool::from_str("1").unwrap().value());
    assert!(IntBool::from_str("2").is_err());
    assert!(IntBool::from_str(" 1").is_err());
    assert_eq!(
        IntBool::from_str("").unwrap_err().to_string(),
        "provided string was not `0` or `1`"
    );
}

#[test]
fn short_type_names_sit_right() {
    let mut a = attrs("sr0", "2", Some("1"));
    a.vendor = Some("HL-DT-ST".to_string());
    let dev = BlockDevice::new(&a, &no_mounts()).unwrap();
    assert_eq!(
        dev.to_string(),
        "/dev/sr0       1.0KiB HL-DT-ST                      CD-ROM "
    );
}

#[test]
fn size_with_plus_sign() {
    let dev = BlockDevice::new(&attrs("sdb", "+2\n", Some("1")), &no_mounts()).unwrap();
    assert_eq!(dev.size(), Size(2));
    let mut a = attrs("sdb", "+", Some("1"));
    assert_eq!(BlockDevice::new(&a, &no_mounts()).unwrap_err(), DeviceError::InvalidSize);
    a.size = Some("-2".to_string());
    assert_eq!(BlockDevice::new(&a, &no_mounts()).unwrap_err(), DeviceError::InvalidSize);
}

#[test]
fn checks_on_mount_table() {
    let mounts = parse_mounts("/dev/sda1 / ext4 rw 0 0\n");
    assert_eq!(run_checks("/dev/sda", Size(10), false, &mounts), vec![Reason::Mounted]);
    assert_eq!(run_checks("/dev/sdb", Size(10), false, &mounts), Vec::<Reason>::new());
    assert_eq!(
        run_checks("/dev/sdb", Size(0), true, &mounts),
        vec![Reason::ZeroSize, Reason::ReadOnly]
    );
    assert_eq!(
        run_checks("/dev/sda", Size(75497473), false, &mounts),
        vec![Reason::Mounted, Reason::Large]
    );
}
