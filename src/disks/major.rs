use vstd::prelude::*;

verus! {

/// The major number of a block device, by the driver that it names.
#[derive(Debug, Copy, Clone, PartialEq, Eq, Structural)]
pub enum Major {
    /// 0: unnamed devices, such as mounts that no device backs.
    Unnamed,
    /// 1: RAM disk.
    RamDisk,
    /// 2: floppy disks.
    FloppyDisk,
    /// 3: first MFM, RLL and IDE hard disk or CD-ROM interface.
    Ide,
    /// 4: aliases for dynamically allocated major devices.
    Dynamic,
    /// 7: loopback devices.
    Loopback,
    /// 8: SCSI disk devices.
    ScsiDisk,
    /// 9: metadisk (RAID) devices.
    RaidMetaDisk,
    /// 11: SCSI CD-ROM devices.
    ScsiCdRom,
    /// 13: the former XT disk.
    XTDisk,
    /// 15: Sony CDU-31A/CDU-33A CD-ROM.
    SonyCdRom,
    /// 16: GoldStar CD-ROM.
    GoldStarCdRom,
    /// 17: Optics Storage CD-ROM.
    OpticsStorageCdRom,
    /// 18: Sanyo CD-ROM.
    SanyoCdRom,
    /// 19: "Double" compressed disk.
    DoubleCompressedDisk,
    /// 20: Hitachi CD-ROM.
    HitachiCdRom,
    /// 21: Acorn MFM hard drive interface.
    AcornMfmDrive,
    /// 22: second IDE hard disk or CD-ROM interface.
    SecondsIde,
    /// Any other major number.
    NotSupported,
}

/// The driver that the major number `major` names.
pub open spec fn major_of(major: u32) -> Major {
    if major == 0 {
        Major::Unnamed
    } else if major == 1 {
        Major::RamDisk
    } else if major == 2 {
        Major::FloppyDisk
    } else if major == 3 {
        Major::Ide
    } else if major == 4 {
        Major::Dynamic
    } else if major == 7 {
        Major::Loopback
    } else if major == 8 {
        Major::ScsiDisk
    } else if major == 9 {
        Major::RaidMetaDisk
    } else if major == 11 {
        Major::ScsiCdRom
    } else if major == 13 {
        Major::XTDisk
    } else if major == 15 {
        Major::SonyCdRom
    } else if major == 16 {
        Major::GoldStarCdRom
    } else if major == 17 {
        Major::OpticsStorageCdRom
    } else if major == 18 {
        Major::SanyoCdRom
    } else if major == 19 {
        Major::DoubleCompressedDisk
    } else if major == 20 {
        Major::HitachiCdRom
    } else if major == 21 {
        Major::AcornMfmDrive
    } else if major == 22 {
        Major::SecondsIde
    } else {
        Major::NotSupported
    }
}

impl From<u32> for Major {
    fn from(major: u32) -> (r: Major) {
        match major {
            0 => Major::Unnamed,
            1 => Major::RamDisk,
            2 => Major::FloppyDisk,
            3 => Major::Ide,
            4 => Major::Dynamic,
            7 => Major::Loopback,
            8 => Major::ScsiDisk,
            9 => Major::RaidMetaDisk,
            11 => Major::ScsiCdRom,
            13 => Major::XTDisk,
            15 => Major::SonyCdRom,
            16 => Major::GoldStarCdRom,
            17 => Major::OpticsStorageCdRom,
            18 => Major::SanyoCdRom,
            19 => Major::DoubleCompressedDisk,
            20 => Major::HitachiCdRom,
            21 => Major::AcornMfmDrive,
            22 => Major::SecondsIde,
            _ => Major::NotSupported,
        }
    }
}

impl vstd::std_specs::convert::FromSpecImpl<u32> for Major {
    open spec fn obeys_from_spec() -> bool {
        true
    }

    open spec fn from_spec(major: u32) -> Major {
        major_of(major)
    }
}

} // verus!
