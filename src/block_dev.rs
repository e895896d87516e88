//! Classification of block devices and the flags that mark risky ones.
//!
//! The device type is a heuristic drawn from the kernel name and the `removable`
//! attribute alone; it is no guarantee of what the hardware is.
use vstd::prelude::*;
use crate::mounts::{entry_views, is_mounted, mount_table, mounted, MountEntry};
use crate::text::{
    decimal, digit_char, has_prefix, joined, join_parts, padded, parse_decimal, push_decimal,
    push_padded, push_padded_left, padded_left, same_text, starts_with, trim, trimmed, is_decimal,
    decimal_value, unsigned_digits,
};
use self::util::{int_bool_of, IntBool};

pub mod util;

verus! {

/// The general type of a block device. Flash drives and SD/MMC cards are the
/// types considered safe to write to.
#[derive(Debug, PartialEq, Eq, Structural, Copy, Clone)]
pub enum DeviceType {
    /// USB flash drives; this can include SD/MMC adaptors that present themselves
    /// as SCSI devices.
    FlashDrive,
    /// SD/MMC cards and card readers.
    SDMMC,
    /// Any internal drive, and any device whose name is not recognised.
    InternalDrive,
    /// An external drive that is no good target for an OS image, such as a USB
    /// hard disk. Nothing tells these apart from internal drives yet.
    ExternalDrive,
    /// An optical drive: never a write target.
    CDROM,
    /// A loopback device: virtual, never a write target.
    LoopBack,
}

impl DeviceType {
    pub open spec fn safe(self) -> bool {
        self is FlashDrive || self is SDMMC
    }

    pub open spec fn excluded(self) -> bool {
        self is CDROM || self is LoopBack
    }

    /// True for the types that are write targets by default.
    pub fn is_safe(&self) -> (r: bool)
        ensures
            r == self.safe(),
    {
        match self {
            DeviceType::FlashDrive => true,
            DeviceType::SDMMC => true,
            DeviceType::InternalDrive => false,
            DeviceType::ExternalDrive => false,
            DeviceType::CDROM => false,
            DeviceType::LoopBack => false,
        }
    }

    /// True for the types that never appear in a listing.
    pub fn is_excluded(&self) -> (r: bool)
        ensures
            r == self.excluded(),
    {
        match self {
            DeviceType::FlashDrive => false,
            DeviceType::SDMMC => false,
            DeviceType::InternalDrive => false,
            DeviceType::ExternalDrive => false,
            DeviceType::CDROM => true,
            DeviceType::LoopBack => true,
        }
    }

    pub open spec fn label(self) -> Seq<char> {
        match self {
            DeviceType::FlashDrive => "Flash Drive"@,
            DeviceType::SDMMC => "SD/MMC Card"@,
            DeviceType::InternalDrive => "Internal Drive"@,
            DeviceType::ExternalDrive => "External Drive"@,
            DeviceType::CDROM => "CD-ROM"@,
            DeviceType::LoopBack => "LoopBack"@,
        }
    }

    /// The name shown for this type in listings.
    pub fn to_string(&self) -> (r: String)
        ensures
            r@ == self.label(),
    {
        String::from_str(
            match self {
                DeviceType::FlashDrive => "Flash Drive",
                DeviceType::SDMMC => "SD/MMC Card",
                DeviceType::InternalDrive => "Internal Drive",
                DeviceType::ExternalDrive => "External Drive",
                DeviceType::CDROM => "CD-ROM",
                DeviceType::LoopBack => "LoopBack",
            },
        )
    }
}

/// A reason why a device is not considered safe to write an image to.
#[derive(Debug, PartialEq, Eq, Structural, Copy, Clone)]
pub enum Reason {
    /// The device, or one of its partitions, is mounted.
    Mounted,
    /// The device has a size of zero, typically a card reader with no card.
    ZeroSize,
    /// The device is marked read only, such as a card with its lock switch set.
    ReadOnly,
    /// The device is larger than 36 GiB: more likely a backup disk than a medium
    /// for OS images.
    Large,
}

impl Reason {
    pub open spec fn label(self) -> Seq<char> {
        match self {
            Reason::Mounted => "mounted"@,
            Reason::ZeroSize => "zero-size"@,
            Reason::ReadOnly => "read-only"@,
            Reason::Large => "large"@,
        }
    }

    /// The name shown for this reason in listings.
    pub fn to_string(&self) -> (r: String)
        ensures
            r@ == self.label(),
    {
        String::from_str(
            match self {
                Reason::Mounted => "mounted",
                Reason::ZeroSize => "zero-size",
                Reason::ReadOnly => "read-only",
                Reason::Large => "large",
            },
        )
    }
}

/// Why a device record could not be built from its attributes.
#[derive(Debug, PartialEq, Eq, Structural, Copy, Clone)]
pub enum DeviceError {
    /// The `size` attribute is absent.
    MissingSize,
    /// The `size` attribute is not a decimal sector count that fits in 64 bits.
    InvalidSize,
    /// A device named `sd*` has no `removable` attribute.
    MissingRemovable,
    /// The `ro` attribute is neither `0` nor `1`.
    InvalidReadOnly,
}

/// The size of a device in 512-byte sectors.
#[derive(Debug, Copy, Clone, PartialEq, Eq, Structural)]
pub struct Size(pub u64);

pub const SECTOR_BYTES: u128 = 512;

pub const KIB: u128 = 1024;

pub const MIB: u128 = 1048576;

pub const GIB: u128 = 1073741824;

pub const TIB: u128 = 1099511627776;

/// 36 GiB: a device above this size is flagged `Large`.
pub const LARGE_BYTES: u128 = 38654705664;

/// `bytes / unit` in tenths, rounded to the nearest tenth, ties to even.
pub open spec fn rounded_tenths(bytes: nat, unit: nat) -> nat
    recommends
        unit > 0,
{
    let q = bytes * 10 / unit;
    let r = bytes * 10 % unit;
    if 2 * r > unit || (2 * r == unit && q % 2 == 1) {
        q + 1
    } else {
        q
    }
}

/// A count of tenths written with one decimal place.
pub open spec fn one_decimal(tenths: nat) -> Seq<char> {
    decimal(tenths / 10) + seq!['.', digit_char(tenths % 10)]
}

/// How a size of `sectors` sectors is shown: the byte count below 1 KiB, else one
/// decimal place in the largest binary unit (up to TiB) that is not above it.
pub open spec fn size_text(sectors: nat) -> Seq<char> {
    let bytes = sectors * 512;
    if bytes < KIB {
        decimal(bytes)
    } else if bytes < MIB {
        one_decimal(rounded_tenths(bytes, KIB as nat)) + "KiB"@
    } else if bytes < GIB {
        one_decimal(rounded_tenths(bytes, MIB as nat)) + "MiB"@
    } else if bytes < TIB {
        one_decimal(rounded_tenths(bytes, GIB as nat)) + "GiB"@
    } else {
        one_decimal(rounded_tenths(bytes, TIB as nat)) + "TiB"@
    }
}

pub open spec fn is_large(sectors: nat) -> bool {
    sectors * 512 > LARGE_BYTES
}

/// Appends `bytes / unit` with one decimal place, rounded half to even.
fn push_one_decimal(out: &mut String, bytes: u128, unit: u128)
    requires
        0 < unit <= TIB,
        bytes <= 0x1_0000_0000_0000_0000_0000,
    ensures
        final(out)@ == old(out)@ + one_decimal(rounded_tenths(bytes as nat, unit as nat)),
{
    let scaled = bytes * 10;
    let q = scaled / unit;
    let r = scaled % unit;
    let t = if 2 * r > unit || (2 * r == unit && q % 2 == 1) {
        q + 1
    } else {
        q
    };
    assert(t == rounded_tenths(bytes as nat, unit as nat));
    push_decimal(out, t / 10);
    proof {
        reveal_strlit(".");
    }
    out.append(".");
    push_decimal(out, t % 10);
    assert(decimal((t % 10) as nat) == seq![digit_char((t % 10) as nat)]);
    assert(out@ =~= old(out)@ + one_decimal(t as nat));
}

impl Size {
    /// The size in binary units with one decimal place: `2` sectors is `1.0KiB`,
    /// `0` sectors is `0`.
    pub fn to_string(&self) -> (r: String)
        ensures
            r@ == size_text(self.0 as nat),
    {
        let bytes = self.0 as u128 * SECTOR_BYTES;
        let mut out = String::new();
        if bytes < KIB {
            push_decimal(&mut out, bytes);
        } else if bytes < MIB {
            push_one_decimal(&mut out, bytes, KIB);
            out.append("KiB");
        } else if bytes < GIB {
            push_one_decimal(&mut out, bytes, MIB);
            out.append("MiB");
        } else if bytes < TIB {
            push_one_decimal(&mut out, bytes, GIB);
            out.append("GiB");
        } else {
            push_one_decimal(&mut out, bytes, TIB);
            out.append("TiB");
        }
        assert(out@ =~= size_text(self.0 as nat));
        out
    }

    /// Whether the size exceeds 36 GiB.
    pub fn is_large(&self) -> (r: bool)
        ensures
            r == is_large(self.0 as nat),
    {
        self.0 as u128 * SECTOR_BYTES > LARGE_BYTES
    }
}

/// The type of the device named `name`, whose `removable` attribute holds
/// `removable` when present. A device named `sd*` without that attribute is an
/// error: its type cannot be told.
pub open spec fn classify(name: Seq<char>, removable: Option<Seq<char>>) -> Result<
    DeviceType,
    DeviceError,
> {
    if has_prefix(name, "mmcblk"@) {
        Ok(DeviceType::SDMMC)
    } else if has_prefix(name, "sd"@) {
        match removable {
            None => Err(DeviceError::MissingRemovable),
            Some(v) => if trim(v) == "0"@ {
                Ok(DeviceType::InternalDrive)
            } else {
                Ok(DeviceType::FlashDrive)
            },
        }
    } else if has_prefix(name, "sr"@) {
        Ok(DeviceType::CDROM)
    } else if has_prefix(name, "loop"@) {
        Ok(DeviceType::LoopBack)
    } else {
        Ok(DeviceType::InternalDrive)
    }
}

pub open spec fn opt_view(o: Option<String>) -> Option<Seq<char>> {
    match o {
        Some(s) => Some(s@),
        None => None,
    }
}

/// Works out the type of the device named `name` from its name and its
/// `removable` attribute; see [`classify`].
pub fn workout_type(name: &str, removable: Option<&str>) -> (r: Result<DeviceType, DeviceError>)
    ensures
        r == classify(
            name@,
            match removable {
                Some(v) => Some(v@),
                None => None,
            },
        ),
{
    if starts_with(name, "mmcblk") {
        Ok(DeviceType::SDMMC)
    } else if starts_with(name, "sd") {
        match removable {
            None => Err(DeviceError::MissingRemovable),
            Some(v) => {
                let t = trimmed(v);
                if same_text(t.as_str(), "0") {
                    Ok(DeviceType::InternalDrive)
                } else {
                    Ok(DeviceType::FlashDrive)
                }
            },
        }
    } else if starts_with(name, "sr") {
        Ok(DeviceType::CDROM)
    } else if starts_with(name, "loop") {
        Ok(DeviceType::LoopBack)
    } else {
        Ok(DeviceType::InternalDrive)
    }
}

/// The attribute files of one entry of the device directory, as read: `None`
/// where a file is absent.
pub struct DeviceAttributes {
    /// The kernel name of the device, such as `sda` or `mmcblk0`.
    pub name: String,
    /// Whether the entry has the `device` sub-directory that physical disks have.
    pub has_device_dir: bool,
    /// The `size` file: a decimal count of 512-byte sectors.
    pub size: Option<String>,
    /// The `removable` file: `0` or `1`.
    pub removable: Option<String>,
    /// The `ro` file: `0` or `1`.
    pub read_only: Option<String>,
    /// The `device/vendor` file.
    pub vendor: Option<String>,
    /// The `device/model` file.
    pub model: Option<String>,
}

/// One discovered device: its type and flags are worked out once, when the
/// record is built.
#[derive(Debug)]
pub struct BlockDevice {
    dev_name: String,
    label: String,
    size: Size,
    device_type: DeviceType,
    flags: Vec<Reason>,
}

pub struct BlockDeviceView {
    pub name: Seq<char>,
    pub label: Seq<char>,
    pub size: u64,
    pub device_type: DeviceType,
    pub flags: Seq<Reason>,
}

impl View for BlockDevice {
    type V = BlockDeviceView;

    closed spec fn view(&self) -> BlockDeviceView {
        BlockDeviceView {
            name: self.dev_name@,
            label: self.label@,
            size: self.size.0,
            device_type: self.device_type,
            flags: self.flags@,
        }
    }
}

pub open spec fn result_view(r: Result<BlockDevice, DeviceError>) -> Result<
    BlockDeviceView,
    DeviceError,
> {
    match r {
        Ok(d) => Ok(d@),
        Err(e) => Err(e),
    }
}

pub open spec fn result_views(rs: Seq<Result<BlockDevice, DeviceError>>) -> Seq<
    Result<BlockDeviceView, DeviceError>,
> {
    rs.map_values(|x: Result<BlockDevice, DeviceError>| result_view(x))
}

pub open spec fn device_views(ds: Seq<BlockDevice>) -> Seq<BlockDeviceView> {
    ds.map_values(|d: BlockDevice| d@)
}

/// The device file of the device named `name`.
pub open spec fn dev_path(name: Seq<char>) -> Seq<char> {
    "/dev/"@ + name
}

/// Vendor and model, each trimmed, joined by a space; either may be absent.
pub open spec fn label_of(vendor: Option<Seq<char>>, model: Option<Seq<char>>) -> Seq<char> {
    match (vendor, model) {
        (Some(v), Some(m)) => trim(v) + " "@ + trim(m),
        (Some(v), None) => trim(v),
        (None, Some(m)) => trim(m),
        (None, None) => Seq::empty(),
    }
}

/// The sector count that the `size` attribute gives.
pub open spec fn size_of(size: Option<Seq<char>>) -> Result<u64, DeviceError> {
    match size {
        None => Err(DeviceError::MissingSize),
        Some(v) => if is_decimal(unsigned_digits(trim(v))) && decimal_value(
            unsigned_digits(trim(v)),
        ) <= u64::MAX {
            Ok(decimal_value(unsigned_digits(trim(v))) as u64)
        } else {
            Err(DeviceError::InvalidSize)
        },
    }
}

/// Whether the `ro` attribute marks the device read only; an absent attribute
/// does not.
pub open spec fn read_only_of(read_only: Option<Seq<char>>) -> Result<bool, DeviceError> {
    match read_only {
        None => Ok(false),
        Some(v) => match int_bool_of(trim(v)) {
            Some(b) => Ok(b),
            None => Err(DeviceError::InvalidReadOnly),
        },
    }
}

/// The flags of a device, in this order: `Mounted`, `ZeroSize`, `ReadOnly`, `Large`.
pub open spec fn flags_of(mounted: bool, sectors: u64, read_only: bool) -> Seq<Reason> {
    (if mounted {
        seq![Reason::Mounted]
    } else {
        Seq::empty()
    }) + (if sectors == 0 {
        seq![Reason::ZeroSize]
    } else {
        Seq::empty()
    }) + (if read_only {
        seq![Reason::ReadOnly]
    } else {
        Seq::empty()
    }) + (if is_large(sectors as nat) {
        seq![Reason::Large]
    } else {
        Seq::empty()
    })
}

/// The record built from the attributes `a` and the mount table `mounts`, or the
/// first of these errors: the size, then the type, then the read-only flag.
pub open spec fn device_of(a: DeviceAttributes, mounts: Seq<MountEntry>) -> Result<
    BlockDeviceView,
    DeviceError,
> {
    match size_of(opt_view(a.size)) {
        Err(e) => Err(e),
        Ok(size) => match classify(a.name@, opt_view(a.removable)) {
            Err(e) => Err(e),
            Ok(t) => match read_only_of(opt_view(a.read_only)) {
                Err(e) => Err(e),
                Ok(ro) => Ok(
                    BlockDeviceView {
                        name: a.name@,
                        label: label_of(opt_view(a.vendor), opt_view(a.model)),
                        size,
                        device_type: t,
                        flags: flags_of(mounted(dev_path(a.name@), mounts), size, ro),
                    },
                ),
            },
        },
    }
}

fn as_str_opt(o: &Option<String>) -> (r: Option<&str>)
    ensures
        match r {
            Some(v) => opt_view(*o) == Some(v@),
            None => o is None,
        },
{
    match o {
        Some(v) => Some(v.as_str()),
        None => None,
    }
}

fn label_from(vendor: &Option<String>, model: &Option<String>) -> (r: String)
    ensures
        r@ == label_of(opt_view(*vendor), opt_view(*model)),
{
    proof {
        reveal_strlit(" ");
    }
    match (vendor, model) {
        (Some(v), Some(m)) => {
            let mut out = trimmed(v.as_str());
            out.append(" ");
            let m = trimmed(m.as_str());
            out.append(m.as_str());
            out
        },
        (Some(v), None) => trimmed(v.as_str()),
        (None, Some(m)) => trimmed(m.as_str()),
        (None, None) => String::new(),
    }
}

fn size_from(size: &Option<String>) -> (r: Result<u64, DeviceError>)
    ensures
        r == size_of(opt_view(*size)),
{
    match size {
        None => Err(DeviceError::MissingSize),
        Some(v) => {
            let t = trimmed(v.as_str());
            match parse_decimal(t.as_str()) {
                Some(n) => Ok(n),
                None => Err(DeviceError::InvalidSize),
            }
        },
    }
}

fn read_only_from(read_only: &Option<String>) -> (r: Result<bool, DeviceError>)
    ensures
        r == read_only_of(opt_view(*read_only)),
{
    match read_only {
        None => Ok(false),
        Some(v) => {
            let t = trimmed(v.as_str());
            match IntBool::from_str(t.as_str()) {
                Ok(b) => Ok(bool::from(b)),
                Err(_) => Err(DeviceError::InvalidReadOnly),
            }
        },
    }
}

/// The flags of the device whose device file is `dev_file`, of size `size` and
/// read only or not, against the mount table `mounts`.
pub fn run_checks(dev_file: &str, size: Size, read_only: bool, mounts: &Vec<MountEntry>) -> (r: Vec<
    Reason,
>)
    ensures
        r@ == flags_of(mounted(dev_file@, mounts@), size.0, read_only),
{
    let mut flags: Vec<Reason> = Vec::new();
    if is_mounted(dev_file, mounts) {
        flags.push(Reason::Mounted);
    }
    if size.0 == 0 {
        flags.push(Reason::ZeroSize);
    }
    if read_only {
        flags.push(Reason::ReadOnly);
    }
    if size.is_large() {
        flags.push(Reason::Large);
    }
    assert(flags@ =~= flags_of(mounted(dev_file@, mounts@), size.0, read_only));
    flags
}

impl BlockDevice {
    /// Builds the record of one device from its attributes and the mount table.
    pub fn new(attrs: &DeviceAttributes, mounts: &Vec<MountEntry>) -> (r: Result<
        BlockDevice,
        DeviceError,
    >)
        ensures
            result_view(r) == device_of(*attrs, mounts@),
    {
        let size = match size_from(&attrs.size) {
            Ok(n) => n,
            Err(e) => {
                return Err(e);
            },
        };
        let device_type = match workout_type(attrs.name.as_str(), as_str_opt(&attrs.removable)) {
            Ok(t) => t,
            Err(e) => {
                return Err(e);
            },
        };
        let read_only = match read_only_from(&attrs.read_only) {
            Ok(b) => b,
            Err(e) => {
                return Err(e);
            },
        };
        let label = label_from(&attrs.vendor, &attrs.model);
        let dev_file = device_file(attrs.name.as_str());
        let flags = run_checks(dev_file.as_str(), Size(size), read_only, mounts);
        let dev = BlockDevice {
            dev_name: attrs.name.clone(),
            label,
            size: Size(size),
            device_type,
            flags,
        };
        Ok(dev)
    }

    pub fn device_type(&self) -> (r: DeviceType)
        ensures
            r == self@.device_type,
    {
        self.device_type
    }

    pub fn flags(&self) -> (r: &[Reason])
        ensures
            r@ == self@.flags,
    {
        self.flags.as_slice()
    }

    pub fn label(&self) -> (r: &str)
        ensures
            r@ == self@.label,
    {
        self.label.as_str()
    }

    /// The kernel name of the device.
    pub fn dev_name(&self) -> (r: &str)
        ensures
            r@ == self@.name,
    {
        self.dev_name.as_str()
    }

    /// The directory of the device under `/sys/block`.
    pub fn sys_path(&self) -> (r: String)
        ensures
            r@ == "/sys/block/"@ + self@.name,
    {
        let mut out = String::from_str("/sys/block/");
        out.append(self.dev_name.as_str());
        out
    }

    /// The device file, `/dev/<name>`.
    pub fn dev_file(&self) -> (r: String)
        ensures
            r@ == dev_path(self@.name),
    {
        device_file(self.dev_name.as_str())
    }

    pub fn size(&self) -> (r: Size)
        ensures
            r.0 == self@.size,
    {
        self.size
    }
}

fn device_file(name: &str) -> (r: String)
    ensures
        r@ == dev_path(name@),
{
    let mut out = String::from_str("/dev/");
    out.append(name);
    out
}

/// The listing line of a device: device file, size, label and type in columns
/// of 10, 10, 25 and 10 characters separated by spaces, then its flags separated
/// by commas. The device file and label sit on the left of their columns, the
/// size and type on the right.
pub open spec fn line_of(d: BlockDeviceView) -> Seq<char> {
    padded(dev_path(d.name), 10) + " "@ + padded_left(size_text(d.size as nat), 10) + " "@
        + padded(d.label, 25) + " "@ + padded_left(d.device_type.label(), 10) + " "@ + joined(
        d.flags.map_values(|f: Reason| f.label()),
        ","@,
    )
}

impl BlockDevice {
    /// The line that lists this device.
    pub fn to_string(&self) -> (r: String)
        ensures
            r@ == line_of(self@),
    {
        proof {
            reveal_strlit(" ");
        }
        let mut out = String::new();
        let dev_file = self.dev_file();
        push_padded(&mut out, dev_file.as_str(), 10);
        out.append(" ");
        let size = self.size.to_string();
        push_padded_left(&mut out, size.as_str(), 10);
        out.append(" ");
        push_padded(&mut out, self.label.as_str(), 25);
        out.append(" ");
        let t = self.device_type.to_string();
        push_padded_left(&mut out, t.as_str(), 10);
        out.append(" ");
        let mut names: Vec<String> = Vec::new();
        let mut i: usize = 0;
        while i < self.flags.len()
            invariant
                i <= self.flags@.len(),
                names@.map_values(|p: String| p@) =~= self.flags@.subrange(0, i as int).map_values(
                    |f: Reason| f.label(),
                ),
            decreases self.flags@.len() - i,
        {
            let ghost before = names@.map_values(|p: String| p@);
            let name = self.flags[i].to_string();
            names.push(name);
            assert(names@.map_values(|p: String| p@) =~= before.push(self.flags@[i as int].label()));
            assert(self.flags@.subrange(0, i + 1).map_values(|f: Reason| f.label()) =~= self.flags@.subrange(
                0,
                i as int,
            ).map_values(|f: Reason| f.label()).push(self.flags@[i as int].label()));
            i = i + 1;
        }
        assert(self.flags@.subrange(0, self.flags@.len() as int) =~= self.flags@);
        let flags = join_parts(&names, ",");
        out.append(flags.as_str());
        assert(out@ =~= line_of(self@));
        out
    }
}

/// Whether a device is offered: never an excluded type; otherwise any device
/// when `show_all` is set, else only an unflagged device of a safe type.
pub open spec fn offered(d: BlockDeviceView, show_all: bool) -> bool {
    !d.device_type.excluded() && (show_all || (d.device_type.safe() && d.flags.len() == 0))
}

/// Whether `blkdev` is to be listed and offered as a write target.
pub fn include_dev(blkdev: &BlockDevice, show_all: bool) -> (r: bool)
    ensures
        r == offered(blkdev@, show_all),
{
    !blkdev.device_type().is_excluded() && (show_all || blkdev.device_type().is_safe()
        && blkdev.flags().len() == 0)
}

/// The records of the entries of the device directory, in order; an entry
/// without the `device` sub-directory (a virtual device) is skipped.
pub open spec fn scan(entries: Seq<DeviceAttributes>, mounts: Seq<MountEntry>) -> Seq<
    Result<BlockDeviceView, DeviceError>,
>
    decreases entries.len(),
{
    if entries.len() == 0 {
        Seq::empty()
    } else {
        let rest = scan(entries.drop_last(), mounts);
        if entries.last().has_device_dir {
            rest.push(device_of(entries.last(), mounts))
        } else {
            rest
        }
    }
}

/// Builds a record, or the error that stopped it, for each physical device
/// among `entries`.
pub fn block_devices(entries: &Vec<DeviceAttributes>, mounts: &Vec<MountEntry>) -> (r: Vec<
    Result<BlockDevice, DeviceError>,
>)
    ensures
        result_views(r@) == scan(
            entries@,
            mounts@,
        ),
{
    let mut out: Vec<Result<BlockDevice, DeviceError>> = Vec::new();
    let mut i: usize = 0;
    while i < entries.len()
        invariant
            i <= entries@.len(),
            result_views(out@) == scan(
                entries@.subrange(0, i as int),
                mounts@,
            ),
        decreases entries@.len() - i,
    {
        let ghost before = result_views(out@);
        assert(entries@.subrange(0, i + 1).drop_last() =~= entries@.subrange(0, i as int));
        if entries[i].has_device_dir {
            let r = BlockDevice::new(&entries[i], mounts);
            out.push(r);
            assert(result_views(out@)
                =~= before.push(device_of(entries@[i as int], mounts@)));
        }
        i = i + 1;
    }
    assert(entries@.subrange(0, entries@.len() as int) =~= entries@);
    out
}

/// The devices among `rs` that are offered, in order.
pub open spec fn kept(rs: Seq<Result<BlockDeviceView, DeviceError>>, show_all: bool) -> Seq<
    BlockDeviceView,
>
    decreases rs.len(),
{
    if rs.len() == 0 {
        Seq::empty()
    } else {
        let rest = kept(rs.drop_last(), show_all);
        match rs.last() {
            Ok(d) => if offered(d, show_all) {
                rest.push(d)
            } else {
                rest
            },
            Err(_) => rest,
        }
    }
}

/// The devices that may be offered as write targets, in order, or the first
/// error among `results`: one broken entry aborts the whole listing.
pub fn candidates(results: Vec<Result<BlockDevice, DeviceError>>, show_all: bool) -> (r: Result<
    Vec<BlockDevice>,
    DeviceError,
>)
    ensures
        ({
            let rs = result_views(results@);
            &&& r is Err <==> exists|i: int| 0 <= i < rs.len() && #[trigger] rs[i] is Err
            &&& r is Err ==> exists|i: int|
                0 <= i < rs.len() && rs[i] == Err::<BlockDeviceView, DeviceError>(r->Err_0) && (
                forall|j: int| 0 <= j < i ==> #[trigger] rs[j] is Ok)
            &&& r is Ok ==> device_views(r->Ok_0@) == kept(rs, show_all)
        }),
{
    let ghost rs = result_views(results@);
    let n = results.len();
    let mut rest = results;
    let mut out: Vec<BlockDevice> = Vec::new();
    let mut i: usize = 0;
    while rest.len() > 0
        invariant
            i <= n,
            rs == result_views(results@),
            rs.len() == n,
            rest@.len() == n - i,
            forall|k: int| 0 <= k < rest@.len() ==> result_view(#[trigger] rest@[k]) == rs[i + k],
            forall|j: int| 0 <= j < i ==> #[trigger] rs[j] is Ok,
            device_views(out@) == kept(rs.subrange(0, i as int), show_all),
        decreases rest@.len(),
    {
        let ghost before = device_views(out@);
        assert(rs.subrange(0, i + 1).drop_last() =~= rs.subrange(0, i as int));
        assert(result_view(rest@[0]) == rs[i as int]);
        let ghost prev = rest@;
        let item = rest.remove(0);
        match item {
            Ok(d) => {
                if include_dev(&d, show_all) {
                    out.push(d);
                    assert(device_views(out@) =~= before.push(d@));
                }
            },
            Err(e) => {
                assert(rs[i as int] == Err::<BlockDeviceView, DeviceError>(e));
                return Err(e);
            },
        }
        assert forall|k: int| 0 <= k < rest@.len() implies result_view(#[trigger] rest@[k])
            == rs[i + 1 + k] by {
            assert(rest@[k] == prev[k + 1]);
            assert(result_view(prev[k + 1]) == rs[i + (k + 1)]);
        }
        i = i + 1;
    }
    assert(rs.subrange(0, n as int) =~= rs);
    Ok(out)
}

/// Any device named `mmcblk*` is an SD/MMC card, whatever its `removable`
/// attribute holds, and whether it has one.
pub proof fn mmcblk_is_sdmmc(name: Seq<char>, removable: Option<Seq<char>>)
    requires
        has_prefix(name, "mmcblk"@),
    ensures
        classify(name, removable) == Ok::<DeviceType, DeviceError>(DeviceType::SDMMC),
{
}

/// A device named `sd*` is an internal drive when its `removable` attribute
/// reads `0`, a flash drive when it reads anything else (such as `1`), and an
/// error when it has no such attribute.
pub proof fn sd_by_removable(name: Seq<char>, removable: Seq<char>)
    requires
        has_prefix(name, "sd"@),
    ensures
        trim(removable) == "0"@ ==> classify(name, Some(removable)) == Ok::<
            DeviceType,
            DeviceError,
        >(DeviceType::InternalDrive),
        trim(removable) != "0"@ ==> classify(name, Some(removable)) == Ok::<
            DeviceType,
            DeviceError,
        >(DeviceType::FlashDrive),
        classify(name, None) == Err::<DeviceType, DeviceError>(DeviceError::MissingRemovable),
{
    reveal_strlit("sd");
    reveal_strlit("mmcblk");
    assert(name[0] == name.subrange(0, 2)[0]);
    assert(name[0] == 's');
    if has_prefix(name, "mmcblk"@) {
        assert(name[0] == name.subrange(0, 6)[0]);
    }
}

/// An excluded device (optical or loopback) is never among the devices offered,
/// whether or not all devices are asked for.
pub proof fn excluded_never_offered(rs: Seq<Result<BlockDeviceView, DeviceError>>, show_all: bool)
    ensures
        forall|i: int|
            0 <= i < kept(rs, show_all).len() ==> !(#[trigger] kept(rs, show_all)[i]).device_type.excluded(),
    decreases rs.len(),
{
    if rs.len() > 0 {
        excluded_never_offered(rs.drop_last(), show_all);
    }
}

/// A device built from its attributes is flagged `Mounted` exactly when some
/// source in the mount table starts with its device file `/dev/<name>`.
pub proof fn mounted_flag_iff_mount_source(a: DeviceAttributes, mounts: Seq<MountEntry>)
    requires
        device_of(a, mounts) is Ok,
    ensures
        device_of(a, mounts)->Ok_0.flags.contains(Reason::Mounted) <==> mounted(
            dev_path(a.name@),
            mounts,
        ),
{
    let d = device_of(a, mounts)->Ok_0;
    let m = mounted(dev_path(a.name@), mounts);
    let f = d.flags;
    if m {
        assert(f[0] == Reason::Mounted);
    } else {
        let ro = read_only_of(opt_view(a.read_only))->Ok_0;
        assert(f == flags_of(false, d.size, ro));
        let z: Seq<Reason> = if d.size == 0 {
            seq![Reason::ZeroSize]
        } else {
            Seq::empty()
        };
        let r: Seq<Reason> = if ro {
            seq![Reason::ReadOnly]
        } else {
            Seq::empty()
        };
        let l: Seq<Reason> = if is_large(d.size as nat) {
            seq![Reason::Large]
        } else {
            Seq::empty()
        };
        assert(f =~= z + r + l);
        assert forall|i: int| 0 <= i < f.len() implies f[i] != Reason::Mounted by {
            if i < z.len() {
                assert(f[i] == z[i]);
            } else if i < z.len() + r.len() {
                assert(f[i] == r[i - z.len()]);
            } else {
                assert(f[i] == l[i - z.len() - r.len()]);
            }
        }
    }
}

/// `Large` is set exactly above 36 GiB: above 75497472 sectors. A device of
/// 36 GiB less one sector is not large; one of 36 GiB and one sector is.
pub proof fn large_threshold(sectors: u64, mounted: bool, read_only: bool)
    ensures
        flags_of(mounted, sectors, read_only).contains(Reason::Large) <==> sectors > 75497472,
{
    let f = flags_of(mounted, sectors, read_only);
    if sectors > 75497472 {
        assert(f.last() == Reason::Large);
    } else {
        assert(forall|i: int| 0 <= i < f.len() ==> f[i] != Reason::Large);
    }
}

/// With the mount table parsed from the text `text`, a device is flagged
/// `Mounted` exactly when some line of `text` with at least two fields has a
/// first field that starts with the device file `/dev/<name>`: a source
/// `/dev/sda1` marks `/dev/sda` but not `/dev/sdb`.
pub proof fn mounted_flag_iff_mount_line(
    a: DeviceAttributes,
    text: Seq<char>,
    mounts: Seq<MountEntry>,
)
    requires
        entry_views(mounts) == mount_table(text),
        device_of(a, mounts) is Ok,
    ensures
        device_of(a, mounts)->Ok_0.flags.contains(Reason::Mounted) <==> exists|i: int|
            0 <= i < mount_table(text).len() && has_prefix(
                (#[trigger] mount_table(text)[i]).0,
                dev_path(a.name@),
            ),
{
    mounted_flag_iff_mount_source(a, mounts);
    let table = mount_table(text);
    let dev = dev_path(a.name@);
    assert(table.len() == mounts.len());
    if mounted(dev, mounts) {
        let i = choose|i: int| 0 <= i < mounts.len() && has_prefix(#[trigger] mounts[i].source@, dev);
        assert(table[i] == mounts[i]@);
    }
    if exists|i: int| 0 <= i < table.len() && has_prefix((#[trigger] table[i]).0, dev) {
        let i = choose|i: int| 0 <= i < table.len() && has_prefix((#[trigger] table[i]).0, dev);
        assert(table[i] == mounts[i]@);
        assert(has_prefix(mounts[i].source@, dev));
    }
}

} // verus!
