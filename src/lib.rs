//! Picks a removable storage device to receive a raw image, refusing by default
//! devices that are internal, mounted, optical, virtual or otherwise risky.
pub mod block_dev;
pub mod disks;
pub mod menus;
pub mod mounts;
pub mod text;
