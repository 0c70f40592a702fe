//! The fixed binary ioctl surface of the enclave control device.
//!
//! Command codes follow the Linux `_IOC` encoding: a two-bit direction, a
//! fourteen-bit payload size, an eight-bit magic number and an eight-bit
//! command number, packed from the high bits down.  The structures below are
//! the exact payloads the device expects, with every field a plain 64-bit
//! word.

use vstd::prelude::*;

verus! {

/// `_IOC` direction bit: the kernel writes the payload back to user space.
pub const IOC_DIR_READ: u64 = 2;

/// `_IOC` direction bit: the kernel reads the payload from user space.
pub const IOC_DIR_WRITE: u64 = 1;

/// Magic number of the enclave control device's command space.
pub const NE_MAGIC: u64 = 0xAE;

/// The `_IOC` packing of a command code from direction, command number and
/// payload size.
pub open spec fn spec_request_code(dir: u64, nr: u64, size: u64) -> u64 {
    (dir << 30) | (size << 16) | (NE_MAGIC << 8) | nr
}

/// Create a slot that is associated with an enclave VM; the payload is the
/// 8-byte slot unique id the kernel writes back.
pub const NE_CREATE_VM: u64 = (IOC_DIR_READ << 30) | (8u64 << 16) | (NE_MAGIC << 8) | 0x20;

/// Set a vCPU for an enclave; the payload is a 4-byte CPU id in both
/// directions.
pub const NE_ADD_VCPU: u64 = ((IOC_DIR_READ | IOC_DIR_WRITE) << 30) | (4u64 << 16) | (NE_MAGIC
    << 8) | 0x21;

/// Get the information needed for in-memory enclave image loading; the
/// payload is an [`ImageLoadInfo`] in both directions.
pub const NE_GET_IMAGE_LOAD_INFO: u64 = ((IOC_DIR_READ | IOC_DIR_WRITE) << 30) | (16u64 << 16) | (
NE_MAGIC << 8) | 0x22;

/// Set an enclave's memory region; the payload is a [`UserMemoryRegion`],
/// read by the kernel only.
pub const NE_SET_USER_MEMORY_REGION: u64 = (IOC_DIR_WRITE << 30) | (24u64 << 16) | (NE_MAGIC << 8)
    | 0x23;

/// Start the enclave; the payload is a [`StartInfo`] in both directions.
pub const NE_START_ENCLAVE: u64 = ((IOC_DIR_READ | IOC_DIR_WRITE) << 30) | (16u64 << 16) | (
NE_MAGIC << 8) | 0x24;

/// The command codes are exactly the `_IOC` packing of their direction,
/// payload size and command number.
pub proof fn lemma_request_codes_packed()
    ensures
        NE_CREATE_VM == spec_request_code(IOC_DIR_READ, 0x20, 8),
        NE_ADD_VCPU == spec_request_code(IOC_DIR_READ | IOC_DIR_WRITE, 0x21, 4),
        NE_GET_IMAGE_LOAD_INFO == spec_request_code(IOC_DIR_READ | IOC_DIR_WRITE, 0x22, 16),
        NE_SET_USER_MEMORY_REGION == spec_request_code(IOC_DIR_WRITE, 0x23, 24),
        NE_START_ENCLAVE == spec_request_code(IOC_DIR_READ | IOC_DIR_WRITE, 0x24, 16),
{
}

/// Info necessary for loading an in-memory enclave image.
#[derive(Clone, Copy, Debug, PartialEq, Eq, Structural)]
pub struct ImageLoadInfo {
    /// Flags that determine the enclave image type.
    pub flags: u64,
    /// Offset in enclave memory at which to start placing the enclave image.
    pub memory_offset: u64,
}

/// One contiguous huge-page-backed enclave memory region.
#[derive(Clone, Copy, Debug, PartialEq, Eq, Structural)]
pub struct UserMemoryRegion {
    /// Usage flags.
    pub flags: u64,
    /// Region size in bytes.
    pub size: u64,
    /// Userspace (virtual) address of the region.
    pub uaddr: u64,
}

/// The payload of the start command: option flags in, the authoritative
/// enclave CID out.
#[derive(Clone, Copy, Debug, PartialEq, Eq, Structural)]
pub struct StartInfo {
    /// Start option flags.
    pub flags: u64,
    /// Enclave CID: the requested one on input, the authoritative one on
    /// output.
    pub cid: u64,
}

} // verus!
