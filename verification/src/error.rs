//! Error taxonomy for the launch process.
//!
//! Device failures surface as raw OS error codes; the codes that the enclave
//! driver documents are matched by exact value and every other code is kept
//! opaque, together with the raw value, so that no undocumented code is ever
//! reinterpreted.

use vstd::prelude::*;

verus! {

/// Driver error code: the enclave is not in the "init" (not yet started) state.
pub const NE_ERR_NOT_IN_INIT_STATE: i32 = 270;

/// Driver error code: no enclave CPU pool is set, or no CPUs are available in it.
pub const NE_ERR_NO_CPUS_AVAIL_IN_POOL: i32 = 272;

/// Driver error code: the value of a provided flag is invalid.
pub const NE_ERR_INVALID_FLAG_VALUE: i32 = 274;

/// Linux error code (`EFAULT`) raised when the kernel cannot copy data to or
/// from user space.
pub const ERRNO_FAULT: i32 = 14;

/// Linux error code (`ENOMEM`) raised when the kernel cannot allocate memory
/// for internal bookkeeping variables.
pub const ERRNO_NO_MEMORY: i32 = 12;

/// Error that may occur when issuing a request to the enclave control device.
#[derive(Clone, Copy, Debug)]
pub enum IoctlError {
    /// The kernel could not copy data to or from user space.
    CopyToUser,
    /// Memory allocation failure for internal bookkeeping variables.
    InternalMemoryAllocation,
    /// The value of the provided flag is invalid.
    InvalidFlags,
    /// No enclave CPU pool set, or no CPUs available in the pool.
    NoCpuAvailable,
    /// The enclave is not in the "init" (not yet started) state.
    NotInInitState,
    /// Any other failure, carrying the raw OS error code when one exists.
    Unknown(Option<i32>),
}

/// Error that may occur when reserving and populating enclave memory.
#[derive(Clone, Copy, Debug)]
pub enum MemInitError {
    /// No combination of huge pages could be reserved for the requested size.
    NoHugePageFound,
    /// The metadata of the enclave image could not be read; carries the raw
    /// OS error code of the failure when one exists.
    ImageMetadata(Option<i32>),
    /// The enclave image could not be rewound to its beginning; carries the
    /// raw OS error code of the failure when one exists.
    ImageRewind(Option<i32>),
    /// The reserved regions end before the image does: the requested memory
    /// cannot hold the whole image at the required offset.
    ImageWriteIncomplete,
    /// Bytes could not be read from the enclave image; carries the raw OS
    /// error code of the failure when one exists.
    ImageRead(Option<i32>),
    /// Adding a region's size to the running total of region bytes would
    /// overflow.
    OffsetCheckOverflow,
    /// Adding the image size to the image offset would overflow.
    ImagePlacementOverflow,
}

/// Error that may occur during the launch process.
#[derive(Clone, Copy, Debug)]
pub enum LaunchError {
    /// The enclave control device rejected a request.
    Ioctl(IoctlError),
    /// Enclave memory could not be reserved or populated.
    MemInit(MemInitError),
    /// The randomness source failed while generating an enclave CID.
    CidRandomGenerate,
}

/// The mapping from a raw OS error code to the typed taxonomy: the magnitude
/// of the code is matched exactly against the documented kernel and driver
/// codes, and every other code stays opaque.
pub open spec fn spec_ioctl_error(raw: Option<i32>) -> IoctlError {
    match raw {
        Option::Some(code) => {
            let magnitude: int = if code < 0 {
                -(code as int)
            } else {
                code as int
            };
            if magnitude == ERRNO_FAULT {
                IoctlError::CopyToUser
            } else if magnitude == ERRNO_NO_MEMORY {
                IoctlError::InternalMemoryAllocation
            } else if magnitude == NE_ERR_NOT_IN_INIT_STATE {
                IoctlError::NotInInitState
            } else if magnitude == NE_ERR_NO_CPUS_AVAIL_IN_POOL {
                IoctlError::NoCpuAvailable
            } else if magnitude == NE_ERR_INVALID_FLAG_VALUE {
                IoctlError::InvalidFlags
            } else {
                IoctlError::Unknown(Option::Some(code))
            }
        },
        Option::None => IoctlError::Unknown(Option::None),
    }
}

/// Relies on `std::io::Error::last_os_error`: it captures the OS error value
/// of the calling thread's most recent failed OS call (errno on Linux), and
/// `raw_os_error` hands that raw code back unchanged.
#[verifier::external_body]
fn last_os_error_code() -> (raw: Option<i32>) {
    std::io::Error::last_os_error().raw_os_error()
}

impl IoctlError {
    /// Map a raw OS error code into the taxonomy by exact value match on its
    /// magnitude.
    pub fn from_raw_os_error(raw: Option<i32>) -> (r: Self)
        ensures
            r == spec_ioctl_error(raw),
    {
        match raw {
            Option::Some(code) => {
                let wide: i64 = code as i64;
                let magnitude: i64 = if wide < 0 {
                    -wide
                } else {
                    wide
                };
                if magnitude == ERRNO_FAULT as i64 {
                    IoctlError::CopyToUser
                } else if magnitude == ERRNO_NO_MEMORY as i64 {
                    IoctlError::InternalMemoryAllocation
                } else if magnitude == NE_ERR_NOT_IN_INIT_STATE as i64 {
                    IoctlError::NotInInitState
                } else if magnitude == NE_ERR_NO_CPUS_AVAIL_IN_POOL as i64 {
                    IoctlError::NoCpuAvailable
                } else if magnitude == NE_ERR_INVALID_FLAG_VALUE as i64 {
                    IoctlError::InvalidFlags
                } else {
                    IoctlError::Unknown(Option::Some(code))
                }
            },
            Option::None => IoctlError::Unknown(Option::None),
        }
    }

    /// Parse an error from the OS error value of the most recent failed call.
    pub fn from_errno() -> (r: Self)
        ensures
            exists|raw: Option<i32>| r == spec_ioctl_error(raw),
    {
        let raw = last_os_error_code();
        let r = Self::from_raw_os_error(raw);
        proof {
            assert(r == spec_ioctl_error(raw));
        }
        r
    }

    /// A fixed description of the error variant.
    pub fn message(&self) -> (m: &'static str)
        ensures
            self is CopyToUser ==> m@ == "unable to copy data to/from userspace"@,
            self is InternalMemoryAllocation ==> m@
                == "memory allocation failure for internal bookkeeping variables"@,
            self is InvalidFlags ==> m@ == "the value of the provided flag is invalid"@,
            self is NoCpuAvailable ==> m@
                == "no enclave CPU pool set or no CPUs available in the pool"@,
            self is NotInInitState ==> m@ == "not in init (not yet started) state"@,
            self is Unknown ==> m@ == "unknown error"@,
    {
        match self {
            IoctlError::CopyToUser => "unable to copy data to/from userspace",
            IoctlError::InternalMemoryAllocation => "memory allocation failure for internal bookkeeping variables",
            IoctlError::InvalidFlags => "the value of the provided flag is invalid",
            IoctlError::NoCpuAvailable => "no enclave CPU pool set or no CPUs available in the pool",
            IoctlError::NotInInitState => "not in init (not yet started) state",
            IoctlError::Unknown(_) => "unknown error",
        }
    }
}

impl MemInitError {
    /// A fixed description of the error variant.
    pub fn message(&self) -> (m: &'static str)
        ensures
            self is NoHugePageFound ==> m@
                == "a valid combination of hugepages could not be found for the requested size"@,
            self is ImageMetadata ==> m@ == "unable to retrieve image metadata"@,
            self is ImageRewind ==> m@ == "unable to rewind image to beginning of image file"@,
            self is ImageWriteIncomplete ==> m@
                == "unable to write total image file to memory regions"@,
            self is ImageRead ==> m@ == "unable to read bytes from image file"@,
            self is OffsetCheckOverflow ==> m@
                == "overflow when checking if memory region write was greater than image offset"@,
            self is ImagePlacementOverflow ==> m@
                == "overflow when calculating end of image region in guest memory"@,
    {
        match self {
            MemInitError::NoHugePageFound => "a valid combination of hugepages could not be found for the requested size",
            MemInitError::ImageMetadata(_) => "unable to retrieve image metadata",
            MemInitError::ImageRewind(_) => "unable to rewind image to beginning of image file",
            MemInitError::ImageWriteIncomplete => "unable to write total image file to memory regions",
            MemInitError::ImageRead(_) => "unable to read bytes from image file",
            MemInitError::OffsetCheckOverflow => "overflow when checking if memory region write was greater than image offset",
            MemInitError::ImagePlacementOverflow => "overflow when calculating end of image region in guest memory",
        }
    }
}

impl LaunchError {
    /// On an ioctl failure, build the launch error from the OS error value of
    /// the most recent failed call.
    pub fn ioctl_err_from_errno() -> (r: Self)
        ensures
            r is Ioctl,
    {
        LaunchError::Ioctl(IoctlError::from_errno())
    }

    /// A fixed description of the error variant.
    pub fn message(&self) -> (m: &'static str)
        ensures
            self is Ioctl ==> m@ == "ioctl error"@,
            self is MemInit ==> m@ == "memory initialization error"@,
            self is CidRandomGenerate ==> m@ == "unable to randomly-generate enclave CID"@,
    {
        match self {
            LaunchError::Ioctl(_) => "ioctl error",
            LaunchError::MemInit(_) => "memory initialization error",
            LaunchError::CidRandomGenerate => "unable to randomly-generate enclave CID",
        }
    }
}

} // verus!
