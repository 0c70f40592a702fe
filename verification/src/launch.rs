//! The enclave launch state machine.
//!
//! A launch session moves through strictly ordered phases: slot creation,
//! image-offset discovery and memory installation, vCPU attachment, start.
//! Every operation checks the phase it is legal in and reports the
//! not-in-init-state contract error on misuse, without touching the session.
//! The device calls themselves are issued by the caller between the
//! request/record method pairs; the session validates every transition and
//! resolves the enclave CID.

use vstd::prelude::*;

use crate::error::{IoctlError, LaunchError};
use crate::memory::UserMemoryRegions;
use crate::protocol::{ImageLoadInfo, StartInfo, UserMemoryRegion};

verus! {

/// The CID of the parent instance: the top of the reserved low range of
/// enclave context identifiers.
pub const VMADDR_CID_PARENT: u32 = 3;

/// Start option flag: run the enclave in debug mode.
pub const START_FLAG_DEBUG: u64 = 1;

/// Image-type flags value that announces an image in the Enclave Image
/// Format.
pub const IMAGE_FLAG_EIF: u64 = 1;

/// Number of random draws the CID resolution makes before reporting the
/// randomness source as failed.  A draw misses the valid range with
/// probability below one in a billion, so reaching the bound means the
/// source is broken, not unlucky.
pub const CID_DRAW_ATTEMPTS: usize = 64;

/// The image type of the enclave.
pub enum ImageType {
    /// Enclave Image Format: the raw bytes of the image.
    Eif(Vec<u8>),
}

/// Data related to setting enclave memory.
pub struct MemoryInfo {
    /// Enclave image type.
    pub image_type: ImageType,
    /// Amount of memory, in MiB, to allocate to the enclave.
    pub size_mib: usize,
}

impl MemoryInfo {
    /// Bundle an image with the memory budget it is to be placed in.
    pub fn new(image_type: ImageType, size_mib: usize) -> (r: Self)
        ensures
            r.image_type == image_type,
            r.size_mib == size_mib,
    {
        MemoryInfo { image_type, size_mib }
    }
}

/// Configuration flags for starting an enclave.
#[derive(Clone, Copy, Debug, PartialEq, Eq, Structural)]
pub struct StartFlags {
    bits: u64,
}

impl StartFlags {
    /// The raw flags word.
    pub closed spec fn spec_bits(&self) -> u64 {
        self.bits
    }

    /// No start options.
    pub fn empty() -> (r: Self)
        ensures
            r.spec_bits() == 0,
    {
        StartFlags { bits: 0 }
    }

    /// Start the enclave in debug mode.
    pub fn debug() -> (r: Self)
        ensures
            r.spec_bits() == START_FLAG_DEBUG,
    {
        StartFlags { bits: START_FLAG_DEBUG }
    }

    /// The raw flags word.
    pub fn bits(&self) -> (b: u64)
        ensures
            b == self.spec_bits(),
    {
        self.bits
    }
}

impl<'a> From<&'a ImageType> for ImageLoadInfo {
    /// The load-info request announcing the image's type: the flags name the
    /// format's code point and the offset is left for the kernel to fill.
    fn from(image_type: &'a ImageType) -> (r: Self) {
        let flags: u64 = match image_type {
            ImageType::Eif(_) => IMAGE_FLAG_EIF,
        };
        ImageLoadInfo { flags, memory_offset: 0 }
    }
}

impl<'a> vstd::std_specs::convert::FromSpecImpl<&'a ImageType> for ImageLoadInfo {
    open spec fn obeys_from_spec() -> bool {
        true
    }

    open spec fn from_spec(image_type: &'a ImageType) -> Self {
        ImageLoadInfo { flags: IMAGE_FLAG_EIF, memory_offset: 0 }
    }
}

/// A CID is valid when strictly above the reserved low range and
/// representable in 32 bits.
pub open spec fn valid_cid(cid: u64) -> bool {
    VMADDR_CID_PARENT < cid <= u32::MAX
}

/// Relies on rand's `SysRng`, the operating system's randomness source: each
/// call draws one fresh 32-bit value, nothing is promised of which one, and
/// a failure of the source yields nothing.
#[verifier::external_body]
fn os_random_u32() -> (r: Option<u32>) {
    let mut rng = rand::rngs::SysRng;
    match rand::TryRng::try_next_u32(&mut rng) {
        Ok(v) => Option::Some(v),
        Err(_) => Option::None,
    }
}

/// Resolve the CID to request: a caller-supplied CID already in the valid
/// range passes through unchanged; no CID, or one outside the range, draws
/// random 32-bit values until one lands in range.  A failing randomness
/// source is fatal and reported, not retried.
pub fn resolve_cid(cid: Option<u64>) -> (r: Result<u64, LaunchError>)
    ensures
        cid is Some && valid_cid(cid->Some_0) ==> r == Result::<u64, LaunchError>::Ok(
            cid->Some_0,
        ),
        r matches Ok(v) ==> valid_cid(v),
        r is Err ==> r == Result::<u64, LaunchError>::Err(LaunchError::CidRandomGenerate),
{
    let current: u64 = match cid {
        Option::Some(c) => c,
        Option::None => 0,
    };
    if current > VMADDR_CID_PARENT as u64 && current <= u32::MAX as u64 {
        return Result::Ok(current);
    }
    let mut attempt: usize = 0;
    while attempt < CID_DRAW_ATTEMPTS
        invariant
            attempt <= CID_DRAW_ATTEMPTS,
            !(cid is Some && valid_cid(cid->Some_0)),
        decreases CID_DRAW_ATTEMPTS - attempt,
    {
        match os_random_u32() {
            Option::None => {
                return Result::Err(LaunchError::CidRandomGenerate);
            },
            Option::Some(drawn) => {
                let candidate = drawn as u64;
                if candidate > VMADDR_CID_PARENT as u64 && candidate <= u32::MAX as u64 {
                    return Result::Ok(candidate);
                }
            },
        }
        attempt = attempt + 1;
    }
    Result::Err(LaunchError::CidRandomGenerate)
}

/// The phase a launch session is in.  Phases only move forward; the
/// operations legal in each phase are checked at run time.
#[derive(Clone, Copy, Debug, PartialEq, Eq, Structural)]
pub enum LaunchPhase {
    /// The kernel has allocated a VM descriptor and a nonzero slot id.
    SlotCreated,
    /// All memory regions have been handed to the kernel.
    MemoryInstalled,
    /// The enclave is running; no further mutating operation is legal.
    Started,
}

/// The contract error reported when an operation is attempted in a phase it
/// is not legal in.
pub open spec fn state_order_error() -> LaunchError {
    LaunchError::Ioctl(IoctlError::NotInInitState)
}

/// Facilitates the execution of the enclave launch process.
///
/// The session records the slot identity and phase; the caller issues each
/// device call between a request method, which validates the phase and
/// produces the payload, and a record method, which takes the kernel's
/// answer and advances the phase.
pub struct Launcher {
    vm_fd: i32,
    slot_uid: u64,
    cpu_ids: Vec<u32>,
    phase: LaunchPhase,
}

impl Launcher {
    /// The VM descriptor returned by slot creation.
    pub closed spec fn spec_vm_fd(&self) -> i32 {
        self.vm_fd
    }

    /// The slot unique id returned by slot creation.
    pub closed spec fn spec_slot_uid(&self) -> u64 {
        self.slot_uid
    }

    /// The vCPU ids attached so far.
    pub closed spec fn spec_cpu_ids(&self) -> Seq<u32> {
        self.cpu_ids@
    }

    /// The phase the session is in.
    pub closed spec fn spec_phase(&self) -> LaunchPhase {
        self.phase
    }

    /// Begin the launch process from the outcome of slot creation: a
    /// non-negative VM descriptor and a nonzero slot unique id mean the
    /// kernel created the slot; anything else is the device call's failure,
    /// mapped from the OS error value.
    pub fn new(vm_fd: i32, slot_uid: u64) -> (r: Result<Launcher, LaunchError>)
        ensures
            vm_fd >= 0 && slot_uid != 0 ==> (r matches Ok(l) && l.spec_vm_fd() == vm_fd
                && l.spec_slot_uid() == slot_uid && l.spec_cpu_ids() =~= Seq::<u32>::empty()
                && l.spec_phase() == LaunchPhase::SlotCreated),
            !(vm_fd >= 0 && slot_uid != 0) ==> (r matches Err(e) && e is Ioctl),
    {
        if vm_fd < 0 || slot_uid == 0 {
            return Result::Err(LaunchError::ioctl_err_from_errno());
        }
        Result::Ok(
            Launcher { vm_fd, slot_uid, cpu_ids: Vec::new(), phase: LaunchPhase::SlotCreated },
        )
    }

    /// Get the enclave's slot unique id.
    pub fn slot_uid(&self) -> (uid: u64)
        ensures
            uid == self.spec_slot_uid(),
    {
        self.slot_uid
    }

    /// Get the VM descriptor that device calls for this slot go to.
    pub fn vm_fd(&self) -> (fd: i32)
        ensures
            fd == self.spec_vm_fd(),
    {
        self.vm_fd
    }

    /// Get the vCPU ids attached so far.
    pub fn cpu_ids(&self) -> (ids: &Vec<u32>)
        ensures
            ids@ == self.spec_cpu_ids(),
    {
        &self.cpu_ids
    }

    /// Produce the image-load-info request for the kernel: legal only before
    /// memory is installed; the kernel fills in the memory offset.
    pub fn load_info_request(&self, image_type: &ImageType) -> (r: Result<
        ImageLoadInfo,
        LaunchError,
    >)
        ensures
            self.spec_phase() == LaunchPhase::SlotCreated ==> r == Result::<
                ImageLoadInfo,
                LaunchError,
            >::Ok((ImageLoadInfo { flags: IMAGE_FLAG_EIF, memory_offset: 0 })),
            self.spec_phase() != LaunchPhase::SlotCreated ==> r == Result::<
                ImageLoadInfo,
                LaunchError,
            >::Err(state_order_error()),
    {
        match self.phase {
            LaunchPhase::SlotCreated => Result::Ok(ImageLoadInfo::from(image_type)),
            _ => Result::Err(LaunchError::Ioctl(IoctlError::NotInInitState)),
        }
    }

    /// Hand out the filled regions for installation, in the order they were
    /// reserved and filled: legal only before memory is installed.
    pub fn install_regions_request<'a>(&self, regions: &'a UserMemoryRegions) -> (r: Result<
        &'a Vec<UserMemoryRegion>,
        LaunchError,
    >)
        ensures
            self.spec_phase() == LaunchPhase::SlotCreated ==> (r matches Ok(v) && v@ == regions@),
            self.spec_phase() != LaunchPhase::SlotCreated ==> (r matches Err(e) && e
                == state_order_error()),
    {
        match self.phase {
            LaunchPhase::SlotCreated => Result::Ok(regions.inner_ref()),
            _ => Result::Err(LaunchError::Ioctl(IoctlError::NotInInitState)),
        }
    }

    /// Record that every region was installed into the kernel: the session
    /// moves past memory installation.
    pub fn record_memory_installed(&mut self) -> (r: Result<(), LaunchError>)
        ensures
            old(self).spec_phase() == LaunchPhase::SlotCreated ==> (r is Ok && final(self).spec_phase() == LaunchPhase::MemoryInstalled),
            old(self).spec_phase() != LaunchPhase::SlotCreated ==> (r matches Err(e) && e
                == state_order_error() && final(self).spec_phase() == old(self).spec_phase()),
            final(self).spec_vm_fd() == old(self).spec_vm_fd(),
            final(self).spec_slot_uid() == old(self).spec_slot_uid(),
            final(self).spec_cpu_ids() == old(self).spec_cpu_ids(),
    {
        match self.phase {
            LaunchPhase::SlotCreated => {
                self.phase = LaunchPhase::MemoryInstalled;
                Result::Ok(())
            },
            _ => Result::Err(LaunchError::Ioctl(IoctlError::NotInInitState)),
        }
    }

    /// Produce the vCPU id to request: the caller's choice, or zero to let
    /// the kernel pick from the pool.  Attachment is legal any time before
    /// the enclave starts, before or after memory installation.
    pub fn vcpu_request(&self, requested: Option<u32>) -> (r: Result<u32, LaunchError>)
        ensures
            self.spec_phase() != LaunchPhase::Started ==> r == Result::<u32, LaunchError>::Ok(
                requested.unwrap_or(0),
            ),
            self.spec_phase() == LaunchPhase::Started ==> r == Result::<u32, LaunchError>::Err(
                state_order_error(),
            ),
    {
        match self.phase {
            LaunchPhase::Started => Result::Err(LaunchError::Ioctl(IoctlError::NotInInitState)),
            _ => Result::Ok(requested.unwrap_or(0)),
        }
    }

    /// Record the vCPU id the kernel attached.
    pub fn record_vcpu(&mut self, id: u32) -> (r: Result<(), LaunchError>)
        ensures
            old(self).spec_phase() != LaunchPhase::Started ==> (r is Ok && final(self).spec_cpu_ids() =~= old(self).spec_cpu_ids().push(id)),
            old(self).spec_phase() == LaunchPhase::Started ==> (r matches Err(e) && e
                == state_order_error() && final(self).spec_cpu_ids() == old(self).spec_cpu_ids()),
            final(self).spec_vm_fd() == old(self).spec_vm_fd(),
            final(self).spec_slot_uid() == old(self).spec_slot_uid(),
            final(self).spec_phase() == old(self).spec_phase(),
    {
        match self.phase {
            LaunchPhase::Started => Result::Err(LaunchError::Ioctl(IoctlError::NotInInitState)),
            _ => {
                self.cpu_ids.push(id);
                Result::Ok(())
            },
        }
    }

    /// Produce the start request: legal only once memory is installed.  The
    /// CID is resolved first: a valid caller-supplied CID is passed through
    /// unchanged, anything else is drawn at random until it lands in the
    /// valid range.
    pub fn start_request(&self, flags: StartFlags, cid: Option<u64>) -> (r: Result<
        StartInfo,
        LaunchError,
    >)
        ensures
            self.spec_phase() != LaunchPhase::MemoryInstalled ==> r == Result::<
                StartInfo,
                LaunchError,
            >::Err(state_order_error()),
            self.spec_phase() == LaunchPhase::MemoryInstalled && cid is Some && valid_cid(
                cid->Some_0,
            ) ==> r == Result::<StartInfo, LaunchError>::Ok(
                (StartInfo { flags: flags.spec_bits(), cid: cid->Some_0 }),
            ),
            r matches Ok(info) ==> self.spec_phase() == LaunchPhase::MemoryInstalled && info.flags
                == flags.spec_bits() && valid_cid(info.cid),
            self.spec_phase() == LaunchPhase::MemoryInstalled ==> (r is Ok || r == Result::<
                StartInfo,
                LaunchError,
            >::Err(LaunchError::CidRandomGenerate)),
    {
        match self.phase {
            LaunchPhase::MemoryInstalled => {
                match resolve_cid(cid) {
                    Result::Ok(resolved) => Result::Ok(
                        StartInfo { flags: flags.bits(), cid: resolved },
                    ),
                    Result::Err(e) => Result::Err(e),
                }
            },
            _ => Result::Err(LaunchError::Ioctl(IoctlError::NotInInitState)),
        }
    }

    /// Record the start the kernel confirmed, with the authoritative CID it
    /// returned, which may differ from the requested one and is the one to
    /// use from here on.  The session reaches its terminal phase.
    pub fn record_started(&mut self, authoritative_cid: u64) -> (r: Result<u64, LaunchError>)
        ensures
            old(self).spec_phase() == LaunchPhase::MemoryInstalled ==> (r == Result::<
                u64,
                LaunchError,
            >::Ok(authoritative_cid) && final(self).spec_phase() == LaunchPhase::Started),
            old(self).spec_phase() != LaunchPhase::MemoryInstalled ==> (r matches Err(e) && e
                == state_order_error() && final(self).spec_phase() == old(self).spec_phase()),
            final(self).spec_vm_fd() == old(self).spec_vm_fd(),
            final(self).spec_slot_uid() == old(self).spec_slot_uid(),
            final(self).spec_cpu_ids() == old(self).spec_cpu_ids(),
    {
        match self.phase {
            LaunchPhase::MemoryInstalled => {
                self.phase = LaunchPhase::Started;
                Result::Ok(authoritative_cid)
            },
            _ => Result::Err(LaunchError::Ioctl(IoctlError::NotInInitState)),
        }
    }
}

} // verus!
