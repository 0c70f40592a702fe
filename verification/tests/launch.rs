use nitro_enclaves::error::{IoctlError, LaunchError};
use nitro_enclaves::launch::{
    resolve_cid, ImageType, Launcher, MemoryInfo, StartFlags, VMADDR_CID_PARENT,
};
use nitro_enclaves::memory::Reserver;
use nitro_enclaves::protocol::{
    ImageLoadInfo, NE_ADD_VCPU, NE_CREATE_VM, NE_GET_IMAGE_LOAD_INFO, NE_SET_USER_MEMORY_REGION,
    NE_START_ENCLAVE,
};

fn in_valid_range(cid: u64) -> bool {
    cid > VMADDR_CID_PARENT as u64 && cid <= u32::MAX as u64
}

#[test]
fn request_codes_match_the_device_protocol() {
    assert_eq!(NE_CREATE_VM, 0x8008AE20);
    assert_eq!(NE_ADD_VCPU, 0xC004AE21);
    assert_eq!(NE_GET_IMAGE_LOAD_INFO, 0xC010AE22);
    assert_eq!(NE_SET_USER_MEMORY_REGION, 0x4018AE23);
    assert_eq!(NE_START_ENCLAVE, 0xC010AE24);
}

#[test]
fn failed_slot_creation_is_an_ioctl_error() {
    assert!(matches!(Launcher::new(-1, 5), Err(LaunchError::Ioctl(_))));
    assert!(matches!(Launcher::new(3, 0), Err(LaunchError::Ioctl(_))));
}

#[test]
fn new_session_records_the_slot() {
    let launcher = Launcher::new(3, 77).unwrap();
    assert_eq!(launcher.slot_uid(), 77);
    assert_eq!(launcher.vm_fd(), 3);
    assert!(launcher.cpu_ids().is_empty());
}

#[test]
fn start_before_memory_install_is_rejected() {
    let launcher = Launcher::new(3, 77).unwrap();
    assert!(matches!(
        launcher.start_request(StartFlags::debug(), Some(42)),
        Err(LaunchError::Ioctl(IoctlError::NotInInitState))
    ));
    let mut launcher = launcher;
    assert!(matches!(
        launcher.record_started(42),
        Err(LaunchError::Ioctl(IoctlError::NotInInitState))
    ));
    // The session is intact and can continue in order.
    assert!(launcher.record_memory_installed().is_ok());
}

#[test]
fn full_launch_order_is_accepted() {
    let mut launcher = Launcher::new(4, 9).unwrap();

    // vCPU attachment is legal before memory installation.
    assert_eq!(launcher.vcpu_request(None).unwrap(), 0);
    assert_eq!(launcher.vcpu_request(Some(6)).unwrap(), 6);
    launcher.record_vcpu(6).unwrap();
    assert_eq!(launcher.cpu_ids(), &vec![6]);

    let image = ImageType::Eif(vec![1, 2, 3]);
    let info = launcher.load_info_request(&image).unwrap();
    assert_eq!(info.flags, 1);
    assert_eq!(info.memory_offset, 0);

    let regions = Reserver::new(0).finish().unwrap();
    assert!(launcher.install_regions_request(&regions).unwrap().is_empty());
    launcher.record_memory_installed().unwrap();

    // Memory operations are no longer legal.
    assert!(matches!(
        launcher.load_info_request(&image),
        Err(LaunchError::Ioctl(IoctlError::NotInInitState))
    ));
    assert!(matches!(
        launcher.install_regions_request(&regions),
        Err(LaunchError::Ioctl(IoctlError::NotInInitState))
    ));
    assert!(matches!(
        launcher.record_memory_installed(),
        Err(LaunchError::Ioctl(IoctlError::NotInInitState))
    ));

    // vCPU attachment stays legal after memory installation.
    launcher.record_vcpu(7).unwrap();
    assert_eq!(launcher.cpu_ids(), &vec![6, 7]);

    // An in-range CID is passed through to the start request unchanged.
    let start = launcher.start_request(StartFlags::debug(), Some(42)).unwrap();
    assert_eq!(start.flags, 1);
    assert_eq!(start.cid, 42);

    // The kernel's CID is authoritative, even when it differs.
    assert_eq!(launcher.record_started(43).unwrap(), 43);

    // The started session rejects every further mutating operation.
    assert!(matches!(
        launcher.vcpu_request(None),
        Err(LaunchError::Ioctl(IoctlError::NotInInitState))
    ));
    assert!(matches!(
        launcher.record_vcpu(1),
        Err(LaunchError::Ioctl(IoctlError::NotInInitState))
    ));
    assert!(matches!(
        launcher.start_request(StartFlags::empty(), None),
        Err(LaunchError::Ioctl(IoctlError::NotInInitState))
    ));
    assert!(matches!(
        launcher.record_started(1),
        Err(LaunchError::Ioctl(IoctlError::NotInInitState))
    ));
}

#[test]
fn in_range_cid_passes_through() {
    assert_eq!(resolve_cid(Some(42)).unwrap(), 42);
    assert_eq!(resolve_cid(Some(4)).unwrap(), 4);
    assert_eq!(resolve_cid(Some(u32::MAX as u64)).unwrap(), u32::MAX as u64);
}

#[test]
fn out_of_range_cid_is_regenerated() {
    // CID 0 and the reserved maximum always trigger regeneration: whatever
    // comes back lies strictly inside the valid range.
    assert!(in_valid_range(resolve_cid(Some(0)).unwrap()));
    assert!(in_valid_range(resolve_cid(Some(VMADDR_CID_PARENT as u64)).unwrap()));
    assert!(in_valid_range(resolve_cid(Some(1)).unwrap()));
    assert!(in_valid_range(resolve_cid(Some(u32::MAX as u64 + 1)).unwrap()));
    assert!(in_valid_range(resolve_cid(None).unwrap()));
}

#[test]
fn start_flags_encode_debug_mode() {
    assert_eq!(StartFlags::empty().bits(), 0);
    assert_eq!(StartFlags::debug().bits(), 1);
}

#[test]
fn memory_info_carries_image_and_budget() {
    let mem = MemoryInfo::new(ImageType::Eif(vec![5, 6]), 512);
    assert_eq!(mem.size_mib, 512);
    let ImageType::Eif(bytes) = mem.image_type;
    assert_eq!(bytes, vec![5, 6]);
}

#[test]
fn load_info_announces_the_image_format() {
    let info = ImageLoadInfo::from(&ImageType::Eif(Vec::new()));
    assert_eq!(info.flags, 1);
    assert_eq!(info.memory_offset, 0);
}
