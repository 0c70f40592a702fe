use nitro_enclaves::error::{IoctlError, LaunchError, MemInitError};

#[test]
fn maps_copy_to_user() {
    assert!(matches!(IoctlError::from_raw_os_error(Some(14)), IoctlError::CopyToUser));
}

#[test]
fn maps_negative_codes_by_magnitude() {
    assert!(matches!(IoctlError::from_raw_os_error(Some(-14)), IoctlError::CopyToUser));
    assert!(matches!(IoctlError::from_raw_os_error(Some(-12)), IoctlError::InternalMemoryAllocation));
    assert!(matches!(IoctlError::from_raw_os_error(Some(-270)), IoctlError::NotInInitState));
}

#[test]
fn maps_internal_memory_allocation() {
    assert!(matches!(IoctlError::from_raw_os_error(Some(12)), IoctlError::InternalMemoryAllocation));
}

#[test]
fn maps_driver_codes() {
    assert!(matches!(IoctlError::from_raw_os_error(Some(270)), IoctlError::NotInInitState));
    assert!(matches!(IoctlError::from_raw_os_error(Some(272)), IoctlError::NoCpuAvailable));
    assert!(matches!(IoctlError::from_raw_os_error(Some(274)), IoctlError::InvalidFlags));
}

#[test]
fn unknown_codes_stay_opaque() {
    assert!(matches!(IoctlError::from_raw_os_error(Some(999)), IoctlError::Unknown(Some(999))));
    assert!(matches!(IoctlError::from_raw_os_error(Some(1)), IoctlError::Unknown(Some(1))));
    assert!(matches!(IoctlError::from_raw_os_error(Some(271)), IoctlError::Unknown(Some(271))));
    assert!(matches!(IoctlError::from_raw_os_error(None), IoctlError::Unknown(None)));
    assert!(matches!(
        IoctlError::from_raw_os_error(Some(i32::MIN)),
        IoctlError::Unknown(Some(i32::MIN))
    ));
}

#[test]
fn errno_errors_are_ioctl_errors() {
    assert!(matches!(LaunchError::ioctl_err_from_errno(), LaunchError::Ioctl(_)));
    let _ = IoctlError::from_errno();
}

#[test]
fn error_messages_name_the_failure() {
    assert_eq!(IoctlError::CopyToUser.message(), "unable to copy data to/from userspace");
    assert_eq!(
        IoctlError::NoCpuAvailable.message(),
        "no enclave CPU pool set or no CPUs available in the pool"
    );
    assert_eq!(IoctlError::NotInInitState.message(), "not in init (not yet started) state");
    assert_eq!(
        MemInitError::NoHugePageFound.message(),
        "a valid combination of hugepages could not be found for the requested size"
    );
    assert_eq!(
        MemInitError::ImageWriteIncomplete.message(),
        "unable to write total image file to memory regions"
    );
    assert_eq!(MemInitError::ImageMetadata(Some(5)).message(), "unable to retrieve image metadata");
    assert_eq!(
        MemInitError::ImageRewind(None).message(),
        "unable to rewind image to beginning of image file"
    );
    assert_eq!(MemInitError::ImageRead(Some(5)).message(), "unable to read bytes from image file");
    assert_eq!(
        MemInitError::OffsetCheckOverflow.message(),
        "overflow when checking if memory region write was greater than image offset"
    );
    assert_eq!(
        MemInitError::ImagePlacementOverflow.message(),
        "overflow when calculating end of image region in guest memory"
    );
    assert_eq!(LaunchError::CidRandomGenerate.message(), "unable to randomly-generate enclave CID");
    assert_eq!(LaunchError::Ioctl(IoctlError::CopyToUser).message(), "ioctl error");
    assert_eq!(
        LaunchError::MemInit(MemInitError::NoHugePageFound).message(),
        "memory initialization error"
    );
}
