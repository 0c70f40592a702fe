use nitro_enclaves::error::MemInitError;
use nitro_enclaves::placement::{fill_regions, fill_step, plan_fill};

fn zeroed(sizes: &[usize]) -> Vec<Vec<u8>> {
    sizes.iter().map(|&s| vec![0u8; s]).collect()
}

#[test]
fn round_trip_across_regions() {
    // Image of 5 bytes at offset 2 in a 4+4+4 logical space.
    let mut buffers = zeroed(&[4, 4, 4]);
    let image = vec![10u8, 20, 30, 40, 50];
    fill_regions(&mut buffers, 2, &image).unwrap();

    // Read the logical range [2, 7) back and compare with the image.
    let flat: Vec<u8> = buffers.iter().flatten().copied().collect();
    assert_eq!(&flat[2..7], &image[..]);
    // Bytes outside the range are untouched zeroes.
    assert_eq!(flat[0], 0);
    assert_eq!(flat[1], 0);
    assert_eq!(&flat[7..], &[0, 0, 0, 0, 0]);
}

#[test]
fn boundary_split_keeps_every_byte_once() {
    // Three regions of mixed sizes; the image straddles both boundaries:
    // it spans logical positions 2..8 over regions of 3, 4 and 5 bytes.
    let mut buffers = zeroed(&[3, 4, 5]);
    let image = vec![1u8, 2, 3, 4, 5, 6];
    fill_regions(&mut buffers, 2, &image).unwrap();

    // The first region gets the image's first byte as its last byte.
    assert_eq!(buffers[0], vec![0, 0, 1]);
    // The second region is filled completely.
    assert_eq!(buffers[1], vec![2, 3, 4, 5]);
    // The third region gets the image's last byte as its first byte.
    assert_eq!(buffers[2], vec![6, 0, 0, 0, 0]);
}

#[test]
fn exact_span_between_two_regions() {
    // The image runs from the last byte of one region into the first byte of
    // the next: suffix and prefix, nothing duplicated or dropped.
    let mut buffers = zeroed(&[3, 3]);
    let image = vec![7u8, 8];
    fill_regions(&mut buffers, 2, &image).unwrap();
    assert_eq!(buffers[0], vec![0, 0, 7]);
    assert_eq!(buffers[1], vec![8, 0, 0]);
}

#[test]
fn fill_at_zero_offset() {
    let mut buffers = zeroed(&[2, 2]);
    let image = vec![9u8, 8, 7];
    fill_regions(&mut buffers, 0, &image).unwrap();
    assert_eq!(buffers[0], vec![9, 8]);
    assert_eq!(buffers[1], vec![7, 0]);
}

#[test]
fn placement_overflow_is_detected() {
    let mut buffers = zeroed(&[4]);
    let image = vec![1u8, 2];
    assert!(matches!(
        fill_regions(&mut buffers, usize::MAX, &image),
        Err(MemInitError::ImagePlacementOverflow)
    ));
    // The buffers are untouched.
    assert_eq!(buffers[0], vec![0, 0, 0, 0]);

    assert!(matches!(
        plan_fill(&vec![4], usize::MAX, 2),
        Err(MemInitError::ImagePlacementOverflow)
    ));
}

#[test]
fn offset_check_overflow_is_detected() {
    // Accounting for a region of the full address-space size overflows the
    // running total.
    assert!(matches!(
        fill_step(usize::MAX, 10, 10, 5),
        Err(MemInitError::OffsetCheckOverflow)
    ));
}

#[test]
fn incomplete_write_is_detected() {
    // 4 bytes of regions cannot hold a 5-byte image at offset 1.
    let mut buffers = zeroed(&[2, 2]);
    let image = vec![1u8, 2, 3, 4, 5];
    assert!(matches!(
        fill_regions(&mut buffers, 1, &image),
        Err(MemInitError::ImageWriteIncomplete)
    ));

    // An empty image still needs the regions to reach its offset.
    let mut buffers = zeroed(&[2, 2]);
    let empty: Vec<u8> = Vec::new();
    assert!(matches!(
        fill_regions(&mut buffers, 10, &empty),
        Err(MemInitError::ImageWriteIncomplete)
    ));
}

#[test]
fn empty_image_within_regions_writes_nothing() {
    let mut buffers = zeroed(&[2, 2]);
    let empty: Vec<u8> = Vec::new();
    fill_regions(&mut buffers, 3, &empty).unwrap();
    assert_eq!(buffers[0], vec![0, 0]);
    assert_eq!(buffers[1], vec![0, 0]);
}

#[test]
fn fill_step_decides_participation() {
    // A region wholly before the offset is skipped.
    assert!(matches!(fill_step(4, 10, 5, 2), Ok(None)));
    // A region reaching past the offset participates with the exact split.
    let cmd = fill_step(8, 10, 5, 6).unwrap().unwrap();
    assert_eq!(cmd.region_offset, 4);
    assert_eq!(cmd.image_offset, 0);
    assert_eq!(cmd.amount, 4);
    // A region past the offset takes the image where it left off.
    let cmd = fill_step(8, 10, 5, 14).unwrap().unwrap();
    assert_eq!(cmd.region_offset, 0);
    assert_eq!(cmd.image_offset, 4);
    assert_eq!(cmd.amount, 1);
}

#[test]
fn plan_matches_boundary_fill() {
    let steps = plan_fill(&vec![3, 4, 5], 2, 6).unwrap();
    assert_eq!(steps.len(), 3);
    assert_eq!(steps[0].region_index, 0);
    assert_eq!(steps[0].cmd.region_offset, 2);
    assert_eq!(steps[0].cmd.image_offset, 0);
    assert_eq!(steps[0].cmd.amount, 1);
    assert_eq!(steps[1].region_index, 1);
    assert_eq!(steps[1].cmd.region_offset, 0);
    assert_eq!(steps[1].cmd.image_offset, 1);
    assert_eq!(steps[1].cmd.amount, 4);
    assert_eq!(steps[2].region_index, 2);
    assert_eq!(steps[2].cmd.region_offset, 0);
    assert_eq!(steps[2].cmd.image_offset, 5);
    assert_eq!(steps[2].cmd.amount, 1);
}

#[test]
fn plan_skips_regions_after_image_end() {
    let steps = plan_fill(&vec![4, 4, 4], 0, 3).unwrap();
    assert_eq!(steps.len(), 1);
    assert_eq!(steps[0].region_index, 0);
    assert_eq!(steps[0].cmd.amount, 3);
}
