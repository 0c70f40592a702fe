use nitro_enclaves::error::MemInitError;
use nitro_enclaves::memory::{plan_regions, ReserveStep, Reserver, NUM_PAGE_SIZES};

const MIB: u64 = 1 << 20;
const GIB: u64 = 1 << 30;

fn all_available() -> Vec<bool> {
    vec![true; NUM_PAGE_SIZES]
}

#[test]
fn greedy_exact_sum_two_sizes() {
    let sizes = plan_regions(2 * GIB + 2 * MIB, &all_available()).unwrap();
    assert_eq!(sizes, vec![2 * GIB, 2 * MIB]);
}

#[test]
fn greedy_exact_sum_mixed() {
    let sizes = plan_regions(3 * GIB, &all_available()).unwrap();
    assert_eq!(sizes, vec![2 * GIB, GIB]);

    let sizes = plan_regions(10 * MIB, &all_available()).unwrap();
    assert_eq!(sizes, vec![8 * MIB, 2 * MIB]);
    assert_eq!(sizes.iter().sum::<u64>(), 10 * MIB);
}

#[test]
fn greedy_skips_unavailable_sizes() {
    // Only 1 GiB pages available: a 3 GiB request is three of them.
    let mut avail = vec![false; NUM_PAGE_SIZES];
    avail[2] = true;
    let sizes = plan_regions(3 * GIB, &avail).unwrap();
    assert_eq!(sizes, vec![GIB, GIB, GIB]);
}

#[test]
fn greedy_zero_request_is_empty() {
    let sizes = plan_regions(0, &all_available()).unwrap();
    assert!(sizes.is_empty());
}

#[test]
fn no_decomposition_fails() {
    // 3 MiB is not a sum of supported page sizes.
    assert!(matches!(
        plan_regions(3 * MIB, &all_available()),
        Err(MemInitError::NoHugePageFound)
    ));
    // 2 MiB cannot be covered when only 16 GiB pages are available.
    let mut avail = vec![false; NUM_PAGE_SIZES];
    avail[0] = true;
    assert!(matches!(plan_regions(2 * MIB, &avail), Err(MemInitError::NoHugePageFound)));
    // Nothing available at all.
    assert!(matches!(
        plan_regions(2 * MIB, &vec![false; NUM_PAGE_SIZES]),
        Err(MemInitError::NoHugePageFound)
    ));
}

#[test]
fn reserver_walks_greedily() {
    // 10 MiB: the first fitting size is 8 MiB (index 7), then 2 MiB (index 8).
    let mut reserver = Reserver::new(10 * MIB);
    assert_eq!(reserver.next_step(), ReserveStep::Try(7));
    reserver.map_succeeded(7, 0x1000);
    assert_eq!(reserver.next_step(), ReserveStep::Try(8));
    reserver.map_succeeded(8, 0x2000);
    assert_eq!(reserver.next_step(), ReserveStep::Done);
    let regions = reserver.finish().unwrap();
    let list = regions.inner_ref();
    assert_eq!(list.len(), 2);
    assert_eq!(list[0].size, 8 * MIB);
    assert_eq!(list[0].uaddr, 0x1000);
    assert_eq!(list[0].flags, 0);
    assert_eq!(list[1].size, 2 * MIB);
    assert_eq!(list[1].uaddr, 0x2000);
    assert_eq!(regions.region_sizes(), vec![8 * MIB, 2 * MIB]);
}

#[test]
fn reserver_falls_back_on_failed_mapping() {
    // 8 MiB: when the 8 MiB mapping fails, the scan falls back to 2 MiB
    // pages without consuming budget, and a success restarts from the top.
    let mut reserver = Reserver::new(8 * MIB);
    assert_eq!(reserver.next_step(), ReserveStep::Try(7));
    reserver.map_failed(7);
    assert_eq!(reserver.next_step(), ReserveStep::Try(8));
    reserver.map_succeeded(8, 0x1000);
    // The scan restarts from the largest size; with 6 MiB left, 2 MiB is now
    // the largest size that fits.
    assert_eq!(reserver.next_step(), ReserveStep::Try(8));
    reserver.map_succeeded(8, 0x2000);
    assert_eq!(reserver.next_step(), ReserveStep::Try(8));
    reserver.map_succeeded(8, 0x3000);
    assert_eq!(reserver.next_step(), ReserveStep::Try(8));
    reserver.map_succeeded(8, 0x4000);
    assert_eq!(reserver.next_step(), ReserveStep::Done);
    let regions = reserver.finish().unwrap();
    assert_eq!(regions.region_sizes(), vec![2 * MIB, 2 * MIB, 2 * MIB, 2 * MIB]);
}

#[test]
fn reserver_fails_when_nothing_maps() {
    let mut reserver = Reserver::new(4 * MIB);
    assert_eq!(reserver.next_step(), ReserveStep::Try(8));
    reserver.map_failed(8);
    assert_eq!(reserver.next_step(), ReserveStep::Fail);
    assert!(matches!(reserver.finish(), Err(MemInitError::NoHugePageFound)));
}

#[test]
fn unaligned_totals_never_complete() {
    // 1 MiB is below the smallest supported page: no size ever fits.
    let reserver = Reserver::new_mib(1).unwrap();
    assert_eq!(reserver.next_step(), ReserveStep::Fail);
    assert!(matches!(reserver.finish(), Err(MemInitError::NoHugePageFound)));
}

#[test]
fn zero_request_completes_empty() {
    let reserver = Reserver::new_mib(0).unwrap();
    assert_eq!(reserver.next_step(), ReserveStep::Done);
    let regions = reserver.finish().unwrap();
    assert!(regions.inner_ref().is_empty());
}

#[test]
fn oversized_mib_request_fails() {
    assert!(matches!(Reserver::new_mib(usize::MAX), Err(MemInitError::NoHugePageFound)));
}
