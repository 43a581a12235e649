//! Surface pool behaviour: lease accounting, purging on resolution change,
//! and lease return rules.

use va_backend::format::VA_RT_FORMAT_YUV420;
use va_backend::pool::SurfacePool;
use va_backend::Resolution;

fn small_pool(n: u32) -> SurfacePool {
    let mut pool = SurfacePool::new(
        VA_RT_FORMAT_YUV420,
        Some(1),
        Resolution { width: 16, height: 16 },
    );
    let ids: Vec<u32> = (0..n).collect();
    pool.add_surfaces(ids);
    pool
}

#[test]
fn add_surfaces_registers_and_frees() {
    let pool = small_pool(4);
    assert_eq!(pool.num_surfaces_left(), 4);
    assert_eq!(pool.num_managed_surfaces(), 4);
    assert!(pool.is_managed(0));
    assert!(pool.is_managed(3));
    assert!(!pool.is_managed(4));
}

#[test]
fn lease_and_release_conserve_surfaces() {
    // Throughout any interleaving of add, lease and release, free plus
    // leased-still-managed equals managed.
    let mut pool = small_pool(4);
    let lease_a = pool.get_surface().unwrap();
    let lease_b = pool.get_surface().unwrap();
    assert_eq!(pool.num_surfaces_left(), 2);
    assert_eq!(pool.num_managed_surfaces(), 4);

    let returned = lease_a.release_into(&mut pool);
    assert!(returned);
    assert_eq!(pool.num_surfaces_left(), 3);
    assert_eq!(pool.num_managed_surfaces(), 4);

    pool.add_surfaces(vec![10, 11]);
    assert_eq!(pool.num_surfaces_left(), 5);
    assert_eq!(pool.num_managed_surfaces(), 6);

    let returned = lease_b.release_into(&mut pool);
    assert!(returned);
    assert_eq!(pool.num_surfaces_left(), 6);
    assert_eq!(pool.num_managed_surfaces(), 6);
}

#[test]
fn leases_come_out_oldest_first() {
    let mut pool = small_pool(3);
    assert_eq!(pool.get_surface().unwrap().surface().id, 0);
    assert_eq!(pool.get_surface().unwrap().surface().id, 1);
    assert_eq!(pool.get_surface().unwrap().surface().id, 2);
    assert!(pool.get_surface().is_none());
}

#[test]
fn empty_pool_leases_nothing() {
    // An empty free list is not an error: the caller grows the pool.
    let mut pool = SurfacePool::new(
        VA_RT_FORMAT_YUV420,
        None,
        Resolution { width: 16, height: 16 },
    );
    assert!(pool.get_surface().is_none());
}

#[test]
fn growing_resolution_purges_undersized() {
    // A pool at 16x16 with four surfaces, grown to 1920x1080: the free
    // list empties and nothing stays managed.
    let mut pool = small_pool(4);
    pool.set_coded_resolution(Resolution { width: 1920, height: 1080 });
    assert_eq!(pool.num_surfaces_left(), 0);
    assert_eq!(pool.num_managed_surfaces(), 0);
    assert_eq!(pool.coded_resolution(), Resolution { width: 1920, height: 1080 });
}

#[test]
fn growing_resolution_keeps_large_surfaces() {
    let mut pool = SurfacePool::new(
        VA_RT_FORMAT_YUV420,
        None,
        Resolution { width: 1920, height: 1080 },
    );
    pool.add_surfaces(vec![7, 8]);
    // Shrinking the target keeps the large surfaces usable.
    pool.set_coded_resolution(Resolution { width: 640, height: 480 });
    assert_eq!(pool.num_surfaces_left(), 2);
    assert_eq!(pool.num_managed_surfaces(), 2);
    // Growing back within their size keeps them too.
    pool.set_coded_resolution(Resolution { width: 1920, height: 1080 });
    assert_eq!(pool.num_surfaces_left(), 2);
}

#[test]
fn release_after_purge_discards_silently() {
    let mut pool = small_pool(2);
    let lease = pool.get_surface().unwrap();
    pool.set_coded_resolution(Resolution { width: 1920, height: 1080 });
    assert_eq!(pool.num_managed_surfaces(), 0);
    // The leased 16x16 surface no longer fits; it is not re-inserted.
    let returned = lease.release_into(&mut pool);
    assert!(!returned);
    assert_eq!(pool.num_surfaces_left(), 0);
    assert_eq!(pool.num_managed_surfaces(), 0);
}

#[test]
fn orphaned_lease_drops_silently() {
    // A lease whose pool is gone drops without panicking.
    let mut pool = small_pool(1);
    let lease = pool.get_surface().unwrap();
    drop(pool);
    lease.release_orphaned();
}

#[test]
fn detach_forgets_the_surface() {
    let mut pool = small_pool(2);
    let lease = pool.get_surface().unwrap();
    let id = lease.surface().id;
    let surface = lease.detach_from_pool(&mut pool);
    assert_eq!(surface.id, id);
    assert!(!pool.is_managed(id));
    assert_eq!(pool.num_managed_surfaces(), 1);
    assert_eq!(pool.num_surfaces_left(), 1);
}

#[test]
fn add_surface_rejects_undersized() {
    let mut pool = SurfacePool::new(
        VA_RT_FORMAT_YUV420,
        None,
        Resolution { width: 640, height: 480 },
    );
    let small = va_backend::pool::Surface {
        id: 42,
        size: Resolution { width: 320, height: 240 },
    };
    let rejected = pool.add_surface(small);
    assert_eq!(rejected, Err(small));
    assert_eq!(pool.num_managed_surfaces(), 0);

    let big = va_backend::pool::Surface {
        id: 43,
        size: Resolution { width: 640, height: 480 },
    };
    assert_eq!(pool.add_surface(big), Ok(()));
    assert_eq!(pool.num_managed_surfaces(), 1);
    assert_eq!(pool.num_surfaces_left(), 1);
}

#[test]
fn clear_empties_everything() {
    let mut pool = small_pool(3);
    pool.clear();
    assert_eq!(pool.num_surfaces_left(), 0);
    assert_eq!(pool.num_managed_surfaces(), 0);
}
