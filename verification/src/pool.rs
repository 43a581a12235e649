//! A pool of reusable hardware decode surfaces.
//!
//! Hardware surface allocation is expensive; the pool amortizes it while
//! staying correct under dynamic resolution change by purging undersized
//! surfaces rather than blocking. The pool tracks a *managed* registry
//! (surface id and size, kept even while a surface is leased out) and a
//! *free* list of surfaces ready to be leased.

use vstd::prelude::*;
use vstd::seq_lib::*;
use crate::seqs::{lemma_filter_subset, lemma_filter_no_duplicates};
use std::collections::VecDeque;
use crate::resolution::Resolution;

verus! {

/// A hardware-resident decode surface, as this crate sees it: the identifier
/// the device assigned to it and the resolution it was allocated at.
#[derive(Clone, Copy, Debug, PartialEq, Eq, Structural)]
pub struct Surface {
    pub id: u32,
    pub size: Resolution,
}

/// A pool of decode surfaces sized to a target coded resolution.
///
/// Only surfaces that can contain the pool's coded resolution are retained,
/// free or managed; growing the resolution purges every undersized entry
/// immediately.
pub struct SurfacePool {
    /// The pixel-format class the pool's surfaces were allocated for.
    rt_format: u32,
    /// The usage hint the surfaces were allocated with, if any.
    usage_hint: Option<u32>,
    /// The resolution every retained surface must be able to contain.
    coded_resolution: Resolution,
    /// Surfaces ready to be leased, oldest first.
    surfaces: VecDeque<Surface>,
    /// Every surface this pool owns, leased or free, by id and size. The
    /// size is kept so an undersized surface can be dropped on return even
    /// if it was leased out during a resolution change.
    managed_surfaces: Vec<Surface>,
}

impl SurfacePool {
    /// The free list, oldest surface first.
    pub closed spec fn spec_free(self) -> Seq<Surface> {
        self.surfaces@
    }

    /// The managed registry, in insertion order.
    pub closed spec fn spec_managed(self) -> Seq<Surface> {
        self.managed_surfaces@
    }

    /// The pool's target coded resolution.
    pub closed spec fn spec_coded_resolution(self) -> Resolution {
        self.coded_resolution
    }

    /// The pixel-format class the pool allocates for.
    pub closed spec fn spec_rt_format(self) -> u32 {
        self.rt_format
    }

    /// The usage hint the pool allocates with.
    pub closed spec fn spec_usage_hint(self) -> Option<u32> {
        self.usage_hint
    }

    /// The ids of the free surfaces, oldest first.
    pub open spec fn spec_free_ids(self) -> Seq<u32> {
        self.spec_free().map_values(|s: Surface| s.id)
    }

    /// The ids of the managed surfaces, in insertion order.
    pub open spec fn spec_managed_ids(self) -> Seq<u32> {
        self.spec_managed().map_values(|s: Surface| s.id)
    }

    /// Whether the pool still manages a surface with this id.
    pub open spec fn spec_is_managed(self, id: u32) -> bool {
        self.spec_managed_ids().contains(id)
    }

    /// The pool's internal invariant: ids are unique, every free surface is
    /// a managed one, and nothing retained is smaller than the target coded
    /// resolution.
    pub open spec fn wf(self) -> bool {
        &&& self.spec_managed_ids().no_duplicates()
        &&& self.spec_free_ids().no_duplicates()
        &&& forall|i: int|
            0 <= i < self.spec_free().len()
                ==> self.spec_managed().contains(#[trigger] self.spec_free()[i])
        &&& forall|j: int|
            0 <= j < self.spec_managed().len()
                ==> (#[trigger] self.spec_managed()[j]).size.spec_can_contain(
                    self.spec_coded_resolution(),
                )
    }

    /// Creates an empty pool for the given pixel-format class, usage hint
    /// and target coded resolution.
    pub fn new(rt_format: u32, usage_hint: Option<u32>, coded_resolution: Resolution) -> (r:
        SurfacePool)
        ensures
            r.wf(),
            r.spec_free() =~= Seq::<Surface>::empty(),
            r.spec_managed() =~= Seq::<Surface>::empty(),
            r.spec_coded_resolution() == coded_resolution,
            r.spec_rt_format() == rt_format,
            r.spec_usage_hint() == usage_hint,
    {
        SurfacePool {
            rt_format,
            usage_hint,
            coded_resolution,
            surfaces: VecDeque::new(),
            managed_surfaces: Vec::new(),
        }
    }

    /// The current target coded resolution of the pool.
    pub fn coded_resolution(&self) -> (r: Resolution)
        ensures
            r == self.spec_coded_resolution(),
    {
        self.coded_resolution
    }

    /// The pixel-format class the pool allocates surfaces for.
    pub fn rt_format(&self) -> (r: u32)
        ensures
            r == self.spec_rt_format(),
    {
        self.rt_format
    }

    /// The usage hint the pool allocates surfaces with.
    pub fn usage_hint(&self) -> (r: Option<u32>)
        ensures
            r == self.spec_usage_hint(),
    {
        self.usage_hint
    }

    /// The number of surfaces ready to be leased.
    pub fn num_surfaces_left(&self) -> (r: usize)
        ensures
            r == self.spec_free().len(),
    {
        self.surfaces.len()
    }

    /// The total number of surfaces this pool manages, leased or free.
    pub fn num_managed_surfaces(&self) -> (r: usize)
        ensures
            r == self.spec_managed().len(),
    {
        self.managed_surfaces.len()
    }

    /// Whether the pool still manages a surface with this id.
    pub fn is_managed(&self, id: u32) -> (r: bool)
        ensures
            r == self.spec_is_managed(id),
    {
        let mut j: usize = 0;
        while j < self.managed_surfaces.len()
            invariant
                j <= self.spec_managed().len(),
                forall|k: int| 0 <= k < j ==> (#[trigger] self.spec_managed()[k]).id != id,
            decreases self.spec_managed().len() - j,
        {
            if self.managed_surfaces[j].id == id {
                proof {
                    assert(self.spec_managed_ids()[j as int] == id);
                }
                return true;
            }
            j = j + 1;
        }
        proof {
            assert forall|k: int| 0 <= k < self.spec_managed_ids().len()
                implies self.spec_managed_ids()[k] != id by {
                assert(self.spec_managed()[k].id != id);
            }
        }
        false
    }

    /// Registers freshly allocated surfaces, sized to the current target
    /// coded resolution, as managed and appends them to the free list.
    ///
    /// The ids are the ones the device assigned; the device never reuses the
    /// id of a surface that is still alive, so they are distinct and fresh.
    pub fn add_surfaces(&mut self, ids: Vec<u32>)
        requires
            old(self).wf(),
            ids@.no_duplicates(),
            forall|i: int| 0 <= i < ids@.len() ==> !old(self).spec_is_managed(#[trigger] ids@[i]),
        ensures
            final(self).wf(),
            final(self).spec_coded_resolution() == old(self).spec_coded_resolution(),
            final(self).spec_rt_format() == old(self).spec_rt_format(),
            final(self).spec_usage_hint() == old(self).spec_usage_hint(),
            final(self).spec_managed() == old(self).spec_managed() + spec_surfaces_at(
                ids@,
                old(self).spec_coded_resolution(),
            ),
            final(self).spec_free() == old(self).spec_free() + spec_surfaces_at(
                ids@,
                old(self).spec_coded_resolution(),
            ),
    {
        let ghost pre = *self;
        let ghost added = spec_surfaces_at(ids@, self.coded_resolution);
        let mut i: usize = 0;
        while i < ids.len()
            invariant
                pre.wf(),
                ids@.no_duplicates(),
                forall|k: int| 0 <= k < ids@.len() ==> !pre.spec_is_managed(#[trigger] ids@[k]),
                i <= ids@.len(),
                added == spec_surfaces_at(ids@, pre.spec_coded_resolution()),
                self.coded_resolution == pre.spec_coded_resolution(),
                self.rt_format == pre.spec_rt_format(),
                self.usage_hint == pre.spec_usage_hint(),
                self.spec_managed() == pre.spec_managed() + added.take(i as int),
                self.spec_free() == pre.spec_free() + added.take(i as int),
            decreases ids@.len() - i,
        {
            let s = Surface { id: ids[i], size: self.coded_resolution };
            self.managed_surfaces.push(s);
            self.surfaces.push_back(s);
            proof {
                assert(added[i as int] == s);
                assert(self.spec_managed() =~= pre.spec_managed() + added.take(i as int + 1));
                assert(self.spec_free() =~= pre.spec_free() + added.take(i as int + 1));
            }
            i = i + 1;
        }
        proof {
            assert(added.take(ids@.len() as int) =~= added);
            lemma_wf_after_append(pre, *self, ids@, added);
        }
    }
}

impl SurfacePool {
    /// Pops the oldest free surface as a lease, or nothing if the free list
    /// is empty. An empty result is not an error: the caller grows the pool.
    pub fn get_surface(&mut self) -> (r: Option<PooledSurface>)
        requires
            old(self).wf(),
        ensures
            final(self).wf(),
            final(self).spec_managed() == old(self).spec_managed(),
            final(self).spec_coded_resolution() == old(self).spec_coded_resolution(),
            final(self).spec_rt_format() == old(self).spec_rt_format(),
            final(self).spec_usage_hint() == old(self).spec_usage_hint(),
            old(self).spec_free().len() == 0 ==> r is None && final(self).spec_free() == old(
                self,
            ).spec_free(),
            old(self).spec_free().len() > 0 ==> {
                &&& r matches Some(lease)
                &&& lease.spec_surface() == old(self).spec_free()[0]
                &&& final(self).spec_free() == old(self).spec_free().subrange(
                    1,
                    old(self).spec_free().len() as int,
                )
                &&& lease.spec_surface().size.spec_can_contain(old(self).spec_coded_resolution())
            },
    {
        let ghost pre = *self;
        match self.surfaces.pop_front() {
            None => None,
            Some(s) => {
                proof {
                    lemma_wf_after_pop(pre, *self);
                    assert(pre.spec_managed().contains(s));
                    let j = choose|j: int|
                        0 <= j < pre.spec_managed().len() && pre.spec_managed()[j] == s;
                    assert(pre.spec_managed()[j].size.spec_can_contain(
                        pre.spec_coded_resolution(),
                    ));
                }
                Some(PooledSurface { surface: s })
            },
        }
    }

    /// Sets the target coded resolution and purges, from the registry and
    /// the free list alike, every surface unable to contain it.
    pub fn set_coded_resolution(&mut self, resolution: Resolution)
        requires
            old(self).wf(),
        ensures
            final(self).wf(),
            final(self).spec_coded_resolution() == resolution,
            final(self).spec_rt_format() == old(self).spec_rt_format(),
            final(self).spec_usage_hint() == old(self).spec_usage_hint(),
            final(self).spec_managed() == old(self).spec_managed().filter(
                |s: Surface| s.size.spec_can_contain(resolution),
            ),
            final(self).spec_free() == old(self).spec_free().filter(
                |s: Surface| s.size.spec_can_contain(resolution),
            ),
            forall|j: int|
                0 <= j < final(self).spec_managed().len()
                    ==> (#[trigger] final(self).spec_managed()[j]).size.spec_can_contain(
                    resolution,
                ),
            forall|i: int|
                0 <= i < final(self).spec_free().len()
                    ==> (#[trigger] final(self).spec_free()[i]).size.spec_can_contain(resolution),
    {
        let ghost pre = *self;
        let ghost pred = |s: Surface| s.size.spec_can_contain(resolution);
        self.coded_resolution = resolution;

        // Rebuild the registry, keeping only surfaces that can contain the
        // new resolution.
        let ghost orig_m = self.managed_surfaces@;
        let mut kept: Vec<Surface> = Vec::new();
        let mut j: usize = 0;
        while j < self.managed_surfaces.len()
            invariant
                j <= orig_m.len(),
                self.managed_surfaces@ == orig_m,
                pred == (|s: Surface| s.size.spec_can_contain(resolution)),
                kept@ == orig_m.take(j as int).filter(pred),
            decreases orig_m.len() - j,
        {
            let s = self.managed_surfaces[j];
            if s.size.can_contain(resolution) {
                kept.push(s);
            }
            proof {
                reveal(Seq::filter);
                assert(orig_m.take(j as int + 1).drop_last() =~= orig_m.take(j as int));
                assert(orig_m.take(j as int + 1).last() == s);
            }
            j = j + 1;
        }
        proof {
            assert(orig_m.take(orig_m.len() as int) =~= orig_m);
        }
        self.managed_surfaces = kept;

        // Drain the free list the same way, keeping its order.
        let ghost orig_f = self.surfaces@;
        let mut kept_free: VecDeque<Surface> = VecDeque::new();
        let ghost mut i: int = 0;
        while self.surfaces.len() > 0
            invariant
                0 <= i <= orig_f.len(),
                self.surfaces@ == orig_f.skip(i),
                pred == (|s: Surface| s.size.spec_can_contain(resolution)),
                kept_free@ == orig_f.take(i).filter(pred),
                self.coded_resolution == resolution,
                self.rt_format == pre.spec_rt_format(),
                self.usage_hint == pre.spec_usage_hint(),
                self.managed_surfaces@ == pre.spec_managed().filter(pred),
            decreases orig_f.len() - i,
        {
            let s = self.surfaces.pop_front().unwrap();
            if s.size.can_contain(resolution) {
                kept_free.push_back(s);
            }
            proof {
                reveal(Seq::filter);
                assert(orig_f.skip(i)[0] == orig_f[i]);
                assert(orig_f.skip(i).subrange(1, orig_f.skip(i).len() as int) =~= orig_f.skip(
                    i + 1,
                ));
                assert(orig_f.take(i + 1).drop_last() =~= orig_f.take(i));
                assert(orig_f.take(i + 1).last() == s);
                i = i + 1;
            }
        }
        proof {
            assert(orig_f.skip(i).len() == 0);
            assert(i == orig_f.len());
            assert(orig_f.take(orig_f.len() as int) =~= orig_f);
        }
        self.surfaces = kept_free;

        proof {
            lemma_wf_after_purge(pre, *self, resolution);
            broadcast use Seq::lemma_filter_pred;
        }
    }

    /// Drops every surface the pool holds or tracks, free list and registry
    /// alike. Outstanding leases are discarded on return.
    pub fn clear(&mut self)
        ensures
            final(self).wf(),
            final(self).spec_free() =~= Seq::<Surface>::empty(),
            final(self).spec_managed() =~= Seq::<Surface>::empty(),
            final(self).spec_coded_resolution() == old(self).spec_coded_resolution(),
            final(self).spec_rt_format() == old(self).spec_rt_format(),
            final(self).spec_usage_hint() == old(self).spec_usage_hint(),
    {
        self.surfaces.clear();
        self.managed_surfaces.clear();
    }

    /// Adds one surface to the pool: an entirely new one, or one obtained
    /// earlier with [`SurfacePool::get_surface`] and since detached.
    ///
    /// Fails, handing the surface back, iff it cannot contain the pool's
    /// current coded resolution.
    pub fn add_surface(&mut self, surface: Surface) -> (r: Result<(), Surface>)
        requires
            old(self).wf(),
            !old(self).spec_is_managed(surface.id),
        ensures
            final(self).wf(),
            final(self).spec_coded_resolution() == old(self).spec_coded_resolution(),
            final(self).spec_rt_format() == old(self).spec_rt_format(),
            final(self).spec_usage_hint() == old(self).spec_usage_hint(),
            surface.size.spec_can_contain(old(self).spec_coded_resolution()) ==> {
                &&& r is Ok
                &&& final(self).spec_managed() == old(self).spec_managed().push(surface)
                &&& final(self).spec_free() == old(self).spec_free().push(surface)
            },
            !surface.size.spec_can_contain(old(self).spec_coded_resolution()) ==> {
                &&& r == Result::<(), Surface>::Err(surface)
                &&& final(self).spec_managed() == old(self).spec_managed()
                &&& final(self).spec_free() == old(self).spec_free()
            },
    {
        let ghost pre = *self;
        if surface.size.can_contain(self.coded_resolution) {
            self.managed_surfaces.push(surface);
            self.surfaces.push_back(surface);
            proof {
                lemma_wf_after_add_one(pre, *self, surface);
            }
            Ok(())
        } else {
            Err(surface)
        }
    }
}

/// A surface leased from a [`SurfacePool`].
///
/// Returning the lease puts the surface back on its pool's free list,
/// provided the pool still exists and still manages the surface; otherwise
/// the surface is discarded silently. The owner of the pool passes it in
/// explicitly on return; a pool that has already been dropped is simply not
/// passed (see [`PooledSurface::release_orphaned`]).
pub struct PooledSurface {
    surface: Surface,
}

impl PooledSurface {
    /// The leased surface.
    pub closed spec fn spec_surface(self) -> Surface {
        self.surface
    }

    /// The leased surface's id and size.
    pub fn surface(&self) -> (s: Surface)
        ensures
            s == self.spec_surface(),
    {
        self.surface
    }

    /// Whether the pool's registry, wherever it mentions this surface's id,
    /// records exactly this surface. True of every genuine lease: the
    /// registry entry was made from the surface itself, and the device does
    /// not reuse the id of a surface that is still alive.
    pub open spec fn spec_agrees_with(self, pool: SurfacePool) -> bool {
        &&& forall|j: int|
            0 <= j < pool.spec_managed().len() && (#[trigger] pool.spec_managed()[j]).id
                == self.spec_surface().id ==> pool.spec_managed()[j] == self.spec_surface()
        &&& !pool.spec_free_ids().contains(self.spec_surface().id)
    }

    /// Returns the surface to the pool's free list iff the pool still
    /// manages its id; otherwise discards it silently, as after a purge.
    pub fn release_into(self, pool: &mut SurfacePool) -> (returned: bool)
        requires
            old(pool).wf(),
            self.spec_agrees_with(*old(pool)),
        ensures
            final(pool).wf(),
            final(pool).spec_managed() == old(pool).spec_managed(),
            final(pool).spec_coded_resolution() == old(pool).spec_coded_resolution(),
            final(pool).spec_rt_format() == old(pool).spec_rt_format(),
            final(pool).spec_usage_hint() == old(pool).spec_usage_hint(),
            returned == old(pool).spec_is_managed(self.spec_surface().id),
            returned ==> final(pool).spec_free() == old(pool).spec_free().push(
                self.spec_surface(),
            ),
            !returned ==> final(pool).spec_free() == old(pool).spec_free(),
    {
        let ghost pre = *pool;
        if pool.is_managed(self.surface.id) {
            pool.surfaces.push_back(self.surface);
            proof {
                lemma_wf_after_return(pre, *pool, self.surface);
            }
            true
        } else {
            false
        }
    }

    /// Drops a lease whose pool no longer exists. Nothing to return the
    /// surface to; it is discarded silently, and this can never fail.
    pub fn release_orphaned(self) {
        let _ = self;
    }

    /// Detaches the surface from the pool: the registry forgets its id, so
    /// it will never return to the free list, and the caller may dispose of
    /// it freely.
    pub fn detach_from_pool(self, pool: &mut SurfacePool) -> (s: Surface)
        requires
            old(pool).wf(),
            self.spec_agrees_with(*old(pool)),
        ensures
            final(pool).wf(),
            final(pool).spec_free() == old(pool).spec_free(),
            final(pool).spec_coded_resolution() == old(pool).spec_coded_resolution(),
            final(pool).spec_rt_format() == old(pool).spec_rt_format(),
            final(pool).spec_usage_hint() == old(pool).spec_usage_hint(),
            final(pool).spec_managed() == old(pool).spec_managed().filter(
                |x: Surface| x.id != self.spec_surface().id,
            ),
            s == self.spec_surface(),
    {
        let ghost pre = *pool;
        let ghost pred = |x: Surface| x.id != self.spec_surface().id;
        let ghost orig_m = pool.managed_surfaces@;
        let mut kept: Vec<Surface> = Vec::new();
        let mut j: usize = 0;
        while j < pool.managed_surfaces.len()
            invariant
                j <= orig_m.len(),
                pool.managed_surfaces@ == orig_m,
                pred == (|x: Surface| x.id != self.spec_surface().id),
                kept@ == orig_m.take(j as int).filter(pred),
            decreases orig_m.len() - j,
        {
            let entry = pool.managed_surfaces[j];
            if entry.id != self.surface.id {
                kept.push(entry);
            }
            proof {
                reveal(Seq::filter);
                assert(orig_m.take(j as int + 1).drop_last() =~= orig_m.take(j as int));
                assert(orig_m.take(j as int + 1).last() == entry);
            }
            j = j + 1;
        }
        proof {
            assert(orig_m.take(orig_m.len() as int) =~= orig_m);
        }
        pool.managed_surfaces = kept;
        proof {
            lemma_wf_after_detach(pre, *pool, self.surface);
        }
        self.surface
    }

    /// Takes the surface out of a lease whose pool no longer exists; there
    /// is no registry left to forget it from.
    pub fn detach_orphaned(self) -> (s: Surface)
        ensures
            s == self.spec_surface(),
    {
        self.surface
    }
}

/// The surfaces a batch of fresh device ids stands for, each sized to the
/// given resolution.
pub open spec fn spec_surfaces_at(ids: Seq<u32>, size: Resolution) -> Seq<Surface> {
    ids.map_values(|id: u32| Surface { id, size })
}

/// Appending fresh, distinct ids sized to the pool's own resolution
/// preserves the pool invariant.
proof fn lemma_wf_after_append(pre: SurfacePool, post: SurfacePool, ids: Seq<u32>, added: Seq<
    Surface,
>)
    requires
        pre.wf(),
        ids.no_duplicates(),
        forall|k: int| 0 <= k < ids.len() ==> !pre.spec_is_managed(#[trigger] ids[k]),
        added == spec_surfaces_at(ids, pre.spec_coded_resolution()),
        post.spec_managed() == pre.spec_managed() + added,
        post.spec_free() == pre.spec_free() + added,
        post.spec_coded_resolution() == pre.spec_coded_resolution(),
    ensures
        post.wf(),
{
    assert(post.spec_managed_ids() =~= pre.spec_managed_ids() + ids);
    assert(post.spec_free_ids() =~= pre.spec_free_ids() + ids);

    // Fresh ids collide neither with managed ids nor among themselves.
    assert forall|a: int, b: int|
        0 <= a < post.spec_managed_ids().len() && 0 <= b < post.spec_managed_ids().len() && a != b
        implies post.spec_managed_ids()[a] != post.spec_managed_ids()[b] by {
        let pm = pre.spec_managed_ids().len() as int;
        if a < pm && b >= pm {
            assert(pre.spec_managed_ids().contains(post.spec_managed_ids()[a]));
        } else if b < pm && a >= pm {
            assert(pre.spec_managed_ids().contains(post.spec_managed_ids()[b]));
        }
    }

    // Every pre-existing free id is a managed id, hence distinct from every
    // fresh id.
    assert forall|a: int, b: int|
        0 <= a < post.spec_free_ids().len() && 0 <= b < post.spec_free_ids().len() && a != b
        implies post.spec_free_ids()[a] != post.spec_free_ids()[b] by {
        let pf = pre.spec_free_ids().len() as int;
        if a < pf && b >= pf {
            lemma_free_id_is_managed(pre, a);
        } else if b < pf && a >= pf {
            lemma_free_id_is_managed(pre, b);
        }
    }

    assert forall|i: int| 0 <= i < post.spec_free().len() implies post.spec_managed().contains(
        #[trigger] post.spec_free()[i],
    ) by {
        let pf = pre.spec_free().len() as int;
        if i < pf {
            let s = pre.spec_free()[i];
            let j = choose|j: int|
                0 <= j < pre.spec_managed().len() && pre.spec_managed()[j] == s;
            assert(post.spec_managed()[j] == s);
        } else {
            let j = pre.spec_managed().len() + (i - pf);
            assert(post.spec_managed()[j] == post.spec_free()[i]);
        }
    }
}

/// A sequence of surfaces with pairwise distinct ids has pairwise distinct
/// elements.
proof fn lemma_distinct_ids_distinct_surfaces(s: Seq<Surface>)
    requires
        s.map_values(|x: Surface| x.id).no_duplicates(),
    ensures
        s.no_duplicates(),
{
    assert forall|a: int, b: int|
        0 <= a < s.len() && 0 <= b < s.len() && a != b implies #[trigger] s[a] != #[trigger] s[b] by {
        assert(s.map_values(|x: Surface| x.id)[a] == s[a].id);
        assert(s.map_values(|x: Surface| x.id)[b] == s[b].id);
    }
}

/// Filtering a sequence of surfaces with distinct ids keeps the ids
/// distinct.
proof fn lemma_filter_ids_no_duplicates(s: Seq<Surface>, pred: spec_fn(Surface) -> bool)
    requires
        s.map_values(|x: Surface| x.id).no_duplicates(),
    ensures
        s.filter(pred).map_values(|x: Surface| x.id).no_duplicates(),
{
    let f = s.filter(pred);
    lemma_distinct_ids_distinct_surfaces(s);
    lemma_filter_no_duplicates(s, pred);
    let fids = f.map_values(|x: Surface| x.id);
    assert forall|a: int, b: int|
        0 <= a < fids.len() && 0 <= b < fids.len() && a != b implies #[trigger] fids[a]
        != #[trigger] fids[b] by {
        lemma_filter_subset(s, pred, a);
        lemma_filter_subset(s, pred, b);
        let ja = choose|j: int| 0 <= j < s.len() && s[j] == f[a];
        let jb = choose|j: int| 0 <= j < s.len() && s[j] == f[b];
        assert(s.map_values(|x: Surface| x.id)[ja] == f[a].id);
        assert(s.map_values(|x: Surface| x.id)[jb] == f[b].id);
    }
}

/// Popping the oldest free surface preserves the pool invariant.
proof fn lemma_wf_after_pop(pre: SurfacePool, post: SurfacePool)
    requires
        pre.wf(),
        pre.spec_free().len() > 0,
        post.spec_free() == pre.spec_free().subrange(1, pre.spec_free().len() as int),
        post.spec_managed() == pre.spec_managed(),
        post.spec_coded_resolution() == pre.spec_coded_resolution(),
    ensures
        post.wf(),
{
    assert(post.spec_free_ids() =~= pre.spec_free_ids().subrange(
        1,
        pre.spec_free_ids().len() as int,
    ));
    assert forall|i: int| 0 <= i < post.spec_free().len() implies post.spec_managed().contains(
        #[trigger] post.spec_free()[i],
    ) by {
        assert(post.spec_free()[i] == pre.spec_free()[i + 1]);
    }
}

/// Returning a genuine lease to a pool that still manages it preserves the
/// pool invariant.
proof fn lemma_wf_after_return(pre: SurfacePool, post: SurfacePool, s: Surface)
    requires
        pre.wf(),
        pre.spec_is_managed(s.id),
        forall|j: int|
            0 <= j < pre.spec_managed().len() && (#[trigger] pre.spec_managed()[j]).id == s.id
                ==> pre.spec_managed()[j] == s,
        !pre.spec_free_ids().contains(s.id),
        post.spec_free() == pre.spec_free().push(s),
        post.spec_managed() == pre.spec_managed(),
        post.spec_coded_resolution() == pre.spec_coded_resolution(),
    ensures
        post.wf(),
{
    assert(post.spec_free_ids() =~= pre.spec_free_ids().push(s.id));
    let k = choose|k: int|
        0 <= k < pre.spec_managed_ids().len() && pre.spec_managed_ids()[k] == s.id;
    assert(pre.spec_managed()[k].id == s.id);
    assert(pre.spec_managed()[k] == s);
    assert(post.spec_managed().contains(s));
    assert forall|i: int| 0 <= i < post.spec_free().len() implies post.spec_managed().contains(
        #[trigger] post.spec_free()[i],
    ) by {
        if i < pre.spec_free().len() {
            assert(post.spec_free()[i] == pre.spec_free()[i]);
        }
    }
    assert forall|a: int, b: int|
        0 <= a < post.spec_free_ids().len() && 0 <= b < post.spec_free_ids().len() && a != b
        implies post.spec_free_ids()[a] != post.spec_free_ids()[b] by {
        let pf = pre.spec_free_ids().len() as int;
        if a < pf && b == pf {
            assert(pre.spec_free_ids()[a] == post.spec_free_ids()[a]);
            assert(pre.spec_free_ids().contains(pre.spec_free_ids()[a]));
        } else if b < pf && a == pf {
            assert(pre.spec_free_ids()[b] == post.spec_free_ids()[b]);
            assert(pre.spec_free_ids().contains(pre.spec_free_ids()[b]));
        }
    }
}

/// Purging both lists with the same size predicate preserves the pool
/// invariant at the new resolution.
proof fn lemma_wf_after_purge(pre: SurfacePool, post: SurfacePool, resolution: Resolution)
    requires
        pre.wf(),
        post.spec_managed() == pre.spec_managed().filter(
            |s: Surface| s.size.spec_can_contain(resolution),
        ),
        post.spec_free() == pre.spec_free().filter(
            |s: Surface| s.size.spec_can_contain(resolution),
        ),
        post.spec_coded_resolution() == resolution,
    ensures
        post.wf(),
{
    let pred = |s: Surface| s.size.spec_can_contain(resolution);
    lemma_filter_ids_no_duplicates(pre.spec_managed(), pred);
    lemma_filter_ids_no_duplicates(pre.spec_free(), pred);
    assert(post.spec_managed_ids() == pre.spec_managed().filter(pred).map_values(
        |x: Surface| x.id,
    ));
    assert(post.spec_free_ids() == pre.spec_free().filter(pred).map_values(|x: Surface| x.id));
    assert forall|i: int| 0 <= i < post.spec_free().len() implies post.spec_managed().contains(
        #[trigger] post.spec_free()[i],
    ) by {
        lemma_filter_subset(pre.spec_free(), pred, i);
        let f = post.spec_free()[i];
        let j = choose|j: int| 0 <= j < pre.spec_free().len() && pre.spec_free()[j] == f;
        assert(pre.spec_managed().contains(f));
        let k = choose|k: int| 0 <= k < pre.spec_managed().len() && pre.spec_managed()[k] == f;
        Seq::lemma_filter_contains(pre.spec_managed(), pred, k);
    }
    assert forall|j: int| 0 <= j < post.spec_managed().len() implies (
    #[trigger] post.spec_managed()[j]).size.spec_can_contain(post.spec_coded_resolution()) by {
        lemma_filter_subset(pre.spec_managed(), pred, j);
    }
}

/// Adding one fresh surface large enough for the pool preserves the pool
/// invariant.
proof fn lemma_wf_after_add_one(pre: SurfacePool, post: SurfacePool, s: Surface)
    requires
        pre.wf(),
        !pre.spec_is_managed(s.id),
        s.size.spec_can_contain(pre.spec_coded_resolution()),
        post.spec_managed() == pre.spec_managed().push(s),
        post.spec_free() == pre.spec_free().push(s),
        post.spec_coded_resolution() == pre.spec_coded_resolution(),
    ensures
        post.wf(),
{
    assert(post.spec_managed_ids() =~= pre.spec_managed_ids().push(s.id));
    assert(post.spec_free_ids() =~= pre.spec_free_ids().push(s.id));
    assert forall|i: int| 0 <= i < pre.spec_free_ids().len() implies pre.spec_free_ids()[i]
        != s.id by {
        lemma_free_id_is_managed(pre, i);
    }
    assert(post.spec_managed()[pre.spec_managed().len() as int] == s);
    assert forall|i: int| 0 <= i < post.spec_free().len() implies post.spec_managed().contains(
        #[trigger] post.spec_free()[i],
    ) by {
        if i < pre.spec_free().len() {
            assert(post.spec_free()[i] == pre.spec_free()[i]);
            let j = choose|j: int|
                0 <= j < pre.spec_managed().len() && pre.spec_managed()[j] == pre.spec_free()[i];
            assert(post.spec_managed()[j] == pre.spec_free()[i]);
        } else {
            assert(post.spec_free()[i] == s);
        }
    }
}

/// Forgetting a leased surface's id from the registry preserves the pool
/// invariant, provided the id is not on the free list.
proof fn lemma_wf_after_detach(pre: SurfacePool, post: SurfacePool, s: Surface)
    requires
        pre.wf(),
        !pre.spec_free_ids().contains(s.id),
        post.spec_managed() == pre.spec_managed().filter(|x: Surface| x.id != s.id),
        post.spec_free() == pre.spec_free(),
        post.spec_coded_resolution() == pre.spec_coded_resolution(),
    ensures
        post.wf(),
{
    let pred = |x: Surface| x.id != s.id;
    lemma_filter_ids_no_duplicates(pre.spec_managed(), pred);
    assert(post.spec_managed_ids() == pre.spec_managed().filter(pred).map_values(
        |x: Surface| x.id,
    ));
    assert forall|i: int| 0 <= i < post.spec_free().len() implies post.spec_managed().contains(
        #[trigger] post.spec_free()[i],
    ) by {
        let f = post.spec_free()[i];
        assert(pre.spec_free_ids()[i] == f.id);
        assert(pre.spec_free_ids().contains(f.id));
        assert(pre.spec_managed().contains(f));
        let k = choose|k: int| 0 <= k < pre.spec_managed().len() && pre.spec_managed()[k] == f;
        assert(pred(pre.spec_managed()[k]));
        Seq::lemma_filter_contains(pre.spec_managed(), pred, k);
    }
    assert forall|j: int| 0 <= j < post.spec_managed().len() implies (
    #[trigger] post.spec_managed()[j]).size.spec_can_contain(post.spec_coded_resolution()) by {
        lemma_filter_subset(pre.spec_managed(), pred, j);
        let k = choose|k: int|
            0 <= k < pre.spec_managed().len() && pre.spec_managed()[k] == post.spec_managed()[j];
    }
}

/// A free surface's id occurs among the managed ids.
proof fn lemma_free_id_is_managed(pool: SurfacePool, i: int)
    requires
        pool.wf(),
        0 <= i < pool.spec_free().len(),
    ensures
        pool.spec_managed_ids().contains(pool.spec_free_ids()[i]),
{
    let s = pool.spec_free()[i];
    assert(pool.spec_managed().contains(s));
    let j = choose|j: int| 0 <= j < pool.spec_managed().len() && pool.spec_managed()[j] == s;
    assert(pool.spec_managed_ids()[j] == s.id);
}

impl SurfacePool {
    /// The set of ids the pool manages.
    pub open spec fn spec_managed_id_set(self) -> Set<u32> {
        self.spec_managed_ids().to_set()
    }

    /// The set of ids on the free list.
    pub open spec fn spec_free_id_set(self) -> Set<u32> {
        self.spec_free_ids().to_set()
    }
}

/// The accounting relation between a pool and the set of ids leased out of
/// it and not yet returned: no free surface is leased, and every managed
/// surface is free or leased.
pub open spec fn accounted(pool: SurfacePool, leased: Set<u32>) -> bool {
    &&& leased.finite()
    &&& forall|i: int|
        0 <= i < pool.spec_free().len() ==> !leased.contains(
            (#[trigger] pool.spec_free()[i]).id,
        )
    &&& forall|id: u32|
        #[trigger] pool.spec_is_managed(id) ==> pool.spec_free_ids().contains(id)
            || leased.contains(id)
}

/// A disjoint union of finite sets counts as the sum of its parts.
proof fn lemma_disjoint_union_len<A>(a: Set<A>, b: Set<A>)
    requires
        a.finite(),
        b.finite(),
        a.disjoint(b),
    ensures
        a.union(b).finite(),
        a.union(b).len() == a.len() + b.len(),
    decreases a.len(),
{
    if a.len() == 0 {
        a.lemma_len0_is_empty();
        assert(a.union(b) =~= b);
    } else {
        let x = a.choose();
        assert(a.contains(x));
        assert(a.remove(x).disjoint(b));
        lemma_disjoint_union_len(a.remove(x), b);
        assert(a.remove(x).union(b) =~= a.union(b).remove(x));
        assert(a.union(b).remove(x).insert(x) =~= a.union(b));
    }
}

/// Conservation of surfaces: at every observation point, the free surfaces
/// and the leased surfaces the pool still manages together are exactly the
/// managed surfaces.
pub proof fn lemma_free_plus_leased_is_managed(pool: SurfacePool, leased: Set<u32>)
    requires
        pool.wf(),
        accounted(pool, leased),
    ensures
        pool.spec_free().len() + leased.intersect(pool.spec_managed_id_set()).len()
            == pool.spec_managed().len(),
{
    broadcast use vstd::seq_lib::seq_to_set_is_finite;

    let m = pool.spec_managed_id_set();
    let f = pool.spec_free_id_set();
    let lm = leased.intersect(m);
    pool.spec_managed_ids().unique_seq_to_set();
    pool.spec_free_ids().unique_seq_to_set();

    assert forall|id: u32| m.contains(id) implies f.contains(id) || lm.contains(id) by {
        assert(pool.spec_is_managed(id));
    }
    assert forall|id: u32| f.contains(id) implies m.contains(id) && !lm.contains(id) by {
        let i = choose|i: int|
            0 <= i < pool.spec_free_ids().len() && pool.spec_free_ids()[i] == id;
        lemma_free_id_is_managed(pool, i);
        assert(pool.spec_free()[i].id == id);
        assert(!leased.contains(id));
    }
    assert(m =~= f.union(lm));
    assert(f.disjoint(lm));
    lemma_disjoint_union_len(f, lm);
}

/// Registering a batch of fresh surfaces — ids neither managed nor out on
/// lease — leaves the accounting relation intact.
pub proof fn lemma_accounted_after_add(
    pre: SurfacePool,
    post: SurfacePool,
    ids: Seq<u32>,
    leased: Set<u32>,
)
    requires
        accounted(pre, leased),
        forall|k: int|
            0 <= k < ids.len() ==> !pre.spec_is_managed(#[trigger] ids[k]) && !leased.contains(
                ids[k],
            ),
        post.spec_managed() == pre.spec_managed() + spec_surfaces_at(
            ids,
            pre.spec_coded_resolution(),
        ),
        post.spec_free() == pre.spec_free() + spec_surfaces_at(ids, pre.spec_coded_resolution()),
    ensures
        accounted(post, leased),
{
    let added = spec_surfaces_at(ids, pre.spec_coded_resolution());
    assert(post.spec_free_ids() =~= pre.spec_free_ids() + ids);
    assert(post.spec_managed_ids() =~= pre.spec_managed_ids() + ids);
    assert forall|i: int| 0 <= i < post.spec_free().len() implies !leased.contains(
        (#[trigger] post.spec_free()[i]).id,
    ) by {
        let pf = pre.spec_free().len() as int;
        if i < pf {
            assert(post.spec_free()[i] == pre.spec_free()[i]);
        } else {
            assert(post.spec_free()[i].id == ids[i - pf]);
        }
    }
    assert forall|id: u32| #[trigger] post.spec_is_managed(id) implies post.spec_free_ids()
        .contains(id) || leased.contains(id) by {
        let j = choose|j: int|
            0 <= j < post.spec_managed_ids().len() && post.spec_managed_ids()[j] == id;
        let pm = pre.spec_managed_ids().len() as int;
        if j < pm {
            assert(pre.spec_is_managed(id));
            if pre.spec_free_ids().contains(id) {
                let i = choose|i: int|
                    0 <= i < pre.spec_free_ids().len() && pre.spec_free_ids()[i] == id;
                assert(post.spec_free_ids()[i] == id);
            }
        } else {
            assert(post.spec_free_ids()[pre.spec_free_ids().len() + (j - pm)] == id);
        }
    }
}

/// Leasing the oldest free surface moves its id into the leased set and
/// leaves the accounting relation intact.
pub proof fn lemma_accounted_after_lease(pre: SurfacePool, post: SurfacePool, leased: Set<u32>)
    requires
        pre.wf(),
        accounted(pre, leased),
        pre.spec_free().len() > 0,
        post.spec_free() == pre.spec_free().subrange(1, pre.spec_free().len() as int),
        post.spec_managed() == pre.spec_managed(),
    ensures
        accounted(post, leased.insert(pre.spec_free()[0].id)),
{
    let s = pre.spec_free()[0];
    let leased_now = leased.insert(s.id);
    assert(post.spec_free_ids() =~= pre.spec_free_ids().subrange(
        1,
        pre.spec_free_ids().len() as int,
    ));
    assert forall|i: int| 0 <= i < post.spec_free().len() implies !leased_now.contains(
        (#[trigger] post.spec_free()[i]).id,
    ) by {
        assert(post.spec_free()[i] == pre.spec_free()[i + 1]);
        assert(pre.spec_free_ids()[i + 1] == post.spec_free()[i].id);
        assert(pre.spec_free_ids()[0] == s.id);
    }
    assert forall|id: u32| #[trigger] post.spec_is_managed(id) implies post.spec_free_ids()
        .contains(id) || leased_now.contains(id) by {
        assert(pre.spec_is_managed(id));
        if pre.spec_free_ids().contains(id) && id != s.id {
            let i = choose|i: int|
                0 <= i < pre.spec_free_ids().len() && pre.spec_free_ids()[i] == id;
            assert(pre.spec_free_ids()[0] == s.id);
            assert(i != 0);
            assert(post.spec_free_ids()[i - 1] == id);
        }
    }
}

/// Returning a lease removes its id from the leased set and leaves the
/// accounting relation intact, whether the surface went back on the free
/// list or was discarded as no longer managed.
pub proof fn lemma_accounted_after_release(
    pre: SurfacePool,
    post: SurfacePool,
    s: Surface,
    returned: bool,
    leased: Set<u32>,
)
    requires
        accounted(pre, leased),
        leased.contains(s.id),
        returned == pre.spec_is_managed(s.id),
        post.spec_managed() == pre.spec_managed(),
        returned ==> post.spec_free() == pre.spec_free().push(s),
        !returned ==> post.spec_free() == pre.spec_free(),
    ensures
        accounted(post, leased.remove(s.id)),
{
    let leased_now = leased.remove(s.id);
    if returned {
        assert(post.spec_free_ids() =~= pre.spec_free_ids().push(s.id));
        assert forall|i: int| 0 <= i < post.spec_free().len() implies !leased_now.contains(
            (#[trigger] post.spec_free()[i]).id,
        ) by {
            if i < pre.spec_free().len() {
                assert(post.spec_free()[i] == pre.spec_free()[i]);
            } else {
                assert(post.spec_free()[i] == s);
            }
        }
        assert forall|id: u32| #[trigger] post.spec_is_managed(id) implies post.spec_free_ids()
            .contains(id) || leased_now.contains(id) by {
            assert(pre.spec_is_managed(id));
            if pre.spec_free_ids().contains(id) {
                let i = choose|i: int|
                    0 <= i < pre.spec_free_ids().len() && pre.spec_free_ids()[i] == id;
                assert(post.spec_free_ids()[i] == id);
            } else if id == s.id {
                assert(post.spec_free_ids()[pre.spec_free_ids().len() as int] == s.id);
            }
        }
    } else {
        assert forall|id: u32| #[trigger] post.spec_is_managed(id) implies post.spec_free_ids()
            .contains(id) || leased_now.contains(id) by {
            assert(pre.spec_is_managed(id));
            assert(id != s.id);
        }
    }
}

/// Detaching a leased surface — the registry forgets its id — removes the
/// id from the leased set and leaves the accounting relation intact.
pub proof fn lemma_accounted_after_detach(
    pre: SurfacePool,
    post: SurfacePool,
    s: Surface,
    leased: Set<u32>,
)
    requires
        accounted(pre, leased),
        leased.contains(s.id),
        post.spec_free() == pre.spec_free(),
        post.spec_managed() == pre.spec_managed().filter(|x: Surface| x.id != s.id),
    ensures
        accounted(post, leased.remove(s.id)),
{
    let pred = |x: Surface| x.id != s.id;
    assert forall|i: int| 0 <= i < post.spec_free().len() implies !leased.remove(s.id).contains(
        (#[trigger] post.spec_free()[i]).id,
    ) by {
        assert(pre.spec_free()[i] == post.spec_free()[i]);
    }
    assert forall|id: u32| #[trigger] post.spec_is_managed(id) implies post.spec_free_ids()
        .contains(id) || leased.remove(s.id).contains(id) by {
        let j = choose|j: int|
            0 <= j < post.spec_managed_ids().len() && post.spec_managed_ids()[j] == id;
        let entry = post.spec_managed()[j];
        lemma_filter_subset(pre.spec_managed(), pred, j);
        let k = choose|k: int|
            0 <= k < pre.spec_managed().len() && pre.spec_managed()[k] == entry;
        assert(pre.spec_managed_ids()[k] == id);
        assert(pre.spec_is_managed(id));
        assert(id != s.id);
    }
}

/// Purging undersized surfaces from both lists leaves the accounting
/// relation intact: a leased id stays leased, a purged free surface simply
/// stops being managed.
pub proof fn lemma_accounted_after_purge(
    pre: SurfacePool,
    post: SurfacePool,
    resolution: Resolution,
    leased: Set<u32>,
)
    requires
        pre.wf(),
        accounted(pre, leased),
        post.spec_managed() == pre.spec_managed().filter(
            |s: Surface| s.size.spec_can_contain(resolution),
        ),
        post.spec_free() == pre.spec_free().filter(
            |s: Surface| s.size.spec_can_contain(resolution),
        ),
    ensures
        accounted(post, leased),
{
    let pred = |s: Surface| s.size.spec_can_contain(resolution);
    assert forall|i: int| 0 <= i < post.spec_free().len() implies !leased.contains(
        (#[trigger] post.spec_free()[i]).id,
    ) by {
        lemma_filter_subset(pre.spec_free(), pred, i);
        let j = choose|j: int|
            0 <= j < pre.spec_free().len() && pre.spec_free()[j] == post.spec_free()[i];
    }
    assert forall|id: u32| #[trigger] post.spec_is_managed(id) implies post.spec_free_ids()
        .contains(id) || leased.contains(id) by {
        let j = choose|j: int|
            0 <= j < post.spec_managed_ids().len() && post.spec_managed_ids()[j] == id;
        let entry = post.spec_managed()[j];
        lemma_filter_subset(pre.spec_managed(), pred, j);
        let k = choose|k: int|
            0 <= k < pre.spec_managed().len() && pre.spec_managed()[k] == entry;
        assert(pre.spec_managed_ids()[k] == id);
        assert(pre.spec_is_managed(id));
        if pre.spec_free_ids().contains(id) {
            let i = choose|i: int|
                0 <= i < pre.spec_free_ids().len() && pre.spec_free_ids()[i] == id;
            let fs = pre.spec_free()[i];
            assert(pre.spec_managed().contains(fs));
            let k2 = choose|k2: int|
                0 <= k2 < pre.spec_managed().len() && pre.spec_managed()[k2] == fs;
            assert(pre.spec_managed_ids()[k2] == id);
            assert(pre.spec_managed_ids()[k] == pre.spec_managed_ids()[k2]);
            assert(k == k2);
            assert(fs == entry);
            assert(pred(fs));
            Seq::lemma_filter_contains(pre.spec_free(), pred, i);
            assert(post.spec_free().contains(fs));
            let i2 = choose|i2: int|
                0 <= i2 < post.spec_free().len() && post.spec_free()[i2] == fs;
            assert(post.spec_free_ids()[i2] == id);
        }
    }
}

} // verus!
