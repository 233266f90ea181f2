//! Where the satellite element catalog is read from: the order of attempts
//! that respects CelesTrak's one-download-per-two-hours policy.
use vstd::prelude::*;

use crate::source::Source;

verus! {

/// One way of obtaining the element catalog.
#[derive(Clone, Copy, PartialEq, Eq, Debug, Structural)]
pub enum CatalogStep {
    /// The disk cache, when it is fresh or the caller prefers offline data.
    Cache,
    /// The bundled snapshot, when it is itself fresh enough.
    FreshSnapshot,
    /// A download from CelesTrak.
    Live,
    /// The disk cache, however old.
    StaleCache,
    /// The bundled snapshot, however old.
    Snapshot,
}

/// The attempts in order, given whether offline data is preferred and
/// whether the cache and the snapshot are younger than two hours.
pub open spec fn catalog_plan_spec(prefer_offline: bool, cache_fresh: bool, snap_fresh: bool) -> Seq<
    CatalogStep,
> {
    (if cache_fresh || prefer_offline {
        seq![CatalogStep::Cache]
    } else {
        Seq::empty()
    }) + (if snap_fresh && !prefer_offline {
        seq![CatalogStep::FreshSnapshot]
    } else {
        Seq::empty()
    }) + (if !prefer_offline {
        seq![CatalogStep::Live, CatalogStep::StaleCache]
    } else {
        Seq::empty()
    }) + seq![CatalogStep::Snapshot]
}

/// The provenance a successful attempt reports.
pub open spec fn step_source(s: CatalogStep) -> Source {
    match s {
        CatalogStep::Cache => Source::Cache,
        CatalogStep::FreshSnapshot => Source::Snapshot,
        CatalogStep::Live => Source::Live,
        CatalogStep::StaleCache => Source::Cache,
        CatalogStep::Snapshot => Source::Snapshot,
    }
}

pub fn catalog_plan(prefer_offline: bool, cache_fresh: bool, snap_fresh: bool) -> (r: Vec<CatalogStep>)
    ensures
        r@ == catalog_plan_spec(prefer_offline, cache_fresh, snap_fresh),
{
    let mut v: Vec<CatalogStep> = Vec::new();
    if cache_fresh || prefer_offline {
        v.push(CatalogStep::Cache);
    }
    if snap_fresh && !prefer_offline {
        v.push(CatalogStep::FreshSnapshot);
    }
    if !prefer_offline {
        v.push(CatalogStep::Live);
        v.push(CatalogStep::StaleCache);
    }
    v.push(CatalogStep::Snapshot);
    assert(v@ =~= catalog_plan_spec(prefer_offline, cache_fresh, snap_fresh));
    v
}

pub fn step_source_of(s: CatalogStep) -> (r: Source)
    ensures
        r == step_source(s),
{
    match s {
        CatalogStep::Cache => Source::Cache,
        CatalogStep::FreshSnapshot => Source::Snapshot,
        CatalogStep::Live => Source::Live,
        CatalogStep::StaleCache => Source::Cache,
        CatalogStep::Snapshot => Source::Snapshot,
    }
}

/// A download counts only when it is larger than 100 kB.
pub fn live_catalog_ok(len: usize) -> (r: bool)
    ensures
        r == (len > 100_000),
{
    len > 100_000
}

/// Law: offline mode never contacts CelesTrak; the bundled snapshot is always
/// the last resort; a fresh cache is always tried first.
pub proof fn catalog_plan_policy(prefer_offline: bool, cache_fresh: bool, snap_fresh: bool)
    ensures
        ({
            let p = catalog_plan_spec(prefer_offline, cache_fresh, snap_fresh);
            &&& p.len() >= 1
            &&& p.last() == CatalogStep::Snapshot
            &&& prefer_offline ==> forall|i: int| 0 <= i < p.len() ==> #[trigger] p[i] != CatalogStep::Live
            &&& cache_fresh ==> p[0] == CatalogStep::Cache
        }),
{
    let p = catalog_plan_spec(prefer_offline, cache_fresh, snap_fresh);
    if prefer_offline {
        assert(p =~= seq![CatalogStep::Cache, CatalogStep::Snapshot]);
    }
}

/// Law: the order of the catalog sources. The cache is tried exactly when it
/// is fresh or offline data is preferred, and then first; the bundled
/// snapshot is taken early exactly when it is fresh and offline data is not
/// preferred, and then before any download; CelesTrak is contacted exactly
/// when offline data is not preferred, with the stale cache right after it;
/// the snapshot, however old, is the last resort.
pub proof fn catalog_plan_order(prefer_offline: bool, cache_fresh: bool, snap_fresh: bool)
    ensures
        ({
            let p = catalog_plan_spec(prefer_offline, cache_fresh, snap_fresh);
            &&& (exists|i: int| 0 <= i < p.len() && #[trigger] p[i] == CatalogStep::Cache) == (
            cache_fresh || prefer_offline)
            &&& (exists|i: int| 0 <= i < p.len() && #[trigger] p[i] == CatalogStep::FreshSnapshot)
                == (snap_fresh && !prefer_offline)
            &&& (exists|i: int| 0 <= i < p.len() && #[trigger] p[i] == CatalogStep::Live)
                == !prefer_offline
            &&& forall|i: int|
                0 <= i < p.len() && #[trigger] p[i] == CatalogStep::Cache ==> i == 0
            &&& forall|i: int, j: int|
                0 <= i < p.len() && 0 <= j < p.len() && #[trigger] p[i] == CatalogStep::FreshSnapshot
                    && #[trigger] p[j] == CatalogStep::Live ==> i < j
            &&& forall|i: int|
                0 <= i < p.len() && #[trigger] p[i] == CatalogStep::Live ==> i + 1 < p.len() && p[i
                    + 1] == CatalogStep::StaleCache
            &&& p.len() >= 1 && p.last() == CatalogStep::Snapshot
        }),
{
    let p = catalog_plan_spec(prefer_offline, cache_fresh, snap_fresh);
    let c = CatalogStep::Cache;
    let f = CatalogStep::FreshSnapshot;
    let l = CatalogStep::Live;
    let st = CatalogStep::StaleCache;
    let sn = CatalogStep::Snapshot;
    if prefer_offline {
        assert(p =~= seq![c, sn]);
    } else if cache_fresh && snap_fresh {
        assert(p =~= seq![c, f, l, st, sn]);
    } else if cache_fresh {
        assert(p =~= seq![c, l, st, sn]);
    } else if snap_fresh {
        assert(p =~= seq![f, l, st, sn]);
    } else {
        assert(p =~= seq![l, st, sn]);
    }
    if cache_fresh || prefer_offline {
        assert(p[0] == c);
    }
    if snap_fresh && !prefer_offline {
        if cache_fresh {
            assert(p[1] == f);
        } else {
            assert(p[0] == f);
        }
    }
    if !prefer_offline {
        assert(p[p.len() - 3] == l);
    }
}

} // verus!
