//! Disk space.
use vstd::prelude::*;

verus! {

/// Disk space as the dashboard shows it.
pub struct DiskInfo {
    pub total_bytes: u64,
    pub free_bytes: u64,
    pub model_storage_bytes: u64,
}

/// One mounted disk.
pub struct DiskEntry {
    /// Whether it is mounted at "/".
    pub is_root: bool,
    pub total_space: u64,
    pub available_space: u64,
}

/// The first disk mounted at "/", if any.
pub open spec fn root_disk(ds: Seq<DiskEntry>) -> Option<DiskEntry>
    decreases ds.len(),
{
    if ds.len() == 0 {
        None
    } else if ds[0].is_root {
        Some(ds[0])
    } else {
        root_disk(ds.drop_first())
    }
}

/// The space of all disks together.
pub open spec fn sum_total(ds: Seq<DiskEntry>) -> int
    decreases ds.len(),
{
    if ds.len() == 0 { 0 } else { sum_total(ds.drop_last()) + ds.last().total_space }
}

/// The available space of all disks together.
pub open spec fn sum_available(ds: Seq<DiskEntry>) -> int
    decreases ds.len(),
{
    if ds.len() == 0 { 0 } else { sum_available(ds.drop_last()) + ds.last().available_space }
}

/// Space found on the root disk: (total, available), zeros without one.
pub open spec fn root_space(ds: Seq<DiskEntry>) -> (u64, u64) {
    match root_disk(ds) {
        Some(d) => (d.total_space, d.available_space),
        None => (0, 0),
    }
}

proof fn lemma_sums_nonneg(ds: Seq<DiskEntry>)
    ensures
        0 <= sum_total(ds),
        0 <= sum_available(ds),
    decreases ds.len(),
{
    if ds.len() > 0 {
        lemma_sums_nonneg(ds.drop_last());
    }
}

proof fn lemma_sums_prefix(ds: Seq<DiskEntry>, i: int)
    requires
        0 <= i <= ds.len(),
    ensures
        0 <= sum_total(ds.take(i)) <= sum_total(ds),
        0 <= sum_available(ds.take(i)) <= sum_available(ds),
    decreases ds.len(),
{
    if i < ds.len() {
        assert(ds.drop_last().take(i) == ds.take(i));
        lemma_sums_prefix(ds.drop_last(), i);
    } else {
        assert(ds.take(i) == ds);
        lemma_sums_nonneg(ds);
    }
}

/// Disk space from the mounted disks: the first disk mounted at "/"; when
/// that gives no total (no such disk, or one of size 0), the totals of all
/// disks are added to what it gave.
pub fn detect(disks: &Vec<DiskEntry>) -> (r: DiskInfo)
    requires
        root_space(disks@).0 == 0 ==> sum_total(disks@) <= u64::MAX
            && root_space(disks@).1 + sum_available(disks@) <= u64::MAX,
    ensures
        r.model_storage_bytes == 0,
        root_space(disks@).0 != 0 ==> r.total_bytes == root_space(disks@).0
            && r.free_bytes == root_space(disks@).1,
        root_space(disks@).0 == 0 ==> r.total_bytes == sum_total(disks@)
            && r.free_bytes == root_space(disks@).1 + sum_available(disks@),
{
    let mut total_bytes: u64 = 0;
    let mut free_bytes: u64 = 0;
    let mut i: usize = 0;
    let mut found = false;
    assert(disks@.skip(0) == disks@);
    while i < disks.len() && !found
        invariant
            i <= disks.len(),
            found ==> total_bytes == root_space(disks@).0 && free_bytes == root_space(disks@).1,
            !found ==> total_bytes == 0 && free_bytes == 0
                && root_disk(disks@) == root_disk(disks@.skip(i as int)),
        decreases disks.len() - i, if found { 0int } else { 1int },
    {
        assert(disks@.skip(i as int)[0] == disks@[i as int]);
        assert(disks@.skip(i as int).drop_first() == disks@.skip(i + 1));
        if disks[i].is_root {
            total_bytes = disks[i].total_space;
            free_bytes = disks[i].available_space;
            found = true;
        } else {
            i += 1;
        }
    }
    if !found {
        assert(disks@.skip(i as int).len() == 0);
    }
    if total_bytes == 0 {
        let ghost root_free = free_bytes;
        let mut j: usize = 0;
        while j < disks.len()
            invariant
                j <= disks.len(),
                root_space(disks@).0 == 0,
                sum_total(disks@) <= u64::MAX,
                root_free + sum_available(disks@) <= u64::MAX,
                total_bytes == sum_total(disks@.take(j as int)),
                free_bytes == root_free + sum_available(disks@.take(j as int)),
            decreases disks.len() - j,
        {
            proof {
                lemma_sums_prefix(disks@, j + 1);
                assert(disks@.take(j + 1).drop_last() == disks@.take(j as int));
            }
            total_bytes = total_bytes + disks[j].total_space;
            free_bytes = free_bytes + disks[j].available_space;
            j += 1;
        }
        assert(disks@.take(disks.len() as int) == disks@);
    }
    DiskInfo { total_bytes, free_bytes, model_storage_bytes: 0 }
}

} // verus!
