//! The RAM of a virtual machine: its regions, and how guest ranges translate.
use crate::guest_memory::{
    is_power_of_two, is_power_of_two_spec, lemma_power_of_two_positive, GuestRange, HostRange,
    RamRegion, ReclaimError,
};
use vstd::prelude::*;

verus! {

/// The regions with `region` put behind those that start no later.
pub open spec fn insert_region_spec(regions: Seq<RamRegion>, region: RamRegion) -> Seq<RamRegion>
    decreases regions.len(),
{
    if regions.len() == 0 {
        seq![region]
    } else if regions.last().range.guest.start <= region.range.guest.start {
        regions.push(region)
    } else {
        insert_region_spec(regions.drop_last(), region).push(regions.last())
    }
}

/// Whether the host memory of two regions overlaps.
pub open spec fn hosts_meet(first: RamRegion, second: RamRegion) -> bool {
    first.range.host_start < second.range.host_start + second.range.guest.size()
        && second.range.host_start < first.range.host_start + first.range.guest.size()
}

/// The bounds of `region` are multiples of the granule.
pub open spec fn region_aligned(granule: u64, region: RamRegion) -> bool {
    &&& region.range.guest.start % granule == 0
    &&& region.range.host_start % granule == 0
    &&& region.range.guest.size() % (granule as int) == 0
}

/// `region` shares guest or host addresses with one of `regions`.
pub open spec fn region_overlaps(regions: Seq<RamRegion>, region: RamRegion) -> bool {
    exists|i: int|
        0 <= i < regions.len() && ((#[trigger] regions[i]).range.guest.meets(region.range.guest)
            || hosts_meet(regions[i], region))
}

/// The regions are valid, aligned, ordered, and share no guest or host address.
pub open spec fn regions_wf(granule: u64, regions: Seq<RamRegion>) -> bool {
    &&& forall|i: int|
        0 <= i < regions.len() ==> {
            &&& (#[trigger] regions[i]).valid()
            &&& region_aligned(granule, regions[i])
        }
    &&& forall|i: int, j: int|
        0 <= i < j < regions.len() ==> {
            &&& (#[trigger] regions[i]).range.guest.end <= (#[trigger] regions[j]).range.guest.start
            &&& !hosts_meet(regions[i], regions[j])
        }
}

/// Where a new region goes: behind the regions that start no later.
pub fn insert_region(regions: &mut Vec<RamRegion>, region: RamRegion)
    ensures
        final(regions)@ == insert_region_spec(old(regions)@, region),
{
    let mut place: usize = regions.len();
    proof {
        assert(regions@.take(place as int) == regions@);
        assert(insert_region_spec(regions@, region) == insert_region_spec(regions@, region)
            + regions@.skip(place as int));
    }
    while place > 0 && regions[place - 1].range.guest.start > region.range.guest.start
        invariant
            place <= regions.len(),
            insert_region_spec(regions@, region) == insert_region_spec(
                regions@.take(place as int),
                region,
            ) + regions@.skip(place as int),
        decreases place,
    {
        proof {
            let head = regions@.take(place as int);
            let prior = regions@.take(place - 1);
            assert(head.drop_last() == prior);
            assert(head.last() == regions@[place - 1]);
            assert(insert_region_spec(prior, region).push(regions@[place - 1]) + regions@.skip(
                place as int,
            ) == insert_region_spec(prior, region) + regions@.skip(place - 1));
        }
        place = place - 1;
    }
    proof {
        let head = regions@.take(place as int);
        if place > 0 {
            assert(head.last() == regions@[place - 1]);
        }
        assert(insert_region_spec(head, region) == head.push(region));
        assert(head.push(region) + regions@.skip(place as int) == regions@.insert(
            place as int,
            region,
        ));
    }
    regions.insert(place, region);
}

/// Inserting a region adds it, and nothing else, at some place; regions before the place
/// start no later, regions behind it start later.
proof fn lemma_insert_region(regions: Seq<RamRegion>, region: RamRegion) -> (place: int)
    requires
        forall|i: int, j: int|
            0 <= i < j < regions.len() ==> (#[trigger] regions[i]).range.guest.start <= (
            #[trigger] regions[j]).range.guest.start,
    ensures
        0 <= place <= regions.len(),
        insert_region_spec(regions, region) == regions.insert(place, region),
        forall|i: int|
            0 <= i < place ==> (#[trigger] regions[i]).range.guest.start
                <= region.range.guest.start,
        forall|i: int|
            place <= i < regions.len() ==> (#[trigger] regions[i]).range.guest.start
                > region.range.guest.start,
    decreases regions.len(),
{
    if regions.len() == 0 {
        assert(seq![region] == regions.insert(0, region));
        0
    } else if regions.last().range.guest.start <= region.range.guest.start {
        assert(regions.push(region) == regions.insert(regions.len() as int, region));
        assert(regions[regions.len() - 1] == regions.last());
        regions.len() as int
    } else {
        let rest = regions.drop_last();
        assert forall|i: int, j: int| 0 <= i < j < rest.len() implies (
        #[trigger] rest[i]).range.guest.start <= (#[trigger] rest[j]).range.guest.start by {
            assert(rest[i] == regions[i] && rest[j] == regions[j]);
        }
        let place = lemma_insert_region(rest, region);
        assert(rest.insert(place, region).push(regions.last()) == regions.insert(place, region));
        assert forall|i: int| 0 <= i < place implies (#[trigger] regions[i]).range.guest.start
            <= region.range.guest.start by {
            assert(regions[i] == rest[i]);
        }
        assert forall|i: int| place <= i < regions.len() implies (
        #[trigger] regions[i]).range.guest.start > region.range.guest.start by {
            if i < rest.len() {
                assert(regions[i] == rest[i]);
            } else {
                assert(regions[i] == regions.last());
            }
        }
        place
    }
}

/// Whether two stretches of addresses, given by start and length, share an address; a
/// stretch that runs past the last address ends there.
pub fn numeric_ranges_overlap(first: u64, first_len: u64, second: u64, second_len: u64) -> (result:
    bool)
    ensures
        result == {
            let first_end = if first + first_len > u64::MAX {
                u64::MAX as int
            } else {
                first + first_len
            };
            let second_end = if second + second_len > u64::MAX {
                u64::MAX as int
            } else {
                second + second_len
            };
            first < second_end && second < first_end
        },
{
    let first_end: u64 = first.saturating_add(first_len);
    let second_end: u64 = second.saturating_add(second_len);
    first < second_end && second < first_end
}

/// Whether `region` shares guest or host addresses with one of `regions`.
pub fn overlaps_any(regions: &Vec<RamRegion>, region: RamRegion) -> (result: bool)
    requires
        region.valid(),
        forall|i: int| 0 <= i < regions@.len() ==> (#[trigger] regions@[i]).valid(),
    ensures
        result == region_overlaps(regions@, region),
{
    let host = region.host_range();
    let len: u64 = host.byte_len();
    let mut i: usize = 0;
    while i < regions.len()
        invariant
            i <= regions.len(),
            region.valid(),
            host == region.range,
            len == region.range.guest.size(),
            forall|k: int| 0 <= k < regions@.len() ==> (#[trigger] regions@[k]).valid(),
            forall|k: int|
                0 <= k < i ==> !(#[trigger] regions@[k]).range.guest.meets(host.guest)
                    && !hosts_meet(regions@[k], region),
        decreases regions.len() - i,
    {
        let existing = regions[i].host_range();
        assert(regions@[i as int].valid());
        if existing.guest.overlaps(host.guest) || numeric_ranges_overlap(
            existing.host_start,
            existing.byte_len(),
            host.host_start,
            len,
        ) {
            return true;
        }
        i = i + 1;
    }
    false
}

/// Adding an aligned region that overlaps none keeps the regions well formed.
pub proof fn lemma_region_inserted(
    granule: u64,
    regions: Seq<RamRegion>,
    region: RamRegion,
) -> (place: int)
    requires
        regions_wf(granule, regions),
        region.valid(),
        region_aligned(granule, region),
        !region_overlaps(regions, region),
    ensures
        0 <= place <= regions.len(),
        insert_region_spec(regions, region) == regions.insert(place, region),
        regions_wf(granule, insert_region_spec(regions, region)),
{
    assert forall|i: int, j: int| 0 <= i < j < regions.len() implies (
    #[trigger] regions[i]).range.guest.start <= (#[trigger] regions[j]).range.guest.start by {
        assert(regions[i].valid());
    }
    let place = lemma_insert_region(regions, region);
    let next = insert_region_spec(regions, region);
    assert(next == regions.insert(place, region));
    assert forall|i: int| 0 <= i < regions.len() implies !(
    #[trigger] regions[i]).range.guest.meets(region.range.guest) && !hosts_meet(
        regions[i],
        region,
    ) by {}
    assert forall|i: int, j: int| 0 <= i < j < next.len() implies {
        &&& (#[trigger] next[i]).range.guest.end <= (#[trigger] next[j]).range.guest.start
        &&& !hosts_meet(next[i], next[j])
    } by {
        let a = if i < place {
            i
        } else {
            i - 1
        };
        let b = if j < place {
            j
        } else {
            j - 1
        };
        if i == place {
            assert(next[j] == regions[b]);
            assert(regions[b].valid());
        } else if j == place {
            assert(next[i] == regions[a]);
            assert(regions[a].valid());
        } else {
            assert(next[i] == regions[a] && next[j] == regions[b]);
        }
    }
    assert forall|i: int| 0 <= i < next.len() implies {
        &&& (#[trigger] next[i]).valid()
        &&& region_aligned(granule, next[i])
    } by {
        if i < place {
            assert(next[i] == regions[i]);
        } else if i > place {
            assert(next[i] == regions[i - 1]);
        }
    }
    place
}

/// The registered RAM regions and the granule that bounds and translations respect.
#[derive(Debug)]
pub struct RamLayout {
    pub granule: u64,
    pub regions: Vec<RamRegion>,
}

impl RamLayout {
    pub open spec fn wf(self) -> bool {
        &&& is_power_of_two_spec(self.granule)
        &&& regions_wf(self.granule, self.regions@)
        &&& forall|i: int|
            0 <= i < self.regions@.len() ==> (#[trigger] self.regions@[i]).range.guest.size()
                <= usize::MAX
    }

    /// `address` lies in a registered region.
    pub open spec fn ram(self, address: int) -> bool {
        exists|i: int|
            0 <= i < self.regions@.len() && (#[trigger] self.regions@[i]).range.guest.has(address)
    }

    /// `range` lies wholly in one registered region.
    pub open spec fn in_ram(self, range: GuestRange) -> bool {
        exists|i: int|
            0 <= i < self.regions@.len() && (#[trigger] self.regions@[i]).range.guest.covers(range)
    }

    pub fn new(granule: u64) -> (result: Result<RamLayout, ReclaimError>)
        ensures
            result is Ok <==> is_power_of_two_spec(granule),
            result matches Err(error) ==> error == ReclaimError::InvalidAlignment,
            result matches Ok(layout) ==> layout.wf() && layout.granule == granule
                && layout.regions@.len() == 0,
    {
        if !is_power_of_two(granule) {
            return Err(ReclaimError::InvalidAlignment);
        }
        Ok(RamLayout { granule, regions: Vec::new() })
    }

    /// Adds a region of RAM. Regions are kept in the order of their addresses.
    pub fn register_region(&mut self, region: RamRegion) -> (result: Result<(), ReclaimError>)
        requires
            old(self).wf(),
            region.valid(),
        ensures
            final(self).wf(),
            final(self).granule == old(self).granule,
            result == if !region_aligned(old(self).granule, region) {
                Err::<(), ReclaimError>(ReclaimError::InvalidAlignment)
            } else if region_overlaps(old(self).regions@, region) {
                Err(ReclaimError::OverlappingRegion)
            } else if region.range.guest.size() > usize::MAX {
                Err(ReclaimError::MetadataLimit)
            } else {
                Ok(())
            },
            final(self).regions@ == if result is Ok {
                insert_region_spec(old(self).regions@, region)
            } else {
                old(self).regions@
            },
    {
        let host = region.host_range();
        let len: u64 = host.byte_len();
        proof {
            lemma_power_of_two_positive(self.granule);
        }
        if host.guest.start % self.granule != 0 || host.host_start % self.granule != 0 || len
            % self.granule != 0 {
            return Err(ReclaimError::InvalidAlignment);
        }
        if overlaps_any(&self.regions, region) {
            return Err(ReclaimError::OverlappingRegion);
        }
        if len > usize::MAX as u64 {
            return Err(ReclaimError::MetadataLimit);
        }
        proof {
            let place = lemma_region_inserted(self.granule, self.regions@, region);
            let next = insert_region_spec(self.regions@, region);
            assert forall|i: int| 0 <= i < next.len() implies (
            #[trigger] next[i]).range.guest.size() <= usize::MAX by {
                if i < place {
                    assert(next[i] == self.regions@[i]);
                } else if i > place {
                    assert(next[i] == self.regions@[i - 1]);
                }
            }
        }
        insert_region(&mut self.regions, region);
        Ok(())
    }

    pub fn granule(&self) -> (result: u64)
        ensures
            result == self.granule,
    {
        self.granule
    }

    pub fn regions(&self) -> (result: &Vec<RamRegion>)
        ensures
            result@ == self.regions@,
    {
        &self.regions
    }

    pub fn has_registered_regions(&self) -> (result: bool)
        ensures
            result == (self.regions@.len() > 0),
    {
        self.regions.len() > 0
    }

    /// The region that holds `address`.
    pub fn region_containing(&self, address: u64) -> (result: Option<RamRegion>)
        ensures
            result is Some <==> self.ram(address as int),
            result matches Some(region) ==> self.regions@.contains(region)
                && region.range.guest.has(address as int),
    {
        let mut i: usize = 0;
        while i < self.regions.len()
            invariant
                i <= self.regions.len(),
                forall|k: int|
                    0 <= k < i ==> !(#[trigger] self.regions@[k]).range.guest.has(address as int),
            decreases self.regions.len() - i,
        {
            if self.regions[i].contains_address(address) {
                assert(self.regions@[i as int].range.guest.has(address as int));
                return Some(self.regions[i]);
            }
            i = i + 1;
        }
        None
    }

    /// The granule-aligned part of `range` with its host translation.
    pub fn resolve(&self, range: GuestRange) -> (result: Result<Option<HostRange>, ReclaimError>)
        requires
            self.wf(),
            range.valid(),
        ensures
            !self.in_ram(range) ==> result == Err::<Option<HostRange>, _>(ReclaimError::NotRam),
            forall|i: int|
                0 <= i < self.regions@.len() && (#[trigger] self.regions@[i]).range.guest.covers(
                    range,
                ) ==> {
                    &&& result == self.regions@[i].aligned_subrange_spec(range, self.granule)
                    &&& result matches Ok(Some(host)) ==> host.valid() && range.covers(host.guest)
                },
    {
        let mut i: usize = 0;
        while i < self.regions.len()
            invariant
                i <= self.regions.len(),
                self.wf(),
                range.valid(),
                forall|k: int|
                    0 <= k < i ==> !(#[trigger] self.regions@[k]).range.guest.covers(range),
            decreases self.regions.len() - i,
        {
            let region = self.regions[i];
            assert(self.regions@[i as int].valid());
            if region.range.guest.contains(range) {
                proof {
                    assert forall|k: int|
                        0 <= k < self.regions@.len() && (
                        #[trigger] self.regions@[k]).range.guest.covers(range) implies k == i by {
                        if i < k {
                            assert(self.regions@[i as int].range.guest.end
                                <= self.regions@[k].range.guest.start);
                        }
                    }
                }
                return region.aligned_subrange(range, self.granule);
            }
            i = i + 1;
        }
        Err(ReclaimError::NotRam)
    }
}

} // verus!
