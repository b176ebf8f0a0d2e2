//! How regions of RAM stand to one another, and how they are divided and normalised.
use crate::guest_memory::RamRegion;
use crate::ram_layout::{hosts_meet, insert_region_spec, region_aligned, region_overlaps};
use crate::reclaim::{
    extent_count, saturated, NormalizeCall, NormalizeRun, ReclaimState, ReclaimStateError,
    RegionExtents,
};
use vstd::prelude::*;

verus! {

/// A new region joins the others, which stay as they are, and the order by address is kept.
pub proof fn law_regions_stay_in_order(regions: Seq<RamRegion>, region: RamRegion, other: RamRegion)
    requires
        forall|i: int, j: int|
            0 <= i < j < regions.len() ==> (#[trigger] regions[i]).range.guest.start <= (
            #[trigger] regions[j]).range.guest.start,
    ensures
        ({
            let next = insert_region_spec(regions, region);
            &&& next.len() == regions.len() + 1
            &&& next.contains(other) <==> regions.contains(other) || other == region
            &&& forall|i: int, j: int|
                0 <= i < j < next.len() ==> (#[trigger] next[i]).range.guest.start <= (
                #[trigger] next[j]).range.guest.start
        }),
    decreases regions.len(),
{
    let next = insert_region_spec(regions, region);
    if regions.len() == 0 {
        assert(next[0] == region);
    } else if regions.last().range.guest.start <= region.range.guest.start {
        assert(next[regions.len() as int] == region);
        assert(regions.last() == regions[regions.len() - 1]);
        if regions.contains(other) {
            let k = choose|k: int| 0 <= k < regions.len() && regions[k] == other;
            assert(next[k] == other);
        }
        assert forall|i: int, j: int| 0 <= i < j < next.len() implies (
        #[trigger] next[i]).range.guest.start <= (#[trigger] next[j]).range.guest.start by {
            assert(next[i] == regions[i]);
            assert(regions[i].range.guest.start <= regions[regions.len() - 1].range.guest.start);
            if j < regions.len() {
                assert(next[j] == regions[j]);
            }
        }
    } else {
        let rest = regions.drop_last();
        assert forall|i: int, j: int| 0 <= i < j < rest.len() implies (
        #[trigger] rest[i]).range.guest.start <= (#[trigger] rest[j]).range.guest.start by {
            assert(rest[i] == regions[i] && rest[j] == regions[j]);
        }
        law_regions_stay_in_order(rest, region, other);
        let inner = insert_region_spec(rest, region);
        let last = regions.last();
        assert(next == inner.push(last));
        assert(next[inner.len() as int] == last);
        assert(regions[regions.len() - 1] == last);
        if regions.contains(other) && other != last {
            let k = choose|k: int| 0 <= k < regions.len() && regions[k] == other;
            assert(rest[k] == other);
        }
        if rest.contains(other) {
            let k = choose|k: int| 0 <= k < rest.len() && rest[k] == other;
            assert(regions[k] == other);
        }
        if inner.contains(other) {
            let k = choose|k: int| 0 <= k < inner.len() && inner[k] == other;
            assert(next[k] == other);
        }
        if next.contains(other) && other != last {
            let k = choose|k: int| 0 <= k < next.len() && next[k] == other;
            assert(inner[k] == other);
        }
        assert forall|i: int, j: int| 0 <= i < j < next.len() implies (
        #[trigger] next[i]).range.guest.start <= (#[trigger] next[j]).range.guest.start by {
            assert(next[i] == inner[i]);
            if j < inner.len() {
                assert(next[j] == inner[j]);
            } else {
                law_regions_stay_in_order(rest, region, inner[i]);
                assert(inner.contains(inner[i]));
                if inner[i] != region {
                    let k = choose|k: int| 0 <= k < rest.len() && rest[k] == inner[i];
                    assert(regions[k] == inner[i]);
                    assert(regions[k].range.guest.start <= regions[regions.len()
                        - 1].range.guest.start);
                }
            }
        }
    }
}

/// A region that has an address of the guest or of the host in common with a registered one
/// overlaps; the guest's addresses and the host's are each counted from the region's start.
pub proof fn law_shared_addresses_overlap(
    regions: Seq<RamRegion>,
    region: RamRegion,
    which: int,
    address: int,
)
    requires
        0 <= which < regions.len(),
    ensures
        ({
            let known = regions[which].range;
            let new = region.range;
            let size = known.guest.end - known.guest.start;
            let new_size = new.guest.end - new.guest.start;
            &&& known.guest.start <= address < known.guest.end && new.guest.start <= address
                < new.guest.end ==> region_overlaps(regions, region)
            &&& known.host_start <= address < known.host_start + size && new.host_start <= address
                < new.host_start + new_size ==> region_overlaps(regions, region)
        }),
{
}

/// A region overlaps only where there is a registered one with which it has an address in
/// common: the later of the two starts, in the guest's memory or in the host's.
pub proof fn law_overlap_shows_an_address(regions: Seq<RamRegion>, region: RamRegion) -> (which: int)
    requires
        region_overlaps(regions, region),
        region.valid(),
        forall|i: int| 0 <= i < regions.len() ==> (#[trigger] regions[i]).valid(),
    ensures
        0 <= which < regions.len(),
        ({
            let known = regions[which].range;
            let new = region.range;
            let guest = if known.guest.start < new.guest.start {
                new.guest.start
            } else {
                known.guest.start
            };
            let host = if known.host_start < new.host_start {
                new.host_start
            } else {
                known.host_start
            };
            ||| guest < known.guest.end && guest < new.guest.end
            ||| host - known.host_start < known.guest.end - known.guest.start && host
                - new.host_start < new.guest.end - new.guest.start
        }),
{
    let which = choose|i: int|
        0 <= i < regions.len() && ((#[trigger] regions[i]).range.guest.meets(region.range.guest)
            || hosts_meet(regions[i], region));
    assert(regions[which].valid());
    which
}

/// A region is aligned exactly if it starts at a whole number of granules, in the guest's memory
/// and in the host's, and ends at one.
pub proof fn law_aligned_regions_are_whole_granules(granule: u64, region: RamRegion)
    requires
        granule > 0,
        region.range.guest.start <= region.range.guest.end,
    ensures
        region_aligned(granule, region) ==> region.range.guest.start % granule == 0
            && region.range.guest.end % granule == 0 && region.range.host_start % granule == 0,
        region.range.guest.start % granule == 0 && region.range.guest.end % granule == 0
            && region.range.host_start % granule == 0 ==> region_aligned(granule, region),
{
    let start = region.range.guest.start as int;
    let end = region.range.guest.end as int;
    let g = granule as int;
    vstd::arithmetic::div_mod::lemma_sub_mod_noop(end, start, g);
    vstd::arithmetic::div_mod::lemma_add_mod_noop(end - start, start, g);
    vstd::arithmetic::div_mod::lemma_mod_self_0(g);
    vstd::arithmetic::div_mod::lemma_small_mod(0, g as nat);
}

/// Extents are two mebibytes each. A region has as many as are needed and no more, and an address
/// lies in the extent of its number.
pub proof fn law_extents_fill_the_region(extents: RegionExtents, address: int)
    requires
        extents.region.range.guest.start <= address < extents.region.range.guest.end,
    ensures
        ({
            let start = extents.region.range.guest.start as int;
            let size = extents.region.range.guest.end - start;
            let n = extents.index_of(address);
            &&& (extent_count(size) - 1) * 0x20_0000 < size <= extent_count(size) * 0x20_0000
            &&& start + n * 0x20_0000 <= address < start + (n + 1) * 0x20_0000
            &&& 0 <= n < extent_count(size)
        }),
{
}

/// A counter counts every step until it is full, and stays full.
pub proof fn law_counters_stop_at_the_end(value: u64, amount: u64, more: u64)
    ensures
        value + amount <= u64::MAX ==> saturated(value, amount) == value + amount,
        value + amount > u64::MAX ==> saturated(value, amount) == 0xffff_ffff_ffff_ffff,
        saturated(value, amount) >= value,
        value + amount + more <= u64::MAX ==> saturated(saturated(value, amount), more) == value
            + amount + more,
{
}

/// A mapping is normalised exactly if the call worked and left it where it was. The call's own
/// error is the one that is told; a mapping that moved is told as an invalid address.
pub proof fn law_normalised_mappings_stay_where_they_are(code: i32, source: u64, destination: u64)
    ensures
        ReclaimState::normalization_spec(code, source, destination) is Ok <==> code == 0
            && destination == source,
        code != 0 ==> ReclaimState::normalization_spec(code, source, destination) == Err::<(), _>(
            ReclaimStateError::NormalizeMapping(code),
        ),
        code == 0 && destination != source ==> ReclaimState::normalization_spec(
            code,
            source,
            destination,
        ) == Err::<(), _>(ReclaimStateError::NormalizeMapping(1)),
{
}

/// Mappings are normalised one after the other, each where it is and as long as it is. All is
/// well only once every one of them is; the first error ends the run and is the one told.
pub proof fn law_every_mapping_is_normalised(run: NormalizeRun)
    requires
        run.wf(),
    ensures
        run.call_spec() == NormalizeCall::Finished(Ok(())) <==> run.failed is None && run.done
            == run.targets@.len(),
        run.failed matches Some(error) ==> run.call_spec() == NormalizeCall::Finished(Err(error)),
        run.failed is None && run.done < run.targets@.len() ==> {
            &&& run.call_spec() matches NormalizeCall::Remap { source, size }
            &&& (source, size) == run.targets@[run.done as int]
        },
{
}

} // verus!
