//! Discard advice for host pages, and what the host reports about them.
use vstd::prelude::*;

verus! {

/// Flag bits of a page as the host reports them.
pub const MINCORE_INCORE: u8 = 0x01;
pub const MINCORE_REFERENCED: u8 = 0x0a;
pub const MINCORE_MODIFIED: u8 = 0x14;
pub const MINCORE_PAGED_OUT: u8 = 0x20;

/// Why a range was not advised or sampled.
#[derive(Clone, Copy, Debug, PartialEq, Eq, Structural)]
pub enum DiscardError {
    /// The native page size is not a power of two.
    UnsupportedPageSize,
    /// The range is not a nonempty run of native pages.
    InvalidInput,
}

/// Whether `x` is a power of two of the machine's word.
pub open spec fn is_page_size(x: usize) -> bool {
    crate::guest_memory::is_power_of_two_spec(x as u64)
}

/// The native page size, from what the host returned for it.
pub fn native_page_size(reported: i32) -> (result: Result<usize, DiscardError>)
    ensures
        result is Ok <==> reported > 0 && crate::guest_memory::is_power_of_two_spec(
            reported as u64,
        ),
        result matches Ok(size) ==> size == reported,
        result matches Err(error) ==> error == DiscardError::UnsupportedPageSize,
{
    if reported <= 0 {
        return Err(DiscardError::UnsupportedPageSize);
    }
    if crate::guest_memory::is_power_of_two(reported as u64) {
        Ok(reported as usize)
    } else {
        Err(DiscardError::UnsupportedPageSize)
    }
}

/// `address` and `length` delimit a nonempty run of native pages.
pub open spec fn is_page_run(address: usize, length: usize, page_size: usize, native: usize) -> bool {
    &&& page_size == native
    &&& address as int % page_size as int == 0
    &&& length > 0
    &&& length as int % page_size as int == 0
    &&& address + length <= usize::MAX
}

fn validate(
    address: usize,
    length: usize,
    page_size: usize,
    native: Result<usize, DiscardError>,
) -> (result: Result<(), DiscardError>)
    requires
        native matches Ok(size) ==> is_page_size(size),
    ensures
        native matches Err(error) ==> result == Err::<(), _>(error),
        native matches Ok(size) ==> result == if is_page_run(address, length, page_size, size) {
            Ok::<(), DiscardError>(())
        } else {
            Err(DiscardError::InvalidInput)
        },
{
    let native: usize = match native {
        Ok(native) => native,
        Err(error) => return Err(error),
    };
    if page_size != native {
        return Err(DiscardError::InvalidInput);
    }
    proof {
        crate::guest_memory::lemma_power_of_two_positive(page_size as u64);
    }
    if address % page_size != 0 || length == 0 || length % page_size != 0 || address.checked_add(
        length,
    ).is_none() {
        return Err(DiscardError::InvalidInput);
    }
    Ok(())
}

/// The pages to advise free one by one, or why the range is refused before any advice.
///
/// Advice is given page by page even where the guest mapping is one run: advice on
/// several pages looks at host page tables, which need not exist for RAM that only the
/// guest has touched.
pub fn advise_free(
    address: usize,
    length: usize,
    page_size: usize,
    native: Result<usize, DiscardError>,
) -> (result: Result<Vec<usize>, DiscardError>)
    requires
        native matches Ok(size) ==> is_page_size(size),
    ensures
        native matches Err(error) ==> result == Err::<Vec<usize>, _>(error),
        native matches Ok(size) && !is_page_run(address, length, page_size, size) ==> result
            == Err::<Vec<usize>, _>(DiscardError::InvalidInput),
        native matches Ok(size) && is_page_run(address, length, page_size, size) ==> {
            &&& result matches Ok(pages)
            &&& pages@.len() == length as int / page_size as int
            &&& forall|i: int|
                0 <= i < pages@.len() ==> #[trigger] pages@[i] == address + i * page_size
        },
{
    match validate(address, length, page_size, native) {
        Ok(()) => {},
        Err(error) => return Err(error),
    }
    proof {
        crate::guest_memory::lemma_power_of_two_positive(page_size as u64);
        vstd::arithmetic::div_mod::lemma_fundamental_div_mod(length as int, page_size as int);
    }
    let count: usize = length / page_size;
    proof {
        vstd::arithmetic::mul::lemma_mul_is_commutative(count as int, page_size as int);
    }
    let mut pages: Vec<usize> = Vec::new();
    let mut i: usize = 0;
    let mut offset: usize = 0;
    while i < count
        invariant
            i <= count,
            page_size >= 1,
            count * page_size == length,
            address + length <= usize::MAX,
            offset == i * page_size,
            offset <= length,
            pages@.len() == i,
            forall|k: int| 0 <= k < i ==> #[trigger] pages@[k] == address + k * page_size,
        decreases count - i,
    {
        proof {
            assert((i + 1) * page_size == i * page_size + page_size) by (nonlinear_arith);
            assert((i + 1) * page_size <= count * page_size) by (nonlinear_arith)
                requires
                    i + 1 <= count,
                    page_size >= 1,
            ;
        }
        pages.push(address + offset);
        offset = offset + page_size;
        i = i + 1;
    }
    Ok(pages)
}

/// How many of `flags` have a bit of `mask` set.
pub open spec fn count_flagged(flags: Seq<u8>, mask: u8) -> nat
    decreases flags.len(),
{
    if flags.len() == 0 {
        0
    } else {
        count_flagged(flags.drop_last(), mask) + if flags.last() & mask != 0 {
            1nat
        } else {
            0
        }
    }
}

proof fn lemma_count_flagged_bound(flags: Seq<u8>, mask: u8)
    ensures
        count_flagged(flags, mask) <= flags.len(),
        count_flagged(flags, mask) == 0 <==> forall|i: int|
            0 <= i < flags.len() ==> (#[trigger] flags[i]) & mask == 0,
    decreases flags.len(),
{
    if flags.len() > 0 {
        let rest = flags.drop_last();
        lemma_count_flagged_bound(rest, mask);
        if count_flagged(flags, mask) == 0 {
            assert forall|i: int| 0 <= i < flags.len() implies (#[trigger] flags[i]) & mask
                == 0 by {
                if i < rest.len() {
                    assert(rest[i] == flags[i]);
                }
            }
        }
        if forall|i: int| 0 <= i < flags.len() ==> (#[trigger] flags[i]) & mask == 0 {
            assert forall|i: int| 0 <= i < rest.len() implies (#[trigger] rest[i]) & mask == 0 by {
                assert(flags[i] == rest[i]);
            }
            assert(flags[flags.len() - 1] & mask == 0);
        }
    }
}

fn count_pages(flags: &Vec<u8>, mask: u8) -> (result: usize)
    ensures
        result == count_flagged(flags@, mask),
{
    let mut count: usize = 0;
    let mut i: usize = 0;
    while i < flags.len()
        invariant
            i <= flags.len(),
            count == count_flagged(flags@.take(i as int), mask),
            count <= i,
        decreases flags.len() - i,
    {
        assert(flags@.take(i + 1).drop_last() == flags@.take(i as int));
        if flags[i] & mask != 0 {
            count = count + 1;
        }
        i = i + 1;
    }
    assert(flags@.take(flags.len() as int) == flags@);
    count
}

/// How many pages of a range are resident, referenced, modified or paged out.
#[derive(Clone, Copy, Debug, PartialEq, Eq, Structural)]
pub struct PageState {
    pub pages: usize,
    pub resident: usize,
    pub referenced: usize,
    pub modified: usize,
    pub paged_out: usize,
}

impl Default for PageState {
    fn default() -> (result: PageState)
        ensures
            result == (PageState {
                pages: 0,
                resident: 0,
                referenced: 0,
                modified: 0,
                paged_out: 0,
            }),
    {
        PageState { pages: 0, resident: 0, referenced: 0, modified: 0, paged_out: 0 }
    }
}

impl PageState {
    /// Whether the host may drop every page without losing anything.
    pub fn is_discardable(self) -> (result: bool)
        ensures
            result == (self.pages != 0 && self.referenced == 0 && self.modified == 0
                && self.paged_out == 0),
    {
        self.pages != 0 && self.referenced == 0 && self.modified == 0 && self.paged_out == 0
    }

    /// Sums up the flags that the host reported, one byte per page.
    pub fn from_flags(flags: &Vec<u8>) -> (result: PageState)
        ensures
            result.pages == flags@.len(),
            result.resident == count_flagged(flags@, MINCORE_INCORE),
            result.referenced == count_flagged(flags@, MINCORE_REFERENCED),
            result.modified == count_flagged(flags@, MINCORE_MODIFIED),
            result.paged_out == count_flagged(flags@, MINCORE_PAGED_OUT),
    {
        PageState {
            pages: flags.len(),
            resident: count_pages(flags, MINCORE_INCORE),
            referenced: count_pages(flags, MINCORE_REFERENCED),
            modified: count_pages(flags, MINCORE_MODIFIED),
            paged_out: count_pages(flags, MINCORE_PAGED_OUT),
        }
    }

    /// How many page flags the host has to report for a sample, or why the range is
    /// refused before the host is asked.
    pub fn sample(
        address: usize,
        length: usize,
        page_size: usize,
        native: Result<usize, DiscardError>,
    ) -> (result: Result<usize, DiscardError>)
        requires
            native matches Ok(size) ==> is_page_size(size),
        ensures
            native matches Err(error) ==> result == Err::<usize, _>(error),
            native matches Ok(size) ==> result == if is_page_run(address, length, page_size, size) {
                Ok::<usize, DiscardError>((length / page_size) as usize)
            } else {
                Err(DiscardError::InvalidInput)
            },
    {
        match validate(address, length, page_size, native) {
            Ok(()) => {},
            Err(error) => return Err(error),
        }
        proof {
            crate::guest_memory::lemma_power_of_two_positive(page_size as u64);
        }
        Ok(length / page_size)
    }
}

/// A range is discardable exactly where it has pages and none of them is referenced,
/// modified or paged out.
pub proof fn law_discardable_means_clean(flags: Seq<u8>)
    ensures
        (flags.len() != 0 && count_flagged(flags, MINCORE_REFERENCED) == 0 && count_flagged(
            flags,
            MINCORE_MODIFIED,
        ) == 0 && count_flagged(flags, MINCORE_PAGED_OUT) == 0) <==> (flags.len() != 0 && forall|
            i: int,
        |
            0 <= i < flags.len() ==> {
                &&& (#[trigger] flags[i]) & MINCORE_REFERENCED == 0
                &&& flags[i] & MINCORE_MODIFIED == 0
                &&& flags[i] & MINCORE_PAGED_OUT == 0
            }),
{
    lemma_count_flagged_bound(flags, MINCORE_REFERENCED);
    lemma_count_flagged_bound(flags, MINCORE_MODIFIED);
    lemma_count_flagged_bound(flags, MINCORE_PAGED_OUT);
}

} // verus!
