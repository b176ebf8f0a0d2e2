//! Qualification of guest RAM reclaim on a scratch stretch of guest memory.
//!
//! The probe touches scratch memory from a guest, releases it, and judges by the host's
//! footprint accounting whether the release took effect. The calls to the hypervisor and
//! the host are made by the caller; this module says which call comes next and what the
//! answers amount to.
use crate::guest_memory::{
    is_power_of_two, is_power_of_two_spec, lemma_power_of_two_positive, GuestRange,
};
use crate::reclaim::ReclaimQualification;
use vstd::arithmetic::div_mod::lemma_add_mod_noop;
use vstd::arithmetic::power2::pow2;
use vstd::prelude::*;

verus! {

/// Bytes of scratch data: two mebibytes.
pub const DATA_SIZE: u64 = 0x20_0000;

/// Share of a reference amount that a rise or a drop must reach, in percent.
pub const REQUIRED_PERCENT: u64 = 75;

/// Share of the charged amount that may vanish without a release, in percent.
pub const ABSENT_DROP_PERCENT: u64 = 25;

pub const FIRST_SEED: u64 = 0x4b52_554e;
pub const SECOND_SEED: u64 = 0x5349_4c4f;

/// What the host accounts to the process at one moment, in bytes.
#[derive(Clone, Copy, Debug, PartialEq, Eq, Structural)]
pub struct MemorySample {
    pub phys_footprint: u64,
    pub resident: u64,
    pub reusable: u64,
}

impl Default for MemorySample {
    fn default() -> (result: MemorySample)
        ensures
            result == MemorySample::zero(),
    {
        MemorySample { phys_footprint: 0, resident: 0, reusable: 0 }
    }
}

impl MemorySample {
    pub open spec fn zero() -> MemorySample {
        MemorySample { phys_footprint: 0, resident: 0, reusable: 0 }
    }
}

/// Why no sample was taken.
#[derive(Clone, Copy, Debug, PartialEq, Eq, Structural)]
pub enum SampleError {
    /// The kernel refused, with this status.
    Status(i32),
    /// The kernel filled in only this many words.
    ShortCount(u32),
}

/// Words of task accounting that a sample needs.
pub const TASK_VM_INFO_WORDS: u32 = 38;

/// Makes a sample of the kernel's answer to an accounting query.
pub fn memory_sample(status: i32, count: u32, filled: MemorySample) -> (result: Result<
    MemorySample,
    SampleError,
>)
    ensures
        result == if status != 0 {
            Err::<MemorySample, SampleError>(SampleError::Status(status))
        } else if count < TASK_VM_INFO_WORDS {
            Err(SampleError::ShortCount(count))
        } else {
            Ok(filled)
        },
{
    if status != 0 {
        return Err(SampleError::Status(status));
    }
    if count < TASK_VM_INFO_WORDS {
        return Err(SampleError::ShortCount(count));
    }
    Ok(filled)
}

/// Whether scratch memory is released, or left alone to see that nothing drops.
#[derive(Clone, Copy, Debug, PartialEq, Eq, Structural)]
pub enum ProbeMode {
    Release,
    NegativeControl,
}

/// Registers that a touch pass sets.
#[derive(Clone, Copy, Debug, PartialEq, Eq, Structural)]
pub enum TouchRegister {
    Cpsr,
    Pc,
    X0,
    X1,
    X2,
    X3,
    X4,
}

/// Why a touch pass has no checksum.
#[derive(Clone, Copy, Debug, PartialEq, Eq, Structural)]
pub enum TouchError {
    Register(TouchRegister),
    MmuState,
    ExceptionVector,
    BreakpointTrap,
    Run,
    ExitVanished,
    UnexpectedExit {
        reason: u32,
        syndrome: u64,
        virtual_address: u64,
        physical_address: u64,
        code_gpa: u64,
        data_gpa: u64,
    },
    TrapPc,
    /// The guest trapped elsewhere; with what its exception registers hold, and how reading them
    /// went.
    GuestException { trap_pc: u64, esr: u64, far: u64, esr_status: i32, far_status: i32 },
    Checksum,
}

/// Why a step of the probe failed.
#[derive(Clone, Copy, Debug, PartialEq, Eq, Structural)]
pub enum OperationError {
    HostMap(i32),
    CodeMapRejected,
    DataMapRejected,
    VcpuRejected,
    NullExitPointer,
    ReleaseRejected,
    ReleaseAdvice(i32),
    RestoreAdvice(i32),
    RestoreRejected,
}

/// What a report is based on.
#[derive(Clone, Copy, Debug, PartialEq, Eq, Structural)]
pub enum ProbeDetail {
    UnsupportedPageSize,
    NoScratchRange,
    Operation(OperationError),
    Sample(SampleError),
    Touch(TouchError),
    FirstChecksum { expected: u64, got: u64 },
    FirstTouchInvisible,
    LowRise { charged: u64 },
    NegativeControl { charged: u64, dropped: u64 },
    LowDrop { dropped: u64, charged: u64 },
    SecondChecksum { expected: u64, got: u64 },
    SecondTouchInvisible,
    Measured { charged: u64, dropped: u64, recharged: u64 },
}

/// What a probe found.
#[derive(Clone, Copy, Debug, PartialEq, Eq, Structural)]
pub struct ProbeReport {
    pub qualification: ReclaimQualification,
    pub baseline: MemorySample,
    pub touched: MemorySample,
    pub released: MemorySample,
    pub retouched: Option<MemorySample>,
    /// Nanoseconds from the start of the probe to the report.
    pub elapsed: u64,
    pub detail: ProbeDetail,
    /// The watchdog had to stop the guest; the rest of the report is then beside the point.
    pub watchdog_canceled: bool,
}

/// A report without samples.
pub open spec fn bare_report(
    qualification: ReclaimQualification,
    elapsed: u64,
    detail: ProbeDetail,
) -> ProbeReport {
    ProbeReport {
        qualification,
        baseline: MemorySample::zero(),
        touched: MemorySample::zero(),
        released: MemorySample::zero(),
        retouched: None,
        elapsed,
        detail,
        watchdog_canceled: false,
    }
}

pub fn report_with_samples(
    qualification: ReclaimQualification,
    elapsed: u64,
    baseline: MemorySample,
    touched: MemorySample,
    released: MemorySample,
    retouched: Option<MemorySample>,
    detail: ProbeDetail,
) -> (result: ProbeReport)
    ensures
        result == (ProbeReport {
            qualification,
            baseline,
            touched,
            released,
            retouched,
            elapsed,
            detail,
            watchdog_canceled: false,
        }),
{
    ProbeReport {
        qualification,
        baseline,
        touched,
        released,
        retouched,
        elapsed,
        detail,
        watchdog_canceled: false,
    }
}

pub fn inconclusive_report(elapsed: u64, detail: ProbeDetail) -> (result: ProbeReport)
    ensures
        result == bare_report(ReclaimQualification::Inconclusive, elapsed, detail),
{
    report_with_samples(
        ReclaimQualification::Inconclusive,
        elapsed,
        MemorySample::default(),
        MemorySample::default(),
        MemorySample::default(),
        None,
        detail,
    )
}

pub fn failed_report(elapsed: u64, detail: ProbeDetail) -> (result: ProbeReport)
    ensures
        result == bare_report(ReclaimQualification::Failed, elapsed, detail),
{
    report_with_samples(
        ReclaimQualification::Failed,
        elapsed,
        MemorySample::default(),
        MemorySample::default(),
        MemorySample::default(),
        None,
        detail,
    )
}

/// `value` is at least `percent` percent of `reference`, without rounding.
pub open spec fn at_least_percent_spec(value: u64, reference: u64, percent: u64) -> bool {
    value * 100 >= reference * percent
}

pub fn at_least_percent(value: u64, reference: u64, percent: u64) -> (result: bool)
    ensures
        result == at_least_percent_spec(value, reference, percent),
{
    assert(reference * percent <= u64::MAX * u64::MAX) by (nonlinear_arith)
        requires
            reference <= u64::MAX,
            percent <= u64::MAX,
    ;
    (value as u128) * 100 >= (reference as u128) * (percent as u128)
}

pub fn at_most_percent(value: u64, reference: u64, percent: u64) -> (result: bool)
    ensures
        result == (value * 100 <= reference * percent),
{
    assert(reference * percent <= u64::MAX * u64::MAX) by (nonlinear_arith)
        requires
            reference <= u64::MAX,
            percent <= u64::MAX,
    ;
    (value as u128) * 100 <= (reference as u128) * (percent as u128)
}

/// Whether guest mappings are left that only the end of the virtual machine can remove.
pub fn requires_emergency_destroy(code_mapped: bool, data_mapped: bool) -> (result: bool)
    ensures
        result == (code_mapped || data_mapped),
{
    code_mapped || data_mapped
}

/// The checksum that a guest pass over `pages` pages has to report: what the guest accumulates.
pub fn expected_checksum(seed: u64, pages: u64) -> (result: u64)
    ensures
        result == touch_sum(seed, pages as nat),
{
    let below: u64 = if pages == 0 {
        0
    } else {
        pages - 1
    };
    let pairs: u64 = if pages % 2 == 0 {
        (pages / 2).wrapping_mul(below)
    } else {
        pages.wrapping_mul(below / 2)
    };
    proof {
        lemma_checksum(seed, pages, below);
    }
    pages.wrapping_mul(seed).wrapping_add(pairs)
}

/// What the guest program accumulates: one word per page, each one more than the last.
pub open spec fn touch_sum(seed: u64, pages: nat) -> u64
    decreases pages,
{
    if pages == 0 {
        0
    } else {
        touch_sum(seed, (pages - 1) as nat).wrapping_add(seed.wrapping_add((pages - 1) as u64))
    }
}

pub(crate) proof fn lemma_touch_sum(seed: u64, pages: nat)
    requires
        pages <= u64::MAX,
    ensures
        touch_sum(seed, pages) == (pages * seed + (pages * (pages - 1)) / 2)
            % 0x1_0000_0000_0000_0000,
    decreases pages,
{
    if pages > 0 {
        let before = (pages - 1) as nat;
        lemma_touch_sum(seed, before);
        let m: int = 0x1_0000_0000_0000_0000;
        let prior: int = before * seed + (before * (before - 1)) / 2;
        let word: int = seed + before;
        lemma_add_mod_noop(prior, word, m);
        assert(pages * seed + (pages * (pages - 1)) / 2 == prior + word) by (nonlinear_arith)
            requires
                before == pages - 1,
                prior == before * seed + (before * (before - 1)) / 2,
                word == seed + before,
                pages >= 1,
        {
            assert(pages * (pages - 1) == before * (before - 1) + 2 * before);
            assert(pages * seed == before * seed + seed);
        }
    } else {
        assert(0 * seed + (0 * (0 - 1)) / 2 == 0) by (nonlinear_arith);
    }
}

/// The closed form of the checksum, computed in words. Of the two factors one is even.
proof fn lemma_checksum(seed: u64, pages: u64, below: u64)
    requires
        below == if pages == 0 {
            0
        } else {
            pages - 1
        },
    ensures
        pages.wrapping_mul(seed).wrapping_add(
            if pages % 2 == 0 {
                (pages / 2).wrapping_mul(below)
            } else {
                pages.wrapping_mul(below / 2)
            },
        ) == touch_sum(seed, pages as nat),
{
    lemma_touch_sum(seed, pages as nat);
    let m: int = 0x1_0000_0000_0000_0000;
    let product: int = pages * seed;
    let pairs: int = if pages % 2 == 0 {
        (pages / 2) * below
    } else {
        pages * (below / 2)
    };
    assert((pages * (pages - 1)) / 2 == pairs) by {
        if pages == 0 {
            assert(pages * (pages - 1) == 0) by (nonlinear_arith)
                requires
                    pages == 0,
            ;
            assert((pages / 2) * below == 0) by (nonlinear_arith)
                requires
                    pages == 0,
            ;
        } else if pages % 2 == 0 {
            let half = (pages / 2) as int;
            assert(pages * (pages - 1) == 2 * (half * below)) by (nonlinear_arith)
                requires
                    pages == 2 * half,
                    below == pages - 1,
            ;
        } else {
            let half = (below / 2) as int;
            assert(pages * (pages - 1) == 2 * (pages * half)) by (nonlinear_arith)
                requires
                    pages - 1 == 2 * half,
            ;
        }
    }
    lemma_add_mod_noop(product, pairs, m);
}

/// Whether every host page starts with the word that the guest wrote to it.
pub fn host_pages_match(words: &Vec<u64>, seed: u64) -> (result: bool)
    ensures
        result == forall|i: int|
            0 <= i < words@.len() ==> #[trigger] words@[i] == seed.wrapping_add(i as u64),
{
    let mut i: usize = 0;
    while i < words.len()
        invariant
            i <= words.len(),
            forall|k: int| 0 <= k < i ==> #[trigger] words@[k] == seed.wrapping_add(k as u64),
        decreases words.len() - i,
    {
        if words[i] != seed.wrapping_add(i as u64) {
            assert(words@[i as int] != seed.wrapping_add(i as int as u64));
            return false;
        }
        i = i + 1;
    }
    true
}

/// `value` rounded up to a multiple of `alignment`, if that fits.
pub fn align_up(value: u64, alignment: u64) -> (result: Option<u64>)
    requires
        is_power_of_two_spec(alignment),
    ensures
        result == if value + alignment - 1 > u64::MAX {
            None
        } else {
            Some(crate::guest_memory::align_up_spec(value as int, alignment as int) as u64)
        },
{
    proof {
        lemma_power_of_two_positive(alignment);
    }
    match value.checked_add(alignment - 1) {
        None => None,
        Some(raised) => {
            proof {
                vstd::arithmetic::div_mod::lemma_mod_decreases(raised as nat, alignment as nat);
            }
            Some(raised - raised % alignment)
        },
    }
}

/// Scratch memory may start at `start`: it is aligned, lies below the address limit, and
/// meets no occupied range.
pub open spec fn scratch_fits(
    ipa_bits: u32,
    occupied: Seq<GuestRange>,
    page_size: u64,
    start: int,
) -> bool {
    &&& start >= 0
    &&& start % (page_size as int) == 0
    &&& start + page_size + DATA_SIZE <= pow2(ipa_bits as nat)
    &&& forall|i: int|
        0 <= i < occupied.len() ==> !(start < (#[trigger] occupied[i]).end && occupied[i].start
            < start + page_size + DATA_SIZE)
}

/// Guest addresses for one page of scratch code and the scratch data behind it: the
/// lowest that are free.
pub fn choose_scratch_gpas(ipa_bits: u32, occupied: &Vec<GuestRange>, page_size: u64) -> (result:
    Option<(u64, u64)>)
    requires
        forall|i: int| 0 <= i < occupied@.len() ==> (#[trigger] occupied@[i]).valid(),
    ensures
        match result {
            Some((code, data)) => {
                &&& 0 < ipa_bits < 64 && is_power_of_two_spec(page_size)
                &&& data == code + page_size
                &&& scratch_fits(ipa_bits, occupied@, page_size, code as int)
                &&& forall|lower: int|
                    0 <= lower < code ==> !scratch_fits(ipa_bits, occupied@, page_size, lower)
            },
            None => ipa_bits == 0 || ipa_bits >= 64 || !is_power_of_two_spec(page_size) || forall|
                start: int,
            |
                !#[trigger] scratch_fits(ipa_bits, occupied@, page_size, start),
        },
{
    if ipa_bits == 0 || ipa_bits >= 64 || !is_power_of_two(page_size) {
        return None;
    }
    proof {
        lemma_power_of_two_positive(page_size);
        vstd::bits::lemma_u64_pow2_no_overflow(ipa_bits as nat);
        vstd::bits::lemma_u64_shl_is_mul(1, ipa_bits as u64);
    }
    let cap: u64 = 1u64 << (ipa_bits as u64);
    let total: u64 = match page_size.checked_add(DATA_SIZE) {
        Some(total) => total,
        None => return None,
    };
    let mut start: u64 = 0;
    loop
        invariant
            0 < ipa_bits < 64,
            is_power_of_two_spec(page_size),
            page_size >= 1,
            cap == pow2(ipa_bits as nat),
            total == page_size + DATA_SIZE,
            start % page_size == 0,
            forall|i: int| 0 <= i < occupied@.len() ==> (#[trigger] occupied@[i]).valid(),
            forall|lower: int|
                0 <= lower < start ==> !scratch_fits(ipa_bits, occupied@, page_size, lower),
        decreases u64::MAX - start,
    {
        let candidate_end: u64 = match start.checked_add(total) {
            Some(end) => end,
            None => {
                assert forall|s: int| !#[trigger] scratch_fits(
                    ipa_bits,
                    occupied@,
                    page_size,
                    s,
                ) by {}
                return None;
            },
        };
        if candidate_end > cap {
            assert forall|s: int| !#[trigger] scratch_fits(ipa_bits, occupied@, page_size, s) by {}
            return None;
        }
        let mut farthest: Option<u64> = None;
        let ghost mut witness: int = 0;
        let mut i: usize = 0;
        while i < occupied.len()
            invariant
                i <= occupied.len(),
                candidate_end == start + total,
                total == page_size + DATA_SIZE,
                forall|k: int| 0 <= k < occupied@.len() ==> (#[trigger] occupied@[k]).valid(),
                farthest is None ==> forall|k: int|
                    0 <= k < i ==> !(start < (#[trigger] occupied@[k]).end && occupied@[k].start
                        < candidate_end),
                farthest matches Some(end) ==> 0 <= witness < i && occupied@[witness].end == end
                    && start < end && occupied@[witness].start < candidate_end,
            decreases occupied.len() - i,
        {
            let range = occupied[i];
            if start < range.end && range.start < candidate_end {
                let farther: bool = match farthest {
                    None => true,
                    Some(end) => range.end >= end,
                };
                if farther {
                    farthest = Some(range.end);
                    proof {
                        witness = i as int;
                    }
                }
            }
            i = i + 1;
        }
        match farthest {
            None => {
                proof {
                    assert(scratch_fits(ipa_bits, occupied@, page_size, start as int));
                }
                return Some((start, start + page_size));
            },
            Some(end) => {
                let ghost blocker = occupied@[witness];
                let next: Option<u64> = align_up(end, page_size);
                proof {
                    let raised: int = end + page_size - 1;
                    let bound: int = raised - raised % (page_size as int);
                    assert forall|s: int|
                        start <= s < bound implies !#[trigger] scratch_fits(
                        ipa_bits,
                        occupied@,
                        page_size,
                        s,
                    ) by {
                        if s % (page_size as int) == 0 && s >= end {
                            lemma_aligned_gap(s, bound, end as int, page_size as int);
                        }
                        if s < end {
                            assert(s < blocker.end && blocker.start < s + page_size + DATA_SIZE);
                        }
                    }
                    if raised > u64::MAX {
                        assert forall|s: int| !#[trigger] scratch_fits(
                            ipa_bits,
                            occupied@,
                            page_size,
                            s,
                        ) by {
                            if s >= bound {
                                vstd::arithmetic::div_mod::lemma_mod_bound(
                                    raised,
                                    page_size as int,
                                );
                                assert(s + page_size + DATA_SIZE > u64::MAX);
                            }
                        }
                    } else {
                        vstd::arithmetic::div_mod::lemma_mod_bound(raised, page_size as int);
                        vstd::arithmetic::div_mod::lemma_fundamental_div_mod(
                            raised,
                            page_size as int,
                        );
                        vstd::arithmetic::div_mod::lemma_mod_multiples_basic(
                            raised / (page_size as int),
                            page_size as int,
                        );
                        vstd::arithmetic::mul::lemma_mul_is_commutative(
                            raised / (page_size as int),
                            page_size as int,
                        );
                        assert(bound % (page_size as int) == 0);
                    }
                }
                start = match next {
                    Some(next) => next,
                    None => return None,
                };
            },
        }
    }
}

/// Between an address and the next multiple at or above it there is no multiple.
proof fn lemma_aligned_gap(s: int, bound: int, end: int, page: int)
    requires
        page >= 1,
        end >= 0,
        s % page == 0,
        s >= end,
        bound == (end + page - 1) - (end + page - 1) % page,
    ensures
        s >= bound,
{
    vstd::arithmetic::div_mod::lemma_fundamental_div_mod(s, page);
    vstd::arithmetic::div_mod::lemma_fundamental_div_mod(end + page - 1, page);
    let a = s / page;
    let b = (end + page - 1) / page;
    assert(s == page * a && bound == page * b);
    if s < bound {
        assert(a < b) by (nonlinear_arith)
            requires
                page * a < page * b,
                page >= 1,
        ;
        assert(page * (a + 1) <= page * b) by (nonlinear_arith)
            requires
                a + 1 <= b,
                page >= 1,
        ;
        assert(page * (a + 1) == page * a + page) by (nonlinear_arith);
        vstd::arithmetic::div_mod::lemma_mod_bound(end + page - 1, page);
    }
}

/// Where a probe stands: which answer it waits for, and the samples taken so far.
#[derive(Clone, Copy, Debug, PartialEq, Eq, Structural)]
pub enum ProbePhase {
    Baseline,
    FirstRun { baseline: MemorySample },
    FirstPages { baseline: MemorySample },
    Touched { baseline: MemorySample },
    Release { baseline: MemorySample, touched: MemorySample },
    Settled { baseline: MemorySample, touched: MemorySample },
    Restore { baseline: MemorySample, touched: MemorySample, released: MemorySample },
    SecondRun { baseline: MemorySample, touched: MemorySample, released: MemorySample },
    SecondPages { baseline: MemorySample, touched: MemorySample, released: MemorySample },
    Retouched { baseline: MemorySample, touched: MemorySample, released: MemorySample },
    Finished { report: ProbeReport },
}

/// What the caller does next for a probe.
#[derive(Clone, Copy, Debug, PartialEq, Eq, Structural)]
pub enum ProbeAction {
    Sample,
    /// Run the guest program with this seed.
    Run { seed: u64 },
    /// Compare the host pages with what the guest wrote with this seed.
    ComparePages { seed: u64 },
    ReleaseData,
    /// Let accounting settle for a moment, then take a sample.
    SettleAndSample,
    RestoreData,
    Report { report: ProbeReport },
}

/// What came of an action.
#[derive(Clone, Copy, Debug, PartialEq, Eq)]
pub enum ProbeReply {
    Sample(Result<MemorySample, SampleError>),
    Run(Result<u64, TouchError>),
    Pages(bool),
    Operation(Option<OperationError>),
}

/// `first` less `second`, or nothing where that is negative.
pub open spec fn shortfall(first: u64, second: u64) -> u64 {
    if first >= second {
        (first - second) as u64
    } else {
        0
    }
}

pub open spec fn charged_spec(baseline: MemorySample, touched: MemorySample) -> u64 {
    shortfall(touched.phys_footprint, baseline.phys_footprint)
}

pub open spec fn dropped_spec(touched: MemorySample, released: MemorySample) -> u64 {
    shortfall(touched.phys_footprint, released.phys_footprint)
}

/// One run of the probe.
#[derive(Clone, Copy, Debug, PartialEq, Eq, Structural)]
pub struct ProbeRun {
    pub mode: ProbeMode,
    /// Pages of scratch data.
    pub pages: u64,
    pub phase: ProbePhase,
}

/// A finished phase with the given report.
pub open spec fn finished(
    qualification: ReclaimQualification,
    elapsed: u64,
    baseline: MemorySample,
    touched: MemorySample,
    released: MemorySample,
    retouched: Option<MemorySample>,
    detail: ProbeDetail,
) -> ProbePhase {
    ProbePhase::Finished {
        report: ProbeReport {
            qualification,
            baseline,
            touched,
            released,
            retouched,
            elapsed,
            detail,
            watchdog_canceled: false,
        },
    }
}

impl ProbeRun {
    /// The phase after the awaited answer came, this long after the start of the probe.
    pub open spec fn next_phase(self, reply: ProbeReply, elapsed: u64) -> ProbePhase {
        let none = MemorySample::zero();
        let failed = ReclaimQualification::Failed;
        let inconclusive = ReclaimQualification::Inconclusive;
        let passed = ReclaimQualification::Passed;
        match (self.phase, reply) {
            (ProbePhase::Baseline, ProbeReply::Sample(Ok(baseline))) => ProbePhase::FirstRun {
                baseline,
            },
            (ProbePhase::Baseline, ProbeReply::Sample(Err(error))) => finished(
                inconclusive,
                elapsed,
                none,
                none,
                none,
                None,
                ProbeDetail::Sample(error),
            ),
            (ProbePhase::FirstRun { baseline }, ProbeReply::Run(Ok(got))) => {
                let expected = touch_sum(FIRST_SEED, self.pages as nat);
                if got == expected {
                    ProbePhase::FirstPages { baseline }
                } else {
                    finished(
                        failed,
                        elapsed,
                        baseline,
                        none,
                        none,
                        None,
                        ProbeDetail::FirstChecksum { expected, got },
                    )
                }
            },
            (ProbePhase::FirstRun { baseline }, ProbeReply::Run(Err(error))) => finished(
                failed,
                elapsed,
                baseline,
                none,
                none,
                None,
                ProbeDetail::Touch(error),
            ),
            (ProbePhase::FirstPages { baseline }, ProbeReply::Pages(true)) => ProbePhase::Touched {
                baseline,
            },
            (ProbePhase::FirstPages { baseline }, ProbeReply::Pages(false)) => finished(
                failed,
                elapsed,
                baseline,
                none,
                none,
                None,
                ProbeDetail::FirstTouchInvisible,
            ),
            (ProbePhase::Touched { baseline }, ProbeReply::Sample(Ok(touched))) => {
                let charged = charged_spec(baseline, touched);
                if !at_least_percent_spec(charged, DATA_SIZE, REQUIRED_PERCENT) {
                    finished(
                        inconclusive,
                        elapsed,
                        baseline,
                        touched,
                        none,
                        None,
                        ProbeDetail::LowRise { charged },
                    )
                } else if self.mode == ProbeMode::Release {
                    ProbePhase::Release { baseline, touched }
                } else {
                    ProbePhase::Settled { baseline, touched }
                }
            },
            (ProbePhase::Touched { baseline }, ProbeReply::Sample(Err(error))) => finished(
                inconclusive,
                elapsed,
                baseline,
                none,
                none,
                None,
                ProbeDetail::Sample(error),
            ),
            (ProbePhase::Release { baseline, touched }, ProbeReply::Operation(None)) =>
                ProbePhase::Settled { baseline, touched },
            (ProbePhase::Release { baseline, touched }, ProbeReply::Operation(Some(error))) =>
                finished(
                    failed,
                    elapsed,
                    baseline,
                    touched,
                    none,
                    None,
                    ProbeDetail::Operation(error),
                ),
            (ProbePhase::Settled { baseline, touched }, ProbeReply::Sample(Ok(released))) => {
                let charged = charged_spec(baseline, touched);
                let dropped = dropped_spec(touched, released);
                if self.mode == ProbeMode::NegativeControl {
                    finished(
                        if dropped * 100 <= charged * ABSENT_DROP_PERCENT {
                            passed
                        } else {
                            failed
                        },
                        elapsed,
                        baseline,
                        touched,
                        released,
                        None,
                        ProbeDetail::NegativeControl { charged, dropped },
                    )
                } else if !at_least_percent_spec(dropped, charged, REQUIRED_PERCENT) {
                    finished(
                        failed,
                        elapsed,
                        baseline,
                        touched,
                        released,
                        None,
                        ProbeDetail::LowDrop { dropped, charged },
                    )
                } else {
                    ProbePhase::Restore { baseline, touched, released }
                }
            },
            (ProbePhase::Settled { baseline, touched }, ProbeReply::Sample(Err(error))) => finished(
                inconclusive,
                elapsed,
                baseline,
                touched,
                none,
                None,
                ProbeDetail::Sample(error),
            ),
            (ProbePhase::Restore { baseline, touched, released }, ProbeReply::Operation(None)) =>
                ProbePhase::SecondRun { baseline, touched, released },
            (
                ProbePhase::Restore { baseline, touched, released },
                ProbeReply::Operation(Some(error)),
            ) => finished(
                failed,
                elapsed,
                baseline,
                touched,
                released,
                None,
                ProbeDetail::Operation(error),
            ),
            (ProbePhase::SecondRun { baseline, touched, released }, ProbeReply::Run(Ok(got))) => {
                let expected = touch_sum(SECOND_SEED, self.pages as nat);
                if got == expected {
                    ProbePhase::SecondPages { baseline, touched, released }
                } else {
                    finished(
                        failed,
                        elapsed,
                        baseline,
                        touched,
                        released,
                        None,
                        ProbeDetail::SecondChecksum { expected, got },
                    )
                }
            },
            (ProbePhase::SecondRun { baseline, touched, released }, ProbeReply::Run(Err(error))) =>
                finished(
                    failed,
                    elapsed,
                    baseline,
                    touched,
                    released,
                    None,
                    ProbeDetail::Touch(error),
                ),
            (ProbePhase::SecondPages { baseline, touched, released }, ProbeReply::Pages(true)) =>
                ProbePhase::Retouched { baseline, touched, released },
            (ProbePhase::SecondPages { baseline, touched, released }, ProbeReply::Pages(false)) =>
                finished(
                    failed,
                    elapsed,
                    baseline,
                    touched,
                    released,
                    None,
                    ProbeDetail::SecondTouchInvisible,
                ),
            (
                ProbePhase::Retouched { baseline, touched, released },
                ProbeReply::Sample(Ok(retouched)),
            ) => {
                let recharged = dropped_spec(retouched, released);
                finished(
                    if at_least_percent_spec(recharged, DATA_SIZE, REQUIRED_PERCENT) {
                        passed
                    } else {
                        failed
                    },
                    elapsed,
                    baseline,
                    touched,
                    released,
                    Some(retouched),
                    ProbeDetail::Measured {
                        charged: charged_spec(baseline, touched),
                        dropped: dropped_spec(touched, released),
                        recharged,
                    },
                )
            },
            (
                ProbePhase::Retouched { baseline, touched, released },
                ProbeReply::Sample(Err(error)),
            ) => finished(
                inconclusive,
                elapsed,
                baseline,
                touched,
                released,
                None,
                ProbeDetail::Sample(error),
            ),
            _ => self.phase,
        }
    }

    pub fn new(mode: ProbeMode, page_size: u64) -> (result: ProbeRun)
        requires
            page_size > 0,
        ensures
            result == (ProbeRun {
                mode,
                pages: (DATA_SIZE / page_size) as u64,
                phase: ProbePhase::Baseline,
            }),
    {
        ProbeRun { mode, pages: DATA_SIZE / page_size, phase: ProbePhase::Baseline }
    }

    /// The action whose answer the run waits for.
    pub fn action(&self) -> (result: ProbeAction)
        ensures
            result == match self.phase {
                ProbePhase::Baseline | ProbePhase::Touched { .. } | ProbePhase::Retouched {
                    ..
                } => ProbeAction::Sample,
                ProbePhase::FirstRun { .. } => ProbeAction::Run { seed: FIRST_SEED },
                ProbePhase::FirstPages { .. } => ProbeAction::ComparePages { seed: FIRST_SEED },
                ProbePhase::Release { .. } => ProbeAction::ReleaseData,
                ProbePhase::Settled { .. } => ProbeAction::SettleAndSample,
                ProbePhase::Restore { .. } => ProbeAction::RestoreData,
                ProbePhase::SecondRun { .. } => ProbeAction::Run { seed: SECOND_SEED },
                ProbePhase::SecondPages { .. } => ProbeAction::ComparePages { seed: SECOND_SEED },
                ProbePhase::Finished { report } => ProbeAction::Report { report },
            },
    {
        match self.phase {
            ProbePhase::Baseline | ProbePhase::Touched { .. } | ProbePhase::Retouched { .. } =>
                ProbeAction::Sample,
            ProbePhase::FirstRun { .. } => ProbeAction::Run { seed: FIRST_SEED },
            ProbePhase::FirstPages { .. } => ProbeAction::ComparePages { seed: FIRST_SEED },
            ProbePhase::Release { .. } => ProbeAction::ReleaseData,
            ProbePhase::Settled { .. } => ProbeAction::SettleAndSample,
            ProbePhase::Restore { .. } => ProbeAction::RestoreData,
            ProbePhase::SecondRun { .. } => ProbeAction::Run { seed: SECOND_SEED },
            ProbePhase::SecondPages { .. } => ProbeAction::ComparePages { seed: SECOND_SEED },
            ProbePhase::Finished { report } => ProbeAction::Report { report },
        }
    }

    /// Takes the answer to the pending action, which came this long after the start of the
    /// probe, and moves on. An answer to something else changes nothing.
    pub fn step(&mut self, reply: ProbeReply, elapsed: u64)
        ensures
            *final(self) == (ProbeRun {
                phase: old(self).next_phase(reply, elapsed),
                ..*old(self)
            }),
    {
        let none = MemorySample::default();
        match (self.phase, reply) {
            (ProbePhase::Baseline, ProbeReply::Sample(Ok(baseline))) => {
                self.phase = ProbePhase::FirstRun { baseline };
            },
            (ProbePhase::Baseline, ProbeReply::Sample(Err(error))) => {
                self.phase = ProbePhase::Finished {
                    report: inconclusive_report(elapsed, ProbeDetail::Sample(error)),
                };
            },
            (ProbePhase::FirstRun { baseline }, ProbeReply::Run(Ok(got))) => {
                let expected: u64 = expected_checksum(FIRST_SEED, self.pages);
                if got == expected {
                    self.phase = ProbePhase::FirstPages { baseline };
                } else {
                    self.fail(
                        elapsed,
                        baseline,
                        none,
                        none,
                        ProbeDetail::FirstChecksum { expected, got },
                    );
                }
            },
            (ProbePhase::FirstRun { baseline }, ProbeReply::Run(Err(error))) => {
                self.fail(elapsed, baseline, none, none, ProbeDetail::Touch(error));
            },
            (ProbePhase::FirstPages { baseline }, ProbeReply::Pages(visible)) => {
                if visible {
                    self.phase = ProbePhase::Touched { baseline };
                } else {
                    self.fail(elapsed, baseline, none, none, ProbeDetail::FirstTouchInvisible);
                }
            },
            (ProbePhase::Touched { baseline }, ProbeReply::Sample(Ok(touched))) => {
                let charged: u64 = touched.phys_footprint.saturating_sub(baseline.phys_footprint);
                if !at_least_percent(charged, DATA_SIZE, REQUIRED_PERCENT) {
                    self.give_up(
                        elapsed,
                        baseline,
                        touched,
                        none,
                        ProbeDetail::LowRise { charged },
                    );
                } else if self.mode == ProbeMode::Release {
                    self.phase = ProbePhase::Release { baseline, touched };
                } else {
                    self.phase = ProbePhase::Settled { baseline, touched };
                }
            },
            (ProbePhase::Touched { baseline }, ProbeReply::Sample(Err(error))) => {
                self.give_up(elapsed, baseline, none, none, ProbeDetail::Sample(error));
            },
            (ProbePhase::Release { baseline, touched }, ProbeReply::Operation(None)) => {
                self.phase = ProbePhase::Settled { baseline, touched };
            },
            (ProbePhase::Release { baseline, touched }, ProbeReply::Operation(Some(error))) => {
                self.fail(elapsed, baseline, touched, none, ProbeDetail::Operation(error));
            },
            (ProbePhase::Settled { baseline, touched }, ProbeReply::Sample(Ok(released))) => {
                self.judge_release(elapsed, baseline, touched, released);
            },
            (ProbePhase::Settled { baseline, touched }, ProbeReply::Sample(Err(error))) => {
                self.give_up(elapsed, baseline, touched, none, ProbeDetail::Sample(error));
            },
            (ProbePhase::Restore { baseline, touched, released }, ProbeReply::Operation(None)) => {
                self.phase = ProbePhase::SecondRun { baseline, touched, released };
            },
            (
                ProbePhase::Restore { baseline, touched, released },
                ProbeReply::Operation(Some(error)),
            ) => {
                self.fail(elapsed, baseline, touched, released, ProbeDetail::Operation(error));
            },
            (ProbePhase::SecondRun { baseline, touched, released }, ProbeReply::Run(Ok(got))) => {
                let expected: u64 = expected_checksum(SECOND_SEED, self.pages);
                if got == expected {
                    self.phase = ProbePhase::SecondPages { baseline, touched, released };
                } else {
                    self.fail(
                        elapsed,
                        baseline,
                        touched,
                        released,
                        ProbeDetail::SecondChecksum { expected, got },
                    );
                }
            },
            (ProbePhase::SecondRun { baseline, touched, released }, ProbeReply::Run(Err(error))) => {
                self.fail(elapsed, baseline, touched, released, ProbeDetail::Touch(error));
            },
            (
                ProbePhase::SecondPages { baseline, touched, released },
                ProbeReply::Pages(visible),
            ) => {
                if visible {
                    self.phase = ProbePhase::Retouched { baseline, touched, released };
                } else {
                    self.fail(
                        elapsed,
                        baseline,
                        touched,
                        released,
                        ProbeDetail::SecondTouchInvisible,
                    );
                }
            },
            (
                ProbePhase::Retouched { baseline, touched, released },
                ProbeReply::Sample(Ok(retouched)),
            ) => {
                let charged: u64 = touched.phys_footprint.saturating_sub(baseline.phys_footprint);
                let dropped: u64 = touched.phys_footprint.saturating_sub(released.phys_footprint);
                let recharged: u64 = retouched.phys_footprint.saturating_sub(
                    released.phys_footprint,
                );
                let qualification = if at_least_percent(recharged, DATA_SIZE, REQUIRED_PERCENT) {
                    ReclaimQualification::Passed
                } else {
                    ReclaimQualification::Failed
                };
                self.phase = ProbePhase::Finished {
                    report: report_with_samples(
                        qualification,
                        elapsed,
                        baseline,
                        touched,
                        released,
                        Some(retouched),
                        ProbeDetail::Measured { charged, dropped, recharged },
                    ),
                };
            },
            (
                ProbePhase::Retouched { baseline, touched, released },
                ProbeReply::Sample(Err(error)),
            ) => {
                self.give_up(elapsed, baseline, touched, released, ProbeDetail::Sample(error));
            },
            _ => {},
        }
    }

    fn fail(
        &mut self,
        elapsed: u64,
        baseline: MemorySample,
        touched: MemorySample,
        released: MemorySample,
        detail: ProbeDetail,
    )
        ensures
            *final(self) == (ProbeRun {
                phase: finished(
                    ReclaimQualification::Failed,
                    elapsed,
                    baseline,
                    touched,
                    released,
                    None,
                    detail,
                ),
                ..*old(self)
            }),
    {
        self.phase = ProbePhase::Finished {
            report: report_with_samples(
                ReclaimQualification::Failed,
                elapsed,
                baseline,
                touched,
                released,
                None,
                detail,
            ),
        };
    }

    fn give_up(
        &mut self,
        elapsed: u64,
        baseline: MemorySample,
        touched: MemorySample,
        released: MemorySample,
        detail: ProbeDetail,
    )
        ensures
            *final(self) == (ProbeRun {
                phase: finished(
                    ReclaimQualification::Inconclusive,
                    elapsed,
                    baseline,
                    touched,
                    released,
                    None,
                    detail,
                ),
                ..*old(self)
            }),
    {
        self.phase = ProbePhase::Finished {
            report: report_with_samples(
                ReclaimQualification::Inconclusive,
                elapsed,
                baseline,
                touched,
                released,
                None,
                detail,
            ),
        };
    }

    /// Judges the footprint after the release, or after the time in which none was made.
    fn judge_release(
        &mut self,
        elapsed: u64,
        baseline: MemorySample,
        touched: MemorySample,
        released: MemorySample,
    )
        requires
            old(self).phase == (ProbePhase::Settled { baseline, touched }),
        ensures
            *final(self) == (ProbeRun {
                phase: old(self).next_phase(ProbeReply::Sample(Ok(released)), elapsed),
                ..*old(self)
            }),
    {
        let charged: u64 = touched.phys_footprint.saturating_sub(baseline.phys_footprint);
        let dropped: u64 = touched.phys_footprint.saturating_sub(released.phys_footprint);
        if self.mode == ProbeMode::NegativeControl {
            let qualification = if at_most_percent(dropped, charged, ABSENT_DROP_PERCENT) {
                ReclaimQualification::Passed
            } else {
                ReclaimQualification::Failed
            };
            self.phase = ProbePhase::Finished {
                report: report_with_samples(
                    qualification,
                    elapsed,
                    baseline,
                    touched,
                    released,
                    None,
                    ProbeDetail::NegativeControl { charged, dropped },
                ),
            };
        } else if !at_least_percent(dropped, charged, REQUIRED_PERCENT) {
            self.fail(
                elapsed,
                baseline,
                touched,
                released,
                ProbeDetail::LowDrop { dropped, charged },
            );
        } else {
            self.phase = ProbePhase::Restore { baseline, touched, released };
        }
    }

    /// What holds of every run that began with a baseline: a phase is reached only past
    /// the thresholds that come before it.
    pub open spec fn sound(self) -> bool {
        match self.phase {
            ProbePhase::Release { baseline, touched } => self.mode == ProbeMode::Release
                && at_least_percent_spec(
                charged_spec(baseline, touched),
                DATA_SIZE,
                REQUIRED_PERCENT,
            ),
            ProbePhase::Settled { baseline, touched } => at_least_percent_spec(
                charged_spec(baseline, touched),
                DATA_SIZE,
                REQUIRED_PERCENT,
            ),
            ProbePhase::Restore { baseline, touched, released } | ProbePhase::SecondRun {
                baseline,
                touched,
                released,
            } | ProbePhase::SecondPages { baseline, touched, released } | ProbePhase::Retouched {
                baseline,
                touched,
                released,
            } => {
                &&& self.mode == ProbeMode::Release
                &&& at_least_percent_spec(
                    charged_spec(baseline, touched),
                    DATA_SIZE,
                    REQUIRED_PERCENT,
                )
                &&& at_least_percent_spec(
                    dropped_spec(touched, released),
                    charged_spec(baseline, touched),
                    REQUIRED_PERCENT,
                )
            },
            ProbePhase::Finished { report } => {
                &&& report.qualification == ReclaimQualification::Passed && self.mode
                    == ProbeMode::Release ==> {
                    &&& report.retouched matches Some(retouched)
                    &&& at_least_percent_spec(
                        charged_spec(report.baseline, report.touched),
                        DATA_SIZE,
                        REQUIRED_PERCENT,
                    )
                    &&& at_least_percent_spec(
                        dropped_spec(report.touched, report.released),
                        charged_spec(report.baseline, report.touched),
                        REQUIRED_PERCENT,
                    )
                    &&& at_least_percent_spec(
                        dropped_spec(retouched, report.released),
                        DATA_SIZE,
                        REQUIRED_PERCENT,
                    )
                }
                &&& report.qualification == ReclaimQualification::Passed && self.mode
                    == ProbeMode::NegativeControl ==> {
                    &&& at_least_percent_spec(
                        charged_spec(report.baseline, report.touched),
                        DATA_SIZE,
                        REQUIRED_PERCENT,
                    )
                    &&& dropped_spec(report.touched, report.released) * 100 <= charged_spec(
                        report.baseline,
                        report.touched,
                    ) * ABSENT_DROP_PERCENT
                }
            },
            _ => true,
        }
    }
}

impl ProbeRun {
    /// The run after a sequence of answers, each with the time at which it came.
    pub open spec fn after(self, replies: Seq<ProbeReply>, times: Seq<u64>) -> ProbeRun
        decreases replies.len(),
    {
        if replies.len() == 0 {
            self
        } else {
            let before = self.after(replies.drop_last(), times);
            ProbeRun {
                phase: before.next_phase(replies.last(), times[replies.len() - 1]),
                ..before
            }
        }
    }

    /// The first touch was seen to reach memory.
    pub open spec fn first_touch_seen(self, replies: Seq<ProbeReply>) -> bool {
        &&& replies.contains(
            ProbeReply::Run(Ok(touch_sum(FIRST_SEED, self.pages as nat))),
        )
        &&& replies.contains(ProbeReply::Pages(true))
    }

    /// The data was released and restored, and touched again.
    pub open spec fn second_touch_seen(self, replies: Seq<ProbeReply>) -> bool {
        &&& replies.contains(ProbeReply::Operation(None))
        &&& replies.contains(
            ProbeReply::Run(Ok(touch_sum(SECOND_SEED, self.pages as nat))),
        )
    }

    /// What the answers must have been for the run to stand where it does.
    spec fn founded(self, replies: Seq<ProbeReply>) -> bool {
        match self.phase {
            ProbePhase::Baseline | ProbePhase::FirstRun { .. } => true,
            ProbePhase::FirstPages { .. } => replies.contains(
                ProbeReply::Run(Ok(touch_sum(FIRST_SEED, self.pages as nat))),
            ),
            ProbePhase::Touched { .. } | ProbePhase::Release { .. } | ProbePhase::Settled {
                ..
            } => self.first_touch_seen(replies),
            ProbePhase::Restore { .. } => self.first_touch_seen(replies),
            ProbePhase::SecondRun { .. } => self.first_touch_seen(replies) && replies.contains(
                ProbeReply::Operation(None),
            ),
            ProbePhase::SecondPages { .. } | ProbePhase::Retouched { .. } => self.first_touch_seen(
                replies,
            ) && self.second_touch_seen(replies),
            ProbePhase::Finished { report } => report.qualification == ReclaimQualification::Passed
                ==> self.first_touch_seen(replies) && (self.mode == ProbeMode::Release
                ==> self.second_touch_seen(replies)),
        }
    }
}

proof fn lemma_runs_are_founded(
    mode: ProbeMode,
    pages: u64,
    replies: Seq<ProbeReply>,
    times: Seq<u64>,
)
    ensures
        ({
            let run = (ProbeRun { mode, pages, phase: ProbePhase::Baseline }).after(
                replies,
                times,
            );
            run.mode == mode && run.pages == pages && run.sound() && run.founded(replies)
        }),
    decreases replies.len(),
{
    if replies.len() > 0 {
        let earlier = replies.drop_last();
        lemma_runs_are_founded(mode, pages, earlier, times);
        assert forall|reply: ProbeReply| earlier.contains(reply) implies replies.contains(reply) by {
            let i = choose|i: int| 0 <= i < earlier.len() && earlier[i] == reply;
            assert(replies[i] == reply);
        }
        assert(replies.contains(replies.last())) by {
            assert(replies[replies.len() - 1] == replies.last());
        }
    }
}

/// Whatever the answers are, a run passes only past every threshold: the guest's touch was seen
/// and charged to the host; where nothing was released, nothing dropped; and where the memory was
/// released, the charge dropped, and the second touch was seen and charged again.
pub proof fn law_pass_needs_every_threshold(
    mode: ProbeMode,
    pages: u64,
    replies: Seq<ProbeReply>,
    times: Seq<u64>,
    report: ProbeReport,
)
    requires
        (ProbeRun { mode, pages, phase: ProbePhase::Baseline }).after(replies, times).phase == (
        ProbePhase::Finished { report }),
        report.qualification == ReclaimQualification::Passed,
    ensures
        (ProbeRun { mode, pages, phase: ProbePhase::Baseline }).first_touch_seen(replies),
        at_least_percent_spec(
            charged_spec(report.baseline, report.touched),
            DATA_SIZE,
            REQUIRED_PERCENT,
        ),
        mode == ProbeMode::NegativeControl ==> dropped_spec(report.touched, report.released) * 100
            <= charged_spec(report.baseline, report.touched) * ABSENT_DROP_PERCENT,
        mode == ProbeMode::Release ==> {
            &&& (ProbeRun { mode, pages, phase: ProbePhase::Baseline }).second_touch_seen(replies)
            &&& at_least_percent_spec(
                dropped_spec(report.touched, report.released),
                charged_spec(report.baseline, report.touched),
                REQUIRED_PERCENT,
            )
            &&& report.retouched matches Some(retouched)
            &&& at_least_percent_spec(
                dropped_spec(retouched, report.released),
                DATA_SIZE,
                REQUIRED_PERCENT,
            )
        },
{
    lemma_runs_are_founded(mode, pages, replies, times);
}

} // verus!
