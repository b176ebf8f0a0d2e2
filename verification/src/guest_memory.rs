//! Guest RAM ranges, their host translation, and the errors of reclaim bookkeeping.
use vstd::arithmetic::power2::{lemma_pow2_unfold, lemma2_to64, lemma2_to64_rest, pow2};
use vstd::prelude::*;

verus! {

/// Whether `x` is one of the powers of two that fit a `u64`.
pub open spec fn is_power_of_two_spec(x: u64) -> bool {
    exists|k: nat| k < 64 && x == #[trigger] pow2(k)
}

pub proof fn lemma_power_of_two_positive(x: u64)
    requires
        is_power_of_two_spec(x),
    ensures
        x >= 1,
{
    let k = choose|k: nat| k < 64 && x == #[trigger] pow2(k);
    vstd::arithmetic::power2::lemma_pow2_pos(k);
}

/// Decides whether `x` is a power of two.
pub fn is_power_of_two(x: u64) -> (result: bool)
    ensures
        result == is_power_of_two_spec(x),
{
    let mut power: u64 = 1;
    let mut exponent: u32 = 0;
    proof {
        lemma2_to64();
    }
    while exponent < 63
        invariant
            exponent <= 63,
            power == pow2(exponent as nat),
            power <= 0x8000_0000_0000_0000,
            exponent < 63 ==> power < 0x8000_0000_0000_0000,
            forall|k: nat| k < exponent ==> x != #[trigger] pow2(k),
        decreases 63 - exponent,
    {
        if x == power {
            return true;
        }
        proof {
            lemma_pow2_unfold((exponent + 1) as nat);
            lemma2_to64_rest();
            if exponent + 1 < 63 {
                vstd::arithmetic::power2::lemma_pow2_strictly_increases((exponent + 1) as nat, 63);
            }
        }
        power = power * 2;
        exponent = exponent + 1;
    }
    x == power
}

/// The greatest multiple of `alignment` that is not above `x`.
pub open spec fn align_down_spec(x: int, alignment: int) -> int {
    x - x % alignment
}

/// The least multiple of `alignment` that is not below `x`.
pub open spec fn align_up_spec(x: int, alignment: int) -> int {
    align_down_spec(x + alignment - 1, alignment)
}

/// Everything that can be wrong with a range, a region or a transition of guest RAM.
#[derive(Clone, Copy, Debug, PartialEq, Eq, Structural)]
pub enum ReclaimError {
    ActiveLease,
    AddressOverflow,
    Busy,
    EmptyRange,
    GenerationExhausted,
    InvalidAlignment,
    InvalidPermissions,
    InvalidTransition,
    LeaseExhausted,
    MetadataLimit,
    MisalignedHostTranslation,
    NotRam,
    OverlappingRegion,
    Released,
    TokenExhausted,
    UnknownLease,
}

impl ReclaimError {
    /// The text that describes the error.
    pub open spec fn text(self) -> Seq<char> {
        match self {
            ReclaimError::ActiveLease => "range has an active host-access lease"@,
            ReclaimError::AddressOverflow => "address range overflowed"@,
            ReclaimError::Busy => "range has a pending mapping transition"@,
            ReclaimError::EmptyRange => "range is empty"@,
            ReclaimError::GenerationExhausted => "mapping generation space is exhausted"@,
            ReclaimError::InvalidAlignment => "alignment is not a nonzero power of two"@,
            ReclaimError::InvalidPermissions => "RAM permissions are invalid"@,
            ReclaimError::InvalidTransition => "mapping transition token is stale or invalid"@,
            ReclaimError::LeaseExhausted => "host-access lease space is exhausted"@,
            ReclaimError::MetadataLimit => "RAM-granule metadata bound was exceeded"@,
            ReclaimError::MisalignedHostTranslation => "guest and host RAM alignment do not match"@,
            ReclaimError::NotRam => "range is not wholly contained in registered RAM"@,
            ReclaimError::OverlappingRegion =>
                "RAM region overlaps an existing guest or host mapping"@,
            ReclaimError::Released => "range intersects released RAM and must be restored"@,
            ReclaimError::TokenExhausted => "transition token space is exhausted"@,
            ReclaimError::UnknownLease => "host-access lease does not exist"@,
        }
    }

    /// The message shown for the error.
    pub fn message(self) -> (result: &'static str)
        ensures
            result@ == self.text(),
    {
        match self {
            ReclaimError::ActiveLease => "range has an active host-access lease",
            ReclaimError::AddressOverflow => "address range overflowed",
            ReclaimError::Busy => "range has a pending mapping transition",
            ReclaimError::EmptyRange => "range is empty",
            ReclaimError::GenerationExhausted => "mapping generation space is exhausted",
            ReclaimError::InvalidAlignment => "alignment is not a nonzero power of two",
            ReclaimError::InvalidPermissions => "RAM permissions are invalid",
            ReclaimError::InvalidTransition => "mapping transition token is stale or invalid",
            ReclaimError::LeaseExhausted => "host-access lease space is exhausted",
            ReclaimError::MetadataLimit => "RAM-granule metadata bound was exceeded",
            ReclaimError::MisalignedHostTranslation => "guest and host RAM alignment do not match",
            ReclaimError::NotRam => "range is not wholly contained in registered RAM",
            ReclaimError::OverlappingRegion =>
                "RAM region overlaps an existing guest or host mapping",
            ReclaimError::Released => "range intersects released RAM and must be restored",
            ReclaimError::TokenExhausted => "transition token space is exhausted",
            ReclaimError::UnknownLease => "host-access lease does not exist",
        }
    }
}

/// Keeps a checked guest RAM range mapped and host-accounted while userspace can
/// dereference it.
pub trait HostMemoryLease {

}

/// Grants host access to guest RAM. An implementation restores the range before it
/// returns a lease.
pub trait HostMemoryAccess {
    type Lease: HostMemoryLease;

    /// Makes `range` accessible for as long as the returned lease lives.
    fn access(&self, range: GuestRange) -> Result<Self::Lease, HostMemoryAccessError>;

    /// Whether guest RAM may be handed to another process or library for good.
    fn allows_external_mapping(&self) -> bool;
}

/// Why host access to a range was refused.
#[derive(Debug, PartialEq, Eq)]
pub struct HostMemoryAccessError(pub String);

impl HostMemoryAccessError {
    pub fn new(message: String) -> (result: Self)
        ensures
            result.0 == message,
    {
        HostMemoryAccessError(message)
    }

    /// The message that the error was made with.
    pub fn message(&self) -> (result: &str)
        ensures
            result@ == self.0@,
    {
        self.0.as_str()
    }
}

/// What the guest may do with a stretch of RAM, as a set of three bits.
#[derive(Clone, Copy, Debug, PartialEq, Eq, Structural)]
pub struct RamPermissions(pub u8);

impl RamPermissions {
    /// Permission to read.
    pub fn read() -> (result: RamPermissions)
        ensures
            result == RamPermissions(1),
    {
        RamPermissions(0b001)
    }

    /// Permission to write.
    pub fn write() -> (result: RamPermissions)
        ensures
            result == RamPermissions(2),
    {
        RamPermissions(0b010)
    }

    /// Permission to execute.
    pub fn execute() -> (result: RamPermissions)
        ensures
            result == RamPermissions(4),
    {
        RamPermissions(0b100)
    }

    /// All three permissions.
    pub fn read_write_execute() -> (result: RamPermissions)
        ensures
            result == RamPermissions(7),
    {
        RamPermissions(0b111)
    }

    /// At least one permission, and none but read, write and execute.
    pub open spec fn valid(self) -> bool {
        1 <= self.0 <= 7
    }

    pub fn bits(self) -> (result: u8)
        ensures
            result == self.0,
    {
        self.0
    }

    pub fn is_valid(self) -> (result: bool)
        ensures
            result == self.valid(),
    {
        let bits: u8 = self.0;
        assert(bits & !0b111u8 == 0 <==> bits <= 7) by (bit_vector);
        self.0 != 0 && self.0 & !0b111u8 == 0
    }
}

/// A range of guest physical addresses, `start` included and `end` not.
#[derive(Clone, Copy, Debug, PartialEq, Eq, Structural)]
pub struct GuestRange {
    pub start: u64,
    pub end: u64,
}

impl GuestRange {
    /// The range holds at least one address.
    pub open spec fn valid(self) -> bool {
        self.start < self.end
    }

    pub open spec fn has(self, address: int) -> bool {
        self.start <= address < self.end
    }

    /// Number of addresses in the range.
    pub open spec fn size(self) -> int {
        self.end - self.start
    }

    pub open spec fn meets(self, other: GuestRange) -> bool {
        self.start < other.end && other.start < self.end
    }

    pub open spec fn covers(self, other: GuestRange) -> bool {
        self.start <= other.start && other.end <= self.end
    }

    /// What `new` makes of its arguments.
    pub open spec fn new_spec(start: u64, len: u64) -> Result<GuestRange, ReclaimError> {
        if len == 0 {
            Err(ReclaimError::EmptyRange)
        } else if start + len > u64::MAX {
            Err(ReclaimError::AddressOverflow)
        } else {
            Ok(GuestRange { start, end: (start + len) as u64 })
        }
    }

    pub fn new(start: u64, len: u64) -> (result: Result<GuestRange, ReclaimError>)
        ensures
            result == GuestRange::new_spec(start, len),
            result matches Ok(range) ==> range.valid(),
    {
        if len == 0 {
            return Err(ReclaimError::EmptyRange);
        }
        match start.checked_add(len) {
            Some(end) => Ok(GuestRange { start, end }),
            None => Err(ReclaimError::AddressOverflow),
        }
    }

    pub fn start(self) -> (result: u64)
        ensures
            result == self.start,
    {
        self.start
    }

    pub fn end(self) -> (result: u64)
        ensures
            result == self.end,
    {
        self.end
    }

    pub fn byte_len(self) -> (result: u64)
        requires
            self.valid(),
        ensures
            result == self.size(),
    {
        self.end - self.start
    }

    pub fn overlaps(self, other: GuestRange) -> (result: bool)
        ensures
            result == self.meets(other),
    {
        self.start < other.end && other.start < self.end
    }

    pub fn contains(self, other: GuestRange) -> (result: bool)
        ensures
            result == self.covers(other),
    {
        self.start <= other.start && other.end <= self.end
    }
}

/// Two ranges overlap exactly where some address lies in both, and one contains the
/// other exactly where it holds every address of it.
pub proof fn law_ranges_are_address_sets(first: GuestRange, second: GuestRange)
    requires
        first.valid(),
        second.valid(),
    ensures
        first.meets(second) <==> exists|a: int| #[trigger] first.has(a) && second.has(a),
        first.covers(second) <==> forall|a: int| #[trigger] second.has(a) ==> first.has(a),
{
    if first.meets(second) {
        let a: int = if first.start < second.start {
            second.start as int
        } else {
            first.start as int
        };
        assert(first.has(a) && second.has(a));
    }
    if forall|a: int| #[trigger] second.has(a) ==> first.has(a) {
        assert(second.has(second.start as int));
        assert(second.has(second.end - 1));
    }
}

/// A guest range together with the host addresses that back it.
#[derive(Clone, Copy, Debug, PartialEq, Eq, Structural)]
pub struct HostRange {
    pub guest: GuestRange,
    pub host_start: u64,
    pub permissions: RamPermissions,
}

impl HostRange {
    pub open spec fn valid(self) -> bool {
        &&& self.guest.valid()
        &&& self.permissions.valid()
        &&& self.host_start + self.guest.size() <= u64::MAX
    }

    /// The host address that backs a guest address of the range.
    pub open spec fn host_of(self, address: int) -> int {
        self.host_start + (address - self.guest.start)
    }

    pub fn guest_range(self) -> (result: GuestRange)
        ensures
            result == self.guest,
    {
        self.guest
    }

    pub fn host_start(self) -> (result: u64)
        ensures
            result == self.host_start,
    {
        self.host_start
    }

    pub fn byte_len(self) -> (result: u64)
        requires
            self.guest.valid(),
        ensures
            result == self.guest.size(),
    {
        self.guest.byte_len()
    }

    pub fn permissions(self) -> (result: RamPermissions)
        ensures
            result == self.permissions,
    {
        self.permissions
    }
}

/// A contiguous stretch of guest RAM backed by contiguous host memory.
#[derive(Clone, Copy, Debug, PartialEq, Eq, Structural)]
pub struct RamRegion {
    pub range: HostRange,
}

impl RamRegion {
    pub open spec fn valid(self) -> bool {
        self.range.valid()
    }

    /// What `new` makes of its arguments.
    pub open spec fn new_spec(
        guest_start: u64,
        host_start: u64,
        len: u64,
        permissions: RamPermissions,
    ) -> Result<RamRegion, ReclaimError> {
        if !permissions.valid() {
            Err(ReclaimError::InvalidPermissions)
        } else {
            match GuestRange::new_spec(guest_start, len) {
                Err(error) => Err(error),
                Ok(guest) => if host_start + len > u64::MAX {
                    Err(ReclaimError::AddressOverflow)
                } else {
                    Ok(RamRegion { range: HostRange { guest, host_start, permissions } })
                },
            }
        }
    }

    pub fn new(guest_start: u64, host_start: u64, len: u64, permissions: RamPermissions) -> (result:
        Result<RamRegion, ReclaimError>)
        ensures
            result == RamRegion::new_spec(guest_start, host_start, len, permissions),
            result matches Ok(region) ==> region.valid(),
    {
        if !permissions.is_valid() {
            return Err(ReclaimError::InvalidPermissions);
        }
        let guest = match GuestRange::new(guest_start, len) {
            Ok(guest) => guest,
            Err(error) => return Err(error),
        };
        if host_start.checked_add(len).is_none() {
            return Err(ReclaimError::AddressOverflow);
        }
        Ok(RamRegion { range: HostRange { guest, host_start, permissions } })
    }

    pub fn host_range(self) -> (result: HostRange)
        ensures
            result == self.range,
    {
        self.range
    }

    pub fn contains_address(self, address: u64) -> (result: bool)
        ensures
            result == self.range.guest.has(address as int),
    {
        self.range.guest.start <= address && address < self.range.guest.end
    }

    /// The largest aligned part of `requested`, or why there is no translation for it.
    pub open spec fn aligned_subrange_spec(self, requested: GuestRange, alignment: u64) -> Result<
        Option<HostRange>,
        ReclaimError,
    > {
        let start = align_up_spec(requested.start as int, alignment as int);
        let end = align_down_spec(requested.end as int, alignment as int);
        if !is_power_of_two_spec(alignment) {
            Err(ReclaimError::InvalidAlignment)
        } else if !self.range.guest.covers(requested) {
            Err(ReclaimError::NotRam)
        } else if requested.start + alignment - 1 > u64::MAX {
            Err(ReclaimError::AddressOverflow)
        } else if start >= end {
            Ok(None)
        } else if self.range.host_of(start) % (alignment as int) != 0 {
            Err(ReclaimError::MisalignedHostTranslation)
        } else {
            Ok(
                Some(
                    HostRange {
                        guest: GuestRange { start: start as u64, end: end as u64 },
                        host_start: self.range.host_of(start) as u64,
                        permissions: self.range.permissions,
                    },
                ),
            )
        }
    }

    /// Shrinks `requested` inward to `alignment` and translates it to host addresses.
    pub fn aligned_subrange(self, requested: GuestRange, alignment: u64) -> (result: Result<
        Option<HostRange>,
        ReclaimError,
    >)
        requires
            self.valid(),
            requested.valid(),
        ensures
            result == self.aligned_subrange_spec(requested, alignment),
            result matches Ok(Some(range)) ==> range.valid() && requested.covers(range.guest)
                && self.range.guest.covers(range.guest),
    {
        if !is_power_of_two(alignment) {
            return Err(ReclaimError::InvalidAlignment);
        }
        proof {
            lemma_power_of_two_positive(alignment);
        }
        if !self.range.guest.contains(requested) {
            return Err(ReclaimError::NotRam);
        }
        let raised: u64 = match requested.start.checked_add(alignment - 1) {
            Some(raised) => raised,
            None => return Err(ReclaimError::AddressOverflow),
        };
        proof {
            vstd::arithmetic::div_mod::lemma_mod_decreases(raised as nat, alignment as nat);
            vstd::arithmetic::div_mod::lemma_mod_decreases(requested.end as nat, alignment as nat);
        }
        let aligned_start: u64 = raised - raised % alignment;
        let aligned_end: u64 = requested.end - requested.end % alignment;
        if aligned_start >= aligned_end {
            return Ok(None);
        }
        proof {
            assert(raised % alignment <= alignment - 1);
        }
        let offset: u64 = aligned_start - self.range.guest.start;
        let host_start: u64 = match self.range.host_start.checked_add(offset) {
            Some(host_start) => host_start,
            None => return Err(ReclaimError::AddressOverflow),
        };
        if host_start % alignment != 0 {
            return Err(ReclaimError::MisalignedHostTranslation);
        }
        Ok(
            Some(
                HostRange {
                    guest: GuestRange { start: aligned_start, end: aligned_end },
                    host_start,
                    permissions: self.range.permissions,
                },
            ),
        )
    }
}

} // verus!
