//! Interrupts and trapped system registers of the vCPUs.
use std::collections::VecDeque;
use vstd::prelude::*;

verus! {

/// The interrupt number that says that nothing is pending.
pub const GIC_INTID_SPURIOUS: u32 = 1023;

/// The interrupt number of the virtual timer.
pub const VTIMER_IRQ: u32 = 27;

/// Total store ordering is switched on in the auxiliary control register.
pub const ACTLR_EL1_ENTSO: u64 = 0x2;

/// Total store ordering is there, in the auxiliary identification register.
pub const AIDR_EL1_TSO: u64 = 0x200;

pub const APPLE_CPU_IMPLEMENTOR: u64 = 0x61;

/// Range selector, affinity three, sixteen interrupt number bits and five priority bits.
pub const ICC_CTLR_VALUE: u64 = 0x4_8c00;

#[derive(Clone, Copy, Debug, PartialEq, Eq, Structural)]
pub enum GuestTranslationOrderingBlocker {
    HostActlrUnavailable,
    GuestAidrUnavailable { midr: u64 },
}

/// Why translation ordering is not supported on a vCPU.
#[derive(Clone, Copy, Debug, PartialEq, Eq, Structural)]
pub enum TranslationOrderingUnsupported {
    MidrRead { status: i32 },
}

/// What a vCPU's probe for translation ordering found.
#[derive(Clone, Copy, Debug, PartialEq, Eq, Structural)]
pub enum TranslationOrderingProbe {
    Supported { midr: u64 },
    Unsupported(TranslationOrderingUnsupported),
}

/// The implementor field of a main identification register.
pub open spec fn implementor(midr: u64) -> u64 {
    midr >> 24 & 0xff
}

/// All of `probes` support translation ordering with this Apple processor.
pub open spec fn all_report(probes: Seq<TranslationOrderingProbe>, midr: u64) -> bool {
    &&& implementor(midr) == APPLE_CPU_IMPLEMENTOR
    &&& forall|i: int|
        0 <= i < probes.len() ==> #[trigger] probes[i] == (TranslationOrderingProbe::Supported {
            midr,
        })
}

/// The processor on which all vCPUs agree, if each has a probe, all support translation
/// ordering, and it is an Apple one.
pub fn translation_ordering_consensus(cpu_count: u64, probes: &Vec<TranslationOrderingProbe>) -> (result:
    Option<u64>)
    ensures
        result matches Some(midr) ==> probes@.len() == cpu_count && probes@.len() > 0 && all_report(
            probes@,
            midr,
        ),
        result is None ==> probes@.len() != cpu_count || probes@.len() == 0 || forall|midr: u64|
            !#[trigger] all_report(probes@, midr),
{
    if probes.len() as u64 != cpu_count {
        return None;
    }
    let mut midr: Option<u64> = None;
    let mut i: usize = 0;
    while i < probes.len()
        invariant
            i <= probes.len(),
            probes@.len() == cpu_count,
            midr is None ==> i == 0,
            midr matches Some(expected) ==> i > 0 && implementor(expected) == APPLE_CPU_IMPLEMENTOR
                && forall|k: int|
                0 <= k < i ==> #[trigger] probes@[k] == (TranslationOrderingProbe::Supported {
                    midr: expected,
                }),
        decreases probes.len() - i,
    {
        let current: u64 = match probes[i] {
            TranslationOrderingProbe::Supported { midr: current } => current,
            TranslationOrderingProbe::Unsupported(_) => {
                assert forall|m: u64| !#[trigger] all_report(probes@, m) by {
                    assert(probes@[i as int] is Unsupported);
                }
                return None;
            },
        };
        if current >> 24 & 0xff != APPLE_CPU_IMPLEMENTOR {
            assert forall|m: u64| !#[trigger] all_report(probes@, m) by {
                assert(probes@[i as int] == (TranslationOrderingProbe::Supported { midr: current }));
            }
            return None;
        }
        match midr {
            Some(expected) => {
                if expected != current {
                    assert forall|m: u64| !#[trigger] all_report(probes@, m) by {
                        assert(probes@[i as int] == (TranslationOrderingProbe::Supported {
                            midr: current,
                        }));
                        assert(probes@[0] == (TranslationOrderingProbe::Supported {
                            midr: expected,
                        }));
                    }
                    return None;
                }
            },
            None => {
                midr = Some(current);
            },
        }
        i = i + 1;
    }
    midr
}

#[derive(Clone, Copy, Debug, PartialEq, Eq, Structural)]
pub enum VcpuStatus {
    Running,
    Waiting,
}

/// How a vCPU learns of an interrupt that was made pending.
#[derive(Clone, Copy, Debug, PartialEq, Eq, Structural)]
pub enum IrqAction {
    /// Wake the vCPU, which waits for an event.
    Wake(u64),
    /// Make the running vCPU leave the guest.
    RequestExit(u64),
}

/// The interrupts of one vCPU.
#[derive(Debug)]
pub struct PerCPUInterruptControllerState {
    pub vcpuid: u64,
    pub status: VcpuStatus,
    pub pending_irqs: VecDeque<u32>,
    /// The vCPU has somebody to wake it.
    pub registered: bool,
}

impl PerCPUInterruptControllerState {
    /// Makes an interrupt pending; a waiting vCPU is running from then on.
    pub fn set_irq_common(&mut self, irq: u32) -> (result: IrqAction)
        requires
            old(self).status == VcpuStatus::Waiting ==> old(self).registered,
        ensures
            final(self).pending_irqs@ == old(self).pending_irqs@.push(irq),
            final(self).status == VcpuStatus::Running,
            final(self).vcpuid == old(self).vcpuid,
            final(self).registered == old(self).registered,
            result == match old(self).status {
                VcpuStatus::Waiting => IrqAction::Wake(old(self).vcpuid),
                VcpuStatus::Running => IrqAction::RequestExit(old(self).vcpuid),
            },
    {
        self.pending_irqs.push_back(irq);
        match self.status {
            VcpuStatus::Waiting => {
                self.status = VcpuStatus::Running;
                IrqAction::Wake(self.vcpuid)
            },
            VcpuStatus::Running => IrqAction::RequestExit(self.vcpuid),
        }
    }

    /// Whether the vCPU may wait: nothing is pending. If so, it counts as waiting.
    pub fn should_wait(&mut self) -> (result: bool)
        ensures
            result == (old(self).pending_irqs@.len() == 0),
            final(self).status == if result {
                VcpuStatus::Waiting
            } else {
                old(self).status
            },
            final(self).pending_irqs == old(self).pending_irqs,
            final(self).vcpuid == old(self).vcpuid,
            final(self).registered == old(self).registered,
    {
        if self.pending_irqs.len() == 0 {
            self.status = VcpuStatus::Waiting;
            return true;
        }
        false
    }

    pub fn has_pending_irq(&self) -> (result: bool)
        ensures
            result == (self.pending_irqs@.len() > 0),
    {
        self.pending_irqs.len() > 0
    }

    /// Takes the interrupt that has been pending longest.
    pub fn get_pending_irq(&mut self) -> (result: u32)
        ensures
            old(self).pending_irqs@.len() == 0 ==> result == GIC_INTID_SPURIOUS
                && final(self).pending_irqs@ == old(self).pending_irqs@,
            old(self).pending_irqs@.len() > 0 ==> result == old(self).pending_irqs@[0]
                && final(self).pending_irqs@ == old(self).pending_irqs@.skip(1),
            final(self).status == old(self).status,
            final(self).vcpuid == old(self).vcpuid,
            final(self).registered == old(self).registered,
    {
        match self.pending_irqs.pop_front() {
            Some(irq) => {
                assert(self.pending_irqs@ == old(self).pending_irqs@.skip(1));
                irq
            },
            None => GIC_INTID_SPURIOUS,
        }
    }
}

/// The registers whose accesses are trapped, and what they are to this module.
#[derive(Clone, Copy, Debug, PartialEq, Eq, Structural)]
pub enum SystemRegister {
    MidrEl1,
    AidrEl1,
    ActlrEl1,
    /// Another identification register, of the block that the feature registers are in.
    Identification,
    IccIar1El1,
    IccPmrEl1,
    IccCtlrEl1,
    IccSgi1rEl1,
    IccEoir1El1,
    IccIgrpen1El1,
    IccBpr1El1,
    IccAp1r0El1,
    LorcEl1,
    OslarEl1,
    OsdlrEl1,
    CnthctlEl2,
    MdccintEl1,
    Other,
}

/// A register that the hypervisor keeps.
#[derive(Clone, Copy, Debug, PartialEq, Eq, Structural)]
pub enum HostRegister {
    ActlrEl1,
    CnthctlEl2,
    MdccintEl1,
}

/// How a trapped read is answered.
#[derive(Clone, Copy, Debug, PartialEq, Eq, Structural)]
pub enum SysregRead {
    /// With this value, or not at all.
    Done(Option<u64>),
    /// From what the hypervisor holds.
    AskHost(HostRegister),
}

/// How a trapped write is handled.
#[derive(Debug)]
pub enum SysregWrite {
    /// It is handled, or not.
    Done(bool),
    /// Interrupts were made pending; these vCPUs have to learn of it.
    Interrupts(Vec<IrqAction>),
    /// Change total store ordering in the host register to this bit, and check it.
    UpdateActlr(u64),
    /// Write this value to the host register.
    SetHost(HostRegister, u64),
}

/// The value of a read that the hypervisor answered, if it did.
pub fn host_sysreg_value(register: HostRegister, value: Option<u64>) -> (result: Option<u64>)
    ensures
        result == match (register, value) {
            (HostRegister::ActlrEl1, Some(value)) => Some(value & ACTLR_EL1_ENTSO),
            (_, value) => value,
        },
{
    match value {
        None => None,
        Some(held) => match register {
            HostRegister::ActlrEl1 => Some(held & ACTLR_EL1_ENTSO),
            HostRegister::CnthctlEl2 => Some(held),
            HostRegister::MdccintEl1 => Some(held),
        },
    }
}

/// What to write to the host's auxiliary control register: all bits but the ordering bit
/// stay.
pub fn actlr_target(current: u64, value: u64) -> (result: u64)
    ensures
        result == (current & !ACTLR_EL1_ENTSO) | value,
{
    (current & !ACTLR_EL1_ENTSO) | value
}

/// A call of the hypervisor in an update of the auxiliary control register.
#[derive(Clone, Copy, Debug, PartialEq, Eq, Structural)]
pub enum ActlrCall {
    Read,
    Write(u64),
    /// Whether the update took effect.
    Finished(bool),
}

/// How a call went.
#[derive(Clone, Copy, Debug, PartialEq, Eq, Structural)]
pub enum ActlrReply {
    /// What was read, if it could be.
    Value(Option<u64>),
    Written(bool),
}

/// How far an update of the auxiliary control register is.
#[derive(Clone, Copy, Debug, PartialEq, Eq, Structural)]
pub enum ActlrUpdate {
    /// The bits that the guest wrote are known.
    Asked { value: u64 },
    /// What is written to the register is known.
    Computed { target: u64 },
    Written { target: u64 },
    Finished(bool),
}

impl ActlrUpdate {
    /// The next call.
    pub open spec fn call_spec(self) -> ActlrCall {
        match self {
            ActlrUpdate::Asked { .. } => ActlrCall::Read,
            ActlrUpdate::Computed { target } => ActlrCall::Write(target),
            ActlrUpdate::Written { .. } => ActlrCall::Read,
            ActlrUpdate::Finished(updated) => ActlrCall::Finished(updated),
        }
    }

    /// The reply is one to the next call.
    pub open spec fn answers(self, reply: ActlrReply) -> bool {
        match self.call_spec() {
            ActlrCall::Read => reply is Value,
            ActlrCall::Write(_) => reply is Written,
            ActlrCall::Finished(_) => false,
        }
    }

    /// The update behind a reply. It takes effect only if the register could be read and
    /// written, and reads back as it was written.
    pub open spec fn after(self, reply: ActlrReply) -> ActlrUpdate {
        match (self, reply) {
            (ActlrUpdate::Asked { value }, ActlrReply::Value(Some(held))) => ActlrUpdate::Computed {
                target: (held & !ACTLR_EL1_ENTSO) | value,
            },
            (ActlrUpdate::Asked { .. }, ActlrReply::Value(None)) => ActlrUpdate::Finished(false),
            (ActlrUpdate::Computed { target }, ActlrReply::Written(true)) => ActlrUpdate::Written {
                target,
            },
            (ActlrUpdate::Computed { .. }, ActlrReply::Written(false)) => ActlrUpdate::Finished(
                false,
            ),
            (ActlrUpdate::Written { target }, ActlrReply::Value(found)) => ActlrUpdate::Finished(
                found == Some(target),
            ),
            _ => self,
        }
    }

    /// The next call.
    pub fn call(&self) -> (call: ActlrCall)
        ensures
            call == self.call_spec(),
    {
        match *self {
            ActlrUpdate::Asked { .. } => ActlrCall::Read,
            ActlrUpdate::Computed { target } => ActlrCall::Write(target),
            ActlrUpdate::Written { .. } => ActlrCall::Read,
            ActlrUpdate::Finished(updated) => ActlrCall::Finished(updated),
        }
    }

    /// Takes up how a call went, and gives the next one.
    pub fn step(&mut self, reply: ActlrReply) -> (call: ActlrCall)
        requires
            old(self).answers(reply),
        ensures
            *final(self) == old(self).after(reply),
            call == final(self).call_spec(),
    {
        let next = match (*self, reply) {
            (ActlrUpdate::Asked { value }, ActlrReply::Value(Some(held))) => ActlrUpdate::Computed {
                target: actlr_target(held, value),
            },
            (ActlrUpdate::Asked { .. }, ActlrReply::Value(None)) => ActlrUpdate::Finished(false),
            (ActlrUpdate::Computed { target }, ActlrReply::Written(true)) => ActlrUpdate::Written {
                target,
            },
            (ActlrUpdate::Computed { .. }, ActlrReply::Written(false)) => ActlrUpdate::Finished(
                false,
            ),
            (ActlrUpdate::Written { target }, ActlrReply::Value(Some(found))) =>
                ActlrUpdate::Finished(found == target),
            (ActlrUpdate::Written { .. }, ActlrReply::Value(None)) => ActlrUpdate::Finished(false),
            (update, _) => update,
        };
        *self = next;
        self.call()
    }
}

/// What the guest writes to the ordering bit is what it reads there afterwards, the host's other
/// bits stay as they were, and the guest never sees them.
pub proof fn law_ordering_reads_back_as_written(current: u64, value: u64)
    requires
        value & !ACTLR_EL1_ENTSO == 0,
    ensures
        ((current & !ACTLR_EL1_ENTSO) | value) & ACTLR_EL1_ENTSO == value,
        ((current & !ACTLR_EL1_ENTSO) | value) & !ACTLR_EL1_ENTSO == current & !ACTLR_EL1_ENTSO,
        (current & ACTLR_EL1_ENTSO) & !ACTLR_EL1_ENTSO == 0,
{
    assert(((current & !2u64) | value) & 2u64 == value && ((current & !2u64) | value) & !2u64
        == current & !2u64 && (current & 2u64) & !2u64 == 0) by (bit_vector)
        requires
            value & !2u64 == 0,
    ;
}

/// The vCPUs addressed by a software-generated interrupt: those of the listed bits in the
/// selected range of sixteen.
pub open spec fn sgi_targets(value: u64, vcpuid: int) -> bool {
    let range = (value >> 44) & 0xf;
    exists|bit: u64|
        0 <= bit < 16 && #[trigger] sgi_bit(value, bit) && vcpuid == range * 16 + bit
}

pub open spec fn sgi_bit(value: u64, bit: u64) -> bool {
    ((value & 0xffff) >> bit) & 1 == 1
}

/// The interrupt number of a software-generated interrupt.
pub open spec fn sgi_intid(value: u64) -> u32 {
    ((value >> 24) & 0xf) as u32
}

/// The interrupt is not a broadcast and names cores of a flat hierarchy.
pub open spec fn sgi_supported(value: u64) -> bool {
    &&& value & 0x00ff_00ff_00ff_0000 == 0
    &&& (value >> 40) & 1 == 0
}

/// The vCPUs of a virtual machine.
#[derive(Debug)]
pub struct VcpuList {
    pub cpu_count: u64,
    pub vcpus: Vec<PerCPUInterruptControllerState>,
    pub translation_ordering: Option<u64>,
}

impl VcpuList {
    /// Every vCPU is found under its number, and one that waits has nothing pending: no
    /// interrupt is left to a vCPU that does not know of it.
    pub open spec fn wf(self) -> bool {
        &&& self.vcpus.len() == self.cpu_count
        &&& forall|i: int| 0 <= i < self.vcpus@.len() ==> (#[trigger] self.vcpus@[i]).vcpuid == i
        &&& forall|i: int|
            0 <= i < self.vcpus@.len() && (#[trigger] self.vcpus@[i]).status == VcpuStatus::Waiting
                ==> self.vcpus@[i].pending_irqs@.len() == 0
    }

    /// A waiting vCPU can be woken.
    pub open spec fn can_signal(self, vcpuid: int) -> bool {
        0 <= vcpuid < self.cpu_count && (self.vcpus@[vcpuid].status == VcpuStatus::Waiting
            ==> self.vcpus@[vcpuid].registered)
    }

    /// All but one vCPU are as they were, and so is the rest.
    pub open spec fn same_but(self, other: VcpuList, vcpuid: int) -> bool {
        &&& self.cpu_count == other.cpu_count
        &&& self.translation_ordering == other.translation_ordering
        &&& self.vcpus@.len() == other.vcpus@.len()
        &&& forall|i: int|
            0 <= i < self.vcpus@.len() && i != vcpuid ==> (#[trigger] self.vcpus@[i])
                == other.vcpus@[i]
    }

    pub fn new(cpu_count: u64) -> (result: VcpuList)
        requires
            cpu_count <= usize::MAX,
        ensures
            result.wf(),
            result.cpu_count == cpu_count,
            result.translation_ordering is None,
            forall|i: int|
                0 <= i < cpu_count ==> {
                    &&& (#[trigger] result.vcpus@[i]).status == VcpuStatus::Running
                    &&& result.vcpus@[i].pending_irqs@.len() == 0
                    &&& !result.vcpus@[i].registered
                },
    {
        let mut vcpus: Vec<PerCPUInterruptControllerState> = Vec::new();
        let mut vcpuid: u64 = 0;
        while vcpuid < cpu_count
            invariant
                vcpuid <= cpu_count,
                vcpus@.len() == vcpuid,
                forall|i: int|
                    0 <= i < vcpuid ==> {
                        &&& (#[trigger] vcpus@[i]).vcpuid == i
                        &&& vcpus@[i].status == VcpuStatus::Running
                        &&& vcpus@[i].pending_irqs@.len() == 0
                        &&& !vcpus@[i].registered
                    },
            decreases cpu_count - vcpuid,
        {
            vcpus.push(
                PerCPUInterruptControllerState {
                    vcpuid,
                    status: VcpuStatus::Running,
                    pending_irqs: VecDeque::new(),
                    registered: false,
                },
            );
            vcpuid = vcpuid + 1;
        }
        VcpuList { cpu_count, vcpus, translation_ordering: None }
    }

    /// Keeps what the vCPUs' probes agree on, and says whether they agree.
    pub fn set_host_translation_ordering_consensus(
        &mut self,
        probes: &Vec<TranslationOrderingProbe>,
    ) -> (result: bool)
        ensures
            final(self).cpu_count == old(self).cpu_count,
            final(self).vcpus == old(self).vcpus,
            result == (final(self).translation_ordering is Some),
            final(self).translation_ordering matches Some(midr) ==> probes@.len() == old(
                self,
            ).cpu_count && probes@.len() > 0 && all_report(probes@, midr),
            final(self).translation_ordering is None ==> probes@.len() != old(self).cpu_count
                || probes@.len() == 0 || forall|midr: u64| !#[trigger] all_report(probes@, midr),
    {
        self.translation_ordering = translation_ordering_consensus(self.cpu_count, probes);
        self.translation_ordering.is_some()
    }

    pub fn guest_translation_ordering_blocker(&self) -> (result: GuestTranslationOrderingBlocker)
        ensures
            result == match self.translation_ordering {
                Some(midr) => GuestTranslationOrderingBlocker::GuestAidrUnavailable { midr },
                None => GuestTranslationOrderingBlocker::HostActlrUnavailable,
            },
    {
        match self.translation_ordering {
            Some(midr) => GuestTranslationOrderingBlocker::GuestAidrUnavailable { midr },
            None => GuestTranslationOrderingBlocker::HostActlrUnavailable,
        }
    }

    pub fn get_cpu_count(&self) -> (result: u64)
        ensures
            result == self.cpu_count,
    {
        self.cpu_count
    }

    /// Makes an interrupt pending on one vCPU.
    pub fn set_irq_common(&mut self, vcpuid: u64, irq: u32) -> (result: IrqAction)
        requires
            old(self).wf(),
            old(self).can_signal(vcpuid as int),
        ensures
            final(self).wf(),
            final(self).same_but(*old(self), vcpuid as int),
            final(self).vcpus@[vcpuid as int].pending_irqs@ == old(
                self,
            ).vcpus@[vcpuid as int].pending_irqs@.push(irq),
            final(self).vcpus@[vcpuid as int].status == VcpuStatus::Running,
            final(self).vcpus@[vcpuid as int].registered == old(
                self,
            ).vcpus@[vcpuid as int].registered,
            result == match old(self).vcpus@[vcpuid as int].status {
                VcpuStatus::Waiting => IrqAction::Wake(vcpuid),
                VcpuStatus::Running => IrqAction::RequestExit(vcpuid),
            },
    {
        let index: usize = vcpuid as usize;
        self.vcpus[index].set_irq_common(irq)
    }

    /// Makes a software-generated interrupt pending on one vCPU.
    pub fn set_sgi_irq(&mut self, vcpuid: u64, irq: u32) -> (result: IrqAction)
        requires
            old(self).wf(),
            old(self).can_signal(vcpuid as int),
            irq < 16,
        ensures
            final(self).wf(),
            final(self).same_but(*old(self), vcpuid as int),
            final(self).vcpus@[vcpuid as int].pending_irqs@ == old(
                self,
            ).vcpus@[vcpuid as int].pending_irqs@.push(irq),
            final(self).vcpus@[vcpuid as int].status == VcpuStatus::Running,
            final(self).vcpus@[vcpuid as int].registered == old(
                self,
            ).vcpus@[vcpuid as int].registered,
            result == match old(self).vcpus@[vcpuid as int].status {
                VcpuStatus::Waiting => IrqAction::Wake(vcpuid),
                VcpuStatus::Running => IrqAction::RequestExit(vcpuid),
            },
    {
        self.set_irq_common(vcpuid, irq)
    }

    /// Notes that a vCPU can be woken.
    pub fn register(&mut self, vcpuid: u64)
        requires
            old(self).wf(),
            vcpuid < old(self).cpu_count,
        ensures
            final(self).wf(),
            final(self).same_but(*old(self), vcpuid as int),
            final(self).vcpus@[vcpuid as int] == (PerCPUInterruptControllerState {
                registered: true,
                ..old(self).vcpus@[vcpuid as int]
            }),
    {
        let index: usize = vcpuid as usize;
        self.vcpus[index].registered = true;
    }

    pub fn set_vtimer_irq(&mut self, vcpuid: u64) -> (result: IrqAction)
        requires
            old(self).wf(),
            old(self).can_signal(vcpuid as int),
        ensures
            final(self).wf(),
            final(self).same_but(*old(self), vcpuid as int),
            final(self).vcpus@[vcpuid as int].pending_irqs@ == old(
                self,
            ).vcpus@[vcpuid as int].pending_irqs@.push(VTIMER_IRQ),
            final(self).vcpus@[vcpuid as int].status == VcpuStatus::Running,
            final(self).vcpus@[vcpuid as int].registered == old(
                self,
            ).vcpus@[vcpuid as int].registered,
            result == match old(self).vcpus@[vcpuid as int].status {
                VcpuStatus::Waiting => IrqAction::Wake(vcpuid),
                VcpuStatus::Running => IrqAction::RequestExit(vcpuid),
            },
    {
        self.set_irq_common(vcpuid, VTIMER_IRQ)
    }

    pub fn should_wait(&mut self, vcpuid: u64) -> (result: bool)
        requires
            old(self).wf(),
            vcpuid < old(self).cpu_count,
        ensures
            final(self).wf(),
            final(self).same_but(*old(self), vcpuid as int),
            result == (old(self).vcpus@[vcpuid as int].pending_irqs@.len() == 0),
            final(self).vcpus@[vcpuid as int] == (PerCPUInterruptControllerState {
                status: if result {
                    VcpuStatus::Waiting
                } else {
                    old(self).vcpus@[vcpuid as int].status
                },
                ..old(self).vcpus@[vcpuid as int]
            }),
    {
        let index: usize = vcpuid as usize;
        self.vcpus[index].should_wait()
    }

    pub fn has_pending_irq(&self, vcpuid: u64) -> (result: bool)
        requires
            self.wf(),
            vcpuid < self.cpu_count,
        ensures
            result == (self.vcpus@[vcpuid as int].pending_irqs@.len() > 0),
    {
        self.vcpus[vcpuid as usize].has_pending_irq()
    }

    pub fn get_pending_irq(&mut self, vcpuid: u64) -> (result: u32)
        requires
            old(self).wf(),
            vcpuid < old(self).cpu_count,
        ensures
            final(self).wf(),
            final(self).same_but(*old(self), vcpuid as int),
            final(self).vcpus@[vcpuid as int].status == old(self).vcpus@[vcpuid as int].status,
            final(self).vcpus@[vcpuid as int].registered == old(
                self,
            ).vcpus@[vcpuid as int].registered,
            ({
                let before = old(self).vcpus@[vcpuid as int].pending_irqs@;
                let after = final(self).vcpus@[vcpuid as int].pending_irqs@;
                if before.len() == 0 {
                    result == GIC_INTID_SPURIOUS && after == before
                } else {
                    result == before[0] && after == before.skip(1)
                }
            }),
    {
        let index: usize = vcpuid as usize;
        self.vcpus[index].get_pending_irq()
    }

    /// Answers a trapped read. Reading the acknowledge register takes the interrupt.
    pub fn handle_sysreg_read(&mut self, vcpuid: u64, reg: SystemRegister) -> (result: SysregRead)
        requires
            old(self).wf(),
            vcpuid < old(self).cpu_count,
        ensures
            final(self).wf(),
            final(self).same_but(*old(self), vcpuid as int),
            reg != SystemRegister::IccIar1El1 ==> *final(self) == *old(self),
            result == match reg {
                SystemRegister::MidrEl1 => SysregRead::Done(
                    Some(
                        match old(self).translation_ordering {
                            Some(midr) => midr,
                            None => 0,
                        },
                    ),
                ),
                SystemRegister::AidrEl1 => SysregRead::Done(
                    Some(
                        if old(self).translation_ordering is Some {
                            AIDR_EL1_TSO
                        } else {
                            0
                        },
                    ),
                ),
                SystemRegister::ActlrEl1 => if old(self).translation_ordering is Some {
                    SysregRead::AskHost(HostRegister::ActlrEl1)
                } else {
                    SysregRead::Done(None)
                },
                SystemRegister::Identification => SysregRead::Done(Some(0)),
                SystemRegister::IccIar1El1 => SysregRead::Done(
                    Some(
                        if old(self).vcpus@[vcpuid as int].pending_irqs@.len() == 0 {
                            GIC_INTID_SPURIOUS as u64
                        } else {
                            old(self).vcpus@[vcpuid as int].pending_irqs@[0] as u64
                        },
                    ),
                ),
                SystemRegister::IccPmrEl1 => SysregRead::Done(Some(0)),
                SystemRegister::IccCtlrEl1 => SysregRead::Done(Some(ICC_CTLR_VALUE)),
                SystemRegister::CnthctlEl2 => SysregRead::AskHost(HostRegister::CnthctlEl2),
                SystemRegister::MdccintEl1 => SysregRead::AskHost(HostRegister::MdccintEl1),
                _ => SysregRead::Done(None),
            },
            reg == SystemRegister::IccIar1El1 ==> {
                let before = old(self).vcpus@[vcpuid as int];
                let after = final(self).vcpus@[vcpuid as int];
                &&& after.status == before.status
                &&& after.registered == before.registered
                &&& after.pending_irqs@ == if before.pending_irqs@.len() == 0 {
                    before.pending_irqs@
                } else {
                    before.pending_irqs@.skip(1)
                }
            },
    {
        match reg {
            SystemRegister::MidrEl1 => SysregRead::Done(
                Some(
                    match self.translation_ordering {
                        Some(midr) => midr,
                        None => 0,
                    },
                ),
            ),
            SystemRegister::AidrEl1 => SysregRead::Done(
                Some(
                    if self.translation_ordering.is_some() {
                        AIDR_EL1_TSO
                    } else {
                        0
                    },
                ),
            ),
            SystemRegister::ActlrEl1 => {
                if self.translation_ordering.is_some() {
                    SysregRead::AskHost(HostRegister::ActlrEl1)
                } else {
                    SysregRead::Done(None)
                }
            },
            SystemRegister::Identification => SysregRead::Done(Some(0)),
            SystemRegister::IccIar1El1 => {
                let irq: u32 = self.get_pending_irq(vcpuid);
                SysregRead::Done(Some(irq as u64))
            },
            SystemRegister::IccPmrEl1 => SysregRead::Done(Some(0)),
            SystemRegister::IccCtlrEl1 => SysregRead::Done(Some(ICC_CTLR_VALUE)),
            SystemRegister::CnthctlEl2 => SysregRead::AskHost(HostRegister::CnthctlEl2),
            SystemRegister::MdccintEl1 => SysregRead::AskHost(HostRegister::MdccintEl1),
            _ => SysregRead::Done(None),
        }
    }

    /// Makes a software-generated interrupt pending on every vCPU it addresses.
    fn generate_sgi(&mut self, value: u64) -> (result: Vec<IrqAction>)
        requires
            old(self).wf(),
            sgi_supported(value),
            forall|vcpuid: int| #[trigger]
                sgi_targets(value, vcpuid) ==> old(self).can_signal(vcpuid),
        ensures
            final(self).wf(),
            sgi_delivered(*old(self), *final(self), value),
            result@ == sgi_actions(*old(self), value, 16),
    {
        let target_list: u64 = value & 0xffff;
        let intid: u32 = ((value >> 24) & 0xf) as u32;
        let range: u64 = (value >> 44) & 0xf;
        assert((value >> 24) & 0xf < 16) by (bit_vector);
        assert((value >> 44) & 0xf < 16) by (bit_vector);
        let mut actions: Vec<IrqAction> = Vec::new();
        let mut bit: u64 = 0;
        while bit < 16
            invariant
                bit <= 16,
                self.wf(),
                old(self).wf(),
                range == (value >> 44) & 0xf,
                range < 16,
                target_list == value & 0xffff,
                intid == sgi_intid(value),
                intid < 16,
                actions@ == sgi_actions(*old(self), value, bit as nat),
                self.cpu_count == old(self).cpu_count,
                self.translation_ordering == old(self).translation_ordering,
                forall|vcpuid: int| #[trigger]
                    sgi_targets(value, vcpuid) ==> old(self).can_signal(vcpuid),
                forall|i: int|
                    0 <= i < self.cpu_count ==> {
                        let done = range * 16 <= i < range * 16 + bit && sgi_bit(
                            value,
                            (i - range * 16) as u64,
                        );
                        let before = old(self).vcpus@[i];
                        let after = #[trigger] self.vcpus@[i];
                        &&& !done ==> after == before
                        &&& done ==> {
                            &&& after.pending_irqs@ == before.pending_irqs@.push(intid)
                            &&& after.status == VcpuStatus::Running
                            &&& after.registered == before.registered
                        }
                    },
            decreases 16 - bit,
        {
            if (target_list >> bit) & 1 == 1 {
                proof {
                    assert(sgi_bit(value, bit));
                    assert(sgi_targets(value, range * 16 + bit));
                    assert(old(self).can_signal(range * 16 + bit));
                    assert(self.vcpus@[range * 16 + bit] == old(self).vcpus@[range * 16 + bit]);
                }
                let ghost before = *self;
                let action = self.set_sgi_irq(range * 16 + bit, intid);
                actions.push(action);
                assert forall|i: int| 0 <= i < self.cpu_count implies {
                    let done = range * 16 <= i < range * 16 + bit + 1 && sgi_bit(
                        value,
                        (i - range * 16) as u64,
                    );
                    let first = old(self).vcpus@[i];
                    let after = #[trigger] self.vcpus@[i];
                    &&& !done ==> after == first
                    &&& done ==> {
                        &&& after.pending_irqs@ == first.pending_irqs@.push(intid)
                        &&& after.status == VcpuStatus::Running
                        &&& after.registered == first.registered
                    }
                } by {
                    if i != range * 16 + bit {
                        assert(self.vcpus@[i] == before.vcpus@[i]);
                    }
                }
            } else {
                assert(!sgi_bit(value, bit));
            }
            bit = bit + 1;
        }
        proof {
            assert forall|i: int| 0 <= i < self.cpu_count implies {
                let before = old(self).vcpus@[i];
                let after = #[trigger] self.vcpus@[i];
                &&& !sgi_targets(value, i) ==> after == before
                &&& sgi_targets(value, i) ==> {
                    &&& after.pending_irqs@ == before.pending_irqs@.push(sgi_intid(value))
                    &&& after.status == VcpuStatus::Running
                    &&& after.registered == before.registered
                }
            } by {
                if range * 16 <= i < range * 16 + 16 && sgi_bit(value, (i - range * 16) as u64) {
                    assert(sgi_targets(value, i));
                }
            }
        }
        actions
    }

    /// Handles a trapped write.
    pub fn handle_sysreg_write(&mut self, vcpuid: u64, reg: SystemRegister, val: u64) -> (result:
        SysregWrite)
        requires
            old(self).wf(),
            vcpuid < old(self).cpu_count,
            reg == SystemRegister::IccSgi1rEl1 ==> sgi_supported(val) && forall|target: int|
                #[trigger]
                sgi_targets(val, target) ==> old(self).can_signal(target),
        ensures
            final(self).wf(),
            reg != SystemRegister::IccSgi1rEl1 ==> *final(self) == *old(self),
            match reg {
                SystemRegister::ActlrEl1 => if old(self).translation_ordering is None {
                    result == SysregWrite::Done(false)
                } else if val & !ACTLR_EL1_ENTSO != 0 {
                    result == SysregWrite::Done(false)
                } else {
                    result == SysregWrite::UpdateActlr(val)
                },
                SystemRegister::IccSgi1rEl1 => {
                    &&& result matches SysregWrite::Interrupts(actions)
                    &&& actions@ == sgi_actions(*old(self), val, 16)
                    &&& sgi_delivered(*old(self), *final(self), val)
                },
                SystemRegister::CnthctlEl2 => result == SysregWrite::SetHost(
                    HostRegister::CnthctlEl2,
                    val,
                ),
                SystemRegister::MdccintEl1 => result == SysregWrite::SetHost(
                    HostRegister::MdccintEl1,
                    val,
                ),
                SystemRegister::MidrEl1 | SystemRegister::AidrEl1 | SystemRegister::IccIar1El1
                | SystemRegister::Other => result == SysregWrite::Done(false),
                _ => result == SysregWrite::Done(true),
            },
    {
        match reg {
            SystemRegister::ActlrEl1 => {
                if self.translation_ordering.is_none() || val & !ACTLR_EL1_ENTSO != 0 {
                    SysregWrite::Done(false)
                } else {
                    SysregWrite::UpdateActlr(val)
                }
            },
            SystemRegister::IccSgi1rEl1 => {
                let actions = self.generate_sgi(val);
                SysregWrite::Interrupts(actions)
            },
            SystemRegister::CnthctlEl2 => SysregWrite::SetHost(HostRegister::CnthctlEl2, val),
            SystemRegister::MdccintEl1 => SysregWrite::SetHost(HostRegister::MdccintEl1, val),
            SystemRegister::MidrEl1 | SystemRegister::AidrEl1 | SystemRegister::IccIar1El1
            | SystemRegister::Other => SysregWrite::Done(false),
            _ => SysregWrite::Done(true),
        }
    }
}

/// How a vCPU learns of an interrupt, by whether it waits.
pub open spec fn irq_action(vcpu: PerCPUInterruptControllerState) -> IrqAction {
    match vcpu.status {
        VcpuStatus::Waiting => IrqAction::Wake(vcpu.vcpuid),
        VcpuStatus::Running => IrqAction::RequestExit(vcpu.vcpuid),
    }
}

/// How the vCPUs addressed by the lowest `count` bits learn of the interrupt, in order.
pub open spec fn sgi_actions(list: VcpuList, value: u64, count: nat) -> Seq<IrqAction>
    decreases count,
{
    if count == 0 {
        seq![]
    } else {
        let rest = sgi_actions(list, value, (count - 1) as nat);
        if sgi_bit(value, (count - 1) as u64) {
            rest.push(irq_action(list.vcpus@[((value >> 44) & 0xf) * 16 + count - 1]))
        } else {
            rest
        }
    }
}

/// Exactly the addressed vCPUs have the interrupt pending in addition, and run.
pub open spec fn sgi_delivered(before: VcpuList, after: VcpuList, value: u64) -> bool {
    &&& after.cpu_count == before.cpu_count
    &&& after.translation_ordering == before.translation_ordering
    &&& forall|i: int|
        0 <= i < before.cpu_count ==> {
            let was = before.vcpus@[i];
            let is = #[trigger] after.vcpus@[i];
            &&& !sgi_targets(value, i) ==> is == was
            &&& sgi_targets(value, i) ==> {
                &&& is.pending_irqs@ == was.pending_irqs@.push(sgi_intid(value))
                &&& is.status == VcpuStatus::Running
                &&& is.registered == was.registered
            }
        }
}

} // verus!
