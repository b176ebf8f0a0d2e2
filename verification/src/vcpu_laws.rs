//! What the vCPUs get of the interrupts that the guest asks for.
use crate::vcpu::{
    all_report, implementor, irq_action, sgi_actions, sgi_bit, sgi_delivered, sgi_supported,
    sgi_targets, ActlrCall, ActlrReply, ActlrUpdate, IrqAction, TranslationOrderingProbe, VcpuList,
    VcpuStatus,
};
use vstd::prelude::*;

verus! {

/// The register value with interrupt `number` in the bits from 24, a bit for each addressed vCPU
/// from 0, and the group of sixteen that they are counted from in the bits from 44. `rest` are
/// the bits that mean nothing.
pub open spec fn sgi_register(number: u64, targets: u64, group: u64, rest: u64) -> u64 {
    rest | (group << 44) | (number << 24) | targets
}

/// The bits of `rest` are none of the number, the targets, the group, the broadcast bit and the
/// upper affinities.
pub open spec fn sgi_unused(rest: u64) -> bool {
    rest & 0x00ff_f1ff_0fff_ffff == 0
}

proof fn lemma_sgi_fields(number: u64, targets: u64, group: u64, rest: u64, bit: u64)
    requires
        number < 16,
        targets < 0x1_0000,
        group < 16,
        bit < 16,
        sgi_unused(rest),
    ensures
        sgi_supported(sgi_register(number, targets, group, rest)),
        (sgi_register(number, targets, group, rest) >> 24) & 0xf == number,
        (sgi_register(number, targets, group, rest) >> 44) & 0xf == group,
        sgi_bit(sgi_register(number, targets, group, rest), bit) <==> (targets >> bit) & 1 == 1,
{
    let value = sgi_register(number, targets, group, rest);
    assert(value & 0x00ff_00ff_00ff_0000 == 0 && (value >> 40) & 1 == 0 && (value >> 24) & 0xf
        == number && (value >> 44) & 0xf == group && ((value & 0xffff) >> bit) & 1 == (targets
        >> bit) & 1) by (bit_vector)
        requires
            value == (rest | (group << 44) | (number << 24) | targets),
            number < 16,
            targets < 0x1_0000,
            group < 16,
            rest & 0x00ff_f1ff_0fff_ffff == 0,
    ;
}

/// The interrupt that a vCPU gets is the one that the guest wrote, and the vCPUs that get it are
/// those whose bits it set, counted from the group it wrote: for every number below sixteen,
/// every set of targets and every group. A vCPU whose bit is clear, or that is in another group,
/// is left as it was.
pub proof fn law_interrupt_reaches_exactly_its_targets(
    before: VcpuList,
    after: VcpuList,
    number: u64,
    targets: u64,
    group: u64,
    rest: u64,
    vcpu: int,
)
    requires
        number < 16,
        targets < 0x1_0000,
        group < 16,
        sgi_unused(rest),
        0 <= vcpu < before.cpu_count,
        sgi_delivered(before, after, sgi_register(number, targets, group, rest)),
    ensures
        sgi_supported(sgi_register(number, targets, group, rest)),
        ({
            let bit = (vcpu - group * 16) as u64;
            let addressed = group * 16 <= vcpu < group * 16 + 16 && (targets >> bit) & 1 == 1;
            &&& addressed ==> {
                &&& after.vcpus@[vcpu].pending_irqs@ == before.vcpus@[vcpu].pending_irqs@.push(
                    number as u32,
                )
                &&& after.vcpus@[vcpu].status == VcpuStatus::Running
                &&& after.vcpus@[vcpu].registered == before.vcpus@[vcpu].registered
            }
            &&& !addressed ==> after.vcpus@[vcpu] == before.vcpus@[vcpu]
        }),
{
    let value = sgi_register(number, targets, group, rest);
    let bit = (vcpu - group * 16) as u64;
    lemma_sgi_fields(number, targets, group, rest, 0);
    if group * 16 <= vcpu < group * 16 + 16 {
        lemma_sgi_fields(number, targets, group, rest, bit);
        if (targets >> bit) & 1 == 1 {
            assert(sgi_bit(value, bit));
            assert(sgi_targets(value, vcpu));
        }
    }
    if sgi_targets(value, vcpu) {
        let found = choose|b: u64|
            0 <= b < 16 && #[trigger] sgi_bit(value, b) && vcpu == ((value >> 44) & 0xf) * 16 + b;
        assert(found == bit);
    }
}

/// A vCPU that the guest interrupts learns of it: a waiting one is woken, a running one is made
/// to leave the guest. Nobody else is told. This holds of the lowest `count` bits of the targets,
/// so of all sixteen.
pub proof fn law_interrupted_vcpus_learn_of_it(
    list: VcpuList,
    number: u64,
    targets: u64,
    group: u64,
    rest: u64,
    bit: u64,
    action: IrqAction,
    count: nat,
)
    requires
        number < 16,
        targets < 0x1_0000,
        group < 16,
        sgi_unused(rest),
        list.wf(),
        bit < count <= 16,
        forall|v: int| #[trigger]
            sgi_targets(sgi_register(number, targets, group, rest), v) ==> list.can_signal(v),
    ensures
        ({
            let actions = sgi_actions(list, sgi_register(number, targets, group, rest), count);
            let vcpuid = (group * 16 + bit) as u64;
            &&& (targets >> bit) & 1 == 1 ==> actions.contains(
                if list.vcpus@[vcpuid as int].status == VcpuStatus::Waiting {
                    IrqAction::Wake(vcpuid)
                } else {
                    IrqAction::RequestExit(vcpuid)
                },
            )
            &&& actions.contains(action) ==> exists|b: u64|
                b < count && #[trigger] targeted(targets, b) && match action {
                    IrqAction::Wake(v) => v == group * 16 + b && list.vcpus@[v as int].status
                        == VcpuStatus::Waiting,
                    IrqAction::RequestExit(v) => v == group * 16 + b && list.vcpus@[v as int].status
                        == VcpuStatus::Running,
                }
        }),
    decreases count,
{
    let value = sgi_register(number, targets, group, rest);
    let last = (count - 1) as u64;
    let actions = sgi_actions(list, value, count);
    let less = sgi_actions(list, value, (count - 1) as nat);
    lemma_sgi_fields(number, targets, group, rest, last);
    lemma_sgi_fields(number, targets, group, rest, bit);
    if sgi_bit(value, last) {
        assert(sgi_targets(value, group * 16 + last));
        assert(list.can_signal(group * 16 + last));
        assert(list.vcpus@[group * 16 + last].vcpuid == group * 16 + last);
        let own = irq_action(list.vcpus@[group * 16 + last]);
        assert(actions == less.push(own));
        assert(actions[less.len() as int] == own);
        if count > 1 {
            let earlier = if bit < last {
                bit
            } else {
                0
            };
            law_interrupted_vcpus_learn_of_it(
                list,
                number,
                targets,
                group,
                rest,
                earlier,
                action,
                (count - 1) as nat,
            );
        }
        if bit < last && (targets >> bit) & 1 == 1 {
            let told = if list.vcpus@[group * 16 + bit].status == VcpuStatus::Waiting {
                IrqAction::Wake((group * 16 + bit) as u64)
            } else {
                IrqAction::RequestExit((group * 16 + bit) as u64)
            };
            let i = choose|i: int| 0 <= i < less.len() && less[i] == told;
            assert(actions[i] == told);
        }
        if actions.contains(action) {
            let i = choose|i: int| 0 <= i < actions.len() && actions[i] == action;
            if i == less.len() {
                assert(targeted(targets, last));
            } else {
                assert(less[i] == action);
            }
        }
    } else {
        assert(actions == less);
        if count > 1 {
            let earlier = if bit < last {
                bit
            } else {
                0
            };
            law_interrupted_vcpus_learn_of_it(
                list,
                number,
                targets,
                group,
                rest,
                earlier,
                action,
                (count - 1) as nat,
            );
        }
    }
}

/// The bit of a target is set.
pub open spec fn targeted(targets: u64, bit: u64) -> bool {
    (targets >> bit) & 1 == 1
}

/// An update of the auxiliary control register reads, writes what it read with the ordering bit
/// as the guest wrote it, and reads again. It took effect exactly if all three calls worked and
/// the second read gave what was written.
pub proof fn law_update_takes_effect_if_it_reads_back(
    value: u64,
    held: u64,
    found: Option<u64>,
)
    ensures
        ({
            let asked = ActlrUpdate::Asked { value };
            let computed = asked.after(ActlrReply::Value(Some(held)));
            let written = computed.after(ActlrReply::Written(true));
            let ended = written.after(ActlrReply::Value(found));
            &&& asked.call_spec() == ActlrCall::Read
            &&& computed.call_spec() matches ActlrCall::Write(target)
            &&& target & 2 == value & 2
            &&& target & !(2u64 | value) == held & !(2u64 | value)
            &&& written.call_spec() == ActlrCall::Read
            &&& ended.call_spec() == ActlrCall::Finished(found == Some(target))
            &&& asked.after(ActlrReply::Value(None)).call_spec() == ActlrCall::Finished(false)
            &&& computed.after(ActlrReply::Written(false)).call_spec() == ActlrCall::Finished(false)
        }),
{
    assert(((held & !2u64) | value) & 2 == value & 2 && ((held & !2u64) | value) & !(
    2u64 | value) == held & !(2u64 | value)) by (bit_vector);
}

/// The implementor is the byte from bit 24 of the identification register.
pub proof fn law_implementor_is_the_fourth_byte(upper: u64, who: u64, lower: u64)
    requires
        who < 0x100,
        lower < 0x100_0000,
        upper < 0x1_0000_0000,
    ensures
        implementor((upper << 32) | (who << 24) | lower) == who,
{
    assert((((upper << 32) | (who << 24) | lower) >> 24) & 0xff == who) by (bit_vector)
        requires
            who < 0x100,
            lower < 0x100_0000,
            upper < 0x1_0000_0000,
    ;
}

/// Ordering is agreed on only by probes that all found the same processor, one of Apple's, and by
/// all that did.
pub proof fn law_agreement_is_on_one_processor(
    probes: Seq<TranslationOrderingProbe>,
    midr: u64,
    which: int,
)
    ensures
        all_report(probes, midr) && 0 <= which < probes.len() ==> probes[which] == (
        TranslationOrderingProbe::Supported { midr }),
        all_report(probes, midr) ==> implementor(midr) == 0x61,
        implementor(midr) == 0x61 && (forall|i: int|
            0 <= i < probes.len() ==> (#[trigger] probes[i]) == (
            TranslationOrderingProbe::Supported { midr })) ==> all_report(probes, midr),
{
}

} // verus!
