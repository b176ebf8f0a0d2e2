use vmm_core::vcpu::{
    actlr_target, ActlrCall, ActlrReply, ActlrUpdate, host_sysreg_value, translation_ordering_consensus,
    GuestTranslationOrderingBlocker, HostRegister, IrqAction, SysregRead, SysregWrite,
    SystemRegister, TranslationOrderingProbe, TranslationOrderingUnsupported, VcpuList,
    AIDR_EL1_TSO, GIC_INTID_SPURIOUS, ICC_CTLR_VALUE, VTIMER_IRQ,
};

#[test]
fn translation_ordering_requires_coherent_apple_vcpus() {
    let apple = TranslationOrderingProbe::Supported { midr: 0x610f_0000 };
    assert_eq!(
        translation_ordering_consensus(2, &vec![apple, apple]),
        Some(0x610f_0000)
    );
    assert_eq!(translation_ordering_consensus(2, &vec![apple]), None);
    assert_eq!(
        translation_ordering_consensus(
            2,
            &vec![
                apple,
                TranslationOrderingProbe::Unsupported(TranslationOrderingUnsupported::MidrRead {
                    status: 1
                }),
            ],
        ),
        None
    );
    assert_eq!(
        translation_ordering_consensus(
            2,
            &vec![
                apple,
                TranslationOrderingProbe::Supported { midr: 0x610f_0010 },
            ],
        ),
        None
    );
    assert_eq!(
        translation_ordering_consensus(
            1,
            &vec![TranslationOrderingProbe::Supported { midr: 0x410f_0000 }],
        ),
        None
    );
}

#[test]
fn host_actlr_support_does_not_qualify_guest_aidr() {
    let mut vcpus = VcpuList::new(2);
    let probes = vec![
        TranslationOrderingProbe::Supported { midr: 0x610f_0000 },
        TranslationOrderingProbe::Supported { midr: 0x610f_0000 },
    ];

    assert!(vcpus.set_host_translation_ordering_consensus(&probes));
    assert_eq!(
        vcpus.guest_translation_ordering_blocker(),
        GuestTranslationOrderingBlocker::GuestAidrUnavailable { midr: 0x610f_0000 }
    );
}

#[test]
fn vcpus_without_consensus_have_no_host_support() {
    let mut vcpus = VcpuList::new(1);
    assert!(!vcpus.set_host_translation_ordering_consensus(&vec![]));
    assert_eq!(
        vcpus.guest_translation_ordering_blocker(),
        GuestTranslationOrderingBlocker::HostActlrUnavailable
    );
    assert_eq!(vcpus.get_cpu_count(), 1);
}

#[test]
fn waiting_vcpus_are_woken_and_running_ones_leave_the_guest() {
    let mut vcpus = VcpuList::new(2);
    vcpus.register(0);
    assert_eq!(vcpus.set_vtimer_irq(0), IrqAction::RequestExit(0));
    assert!(!vcpus.should_wait(0));
    assert_eq!(
        vcpus.handle_sysreg_read(0, SystemRegister::IccIar1El1),
        SysregRead::Done(Some(VTIMER_IRQ as u64))
    );
    assert_eq!(vcpus.get_pending_irq(0), GIC_INTID_SPURIOUS);
    assert!(vcpus.should_wait(0));
    assert_eq!(vcpus.set_irq_common(0, 40), IrqAction::Wake(0));
    assert!(vcpus.has_pending_irq(0));
    assert!(!vcpus.has_pending_irq(1));
}

#[test]
fn interrupts_are_taken_in_order() {
    let mut vcpus = VcpuList::new(1);
    vcpus.set_irq_common(0, 33);
    vcpus.set_sgi_irq(0, 5);
    assert_eq!(vcpus.get_pending_irq(0), 33);
    assert_eq!(vcpus.get_pending_irq(0), 5);
    assert_eq!(vcpus.get_pending_irq(0), GIC_INTID_SPURIOUS);
}

#[test]
fn software_interrupts_reach_the_listed_vcpus() {
    let mut vcpus = VcpuList::new(3);
    // Interrupt six for the first and the third.
    match vcpus.handle_sysreg_write(1, SystemRegister::IccSgi1rEl1, (6 << 24) | 0b101) {
        SysregWrite::Interrupts(actions) => assert_eq!(
            actions,
            vec![IrqAction::RequestExit(0), IrqAction::RequestExit(2)]
        ),
        other => panic!("unexpected answer: {other:?}"),
    }
    assert_eq!(vcpus.get_pending_irq(0), 6);
    assert!(!vcpus.has_pending_irq(1));
    assert_eq!(vcpus.get_pending_irq(2), 6);
}

#[test]
fn registers_are_answered() {
    let mut vcpus = VcpuList::new(1);
    assert_eq!(
        vcpus.handle_sysreg_read(0, SystemRegister::IccCtlrEl1),
        SysregRead::Done(Some(ICC_CTLR_VALUE))
    );
    assert_eq!(
        vcpus.handle_sysreg_read(0, SystemRegister::AidrEl1),
        SysregRead::Done(Some(0))
    );
    assert!(matches!(
        vcpus.handle_sysreg_write(0, SystemRegister::ActlrEl1, 2),
        SysregWrite::Done(false)
    ));
    vcpus.set_host_translation_ordering_consensus(&vec![TranslationOrderingProbe::Supported {
        midr: 0x610f_0000,
    }]);
    assert_eq!(
        vcpus.handle_sysreg_read(0, SystemRegister::MidrEl1),
        SysregRead::Done(Some(0x610f_0000))
    );
    assert_eq!(
        vcpus.handle_sysreg_read(0, SystemRegister::AidrEl1),
        SysregRead::Done(Some(AIDR_EL1_TSO))
    );
    assert!(matches!(
        vcpus.handle_sysreg_write(0, SystemRegister::ActlrEl1, 2),
        SysregWrite::UpdateActlr(2)
    ));
    assert!(matches!(
        vcpus.handle_sysreg_write(0, SystemRegister::ActlrEl1, 4),
        SysregWrite::Done(false)
    ));
    assert!(matches!(
        vcpus.handle_sysreg_write(0, SystemRegister::CnthctlEl2, 9),
        SysregWrite::SetHost(HostRegister::CnthctlEl2, 9)
    ));
}

#[test]
fn only_the_ordering_bit_of_the_host_register_changes() {
    assert_eq!(actlr_target(0xff, 0), 0xfd);
    assert_eq!(actlr_target(0xf0, 2), 0xf2);
    let mut update = ActlrUpdate::Asked { value: 2 };
    assert_eq!(update.call(), ActlrCall::Read);
    let mut unread = update;
    assert_eq!(
        unread.step(ActlrReply::Value(None)),
        ActlrCall::Finished(false)
    );
    assert_eq!(
        update.step(ActlrReply::Value(Some(0xf0))),
        ActlrCall::Write(0xf2)
    );
    let mut refused = update;
    assert_eq!(
        refused.step(ActlrReply::Written(false)),
        ActlrCall::Finished(false)
    );
    assert_eq!(update.step(ActlrReply::Written(true)), ActlrCall::Read);
    for (found, updated) in [(Some(0xf2), true), (Some(0xf0), false), (None, false)] {
        let mut ended = update;
        assert_eq!(
            ended.step(ActlrReply::Value(found)),
            ActlrCall::Finished(updated)
        );
    }
    assert_eq!(
        host_sysreg_value(HostRegister::ActlrEl1, Some(0xff)),
        Some(2)
    );
    assert_eq!(
        host_sysreg_value(HostRegister::MdccintEl1, Some(0xff)),
        Some(0xff)
    );
}

#[test]
fn the_ordering_bit_reads_back_as_written() {
    let held = 0xf5;
    for value in [0, 2] {
        let target = actlr_target(held, value);
        assert_eq!(
            host_sysreg_value(HostRegister::ActlrEl1, Some(target)),
            Some(value)
        );
        assert_eq!(target & !2, 0xf5);
    }
}

#[test]
fn a_vcpu_with_an_interrupt_does_not_wait() {
    let mut list = VcpuList::new(1);
    list.register(0);
    assert!(list.should_wait(0));
    assert_eq!(list.set_vtimer_irq(0), IrqAction::Wake(0));
    assert!(!list.should_wait(0));
    assert_eq!(list.set_irq_common(0, 40), IrqAction::RequestExit(0));
    assert_eq!(list.get_pending_irq(0), 27);
    assert_eq!(list.get_pending_irq(0), 40);
    assert_eq!(list.get_pending_irq(0), 1023);
    assert!(list.should_wait(0));
}
