//! One pass of the guest program over the scratch memory, call by call.
use crate::probe::{TouchError, TouchRegister, DATA_SIZE};
use crate::scratch::ScratchPlan;
use vstd::prelude::*;

verus! {

/// Interrupts masked, at the exception level of the guest kernel.
pub const PSTATE_EL1H_MASKED: u64 = 0x3c5;

/// The exception class of a breakpoint instruction.
pub const EC_AA64_BKPT: u64 = 0x3c;

/// How many registers a pass sets.
pub const TOUCH_REGISTERS: usize = 7;

/// The registers that a pass sets, in order.
pub open spec fn touch_registers_spec(plan: ScratchPlan, seed: u64) -> Seq<(TouchRegister, u64)> {
    seq![
        (TouchRegister::Cpsr, PSTATE_EL1H_MASKED),
        (TouchRegister::Pc, plan.code_gpa),
        (TouchRegister::X0, plan.data_gpa),
        (TouchRegister::X1, (DATA_SIZE / plan.page_size) as u64),
        (TouchRegister::X2, plan.page_size),
        (TouchRegister::X3, seed),
        (TouchRegister::X4, 0u64),
    ]
}

/// The registers that a pass sets, in order.
pub fn touch_registers(plan: ScratchPlan, seed: u64) -> (result: Vec<(TouchRegister, u64)>)
    requires
        plan.page_size > 0,
    ensures
        result@ == touch_registers_spec(plan, seed),
{
    let page_count: u64 = DATA_SIZE / plan.page_size;
    vec![
        (TouchRegister::Cpsr, PSTATE_EL1H_MASKED),
        (TouchRegister::Pc, plan.code_gpa),
        (TouchRegister::X0, plan.data_gpa),
        (TouchRegister::X1, page_count),
        (TouchRegister::X2, plan.page_size),
        (TouchRegister::X3, seed),
        (TouchRegister::X4, 0u64),
    ]
}

/// The system control value with the MMU off.
pub fn mmu_disabled(sctlr: u64) -> (result: u64)
    ensures
        result == sctlr - sctlr % 2,
{
    assert(sctlr & !1u64 == sctlr - sctlr % 2) by (bit_vector);
    sctlr & !1u64
}

/// How a vCPU left the guest.
#[derive(Clone, Copy, Debug, PartialEq, Eq, Structural)]
pub struct VcpuExit {
    pub is_exception: bool,
    pub reason: u32,
    pub syndrome: u64,
    pub virtual_address: u64,
    pub physical_address: u64,
}

/// The exception class of a syndrome.
pub open spec fn exception_class(syndrome: u64) -> u64 {
    (syndrome >> 26) & 0x3f
}

/// A call of the hypervisor in a pass, or how the pass came out.
#[derive(Clone, Copy, Debug, PartialEq, Eq)]
pub enum TouchCall {
    SetRegister { register: TouchRegister, value: u64 },
    GetSystemControl,
    SetSystemControl(u64),
    /// Set the address of the exception vectors.
    SetVector(u64),
    TrapDebugExceptions,
    Run,
    GetPc,
    /// Get the guest's exception syndrome.
    GetSyndrome,
    /// Get the address that the guest's exception is about.
    GetFaultAddress,
    GetChecksum,
    /// The checksum, or why there is none.
    Finished(Result<u64, TouchError>),
}

/// How a call went.
#[derive(Clone, Copy, Debug, PartialEq, Eq, Structural)]
pub enum TouchReply {
    /// Whether a call that sets something worked.
    Done(bool),
    /// What was read, if it could be.
    Value(Option<u64>),
    /// The hypervisor's status of a read, and what was read.
    Status { status: i32, value: u64 },
    RunFailed,
    /// The guest ran, and there is no account of how it was left.
    ExitVanished,
    Exit(VcpuExit),
}

/// How far a pass is.
#[derive(Clone, Copy, Debug, PartialEq, Eq)]
pub enum TouchStage {
    /// So many registers are set.
    Registers(usize),
    Control,
    ControlSet(u64),
    Vector,
    Traps,
    Ready,
    Left,
    TrappedElsewhere { trap_pc: u64 },
    Explained { trap_pc: u64, esr: u64, esr_status: i32 },
    TrappedAtEnd,
    Finished(Result<u64, TouchError>),
}

/// A pass of the guest program.
#[derive(Clone, Copy, Debug, PartialEq, Eq)]
pub struct TouchRun {
    pub plan: ScratchPlan,
    pub seed: u64,
    pub stage: TouchStage,
}

impl TouchRun {
    pub open spec fn wf(self) -> bool {
        &&& self.plan.page_size > 0
        &&& self.plan.code_gpa + 32 <= u64::MAX
        &&& self.stage matches TouchStage::Registers(done) ==> done < TOUCH_REGISTERS
    }

    /// The next call.
    pub open spec fn call_spec(self) -> TouchCall {
        match self.stage {
            TouchStage::Registers(done) => {
                let (register, value) = touch_registers_spec(self.plan, self.seed)[done as int];
                TouchCall::SetRegister { register, value }
            },
            TouchStage::Control => TouchCall::GetSystemControl,
            TouchStage::ControlSet(control) => TouchCall::SetSystemControl(
                (control - control % 2) as u64,
            ),
            TouchStage::Vector => TouchCall::SetVector(self.plan.code_gpa),
            TouchStage::Traps => TouchCall::TrapDebugExceptions,
            TouchStage::Ready => TouchCall::Run,
            TouchStage::Left => TouchCall::GetPc,
            TouchStage::TrappedElsewhere { .. } => TouchCall::GetSyndrome,
            TouchStage::Explained { .. } => TouchCall::GetFaultAddress,
            TouchStage::TrappedAtEnd => TouchCall::GetChecksum,
            TouchStage::Finished(result) => TouchCall::Finished(result),
        }
    }

    /// The reply is one to the next call.
    pub open spec fn answers(self, reply: TouchReply) -> bool {
        match self.call_spec() {
            TouchCall::SetRegister { .. } => reply is Done,
            TouchCall::GetSystemControl => reply is Value,
            TouchCall::SetSystemControl(_) => reply is Done,
            TouchCall::SetVector(_) => reply is Done,
            TouchCall::TrapDebugExceptions => reply is Done,
            TouchCall::Run => reply is RunFailed || reply is ExitVanished || reply is Exit,
            TouchCall::GetPc => reply is Value,
            TouchCall::GetSyndrome => reply is Status,
            TouchCall::GetFaultAddress => reply is Status,
            TouchCall::GetChecksum => reply is Value,
            TouchCall::Finished(_) => false,
        }
    }

    /// The stage behind a reply. The guest must have trapped at the last instruction of its
    /// program; only then its checksum counts.
    pub open spec fn next_stage(self, reply: TouchReply) -> TouchStage {
        match (self.stage, reply) {
            (TouchStage::Registers(done), TouchReply::Done(true)) => if done + 1
                < TOUCH_REGISTERS {
                TouchStage::Registers((done + 1) as usize)
            } else {
                TouchStage::Control
            },
            (TouchStage::Registers(done), TouchReply::Done(false)) => TouchStage::Finished(
                Err(
                    TouchError::Register(
                        touch_registers_spec(self.plan, self.seed)[done as int].0,
                    ),
                ),
            ),
            (TouchStage::Control, TouchReply::Value(Some(control))) => TouchStage::ControlSet(
                control,
            ),
            (TouchStage::Control, TouchReply::Value(None)) => TouchStage::Finished(
                Err(TouchError::MmuState),
            ),
            (TouchStage::ControlSet(_), TouchReply::Done(true)) => TouchStage::Vector,
            (TouchStage::ControlSet(_), TouchReply::Done(false)) => TouchStage::Finished(
                Err(TouchError::MmuState),
            ),
            (TouchStage::Vector, TouchReply::Done(true)) => TouchStage::Traps,
            (TouchStage::Vector, TouchReply::Done(false)) => TouchStage::Finished(
                Err(TouchError::ExceptionVector),
            ),
            (TouchStage::Traps, TouchReply::Done(true)) => TouchStage::Ready,
            (TouchStage::Traps, TouchReply::Done(false)) => TouchStage::Finished(
                Err(TouchError::BreakpointTrap),
            ),
            (TouchStage::Ready, TouchReply::RunFailed) => TouchStage::Finished(
                Err(TouchError::Run),
            ),
            (TouchStage::Ready, TouchReply::ExitVanished) => TouchStage::Finished(
                Err(TouchError::ExitVanished),
            ),
            (TouchStage::Ready, TouchReply::Exit(exit)) => if exit.is_exception && exception_class(
                exit.syndrome,
            ) == EC_AA64_BKPT {
                TouchStage::Left
            } else {
                TouchStage::Finished(
                    Err(
                        TouchError::UnexpectedExit {
                            reason: exit.reason,
                            syndrome: exit.syndrome,
                            virtual_address: exit.virtual_address,
                            physical_address: exit.physical_address,
                            code_gpa: self.plan.code_gpa,
                            data_gpa: self.plan.data_gpa,
                        },
                    ),
                )
            },
            (TouchStage::Left, TouchReply::Value(Some(trap_pc))) => if trap_pc
                == self.plan.code_gpa + 32 {
                TouchStage::TrappedAtEnd
            } else {
                TouchStage::TrappedElsewhere { trap_pc }
            },
            (TouchStage::Left, TouchReply::Value(None)) => TouchStage::Finished(
                Err(TouchError::TrapPc),
            ),
            (TouchStage::TrappedElsewhere { trap_pc }, TouchReply::Status { status, value }) =>
                TouchStage::Explained { trap_pc, esr: value, esr_status: status },
            (
                TouchStage::Explained { trap_pc, esr, esr_status },
                TouchReply::Status { status, value },
            ) => TouchStage::Finished(
                Err(
                    TouchError::GuestException {
                        trap_pc,
                        esr,
                        far: value,
                        esr_status,
                        far_status: status,
                    },
                ),
            ),
            (TouchStage::TrappedAtEnd, TouchReply::Value(Some(checksum))) => TouchStage::Finished(
                Ok(checksum),
            ),
            (TouchStage::TrappedAtEnd, TouchReply::Value(None)) => TouchStage::Finished(
                Err(TouchError::Checksum),
            ),
            _ => self.stage,
        }
    }

    /// The next call.
    pub fn call(&self) -> (call: TouchCall)
        requires
            self.wf(),
        ensures
            call == self.call_spec(),
    {
        match self.stage {
            TouchStage::Registers(done) => {
                let registers = touch_registers(self.plan, self.seed);
                let (register, value) = registers[done];
                TouchCall::SetRegister { register, value }
            },
            TouchStage::Control => TouchCall::GetSystemControl,
            TouchStage::ControlSet(control) => TouchCall::SetSystemControl(mmu_disabled(control)),
            TouchStage::Vector => TouchCall::SetVector(self.plan.code_gpa),
            TouchStage::Traps => TouchCall::TrapDebugExceptions,
            TouchStage::Ready => TouchCall::Run,
            TouchStage::Left => TouchCall::GetPc,
            TouchStage::TrappedElsewhere { .. } => TouchCall::GetSyndrome,
            TouchStage::Explained { .. } => TouchCall::GetFaultAddress,
            TouchStage::TrappedAtEnd => TouchCall::GetChecksum,
            TouchStage::Finished(result) => TouchCall::Finished(result),
        }
    }

    /// Takes up how a call went, and gives the next one.
    pub fn step(&mut self, reply: TouchReply) -> (call: TouchCall)
        requires
            old(self).wf(),
            old(self).answers(reply),
        ensures
            final(self).wf(),
            *final(self) == (TouchRun { stage: old(self).next_stage(reply), ..*old(self) }),
            call == final(self).call_spec(),
    {
        self.stage = match (self.stage, reply) {
            (TouchStage::Registers(done), TouchReply::Done(worked)) => {
                if !worked {
                    let registers = touch_registers(self.plan, self.seed);
                    let (register, _) = registers[done];
                    TouchStage::Finished(Err(TouchError::Register(register)))
                } else if done + 1 < TOUCH_REGISTERS {
                    TouchStage::Registers(done + 1)
                } else {
                    TouchStage::Control
                }
            },
            (TouchStage::Control, TouchReply::Value(Some(control))) => TouchStage::ControlSet(
                control,
            ),
            (TouchStage::Control, TouchReply::Value(None)) => TouchStage::Finished(
                Err(TouchError::MmuState),
            ),
            (TouchStage::ControlSet(_), TouchReply::Done(true)) => TouchStage::Vector,
            (TouchStage::ControlSet(_), TouchReply::Done(false)) => TouchStage::Finished(
                Err(TouchError::MmuState),
            ),
            (TouchStage::Vector, TouchReply::Done(true)) => TouchStage::Traps,
            (TouchStage::Vector, TouchReply::Done(false)) => TouchStage::Finished(
                Err(TouchError::ExceptionVector),
            ),
            (TouchStage::Traps, TouchReply::Done(true)) => TouchStage::Ready,
            (TouchStage::Traps, TouchReply::Done(false)) => TouchStage::Finished(
                Err(TouchError::BreakpointTrap),
            ),
            (TouchStage::Ready, TouchReply::RunFailed) => TouchStage::Finished(
                Err(TouchError::Run),
            ),
            (TouchStage::Ready, TouchReply::ExitVanished) => TouchStage::Finished(
                Err(TouchError::ExitVanished),
            ),
            (TouchStage::Ready, TouchReply::Exit(exit)) => self.judge_exit(exit),
            (TouchStage::Left, TouchReply::Value(Some(trap_pc))) => {
                if trap_pc == self.plan.code_gpa + 32 {
                    TouchStage::TrappedAtEnd
                } else {
                    TouchStage::TrappedElsewhere { trap_pc }
                }
            },
            (TouchStage::Left, TouchReply::Value(None)) => TouchStage::Finished(
                Err(TouchError::TrapPc),
            ),
            (TouchStage::TrappedElsewhere { trap_pc }, TouchReply::Status { status, value }) =>
                TouchStage::Explained { trap_pc, esr: value, esr_status: status },
            (
                TouchStage::Explained { trap_pc, esr, esr_status },
                TouchReply::Status { status, value },
            ) => TouchStage::Finished(
                Err(
                    TouchError::GuestException {
                        trap_pc,
                        esr,
                        far: value,
                        esr_status,
                        far_status: status,
                    },
                ),
            ),
            (TouchStage::TrappedAtEnd, TouchReply::Value(Some(checksum))) => TouchStage::Finished(
                Ok(checksum),
            ),
            (TouchStage::TrappedAtEnd, TouchReply::Value(None)) => TouchStage::Finished(
                Err(TouchError::Checksum),
            ),
            (stage, _) => stage,
        };
        self.call()
    }

    /// Judges how the guest was left.
    fn judge_exit(&self, exit: VcpuExit) -> (stage: TouchStage)
        requires
            self.stage == TouchStage::Ready,
        ensures
            stage == self.next_stage(TouchReply::Exit(exit)),
    {
        if !exit.is_exception || (exit.syndrome >> 26) & 0x3f != EC_AA64_BKPT {
            return TouchStage::Finished(
                Err(
                    TouchError::UnexpectedExit {
                        reason: exit.reason,
                        syndrome: exit.syndrome,
                        virtual_address: exit.virtual_address,
                        physical_address: exit.physical_address,
                        code_gpa: self.plan.code_gpa,
                        data_gpa: self.plan.data_gpa,
                    },
                ),
            );
        }
        TouchStage::Left
    }
}

/// Begins a pass of the guest program, in which each page is given a word counted up from the
/// seed.
pub fn run_touch_pass(plan: ScratchPlan, seed: u64) -> (run: TouchRun)
    requires
        plan.page_size > 0,
        plan.code_gpa + 32 <= u64::MAX,
    ensures
        run.wf(),
        run == (TouchRun { plan, seed, stage: TouchStage::Registers(0) }),
{
    TouchRun { plan, seed, stage: TouchStage::Registers(0) }
}

/// A checksum is given only for a guest that trapped at the last instruction of its program: it
/// is asked for only then, and it is what the guest's register holds.
pub proof fn law_checksums_need_a_whole_pass(run: TouchRun, reply: TouchReply, checksum: u64)
    requires
        run.wf(),
        run.answers(reply),
    ensures
        run.next_stage(reply) == TouchStage::TrappedAtEnd ==> run.stage == TouchStage::Left && reply
            == TouchReply::Value(Some((run.plan.code_gpa + 32) as u64)),
        run.next_stage(reply) == TouchStage::Left ==> run.stage == TouchStage::Ready && (
        reply matches TouchReply::Exit(exit) && exit.is_exception && exception_class(exit.syndrome)
            == EC_AA64_BKPT),
        run.next_stage(reply) == TouchStage::Finished(Ok::<u64, TouchError>(checksum))
            ==> run.stage == TouchStage::TrappedAtEnd && reply == TouchReply::Value(
            Some(checksum),
        ),
{
}

} // verus!
