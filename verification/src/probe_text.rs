//! What is shown of a probe: its findings and its failures in words.
//!
//! Where something is known only by the host's number of it, an error of the operating system or
//! a register of the hypervisor, the host's words for it are an argument.
use crate::probe::{
    MemorySample, OperationError, ProbeDetail, ProbeReport, SampleError, TouchError, DATA_SIZE,
};
use crate::scratch::{CleanupFailure, ProbeCleanupError};
use crate::text::{digits, hex, push_digits, push_hex, push_signed, signed_digits};
use vstd::prelude::*;

verus! {

impl SampleError {
    /// Why memory was not sampled.
    pub open spec fn text(self) -> Seq<char> {
        match self {
            SampleError::Status(status) =>
                "TASK_VM_INFO failed with Mach status "@ + signed_digits(status as int),
            SampleError::ShortCount(count) =>
                "TASK_VM_INFO returned short count "@ + digits(count as nat),
        }
    }

    /// Why memory was not sampled.
    pub fn message(self) -> (result: String)
        ensures
            result@ == self.text(),
    {
        match self {
            SampleError::Status(status) => {
                let mut text = String::from_str("TASK_VM_INFO failed with Mach status ");
                push_signed(&mut text, status);
                text
            },
            SampleError::ShortCount(count) => {
                let mut text = String::from_str("TASK_VM_INFO returned short count ");
                push_digits(&mut text, count as u64);
                text
            },
        }
    }
}

impl OperationError {
    /// Which step failed.
    pub open spec fn text(self, host_words: Seq<char>) -> Seq<char> {
        match self {
            OperationError::HostMap(_) => "anonymous mmap: "@ + host_words,
            OperationError::CodeMapRejected => "HVF rejected scratch code mapping"@,
            OperationError::DataMapRejected => "HVF rejected scratch data mapping"@,
            OperationError::VcpuRejected => "HVF rejected scratch vCPU creation"@,
            OperationError::NullExitPointer => "HVF returned a null scratch vCPU exit pointer"@,
            OperationError::ReleaseRejected => "HVF rejected scratch data release"@,
            OperationError::ReleaseAdvice(_) => "scratch MADV_FREE_REUSABLE: "@ + host_words,
            OperationError::RestoreAdvice(_) => "scratch MADV_FREE_REUSE: "@ + host_words,
            OperationError::RestoreRejected => "HVF rejected scratch data restore"@,
        }
    }

    /// Which step failed.
    pub fn message(self, host_words: &str) -> (result: String)
        ensures
            result@ == self.text(host_words@),
    {
        match self {
            OperationError::HostMap(_) => {
                let mut text = String::from_str("anonymous mmap: ");
                text.append(host_words);
                text
            },
            OperationError::CodeMapRejected => String::from_str(
                "HVF rejected scratch code mapping",
            ),
            OperationError::DataMapRejected => String::from_str(
                "HVF rejected scratch data mapping",
            ),
            OperationError::VcpuRejected => String::from_str("HVF rejected scratch vCPU creation"),
            OperationError::NullExitPointer => String::from_str(
                "HVF returned a null scratch vCPU exit pointer",
            ),
            OperationError::ReleaseRejected => String::from_str(
                "HVF rejected scratch data release",
            ),
            OperationError::ReleaseAdvice(_) => {
                let mut text = String::from_str("scratch MADV_FREE_REUSABLE: ");
                text.append(host_words);
                text
            },
            OperationError::RestoreAdvice(_) => {
                let mut text = String::from_str("scratch MADV_FREE_REUSE: ");
                text.append(host_words);
                text
            },
            OperationError::RestoreRejected => String::from_str(
                "HVF rejected scratch data restore",
            ),
        }
    }
}

impl TouchError {
    /// Why a touch pass has no checksum.
    pub open spec fn text(self, host_words: Seq<char>) -> Seq<char> {
        match self {
            TouchError::Register(_) => "failed to initialize scratch register "@ + host_words,
            TouchError::MmuState => "failed to set scratch MMU-disabled state"@,
            TouchError::ExceptionVector => "failed to set scratch exception vector"@,
            TouchError::BreakpointTrap => "failed to configure scratch breakpoint trap"@,
            TouchError::Run => "failed to run scratch vCPU"@,
            TouchError::ExitVanished => "scratch exit pointer vanished"@,
            TouchError::UnexpectedExit {
                reason,
                syndrome,
                virtual_address,
                physical_address,
                code_gpa,
                data_gpa,
            } =>
                "scratch vCPU stopped at unexpected exit reason="@ + digits(reason as nat)
                    + " syndrome="@ + hex(syndrome) + " va="@ + hex(virtual_address) + " pa="@
                    + hex(physical_address) + " code_gpa="@ + hex(code_gpa) + " data_gpa="@
                    + hex(data_gpa),
            TouchError::TrapPc => "failed to read scratch trap PC"@,
            TouchError::GuestException { trap_pc, esr, far, esr_status, far_status } =>
                "scratch guest took an exception: trap_pc="@ + hex(trap_pc) + " esr="@ + hex(esr)
                    + " far="@ + hex(far) + " esr_status="@ + signed_digits(esr_status as int)
                    + " far_status="@ + signed_digits(far_status as int),
            TouchError::Checksum => "failed to read scratch checksum"@,
        }
    }

    /// Why a touch pass has no checksum.
    pub fn message(self, host_words: &str) -> (result: String)
        ensures
            result@ == self.text(host_words@),
    {
        match self {
            TouchError::Register(_) => {
                let mut text = String::from_str("failed to initialize scratch register ");
                text.append(host_words);
                text
            },
            TouchError::MmuState => String::from_str("failed to set scratch MMU-disabled state"),
            TouchError::ExceptionVector => String::from_str(
                "failed to set scratch exception vector",
            ),
            TouchError::BreakpointTrap => String::from_str(
                "failed to configure scratch breakpoint trap",
            ),
            TouchError::Run => String::from_str("failed to run scratch vCPU"),
            TouchError::ExitVanished => String::from_str("scratch exit pointer vanished"),
            TouchError::UnexpectedExit {
                reason,
                syndrome,
                virtual_address,
                physical_address,
                code_gpa,
                data_gpa,
            } => {
                let mut text = String::from_str("scratch vCPU stopped at unexpected exit reason=");
                push_digits(&mut text, reason as u64);
                text.append(" syndrome=");
                push_hex(&mut text, syndrome);
                text.append(" va=");
                push_hex(&mut text, virtual_address);
                text.append(" pa=");
                push_hex(&mut text, physical_address);
                text.append(" code_gpa=");
                push_hex(&mut text, code_gpa);
                text.append(" data_gpa=");
                push_hex(&mut text, data_gpa);
                text
            },
            TouchError::TrapPc => String::from_str("failed to read scratch trap PC"),
            TouchError::GuestException { trap_pc, esr, far, esr_status, far_status } => {
                let mut text = String::from_str("scratch guest took an exception: trap_pc=");
                push_hex(&mut text, trap_pc);
                text.append(" esr=");
                push_hex(&mut text, esr);
                text.append(" far=");
                push_hex(&mut text, far);
                text.append(" esr_status=");
                push_signed(&mut text, esr_status);
                text.append(" far_status=");
                push_signed(&mut text, far_status);
                text
            },
            TouchError::Checksum => String::from_str("failed to read scratch checksum"),
        }
    }
}

impl ProbeReport {
    /// What the report is based on.
    pub open spec fn detail_text(self, host_words: Seq<char>) -> Seq<char> {
        let again = match self.retouched {
            Some(sample) => sample,
            None => MemorySample::zero(),
        };
        match self.detail {
            ProbeDetail::UnsupportedPageSize => "unsupported host page size"@,
            ProbeDetail::NoScratchRange => "no disjoint scratch GPA range"@,
            ProbeDetail::Operation(error) => error.text(host_words),
            ProbeDetail::Sample(error) => error.text(),
            ProbeDetail::Touch(error) => error.text(host_words),
            ProbeDetail::FirstChecksum { expected, got } =>
                "first guest checksum mismatch: expected "@ + hex(expected) + ", got "@ + hex(got),
            ProbeDetail::FirstTouchInvisible =>
                "first guest touch was not visible in every host page"@,
            ProbeDetail::LowRise { charged } =>
                "footprint rise "@ + digits(charged as nat) + " bytes is below 75% of "@
                    + digits(DATA_SIZE as nat),
            ProbeDetail::NegativeControl { charged, dropped } =>
                "negative-control charged="@ + digits(charged as nat) + " dropped="@
                    + digits(dropped as nat) + " resident="@
                    + digits(self.released.resident as nat) + " reusable="@
                    + digits(self.released.reusable as nat),
            ProbeDetail::LowDrop { dropped, charged } =>
                "footprint drop "@ + digits(dropped as nat) + " bytes is below 75% of charged "@
                    + digits(charged as nat),
            ProbeDetail::SecondChecksum { expected, got } =>
                "second guest checksum mismatch: expected "@ + hex(expected) + ", got "@
                    + hex(got),
            ProbeDetail::SecondTouchInvisible =>
                "second guest touch was not visible in every host page"@,
            ProbeDetail::Measured { charged, dropped, recharged } =>
                "charged="@ + digits(charged as nat) + " dropped="@ + digits(dropped as nat)
                    + " recharged="@ + digits(recharged as nat) + " resident="@
                    + digits(self.touched.resident as nat) + "/"@
                    + digits(self.released.resident as nat) + "/"@ + digits(again.resident as nat)
                    + " reusable="@ + digits(self.touched.reusable as nat) + "/"@
                    + digits(self.released.reusable as nat) + "/"@ + digits(again.reusable as nat),
        }
    }

    /// What the report is based on, and that the guest had to be stopped, if it had.
    pub open spec fn text(self, host_words: Seq<char>) -> Seq<char> {
        if self.watchdog_canceled {
            "watchdog cancellation and worker teardown completed; "@ + self.detail_text(host_words)
        } else {
            self.detail_text(host_words)
        }
    }

    fn detail_message(&self, host_words: &str) -> (result: String)
        ensures
            result@ == self.detail_text(host_words@),
    {
        let again = match self.retouched {
            Some(sample) => sample,
            None => MemorySample::default(),
        };
        match self.detail {
            ProbeDetail::UnsupportedPageSize => String::from_str("unsupported host page size"),
            ProbeDetail::NoScratchRange => String::from_str("no disjoint scratch GPA range"),
            ProbeDetail::Operation(error) => error.message(host_words),
            ProbeDetail::Sample(error) => error.message(),
            ProbeDetail::Touch(error) => error.message(host_words),
            ProbeDetail::FirstChecksum { expected, got } => {
                let mut text = String::from_str("first guest checksum mismatch: expected ");
                push_hex(&mut text, expected);
                text.append(", got ");
                push_hex(&mut text, got);
                text
            },
            ProbeDetail::FirstTouchInvisible => String::from_str(
                "first guest touch was not visible in every host page",
            ),
            ProbeDetail::LowRise { charged } => {
                let mut text = String::from_str("footprint rise ");
                push_digits(&mut text, charged);
                text.append(" bytes is below 75% of ");
                push_digits(&mut text, DATA_SIZE);
                text
            },
            ProbeDetail::NegativeControl { charged, dropped } => {
                let mut text = String::from_str("negative-control charged=");
                push_digits(&mut text, charged);
                text.append(" dropped=");
                push_digits(&mut text, dropped);
                text.append(" resident=");
                push_digits(&mut text, self.released.resident);
                text.append(" reusable=");
                push_digits(&mut text, self.released.reusable);
                text
            },
            ProbeDetail::LowDrop { dropped, charged } => {
                let mut text = String::from_str("footprint drop ");
                push_digits(&mut text, dropped);
                text.append(" bytes is below 75% of charged ");
                push_digits(&mut text, charged);
                text
            },
            ProbeDetail::SecondChecksum { expected, got } => {
                let mut text = String::from_str("second guest checksum mismatch: expected ");
                push_hex(&mut text, expected);
                text.append(", got ");
                push_hex(&mut text, got);
                text
            },
            ProbeDetail::SecondTouchInvisible => String::from_str(
                "second guest touch was not visible in every host page",
            ),
            ProbeDetail::Measured { charged, dropped, recharged } => {
                let mut text = String::from_str("charged=");
                push_digits(&mut text, charged);
                text.append(" dropped=");
                push_digits(&mut text, dropped);
                text.append(" recharged=");
                push_digits(&mut text, recharged);
                text.append(" resident=");
                push_digits(&mut text, self.touched.resident);
                text.append("/");
                push_digits(&mut text, self.released.resident);
                text.append("/");
                push_digits(&mut text, again.resident);
                text.append(" reusable=");
                push_digits(&mut text, self.touched.reusable);
                text.append("/");
                push_digits(&mut text, self.released.reusable);
                text.append("/");
                push_digits(&mut text, again.reusable);
                text
            },
        }
    }

    /// What the report is based on, and that the guest had to be stopped, if it had.
    pub fn message(&self, host_words: &str) -> (result: String)
        ensures
            result@ == self.text(host_words@),
    {
        let detail = self.detail_message(host_words);
        if self.watchdog_canceled {
            let mut text = String::from_str(
                "watchdog cancellation and worker teardown completed; ",
            );
            text.append(detail.as_str());
            return text;
        }
        detail
    }
}

impl CleanupFailure {
    /// What was left behind.
    pub open spec fn text(self, host_words: Seq<char>) -> Seq<char> {
        match self {
            CleanupFailure::DataUnmap => "scratch data HVF unmap"@,
            CleanupFailure::CodeUnmap => "scratch code HVF unmap"@,
            CleanupFailure::EmergencyDestroy => "emergency HVF VM destroy"@,
            CleanupFailure::HostUnmap(_) => "host munmap: "@ + host_words,
            CleanupFailure::VcpuDestroy => "HVF rejected scratch vCPU destruction"@,
            CleanupFailure::NullExitAndDestroy =>
                "null scratch vCPU exit pointer and destroy failed"@,
            CleanupFailure::WorkerPanicked => "scratch probe worker panicked"@,
            CleanupFailure::NonExecutionPhase =>
                "scratch probe worker exceeded its bounded non-execution phase"@,
            CleanupFailure::VcpuExit =>
                "scratch vCPU deadline and hv_vcpus_exit failed; worker retains all VM memory ownership"@,
        }
    }

    /// What was left behind.
    pub fn message(self, host_words: &str) -> (result: String)
        ensures
            result@ == self.text(host_words@),
    {
        match self {
            CleanupFailure::DataUnmap => String::from_str("scratch data HVF unmap"),
            CleanupFailure::CodeUnmap => String::from_str("scratch code HVF unmap"),
            CleanupFailure::EmergencyDestroy => String::from_str("emergency HVF VM destroy"),
            CleanupFailure::HostUnmap(_) => {
                let mut text = String::from_str("host munmap: ");
                text.append(host_words);
                text
            },
            CleanupFailure::VcpuDestroy => String::from_str(
                "HVF rejected scratch vCPU destruction",
            ),
            CleanupFailure::NullExitAndDestroy => String::from_str(
                "null scratch vCPU exit pointer and destroy failed",
            ),
            CleanupFailure::WorkerPanicked => String::from_str("scratch probe worker panicked"),
            CleanupFailure::NonExecutionPhase => String::from_str(
                "scratch probe worker exceeded its bounded non-execution phase",
            ),
            CleanupFailure::VcpuExit => String::from_str(
                "scratch vCPU deadline and hv_vcpus_exit failed; worker retains all VM memory ownership",
            ),
        }
    }
}

/// What every failed cleanup is introduced by.
pub open spec fn cleanup_intro() -> Seq<char> {
    "scratch reclaim probe cleanup failed: "@
}

impl CleanupFailure {
    /// The failure is one of the vCPU's cleanup, which comes before that of the mappings.
    pub open spec fn of_vcpu(self) -> bool {
        self is VcpuDestroy || self is NullExitAndDestroy
    }

    fn is_of_vcpu(&self) -> (result: bool)
        ensures
            result == self.of_vcpu(),
    {
        match self {
            CleanupFailure::VcpuDestroy => true,
            CleanupFailure::NullExitAndDestroy => true,
            _ => false,
        }
    }
}

/// The failures from one on, in order, with commas between them.
pub open spec fn failures_text(
    failures: Seq<CleanupFailure>,
    host_words: Seq<Seq<char>>,
    from: int,
) -> Seq<char>
    decreases failures.len() - from,
{
    if from >= failures.len() {
        seq![]
    } else if from + 1 == failures.len() {
        failures[from].text(host_words[from])
    } else {
        failures[from].text(host_words[from]) + ", "@ + failures_text(
            failures,
            host_words,
            from + 1,
        )
    }
}

impl ProbeCleanupError {
    /// The failed cleanup, with the host's words for each failure. Where the vCPU and the
    /// mappings were both left behind, each is introduced by itself.
    pub open spec fn text(self, host_words: Seq<Seq<char>>) -> Seq<char> {
        if self.0@.len() > 1 && self.0@[0].of_vcpu() {
            cleanup_intro() + cleanup_intro() + self.0@[0].text(host_words[0]) + "; "@
                + cleanup_intro() + failures_text(self.0@, host_words, 1)
        } else {
            cleanup_intro() + failures_text(self.0@, host_words, 0)
        }
    }

    /// The failed cleanup, with the host's words for each failure.
    pub fn message(&self, host_words: &Vec<String>) -> (result: String)
        requires
            host_words@.len() == self.0@.len(),
        ensures
            result@ == self.text(words_of(host_words@)),
    {
        let intro: &str = "scratch reclaim probe cleanup failed: ";
        let mut text = String::from_str(intro);
        let mut from: usize = 0;
        if self.0.len() > 1 && self.0[0].is_of_vcpu() {
            text.append(intro);
            let first = self.0[0].message(host_words[0].as_str());
            text.append(first.as_str());
            text.append("; ");
            text.append(intro);
            from = 1;
        }
        push_failures(&mut text, &self.0, host_words, from);
        text
    }
}

/// The characters of each text.
pub open spec fn words_of(texts: Seq<String>) -> Seq<Seq<char>> {
    texts.map_values(|text: String| text@)
}

/// Appends the failures from one on.
fn push_failures(
    text: &mut String,
    failures: &Vec<CleanupFailure>,
    host_words: &Vec<String>,
    from: usize,
)
    requires
        host_words@.len() == failures@.len(),
    ensures
        final(text)@ == old(text)@ + failures_text(failures@, words_of(host_words@), from as int),
    decreases failures@.len() - from,
{
    if from < failures.len() {
        let first = failures[from].message(host_words[from].as_str());
        text.append(first.as_str());
        if from + 1 < failures.len() {
            text.append(", ");
            push_failures(text, failures, host_words, from + 1);
        }
    }
    assert(text@ =~= old(text)@ + failures_text(failures@, words_of(host_words@), from as int));
}

} // verus!
