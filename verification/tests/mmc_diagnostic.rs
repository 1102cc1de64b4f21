use ls2k1000la::mmc::{
    assess_command_validation, CommandPostObservationFailure, CommandPostObservationStage,
    CommandPostSnapshot, CommandStage, CommandTrace, CommandTraceOutcome, ResponseType,
    ResponseValidation, COMMAND_TRACE_CAPACITY,
};
use ls2k1000la::mmc_diagnostic::{
    command_post_text, write_command_assessment, write_command_post, write_command_trace, DiagnosticGate,
    GateError,
};
use ls2k1000la::platform::MmcError;

struct FixedBuffer<const N: usize> {
    bytes: [u8; N],
    len: usize,
}

impl<const N: usize> FixedBuffer<N> {
    fn new() -> Self {
        Self { bytes: [0; N], len: 0 }
    }

    fn text(&self) -> &str {
        core::str::from_utf8(&self.bytes[..self.len]).unwrap()
    }
}

impl<const N: usize> core::fmt::Write for FixedBuffer<N> {
    fn write_str(&mut self, value: &str) -> core::fmt::Result {
        let end = self.len.checked_add(value.len()).ok_or(core::fmt::Error)?;
        if end > N {
            return Err(core::fmt::Error);
        }
        self.bytes[self.len..end].copy_from_slice(value.as_bytes());
        self.len = end;
        Ok(())
    }
}

#[test]
fn diagnostic_gate_rejects_reentry_and_reopens_on_drop() {
    let gate = DiagnosticGate::new();
    let guard = gate.try_enter().unwrap();
    assert!(matches!(gate.try_enter(), Err(GateError::Busy)));
    drop(guard);
    assert!(gate.try_enter().is_ok());
}

#[test]
fn command_evidence_format_is_stable_and_bounded() {
    let post = CommandPostSnapshot { argument: 0, control: 0, command_status: 0, data_status: 0, interrupts: 0 };
    let mut output = FixedBuffer::<256>::new();
    write_command_post(&mut output, Ok(post)).unwrap();
    assert_eq!(
        output.text(),
        "controller=ok carg=0x0 cctl=0x0 csts=0x0 dsts=0x0 int=0x0 idle=1 \
         clean=1 int_known=0x0 int_unknown=0x0"
    );

    let trace = CommandTrace {
        command_index: 8,
        argument: 0x1AA,
        response: ResponseType::Short,
        validation: ResponseValidation::Unchecked,
        programmed_control: Some(0x348),
        interrupt_samples: [0; COMMAND_TRACE_CAPACITY],
        interrupt_sample_count: 2,
        dropped_interrupt_samples: 1,
        interrupt_union: 0x140,
        response_read_mask: 1,
        cleanup_argument_written: true,
        cleanup_control_written: false,
        outcome: CommandTraceOutcome::Failed(CommandStage::CleanupControl),
    };
    let mut output = FixedBuffer::<256>::new();
    write_command_trace(&mut output, trace).unwrap();
    assert_eq!(
        output.text(),
        "trace=present cmd=8 arg=0x1aa response=short validation=unchecked cctl=0x348 \
         samples=2 dropped=1 int_union=0x140 rsp_mask=0x1 cleanup=1/0 \
         outcome=failed:cleanup-cctl"
    );

    let assessment = assess_command_validation(trace, post);
    let mut output = FixedBuffer::<192>::new();
    write_command_assessment(&mut output, assessment).unwrap();
    assert_eq!(
        output.text(),
        "assessment=incomplete-trace completed=0 trace_complete=0 idle=1 clean=1 \
         int_known=0x0 int_unknown=0x0"
    );

    let mut too_small = FixedBuffer::<8>::new();
    assert_eq!(write_command_post(&mut too_small, Ok(post)), Err(core::fmt::Error));
}

#[test]
fn command_post_failure_format_retains_partial_fields() {
    let failure = CommandPostObservationFailure {
        stage: CommandPostObservationStage::ReadDataStatus,
        error: MmcError::RegisterOutOfRange,
        argument: Some(0),
        control: Some(0),
        command_status: Some(1 << 8),
        data_status: None,
    };
    let mut output = FixedBuffer::<160>::new();
    write_command_post(&mut output, Err(failure)).unwrap();
    assert_eq!(output.text(), "controller=error:read-dsts carg=0x0 cctl=0x0 csts=0x100 dsts=na int=na");
}

#[test]
fn busy_controller_with_unknown_interrupts_is_reported_dirty() {
    let post = CommandPostSnapshot {
        argument: 0x10,
        control: 0,
        command_status: 0x100,
        data_status: 0,
        interrupts: 0x1401,
    };
    assert_eq!(
        command_post_text(Ok(post)),
        "controller=ok carg=0x10 cctl=0x0 csts=0x100 dsts=0x0 int=0x1401 idle=0 clean=0 \
         int_known=0x1 int_unknown=0x1400"
    );
}
