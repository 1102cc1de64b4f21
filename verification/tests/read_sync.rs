use ls2k1000la::mmc::{QuiescedDmaHandoff, ReadDmaQuiescedEvidence, ReadRecoverySync};
use ls2k1000la::platform::DriverError;

struct Handoff {
    failures_left: u32,
}

#[derive(Debug, PartialEq, Eq)]
struct CpuOwned(u32);

impl QuiescedDmaHandoff<CpuOwned> for Handoff {
    fn finish(self) -> Result<CpuOwned, (Self, DriverError)> {
        if self.failures_left > 0 {
            Err((Handoff { failures_left: self.failures_left - 1 }, DriverError::IoError))
        } else {
            Ok(CpuOwned(7))
        }
    }
}

#[test]
fn apbdma_handoff_sync_retries_then_refuses_a_second_sync() {
    let (_evidence, mut sync) =
        ReadDmaQuiescedEvidence::bind_apbdma_handoff::<Handoff, CpuOwned>(Handoff { failures_left: 1 });
    let mut buffer = [0u8; 4];
    assert_eq!(sync.sync_for_cpu(&mut buffer), Err(DriverError::IoError));
    assert_eq!(sync.sync_for_cpu(&mut buffer), Ok(()));
    assert_eq!(sync.sync_for_cpu(&mut buffer), Err(DriverError::InvalidParam));
    assert_eq!(sync.into_cpu_owned(), Some(CpuOwned(7)));
}
