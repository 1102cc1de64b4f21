use ls2k1000la::clock::{
    snapshot, snapshot_consistent, snapshot_provider, ClockError, ConsistencyStage, RegisterIo,
    APB_SCALE_OFFSET, DC_PLL_OFFSET, GMAC_DIV_OFFSET,
};
use ls2k1000la::platform::MmioRegion;
use ls2k1000la::topology::MmcClockProvider;

struct Model {
    dc_pll: u64,
    gmac_div: u32,
    apb_scale: u64,
    fail_at: Option<usize>,
    reads: Vec<(usize, usize)>,
}

impl RegisterIo for Model {
    fn reads(&self) -> ls2k1000la::clock::ReadHistory {
        unreachable!("specification only")
    }

    fn read32(&mut self, offset: usize) -> Result<u32, ClockError> {
        self.reads.push((offset, 4));
        if self.fail_at == Some(offset) {
            Err(ClockError::Io)
        } else {
            Ok(self.gmac_div)
        }
    }
    fn read64(&mut self, offset: usize) -> Result<u64, ClockError> {
        self.reads.push((offset, 8));
        if self.fail_at == Some(offset) {
            Err(ClockError::Io)
        } else if offset == DC_PLL_OFFSET {
            Ok(self.dc_pll)
        } else {
            Ok(self.apb_scale)
        }
    }
}

fn model() -> Model {
    // 100 MHz * 10 / 2 = 500 MHz; /4 = 125 MHz; *4/8 = 62.5 MHz.
    Model { dc_pll: (10u64 << 32) | (2u64 << 26), gmac_div: 4 << 22, apb_scale: 3 << 20, fail_at: None, reads: Vec::new() }
}

#[test]
fn snapshots_documented_apb_path_in_fixed_read_order() {
    let mut io = model();
    let state = snapshot(&mut io, 100_000_000).unwrap();
    assert_eq!(state.dc_pll_hz, 500_000_000);
    assert_eq!(state.gmac_hz, 125_000_000);
    assert_eq!(state.apb_hz, 62_500_000);
    assert_eq!(io.reads, [(0x20, 8), (0x28, 4), (0x50, 8)]);
}

#[test]
fn accepts_linux_allow_zero_divider_as_bypass() {
    let mut io = model();
    io.gmac_div = 0;
    assert_eq!(snapshot(&mut io, 100_000_000).unwrap().gmac_hz, 500_000_000);
}

#[test]
fn rejects_invalid_rates_and_propagates_each_read_failure() {
    let mut io = model();
    assert_eq!(snapshot(&mut io, 0), Err(ClockError::ZeroReference));
    assert!(io.reads.is_empty());

    for offset in [DC_PLL_OFFSET, GMAC_DIV_OFFSET, APB_SCALE_OFFSET] {
        let mut io = model();
        io.fail_at = Some(offset);
        assert_eq!(snapshot(&mut io, 100_000_000), Err(ClockError::Io));
    }
    let mut io = model();
    io.dc_pll = 2 << 26;
    assert_eq!(snapshot(&mut io, 100_000_000), Err(ClockError::ZeroPllMultiplier));
    let mut io = model();
    io.dc_pll = 10 << 32;
    assert_eq!(snapshot(&mut io, 100_000_000), Err(ClockError::ZeroPllDivisor));
}

#[test]
fn topology_provider_supplies_reference_and_unsupported_never_reads() {
    let mut io = model();
    let provider = MmcClockProvider::Loongson2k {
        mmio: MmioRegion { base: 0x1FE0_0480, size: 0x58 },
        reference_hz: 100_000_000,
    };
    assert_eq!(snapshot_provider(provider, &mut io).unwrap().apb_hz, 62_500_000);

    let mut io = model();
    assert_eq!(
        snapshot_provider(MmcClockProvider::Unsupported { phandle: 7 }, &mut io),
        Err(ClockError::UnsupportedProvider)
    );
    assert!(io.reads.is_empty());
}

#[test]
fn consistent_snapshot_requires_two_identical_complete_reads() {
    let mut io = model();
    let evidence = snapshot_consistent(&mut io, 100_000_000).unwrap();
    assert_eq!(evidence.snapshot().apb_hz, 62_500_000);
    assert_eq!(io.reads, [(0x20, 8), (0x28, 4), (0x50, 8), (0x20, 8), (0x28, 4), (0x50, 8)]);
}

struct ChangingModel {
    inner: Model,
    gmac_reads: usize,
    second_gmac: u32,
    fail_call: Option<usize>,
    calls: usize,
}

impl RegisterIo for ChangingModel {
    fn reads(&self) -> ls2k1000la::clock::ReadHistory {
        unreachable!("specification only")
    }

    fn read32(&mut self, offset: usize) -> Result<u32, ClockError> {
        self.calls += 1;
        if self.fail_call == Some(self.calls) {
            return Err(ClockError::Io);
        }
        assert_eq!(offset, GMAC_DIV_OFFSET);
        self.gmac_reads += 1;
        Ok(if self.gmac_reads == 1 { self.inner.gmac_div } else { self.second_gmac })
    }

    fn read64(&mut self, offset: usize) -> Result<u64, ClockError> {
        self.calls += 1;
        if self.fail_call == Some(self.calls) {
            return Err(ClockError::Io);
        }
        match offset {
            DC_PLL_OFFSET => Ok(self.inner.dc_pll),
            APB_SCALE_OFFSET => Ok(self.inner.apb_scale),
            _ => panic!("unexpected clock offset {offset:#x}"),
        }
    }
}

fn changing(second_gmac: u32, fail_call: Option<usize>) -> ChangingModel {
    ChangingModel { inner: model(), gmac_reads: 0, second_gmac, fail_call, calls: 0 }
}

#[test]
fn mismatch_retains_both_generations_and_can_revalidate() {
    let mut io = changing(5 << 22, None);
    let recovery = snapshot_consistent(&mut io, 100_000_000).unwrap_err();
    assert_eq!(recovery.stage, ConsistencyStage::Mismatch);
    assert_eq!(recovery.first.unwrap().gmac_div_raw, 4 << 22);
    assert_eq!(recovery.second.unwrap().gmac_div_raw, 5 << 22);

    let mut stable = model();
    assert_eq!(recovery.revalidate(&mut stable, 100_000_000).unwrap().snapshot().apb_hz, 62_500_000);
}

#[test]
fn read_failure_reports_stage_without_inventing_later_evidence() {
    let mut first = changing(4 << 22, Some(1));
    let failure = snapshot_consistent(&mut first, 100_000_000).unwrap_err();
    assert_eq!(failure.stage, ConsistencyStage::FirstRead);
    assert_eq!(failure.error, Some(ClockError::Io));
    assert_eq!(failure.first, None);

    let mut second = changing(4 << 22, Some(5));
    let failure = snapshot_consistent(&mut second, 100_000_000).unwrap_err();
    assert_eq!(failure.stage, ConsistencyStage::SecondRead);
    assert_eq!(failure.error, Some(ClockError::Io));
    assert!(failure.first.is_some());
    assert_eq!(failure.second, None);
}
