//! Read-only Loongson-2K1000 clock diagnostics and coherence evidence.
//!
//! The documented MMC parent is the APB clock, modelled as 100 MHz reference
//! -> DC PLL -> GMAC divider -> APB scale. This module never writes a clock
//! register and is not proof that the physical clock is stable or usable.
use vstd::prelude::*;

use crate::topology::MmcClockProvider;

verus! {

pub const DC_PLL_OFFSET: usize = 0x20;

pub const GMAC_DIV_OFFSET: usize = 0x28;

pub const APB_SCALE_OFFSET: usize = 0x50;

#[derive(Debug, Clone, Copy, PartialEq, Eq, Structural)]
pub enum ClockError {
    Io,
    ZeroReference,
    ZeroPllMultiplier,
    ZeroPllDivisor,
    RateOverflow,
    Inconsistent,
    UnsupportedProvider,
}

/// One read of the clock controller window, with its result.
#[derive(Debug, Clone, Copy, PartialEq, Eq)]
pub enum ClockRead {
    Word(usize, Result<u32, ClockError>),
    Double(usize, Result<u64, ClockError>),
}

/// History of the reads made through a [`RegisterIo`] backend.
pub type ReadHistory = Seq<ClockRead>;

/// Read-only access to the clock controller window. Each read is recorded,
/// with its result, at the end of the backend's read history.
pub trait RegisterIo {
    /// Every read made through this backend so far, oldest first.
    spec fn reads(&self) -> ReadHistory;

    fn read32(&mut self, offset: usize) -> (result: Result<u32, ClockError>)
        ensures
            final(self).reads() == old(self).reads().push(ClockRead::Word(offset, result)),
    ;

    fn read64(&mut self, offset: usize) -> (result: Result<u64, ClockError>)
        ensures
            final(self).reads() == old(self).reads().push(ClockRead::Double(offset, result)),
    ;
}

#[derive(Debug, Clone, Copy, PartialEq, Eq, Structural)]
pub struct ClockSnapshot {
    pub dc_pll_raw: u64,
    pub gmac_div_raw: u32,
    pub apb_scale_raw: u64,
    pub reference_hz: u32,
    pub dc_pll_hz: u64,
    pub gmac_hz: u64,
    pub apb_hz: u64,
}

/// Bit field `value[shift .. shift + width]`.
pub open spec fn field(value: u64, shift: u64, width: u64) -> u64 {
    (value >> shift) & ((1u64 << width) - 1) as u64
}

pub open spec fn pll_multiplier(dc_pll_raw: u64) -> u64 {
    field(dc_pll_raw, 32, 10)
}

pub open spec fn pll_divisor(dc_pll_raw: u64) -> u64 {
    field(dc_pll_raw, 26, 6)
}

/// The GMAC divider is one-based and a zero field bypasses it.
pub open spec fn gmac_divisor(gmac_div_raw: u32) -> u64 {
    let d = field(gmac_div_raw as u64, 22, 6);
    if d == 0 {
        1
    } else {
        d
    }
}

pub open spec fn apb_scale(apb_scale_raw: u64) -> u64 {
    (field(apb_scale_raw, 20, 3) + 1) as u64
}

/// The parent chain that the three raw register values describe.
pub open spec fn decode_spec(
    dc_pll_raw: u64,
    gmac_div_raw: u32,
    apb_scale_raw: u64,
    reference_hz: u32,
) -> Result<ClockSnapshot, ClockError> {
    if reference_hz == 0 {
        Err(ClockError::ZeroReference)
    } else if pll_multiplier(dc_pll_raw) == 0 {
        Err(ClockError::ZeroPllMultiplier)
    } else if pll_divisor(dc_pll_raw) == 0 {
        Err(ClockError::ZeroPllDivisor)
    } else {
        let dc_pll_hz = ((reference_hz as int) * (pll_multiplier(dc_pll_raw) as int) / (
        pll_divisor(dc_pll_raw) as int)) as u64;
        let gmac_hz = dc_pll_hz / gmac_divisor(gmac_div_raw);
        let apb_hz = ((gmac_hz as int) * (apb_scale(apb_scale_raw) as int) / 8) as u64;
        Ok(
            ClockSnapshot {
                dc_pll_raw,
                gmac_div_raw,
                apb_scale_raw,
                reference_hz,
                dc_pll_hz,
                gmac_hz,
                apb_hz,
            },
        )
    }
}

/// Derive the parent chain from the three raw registers.
pub fn decode_snapshot(dc_pll_raw: u64, gmac_div_raw: u32, apb_scale_raw: u64, reference_hz: u32) -> (result:
    Result<ClockSnapshot, ClockError>)
    ensures
        result == decode_spec(dc_pll_raw, gmac_div_raw, apb_scale_raw, reference_hz),
{
    if reference_hz == 0 {
        return Err(ClockError::ZeroReference);
    }
    let multiplier = (dc_pll_raw >> 32u64) & 0x3ff;
    let pll_div = (dc_pll_raw >> 26u64) & 0x3f;
    assert(multiplier == pll_multiplier(dc_pll_raw) && multiplier < 1024) by (bit_vector)
        requires
            multiplier == (dc_pll_raw >> 32u64) & 0x3ff,
    ;
    assert(pll_div == pll_divisor(dc_pll_raw) && pll_div < 64) by (bit_vector)
        requires
            pll_div == (dc_pll_raw >> 26u64) & 0x3f,
    ;
    if multiplier == 0 {
        return Err(ClockError::ZeroPllMultiplier);
    }
    if pll_div == 0 {
        return Err(ClockError::ZeroPllDivisor);
    }
    let reference = reference_hz as u64;
    assert(reference * multiplier <= 0xffff_ffffu64 * 1023) by (nonlinear_arith)
        requires
            reference <= 0xffff_ffffu64,
            multiplier < 1024,
    ;
    let dc_pll_hz = reference * multiplier / pll_div;
    let gmac_raw = gmac_div_raw as u64;
    let gmac_field = (gmac_raw >> 22u64) & 0x3f;
    assert(gmac_field == field(gmac_div_raw as u64, 22, 6)) by (bit_vector)
        requires
            gmac_field == (gmac_raw >> 22u64) & 0x3f,
            gmac_raw == gmac_div_raw as u64,
    ;
    let gmac_div = if gmac_field == 0 {
        1
    } else {
        gmac_field
    };
    let gmac_hz = dc_pll_hz / gmac_div;
    let scale_field = (apb_scale_raw >> 20u64) & 0x7;
    assert(scale_field == field(apb_scale_raw, 20, 3) && scale_field < 8) by (bit_vector)
        requires
            scale_field == (apb_scale_raw >> 20u64) & 0x7,
    ;
    let scale = scale_field + 1;
    assert(dc_pll_hz as int <= reference as int * multiplier as int) by (nonlinear_arith)
        requires
            dc_pll_hz as int == (reference as int * multiplier as int) / pll_div as int,
            pll_div >= 1,
            reference as int * multiplier as int >= 0,
    ;
    assert(gmac_hz <= dc_pll_hz) by (nonlinear_arith)
        requires
            gmac_hz as int == dc_pll_hz as int / gmac_div as int,
            gmac_div >= 1,
    ;
    assert(gmac_hz * scale <= 0xffff_ffffu64 * 1023 * 8) by (nonlinear_arith)
        requires
            gmac_hz <= 0xffff_ffffu64 * 1023,
            scale <= 8,
    ;
    let apb_hz = gmac_hz * scale / 8;
    Ok(
        ClockSnapshot {
            dc_pll_raw,
            gmac_div_raw,
            apb_scale_raw,
            reference_hz,
            dc_pll_hz,
            gmac_hz,
            apb_hz,
        },
    )
}

/// A successful read of the DC PLL word.
pub open spec fn pll_read(dc_pll: u64) -> ClockRead {
    ClockRead::Double(DC_PLL_OFFSET, Ok(dc_pll))
}

/// A successful read of the GMAC divider.
pub open spec fn divider_read(gmac_div: u32) -> ClockRead {
    ClockRead::Word(GMAC_DIV_OFFSET, Ok(gmac_div))
}

/// The reads of one snapshot on a window whose read history was `before`
/// and is now `after`: the 64-bit DC PLL word, the 32-bit GMAC divider and
/// the 64-bit APB scale, in that order, each only if the one before it
/// succeeded; a failed read is the result, and three successful reads are
/// decoded. A zero reference reads nothing.
pub open spec fn snapshot_reads(
    before: Seq<ClockRead>,
    after: Seq<ClockRead>,
    reference_hz: u32,
    result: Result<ClockSnapshot, ClockError>,
) -> bool {
    if reference_hz == 0 {
        after == before && result == Err::<ClockSnapshot, ClockError>(ClockError::ZeroReference)
    } else {
        ||| (result matches Err(error) && after == before.push(
            ClockRead::Double(DC_PLL_OFFSET, Err(error)),
        ))
        ||| exists|dc_pll: u64|
            #![trigger pll_read(dc_pll)]
            (result matches Err(error) && after == before + seq![
                pll_read(dc_pll),
                ClockRead::Word(GMAC_DIV_OFFSET, Err(error)),
            ])
        ||| exists|dc_pll: u64, gmac_div: u32|
            #![trigger pll_read(dc_pll), divider_read(gmac_div)]
            (result matches Err(error) && after == before + seq![
                pll_read(dc_pll),
                divider_read(gmac_div),
                ClockRead::Double(APB_SCALE_OFFSET, Err(error)),
            ])
        ||| exists|dc_pll: u64, gmac_div: u32, apb_scale: u64|
            #![trigger decode_spec(dc_pll, gmac_div, apb_scale, reference_hz)]
            result == decode_spec(dc_pll, gmac_div, apb_scale, reference_hz) && after == before
                + seq![
                pll_read(dc_pll),
                divider_read(gmac_div),
                ClockRead::Double(APB_SCALE_OFFSET, Ok(apb_scale)),
            ]
    }
}

/// Read DC PLL, GMAC divider and APB scale in that order and decode them.
pub fn snapshot<R: RegisterIo>(registers: &mut R, reference_hz: u32) -> (result: Result<
    ClockSnapshot,
    ClockError,
>)
    ensures
        reference_hz == 0 ==> result == Err::<ClockSnapshot, ClockError>(
            ClockError::ZeroReference,
        ),
        match result {
            Ok(snapshot) => Ok::<ClockSnapshot, ClockError>(snapshot) == decode_spec(
                snapshot.dc_pll_raw,
                snapshot.gmac_div_raw,
                snapshot.apb_scale_raw,
                reference_hz,
            ),
            Err(_) => true,
        },
        snapshot_reads(old(registers).reads(), final(registers).reads(), reference_hz, result),
{
    if reference_hz == 0 {
        return Err(ClockError::ZeroReference);
    }
    let ghost before = registers.reads();
    let dc_pll_raw = match registers.read64(DC_PLL_OFFSET) {
        Ok(value) => value,
        Err(error) => return Err(error),
    };
    let gmac_div_raw = match registers.read32(GMAC_DIV_OFFSET) {
        Ok(value) => value,
        Err(error) => {
            assert(registers.reads() =~= before + seq![
                pll_read(dc_pll_raw),
                ClockRead::Word(GMAC_DIV_OFFSET, Err(error)),
            ]);
            return Err(error);
        },
    };
    let apb_scale_raw = match registers.read64(APB_SCALE_OFFSET) {
        Ok(value) => value,
        Err(error) => {
            assert(registers.reads() =~= before + seq![
                pll_read(dc_pll_raw),
                divider_read(gmac_div_raw),
                ClockRead::Double(APB_SCALE_OFFSET, Err(error)),
            ]);
            return Err(error);
        },
    };
    assert(registers.reads() =~= before + seq![
        pll_read(dc_pll_raw),
        divider_read(gmac_div_raw),
        ClockRead::Double(APB_SCALE_OFFSET, Ok(apb_scale_raw)),
    ]);
    decode_snapshot(dc_pll_raw, gmac_div_raw, apb_scale_raw, reference_hz)
}

pub fn snapshot_provider<R: RegisterIo>(provider: MmcClockProvider, registers: &mut R) -> (result:
    Result<ClockSnapshot, ClockError>)
    ensures
        match provider {
            MmcClockProvider::Loongson2k { reference_hz, .. } => (reference_hz == 0 ==> result
                == Err::<ClockSnapshot, ClockError>(ClockError::ZeroReference)) && match result {
                Ok(snapshot) => Ok::<ClockSnapshot, ClockError>(snapshot) == decode_spec(
                    snapshot.dc_pll_raw,
                    snapshot.gmac_div_raw,
                    snapshot.apb_scale_raw,
                    reference_hz,
                ),
                Err(_) => true,
            },
            MmcClockProvider::Unsupported { .. } => result == Err::<ClockSnapshot, ClockError>(
                ClockError::UnsupportedProvider,
            ),
        },
{
    match provider {
        MmcClockProvider::Loongson2k { reference_hz, .. } => snapshot(registers, reference_hz),
        MmcClockProvider::Unsupported { .. } => Err(ClockError::UnsupportedProvider),
    }
}

/// Two consecutive, identical software observations.
///
/// This opaque value rejects an obvious concurrent transition, but it is not
/// physical frequency/stability proof and grants no register-write authority.
#[derive(Debug, Clone, Copy, PartialEq, Eq, Structural)]
pub struct ConsistentClockSnapshot {
    snapshot: ClockSnapshot,
}

impl View for ConsistentClockSnapshot {
    type V = ClockSnapshot;

    closed spec fn view(&self) -> ClockSnapshot {
        self.snapshot
    }
}

impl ConsistentClockSnapshot {
    pub fn snapshot(&self) -> (r: ClockSnapshot)
        ensures
            r == self@,
    {
        self.snapshot
    }
}

#[derive(Debug, Clone, Copy, PartialEq, Eq, Structural)]
pub enum ConsistencyStage {
    FirstRead,
    SecondRead,
    Mismatch,
}

/// Evidence retained when a two-snapshot read-only transaction is uncertain.
#[derive(Debug, Clone, Copy, PartialEq, Eq, Structural)]
pub struct ConsistencyRecovery {
    pub stage: ConsistencyStage,
    pub error: Option<ClockError>,
    pub first: Option<ClockSnapshot>,
    pub second: Option<ClockSnapshot>,
}

/// What a consistency check reports for each of its stages.
pub open spec fn consistency_outcome(
    result: Result<ConsistentClockSnapshot, ConsistencyRecovery>,
    reference_hz: u32,
) -> bool {
    match result {
        Ok(consistent) => Ok::<ClockSnapshot, ClockError>(consistent@) == decode_spec(
            consistent@.dc_pll_raw,
            consistent@.gmac_div_raw,
            consistent@.apb_scale_raw,
            reference_hz,
        ),
        Err(recovery) => match recovery.stage {
            ConsistencyStage::FirstRead => recovery.error is Some && recovery.first is None
                && recovery.second is None && (reference_hz == 0 ==> recovery.error == Some(
                ClockError::ZeroReference,
            )),
            ConsistencyStage::SecondRead => recovery.error is Some && recovery.first is Some
                && recovery.second is None && reference_hz != 0,
            ConsistencyStage::Mismatch => recovery.error is None && recovery.first is Some
                && recovery.second is Some && recovery.first != recovery.second && reference_hz
                != 0,
        },
    }
}

/// Two snapshots, in order, on a window whose read history was `before`
/// and is now `after`, ending in `first` and `second`.
pub open spec fn two_snapshot_reads(
    before: Seq<ClockRead>,
    after: Seq<ClockRead>,
    reference_hz: u32,
    first: Result<ClockSnapshot, ClockError>,
    second: Result<ClockSnapshot, ClockError>,
) -> bool {
    exists|middle: Seq<ClockRead>|
        #[trigger] snapshot_reads(before, middle, reference_hz, first) && snapshot_reads(
            middle,
            after,
            reference_hz,
            second,
        )
}

/// The reads of a two-snapshot consistency check on a window whose read
/// history was `before` and is now `after`: one snapshot, then, only if it
/// succeeded, a second one, each recording what `result` reports of it.
pub open spec fn consistency_reads(
    before: Seq<ClockRead>,
    after: Seq<ClockRead>,
    reference_hz: u32,
    result: Result<ConsistentClockSnapshot, ConsistencyRecovery>,
) -> bool {
    match result {
        Ok(consistent) => two_snapshot_reads(
            before,
            after,
            reference_hz,
            Ok(consistent@),
            Ok(consistent@),
        ),
        Err(recovery) => match recovery.stage {
            ConsistencyStage::FirstRead => snapshot_reads(
                before,
                after,
                reference_hz,
                Err(recovery.error->Some_0),
            ),
            ConsistencyStage::SecondRead => two_snapshot_reads(
                before,
                after,
                reference_hz,
                Ok(recovery.first->Some_0),
                Err(recovery.error->Some_0),
            ),
            ConsistencyStage::Mismatch => two_snapshot_reads(
                before,
                after,
                reference_hz,
                Ok(recovery.first->Some_0),
                Ok(recovery.second->Some_0),
            ),
        },
    }
}

/// Read the complete parent chain twice and require identical generations.
///
/// This detects changes between snapshots but cannot prove that the clock did
/// not glitch between individual register reads.
pub fn snapshot_consistent<R: RegisterIo>(registers: &mut R, reference_hz: u32) -> (result: Result<
    ConsistentClockSnapshot,
    ConsistencyRecovery,
>)
    ensures
        consistency_outcome(result, reference_hz),
        consistency_reads(old(registers).reads(), final(registers).reads(), reference_hz, result),
{
    let ghost before = registers.reads();
    let first = match snapshot(registers, reference_hz) {
        Ok(first) => first,
        Err(error) => {
            return Err(
                ConsistencyRecovery {
                    stage: ConsistencyStage::FirstRead,
                    error: Some(error),
                    first: None,
                    second: None,
                },
            );
        },
    };
    let ghost middle = registers.reads();
    let second = match snapshot(registers, reference_hz) {
        Ok(second) => second,
        Err(error) => {
            return Err(
                ConsistencyRecovery {
                    stage: ConsistencyStage::SecondRead,
                    error: Some(error),
                    first: Some(first),
                    second: None,
                },
            );
        },
    };
    if first != second {
        return Err(
            ConsistencyRecovery {
                stage: ConsistencyStage::Mismatch,
                error: None,
                first: Some(first),
                second: Some(second),
            },
        );
    }
    Ok(ConsistentClockSnapshot { snapshot: second })
}

impl ConsistencyRecovery {
    /// Retry only the read-only coherence check; this never changes a clock.
    pub fn revalidate<R: RegisterIo>(self, registers: &mut R, reference_hz: u32) -> (result:
        Result<ConsistentClockSnapshot, Self>)
        ensures
            consistency_outcome(result, reference_hz),
    {
        snapshot_consistent(registers, reference_hz)
    }
}

pub fn snapshot_provider_consistent<R: RegisterIo>(
    provider: MmcClockProvider,
    registers: &mut R,
) -> (result: Result<ConsistentClockSnapshot, ConsistencyRecovery>)
    ensures
        match provider {
            MmcClockProvider::Loongson2k { reference_hz, .. } => consistency_outcome(
                result,
                reference_hz,
            ),
            MmcClockProvider::Unsupported { .. } => result == Err::<
                ConsistentClockSnapshot,
                ConsistencyRecovery,
            >(
                ConsistencyRecovery {
                    stage: ConsistencyStage::FirstRead,
                    error: Some(ClockError::UnsupportedProvider),
                    first: None,
                    second: None,
                },
            ),
        },
{
    match provider {
        MmcClockProvider::Loongson2k { reference_hz, .. } => snapshot_consistent(
            registers,
            reference_hz,
        ),
        MmcClockProvider::Unsupported { .. } => {
            Err(
                ConsistencyRecovery {
                    stage: ConsistencyStage::FirstRead,
                    error: Some(ClockError::UnsupportedProvider),
                    first: None,
                    second: None,
                },
            )
        },
    }
}

} // verus!
