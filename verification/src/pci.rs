//! Read-only PCIe ECAM probe primitives for the 2K1000LA bring-up.
//!
//! This module only validates addresses and interprets configuration-space
//! snapshots; it never writes configuration space.
use vstd::prelude::*;

verus! {

#[derive(Debug, Clone, Copy, PartialEq, Eq, Structural)]
pub enum PciProbeError {
    InvalidRegister,
    AddressOverflow,
    InvalidWindow,
}

#[derive(Debug, Clone, Copy, PartialEq, Eq, Structural)]
pub struct PciLocation {
    pub bus: u8,
    pub device: u8,
    pub function: u8,
}

#[derive(Debug, Clone, Copy, PartialEq, Eq, Structural)]
pub struct PciIdentity {
    pub location: PciLocation,
    pub vendor_id: u16,
    pub device_id: u16,
    pub class_code: u8,
    pub subclass: u8,
    pub prog_if: u8,
}

#[derive(Debug, Clone, Copy, PartialEq, Eq, Structural)]
pub enum PciProbeResult {
    Absent,
    Present(PciIdentity),
}

/// A configuration register must be dword aligned and inside the 4 KiB space.
pub open spec fn valid_register(register: u16) -> bool {
    register < 0x1000 && register % 4 == 0
}

/// ECAM byte offset: bus, device and function fields above the register.
pub open spec fn ecam_offset_spec(location: PciLocation, register: u16) -> u64 {
    ((location.bus as u64) << 20u64) | ((location.device as u64) << 15u64) | ((
    location.function as u64) << 12u64) | register as u64
}

/// Identity decoded from the vendor/device and class-code registers.
pub open spec fn decode_spec(location: PciLocation, vendor_device: u32, class_register: u32) -> PciProbeResult {
    if vendor_device as u16 == 0xffff {
        PciProbeResult::Absent
    } else {
        PciProbeResult::Present(
            PciIdentity {
                location,
                vendor_id: vendor_device as u16,
                device_id: (vendor_device >> 16u32) as u16,
                prog_if: (class_register >> 8u32) as u8,
                subclass: (class_register >> 16u32) as u8,
                class_code: (class_register >> 24u32) as u8,
            },
        )
    }
}

/// Return the ECAM byte offset for one aligned config-space register.
pub fn ecam_offset(location: PciLocation, register: u16) -> (result: Result<u64, PciProbeError>)
    ensures
        match result {
            Ok(offset) => valid_register(register) && offset == ecam_offset_spec(
                location,
                register,
            ) && offset < 0x1000_0000,
            Err(error) => !valid_register(register) && error == PciProbeError::InvalidRegister,
        },
{
    if register >= 0x1000 || register % 4 != 0 {
        return Err(PciProbeError::InvalidRegister);
    }
    let bus = location.bus as u64;
    let device = location.device as u64;
    let function = location.function as u64;
    let reg = register as u64;
    let offset = (bus << 20u64) | (device << 15u64) | (function << 12u64) | reg;
    assert(offset < 0x1000_0000) by (bit_vector)
        requires
            bus < 256,
            device < 256,
            function < 256,
            reg < 0x1000,
            offset == (bus << 20u64) | (device << 15u64) | (function << 12u64) | reg,
    ;
    Ok(offset)
}

/// Combine a DTB-provided ECAM base with an offset without wrapping.
pub fn ecam_address(base: usize, location: PciLocation, register: u16) -> (result: Result<
    usize,
    PciProbeError,
>)
    ensures
        match result {
            Ok(address) => valid_register(register) && address == base + ecam_offset_spec(
                location,
                register,
            ),
            Err(error) => if !valid_register(register) {
                error == PciProbeError::InvalidRegister
            } else {
                error == PciProbeError::AddressOverflow && base + ecam_offset_spec(
                    location,
                    register,
                ) > usize::MAX
            },
        },
{
    let offset = ecam_offset(location, register)?;
    let offset = offset as usize;
    match base.checked_add(offset) {
        Some(address) => Ok(address),
        None => Err(PciProbeError::AddressOverflow),
    }
}

/// Interpret a vendor/device register and a class-code register.
pub fn decode_identity(location: PciLocation, vendor_device: u32, class_register: u32) -> (result:
    PciProbeResult)
    ensures
        result == decode_spec(location, vendor_device, class_register),
{
    let vendor_id = vendor_device as u16;
    if vendor_id == 0xffff {
        return PciProbeResult::Absent;
    }
    PciProbeResult::Present(
        PciIdentity {
            location,
            vendor_id,
            device_id: (vendor_device >> 16u32) as u16,
            prog_if: (class_register >> 8u32) as u8,
            subclass: (class_register >> 16u32) as u8,
            class_code: (class_register >> 24u32) as u8,
        },
    )
}

/// Read-only source of 32-bit configuration words at ECAM byte offsets.
/// The identity registers it is read for are read-only, so a read returns
/// the word the configuration space holds at that offset.
pub trait ConfigReader {
    /// The configuration word at an ECAM byte offset.
    spec fn word(&self, offset: u64) -> u32;

    fn read32(&self, offset: u64) -> (value: u32)
        ensures
            value == self.word(offset),
    ;
}

/// Interpret vendor/device and class-code registers without writing config.
/// The identity is decoded from the words at register offsets 0 and 8 of
/// the function.
pub fn probe<R: ConfigReader>(reader: &R, location: PciLocation) -> (result: PciProbeResult)
    ensures
        result == decode_spec(
            location,
            reader.word(ecam_offset_spec(location, 0)),
            reader.word(ecam_offset_spec(location, 8)),
        ),
{
    let vendor_offset = match ecam_offset(location, 0) {
        Ok(offset) => offset,
        Err(_) => {
            proof {
                assert(false);
            }
            return PciProbeResult::Absent;
        },
    };
    let vendor_device = reader.read32(vendor_offset);
    if vendor_device as u16 == 0xffff {
        let result = decode_identity(location, vendor_device, 0);
        assert(result == decode_spec(location, vendor_device, 0u32));
        assert(result == decode_spec(
            location,
            vendor_device,
            reader.word(ecam_offset_spec(location, 8)),
        ));
        return result;
    }
    let class_offset = match ecam_offset(location, 8) {
        Ok(offset) => offset,
        Err(_) => {
            proof {
                assert(false);
            }
            return PciProbeResult::Absent;
        },
    };
    let class_register = reader.read32(class_offset);
    let result = decode_identity(location, vendor_device, class_register);
    assert(result == decode_spec(location, vendor_device, class_register));
    result
}

/// Distinct PCI functions (device below 32, function below 8) or distinct
/// registers never share an ECAM offset.
pub proof fn lemma_ecam_offset_injective(a: PciLocation, ra: u16, b: PciLocation, rb: u16)
    requires
        valid_register(ra),
        valid_register(rb),
        a.device < 32,
        a.function < 8,
        b.device < 32,
        b.function < 8,
        ecam_offset_spec(a, ra) == ecam_offset_spec(b, rb),
    ensures
        a == b,
        ra == rb,
{
    let (bus_a, dev_a, fn_a, reg_a) = (a.bus as u64, a.device as u64, a.function as u64, ra as u64);
    let (bus_b, dev_b, fn_b, reg_b) = (b.bus as u64, b.device as u64, b.function as u64, rb as u64);
    assert(bus_a == bus_b && dev_a == dev_b && fn_a == fn_b && reg_a == reg_b) by (bit_vector)
        requires
            bus_a < 256,
            bus_b < 256,
            dev_a < 32,
            dev_b < 32,
            fn_a < 8,
            fn_b < 8,
            reg_a < 0x1000,
            reg_b < 0x1000,
            (bus_a << 20u64) | (dev_a << 15u64) | (fn_a << 12u64) | reg_a == (bus_b << 20u64) | (
            dev_b << 15u64) | (fn_b << 12u64) | reg_b,
    ;
}

} // verus!
