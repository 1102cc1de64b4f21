//! State rules of the single-publication slot for a diagnostic IRQ runtime.
//!
//! Reservation happens before hardware activation; once reserved, commit is
//! infallible. The slot keeps one byte of state; these functions decide what
//! each observed state means for a reservation, a service call or a drain.
use vstd::prelude::*;

verus! {

pub const STATE_EMPTY: u8 = 0;

pub const STATE_RESERVED: u8 = 1;

pub const STATE_LIVE: u8 = 2;

pub const STATE_SERVICING: u8 = 3;

pub const STATE_DRAINING: u8 = 4;

#[derive(Debug, Clone, Copy, PartialEq, Eq, Structural)]
pub enum DiagnosticSlotState {
    Empty,
    Reserved,
    Live,
    Servicing,
    Draining,
}

#[derive(Debug, Clone, Copy, PartialEq, Eq, Structural)]
pub enum SlotError {
    Reserved,
    AlreadyLive,
    Empty,
    Busy,
}

#[derive(Debug, PartialEq, Eq)]
pub enum DrainError<E> {
    Slot(SlotError),
    Operation(E),
}

/// Public state of a raw state byte; an unknown byte reads as draining.
pub fn slot_state(raw: u8) -> (state: DiagnosticSlotState)
    ensures
        raw == STATE_EMPTY ==> state == DiagnosticSlotState::Empty,
        raw == STATE_RESERVED ==> state == DiagnosticSlotState::Reserved,
        raw == STATE_LIVE ==> state == DiagnosticSlotState::Live,
        raw == STATE_SERVICING ==> state == DiagnosticSlotState::Servicing,
        raw > STATE_SERVICING ==> state == DiagnosticSlotState::Draining,
{
    if raw == STATE_EMPTY {
        DiagnosticSlotState::Empty
    } else if raw == STATE_RESERVED {
        DiagnosticSlotState::Reserved
    } else if raw == STATE_LIVE {
        DiagnosticSlotState::Live
    } else if raw == STATE_SERVICING {
        DiagnosticSlotState::Servicing
    } else {
        DiagnosticSlotState::Draining
    }
}

/// Why a reservation failed, given the state found instead of empty.
pub fn reserve_refusal(observed: u8) -> (error: SlotError)
    ensures
        observed == STATE_RESERVED ==> error == SlotError::Reserved,
        observed == STATE_LIVE ==> error == SlotError::AlreadyLive,
        observed != STATE_RESERVED && observed != STATE_LIVE ==> error == SlotError::Busy,
{
    if observed == STATE_RESERVED {
        SlotError::Reserved
    } else if observed == STATE_LIVE {
        SlotError::AlreadyLive
    } else {
        SlotError::Busy
    }
}

/// Why servicing or draining failed, given the state found instead of live.
pub fn access_refusal(observed: u8) -> (error: SlotError)
    ensures
        error == if observed == STATE_EMPTY {
            SlotError::Empty
        } else {
            SlotError::Busy
        },
{
    if observed == STATE_EMPTY {
        SlotError::Empty
    } else {
        SlotError::Busy
    }
}

} // verus!
