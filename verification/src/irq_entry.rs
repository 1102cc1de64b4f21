//! CPU hardware-line to LIOINTC bank resolution.
//!
//! The CPUINTC hardware line is architecture evidence only. This module binds
//! it to exactly one topology-described LIOINTC and derives the global bank by
//! ascending main-MMIO address.
use vstd::prelude::*;

use crate::irq_domain::MAX_BANKS;
use crate::topology::{BoardTopology, InterruptControllerDescription};

verus! {

#[derive(Debug, Clone, Copy, PartialEq, Eq, Structural)]
pub enum ParentLineError {
    InvalidLine,
    MissingController,
    AmbiguousController,
    DuplicateMmio,
    TooManyBanks,
}

#[derive(Debug, Clone, Copy, PartialEq, Eq, Structural)]
pub struct ParentLineBinding {
    pub bank: usize,
    pub main_mmio: usize,
}

/// Number of controllers whose main MMIO lies below `base`: the stable bank
/// number of the controller at `base`.
pub open spec fn rank(controllers: Seq<InterruptControllerDescription>, base: usize) -> nat
    decreases controllers.len(),
{
    if controllers.len() == 0 {
        0
    } else {
        rank(controllers.drop_last(), base) + if controllers.last().main_mmio.base < base {
            1nat
        } else {
            0nat
        }
    }
}

proof fn lemma_rank_monotone(controllers: Seq<InterruptControllerDescription>, low: usize, high: usize)
    requires
        low <= high,
    ensures
        rank(controllers, low) <= rank(controllers, high),
    decreases controllers.len(),
{
    if controllers.len() > 0 {
        lemma_rank_monotone(controllers.drop_last(), low, high);
    }
}

/// Banks follow main-MMIO address order: a controller whose base lies below
/// `base` gets a smaller bank than a controller at `base` would, so distinct
/// addresses never share a bank.
pub proof fn lemma_bank_follows_address(
    controllers: Seq<InterruptControllerDescription>,
    index: int,
    base: usize,
)
    requires
        0 <= index < controllers.len(),
        controllers[index].main_mmio.base < base,
    ensures
        rank(controllers, controllers[index].main_mmio.base) < rank(controllers, base),
    decreases controllers.len(),
{
    let below = controllers[index].main_mmio.base;
    let init = controllers.drop_last();
    if index == controllers.len() - 1 {
        lemma_rank_monotone(init, below, base);
    } else {
        assert(init[index] == controllers[index]);
        lemma_bank_follows_address(init, index, base);
    }
}

/// With the two controllers of the board, the bank of every address is the
/// same whichever controller the device tree lists first.
pub proof fn lemma_bank_independent_of_discovery_order(
    first: InterruptControllerDescription,
    second: InterruptControllerDescription,
    base: usize,
)
    ensures
        rank(seq![first, second], base) == rank(seq![second, first], base),
        mmio_distinct(seq![first, second]) == mmio_distinct(seq![second, first]),
{
    let forward = seq![first, second];
    let backward = seq![second, first];
    reveal_with_fuel(rank, 3);
    assert(forward.drop_last() =~= seq![first]);
    assert(backward.drop_last() =~= seq![second]);
    assert(seq![first].drop_last() =~= Seq::<InterruptControllerDescription>::empty());
    assert(seq![second].drop_last() =~= Seq::<InterruptControllerDescription>::empty());
    if mmio_distinct(forward) {
        assert forall|i: int, j: int| 0 <= i < j < backward.len() implies backward[i].main_mmio.base
            != backward[j].main_mmio.base by {
            assert(forward[0].main_mmio.base != forward[1].main_mmio.base);
        }
    }
    if mmio_distinct(backward) {
        assert forall|i: int, j: int| 0 <= i < j < forward.len() implies forward[i].main_mmio.base
            != forward[j].main_mmio.base by {
            assert(backward[0].main_mmio.base != backward[1].main_mmio.base);
        }
    }
}

/// No two controllers share a main MMIO base.
pub open spec fn mmio_distinct(controllers: Seq<InterruptControllerDescription>) -> bool {
    forall|i: int, j: int|
        0 <= i < j < controllers.len() ==> controllers[i].main_mmio.base
            != controllers[j].main_mmio.base
}

/// The controller lists `line` among its parent interrupts.
pub open spec fn serves_line(controller: InterruptControllerDescription, line: u32) -> bool {
    exists|k: int|
        0 <= k < 4 && (#[trigger] controller.parent_interrupts@[k] matches Some(parent)
            && parent.cell_count > 0 && parent.cells@[0] == line)
}

/// Bank number of the controller whose main MMIO is at `base`.
pub fn bank_below(controllers: &Vec<InterruptControllerDescription>, base: usize) -> (bank: usize)
    ensures
        bank == rank(controllers@, base),
{
    let mut count: usize = 0;
    let mut index: usize = 0;
    while index < controllers.len()
        invariant
            index <= controllers@.len(),
            count == rank(controllers@.take(index as int), base),
            count <= index,
        decreases controllers@.len() - index,
    {
        proof {
            assert(controllers@.take(index as int + 1).drop_last() =~= controllers@.take(
                index as int,
            ));
        }
        if controllers[index].main_mmio.base < base {
            count = count + 1;
        }
        index = index + 1;
    }
    assert(controllers@.take(index as int) =~= controllers@);
    count
}

fn serves(controller: &InterruptControllerDescription, line: u32) -> (r: bool)
    ensures
        r == serves_line(*controller, line),
{
    let mut k: usize = 0;
    while k < 4
        invariant
            k <= 4,
            forall|j: int|
                0 <= j < k ==> !(#[trigger] controller.parent_interrupts@[j] matches Some(parent)
                    && parent.cell_count > 0 && parent.cells@[0] == line),
        decreases 4 - k,
    {
        if let Some(parent) = &controller.parent_interrupts[k] {
            if parent.cell_count > 0 && parent.cells[0] == line {
                assert(controller.parent_interrupts@[k as int] matches Some(parent)
                    && parent.cell_count > 0 && parent.cells@[0] == line);
                return true;
            }
        }
        k = k + 1;
    }
    false
}

/// Every pair of controllers has distinct main MMIO bases.
pub fn distinct_mmio(controllers: &Vec<InterruptControllerDescription>) -> (r: bool)
    ensures
        r == mmio_distinct(controllers@),
{
    let n = controllers.len();
    let mut i: usize = 0;
    while i < n
        invariant
            n == controllers@.len(),
            i <= n,
            forall|a: int, b: int|
                0 <= a < i && a < b < n ==> controllers@[a].main_mmio.base
                    != controllers@[b].main_mmio.base,
        decreases n - i,
    {
        let mut j: usize = i + 1;
        while j < n
            invariant
                n == controllers@.len(),
                i < n,
                i + 1 <= j <= n,
                forall|a: int, b: int|
                    0 <= a < i && a < b < n ==> controllers@[a].main_mmio.base
                        != controllers@[b].main_mmio.base,
                forall|b: int|
                    i < b < j ==> controllers@[i as int].main_mmio.base
                        != controllers@[b].main_mmio.base,
            decreases n - j,
        {
            if controllers[i].main_mmio.base == controllers[j].main_mmio.base {
                return false;
            }
            j = j + 1;
        }
        i = i + 1;
    }
    true
}

/// Resolve one CPUINTC HWI line (0..7) to a stable LIOINTC bank.
pub fn resolve_parent_line(topology: &BoardTopology, hardware_line: u32) -> (result: Result<
    ParentLineBinding,
    ParentLineError,
>)
    ensures
        ({
            let controllers = topology.interrupt_controllers@;
            match result {
                Ok(binding) => {
                    &&& hardware_line < 8
                    &&& controllers.len() <= MAX_BANKS
                    &&& mmio_distinct(controllers)
                    &&& exists|i: int|
                        0 <= i < controllers.len() && serves_line(
                            #[trigger] controllers[i],
                            hardware_line,
                        ) && (forall|j: int|
                            0 <= j < controllers.len() && j != i ==> !serves_line(
                                controllers[j],
                                hardware_line,
                            )) && binding.main_mmio == controllers[i].main_mmio.base
                            && binding.bank == rank(controllers, controllers[i].main_mmio.base)
                },
                Err(error) => if hardware_line >= 8 {
                    error == ParentLineError::InvalidLine
                } else if controllers.len() > MAX_BANKS {
                    error == ParentLineError::TooManyBanks
                } else if !mmio_distinct(controllers) {
                    error == ParentLineError::DuplicateMmio
                } else if forall|i: int|
                    0 <= i < controllers.len() ==> !serves_line(
                        #[trigger] controllers[i],
                        hardware_line,
                    ) {
                    error == ParentLineError::MissingController
                } else {
                    error == ParentLineError::AmbiguousController && exists|i: int, j: int|
                        0 <= i < j < controllers.len() && serves_line(
                            #[trigger] controllers[i],
                            hardware_line,
                        ) && serves_line(#[trigger] controllers[j], hardware_line)
                },
            }
        }),
{
    if hardware_line >= 8 {
        return Err(ParentLineError::InvalidLine);
    }
    let controllers = &topology.interrupt_controllers;
    if controllers.len() > MAX_BANKS {
        return Err(ParentLineError::TooManyBanks);
    }
    if !distinct_mmio(controllers) {
        return Err(ParentLineError::DuplicateMmio);
    }
    let n = controllers.len();
    let mut found: Option<usize> = None;
    let mut index: usize = 0;
    while index < n
        invariant
            n == controllers@.len(),
            controllers@ == topology.interrupt_controllers@,
            hardware_line < 8,
            n <= MAX_BANKS,
            mmio_distinct(controllers@),
            index <= n,
            match found {
                None => forall|j: int| 0 <= j < index ==> !serves_line(#[trigger] controllers@[j], hardware_line),
                Some(first) => first < index && serves_line(controllers@[first as int], hardware_line)
                    && forall|j: int|
                    0 <= j < index && j != first ==> !serves_line(#[trigger] controllers@[j], hardware_line),
            },
        decreases n - index,
    {
        if serves(&controllers[index], hardware_line) {
            match found {
                None => {
                    found = Some(index);
                },
                Some(first) => {
                    let ghost all = topology.interrupt_controllers@;
                    assert(serves_line(all[first as int], hardware_line));
                    assert(serves_line(all[index as int], hardware_line));
                    assert(exists|i: int, j: int|
                        0 <= i < j < all.len() && serves_line(#[trigger] all[i], hardware_line)
                            && serves_line(#[trigger] all[j], hardware_line));
                    assert(!(forall|i: int|
                        0 <= i < all.len() ==> !serves_line(#[trigger] all[i], hardware_line)));
                    return Err(ParentLineError::AmbiguousController);
                },
            }
        }
        index = index + 1;
    }
    match found {
        None => Err(ParentLineError::MissingController),
        Some(first) => {
            let base = controllers[first].main_mmio.base;
            let bank = bank_below(controllers, base);
            Ok(ParentLineBinding { bank, main_mmio: base })
        },
    }
}

} // verus!
