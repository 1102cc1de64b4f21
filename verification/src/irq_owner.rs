//! Fixed-capacity IRQ-to-device ownership slots.
//!
//! A handler begins by moving its owner out of `Ready` and leaving an
//! `InHandler` sentinel. The linear [`ActiveOwner`] must be finished to restore
//! the slot. Dropping it is intentionally fail-closed: the source remains busy
//! and cannot be consumed again.
use std::sync::Arc;
use vstd::prelude::*;

use crate::irq_domain::{AcknowledgedIrq, GlobalIrq, IrqDisposition, MAX_GLOBAL_IRQS};

verus! {

broadcast use crate::irq_domain::lemma_global_irq_id_injective;

/// Calls `Arc::clone`, producing a second handle to the same allocation.
/// Nothing is claimed of the handle: its identity is a machine address.
#[verifier::external_body]
fn share_identity(identity: &Arc<()>) -> Arc<()> {
    Arc::clone(identity)
}

/// Calls `Arc::ptr_eq`, which tells whether two handles share one allocation.
/// The answer depends on machine addresses, so no contract names it.
#[verifier::external_body]
fn same_identity(a: &Arc<()>, b: &Arc<()>) -> bool {
    Arc::ptr_eq(a, b)
}

/// State of one global source in the owner table.
pub enum OwnerSlot<O> {
    Empty,
    Ready { owner: O, generation: u64 },
    InHandler { generation: u64 },
}

#[derive(Debug, Clone, Copy, PartialEq, Eq, Structural)]
pub enum OwnerError {
    AlreadyRegistered,
    NotRegistered,
    InHandler,
    InvalidCompletion,
}

#[derive(Debug, PartialEq, Eq, Structural)]
pub struct BeginFailure {
    pub error: OwnerError,
    pub acknowledged: AcknowledgedIrq,
}

/// An owner moved out of its slot for the duration of one handler run.
#[derive(Debug)]
pub struct ActiveOwner<O> {
    irq: GlobalIrq,
    owner: O,
    generation: u64,
    acknowledged: Option<AcknowledgedIrq>,
    table: Arc<()>,
}

pub trait IrqOwner {
    fn handle(&mut self, acknowledged: AcknowledgedIrq) -> IrqDisposition;
}

impl<O> ActiveOwner<O> {
    pub closed spec fn source(&self) -> GlobalIrq {
        self.irq
    }

    pub closed spec fn value(&self) -> O {
        self.owner
    }

    pub closed spec fn generation(&self) -> u64 {
        self.generation
    }

    /// Whether the acknowledged evidence has not been handed to the owner yet.
    pub closed spec fn has_evidence(&self) -> bool {
        self.acknowledged is Some
    }

    /// The acknowledged evidence still held.
    pub closed spec fn evidence(&self) -> AcknowledgedIrq {
        self.acknowledged->Some_0
    }

    pub fn irq(&self) -> (r: GlobalIrq)
        ensures
            r == self.source(),
    {
        self.irq
    }

    pub fn owner(&self) -> (r: &O)
        ensures
            *r == self.value(),
    {
        &self.owner
    }

    pub fn owner_mut(&mut self) -> (r: &mut O)
        ensures
            *r == old(self).value(),
            final(self).value() == *final(r),
            final(self).source() == old(self).source(),
            final(self).generation() == old(self).generation(),
            final(self).has_evidence() == old(self).has_evidence(),
            final(self).evidence() == old(self).evidence(),
    {
        &mut self.owner
    }

    /// Hand the held evidence to the owner exactly once.
    pub fn handle(self) -> (result: (Self, IrqDisposition)) where O: IrqOwner
        requires
            self.has_evidence(),
        ensures
            !result.0.has_evidence(),
            result.0.source() == self.source(),
            result.0.generation() == self.generation(),
    {
        let mut this = self;
        let mut taken: Option<AcknowledgedIrq> = None;
        std::mem::swap(&mut taken, &mut this.acknowledged);
        let acknowledged = match taken {
            Some(acknowledged) => acknowledged,
            None => {
                proof {
                    assert(false);
                }
                return (this, IrqDisposition::KeepMasked);
            },
        };
        let disposition = this.owner.handle(acknowledged);
        (this, disposition)
    }
}

pub struct FinishFailure<O> {
    pub error: OwnerError,
    pub active: ActiveOwner<O>,
}

/// Fixed table of 64 owner slots, one per global source.
pub struct IrqOwnerTable<O> {
    slots: Vec<OwnerSlot<O>>,
    next_generation: u64,
    identity: Arc<()>,
}

impl<O> View for IrqOwnerTable<O> {
    type V = Seq<OwnerSlot<O>>;

    closed spec fn view(&self) -> Seq<OwnerSlot<O>> {
        self.slots@
    }
}

/// The owner held by a ready slot.
pub open spec fn ready_owner<O>(slot: OwnerSlot<O>) -> Option<O> {
    match slot {
        OwnerSlot::Ready { owner, .. } => Some(owner),
        _ => None,
    }
}

/// The registration generation recorded in an occupied slot.
pub open spec fn slot_generation<O>(slot: OwnerSlot<O>) -> u64 {
    match slot {
        OwnerSlot::Ready { generation, .. } => generation,
        OwnerSlot::InHandler { generation } => generation,
        OwnerSlot::Empty => 0,
    }
}

/// Whether a slot is held by a running handler.
pub open spec fn slot_busy<O>(slot: OwnerSlot<O>) -> bool {
    slot is InHandler
}

impl<O> IrqOwnerTable<O> {
    pub closed spec fn wf(&self) -> bool {
        self.slots@.len() == MAX_GLOBAL_IRQS
    }

    /// A well-formed table has one slot per global interrupt.
    pub proof fn lemma_wf_len(&self)
        requires
            self.wf(),
        ensures
            self@.len() == MAX_GLOBAL_IRQS,
    {
    }

    /// Generation the next registration receives.
    pub closed spec fn next_generation_value(&self) -> u64 {
        self.next_generation
    }

    pub fn new() -> (table: Self)
        ensures
            table.wf(),
            table@ == Seq::new(MAX_GLOBAL_IRQS as nat, |i: int| OwnerSlot::<O>::Empty),
            table.next_generation_value() == 1,
    {
        let mut slots: Vec<OwnerSlot<O>> = Vec::new();
        let mut i: usize = 0;
        while i < MAX_GLOBAL_IRQS
            invariant
                i <= MAX_GLOBAL_IRQS,
                slots@.len() == i,
                forall|j: int| 0 <= j < i ==> slots@[j] is Empty,
            decreases MAX_GLOBAL_IRQS - i,
        {
            slots.push(OwnerSlot::Empty);
            i = i + 1;
        }
        let table = Self { slots, next_generation: 1, identity: Arc::new(()) };
        assert(table@ =~= Seq::new(MAX_GLOBAL_IRQS as nat, |i: int| OwnerSlot::<O>::Empty));
        table
    }

    fn take_slot(&mut self, index: usize) -> (slot: OwnerSlot<O>)
        requires
            old(self).wf(),
            index < MAX_GLOBAL_IRQS,
        ensures
            final(self).wf(),
            slot == old(self)@[index as int],
            final(self)@ == old(self)@.update(index as int, OwnerSlot::Empty),
            final(self).next_generation == old(self).next_generation,
    {
        let mut slot = OwnerSlot::Empty;
        std::mem::swap(&mut slot, &mut self.slots[index]);
        slot
    }

    pub fn register(&mut self, irq: GlobalIrq, owner: O) -> (result: Result<(), (OwnerError, O)>)
        requires
            old(self).wf(),
        ensures
            final(self).wf(),
            match result {
                Ok(()) => old(self)@[irq.id() as int] is Empty && ready_owner(
                    final(self)@[irq.id() as int],
                ) == Some(owner) && final(self)@ == old(self)@.update(
                    irq.id() as int,
                    final(self)@[irq.id() as int],
                ) && slot_generation(final(self)@[irq.id() as int]) == old(
                    self,
                ).next_generation_value() && final(self).next_generation_value() == (if old(
                    self,
                ).next_generation_value() == u64::MAX {
                    0
                } else {
                    old(self).next_generation_value() + 1
                }),
                Err((error, returned)) => returned == owner && final(self)@ == old(self)@
                    && final(self).next_generation_value() == old(self).next_generation_value()
                    && match old(
                    self,
                )@[irq.id() as int] {
                    OwnerSlot::Empty => false,
                    OwnerSlot::Ready { .. } => error == OwnerError::AlreadyRegistered,
                    OwnerSlot::InHandler { .. } => error == OwnerError::InHandler,
                },
            },
    {
        let index = irq.raw() as usize;
        match &self.slots[index] {
            OwnerSlot::Ready { .. } => {
                return Err((OwnerError::AlreadyRegistered, owner));
            },
            OwnerSlot::InHandler { .. } => {
                return Err((OwnerError::InHandler, owner));
            },
            OwnerSlot::Empty => {},
        }
        let generation = self.next_generation;
        self.next_generation = self.next_generation.wrapping_add(1);
        self.slots.set(index, OwnerSlot::Ready { owner, generation });
        Ok(())
    }

    pub fn unregister(&mut self, irq: GlobalIrq) -> (result: Result<O, OwnerError>)
        requires
            old(self).wf(),
        ensures
            final(self).wf(),
            match result {
                Ok(owner) => ready_owner(old(self)@[irq.id() as int]) == Some(owner)
                    && final(self)@ == old(self)@.update(irq.id() as int, OwnerSlot::Empty),
                Err(error) => final(self)@ == old(self)@ && match old(self)@[irq.id() as int] {
                    OwnerSlot::Empty => error == OwnerError::NotRegistered,
                    OwnerSlot::Ready { .. } => false,
                    OwnerSlot::InHandler { .. } => error == OwnerError::InHandler,
                },
            },
    {
        let index = irq.raw() as usize;
        let slot = self.take_slot(index);
        match slot {
            OwnerSlot::Ready { owner, .. } => Ok(owner),
            OwnerSlot::Empty => Err(OwnerError::NotRegistered),
            OwnerSlot::InHandler { generation } => {
                self.slots.set(index, OwnerSlot::InHandler { generation });
                Err(OwnerError::InHandler)
            },
        }
    }

    pub fn get(&self, irq: GlobalIrq) -> (result: Result<&O, OwnerError>)
        requires
            self.wf(),
        ensures
            match result {
                Ok(owner) => ready_owner(self@[irq.id() as int]) == Some(*owner),
                Err(error) => match self@[irq.id() as int] {
                    OwnerSlot::Empty => error == OwnerError::NotRegistered,
                    OwnerSlot::Ready { .. } => false,
                    OwnerSlot::InHandler { .. } => error == OwnerError::InHandler,
                },
            },
    {
        let index = irq.raw() as usize;
        match &self.slots[index] {
            OwnerSlot::Ready { owner, .. } => Ok(owner),
            OwnerSlot::Empty => Err(OwnerError::NotRegistered),
            OwnerSlot::InHandler { .. } => Err(OwnerError::InHandler),
        }
    }

    /// Mutably inspect a ready owner between interrupt service transactions.
    /// An owner in its handler remains inaccessible.
    pub fn get_mut(&mut self, irq: GlobalIrq) -> (result: Result<&mut O, OwnerError>)
        requires
            old(self).wf(),
        ensures
            final(self).wf(),
            match result {
                Ok(owner) => ready_owner(old(self)@[irq.id() as int]) == Some(*owner) && final(self)@ == old(self)@.update(
                    irq.id() as int,
                    OwnerSlot::Ready {
                        owner: *final(owner),
                        generation: slot_generation(old(self)@[irq.id() as int]),
                    },
                ),
                Err(error) => final(self)@ == old(self)@ && match old(self)@[irq.id() as int] {
                    OwnerSlot::Empty => error == OwnerError::NotRegistered,
                    OwnerSlot::Ready { .. } => false,
                    OwnerSlot::InHandler { .. } => error == OwnerError::InHandler,
                },
            },
    {
        let index = irq.raw() as usize;
        match &mut self.slots[index] {
            OwnerSlot::Ready { owner, .. } => Ok(owner),
            OwnerSlot::Empty => Err(OwnerError::NotRegistered),
            OwnerSlot::InHandler { .. } => Err(OwnerError::InHandler),
        }
    }

    pub fn begin(&mut self, acknowledged: AcknowledgedIrq) -> (result: Result<
        ActiveOwner<O>,
        BeginFailure,
    >)
        requires
            old(self).wf(),
        ensures
            final(self).wf(),
            match result {
                Ok(active) => active.source() == acknowledged@ && active.has_evidence()
                    && active.evidence() == acknowledged && old(self)@[acknowledged@.id() as int]
                    == OwnerSlot::Ready { owner: active.value(), generation: active.generation() }
                    && final(self)@ == old(self)@.update(
                    acknowledged@.id() as int,
                    OwnerSlot::InHandler { generation: active.generation() },
                ),
                Err(failure) => failure.acknowledged == acknowledged && final(self)@ == old(self)@
                    && match old(self)@[acknowledged@.id() as int] {
                    OwnerSlot::Empty => failure.error == OwnerError::NotRegistered,
                    OwnerSlot::Ready { .. } => false,
                    OwnerSlot::InHandler { .. } => failure.error == OwnerError::InHandler,
                },
            },
    {
        let irq = acknowledged.irq();
        let index = irq.raw() as usize;
        let slot = self.take_slot(index);
        match slot {
            OwnerSlot::Ready { owner, generation } => {
                self.slots.set(index, OwnerSlot::InHandler { generation });
                let table = share_identity(&self.identity);
                Ok(ActiveOwner { irq, owner, generation, acknowledged: Some(acknowledged), table })
            },
            OwnerSlot::Empty => {
                Err(BeginFailure { error: OwnerError::NotRegistered, acknowledged })
            },
            OwnerSlot::InHandler { generation } => {
                self.slots.set(index, OwnerSlot::InHandler { generation });
                Err(BeginFailure { error: OwnerError::InHandler, acknowledged })
            },
        }
    }

    /// Return an active owner to its slot. The slot must still be held by the
    /// same registration of this table; an owner begun by another table is
    /// refused even when its generation happens to match.
    pub fn finish(&mut self, active: ActiveOwner<O>) -> (result: Result<(), FinishFailure<O>>)
        requires
            old(self).wf(),
        ensures
            final(self).wf(),
            match result {
                Ok(()) => old(self)@[active.source().id() as int] == (OwnerSlot::<O>::InHandler {
                    generation: active.generation(),
                }) && final(self)@ == old(self)@.update(
                    active.source().id() as int,
                    OwnerSlot::Ready { owner: active.value(), generation: active.generation() },
                ),
                Err(failure) => failure.error == OwnerError::InvalidCompletion && failure.active
                    == active && final(self)@ == old(self)@,
            },
            old(self)@[active.source().id() as int] != (OwnerSlot::<O>::InHandler {
                generation: active.generation(),
            }) ==> (result is Err),
    {
        let index = active.irq.raw() as usize;
        let slot_matches = match &self.slots[index] {
            OwnerSlot::InHandler { generation } => *generation == active.generation,
            _ => false,
        };
        if !slot_matches || !same_identity(&self.identity, &active.table) {
            return Err(FinishFailure { error: OwnerError::InvalidCompletion, active });
        }
        let ActiveOwner { owner, generation, .. } = active;
        self.slots.set(index, OwnerSlot::Ready { owner, generation });
        Ok(())
    }

    pub fn is_busy(&self, irq: GlobalIrq) -> (busy: bool)
        requires
            self.wf(),
        ensures
            busy == slot_busy(self@[irq.id() as int]),
    {
        let index = irq.raw() as usize;
        match &self.slots[index] {
            OwnerSlot::InHandler { .. } => true,
            _ => false,
        }
    }
}

/// Beginning a handler and finishing it on the same table returns the slot to
/// the state it had before, with the owner as the handler left it.
pub proof fn lemma_begin_finish_restores<O>(
    table: Seq<OwnerSlot<O>>,
    index: int,
    owner: O,
    updated: O,
    generation: u64,
)
    requires
        0 <= index < table.len(),
        table[index] == (OwnerSlot::Ready { owner, generation }),
    ensures
        table.update(index, OwnerSlot::InHandler { generation }).update(
            index,
            OwnerSlot::Ready { owner: updated, generation },
        ) == table.update(index, OwnerSlot::Ready { owner: updated, generation }),
        slot_busy(table.update(index, OwnerSlot::<O>::InHandler { generation })[index]),
        !slot_busy(
            table.update(index, OwnerSlot::InHandler { generation }).update(
                index,
                OwnerSlot::Ready { owner: updated, generation },
            )[index],
        ),
{
    assert(table.update(index, OwnerSlot::InHandler { generation }).update(
        index,
        OwnerSlot::Ready { owner: updated, generation },
    ) =~= table.update(index, OwnerSlot::Ready { owner: updated, generation }));
}

/// Registering an owner in an empty slot and unregistering it again hands
/// back that owner and leaves the table as it was.
pub proof fn lemma_register_unregister_round_trip<O>(
    table: Seq<OwnerSlot<O>>,
    index: int,
    registered: OwnerSlot<O>,
    owner: O,
)
    requires
        0 <= index < table.len(),
        table[index] is Empty,
        ready_owner(registered) == Some(owner),
    ensures
        ready_owner(table.update(index, registered)[index]) == Some(owner),
        table.update(index, registered).update(index, OwnerSlot::Empty) == table,
{
    assert(table.update(index, registered).update(index, OwnerSlot::Empty) =~= table);
}

} // verus!
