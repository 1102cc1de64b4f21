//! Pure two-bank LIOINTC IRQ domain and dispatch table.
//!
//! The table has no locking in dispatch. Registration requires exclusive
//! access and must finish before hardware interrupts are enabled.
use vstd::prelude::*;

verus! {

pub const IRQS_PER_BANK: u32 = 32;

pub const MAX_BANKS: usize = 2;

pub const MAX_GLOBAL_IRQS: usize = 64;

/// Global number of a bank-local source: `bank * 32 + local`.
pub open spec fn global_index(bank: nat, local: nat) -> nat {
    bank * 32 + local
}

/// Bank that owns a global source number.
pub open spec fn bank_of(index: nat) -> nat {
    index / 32
}

/// Bank-local line of a global source number.
pub open spec fn local_of(index: nat) -> nat {
    index % 32
}

/// A validated global LIOINTC source number below 64.
#[derive(Debug, Clone, Copy, PartialEq, Eq, Structural)]
pub struct GlobalIrq(u8);

impl GlobalIrq {
    #[verifier::type_invariant]
    spec fn in_range(self) -> bool {
        self.0 < 64
    }

    /// The global source number.
    pub closed spec fn id(self) -> nat {
        self.0 as nat
    }

    pub fn from_bank_local(bank: usize, local: u32) -> (result: Result<Self, DomainError>)
        ensures
            match result {
                Ok(irq) => bank < MAX_BANKS && local < IRQS_PER_BANK && irq.id() == global_index(
                    bank as nat,
                    local as nat,
                ),
                Err(error) => !(bank < MAX_BANKS && local < IRQS_PER_BANK) && error
                    == DomainError::OutOfRange,
            },
    {
        if bank >= MAX_BANKS || local >= IRQS_PER_BANK {
            return Err(DomainError::OutOfRange);
        }
        let raw: usize = bank * 32 + local as usize;
        Ok(GlobalIrq(raw as u8))
    }

    pub fn raw(self) -> (r: u8)
        ensures
            r as nat == self.id(),
            r < 64,
    {
        proof {
            use_type_invariant(&self);
        }
        self.0
    }

    pub fn bank(self) -> (r: usize)
        ensures
            r as nat == bank_of(self.id()),
            r < MAX_BANKS,
    {
        proof {
            use_type_invariant(&self);
        }
        self.0 as usize / 32
    }

    pub fn local(self) -> (r: u32)
        ensures
            r as nat == local_of(self.id()),
            r < IRQS_PER_BANK,
    {
        proof {
            use_type_invariant(&self);
        }
        self.0 as u32 % 32
    }
}

/// Two global sources are equal exactly when their numbers are equal.
pub broadcast proof fn lemma_global_irq_id_injective(a: GlobalIrq, b: GlobalIrq)
    ensures
        (#[trigger] a.id() == #[trigger] b.id()) <==> a == b,
{
}

/// Splitting a global source into bank and line and joining them again is the
/// identity, and a bank-local pair inside the domain survives the round trip.
pub proof fn lemma_bank_local_round_trip(bank: nat, local: nat)
    requires
        bank < 2,
        local < 32,
    ensures
        bank_of(global_index(bank, local)) == bank,
        local_of(global_index(bank, local)) == local,
        global_index(bank, local) < 64,
{
    assert((bank * 32 + local) / 32 == bank) by (nonlinear_arith)
        requires
            local < 32,
    ;
    assert((bank * 32 + local) % 32 == local) by (nonlinear_arith)
        requires
            local < 32,
    ;
}

/// Every global source below 64 is the join of its bank and its line.
pub proof fn lemma_index_decomposes(index: nat)
    requires
        index < 64,
    ensures
        global_index(bank_of(index), local_of(index)) == index,
        bank_of(index) < 2,
        local_of(index) < 32,
{
}

/// Evidence that a LIOINTC source was masked/acknowledged before dispatch.
#[derive(Debug, PartialEq, Eq, Structural)]
pub struct AcknowledgedIrq {
    irq: GlobalIrq,
}

impl View for AcknowledgedIrq {
    type V = GlobalIrq;

    closed spec fn view(&self) -> GlobalIrq {
        self.irq
    }
}

impl AcknowledgedIrq {
    pub fn irq(&self) -> (r: GlobalIrq)
        ensures
            r == self@,
    {
        self.irq
    }

    /// Record that the controller masked and acknowledged `irq`.
    pub fn after_mask_ack(irq: GlobalIrq) -> (r: Self)
        ensures
            r@ == irq,
    {
        Self { irq }
    }
}

#[derive(Debug, Clone, Copy, PartialEq, Eq, Structural)]
pub enum DomainError {
    InvalidBankCount,
    OutOfRange,
    AlreadyRegistered,
    NotRegistered,
}

/// Evidence that the device-level interrupt condition for one source was
/// cleared after its LIOINTC line had been masked/acknowledged.
#[derive(Debug, PartialEq, Eq, Structural)]
pub struct DeviceAckedIrq {
    irq: GlobalIrq,
}

impl View for DeviceAckedIrq {
    type V = GlobalIrq;

    closed spec fn view(&self) -> GlobalIrq {
        self.irq
    }
}

impl DeviceAckedIrq {
    pub fn irq(&self) -> (r: GlobalIrq)
        ensures
            r == self@,
    {
        self.irq
    }

    /// Record that the device cleared the condition behind `irq`.
    pub fn after_device_clear(irq: GlobalIrq) -> (r: Self)
        ensures
            r@ == irq,
    {
        Self { irq }
    }
}

#[derive(Debug, PartialEq, Eq, Structural)]
pub enum IrqDisposition {
    KeepMasked,
    Rearm(DeviceAckedIrq),
}

#[derive(Debug, PartialEq, Eq, Structural)]
pub struct UnhandledIrq {
    pub error: DomainError,
    pub acknowledged: AcknowledgedIrq,
}

/// Handler table for up to two LIOINTC banks.
pub struct LioIntcDomain<H> {
    bank_count: u8,
    handlers: Vec<Option<H>>,
}

impl<H> View for LioIntcDomain<H> {
    type V = Seq<Option<H>>;

    /// The handler registered for each of the 64 global sources.
    closed spec fn view(&self) -> Seq<Option<H>> {
        self.handlers@
    }
}

impl<H: Fn(AcknowledgedIrq) -> IrqDisposition> LioIntcDomain<H> {
    /// A well-formed domain has one handler slot per global source.
    pub proof fn lemma_wf_len(&self)
        requires
            self.wf(),
        ensures
            self@.len() == MAX_GLOBAL_IRQS,
    {
    }

    /// Number of active banks.
    pub closed spec fn banks(&self) -> nat {
        self.bank_count as nat
    }

    /// A handler may be called with any acknowledged source.
    pub open spec fn callable(handler: H) -> bool {
        forall|a: AcknowledgedIrq| call_requires(handler, (a,))
    }

    pub closed spec fn wf(&self) -> bool {
        &&& self.handlers@.len() == MAX_GLOBAL_IRQS
        &&& 1 <= self.bank_count <= 2
        &&& forall|i: int|
            0 <= i < MAX_GLOBAL_IRQS && #[trigger] self.handlers@[i] is Some ==> Self::callable(
                self.handlers@[i]->Some_0,
            )
    }

    /// The invariant fixes the table size and the bank count range.
    pub proof fn lemma_wf_shape(&self)
        requires
            self.wf(),
        ensures
            self@.len() == MAX_GLOBAL_IRQS,
            1 <= self.banks() <= 2,
    {
    }

    pub fn new(bank_count: usize) -> (result: Result<Self, DomainError>)
        ensures
            match result {
                Ok(domain) => 1 <= bank_count <= MAX_BANKS && domain.wf() && domain.banks()
                    == bank_count && domain@ == Seq::new(
                    MAX_GLOBAL_IRQS as nat,
                    |i: int| None::<H>,
                ),
                Err(error) => !(1 <= bank_count <= MAX_BANKS) && error
                    == DomainError::InvalidBankCount,
            },
    {
        if bank_count == 0 || bank_count > MAX_BANKS {
            return Err(DomainError::InvalidBankCount);
        }
        let mut handlers: Vec<Option<H>> = Vec::new();
        let mut i: usize = 0;
        while i < MAX_GLOBAL_IRQS
            invariant
                i <= MAX_GLOBAL_IRQS,
                handlers@.len() == i,
                forall|j: int| 0 <= j < i ==> handlers@[j] is None,
            decreases MAX_GLOBAL_IRQS - i,
        {
            handlers.push(None);
            i = i + 1;
        }
        let domain = Self { bank_count: bank_count as u8, handlers };
        assert(domain@ =~= Seq::new(MAX_GLOBAL_IRQS as nat, |i: int| None::<H>));
        Ok(domain)
    }

    fn validate(&self, irq: GlobalIrq) -> (result: Result<usize, DomainError>)
        requires
            self.wf(),
        ensures
            match result {
                Ok(index) => bank_of(irq.id()) < self.banks() && index as nat == irq.id()
                    && index < MAX_GLOBAL_IRQS,
                Err(error) => bank_of(irq.id()) >= self.banks() && error
                    == DomainError::OutOfRange,
            },
    {
        if irq.bank() < self.bank_count as usize {
            let raw = irq.raw();
            Ok(raw as usize)
        } else {
            Err(DomainError::OutOfRange)
        }
    }

    pub fn register(&mut self, irq: GlobalIrq, handler: H) -> (result: Result<(), DomainError>)
        requires
            old(self).wf(),
            Self::callable(handler),
        ensures
            final(self).wf(),
            final(self).banks() == old(self).banks(),
            match result {
                Ok(()) => bank_of(irq.id()) < old(self).banks() && old(self)@[irq.id() as int] is None
                    && final(self)@ == old(self)@.update(irq.id() as int, Some(handler)),
                Err(error) => final(self)@ == old(self)@ && if bank_of(irq.id()) >= old(
                    self,
                ).banks() {
                    error == DomainError::OutOfRange
                } else {
                    old(self)@[irq.id() as int] is Some && error == DomainError::AlreadyRegistered
                },
            },
    {
        let index = self.validate(irq)?;
        if self.handlers[index].is_some() {
            return Err(DomainError::AlreadyRegistered);
        }
        self.handlers.set(index, Some(handler));
        Ok(())
    }

    pub fn unregister(&mut self, irq: GlobalIrq) -> (result: Result<H, DomainError>)
        requires
            old(self).wf(),
        ensures
            final(self).wf(),
            final(self).banks() == old(self).banks(),
            match result {
                Ok(handler) => bank_of(irq.id()) < old(self).banks() && old(self)@[irq.id() as int]
                    == Some(handler) && final(self)@ == old(self)@.update(
                    irq.id() as int,
                    None,
                ),
                Err(error) => final(self)@ == old(self)@ && if bank_of(irq.id()) >= old(
                    self,
                ).banks() {
                    error == DomainError::OutOfRange
                } else {
                    old(self)@[irq.id() as int] is None && error == DomainError::NotRegistered
                },
            },
    {
        let index = self.validate(irq)?;
        let mut taken: Option<H> = None;
        std::mem::swap(&mut taken, &mut self.handlers[index]);
        match taken {
            Some(handler) => Ok(handler),
            None => Err(DomainError::NotRegistered),
        }
    }

    /// Dispatch one source only after its controller has masked/acknowledged it.
    /// An unregistered source returns the linear evidence so the caller can
    /// keep the line masked and report or recover it deliberately.
    pub fn dispatch(&self, acknowledged: AcknowledgedIrq) -> (result: Result<
        IrqDisposition,
        UnhandledIrq,
    >)
        requires
            self.wf(),
        ensures
            match result {
                Ok(disposition) => bank_of(acknowledged@.id()) < self.banks()
                    && self@[acknowledged@.id() as int] is Some && call_ensures(
                    self@[acknowledged@.id() as int]->Some_0,
                    (acknowledged,),
                    disposition,
                ),
                Err(unhandled) => unhandled.acknowledged == acknowledged && if bank_of(
                    acknowledged@.id(),
                ) >= self.banks() {
                    unhandled.error == DomainError::OutOfRange
                } else {
                    self@[acknowledged@.id() as int] is None && unhandled.error
                        == DomainError::NotRegistered
                },
            },
    {
        let irq = acknowledged.irq();
        let index = match self.validate(irq) {
            Ok(index) => index,
            Err(error) => return Err(UnhandledIrq { error, acknowledged }),
        };
        match &self.handlers[index] {
            Some(handler) => {
                assert(Self::callable(*handler));
                Ok(handler(acknowledged))
            },
            None => Err(UnhandledIrq { error: DomainError::NotRegistered, acknowledged }),
        }
    }
}

/// Registering a free source and then unregistering it restores the table and
/// hands back the same handler.
pub proof fn lemma_register_unregister_restores<H>(table: Seq<Option<H>>, index: int, handler: H)
    requires
        0 <= index < table.len(),
        table[index] is None,
    ensures
        table.update(index, Some(handler))[index] == Some(handler),
        table.update(index, Some(handler)).update(index, None::<H>) == table,
{
    assert(table.update(index, Some(handler)).update(index, None::<H>) =~= table);
}

/// Registration changes only the registered source.
pub proof fn lemma_register_preserves_other_sources<H>(
    table: Seq<Option<H>>,
    index: int,
    other: int,
    handler: H,
)
    requires
        0 <= index < table.len(),
        0 <= other < table.len(),
        other != index,
    ensures
        table.update(index, Some(handler))[other] == table[other],
{
}

} // verus!
