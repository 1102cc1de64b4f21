use ls2k1000la::board_irq_owner::{BoardIrqOwner, DeferredApbDmaError, DeferredApbDmaOwner, MmcCommandOwner};
use ls2k1000la::irq_domain::{AcknowledgedIrq, DeviceAckedIrq, GlobalIrq, IrqDisposition};
use ls2k1000la::irq_owner::{IrqOwner, IrqOwnerTable};
use ls2k1000la::mmc::{MmcIrqAckError, RegisterIo};
use ls2k1000la::platform::MmcError;

const REG_INT: usize = 0x3c;
const COMMAND_SENT: u32 = 1 << 6;

#[derive(Default)]
struct MockRegisters {
    status: u32,
    writes: Vec<(usize, u32)>,
}

impl RegisterIo for MockRegisters {
    fn accesses(&self) -> ls2k1000la::mmc::AccessHistory {
        unreachable!("specification only")
    }

    fn read32(&mut self, offset: usize) -> Result<u32, MmcError> {
        if offset == REG_INT {
            Ok(self.status)
        } else {
            Err(MmcError::RegisterOutOfRange)
        }
    }
    fn write32(&mut self, offset: usize, value: u32) -> Result<(), MmcError> {
        self.writes.push((offset, value));
        Ok(())
    }
}

fn acknowledged(irq: GlobalIrq) -> AcknowledgedIrq {
    AcknowledgedIrq::after_mask_ack(irq)
}

#[test]
fn mmc_owner_persists_state_through_owner_table() {
    let irq = GlobalIrq::from_bank_local(0, 31).unwrap();
    let owner = BoardIrqOwner::MmcCommand(MmcCommandOwner::new(
        irq,
        MockRegisters { status: COMMAND_SENT, writes: Vec::new() },
    ));
    let mut table = IrqOwnerTable::new();
    table.register(irq, owner).unwrap_or_else(|_| panic!("register failed"));
    let active = table.begin(acknowledged(irq)).unwrap();
    let (active, disposition) = active.handle();
    assert_eq!(disposition, IrqDisposition::Rearm(DeviceAckedIrq::after_device_clear(irq)));
    table.finish(active).unwrap_or_else(|_| panic!("finish failed"));
    let BoardIrqOwner::MmcCommand(owner) = table.get(irq).unwrap() else {
        panic!("wrong owner variant")
    };
    assert_eq!(owner.handled(), 1);
    assert_eq!(owner.last_error(), None);
    assert_eq!(owner.registers().writes, [(REG_INT, COMMAND_SENT)]);
}

#[test]
fn board_owners_keep_failed_mmc_and_apbdma_masked() {
    let mmc_irq = GlobalIrq::from_bank_local(0, 31).unwrap();
    let mut mmc = BoardIrqOwner::MmcCommand(MmcCommandOwner::new(mmc_irq, MockRegisters::default()));
    assert_eq!(mmc.handle(acknowledged(mmc_irq)), IrqDisposition::KeepMasked);
    let BoardIrqOwner::MmcCommand(owner) = &mmc else { unreachable!() };
    assert_eq!(owner.last_error(), Some(MmcIrqAckError::NoKnownPending));

    let dma_irq = GlobalIrq::from_bank_local(1, 13).unwrap();
    let mut dma: BoardIrqOwner<MockRegisters> = BoardIrqOwner::ApbDmaDeferred(DeferredApbDmaOwner::new(dma_irq));
    assert_eq!(dma.handle(acknowledged(dma_irq)), IrqDisposition::KeepMasked);
    let BoardIrqOwner::ApbDmaDeferred(mut owner) = dma else { unreachable!() };
    assert_eq!(owner.handled(), 1);
    assert_eq!(owner.pending_irq(), Some(dma_irq));
    assert_eq!(owner.last_error(), None);
    assert_eq!(owner.take_acknowledged().unwrap().irq(), dma_irq);
    assert_eq!(owner.pending_irq(), None);
}

#[test]
fn apbdma_owner_preserves_first_token_across_wrong_and_duplicate_irqs() {
    let dma_irq = GlobalIrq::from_bank_local(1, 13).unwrap();
    let wrong_irq = GlobalIrq::from_bank_local(0, 13).unwrap();
    let mut owner = DeferredApbDmaOwner::new(dma_irq);
    assert_eq!(owner.handle(acknowledged(wrong_irq)), IrqDisposition::KeepMasked);
    assert_eq!(owner.pending_irq(), None);
    assert_eq!(owner.last_error(), Some(DeferredApbDmaError::UnexpectedIrq));

    assert_eq!(owner.handle(acknowledged(dma_irq)), IrqDisposition::KeepMasked);
    assert_eq!(owner.pending_irq(), Some(dma_irq));
    assert_eq!(owner.handle(acknowledged(dma_irq)), IrqDisposition::KeepMasked);
    assert_eq!(owner.pending_irq(), Some(dma_irq));
    assert_eq!(owner.last_error(), Some(DeferredApbDmaError::PendingNotConsumed));
    assert_eq!(owner.take_acknowledged().unwrap().irq(), dma_irq);
    assert_eq!(owner.take_acknowledged(), None);
    assert_eq!(owner.handled(), 3);
}

#[test]
fn mmc_owner_rejects_foreign_source_without_touching_registers() {
    let irq = GlobalIrq::from_bank_local(0, 31).unwrap();
    let other = GlobalIrq::from_bank_local(0, 30).unwrap();
    let mut owner = MmcCommandOwner::new(irq, MockRegisters { status: COMMAND_SENT, writes: Vec::new() });
    assert_eq!(owner.handle(acknowledged(other)), IrqDisposition::KeepMasked);
    assert_eq!(owner.last_error(), Some(MmcIrqAckError::UnexpectedSource));
    assert!(owner.registers().writes.is_empty());
    assert_eq!(owner.into_registers().status, COMMAND_SENT);
}
