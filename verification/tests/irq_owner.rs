use ls2k1000la::irq_domain::{AcknowledgedIrq, GlobalIrq};
use ls2k1000la::irq_owner::{IrqOwnerTable, OwnerError};

fn irq(local: u32) -> GlobalIrq {
    GlobalIrq::from_bank_local(0, local).unwrap()
}

fn acknowledged(irq: GlobalIrq) -> AcknowledgedIrq {
    AcknowledgedIrq::after_mask_ack(irq)
}

#[test]
fn register_begin_mutate_finish_and_unregister_preserve_one_owner() {
    let source = irq(7);
    let mut table = IrqOwnerTable::new();
    assert_eq!(table.register(source, 10u32), Ok(()));
    let duplicate = table.register(source, 20).unwrap_err();
    assert_eq!(duplicate, (OwnerError::AlreadyRegistered, 20));
    let mut active = table.begin(acknowledged(source)).unwrap();
    assert_eq!(active.irq(), source);
    *active.owner_mut() += 5;
    assert!(table.is_busy(source));
    let reentry = table.begin(acknowledged(source)).unwrap_err();
    assert_eq!(reentry.error, OwnerError::InHandler);
    assert_eq!(reentry.acknowledged.irq(), source);
    assert_eq!(table.unregister(source), Err(OwnerError::InHandler));
    table.finish(active).unwrap_or_else(|_| panic!("finish failed"));
    assert!(!table.is_busy(source));
    *table.get_mut(source).unwrap() += 1;
    assert_eq!(table.unregister(source), Ok(16));
}

#[test]
fn unregistered_and_dropped_active_owner_fail_closed() {
    let source = irq(9);
    let mut table: IrqOwnerTable<u32> = IrqOwnerTable::new();
    let failure = table.begin(acknowledged(source)).unwrap_err();
    assert_eq!(failure.error, OwnerError::NotRegistered);
    assert_eq!(failure.acknowledged.irq(), source);

    table.register(source, 42).unwrap();
    let active = table.begin(acknowledged(source)).unwrap();
    drop(active);
    assert!(table.is_busy(source));
    let failure = table.begin(acknowledged(source)).unwrap_err();
    assert_eq!(failure.error, OwnerError::InHandler);
    assert_eq!(table.unregister(source), Err(OwnerError::InHandler));
}

#[test]
fn active_owner_cannot_finish_into_another_table() {
    let source = irq(11);
    let mut first = IrqOwnerTable::new();
    let mut second = IrqOwnerTable::new();
    first.register(source, 1u32).unwrap();
    second.register(source, 2u32).unwrap();
    let first_active = first.begin(acknowledged(source)).unwrap();
    let second_active = second.begin(acknowledged(source)).unwrap();
    let failure = second.finish(first_active).err().expect("cross-table finish succeeded");
    assert_eq!(failure.error, OwnerError::InvalidCompletion);
    assert!(first.is_busy(source));
    assert!(second.is_busy(source));
    first.finish(failure.active).unwrap_or_else(|_| panic!("first finish failed"));
    second.finish(second_active).unwrap_or_else(|_| panic!("second finish failed"));
    assert_eq!(first.unregister(source), Ok(1));
    assert_eq!(second.unregister(source), Ok(2));
}

#[test]
fn finish_returns_the_table_to_its_state_before_begin() {
    let source = irq(3);
    let mut table = IrqOwnerTable::new();
    table.register(source, 5u32).unwrap();
    let active = table.begin(acknowledged(source)).unwrap();
    table.finish(active).unwrap_or_else(|_| panic!("finish failed"));
    assert!(!table.is_busy(source));
    assert_eq!(table.get(source), Ok(&5));
    assert_eq!(table.get(irq(4)), Err(OwnerError::NotRegistered));
}
