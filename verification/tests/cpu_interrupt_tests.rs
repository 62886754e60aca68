use rticx_riscv::cpu_interrupts::{
    allocate_cpu_interrupts, check_priority, export_name, first_unreserved_cpu_interrupt,
    free_cpu_interrupt_slots, CpuInterruptMap, PriorityCheck, SlotsExhausted, UsedIrq,
};
use rticx_riscv::features::Chip;

fn irq(name: &str, priority: u16) -> UsedIrq {
    UsedIrq { name: name.to_string(), priority }
}

#[test]
fn first_free_slot_follows_the_reserved_ones() {
    assert_eq!(first_unreserved_cpu_interrupt(Chip::Esp32c3), 16);
    assert_eq!(first_unreserved_cpu_interrupt(Chip::Esp32c6), 20);
}

#[test]
fn priorities_between_one_and_fourteen_are_in_range() {
    assert_eq!(check_priority(1), PriorityCheck::InRange);
    assert_eq!(check_priority(14), PriorityCheck::InRange);
    assert_eq!(check_priority(0), PriorityCheck::BelowMinimum);
    assert_eq!(check_priority(15), PriorityCheck::AboveMaximum);
    assert_eq!(check_priority(u16::MAX), PriorityCheck::AboveMaximum);
}

#[test]
fn interrupts_get_consecutive_slots_in_order() {
    let irqs = vec![irq("GPIO", 2), irq("UART0", 3), irq("TIMG0", 1)];
    let b = allocate_cpu_interrupts(Chip::Esp32c3, &irqs).unwrap();
    assert_eq!(b.len(), 3);
    assert_eq!((b[0].name.as_str(), b[0].priority, b[0].cpu_interrupt), ("GPIO", 2, 16));
    assert_eq!((b[1].name.as_str(), b[1].priority, b[1].cpu_interrupt), ("UART0", 3, 17));
    assert_eq!((b[2].name.as_str(), b[2].priority, b[2].cpu_interrupt), ("TIMG0", 1, 18));
    let c6 = allocate_cpu_interrupts(Chip::Esp32c6, &irqs).unwrap();
    assert_eq!(c6[0].cpu_interrupt, 20);
    assert_eq!(c6[2].cpu_interrupt, 22);
}

#[test]
fn no_interrupts_give_no_bindings() {
    assert!(allocate_cpu_interrupts(Chip::Esp32c3, &vec![]).unwrap().is_empty());
}

#[test]
fn map_finds_each_bound_interrupt() {
    let irqs = vec![irq("GPIO", 2), irq("UART0", 3)];
    let m = CpuInterruptMap::from_bindings(&allocate_cpu_interrupts(Chip::Esp32c6, &irqs).unwrap());
    assert_eq!(m.get(&"GPIO".to_string()), Some(20));
    assert_eq!(m.get(&"UART0".to_string()), Some(21));
    assert_eq!(m.get(&"SPI2".to_string()), None);
}

#[test]
fn a_name_bound_twice_keeps_its_last_slot() {
    let irqs = vec![irq("GPIO", 2), irq("UART0", 3), irq("GPIO", 4)];
    let m = CpuInterruptMap::from_bindings(&allocate_cpu_interrupts(Chip::Esp32c3, &irqs).unwrap());
    assert_eq!(m.get(&"GPIO".to_string()), Some(18));
    assert_eq!(m.get(&"UART0".to_string()), Some(17));
}

#[test]
fn export_name_is_interrupt_and_slot() {
    assert_eq!(export_name(16), "interrupt16");
    assert_eq!(export_name(31), "interrupt31");
    assert_eq!(export_name(5), "interrupt5");
}

fn many(n: usize) -> Vec<UsedIrq> {
    (0..n).map(|i| irq(&format!("IRQ{i}"), 1)).collect()
}

#[test]
fn free_slots_per_chip() {
    assert_eq!(free_cpu_interrupt_slots(Chip::Esp32c3), 16);
    assert_eq!(free_cpu_interrupt_slots(Chip::Esp32c6), 12);
}

#[test]
fn all_free_slots_can_be_used_up_to_thirty_one() {
    let c3 = allocate_cpu_interrupts(Chip::Esp32c3, &many(16)).unwrap();
    assert_eq!(c3.last().unwrap().cpu_interrupt, 31);
    let c6 = allocate_cpu_interrupts(Chip::Esp32c6, &many(12)).unwrap();
    assert_eq!(c6.last().unwrap().cpu_interrupt, 31);
    assert!(c3.iter().chain(c6.iter()).all(|b| b.cpu_interrupt <= 31));
}

#[test]
fn more_interrupts_than_free_slots_are_refused() {
    assert_eq!(
        allocate_cpu_interrupts(Chip::Esp32c3, &many(17)).unwrap_err(),
        SlotsExhausted { used: 17, free: 16 }
    );
    assert_eq!(
        allocate_cpu_interrupts(Chip::Esp32c6, &many(13)).unwrap_err(),
        SlotsExhausted { used: 13, free: 12 }
    );
}

#[test]
fn each_binding_carries_its_priority_verdict() {
    let irqs = vec![irq("A", 0), irq("B", 7), irq("C", 15)];
    let b = allocate_cpu_interrupts(Chip::Esp32c3, &irqs).unwrap();
    assert_eq!(b[0].priority_check, PriorityCheck::BelowMinimum);
    assert_eq!(b[1].priority_check, PriorityCheck::InRange);
    assert_eq!(b[2].priority_check, PriorityCheck::AboveMaximum);
}
