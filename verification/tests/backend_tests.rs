use rticx_riscv::backend::{
    dispatchers_use_slic_interrupts, global_definitions, wrap_task_execution, BackendState,
    PostInitPlan,
};
use rticx_riscv::cpu_interrupts::SlotsExhausted;
use rticx_riscv::cpu_interrupts::UsedIrq;
use rticx_riscv::features::{Chip, SlicBackend, Target};

fn irq(name: &str, priority: u16) -> UsedIrq {
    UsedIrq { name: name.to_string(), priority }
}

#[test]
fn slic_post_init_sets_each_priority() {
    let mut state = BackendState::new();
    let irqs = vec![irq("SoftLow", 1), irq("SoftHigh", 3), irq("Wide", 300)];
    match state.post_init(Target::Slic(SlicBackend::Mecall), &irqs).unwrap() {
        PostInitPlan::Slic(p) => {
            assert_eq!(p.len(), 3);
            assert_eq!((p[0].name.as_str(), p[0].priority), ("SoftLow", 1));
            assert_eq!((p[1].name.as_str(), p[1].priority), ("SoftHigh", 3));
            assert_eq!((p[2].name.as_str(), p[2].priority), ("Wide", 44));
        }
        PostInitPlan::Esp32(_) => panic!("SLIC target planned an ESP32 setup"),
    }
    assert_eq!(state.task_export_name(&"SoftLow".to_string()), None);
}

#[test]
fn esp32_post_init_binds_slots_and_names_handlers() {
    let mut state = BackendState::new();
    assert_eq!(state.task_export_name(&"GPIO".to_string()), None);
    let irqs = vec![irq("GPIO", 2), irq("UART0", 3)];
    match state.post_init(Target::Esp32(Chip::Esp32c3), &irqs).unwrap() {
        PostInitPlan::Esp32(b) => {
            assert_eq!(b.len(), 2);
            assert_eq!(b[0].cpu_interrupt, 16);
            assert_eq!(b[1].cpu_interrupt, 17);
        }
        PostInitPlan::Slic(_) => panic!("ESP32 target planned a SLIC setup"),
    }
    assert_eq!(state.task_export_name(&"GPIO".to_string()), Some("interrupt16".to_string()));
    assert_eq!(state.task_export_name(&"UART0".to_string()), Some("interrupt17".to_string()));
    assert_eq!(state.task_export_name(&"SPI2".to_string()), None);
}

#[test]
fn esp32c6_handlers_start_at_slot_twenty() {
    let mut state = BackendState::new();
    assert!(state.post_init(Target::Esp32(Chip::Esp32c6), &vec![irq("GPIO", 1)]).is_ok());
    assert_eq!(state.task_export_name(&"GPIO".to_string()), Some("interrupt20".to_string()));
}

#[test]
fn esp32_tasks_unpend_their_interrupt() {
    let w = wrap_task_execution(Target::Esp32(Chip::Esp32c3), 3, &Some("GPIO".to_string()));
    assert_eq!(w.unpend, Some("GPIO".to_string()));
    assert_eq!(w.run_priority, 3);
    let sw = wrap_task_execution(Target::Esp32(Chip::Esp32c6), 2, &None);
    assert_eq!(sw.unpend, None);
    assert_eq!(sw.run_priority, 2);
}

#[test]
fn slic_tasks_never_unpend() {
    let w = wrap_task_execution(Target::Slic(SlicBackend::Clint), 258, &Some("GPIO".to_string()));
    assert_eq!(w.unpend, None);
    assert_eq!(w.run_priority, 2);
}

#[test]
fn global_definitions_per_target() {
    let clint = global_definitions(Target::Slic(SlicBackend::Clint), 0).unwrap();
    assert_eq!(clint.clint_hart, Some("H0".to_string()));
    let clint12 = global_definitions(Target::Slic(SlicBackend::Clint), 12).unwrap();
    assert_eq!(clint12.clint_hart, Some("H12".to_string()));
    let mecall = global_definitions(Target::Slic(SlicBackend::Mecall), 3).unwrap();
    assert_eq!(mecall.clint_hart, None);
    assert!(global_definitions(Target::Esp32(Chip::Esp32c3), 0).is_none());
}

#[test]
fn esp32_post_init_refuses_more_interrupts_than_slots() {
    let mut state = BackendState::new();
    let irqs: Vec<UsedIrq> = (0..13).map(|i| irq(&format!("IRQ{i}"), 1)).collect();
    match state.post_init(Target::Esp32(Chip::Esp32c6), &irqs) {
        Err(e) => assert_eq!(e, SlotsExhausted { used: 13, free: 12 }),
        Ok(_) => panic!("thirteen interrupts fit in twelve slots"),
    }
    assert!(!state.has_bound_interrupts());
    assert_eq!(state.task_export_name(&"IRQ0".to_string()), None);
}

#[test]
fn esp32_post_init_records_the_binding_once() {
    let mut state = BackendState::new();
    assert!(!state.has_bound_interrupts());
    assert!(state.post_init(Target::Esp32(Chip::Esp32c3), &vec![irq("GPIO", 1)]).is_ok());
    assert!(state.has_bound_interrupts());
}

#[test]
fn only_the_slic_names_dispatchers_through_its_own_type() {
    assert!(dispatchers_use_slic_interrupts(Target::Slic(SlicBackend::Mecall)));
    assert!(dispatchers_use_slic_interrupts(Target::Slic(SlicBackend::Clint)));
    assert!(!dispatchers_use_slic_interrupts(Target::Esp32(Chip::Esp32c3)));
}
