use rticx_riscv::dispatchers::{
    first_invalid_dispatcher, is_allowed_dispatcher, pre_codegen_validation, DispatcherError,
};
use rticx_riscv::features::{Chip, SlicBackend, Target};

fn names(list: &[&str]) -> Vec<String> {
    list.iter().map(|s| s.to_string()).collect()
}

#[test]
fn the_four_cpu_interrupts_are_allowed() {
    for n in ["FROM_CPU_INTR0", "FROM_CPU_INTR1", "FROM_CPU_INTR2", "FROM_CPU_INTR3"] {
        assert!(is_allowed_dispatcher(n));
    }
    assert!(!is_allowed_dispatcher("FROM_CPU_INTR4"));
    assert!(!is_allowed_dispatcher("GPIO"));
    assert!(!is_allowed_dispatcher(""));
}

#[test]
fn surrounding_whitespace_is_ignored() {
    let list = names(&[" FROM_CPU_INTR1 ", "\tFROM_CPU_INTR2\n"]);
    assert_eq!(first_invalid_dispatcher(&list), None);
}

#[test]
fn first_invalid_dispatcher_is_reported() {
    let list = names(&["FROM_CPU_INTR0", "GPIO", "UART0"]);
    assert_eq!(first_invalid_dispatcher(&list), Some(1));
    assert_eq!(
        pre_codegen_validation(Target::Esp32(Chip::Esp32c3), Some(&list)),
        Err(DispatcherError { index: 1 })
    );
}

#[test]
fn valid_esp32_dispatchers_pass() {
    let list = names(&["FROM_CPU_INTR0", "FROM_CPU_INTR1"]);
    assert_eq!(pre_codegen_validation(Target::Esp32(Chip::Esp32c6), Some(&list)), Ok(()));
}

#[test]
fn slic_accepts_any_dispatcher() {
    let list = names(&["GPIO", "SoftwareInterrupt1"]);
    assert_eq!(pre_codegen_validation(Target::Slic(SlicBackend::Mecall), Some(&list)), Ok(()));
}

#[test]
fn no_software_tasks_means_nothing_to_check() {
    assert_eq!(pre_codegen_validation(Target::Esp32(Chip::Esp32c3), None), Ok(()));
}
