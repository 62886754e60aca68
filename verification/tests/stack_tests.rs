use rticx_riscv::stack::{check_stack_overflow, StackOverflow};

#[test]
fn stack_above_bss_is_fine() {
    assert_eq!(check_stack_overflow(0x8000_4000, 0x8000_1000, 0x8000_3f00), Ok(()));
}

#[test]
fn stack_pointer_in_bss_is_an_overflow() {
    assert_eq!(
        check_stack_overflow(0x8000_4000, 0x8000_1000, 0x8000_0f00),
        Err(StackOverflow { stack_pointer: 0x8000_0f00, bss_end: 0x8000_1000 })
    );
}

#[test]
fn stack_pointer_at_bss_end_is_no_overflow() {
    assert_eq!(check_stack_overflow(0x8000_4000, 0x8000_1000, 0x8000_1000), Ok(()));
}

#[test]
fn stack_pointer_just_below_bss_end_is_an_overflow() {
    assert!(check_stack_overflow(0x8000_4000, 0x8000_1000, 0x8000_0fff).is_err());
}

#[test]
fn stack_below_bss_is_never_reported() {
    assert_eq!(check_stack_overflow(0x8000_0800, 0x8000_1000, 0x8000_0100), Ok(()));
    assert_eq!(check_stack_overflow(0x8000_1000, 0x8000_1000, 0), Ok(()));
}
