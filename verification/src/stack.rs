//! The start-up check for a stack that has already overflowed into `.bss`.
use vstd::prelude::*;

verus! {

/// The stack pointer was found below the end of `.bss`, inside `.bss`.
#[derive(Clone, Copy, Debug, PartialEq, Eq, Structural)]
pub struct StackOverflow {
    pub stack_pointer: u32,
    pub bss_end: u32,
}

/// Checks the stack pointer against the end of `.bss`, the lowest address the
/// stack may legally use: the stack has overflowed once the stack pointer lies
/// below it. When the stack starts at or below `.bss` (a layout with
/// the stack moved below the data, as flip-link makes it), an overflow hits the
/// end of RAM instead and the stack pointer says nothing: the check passes.
pub fn check_stack_overflow(stack_start: u32, bss_end: u32, stack_pointer: u32) -> (r: Result<
    (),
    StackOverflow,
>)
    ensures
        r is Err <==> (stack_start > bss_end && stack_pointer < bss_end),
        r matches Err(e) ==> e.stack_pointer == stack_pointer && e.bss_end == bss_end,
{
    if stack_start > bss_end && stack_pointer < bss_end {
        Err(StackOverflow { stack_pointer, bss_end })
    } else {
        Ok(())
    }
}

} // verus!
