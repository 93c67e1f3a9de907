//! The userspace loader's arithmetic and the ring3 transition frame, over
//! plain values: page counts and addresses for mapping a code image and a
//! stack at their fixed virtual bases, and the manual interrupt-return frame
//! that performs the one-way jump to ring 3. The page mapper, the physical
//! frame allocator, and the privileged return instruction are the boot code's
//! hardware actions.
use vstd::prelude::*;
use crate::gdt::Selectors;

verus! {

pub const PAGE_SIZE: u64 = 4096;

/// The fixed virtual base where a user code image is mapped.
pub const USER_CODE_BASE: u64 = 0x0000_4000_0000_0000;

/// The fixed virtual base of the user stack region.
pub const USER_STACK_BASE: u64 = 0x0000_7000_0000_0000;

/// The user stack spans twenty pages.
pub const USER_STACK_PAGES: u64 = 20;

pub const USER_STACK_SIZE: u64 = 4096 * 20;

/// How many pages hold a code image: its length rounded up to whole pages.
pub fn pages_needed(code_size: usize) -> (r: usize)
    requires
        code_size <= usize::MAX - 4095,
    ensures
        r == (code_size + 4095) / 4096,
{
    (code_size + 4095) / 4096
}

/// The virtual addresses of the pages that hold a code image of the given
/// size, in mapping order: one page every four kibibytes from the fixed base.
pub fn code_page_addresses(code_size: usize) -> (r: Vec<u64>)
    requires
        code_size <= 0x1000_0000,
    ensures
        r@.len() == (code_size + 4095) / 4096,
        forall|i: int| 0 <= i < r@.len() ==> r@[i] == USER_CODE_BASE + i * 4096,
{
    let count = pages_needed(code_size);
    let mut r: Vec<u64> = Vec::new();
    let mut i: usize = 0;
    while i < count
        invariant
            i <= count,
            count <= 0x10_0001,
            r@.len() == i,
            forall|k: int| 0 <= k < i ==> r@[k] == USER_CODE_BASE + k * 4096,
        decreases count - i,
    {
        r.push(USER_CODE_BASE + (i as u64) * PAGE_SIZE);
        i += 1;
    }
    r
}

/// The virtual addresses of the twenty user-stack pages, in mapping order.
pub fn stack_page_addresses() -> (r: Vec<u64>)
    ensures
        r@.len() == USER_STACK_PAGES,
        forall|i: int| 0 <= i < r@.len() ==> r@[i] == USER_STACK_BASE + i * 4096,
{
    let mut r: Vec<u64> = Vec::new();
    let mut i: u64 = 0;
    while i < USER_STACK_PAGES
        invariant
            i <= USER_STACK_PAGES,
            r@.len() == i,
            forall|k: int| 0 <= k < i ==> r@[k] == USER_STACK_BASE + k * 4096,
        decreases USER_STACK_PAGES - i,
    {
        r.push(USER_STACK_BASE + i * PAGE_SIZE);
        i += 1;
    }
    r
}

/// The address handed out as the stack pointer: the end of the stack region,
/// since stacks grow downward.
pub fn user_stack_top() -> (r: u64)
    ensures
        r == USER_STACK_BASE + USER_STACK_SIZE,
{
    USER_STACK_BASE + USER_STACK_SIZE
}

/// The manual interrupt-return frame for the ring0-to-ring3 jump, from the
/// bottom of the stack up: stack segment, stack pointer, flags, code segment,
/// instruction pointer.
pub struct IretFrame {
    pub ss: u16,
    pub rsp: u64,
    pub rflags: u64,
    pub cs: u16,
    pub rip: u64,
}

/// The interrupt-enable flag, the only flag set when entering user mode.
pub const RFLAGS_INTERRUPT_ENABLE: u64 = 0x200;

/// Builds the frame that the privileged return instruction consumes: user
/// data selector as stack segment, the given stack top, interrupts enabled,
/// user code selector, and the image's entry point.
pub fn user_entry_frame(selectors: &Selectors, entry_point: u64, user_stack: u64) -> (f: IretFrame)
    ensures
        f.ss == selectors.user_data_selector,
        f.rsp == user_stack,
        f.rflags == RFLAGS_INTERRUPT_ENABLE,
        f.cs == selectors.user_code_selector,
        f.rip == entry_point,
{
    IretFrame {
        ss: selectors.user_data_selector,
        rsp: user_stack,
        rflags: RFLAGS_INTERRUPT_ENABLE,
        cs: selectors.user_code_selector,
        rip: entry_point,
    }
}

} // verus!
